//! The form: the fields of each kind of record in their order, the text
//! typed so far for each field, and the field being edited.

use vstd::prelude::*;
use vstd::string::StringExecFns;

verus! {

/// The four kinds of record that a form can create.
#[derive(Clone, Copy, Debug, PartialEq, Eq, Structural)]
pub enum EntityKind {
    Bank,
    Bucket,
    Tag,
    Transaction,
}

/// A field of a form.
#[derive(Clone, Copy, Debug, PartialEq, Eq, Structural)]
pub enum InputField {
    BankName,
    BankAccountNumber,
    BankBalance,
    BucketName,
    BucketBalance,
    BucketBankName,
    BucketAccountNumber,
    TagName,
    TagBucketName,
    TagDescription,
    TransactionType,
    TransactionAmount,
    TransactionTags,
    TransactionDescription,
}

/// A key press, as far as the form tells keys apart.
#[derive(Clone, Copy, Debug, PartialEq, Eq, Structural)]
pub enum Key {
    Char(char),
    Enter,
    Up,
    Down,
    Esc,
    Backspace,
    Other,
}

/// The fields of a kind's form, in the order in which they are filled. The
/// last one commits.
pub open spec fn form(kind: EntityKind) -> Seq<InputField> {
    match kind {
        EntityKind::Bank => seq![
            InputField::BankName,
            InputField::BankAccountNumber,
            InputField::BankBalance,
        ],
        EntityKind::Bucket => seq![
            InputField::BucketName,
            InputField::BucketBalance,
            InputField::BucketBankName,
            InputField::BucketAccountNumber,
        ],
        EntityKind::Tag => seq![
            InputField::TagName,
            InputField::TagBucketName,
            InputField::TagDescription,
        ],
        EntityKind::Transaction => seq![
            InputField::TransactionType,
            InputField::TransactionAmount,
            InputField::TransactionTags,
            InputField::TransactionDescription,
        ],
    }
}

impl EntityKind {
    /// The first field of this kind's form.
    pub fn first_field(self) -> (field: InputField)
        ensures
            field == form(self)[0],
    {
        match self {
            EntityKind::Bank => InputField::BankName,
            EntityKind::Bucket => InputField::BucketName,
            EntityKind::Tag => InputField::TagName,
            EntityKind::Transaction => InputField::TransactionType,
        }
    }
}

impl InputField {
    /// The kind of record whose form holds this field.
    pub open spec fn spec_kind(self) -> EntityKind {
        match self {
            InputField::BankName | InputField::BankAccountNumber | InputField::BankBalance =>
                EntityKind::Bank,
            InputField::BucketName
            | InputField::BucketBalance
            | InputField::BucketBankName
            | InputField::BucketAccountNumber => EntityKind::Bucket,
            InputField::TagName | InputField::TagBucketName | InputField::TagDescription =>
                EntityKind::Tag,
            InputField::TransactionType
            | InputField::TransactionAmount
            | InputField::TransactionTags
            | InputField::TransactionDescription => EntityKind::Transaction,
        }
    }

    /// The place of this field in its form, counted from 0.
    pub open spec fn spec_position(self) -> int {
        match self {
            InputField::BankName => 0,
            InputField::BankAccountNumber => 1,
            InputField::BankBalance => 2,
            InputField::BucketName => 0,
            InputField::BucketBalance => 1,
            InputField::BucketBankName => 2,
            InputField::BucketAccountNumber => 3,
            InputField::TagName => 0,
            InputField::TagBucketName => 1,
            InputField::TagDescription => 2,
            InputField::TransactionType => 0,
            InputField::TransactionAmount => 1,
            InputField::TransactionTags => 2,
            InputField::TransactionDescription => 3,
        }
    }

    /// The field after this one in its form; none after the last.
    pub open spec fn spec_next(self) -> Option<InputField> {
        let fields = form(self.spec_kind());
        if self.spec_position() + 1 < fields.len() {
            Some(fields[self.spec_position() + 1])
        } else {
            None
        }
    }

    /// The field before this one in its form; none before the first.
    pub open spec fn spec_previous(self) -> Option<InputField> {
        if self.spec_position() > 0 {
            Some(form(self.spec_kind())[self.spec_position() - 1])
        } else {
            None
        }
    }

    pub fn kind(self) -> (kind: EntityKind)
        ensures
            kind == self.spec_kind(),
    {
        match self {
            InputField::BankName | InputField::BankAccountNumber | InputField::BankBalance =>
                EntityKind::Bank,
            InputField::BucketName
            | InputField::BucketBalance
            | InputField::BucketBankName
            | InputField::BucketAccountNumber => EntityKind::Bucket,
            InputField::TagName | InputField::TagBucketName | InputField::TagDescription =>
                EntityKind::Tag,
            InputField::TransactionType
            | InputField::TransactionAmount
            | InputField::TransactionTags
            | InputField::TransactionDescription => EntityKind::Transaction,
        }
    }

    pub fn next(self) -> (r: Option<InputField>)
        ensures
            r == self.spec_next(),
    {
        match self {
            InputField::BankName => Some(InputField::BankAccountNumber),
            InputField::BankAccountNumber => Some(InputField::BankBalance),
            InputField::BankBalance => None,
            InputField::BucketName => Some(InputField::BucketBalance),
            InputField::BucketBalance => Some(InputField::BucketBankName),
            InputField::BucketBankName => Some(InputField::BucketAccountNumber),
            InputField::BucketAccountNumber => None,
            InputField::TagName => Some(InputField::TagBucketName),
            InputField::TagBucketName => Some(InputField::TagDescription),
            InputField::TagDescription => None,
            InputField::TransactionType => Some(InputField::TransactionAmount),
            InputField::TransactionAmount => Some(InputField::TransactionTags),
            InputField::TransactionTags => Some(InputField::TransactionDescription),
            InputField::TransactionDescription => None,
        }
    }

    pub fn previous(self) -> (r: Option<InputField>)
        ensures
            r == self.spec_previous(),
    {
        match self {
            InputField::BankName => None,
            InputField::BankAccountNumber => Some(InputField::BankName),
            InputField::BankBalance => Some(InputField::BankAccountNumber),
            InputField::BucketName => None,
            InputField::BucketBalance => Some(InputField::BucketName),
            InputField::BucketBankName => Some(InputField::BucketBalance),
            InputField::BucketAccountNumber => Some(InputField::BucketBankName),
            InputField::TagName => None,
            InputField::TagBucketName => Some(InputField::TagName),
            InputField::TagDescription => Some(InputField::TagBucketName),
            InputField::TransactionType => None,
            InputField::TransactionAmount => Some(InputField::TransactionType),
            InputField::TransactionTags => Some(InputField::TransactionAmount),
            InputField::TransactionDescription => Some(InputField::TransactionTags),
        }
    }
}

/// Every field stands in the form of its kind, at its position.
pub proof fn lemma_field_in_form(field: InputField)
    ensures
        0 <= field.spec_position() < form(field.spec_kind()).len(),
        form(field.spec_kind())[field.spec_position()] == field,
{
}

/// Every entry of a form is a field of that kind, at that position.
pub proof fn lemma_form_entries(kind: EntityKind, i: int)
    requires
        0 <= i < form(kind).len(),
    ensures
        form(kind)[i].spec_kind() == kind,
        form(kind)[i].spec_position() == i,
{
}

/// Whether a form is open, and on which field.
#[derive(Debug)]
pub enum InputMode {
    /// No form is open.
    Normal,
    /// `field` is being edited: `input` is its text so far, and
    /// `cursor_position` counts the characters before the cursor.
    Editing { input: String, cursor_position: usize, field: InputField },
}

pub enum InputModeView {
    Normal,
    Editing { input: Seq<char>, cursor_position: int, field: InputField },
}

impl View for InputMode {
    type V = InputModeView;

    open spec fn view(&self) -> InputModeView {
        match self {
            InputMode::Normal => InputModeView::Normal,
            InputMode::Editing { input, cursor_position, field } => InputModeView::Editing {
                input: input@,
                cursor_position: *cursor_position as int,
                field: *field,
            },
        }
    }
}

/// The text typed so far for every field, the open field, and the message
/// left by the last commit.
#[derive(Debug)]
pub struct InputState {
    pub mode: InputMode,
    pub bank_name: String,
    pub bank_account: String,
    pub bank_balance: String,
    pub bucket_name: String,
    pub bucket_balance: String,
    pub bucket_bank_name: String,
    pub bucket_account: String,
    pub tag_name: String,
    pub tag_bucket: String,
    pub tag_description: String,
    pub transaction_type: String,
    pub transaction_amount: String,
    pub transaction_tags: String,
    pub transaction_description: String,
    pub message: String,
}

pub struct InputStateView {
    pub mode: InputModeView,
    /// The text typed so far, for every field.
    pub slots: Map<InputField, Seq<char>>,
    pub message: Seq<char>,
}

/// The slots with nothing typed in any field.
pub open spec fn empty_slots() -> Map<InputField, Seq<char>> {
    Map::total(|field: InputField| Seq::<char>::empty())
}

impl InputState {
    /// The text typed so far for `field`.
    pub open spec fn slot(&self, field: InputField) -> Seq<char> {
        match field {
            InputField::BankName => self.bank_name@,
            InputField::BankAccountNumber => self.bank_account@,
            InputField::BankBalance => self.bank_balance@,
            InputField::BucketName => self.bucket_name@,
            InputField::BucketBalance => self.bucket_balance@,
            InputField::BucketBankName => self.bucket_bank_name@,
            InputField::BucketAccountNumber => self.bucket_account@,
            InputField::TagName => self.tag_name@,
            InputField::TagBucketName => self.tag_bucket@,
            InputField::TagDescription => self.tag_description@,
            InputField::TransactionType => self.transaction_type@,
            InputField::TransactionAmount => self.transaction_amount@,
            InputField::TransactionTags => self.transaction_tags@,
            InputField::TransactionDescription => self.transaction_description@,
        }
    }
}

impl View for InputState {
    type V = InputStateView;

    open spec fn view(&self) -> InputStateView {
        InputStateView {
            mode: self.mode@,
            slots: Map::total(|field: InputField| self.slot(field)),
            message: self.message@,
        }
    }
}

impl InputStateView {
    /// Nothing typed, no form open, no message.
    pub open spec fn empty() -> InputStateView {
        InputStateView {
            mode: InputModeView::Normal,
            slots: empty_slots(),
            message: Seq::empty(),
        }
    }

    /// Every field has a slot. While a field is edited, the cursor lies
    /// within its text, and the field's slot holds that text.
    pub open spec fn wf(self) -> bool {
        &&& self.slots.dom() == Set::<InputField>::full()
        &&& match self.mode {
            InputModeView::Normal => true,
            InputModeView::Editing { input, cursor_position, field } => {
                &&& 0 <= cursor_position <= input.len()
                &&& self.slots[field] == input
            },
        }
    }
}

impl InputState {
    /// Nothing typed, no form open, no message.
    pub fn new() -> (state: InputState)
        ensures
            state@ == InputStateView::empty(),
            state@.wf(),
    {
        let state = InputState {
            mode: InputMode::Normal,
            bank_name: String::new(),
            bank_account: String::new(),
            bank_balance: String::new(),
            bucket_name: String::new(),
            bucket_balance: String::new(),
            bucket_bank_name: String::new(),
            bucket_account: String::new(),
            tag_name: String::new(),
            tag_bucket: String::new(),
            tag_description: String::new(),
            transaction_type: String::new(),
            transaction_amount: String::new(),
            transaction_tags: String::new(),
            transaction_description: String::new(),
            message: String::new(),
        };
        assert(state@.slots =~= empty_slots());
        state
    }

    /// The text typed so far for `field`.
    pub fn get(&self, field: InputField) -> (text: &String)
        ensures
            text@ == self@.slots[field],
    {
        match field {
            InputField::BankName => &self.bank_name,
            InputField::BankAccountNumber => &self.bank_account,
            InputField::BankBalance => &self.bank_balance,
            InputField::BucketName => &self.bucket_name,
            InputField::BucketBalance => &self.bucket_balance,
            InputField::BucketBankName => &self.bucket_bank_name,
            InputField::BucketAccountNumber => &self.bucket_account,
            InputField::TagName => &self.tag_name,
            InputField::TagBucketName => &self.tag_bucket,
            InputField::TagDescription => &self.tag_description,
            InputField::TransactionType => &self.transaction_type,
            InputField::TransactionAmount => &self.transaction_amount,
            InputField::TransactionTags => &self.transaction_tags,
            InputField::TransactionDescription => &self.transaction_description,
        }
    }

    /// Puts `value` in the slot of `field`; nothing else changes.
    pub fn set(&mut self, field: InputField, value: &str)
        ensures
            final(self)@ == (InputStateView {
                slots: old(self)@.slots.insert(field, value@),
                ..old(self)@
            }),
    {
        let text = String::from_str(value);
        match field {
            InputField::BankName => self.bank_name = text,
            InputField::BankAccountNumber => self.bank_account = text,
            InputField::BankBalance => self.bank_balance = text,
            InputField::BucketName => self.bucket_name = text,
            InputField::BucketBalance => self.bucket_balance = text,
            InputField::BucketBankName => self.bucket_bank_name = text,
            InputField::BucketAccountNumber => self.bucket_account = text,
            InputField::TagName => self.tag_name = text,
            InputField::TagBucketName => self.tag_bucket = text,
            InputField::TagDescription => self.tag_description = text,
            InputField::TransactionType => self.transaction_type = text,
            InputField::TransactionAmount => self.transaction_amount = text,
            InputField::TransactionTags => self.transaction_tags = text,
            InputField::TransactionDescription => self.transaction_description = text,
        }
        assert(self@.slots =~= old(self)@.slots.insert(field, value@));
    }

    /// Empties every slot; mode and message stay.
    pub fn clear_slots(&mut self)
        ensures
            final(self)@ == (InputStateView { slots: empty_slots(), ..old(self)@ }),
    {
        self.bank_name = String::new();
        self.bank_account = String::new();
        self.bank_balance = String::new();
        self.bucket_name = String::new();
        self.bucket_balance = String::new();
        self.bucket_bank_name = String::new();
        self.bucket_account = String::new();
        self.tag_name = String::new();
        self.tag_bucket = String::new();
        self.tag_description = String::new();
        self.transaction_type = String::new();
        self.transaction_amount = String::new();
        self.transaction_tags = String::new();
        self.transaction_description = String::new();
        assert(self@.slots =~= empty_slots());
    }
}

} // verus!
