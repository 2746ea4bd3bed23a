//! The application state and what each key does to it.

use vstd::prelude::*;
use vstd::string::StringExecFns;
use vstd::string::StrSliceExecFns;
use crate::clock::unix_seconds;
use crate::error::CommitError;
use crate::input::{
    empty_slots, EntityKind, InputField, InputMode, InputModeView, InputState, Key,
};
use crate::laws::lemma_handle_key_keeps_wf;
use crate::machine::{menu_items, success_message, AppView, MenuView};
use crate::model::views;
use crate::store::UserData;
use crate::text::{insert_char, remove_char};

verus! {

/// The menu: its entries and the selected one.
#[derive(Debug)]
pub struct MenuState {
    pub selected: usize,
    pub items: Vec<String>,
}

impl View for MenuState {
    type V = MenuView;

    open spec fn view(&self) -> MenuView {
        MenuView { selected: self.selected as int, items: views(self.items@) }
    }
}

/// The whole state of the application.
#[derive(Debug)]
pub struct App {
    pub should_quit: bool,
    pub menu_state: MenuState,
    pub user_data: UserData,
    pub input: InputState,
}

impl View for App {
    type V = AppView;

    open spec fn view(&self) -> AppView {
        AppView {
            should_quit: self.should_quit,
            menu_state: self.menu_state@,
            user_data: self.user_data@,
            input: self.input@,
        }
    }
}

/// The message left by a commit that stored its record.
fn success_text(kind: EntityKind) -> (text: String)
    ensures
        text@ == success_message(kind),
{
    match kind {
        EntityKind::Bank => String::from_str("Bank added successfully"),
        EntityKind::Bucket => String::from_str("Bucket added successfully"),
        EntityKind::Tag => String::from_str("Tag added successfully"),
        EntityKind::Transaction => String::from_str("Transaction added successfully"),
    }
}

impl App {
    /// The state at start.
    pub fn new() -> (app: App)
        ensures
            app@ == AppView::initial(),
            app@.wf(),
            app@.user_data.wf(),
    {
        let mut items: Vec<String> = Vec::new();
        items.push(String::from_str("Banks"));
        items.push(String::from_str("Buckets"));
        items.push(String::from_str("Tags"));
        items.push(String::from_str("Transactions"));
        items.push(String::from_str("Exit"));
        assert(views(items@) =~= menu_items());
        App {
            should_quit: false,
            menu_state: MenuState { selected: 0, items },
            user_data: UserData::new(),
            input: InputState::new(),
        }
    }

    /// Whether the state is one that `handle_events` and `handle_key` take:
    /// a menu entry is selected, the cursor lies within the open field's
    /// text, that text is what the field's slot holds, and one more
    /// transaction can be numbered.
    pub fn accepts_events(&self) -> (b: bool)
        ensures
            b == (self@.wf() && self.user_data.transaction.len() < u64::MAX),
    {
        assert(self@.input.slots.dom() =~= Set::<InputField>::full());
        if self.menu_state.selected >= self.menu_state.items.len() {
            return false;
        }
        if self.user_data.transaction.len() as u64 == u64::MAX {
            return false;
        }
        match &self.input.mode {
            InputMode::Normal => true,
            InputMode::Editing { input, cursor_position, field } => {
                *cursor_position <= input.as_str().unicode_len() && *self.input.get(*field)
                    == *input
            },
        }
    }

    /// Handles one event, a key press or none, at the time that the system
    /// clock shows.
    pub fn handle_events(&mut self, event: Option<Key>)
        requires
            old(self)@.wf(),
            old(self).user_data.transaction.len() < u64::MAX,
        ensures
            exists|now: u64| final(self)@ == old(self)@.handle_events(event, now),
            event is None ==> final(self)@ == old(self)@,
            final(self)@.wf(),
            old(self)@.user_data.wf() ==> final(self)@.user_data.wf(),
    {
        match event {
            Some(key) => {
                let now = unix_seconds();
                self.handle_key(key, now);
                assert(self@ == old(self)@.handle_events(event, now));
            },
            None => {
                assert(self@ == old(self)@.handle_events(event, 0));
            },
        }
    }

    /// Handles a key pressed at time `now`.
    pub fn handle_key(&mut self, key: Key, now: u64)
        requires
            old(self)@.wf(),
            old(self).user_data.transaction.len() < u64::MAX,
        ensures
            final(self)@ == old(self)@.handle_key(key, now),
            final(self)@.wf(),
            old(self)@.user_data.wf() ==> final(self)@.user_data.wf(),
    {
        proof {
            lemma_handle_key_keeps_wf(self@, key, now);
        }
        let open_field: Option<InputField> = match &self.input.mode {
            InputMode::Normal => None,
            InputMode::Editing { field, .. } => Some(*field),
        };
        match open_field {
            None => self.handle_normal_mode(key),
            Some(field) => self.handle_editing_mode(key, field, now),
        }
    }

    /// Handles a key pressed while no form is open.
    pub fn handle_normal_mode(&mut self, key: Key)
        requires
            old(self)@.menu_state.items.len() > 0,
        ensures
            final(self)@ == old(self)@.handle_normal_mode(key),
    {
        match key {
            Key::Char(c) => {
                if c == 'q' {
                    self.should_quit = true;
                } else if c == 'n' {
                    let selected = self.menu_state.selected;
                    if selected == 0 {
                        self.start_new_bank_input();
                    } else if selected == 1 {
                        self.start_new_bucket_input();
                    } else if selected == 2 {
                        self.start_new_tag_input();
                    } else if selected == 3 {
                        self.start_new_transaction_input();
                    }
                }
            },
            Key::Up => {
                if self.menu_state.selected > 0 {
                    self.menu_state.selected -= 1;
                } else {
                    self.menu_state.selected = self.menu_state.items.len() - 1;
                }
            },
            Key::Down => {
                if self.menu_state.selected < self.menu_state.items.len() - 1 {
                    self.menu_state.selected += 1;
                } else {
                    self.menu_state.selected = 0;
                }
            },
            Key::Enter => {
                if self.menu_state.selected == self.menu_state.items.len() - 1 {
                    self.should_quit = true;
                }
            },
            _ => {},
        }
    }

    /// Handles a key pressed while `field` is open.
    pub fn handle_editing_mode(&mut self, key: Key, field: InputField, now: u64)
        requires
            old(self)@.input.wf(),
            old(self).user_data.transaction.len() < u64::MAX,
        ensures
            final(self)@ == old(self)@.handle_editing_mode(key, field, now),
    {
        match key {
            Key::Enter | Key::Down => {
                self.move_to_next_field(field, now);
            },
            Key::Up => {
                self.move_to_previous_field(field);
            },
            Key::Esc => {
                self.input.mode = InputMode::Normal;
                self.input.message = String::new();
                self.input.clear_slots();
            },
            Key::Backspace => {
                let edited: Option<(String, usize, InputField)> = match &self.input.mode {
                    InputMode::Normal => None,
                    InputMode::Editing { input, cursor_position, field } => {
                        if *cursor_position > 0 {
                            let text = remove_char(input.as_str(), *cursor_position - 1);
                            Some((text, *cursor_position - 1, *field))
                        } else {
                            Some((input.clone(), *cursor_position, *field))
                        }
                    },
                };
                self.edit(edited);
            },
            Key::Char(c) => {
                let edited: Option<(String, usize, InputField)> = match &self.input.mode {
                    InputMode::Normal => None,
                    InputMode::Editing { input, cursor_position, field } => {
                        let text = insert_char(input.as_str(), *cursor_position, c);
                        Some((text, *cursor_position + 1, *field))
                    },
                };
                self.edit(edited);
            },
            Key::Other => {},
        }
    }

    /// Puts an edited text in the open field and in its slot.
    fn edit(&mut self, edited: Option<(String, usize, InputField)>)
        requires
            match edited {
                Some((_, _, field)) => old(self)@.input.mode matches InputModeView::Editing {
                    field: open,
                    ..
                } && open == field,
                None => old(self)@.input.mode is Normal,
            },
        ensures
            match edited {
                Some((text, cursor, _)) => final(self)@ == old(self)@.edit(text@, cursor as int),
                None => final(self)@ == old(self)@,
            },
    {
        match edited {
            Some((text, cursor, field)) => {
                let ghost typed = text@;
                self.update_field_value(&field, text.as_str());
                self.input.mode = InputMode::Editing { input: text, cursor_position: cursor, field };
                assert(self@.input.slots =~= old(self)@.input.slots.insert(field, typed));
            },
            None => {},
        }
    }

    /// Opens a fresh bank form.
    pub fn start_new_bank_input(&mut self)
        ensures
            final(self)@ == old(self)@.begin(EntityKind::Bank),
    {
        self.clear_input_fields();
        self.switch_to_field(InputField::BankName, String::new());
    }

    /// Opens a fresh bucket form.
    pub fn start_new_bucket_input(&mut self)
        ensures
            final(self)@ == old(self)@.begin(EntityKind::Bucket),
    {
        self.clear_input_fields();
        self.switch_to_field(InputField::BucketName, String::new());
    }

    /// Opens a fresh tag form.
    pub fn start_new_tag_input(&mut self)
        ensures
            final(self)@ == old(self)@.begin(EntityKind::Tag),
    {
        self.clear_input_fields();
        self.switch_to_field(InputField::TagName, String::new());
    }

    /// Opens a fresh transaction form.
    pub fn start_new_transaction_input(&mut self)
        ensures
            final(self)@ == old(self)@.begin(EntityKind::Transaction),
    {
        self.clear_input_fields();
        self.switch_to_field(InputField::TransactionType, String::new());
    }

    /// Empties every slot and the message.
    pub fn clear_input_fields(&mut self)
        ensures
            final(self)@ == old(self)@.clear_input_fields(),
    {
        self.input.clear_slots();
        self.input.message = String::new();
        assert(self@.input.slots =~= empty_slots());
    }

    /// Leaves the outcome of a commit of `kind` in the message; empties the
    /// slots where the store took the record.
    fn finish_commit(&mut self, kind: EntityKind, result: Result<(), CommitError>)
        ensures
            final(self)@.should_quit == old(self)@.should_quit,
            final(self)@.menu_state == old(self)@.menu_state,
            final(self)@.user_data == old(self)@.user_data,
            final(self)@.input.mode == old(self)@.input.mode,
            match result {
                Ok(_) => final(self)@.input.slots == empty_slots()
                    && final(self)@.input.message == success_message(kind),
                Err(error) => final(self)@.input.slots == old(self)@.input.slots
                    && final(self)@.input.message == error@.message(),
            },
    {
        match result {
            Ok(_) => {
                self.input.clear_slots();
                self.input.message = success_text(kind);
            },
            Err(error) => {
                self.input.message = error.message();
            },
        }
    }

    /// Commits the bank form.
    pub fn add_bank(&mut self)
        ensures
            forall|now: u64| final(self)@ == old(self)@.commit(EntityKind::Bank, now),
    {
        let result = self.user_data.commit_bank(
            self.input.bank_name.as_str(),
            self.input.bank_account.as_str(),
            self.input.bank_balance.as_str(),
        );
        self.finish_commit(EntityKind::Bank, result);
    }

    /// Commits the bucket form.
    pub fn add_bucket(&mut self)
        ensures
            forall|now: u64| final(self)@ == old(self)@.commit(EntityKind::Bucket, now),
    {
        let result = self.user_data.commit_bucket(
            self.input.bucket_name.as_str(),
            self.input.bucket_balance.as_str(),
            self.input.bucket_bank_name.as_str(),
            self.input.bucket_account.as_str(),
        );
        self.finish_commit(EntityKind::Bucket, result);
    }

    /// Commits the tag form.
    pub fn add_tag(&mut self)
        ensures
            forall|now: u64| final(self)@ == old(self)@.commit(EntityKind::Tag, now),
    {
        let result = self.user_data.commit_tag(
            self.input.tag_name.as_str(),
            self.input.tag_bucket.as_str(),
            self.input.tag_description.as_str(),
        );
        self.finish_commit(EntityKind::Tag, result);
    }

    /// Commits the transaction form, dated `timestamp`.
    pub fn add_transaction(&mut self, timestamp: u64)
        requires
            old(self).user_data.transaction.len() < u64::MAX,
        ensures
            final(self)@ == old(self)@.commit(EntityKind::Transaction, timestamp),
    {
        let result = self.user_data.commit_transaction(
            self.input.transaction_type.as_str(),
            self.input.transaction_amount.as_str(),
            self.input.transaction_tags.as_str(),
            self.input.transaction_description.as_str(),
            timestamp,
        );
        self.finish_commit(EntityKind::Transaction, result);
    }

    /// Confirms `current_field` at time `now`.
    pub fn move_to_next_field(&mut self, current_field: InputField, now: u64)
        requires
            old(self).user_data.transaction.len() < u64::MAX,
        ensures
            final(self)@ == old(self)@.move_to_next_field(current_field, now),
    {
        match current_field.next() {
            Some(next) => {
                let value = self.input.get(next).clone();
                self.switch_to_field(next, value);
            },
            None => {
                match current_field.kind() {
                    EntityKind::Bank => self.add_bank(),
                    EntityKind::Bucket => self.add_bucket(),
                    EntityKind::Tag => self.add_tag(),
                    EntityKind::Transaction => self.add_transaction(now),
                }
                self.input.mode = InputMode::Normal;
                self.input.clear_slots();
            },
        }
    }

    /// Goes back from `current_field`.
    pub fn move_to_previous_field(&mut self, current_field: InputField)
        ensures
            final(self)@ == old(self)@.move_to_previous_field(current_field),
    {
        match current_field.previous() {
            Some(previous) => {
                let value = self.input.get(previous).clone();
                self.switch_to_field(previous, value);
            },
            None => {},
        }
    }

    /// Opens `field` on `value`, the cursor behind its last character.
    pub fn switch_to_field(&mut self, field: InputField, value: String)
        ensures
            final(self)@ == old(self)@.switch_to_field(field, value@),
    {
        let cursor_position = value.as_str().unicode_len();
        self.input.mode = InputMode::Editing { input: value, cursor_position, field };
        assert(self@.input.slots =~= old(self)@.input.slots);
    }

    /// Puts `value` in the slot of `field`.
    pub fn update_field_value(&mut self, field: &InputField, value: &str)
        ensures
            final(self)@ == old(self)@.update_field_value(*field, value@),
    {
        self.input.set(*field, value);
    }
}

} // verus!
