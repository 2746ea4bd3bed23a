//! What holds of every store and every form, proved from the definitions.

use vstd::prelude::*;
use crate::decimal::{decimal_of, is_decimal, DecimalView};
use crate::error::{CommitErrorView, ErrorKind};
use crate::input::{
    empty_slots, form, EntityKind, InputField, InputModeView, InputStateView, Key,
};
use crate::machine::{success_message, AppView};
use crate::model::{BankView, BucketView};
use crate::store::{bank_key, bucket_key, first, lemma_first_from, tag_key, UserDataView};

verus! {

/// `first` finds an element exactly where one satisfies `p`, and the element
/// it finds satisfies `p`.
pub proof fn lemma_first<T>(s: Seq<T>, p: spec_fn(T) -> bool)
    ensures
        first(s, p) is None <==> forall|i: int| 0 <= i < s.len() ==> !p(s[i]),
        first(s, p) matches Some(x) ==> p(x) && s.contains(x),
{
    lemma_first_from(s, p, 0);
}

/// A commit that the store takes leaves it well-formed: keys stay unique,
/// and the ids of the transactions stay 1, 2, 3, and so on, in the order of
/// commits, whatever kinds of record are committed in between.
pub proof fn lemma_commit_bank_keeps_wf(
    store: UserDataView,
    name: Seq<char>,
    account: Seq<char>,
    balance: Seq<char>,
)
    requires
        store.wf(),
    ensures
        store.commit_bank(name, account, balance) matches Ok(after) ==> after.wf()
            && after.transaction == store.transaction,
{
    lemma_first(store.bank, bank_key(name, account));
}

/// See `lemma_commit_bank_keeps_wf`.
pub proof fn lemma_commit_bucket_keeps_wf(
    store: UserDataView,
    name: Seq<char>,
    balance: Seq<char>,
    bank_name: Seq<char>,
    account: Seq<char>,
)
    requires
        store.wf(),
    ensures
        store.commit_bucket(name, balance, bank_name, account) matches Ok(after) ==> after.wf()
            && after.transaction == store.transaction,
{
    lemma_first(store.bucket, bucket_key(name));
    lemma_first(store.bank, bank_key(bank_name, account));
}

/// See `lemma_commit_bank_keeps_wf`.
pub proof fn lemma_commit_tag_keeps_wf(
    store: UserDataView,
    name: Seq<char>,
    bucket_name: Seq<char>,
    description: Seq<char>,
)
    requires
        store.wf(),
    ensures
        store.commit_tag(name, bucket_name, description) matches Ok(after) ==> after.wf()
            && after.transaction == store.transaction,
{
    lemma_first(store.tag, tag_key(name));
}

/// A committed transaction is appended with the id that follows the last
/// one, and the store stays well-formed.
pub proof fn lemma_commit_transaction_keeps_wf(
    store: UserDataView,
    kind: Seq<char>,
    amount: Seq<char>,
    tags: Seq<char>,
    description: Seq<char>,
    timestamp: u64,
)
    requires
        store.wf(),
        store.transaction.len() < u64::MAX,
    ensures
        store.commit_transaction(kind, amount, tags, description, timestamp) matches Ok(after)
            ==> after.wf() && after.transaction.len() == store.transaction.len() + 1
            && after.transaction.last().id == store.transaction.len() + 1
            && after.transaction.drop_last() == store.transaction,
{
    match store.commit_transaction(kind, amount, tags, description, timestamp) {
        Ok(after) => {
            assert(after.transaction.drop_last() =~= store.transaction);
        },
        Err(_) => {},
    }
}

/// After a bank is committed, the store holds exactly one bank with its
/// key, and a second commit with the same name and account number is
/// refused as a duplicate, whatever balance it brings.
pub proof fn lemma_second_bank_is_duplicate(
    store: UserDataView,
    name: Seq<char>,
    account: Seq<char>,
    balance: Seq<char>,
    second_balance: Seq<char>,
)
    requires
        store.commit_bank(name, account, balance) is Ok,
        is_decimal(second_balance),
    ensures
        ({
            let after = store.commit_bank(name, account, balance)->Ok_0;
            let second = after.commit_bank(name, account, second_balance);
            &&& second == Err::<UserDataView, CommitErrorView>(
                CommitErrorView::DuplicateBank { name, account },
            )
            &&& second->Err_0.kind() == ErrorKind::DuplicateIdentity
            &&& forall|i: int|
                0 <= i < after.bank.len() ==> (bank_key(name, account)(#[trigger] after.bank[i])
                    <==> i == after.bank.len() - 1)
        }),
{
    let after = store.commit_bank(name, account, balance)->Ok_0;
    lemma_first(store.bank, bank_key(name, account));
    lemma_first(after.bank, bank_key(name, account));
    assert(bank_key(name, account)(after.bank[after.bank.len() - 1]));
}

/// A bucket committed for a bank that is not stored appends two records: a
/// bank with that name, that account number and balance zero, and the
/// bucket, which holds a copy of that bank.
pub proof fn lemma_bucket_creates_missing_bank(
    store: UserDataView,
    name: Seq<char>,
    balance: Seq<char>,
    bank_name: Seq<char>,
    account: Seq<char>,
)
    requires
        is_decimal(balance),
        store.find_bucket(name) is None,
        store.find_bank(bank_name, account) is None,
    ensures
        ({
            let bank = BankView {
                name: bank_name,
                accountnumber: account,
                balance: DecimalView::zero(),
            };
            let bucket = BucketView { name, balance: decimal_of(balance), bank };
            &&& store.commit_bucket(name, balance, bank_name, account) matches Ok(after)
            &&& after.bank == store.bank.push(bank)
            &&& after.bucket == store.bucket.push(bucket)
            &&& after.tag == store.tag
            &&& after.transaction == store.transaction
            &&& after.size() == store.size() + 2
        }),
{
}

/// A bucket committed for a bank that is stored appends the bucket alone,
/// with a copy of the bank as it is then.
pub proof fn lemma_bucket_copies_stored_bank(
    store: UserDataView,
    name: Seq<char>,
    balance: Seq<char>,
    bank_name: Seq<char>,
    account: Seq<char>,
)
    requires
        is_decimal(balance),
        store.find_bucket(name) is None,
        store.find_bank(bank_name, account) is Some,
    ensures
        ({
            let bank = store.find_bank(bank_name, account)->0;
            &&& store.commit_bucket(name, balance, bank_name, account) matches Ok(after)
            &&& after.bank == store.bank
            &&& after.bucket == store.bucket.push(
                BucketView { name, balance: decimal_of(balance), bank },
            )
            &&& after.size() == store.size() + 1
            &&& store.bank.contains(bank)
        }),
{
    lemma_first(store.bank, bank_key(bank_name, account));
}

/// A tag committed for a bucket that is not stored is refused for the
/// missing bucket: no bucket is made for it.
pub proof fn lemma_tag_needs_bucket(
    store: UserDataView,
    name: Seq<char>,
    bucket_name: Seq<char>,
    description: Seq<char>,
)
    requires
        store.find_tag(name) is None,
        store.find_bucket(bucket_name) is None,
    ensures
        ({
            let refused = store.commit_tag(name, bucket_name, description);
            &&& refused == Err::<UserDataView, CommitErrorView>(
                CommitErrorView::MissingBucket { name: bucket_name },
            )
            &&& refused->Err_0.kind() == ErrorKind::UnresolvedReference
        }),
{
}

/// Resolving a list of names gives the tag that each name names, in the
/// order of the list; where a name names none, it gives the first such name
/// instead.
pub proof fn lemma_resolved_tags_exist(store: UserDataView, names: Seq<Seq<char>>)
    ensures
        match store.resolve_tags(names) {
            Ok(tags) => tags.len() == names.len() && forall|i: int|
                0 <= i < names.len() ==> store.find_tag(names[i]) == Some(#[trigger] tags[i]),
            Err(missing) => exists|i: int|
                0 <= i < names.len() && names[i] == missing && store.find_tag(names[i]) is None
                    && forall|j: int| 0 <= j < i ==> store.find_tag(#[trigger] names[j]) is Some,
        },
    decreases names.len(),
{
    if names.len() > 0 {
        let front = names.drop_last();
        lemma_resolved_tags_exist(store, front);
        match store.resolve_tags(front) {
            Ok(tags) => {
                if store.find_tag(names.last()) is None {
                    let i = names.len() - 1;
                    assert(names[i] == names.last());
                    assert forall|j: int| 0 <= j < i implies store.find_tag(
                        #[trigger] names[j],
                    ) is Some by {
                        assert(names[j] == front[j]);
                        assert(store.find_tag(front[j]) == Some(tags[j]));
                    }
                } else {
                    let all = tags.push(store.find_tag(names.last())->0);
                    assert forall|i: int| 0 <= i < names.len() implies store.find_tag(names[i])
                        == Some(#[trigger] all[i]) by {
                        if i < names.len() - 1 {
                            assert(names[i] == front[i]);
                            assert(all[i] == tags[i]);
                        }
                    }
                }
            },
            Err(missing) => {
                let i = choose|i: int|
                    0 <= i < front.len() && front[i] == missing && store.find_tag(front[i]) is None
                        && forall|j: int| 0 <= j < i ==> store.find_tag(#[trigger] front[j]) is Some;
                assert(names[i] == front[i]);
                assert forall|j: int| 0 <= j < i implies store.find_tag(
                    #[trigger] names[j],
                ) is Some by {
                    assert(names[j] == front[j]);
                }
            },
        }
    }
}

/// Text typed into an open field whose cursor stands behind its last
/// character is appended to the field, in the field's slot too, and the
/// cursor stays behind the last character.
pub proof fn lemma_type_text(s: AppView, text: Seq<char>, now: u64)
    requires
        s.input.wf(),
        s.input.mode matches InputModeView::Editing { input, cursor_position, .. }
            && cursor_position == input.len(),
    ensures
        s.input.mode matches InputModeView::Editing { input, cursor_position, field }
            && s.type_text(text, now) == s.edit(input + text, (input + text).len() as int),
        s.type_text(text, now).input.wf(),
    decreases text.len(),
{
    let input = s.input.mode->input;
    let field = s.input.mode->field;
    if text.len() == 0 {
        assert(input + text =~= input);
        assert(s.input.slots.insert(field, input) =~= s.input.slots);
    } else {
        let front = text.drop_last();
        lemma_type_text(s, front, now);
        let before = s.type_text(front, now);
        let typed = input + front;
        assert(typed.insert(typed.len() as int, text.last()) =~= input + text);
        assert(s.input.slots.insert(field, typed).insert(field, input + text)
            =~= s.input.slots.insert(field, input + text));
    }
}

/// A bank form filled in and confirmed field by field, with a balance that
/// is a decimal number and a key that is free, appends exactly that bank to
/// the store, empties every slot, closes the form and reports success.
pub proof fn lemma_bank_form_commits(
    s: AppView,
    name: Seq<char>,
    account: Seq<char>,
    balance: Seq<char>,
    now: u64,
)
    requires
        is_decimal(balance),
        s.user_data.find_bank(name, account) is None,
    ensures
        ({
            let done = s.begin(EntityKind::Bank).type_text(name, now).handle_key(Key::Enter, now)
                .type_text(account, now).handle_key(Key::Enter, now).type_text(
                balance,
                now,
            ).handle_key(Key::Enter, now);
            &&& done.user_data == (UserDataView {
                bank: s.user_data.bank.push(
                    BankView { name, accountnumber: account, balance: decimal_of(balance) },
                ),
                ..s.user_data
            })
            &&& done.input == (InputStateView {
                mode: InputModeView::Normal,
                slots: empty_slots(),
                message: success_message(EntityKind::Bank),
            })
            &&& done.should_quit == s.should_quit
            &&& done.menu_state == s.menu_state
        }),
{
    let empty = Seq::<char>::empty();
    let s0 = s.begin(EntityKind::Bank);
    assert(empty_slots().dom() =~= Set::<InputField>::full());
    lemma_type_text(s0, name, now);
    assert(empty + name =~= name);
    let s1 = s0.type_text(name, now);
    let s2 = s1.handle_key(Key::Enter, now);
    assert(InputField::BankName.spec_next() == Some(InputField::BankAccountNumber));
    assert(s2.input.mode == InputModeView::Editing {
        input: empty,
        cursor_position: 0,
        field: InputField::BankAccountNumber,
    });
    lemma_type_text(s2, account, now);
    assert(empty + account =~= account);
    let s3 = s2.type_text(account, now);
    let s4 = s3.handle_key(Key::Enter, now);
    assert(InputField::BankAccountNumber.spec_next() == Some(InputField::BankBalance));
    assert(s4.input.mode == InputModeView::Editing {
        input: empty,
        cursor_position: 0,
        field: InputField::BankBalance,
    });
    lemma_type_text(s4, balance, now);
    assert(empty + balance =~= balance);
    let s5 = s4.type_text(balance, now);
    assert(InputField::BankBalance.spec_next() is None);
    assert(s5.input.slots[InputField::BankName] == name);
    assert(s5.input.slots[InputField::BankAccountNumber] == account);
    assert(s5.input.slots[InputField::BankBalance] == balance);
}

/// Going back from a field that is not the first of its form and then
/// confirming opens the same field again on the same text, the cursor
/// behind its last character; nothing else changes.
pub proof fn lemma_back_then_forward(s: AppView, now: u64)
    requires
        s.input.wf(),
        s.input.mode matches InputModeView::Editing { field, .. } && field.spec_previous() is Some,
    ensures
        s.input.mode matches InputModeView::Editing { input, field, .. } && s.handle_key(
            Key::Up,
            now,
        ).handle_key(Key::Enter, now) == s.switch_to_field(field, input),
{
    let field = s.input.mode->field;
    let previous = field.spec_previous()->0;
    assert(previous.spec_next() == Some(field));
}

/// Confirming a field that is not the last of its form and then going back
/// opens the same field again on the same text, the cursor behind its last
/// character; nothing else changes.
pub proof fn lemma_forward_then_back(s: AppView, now: u64)
    requires
        s.input.wf(),
        s.input.mode matches InputModeView::Editing { field, .. } && field.spec_next() is Some,
    ensures
        s.input.mode matches InputModeView::Editing { input, field, .. } && s.handle_key(
            Key::Enter,
            now,
        ).handle_key(Key::Up, now) == s.switch_to_field(field, input),
{
    let field = s.input.mode->field;
    let next = field.spec_next()->0;
    assert(next.spec_previous() == Some(field));
}

/// Confirming the last field of a form closes the form and empties every
/// slot, whatever the store says: where it takes the record, the store is
/// the new one and the message reports success; where it refuses, the store
/// is as it was and the message gives the reason.
pub proof fn lemma_last_confirm_closes(s: AppView, now: u64)
    requires
        s.input.mode matches InputModeView::Editing { field, .. } && field.spec_next() is None,
    ensures
        ({
            let kind = s.input.mode->field.spec_kind();
            let after = s.handle_key(Key::Enter, now);
            &&& after.input.mode is Normal
            &&& after.input.slots == empty_slots()
            &&& after.should_quit == s.should_quit
            &&& after.menu_state == s.menu_state
            &&& match s.commit_result(kind, now) {
                Ok(store) => after.user_data == store && after.input.message == success_message(
                    kind,
                ),
                Err(error) => after.user_data == s.user_data && after.input.message
                    == error.message(),
            }
        }),
{
}

/// Escape closes the form from any field: nothing stays typed, no message
/// stays, and the store is as it was.
pub proof fn lemma_escape_closes(s: AppView, now: u64)
    requires
        s.input.mode is Editing,
    ensures
        s.handle_key(Key::Esc, now) == (AppView { input: InputStateView::empty(), ..s }),
{
}

/// Every key leaves a well-formed state well-formed, and a well-formed
/// store well-formed.
pub proof fn lemma_handle_key_keeps_wf(s: AppView, key: Key, now: u64)
    requires
        s.wf(),
    ensures
        s.handle_key(key, now).wf(),
        s.user_data.wf() && s.user_data.transaction.len() < u64::MAX ==> s.handle_key(
            key,
            now,
        ).user_data.wf(),
{
    assert(empty_slots().dom() =~= Set::<InputField>::full());
    let slots = s.input.slots;
    match s.input.mode {
        InputModeView::Normal => {},
        InputModeView::Editing { input, cursor_position, field } => {
            assert(slots.insert(field, input).dom() =~= Set::<InputField>::full());
            match key {
                Key::Enter | Key::Down => {
                    if field.spec_next() is None {
                        lemma_commit_keeps_wf(s, field.spec_kind(), now);
                    }
                },
                Key::Char(c) => {
                    let text = input.insert(cursor_position, c);
                    assert(slots.insert(field, text).dom() =~= Set::<InputField>::full());
                },
                Key::Backspace => {
                    if cursor_position > 0 {
                        let text = input.remove(cursor_position - 1);
                        assert(slots.insert(field, text).dom() =~= Set::<InputField>::full());
                    }
                },
                _ => {},
            }
        },
    }
}

/// The commit of a form leaves a well-formed store well-formed, and a
/// commit that is refused leaves the store as it was.
pub proof fn lemma_commit_keeps_wf(s: AppView, kind: EntityKind, now: u64)
    ensures
        s.user_data.wf() && s.user_data.transaction.len() < u64::MAX ==> s.commit(
            kind,
            now,
        ).user_data.wf(),
        s.commit_result(kind, now) is Err ==> s.commit(kind, now).user_data == s.user_data,
{
    let slots = s.input.slots;
    if s.user_data.wf() && s.user_data.transaction.len() < u64::MAX {
        match kind {
            EntityKind::Bank => lemma_commit_bank_keeps_wf(
                s.user_data,
                slots[InputField::BankName],
                slots[InputField::BankAccountNumber],
                slots[InputField::BankBalance],
            ),
            EntityKind::Bucket => lemma_commit_bucket_keeps_wf(
                s.user_data,
                slots[InputField::BucketName],
                slots[InputField::BucketBalance],
                slots[InputField::BucketBankName],
                slots[InputField::BucketAccountNumber],
            ),
            EntityKind::Tag => lemma_commit_tag_keeps_wf(
                s.user_data,
                slots[InputField::TagName],
                slots[InputField::TagBucketName],
                slots[InputField::TagDescription],
            ),
            EntityKind::Transaction => lemma_commit_transaction_keeps_wf(
                s.user_data,
                slots[InputField::TransactionType],
                slots[InputField::TransactionAmount],
                slots[InputField::TransactionTags],
                slots[InputField::TransactionDescription],
                now,
            ),
        }
    }
}

} // verus!
