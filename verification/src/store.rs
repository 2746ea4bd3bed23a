//! The store of all records: lookup by key, and the four commits that read
//! typed text, check it against the store and append.

use vstd::prelude::*;
use vstd::string::StringExecFns;
use crate::decimal::{decimal_of, is_decimal, Decimal, DecimalView};
use crate::error::{CommitError, CommitErrorView};
use crate::model::{
    lemma_views_push, views, Bank, BankView, Bucket, BucketView, Tag, TagView, Transaction,
    TransactionType, TransactionView,
};
use crate::text::{ascii_lowercase, lowercase_equals, split, split_trimmed, to_chars, trim};

verus! {

/// The first position at or after `i` whose element satisfies `p`.
pub open spec fn first_from<T>(s: Seq<T>, p: spec_fn(T) -> bool, i: int) -> Option<int>
    decreases s.len() - i,
{
    if i < 0 || i >= s.len() {
        None
    } else if p(s[i]) {
        Some(i)
    } else {
        first_from(s, p, i + 1)
    }
}

/// The first element of `s` that satisfies `p`.
pub open spec fn first<T>(s: Seq<T>, p: spec_fn(T) -> bool) -> Option<T> {
    match first_from(s, p, 0) {
        Some(i) => Some(s[i]),
        None => None,
    }
}

/// `first_from` finds the least position from `i` on that satisfies `p`,
/// and finds none exactly where there is none.
pub proof fn lemma_first_from<T>(s: Seq<T>, p: spec_fn(T) -> bool, i: int)
    requires
        0 <= i,
    ensures
        match first_from(s, p, i) {
            Some(k) => i <= k < s.len() && p(s[k]) && forall|j: int| i <= j < k ==> !p(s[j]),
            None => forall|j: int| i <= j < s.len() ==> !p(s[j]),
        },
    decreases s.len() - i,
{
    if i < s.len() && !p(s[i]) {
        lemma_first_from(s, p, i + 1);
    }
}

pub open spec fn bank_key(name: Seq<char>, account: Seq<char>) -> spec_fn(BankView) -> bool {
    |b: BankView| b.name == name && b.accountnumber == account
}

pub open spec fn bucket_key(name: Seq<char>) -> spec_fn(BucketView) -> bool {
    |b: BucketView| b.name == name
}

pub open spec fn tag_key(name: Seq<char>) -> spec_fn(TagView) -> bool {
    |t: TagView| t.name == name
}

/// What a transaction type field means: `i` or `income`, `e` or `expense`,
/// in any mix of upper and lower case.
pub open spec fn transaction_type_of(text: Seq<char>) -> Option<TransactionType> {
    let lower = ascii_lowercase(text);
    if lower == "i"@ || lower == "income"@ {
        Some(TransactionType::Income)
    } else if lower == "e"@ || lower == "expense"@ {
        Some(TransactionType::Expense)
    } else {
        None
    }
}

/// The names that a tags field lists: none where it is empty, else its
/// pieces between commas, each trimmed.
pub open spec fn tag_names(text: Seq<char>) -> Seq<Seq<char>> {
    if text.len() == 0 {
        Seq::empty()
    } else {
        let pieces = split(text, ',');
        Seq::new(pieces.len(), |i: int| trim(pieces[i]))
    }
}

/// The store: every record of each kind, in the order of commits.
#[derive(Debug)]
pub struct UserData {
    pub bank: Vec<Bank>,
    pub bucket: Vec<Bucket>,
    pub tag: Vec<Tag>,
    pub transaction: Vec<Transaction>,
}

pub struct UserDataView {
    pub bank: Seq<BankView>,
    pub bucket: Seq<BucketView>,
    pub tag: Seq<TagView>,
    pub transaction: Seq<TransactionView>,
}

impl View for UserData {
    type V = UserDataView;

    open spec fn view(&self) -> UserDataView {
        UserDataView {
            bank: views(self.bank@),
            bucket: views(self.bucket@),
            tag: views(self.tag@),
            transaction: views(self.transaction@),
        }
    }
}

impl UserDataView {
    pub open spec fn empty() -> UserDataView {
        UserDataView {
            bank: Seq::empty(),
            bucket: Seq::empty(),
            tag: Seq::empty(),
            transaction: Seq::empty(),
        }
    }

    /// How many records the store holds, all kinds together.
    pub open spec fn size(self) -> nat {
        self.bank.len() + self.bucket.len() + self.tag.len() + self.transaction.len()
    }

    /// The first bank with this name and account number.
    pub open spec fn find_bank(self, name: Seq<char>, account: Seq<char>) -> Option<BankView> {
        first(self.bank, bank_key(name, account))
    }

    /// The first bucket with this name.
    pub open spec fn find_bucket(self, name: Seq<char>) -> Option<BucketView> {
        first(self.bucket, bucket_key(name))
    }

    /// The first tag with this name.
    pub open spec fn find_tag(self, name: Seq<char>) -> Option<TagView> {
        first(self.tag, tag_key(name))
    }

    /// The tags that `names` name, in that order, or the first name among
    /// them that names none.
    pub open spec fn resolve_tags(self, names: Seq<Seq<char>>) -> Result<Seq<TagView>, Seq<char>>
        decreases names.len(),
    {
        if names.len() == 0 {
            Ok(Seq::empty())
        } else {
            match self.resolve_tags(names.drop_last()) {
                Err(missing) => Err(missing),
                Ok(tags) => match self.find_tag(names.last()) {
                    Some(tag) => Ok(tags.push(tag)),
                    None => Err(names.last()),
                },
            }
        }
    }

    /// No two banks share name and account number, no two buckets a name,
    /// no two tags a name, and the transaction at position `i` has the id
    /// `i + 1`.
    pub open spec fn wf(self) -> bool {
        &&& forall|i: int, j: int|
            0 <= i < j < self.bank.len() ==> !(#[trigger] self.bank[i].name == (
            #[trigger] self.bank[j]).name && self.bank[i].accountnumber
                == self.bank[j].accountnumber)
        &&& forall|i: int, j: int|
            0 <= i < j < self.bucket.len() ==> (#[trigger] self.bucket[i]).name != (
            #[trigger] self.bucket[j]).name
        &&& forall|i: int, j: int|
            0 <= i < j < self.tag.len() ==> (#[trigger] self.tag[i]).name != (
            #[trigger] self.tag[j]).name
        &&& forall|i: int|
            0 <= i < self.transaction.len() ==> (#[trigger] self.transaction[i]).id == i + 1
    }

    /// Committing a bank: the balance must be a decimal number and the key
    /// free; then the bank is appended.
    pub open spec fn commit_bank(
        self,
        name: Seq<char>,
        account: Seq<char>,
        balance: Seq<char>,
    ) -> Result<UserDataView, CommitErrorView> {
        if !is_decimal(balance) {
            Err(CommitErrorView::InvalidBalance)
        } else if self.find_bank(name, account) is Some {
            Err(CommitErrorView::DuplicateBank { name, account })
        } else {
            Ok(
                UserDataView {
                    bank: self.bank.push(
                        BankView { name, accountnumber: account, balance: decimal_of(balance) },
                    ),
                    ..self
                },
            )
        }
    }

    /// Committing a bucket: the balance must be a decimal number and the
    /// name free. The bucket holds a copy of the bank with the given name
    /// and account number; where there is none, a bank with balance zero is
    /// appended first.
    pub open spec fn commit_bucket(
        self,
        name: Seq<char>,
        balance: Seq<char>,
        bank_name: Seq<char>,
        account: Seq<char>,
    ) -> Result<UserDataView, CommitErrorView> {
        if !is_decimal(balance) {
            Err(CommitErrorView::InvalidBalance)
        } else if self.find_bucket(name) is Some {
            Err(CommitErrorView::DuplicateBucket { name })
        } else {
            match self.find_bank(bank_name, account) {
                Some(bank) => Ok(
                    UserDataView {
                        bucket: self.bucket.push(
                            BucketView { name, balance: decimal_of(balance), bank },
                        ),
                        ..self
                    },
                ),
                None => {
                    let bank = BankView {
                        name: bank_name,
                        accountnumber: account,
                        balance: DecimalView::zero(),
                    };
                    Ok(
                        UserDataView {
                            bank: self.bank.push(bank),
                            bucket: self.bucket.push(
                                BucketView { name, balance: decimal_of(balance), bank },
                            ),
                            ..self
                        },
                    )
                },
            }
        }
    }

    /// Committing a tag: the name must be free and the bucket must exist;
    /// the tag holds a copy of it.
    pub open spec fn commit_tag(
        self,
        name: Seq<char>,
        bucket_name: Seq<char>,
        description: Seq<char>,
    ) -> Result<UserDataView, CommitErrorView> {
        if self.find_tag(name) is Some {
            Err(CommitErrorView::DuplicateTag { name })
        } else {
            match self.find_bucket(bucket_name) {
                Some(bucket) => Ok(
                    UserDataView { tag: self.tag.push(TagView { name, description, bucket }), ..self },
                ),
                None => Err(CommitErrorView::MissingBucket { name: bucket_name }),
            }
        }
    }

    /// Committing a transaction: type and amount must be readable and every
    /// listed tag must exist. The id is one more than the number of
    /// transactions stored.
    pub open spec fn commit_transaction(
        self,
        kind: Seq<char>,
        amount: Seq<char>,
        tags: Seq<char>,
        description: Seq<char>,
        timestamp: u64,
    ) -> Result<UserDataView, CommitErrorView> {
        match transaction_type_of(kind) {
            None => Err(CommitErrorView::InvalidTransactionType),
            Some(transaction_type) => if !is_decimal(amount) {
                Err(CommitErrorView::InvalidAmount)
            } else {
                match self.resolve_tags(tag_names(tags)) {
                    Err(name) => Err(CommitErrorView::MissingTag { name }),
                    Ok(resolved) => Ok(
                        UserDataView {
                            transaction: self.transaction.push(
                                TransactionView {
                                    id: (self.transaction.len() + 1) as u64,
                                    transaction_type,
                                    amount: decimal_of(amount),
                                    timestamp,
                                    tags: resolved,
                                    description,
                                },
                            ),
                            ..self
                        },
                    ),
                }
            },
        }
    }
}

/// Whether a commit went as its specification says: on success the store
/// is the new one, on refusal the error is the stated one and the store is
/// as it was.
pub open spec fn commit_matches(
    expected: Result<UserDataView, CommitErrorView>,
    before: UserDataView,
    after: UserDataView,
    result: Result<(), CommitError>,
) -> bool {
    match expected {
        Ok(store) => result is Ok && after == store,
        Err(error) => result matches Err(e) && e@ == error && after == before,
    }
}

/// Reads a transaction type field.
pub fn parse_transaction_type(text: &str) -> (r: Option<TransactionType>)
    ensures
        r == transaction_type_of(text@),
{
    let v = to_chars(text);
    if lowercase_equals(&v, "i") || lowercase_equals(&v, "income") {
        Some(TransactionType::Income)
    } else if lowercase_equals(&v, "e") || lowercase_equals(&v, "expense") {
        Some(TransactionType::Expense)
    } else {
        None
    }
}

impl UserData {
    /// The empty store.
    pub fn new() -> (data: UserData)
        ensures
            data@ == UserDataView::empty(),
            data@.wf(),
    {
        let data = UserData {
            bank: Vec::new(),
            bucket: Vec::new(),
            tag: Vec::new(),
            transaction: Vec::new(),
        };
        assert(data@.bank =~= Seq::empty());
        assert(data@.bucket =~= Seq::empty());
        assert(data@.tag =~= Seq::empty());
        assert(data@.transaction =~= Seq::empty());
        data
    }

    /// The first bank with this name and account number.
    pub fn find_bank(&self, name: &str, account: &str) -> (r: Option<&Bank>)
        ensures
            match r {
                Some(bank) => self@.find_bank(name@, account@) == Some(bank@),
                None => self@.find_bank(name@, account@) is None,
            },
    {
        let wanted = String::from_str(name);
        let wanted_account = String::from_str(account);
        let ghost p = bank_key(name@, account@);
        let mut i: usize = 0;
        while i < self.bank.len()
            invariant
                i <= self.bank.len(),
                wanted@ == name@,
                wanted_account@ == account@,
                p == bank_key(name@, account@),
                first_from(self@.bank, p, 0) == first_from(self@.bank, p, i as int),
            decreases self.bank.len() - i,
        {
            assert(self@.bank[i as int] == self.bank[i as int]@);
            if self.bank[i].name == wanted && self.bank[i].accountnumber == wanted_account {
                assert(p(self@.bank[i as int]));
                return Some(&self.bank[i]);
            }
            assert(!p(self@.bank[i as int]));
            i += 1;
        }
        None
    }

    /// The first bucket with this name.
    pub fn find_bucket(&self, name: &str) -> (r: Option<&Bucket>)
        ensures
            match r {
                Some(bucket) => self@.find_bucket(name@) == Some(bucket@),
                None => self@.find_bucket(name@) is None,
            },
    {
        let wanted = String::from_str(name);
        let ghost p = bucket_key(name@);
        let mut i: usize = 0;
        while i < self.bucket.len()
            invariant
                i <= self.bucket.len(),
                wanted@ == name@,
                p == bucket_key(name@),
                first_from(self@.bucket, p, 0) == first_from(self@.bucket, p, i as int),
            decreases self.bucket.len() - i,
        {
            assert(self@.bucket[i as int] == self.bucket[i as int]@);
            if self.bucket[i].name == wanted {
                assert(p(self@.bucket[i as int]));
                return Some(&self.bucket[i]);
            }
            assert(!p(self@.bucket[i as int]));
            i += 1;
        }
        None
    }

    /// The first tag with this name.
    pub fn find_tag(&self, name: &str) -> (r: Option<&Tag>)
        ensures
            match r {
                Some(tag) => self@.find_tag(name@) == Some(tag@),
                None => self@.find_tag(name@) is None,
            },
    {
        let wanted = String::from_str(name);
        let ghost p = tag_key(name@);
        let mut i: usize = 0;
        while i < self.tag.len()
            invariant
                i <= self.tag.len(),
                wanted@ == name@,
                p == tag_key(name@),
                first_from(self@.tag, p, 0) == first_from(self@.tag, p, i as int),
            decreases self.tag.len() - i,
        {
            assert(self@.tag[i as int] == self.tag[i as int]@);
            if self.tag[i].name == wanted {
                assert(p(self@.tag[i as int]));
                return Some(&self.tag[i]);
            }
            assert(!p(self@.tag[i as int]));
            i += 1;
        }
        None
    }

    /// The tags that a tags field lists, or the first listed name that
    /// names none.
    pub fn resolve_tags(&self, text: &str) -> (r: Result<Vec<Tag>, String>)
        ensures
            match self@.resolve_tags(tag_names(text@)) {
                Ok(tags) => r matches Ok(found) && views(found@) == tags,
                Err(missing) => r matches Err(name) && name@ == missing,
            },
    {
        let v = to_chars(text);
        let mut found: Vec<Tag> = Vec::new();
        if v.len() == 0 {
            assert(views(found@) =~= Seq::empty());
            return Ok(found);
        }
        let names = split_trimmed(&v, ',');
        let ghost all = tag_names(text@);
        let mut i: usize = 0;
        assert(all.take(0) =~= Seq::empty());
        assert(views(found@) =~= Seq::empty());
        while i < names.len()
            invariant
                i <= names.len(),
                all == tag_names(text@),
                all.len() == names@.len(),
                forall|k: int| 0 <= k < names@.len() ==> (#[trigger] names@[k])@ == all[k],
                self@.resolve_tags(all.take(i as int)) == Ok::<Seq<TagView>, Seq<char>>(
                    views(found@),
                ),
            decreases names.len() - i,
        {
            proof {
                assert(all.take(i as int + 1).drop_last() =~= all.take(i as int));
                assert(all.take(i as int + 1).last() == all[i as int]);
                assert(names@[i as int]@ == all[i as int]);
            }
            match self.find_tag(names[i].as_str()) {
                Some(tag) => {
                    let copy = tag.clone();
                    proof {
                        lemma_views_push(found@, copy);
                    }
                    found.push(copy);
                },
                None => {
                    proof {
                        lemma_resolve_tags_stops(self@, all, i as int + 1);
                    }
                    return Err(names[i].clone());
                },
            }
            i += 1;
        }
        assert(all.take(i as int) =~= all);
        Ok(found)
    }

    /// Commits a bank, as `UserDataView::commit_bank` says.
    pub fn commit_bank(&mut self, name: &str, account: &str, balance: &str) -> (r: Result<
        (),
        CommitError,
    >)
        ensures
            commit_matches(
                old(self)@.commit_bank(name@, account@, balance@),
                old(self)@,
                final(self)@,
                r,
            ),
    {
        let amount = match Decimal::parse(balance) {
            Some(amount) => amount,
            None => {
                return Err(CommitError::InvalidBalance);
            },
        };
        if self.find_bank(name, account).is_some() {
            return Err(
                CommitError::DuplicateBank {
                    name: String::from_str(name),
                    account: String::from_str(account),
                },
            );
        }
        let bank = Bank {
            name: String::from_str(name),
            accountnumber: String::from_str(account),
            balance: amount,
        };
        proof {
            lemma_views_push(self.bank@, bank);
        }
        self.bank.push(bank);
        Ok(())
    }

    /// Commits a bucket, as `UserDataView::commit_bucket` says.
    pub fn commit_bucket(&mut self, name: &str, balance: &str, bank_name: &str, account: &str) -> (r:
        Result<(), CommitError>)
        ensures
            commit_matches(
                old(self)@.commit_bucket(name@, balance@, bank_name@, account@),
                old(self)@,
                final(self)@,
                r,
            ),
    {
        let amount = match Decimal::parse(balance) {
            Some(amount) => amount,
            None => {
                return Err(CommitError::InvalidBalance);
            },
        };
        if self.find_bucket(name).is_some() {
            return Err(CommitError::DuplicateBucket { name: String::from_str(name) });
        }
        let existing: Option<Bank> = match self.find_bank(bank_name, account) {
            Some(bank) => Some(bank.clone()),
            None => None,
        };
        let bank = match existing {
            Some(bank) => bank,
            None => {
                let created = Bank {
                    name: String::from_str(bank_name),
                    accountnumber: String::from_str(account),
                    balance: Decimal::zero(),
                };
                let copy = created.clone();
                proof {
                    lemma_views_push(self.bank@, copy);
                }
                self.bank.push(copy);
                created
            },
        };
        let bucket = Bucket { name: String::from_str(name), balance: amount, bank };
        proof {
            lemma_views_push(self.bucket@, bucket);
        }
        self.bucket.push(bucket);
        Ok(())
    }

    /// Commits a tag, as `UserDataView::commit_tag` says.
    pub fn commit_tag(&mut self, name: &str, bucket_name: &str, description: &str) -> (r: Result<
        (),
        CommitError,
    >)
        ensures
            commit_matches(
                old(self)@.commit_tag(name@, bucket_name@, description@),
                old(self)@,
                final(self)@,
                r,
            ),
    {
        if self.find_tag(name).is_some() {
            return Err(CommitError::DuplicateTag { name: String::from_str(name) });
        }
        let bucket = match self.find_bucket(bucket_name) {
            Some(bucket) => bucket.clone(),
            None => {
                return Err(CommitError::MissingBucket { name: String::from_str(bucket_name) });
            },
        };
        let tag = Tag {
            name: String::from_str(name),
            description: String::from_str(description),
            bucket,
        };
        proof {
            lemma_views_push(self.tag@, tag);
        }
        self.tag.push(tag);
        Ok(())
    }

    /// Commits a transaction made at `timestamp`, as
    /// `UserDataView::commit_transaction` says.
    pub fn commit_transaction(
        &mut self,
        kind: &str,
        amount: &str,
        tags: &str,
        description: &str,
        timestamp: u64,
    ) -> (r: Result<(), CommitError>)
        requires
            old(self).transaction.len() < u64::MAX,
        ensures
            commit_matches(
                old(self)@.commit_transaction(kind@, amount@, tags@, description@, timestamp),
                old(self)@,
                final(self)@,
                r,
            ),
    {
        let transaction_type = match parse_transaction_type(kind) {
            Some(transaction_type) => transaction_type,
            None => {
                return Err(CommitError::InvalidTransactionType);
            },
        };
        let amount = match Decimal::parse(amount) {
            Some(amount) => amount,
            None => {
                return Err(CommitError::InvalidAmount);
            },
        };
        let resolved = match self.resolve_tags(tags) {
            Ok(resolved) => resolved,
            Err(name) => {
                return Err(CommitError::MissingTag { name });
            },
        };
        let id: u64 = self.transaction.len() as u64 + 1;
        let transaction = Transaction {
            id,
            transaction_type,
            amount,
            timestamp,
            tags: resolved,
            description: String::from_str(description),
        };
        proof {
            lemma_views_push(self.transaction@, transaction);
        }
        self.transaction.push(transaction);
        Ok(())
    }
}

/// Once a name among the first `k` names none, resolving all of `names`
/// stops at the same name.
pub proof fn lemma_resolve_tags_stops(store: UserDataView, names: Seq<Seq<char>>, k: int)
    requires
        0 <= k <= names.len(),
        store.resolve_tags(names.take(k)) is Err,
    ensures
        store.resolve_tags(names) == store.resolve_tags(names.take(k)),
    decreases names.len() - k,
{
    if k < names.len() {
        assert(names.take(k + 1).drop_last() =~= names.take(k));
        lemma_resolve_tags_stops(store, names, k + 1);
    } else {
        assert(names.take(k) =~= names);
    }
}

} // verus!
