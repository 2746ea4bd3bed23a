//! The four kinds of record and their mathematical views.
//!
//! A record that refers to another holds a full copy of it, taken when the
//! record was made: a bucket holds its bank, a tag its bucket, a transaction
//! its tags.

use vstd::prelude::*;
use crate::decimal::{Decimal, DecimalView};

verus! {

/// The views of the elements of `s`, in order.
pub open spec fn views<T: View>(s: Seq<T>) -> Seq<T::V> {
    Seq::new(s.len(), |i: int| s[i]@)
}

/// Appending an element appends its view.
pub proof fn lemma_views_push<T: View>(s: Seq<T>, x: T)
    ensures
        views(s.push(x)) == views(s).push(x@),
{
    assert(views(s.push(x)) =~= views(s).push(x@));
}

/// A named account that holds a balance. Its key is the name together with
/// the account number.
#[derive(Debug)]
pub struct Bank {
    pub name: String,
    pub accountnumber: String,
    pub balance: Decimal,
}

pub struct BankView {
    pub name: Seq<char>,
    pub accountnumber: Seq<char>,
    pub balance: DecimalView,
}

impl View for Bank {
    type V = BankView;

    open spec fn view(&self) -> BankView {
        BankView { name: self.name@, accountnumber: self.accountnumber@, balance: self.balance@ }
    }
}

impl Clone for Bank {
    fn clone(&self) -> (r: Self)
        ensures
            r@ == self@,
    {
        Bank {
            name: self.name.clone(),
            accountnumber: self.accountnumber.clone(),
            balance: self.balance.clone(),
        }
    }
}

/// A named share of one bank's funds. Its key is the name.
#[derive(Debug)]
pub struct Bucket {
    pub name: String,
    pub balance: Decimal,
    pub bank: Bank,
}

pub struct BucketView {
    pub name: Seq<char>,
    pub balance: DecimalView,
    pub bank: BankView,
}

impl View for Bucket {
    type V = BucketView;

    open spec fn view(&self) -> BucketView {
        BucketView { name: self.name@, balance: self.balance@, bank: self.bank@ }
    }
}

impl Clone for Bucket {
    fn clone(&self) -> (r: Self)
        ensures
            r@ == self@,
    {
        Bucket { name: self.name.clone(), balance: self.balance.clone(), bank: self.bank.clone() }
    }
}

/// A named category tied to one bucket. Its key is the name.
#[derive(Debug)]
pub struct Tag {
    pub name: String,
    pub description: String,
    pub bucket: Bucket,
}

pub struct TagView {
    pub name: Seq<char>,
    pub description: Seq<char>,
    pub bucket: BucketView,
}

impl View for Tag {
    type V = TagView;

    open spec fn view(&self) -> TagView {
        TagView { name: self.name@, description: self.description@, bucket: self.bucket@ }
    }
}

impl Clone for Tag {
    fn clone(&self) -> (r: Self)
        ensures
            r@ == self@,
    {
        Tag {
            name: self.name.clone(),
            description: self.description.clone(),
            bucket: self.bucket.clone(),
        }
    }
}

#[derive(Clone, Copy, Debug, PartialEq, Eq, Structural)]
pub enum TransactionType {
    Income,
    Expense,
}

/// A dated income or expense. Its `id` is its place in the order of
/// commits, counted from 1.
#[derive(Debug)]
pub struct Transaction {
    pub id: u64,
    pub transaction_type: TransactionType,
    pub amount: Decimal,
    /// Seconds since the Unix epoch.
    pub timestamp: u64,
    pub tags: Vec<Tag>,
    pub description: String,
}

pub struct TransactionView {
    pub id: u64,
    pub transaction_type: TransactionType,
    pub amount: DecimalView,
    pub timestamp: u64,
    pub tags: Seq<TagView>,
    pub description: Seq<char>,
}

impl View for Transaction {
    type V = TransactionView;

    open spec fn view(&self) -> TransactionView {
        TransactionView {
            id: self.id,
            transaction_type: self.transaction_type,
            amount: self.amount@,
            timestamp: self.timestamp,
            tags: views(self.tags@),
            description: self.description@,
        }
    }
}

/// A copy of every tag of `tags`, in order.
pub fn clone_tags(tags: &Vec<Tag>) -> (r: Vec<Tag>)
    ensures
        views(r@) == views(tags@),
{
    let mut r: Vec<Tag> = Vec::new();
    let mut i: usize = 0;
    while i < tags.len()
        invariant
            i <= tags.len(),
            views(r@) == views(tags@.take(i as int)),
        decreases tags.len() - i,
    {
        let tag = tags[i].clone();
        proof {
            lemma_views_push(r@, tag);
            lemma_views_push(tags@.take(i as int), tags@[i as int]);
            assert(tags@.take(i as int + 1) =~= tags@.take(i as int).push(tags@[i as int]));
        }
        r.push(tag);
        i += 1;
    }
    assert(tags@.take(i as int) =~= tags@);
    r
}

impl Clone for Transaction {
    fn clone(&self) -> (r: Self)
        ensures
            r@ == self@,
    {
        Transaction {
            id: self.id,
            transaction_type: self.transaction_type,
            amount: self.amount.clone(),
            timestamp: self.timestamp,
            tags: clone_tags(&self.tags),
            description: self.description.clone(),
        }
    }
}

} // verus!
