//! Why a commit was refused, and the message shown for it.

use vstd::prelude::*;
use vstd::string::StringExecFns;

verus! {

/// The three families of refusal.
#[derive(Clone, Copy, Debug, PartialEq, Eq, Structural)]
pub enum ErrorKind {
    /// A number or a transaction type could not be read.
    ParseError,
    /// A record with the same key is already stored.
    DuplicateIdentity,
    /// A record that must already exist does not.
    UnresolvedReference,
}

/// Why a commit was refused. Nothing was stored when one is returned.
#[derive(Debug)]
pub enum CommitError {
    InvalidBalance,
    InvalidAmount,
    InvalidTransactionType,
    DuplicateBank { name: String, account: String },
    DuplicateBucket { name: String },
    DuplicateTag { name: String },
    MissingBucket { name: String },
    MissingTag { name: String },
}

pub enum CommitErrorView {
    InvalidBalance,
    InvalidAmount,
    InvalidTransactionType,
    DuplicateBank { name: Seq<char>, account: Seq<char> },
    DuplicateBucket { name: Seq<char> },
    DuplicateTag { name: Seq<char> },
    MissingBucket { name: Seq<char> },
    MissingTag { name: Seq<char> },
}

impl View for CommitError {
    type V = CommitErrorView;

    open spec fn view(&self) -> CommitErrorView {
        match self {
            CommitError::InvalidBalance => CommitErrorView::InvalidBalance,
            CommitError::InvalidAmount => CommitErrorView::InvalidAmount,
            CommitError::InvalidTransactionType => CommitErrorView::InvalidTransactionType,
            CommitError::DuplicateBank { name, account } => CommitErrorView::DuplicateBank {
                name: name@,
                account: account@,
            },
            CommitError::DuplicateBucket { name } => CommitErrorView::DuplicateBucket { name: name@ },
            CommitError::DuplicateTag { name } => CommitErrorView::DuplicateTag { name: name@ },
            CommitError::MissingBucket { name } => CommitErrorView::MissingBucket { name: name@ },
            CommitError::MissingTag { name } => CommitErrorView::MissingTag { name: name@ },
        }
    }
}

impl CommitErrorView {
    pub open spec fn kind(self) -> ErrorKind {
        match self {
            CommitErrorView::InvalidBalance => ErrorKind::ParseError,
            CommitErrorView::InvalidAmount => ErrorKind::ParseError,
            CommitErrorView::InvalidTransactionType => ErrorKind::ParseError,
            CommitErrorView::DuplicateBank { .. } => ErrorKind::DuplicateIdentity,
            CommitErrorView::DuplicateBucket { .. } => ErrorKind::DuplicateIdentity,
            CommitErrorView::DuplicateTag { .. } => ErrorKind::DuplicateIdentity,
            CommitErrorView::MissingBucket { .. } => ErrorKind::UnresolvedReference,
            CommitErrorView::MissingTag { .. } => ErrorKind::UnresolvedReference,
        }
    }

    /// The message shown for this refusal. It names the field that could
    /// not be read, the key that is taken, or the record that is missing.
    pub open spec fn message(self) -> Seq<char> {
        match self {
            CommitErrorView::InvalidBalance => "Invalid balance format"@,
            CommitErrorView::InvalidAmount => "Invalid amount format"@,
            CommitErrorView::InvalidTransactionType =>
                "Invalid transaction type. Use 'i' for income or 'e' for expense"@,
            CommitErrorView::DuplicateBank { name, account } => "Bank with name '"@ + name
                + "' and account '"@ + account + "' already exists"@,
            CommitErrorView::DuplicateBucket { name } => "Bucket with name '"@ + name
                + "' already exists"@,
            CommitErrorView::DuplicateTag { name } => "Tag with name '"@ + name
                + "' already exists"@,
            CommitErrorView::MissingBucket { name } => "Bucket with name '"@ + name
                + "' does not exist"@,
            CommitErrorView::MissingTag { name } => "Tag '"@ + name + "' does not exist"@,
        }
    }
}

impl CommitError {
    pub fn kind(&self) -> (k: ErrorKind)
        ensures
            k == self@.kind(),
    {
        match self {
            CommitError::InvalidBalance => ErrorKind::ParseError,
            CommitError::InvalidAmount => ErrorKind::ParseError,
            CommitError::InvalidTransactionType => ErrorKind::ParseError,
            CommitError::DuplicateBank { .. } => ErrorKind::DuplicateIdentity,
            CommitError::DuplicateBucket { .. } => ErrorKind::DuplicateIdentity,
            CommitError::DuplicateTag { .. } => ErrorKind::DuplicateIdentity,
            CommitError::MissingBucket { .. } => ErrorKind::UnresolvedReference,
            CommitError::MissingTag { .. } => ErrorKind::UnresolvedReference,
        }
    }

    /// The message shown for this refusal.
    pub fn message(&self) -> (m: String)
        ensures
            m@ == self@.message(),
    {
        match self {
            CommitError::InvalidBalance => String::from_str("Invalid balance format"),
            CommitError::InvalidAmount => String::from_str("Invalid amount format"),
            CommitError::InvalidTransactionType => String::from_str(
                "Invalid transaction type. Use 'i' for income or 'e' for expense",
            ),
            CommitError::DuplicateBank { name, account } => {
                let mut m = String::from_str("Bank with name '");
                m.append(name.as_str());
                m.append("' and account '");
                m.append(account.as_str());
                m.append("' already exists");
                m
            },
            CommitError::DuplicateBucket { name } => {
                let mut m = String::from_str("Bucket with name '");
                m.append(name.as_str());
                m.append("' already exists");
                m
            },
            CommitError::DuplicateTag { name } => {
                let mut m = String::from_str("Tag with name '");
                m.append(name.as_str());
                m.append("' already exists");
                m
            },
            CommitError::MissingBucket { name } => {
                let mut m = String::from_str("Bucket with name '");
                m.append(name.as_str());
                m.append("' does not exist");
                m
            },
            CommitError::MissingTag { name } => {
                let mut m = String::from_str("Tag '");
                m.append(name.as_str());
                m.append("' does not exist");
                m
            },
        }
    }
}

} // verus!
