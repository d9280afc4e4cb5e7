//! What can go wrong with users and groups.

use vstd::prelude::*;

use crate::number::IntError;

verus! {

/// Errors that might happen while using this crate
#[derive(Debug, PartialEq, Eq)]
pub enum UsersError {
    /// The operating system refused
    Os { reason: String },
    /// An entry lacks a field
    Parsing { reason: String },
    /// There is no such user or group
    NotFound,
    /// There is such a user or group already
    AlreadyExists,
}

/// [`UsersError`] with its text as characters.
pub enum UsersErrorView {
    Os { reason: Seq<char> },
    Parsing { reason: Seq<char> },
    NotFound,
    AlreadyExists,
}

impl View for UsersError {
    type V = UsersErrorView;

    open spec fn view(&self) -> UsersErrorView {
        match self {
            UsersError::Os { reason } => UsersErrorView::Os { reason: reason@ },
            UsersError::Parsing { reason } => UsersErrorView::Parsing { reason: reason@ },
            UsersError::NotFound => UsersErrorView::NotFound,
            UsersError::AlreadyExists => UsersErrorView::AlreadyExists,
        }
    }
}

impl UsersErrorView {
    /// The message for people.
    pub open spec fn message(self) -> Seq<char> {
        match self {
            UsersErrorView::Os { reason } => "os error: code "@ + reason,
            UsersErrorView::Parsing { reason } => "parse error: "@ + reason,
            UsersErrorView::NotFound => "user/group not found"@,
            UsersErrorView::AlreadyExists => "user/group already exists"@,
        }
    }
}

impl UsersError {
    /// The message for people.
    pub fn to_string(&self) -> (res: String)
        ensures
            res@ == self@.message(),
            match *self {
                UsersError::Os { reason } => res@ == "os error: code "@ + reason@,
                UsersError::Parsing { reason } => res@ == "parse error: "@ + reason@,
                UsersError::NotFound => res@ == "user/group not found"@,
                UsersError::AlreadyExists => res@ == "user/group already exists"@,
            },
    {
        match self {
            UsersError::Os { reason } => "os error: code ".to_owned().concat(reason.as_str()),
            UsersError::Parsing { reason } => "parse error: ".to_owned().concat(reason.as_str()),
            UsersError::NotFound => "user/group not found".to_owned(),
            UsersError::AlreadyExists => "user/group already exists".to_owned(),
        }
    }
}

/// The error of an entry that lacks a field.
pub fn parse_error(reason: &str) -> (res: UsersError)
    ensures
        res@ == (UsersErrorView::Parsing { reason: reason@ }),
{
    UsersError::Parsing { reason: reason.to_owned() }
}

/// The error of a call that the operating system refused.
pub fn os_error(reason: &str) -> (res: UsersError)
    ensures
        res@ == (UsersErrorView::Os { reason: reason@ }),
{
    UsersError::Os { reason: reason.to_owned() }
}

/// Why an entry cannot be read, or a password cannot be set.
#[derive(Debug, PartialEq, Eq)]
pub enum Error {
    /// Something is wrong with the users or groups
    Users(UsersError),
    /// An id is not a number
    Int(IntError),
    /// The operating system gives no random numbers
    Random { reason: String },
    /// The random number that was drawn has too few digits for a salt
    ShortSalt,
}

/// [`Error`] with its text as characters.
pub enum ErrorView {
    Users(UsersErrorView),
    Int(IntError),
    Random { reason: Seq<char> },
    ShortSalt,
}

impl View for Error {
    type V = ErrorView;

    open spec fn view(&self) -> ErrorView {
        match self {
            Error::Users(e) => ErrorView::Users(e@),
            Error::Int(e) => ErrorView::Int(*e),
            Error::Random { reason } => ErrorView::Random { reason: reason@ },
            Error::ShortSalt => ErrorView::ShortSalt,
        }
    }
}

/// An error on users and groups is seen as what it is, with the characters of its text.
pub proof fn law_users_error_view(e: UsersError)
    ensures
        match e {
            UsersError::Os { reason } => e@ == (UsersErrorView::Os { reason: reason@ }),
            UsersError::Parsing { reason } => e@ == (UsersErrorView::Parsing { reason: reason@ }),
            UsersError::NotFound => e@ == UsersErrorView::NotFound,
            UsersError::AlreadyExists => e@ == UsersErrorView::AlreadyExists,
        },
{
}

/// An error is seen as what it is, with the characters of its text.
pub proof fn law_error_view(e: Error)
    ensures
        match e {
            Error::Users(inner) => e@ == ErrorView::Users(inner@),
            Error::Int(inner) => e@ == ErrorView::Int(inner),
            Error::Random { reason } => e@ == (ErrorView::Random { reason: reason@ }),
            Error::ShortSalt => e@ == ErrorView::ShortSalt,
        },
{
}

} // verus!
