//! The ids of the running process.

use vstd::prelude::*;

use crate::error::{os_error, UsersError, UsersErrorView};

verus! {

/// The error of a system call.
#[derive(Debug, Clone, Copy, PartialEq, Eq, Structural)]
pub struct SyscallError {
    /// The error number
    pub errno: i32,
}

/// What [`syscall::Error::text`] returns for the error with the given number.
pub uninterp spec fn errno_text(errno: i32) -> Seq<char>;

/// Calls [`syscall::Error::text`] on the error with the given number. The text
/// depends on that number alone; it comes from a table, with one text for all
/// the numbers that the table lacks.
#[verifier::external_body]
fn syscall_error_text(errno: i32) -> (res: &'static str)
    ensures
        res@ == errno_text(errno),
{
    syscall::Error::new(errno).text()
}

/// Calls [`syscall::geteuid`]. The kernel decides what comes back, so of an id
/// nothing is claimed, and of an error only that its number is one of those that
/// [`syscall::Error::text`] has a text of its own for, and not that of success.
#[verifier::external_body]
fn syscall_geteuid() -> (res: Result<usize, SyscallError>)
    ensures
        res matches Err(e) ==> 1 <= e.errno <= 131,
{
    match syscall::geteuid() {
        Ok(id) => Ok(id),
        Err(e) => Err(SyscallError { errno: e.errno }),
    }
}

/// Calls [`syscall::getuid`]. The same is claimed as of [`syscall_geteuid`].
#[verifier::external_body]
fn syscall_getuid() -> (res: Result<usize, SyscallError>)
    ensures
        res matches Err(e) ==> 1 <= e.errno <= 131,
{
    match syscall::getuid() {
        Ok(id) => Ok(id),
        Err(e) => Err(SyscallError { errno: e.errno }),
    }
}

/// Calls [`syscall::getegid`]. The same is claimed as of [`syscall_geteuid`].
#[verifier::external_body]
fn syscall_getegid() -> (res: Result<usize, SyscallError>)
    ensures
        res matches Err(e) ==> 1 <= e.errno <= 131,
{
    match syscall::getegid() {
        Ok(id) => Ok(id),
        Err(e) => Err(SyscallError { errno: e.errno }),
    }
}

/// Calls [`syscall::getgid`]. The same is claimed as of [`syscall_geteuid`].
#[verifier::external_body]
fn syscall_getgid() -> (res: Result<usize, SyscallError>)
    ensures
        res matches Err(e) ==> 1 <= e.errno <= 131,
{
    match syscall::getgid() {
        Ok(id) => Ok(id),
        Err(e) => Err(SyscallError { errno: e.errno }),
    }
}

impl SyscallError {
    /// The text of the error.
    pub fn text(&self) -> (res: &'static str)
        ensures
            res@ == errno_text(self.errno),
    {
        syscall_error_text(self.errno)
    }
}

impl From<SyscallError> for UsersError {
    fn from(syscall_error: SyscallError) -> (res: UsersError)
        ensures
            res@ == (UsersErrorView::Os { reason: errno_text(syscall_error.errno) }),
    {
        os_error(syscall_error.text())
    }
}

/// A [`String`] is not fixed by its characters alone, so what `from` gives is stated
/// where it stands, over the characters.
impl vstd::std_specs::convert::FromSpecImpl<SyscallError> for UsersError {
    open spec fn obeys_from_spec() -> bool {
        false
    }

    open spec fn from_spec(syscall_error: SyscallError) -> UsersError {
        choose|res: UsersError|
            #[trigger] res@ == (UsersErrorView::Os { reason: errno_text(syscall_error.errno) })
    }
}

/// The id that a system call gave, or its error as one of this crate's.
pub fn id_of_reply(reply: Result<usize, SyscallError>) -> (res: Result<usize, UsersError>)
    ensures
        match reply {
            Ok(id) => res matches Ok(r) && r == id,
            Err(e) => res matches Err(r) && r@ == (UsersErrorView::Os {
                reason: errno_text(e.errno),
            }),
        },
{
    match reply {
        Ok(id) => Ok(id),
        Err(syscall_error) => Err(UsersError::from(syscall_error)),
    }
}

/// An id, or the error of a system call that failed.
pub open spec fn is_id_reply(res: Result<usize, UsersError>) -> bool {
    res matches Err(e) ==> exists|errno: i32|
        1 <= errno <= 131 && e@ == (UsersErrorView::Os { reason: #[trigger] errno_text(errno) })
}

/// `reply` is one that asking for the effective user id can give.
pub closed spec fn is_euid_reply(reply: Result<usize, SyscallError>) -> bool {
    call_ensures(syscall_geteuid, (), reply)
}

/// `reply` is one that asking for the real user id can give.
pub closed spec fn is_uid_reply(reply: Result<usize, SyscallError>) -> bool {
    call_ensures(syscall_getuid, (), reply)
}

/// `reply` is one that asking for the effective group id can give.
pub closed spec fn is_egid_reply(reply: Result<usize, SyscallError>) -> bool {
    call_ensures(syscall_getegid, (), reply)
}

/// `reply` is one that asking for the real group id can give.
pub closed spec fn is_gid_reply(reply: Result<usize, SyscallError>) -> bool {
    call_ensures(syscall_getgid, (), reply)
}

/// Nothing counts as a reply but what the system call can give.
proof fn law_replies(reply: Result<usize, SyscallError>)
    ensures
        is_euid_reply(reply) <==> call_ensures(syscall_geteuid, (), reply),
        is_uid_reply(reply) <==> call_ensures(syscall_getuid, (), reply),
        is_egid_reply(reply) <==> call_ensures(syscall_getegid, (), reply),
        is_gid_reply(reply) <==> call_ensures(syscall_getgid, (), reply),
{
}

/// Gets the current process effective user ID.
///
/// This function issues the `geteuid` system call returning the process effective
/// user id.
pub fn get_euid() -> (res: Result<usize, UsersError>)
    ensures
        is_id_reply(res),
        exists|reply: Result<usize, SyscallError>| #[trigger]
            is_euid_reply(reply) && match reply {
                Ok(id) => res matches Ok(r) && r == id,
                Err(e) => res matches Err(r) && r@ == (UsersErrorView::Os {
                    reason: errno_text(e.errno),
                }),
            },
{
    let reply: Result<usize, SyscallError> = syscall_geteuid();
    assert(is_euid_reply(reply));
    id_of_reply(reply)
}

/// Gets the current process real user ID.
///
/// This function issues the `getuid` system call returning the process real
/// user id.
pub fn get_uid() -> (res: Result<usize, UsersError>)
    ensures
        is_id_reply(res),
        exists|reply: Result<usize, SyscallError>| #[trigger]
            is_uid_reply(reply) && match reply {
                Ok(id) => res matches Ok(r) && r == id,
                Err(e) => res matches Err(r) && r@ == (UsersErrorView::Os {
                    reason: errno_text(e.errno),
                }),
            },
{
    let reply: Result<usize, SyscallError> = syscall_getuid();
    assert(is_uid_reply(reply));
    id_of_reply(reply)
}

/// Gets the current process effective group ID.
///
/// This function issues the `getegid` system call returning the process effective
/// group id.
pub fn get_egid() -> (res: Result<usize, UsersError>)
    ensures
        is_id_reply(res),
        exists|reply: Result<usize, SyscallError>| #[trigger]
            is_egid_reply(reply) && match reply {
                Ok(id) => res matches Ok(r) && r == id,
                Err(e) => res matches Err(r) && r@ == (UsersErrorView::Os {
                    reason: errno_text(e.errno),
                }),
            },
{
    let reply: Result<usize, SyscallError> = syscall_getegid();
    assert(is_egid_reply(reply));
    id_of_reply(reply)
}

/// Gets the current process real group ID.
///
/// This function issues the `getgid` system call returning the process real
/// group id.
pub fn get_gid() -> (res: Result<usize, UsersError>)
    ensures
        is_id_reply(res),
        exists|reply: Result<usize, SyscallError>| #[trigger]
            is_gid_reply(reply) && match reply {
                Ok(id) => res matches Ok(r) && r == id,
                Err(e) => res matches Err(r) && r@ == (UsersErrorView::Os {
                    reason: errno_text(e.errno),
                }),
            },
{
    let reply: Result<usize, SyscallError> = syscall_getgid();
    assert(is_gid_reply(reply));
    id_of_reply(reply)
}

} // verus!
