//! Users and groups of a Redox system: the entries of the files that they stand in, the
//! passwords that open an account, and the ids of the running process.
//!
//! The library works on the content of these files; reading and writing them, waiting
//! after a wrong password and starting a login command are left to the caller.

pub mod all_groups;
pub mod all_users;
pub mod argon;
pub mod error;
pub mod group;
pub mod ids;
pub mod list;
pub mod number;
pub mod passwd;
pub mod text;
pub mod user;

pub use crate::all_groups::AllGroups;
pub use crate::all_users::AllUsers;
pub use crate::error::{Error, UsersError};
pub use crate::group::Group;
pub use crate::ids::{get_egid, get_euid, get_gid, get_uid};
pub use crate::user::{LoginCmd, User};
