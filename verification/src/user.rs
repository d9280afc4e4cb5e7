//! A user, and the entry of a user in the file of users.

use std::str::FromStr;

use vstd::prelude::*;

use crate::error::{parse_error, Error, ErrorView, UsersErrorView};
use crate::number::{parse_number, to_decimal, IntError};
use crate::passwd::{draw, Password};
use crate::text::split_str;

verus! {

/// A struct representing a Redox user.
/// Currently maps to an entry in the '/etc/passwd' file.
///
/// # Unset vs. Blank Passwords
/// A note on unset passwords vs. blank passwords. A blank password
/// is a hash field that is completely blank (aka, `""`). According
/// to this crate, login is only allowed if the input password is blank
/// as well.
///
/// An unset password is one whose hash is not empty (`""`), but also not a valid
/// serialized argon2rs hashing session. This hash always returns false
/// upon attempted verification. The most commonly used hash for an
/// unset password is `"!"`, but this crate makes no distinction.
/// The most common way to unset the password is to use [`User::unset_passwd`].
///
/// Note that `"x"` should not be used as the hash field because
/// that indicates that a hash is stored in the shadowfile, not passwd
#[derive(Debug)]
pub struct User {
    /// Username (login name)
    pub user: String,
    /// Hashed password
    pub passwd: Password,
    /// User id
    pub uid: usize,
    /// Group id
    pub gid: usize,
    /// Real name (GECOS field)
    pub name: String,
    /// Home directory path
    pub home: String,
    /// Shell path
    pub shell: String,
}

/// [`User`] with its texts as characters.
#[verifier::ext_equal]
pub struct UserView {
    pub user: Seq<char>,
    pub hash: Seq<char>,
    pub uid: usize,
    pub gid: usize,
    pub name: Seq<char>,
    pub home: Seq<char>,
    pub shell: Seq<char>,
}

impl View for User {
    type V = UserView;

    open spec fn view(&self) -> UserView {
        UserView {
            user: self.user@,
            hash: self.passwd@,
            uid: self.uid,
            gid: self.gid,
            name: self.name@,
            home: self.home@,
            shell: self.shell@,
        }
    }
}

/// The fields of the entry of a user.
pub open spec fn user_fields(u: UserView) -> Seq<Seq<char>> {
    seq![
        u.user,
        u.hash,
        crate::number::decimal(u.uid as nat),
        crate::number::decimal(u.gid as nat),
        u.name,
        u.home,
        u.shell,
    ]
}

/// The entry of a user.
pub open spec fn user_entry(u: UserView) -> Seq<char> {
    crate::text::join(user_fields(u), ';')
}

/// The error of an entry that lacks a field.
pub open spec fn missing(reason: Seq<char>) -> ErrorView {
    ErrorView::Users(UsersErrorView::Parsing { reason })
}

/// The user that an entry describes, or the first thing that is wrong with it.
pub open spec fn parse_user(entry: Seq<char>) -> Result<UserView, ErrorView> {
    let f = crate::text::split(entry, ';');
    if f.len() < 2 {
        Err(missing("expected hash"@))
    } else if f.len() < 3 {
        Err(missing("expected uid"@))
    } else {
        match crate::number::number_value(f[2]) {
            Err(e) => Err(ErrorView::Int(e)),
            Ok(uid) => if f.len() < 4 {
                Err(missing("expected uid"@))
            } else {
                match crate::number::number_value(f[3]) {
                    Err(e) => Err(ErrorView::Int(e)),
                    Ok(gid) => if f.len() < 5 {
                        Err(missing("expected real name"@))
                    } else if f.len() < 6 {
                        Err(missing("expected home dir path"@))
                    } else if f.len() < 7 {
                        Err(missing("expected shell path"@))
                    } else {
                        Ok(
                            UserView {
                                user: f[0],
                                hash: f[1],
                                uid: uid as usize,
                                gid: gid as usize,
                                name: f[4],
                                home: f[5],
                                shell: f[6],
                            },
                        )
                    },
                }
            },
        }
    }
}

/// A command to start, and what to set up for it.
#[derive(Debug, PartialEq, Eq)]
pub struct LoginCmd {
    /// The program to run
    pub program: String,
    /// The user id to run it under
    pub uid: u32,
    /// The group id to run it under
    pub gid: u32,
    /// The directory to run it in
    pub current_dir: String,
    /// Environment variables and their values
    pub env: Vec<(String, String)>,
}

impl LoginCmd {
    /// The environment variables and their values, as characters.
    pub open spec fn variables(self) -> Seq<(Seq<char>, Seq<char>)> {
        self.env@.map_values(|v: (String, String)| (v.0@, v.1@))
    }
}

/// The environment variables of a session of `u`, and their values.
pub open spec fn login_variables(u: UserView) -> Seq<(Seq<char>, Seq<char>)> {
    seq![
        ("USER"@, u.user),
        ("UID"@, crate::number::decimal(u.uid as nat)),
        ("GROUPS"@, crate::number::decimal(u.gid as nat)),
        ("HOME"@, u.home),
        ("SHELL"@, u.shell),
    ]
}

impl User {
    /// The user with the given attributes, whose password is unset
    pub(crate) fn with_unset_passwd(
        user: &str,
        uid: usize,
        gid: usize,
        name: &str,
        home: &str,
        shell: &str,
    ) -> (res: User)
        ensures
            res@ == (UserView {
                user: user@,
                hash: "!"@,
                uid,
                gid,
                name: name@,
                home: home@,
                shell: shell@,
            }),
    {
        User {
            user: user.to_owned(),
            passwd: Password::unset(),
            uid,
            gid,
            name: name.to_owned(),
            home: home.to_owned(),
            shell: shell.to_owned(),
        }
    }

    /// Set the password for a user. Make sure the password you have
    /// received is actually what the user wants as their password.
    ///
    /// To set the password blank, use `""` as the password parameter.
    ///
    /// The salt is drawn at random. Where none comes, or one too short for Argon2,
    /// nothing is changed.
    pub fn set_passwd(&mut self, password: &str) -> (res: Result<(), Error>)
        requires
            vstd::utf8::encode_utf8(password@).len() <= u32::MAX,
        ensures
            res is Err ==> *final(self) == *old(self) && password@.len() > 0,
            password@.len() == 0 ==> res is Ok && final(self)@.hash.len() == 0,
            password@.len() > 0 ==> exists|drawn: Result<u64, String>| #[trigger]
                crate::passwd::is_draw(drawn) && match drawn {
                    Ok(nonce) => if nonce >= 0x1000_0000 {
                        &&& res is Ok
                        &&& vstd::utf8::encode_utf8(final(self)@.hash) == crate::argon::new_session(
                            crate::argon::Variant::Argon2i,
                            10,
                            1,
                            4096,
                            vstd::utf8::encode_utf8(password@),
                            vstd::utf8::encode_utf8(crate::number::hex_upper(nonce as nat)),
                            seq![],
                            seq![],
                        )
                    } else {
                        res matches Err(e) && e is ShortSalt
                    },
                    Err(reason) => res matches Err(e) && e@ == (ErrorView::Random {
                        reason: reason@,
                    }),
                },
            res matches Err(e) ==> e is Random || e is ShortSalt,
            res is Ok ==> final(self)@ == (UserView {
                hash: final(self)@.hash,
                ..old(self)@
            }),
            password@.len() == 0 ==> crate::passwd::is_blank(final(self)@.hash),
            res is Ok && password@.len() > 0 ==> exists|nonce: u64|
                nonce >= crate::passwd::MIN_NONCE && final(self)@.hash
                    == #[trigger] crate::passwd::salted_hash(password@, nonce),
            res is Ok && password@.len() > 0 ==> crate::passwd::has_session(final(self)@.hash),
            res is Ok && password@.len() > 0 ==> "$argon2i$m=4096,t=10,p=1$"@.is_prefix_of(
                final(self)@.hash,
            ),
            res is Ok ==> crate::passwd::can_verify(final(self)@.hash, password@),
            res is Ok ==> crate::passwd::accepts(final(self)@.hash, password@),
            res is Ok ==> crate::text::is_field(final(self)@.hash),
    {
        if password.is_empty() {
            self.passwd = Password::blank();
            proof {
                crate::passwd::law_blank_takes_blank(self@.hash, password@);
            }
            return Ok(());
        }
        let drawn: Result<u64, String> = draw();
        self.set_passwd_drawn(password, drawn)
    }

    /// Set the password for a user, with the number that was drawn for the salt, or
    /// with the reason why none was. A salt that is too short for Argon2 is refused.
    pub fn set_passwd_drawn(&mut self, password: &str, drawn: Result<u64, String>) -> (res: Result<
        (),
        Error,
    >)
        requires
            vstd::utf8::encode_utf8(password@).len() <= u32::MAX,
            password@.len() > 0,
        ensures
            match drawn {
                Ok(nonce) => if nonce >= crate::passwd::MIN_NONCE {
                    &&& res is Ok
                    &&& final(self)@ == (UserView {
                        hash: crate::passwd::salted_hash(password@, nonce),
                        ..old(self)@
                    })
                    &&& vstd::utf8::encode_utf8(final(self)@.hash) == crate::argon::new_session(
                        crate::argon::Variant::Argon2i,
                        10,
                        1,
                        4096,
                        vstd::utf8::encode_utf8(password@),
                        vstd::utf8::encode_utf8(crate::number::hex_upper(nonce as nat)),
                        seq![],
                        seq![],
                    )
                    &&& crate::passwd::has_session(final(self)@.hash)
                    &&& "$argon2i$m=4096,t=10,p=1$"@.is_prefix_of(final(self)@.hash)
                    &&& crate::passwd::can_verify(final(self)@.hash, password@)
                    &&& crate::passwd::accepts(final(self)@.hash, password@)
                    &&& crate::text::is_field(final(self)@.hash)
                } else {
                    &&& res matches Err(e) && e@ == ErrorView::ShortSalt
                    &&& *final(self) == *old(self)
                },
                Err(reason) => {
                    &&& res matches Err(e) && e@ == (ErrorView::Random { reason: reason@ })
                    &&& *final(self) == *old(self)
                },
            },
    {
        match drawn {
            Ok(nonce) => {
                if nonce < crate::passwd::MIN_NONCE {
                    return Err(Error::ShortSalt);
                }
                self.passwd = Password::salted(password, nonce);
                Ok(())
            },
            Err(reason) => Err(Error::Random { reason }),
        }
    }

    /// Unset the password (do not allow logins)
    pub fn unset_passwd(&mut self)
        ensures
            final(self)@ == (UserView { hash: "!"@, ..old(self)@ }),
            crate::passwd::is_unset(final(self)@.hash),
    {
        self.passwd = Password::unset();
        proof {
            crate::passwd::law_bang_is_unset();
        }
    }

    /// Verify the password. If the hash is empty, we only
    /// allow login if the password field is also empty.
    ///
    /// After a wrong password the caller waits: see [`crate::passwd::delay`].
    pub fn verify_passwd(&self, password: &str) -> (res: bool)
        requires
            crate::passwd::can_verify(self@.hash, password@),
        ensures
            res == crate::passwd::accepts(self@.hash, password@),
            crate::passwd::has_session(self@.hash) ==> res == crate::argon::session_accepts(
                vstd::utf8::encode_utf8(self@.hash),
                vstd::utf8::encode_utf8(password@),
            ),
            !crate::passwd::has_session(self@.hash) ==> res == (self@.hash.len() == 0
                && password@.len() == 0),
    {
        self.passwd.verify(password)
    }

    /// Verify the password, unless it is too long for Argon2 or the hashing session
    /// has a salt, a key or data that Argon2 cannot work with.
    pub fn checked_verify_passwd(&self, password: &str) -> (res: Option<bool>)
        ensures
            res == if crate::passwd::can_verify(self@.hash, password@) {
                Some(crate::passwd::accepts(self@.hash, password@))
            } else {
                None
            },
            crate::passwd::has_session(self@.hash) && crate::argon::is_runnable(
                vstd::utf8::encode_utf8(self@.hash),
            ) && vstd::utf8::encode_utf8(password@).len() <= u32::MAX ==> res == Some(
                crate::argon::session_accepts(
                    vstd::utf8::encode_utf8(self@.hash),
                    vstd::utf8::encode_utf8(password@),
                ),
            ),
            !crate::passwd::has_session(self@.hash) ==> res == Some(
                self@.hash.len() == 0 && password@.len() == 0,
            ),
    {
        if self.passwd.can_verify(password) {
            Some(self.verify_passwd(password))
        } else {
            None
        }
    }

    /// Determine if the hash for the password is blank
    /// (Any user can log in as this user with no password).
    pub fn is_passwd_blank(&self) -> (res: bool)
        ensures
            res == crate::passwd::is_blank(self@.hash),
            res == (self@.hash.len() == 0),
    {
        self.passwd.is_blank()
    }

    /// Determine if the hash for the password is unset
    /// (No users can log in as this user, aka, must use sudo or su)
    pub fn is_passwd_unset(&self) -> (res: bool)
        ensures
            res == crate::passwd::is_unset(self@.hash),
            res == (self@.hash.len() > 0 && !crate::passwd::has_session(self@.hash)),
    {
        !self.passwd.is_encoded() && !self.passwd.is_blank()
    }

    /// The hash field, which holds no semicolon
    pub fn hash(&self) -> (res: &str)
        ensures
            res@ == self@.hash,
            !res@.contains(';'),
    {
        self.passwd.hash()
    }

    /// Whether the hash field is a serialized hashing session
    pub fn is_encoded(&self) -> (res: bool)
        ensures
            res == crate::passwd::has_session(self@.hash),
    {
        self.passwd.is_encoded()
    }

    /// Get a command to run the user's default shell
    /// (See [`User::login_cmd`] for more doc)
    pub fn shell_cmd(&self) -> (res: Option<LoginCmd>)
        ensures
            res is Some <==> self@.uid <= u32::MAX && self@.gid <= u32::MAX,
            res matches Some(c) ==> {
                &&& c.program@ == self@.shell
                &&& c.uid == self@.uid
                &&& c.gid == self@.gid
                &&& c.current_dir@ == self@.home
                &&& c.variables() == login_variables(self@)
            },
            res is Some <==> self.uid <= u32::MAX && self.gid <= u32::MAX,
            res matches Some(c) ==> {
                &&& c.program@ == self.shell@
                &&& c.uid == self.uid
                &&& c.gid == self.gid
                &&& c.current_dir@ == self.home@
                &&& c.env@.len() == 5
                &&& c.env@[0].0@ == "USER"@ && c.env@[0].1@ == self.user@
                &&& c.env@[1].0@ == "UID"@ && c.env@[1].1@ == crate::number::decimal(
                    self.uid as nat,
                )
                &&& c.env@[2].0@ == "GROUPS"@ && c.env@[2].1@ == crate::number::decimal(
                    self.gid as nat,
                )
                &&& c.env@[3].0@ == "HOME"@ && c.env@[3].1@ == self.home@
                &&& c.env@[4].0@ == "SHELL"@ && c.env@[4].1@ == self.shell@
                &&& crate::number::number_value(c.env@[1].1@) == Ok::<nat, IntError>(c.uid as nat)
                &&& crate::number::number_value(c.env@[2].1@) == Ok::<nat, IntError>(c.gid as nat)
            },
    {
        self.login_cmd(self.shell.as_str())
    }

    /// Provide a login command for the user, which is any
    /// entry point for starting a user's session, whether
    /// a shell (use [`User::shell_cmd`] instead) or a graphical init.
    ///
    /// The command will have set the users UID and GID, its CWD will be
    /// set to the users's home directory and the follwing enviroment variables will
    /// be populated like so:
    ///
    ///    - `USER` set to the user's `user` field.
    ///    - `UID` set to the user's `uid` field.
    ///    - `GROUPS` set the user's `gid` field.
    ///    - `HOME` set to the user's `home` field.
    ///    - `SHELL` set to the user's `shell` field.
    ///
    /// A command runs under ids of 32 bits. For a user whose UID or GID has more there
    /// is none.
    pub fn login_cmd(&self, cmd: &str) -> (res: Option<LoginCmd>)
        ensures
            res is Some <==> self@.uid <= u32::MAX && self@.gid <= u32::MAX,
            res matches Some(c) ==> {
                &&& c.program@ == cmd@
                &&& c.uid == self@.uid
                &&& c.gid == self@.gid
                &&& c.current_dir@ == self@.home
                &&& c.variables() == login_variables(self@)
            },
            res is Some <==> self.uid <= u32::MAX && self.gid <= u32::MAX,
            res matches Some(c) ==> {
                &&& c.program@ == cmd@
                &&& c.uid == self.uid
                &&& c.gid == self.gid
                &&& c.current_dir@ == self.home@
                &&& c.env@.len() == 5
                &&& c.env@[0].0@ == "USER"@ && c.env@[0].1@ == self.user@
                &&& c.env@[1].0@ == "UID"@ && c.env@[1].1@ == crate::number::decimal(
                    self.uid as nat,
                )
                &&& c.env@[2].0@ == "GROUPS"@ && c.env@[2].1@ == crate::number::decimal(
                    self.gid as nat,
                )
                &&& c.env@[3].0@ == "HOME"@ && c.env@[3].1@ == self.home@
                &&& c.env@[4].0@ == "SHELL"@ && c.env@[4].1@ == self.shell@
                &&& crate::number::number_value(c.env@[1].1@) == Ok::<nat, IntError>(c.uid as nat)
                &&& crate::number::number_value(c.env@[2].1@) == Ok::<nat, IntError>(c.gid as nat)
            },
    {
        if self.uid > u32::MAX as usize || self.gid > u32::MAX as usize {
            return None;
        }
        proof {
            crate::number::law_decimal_round_trip(self.uid as nat);
            crate::number::law_decimal_round_trip(self.gid as nat);
        }
        let mut env: Vec<(String, String)> = Vec::new();
        env.push(("USER".to_owned(), self.user.clone()));
        env.push(("UID".to_owned(), to_decimal(self.uid)));
        env.push(("GROUPS".to_owned(), to_decimal(self.gid)));
        env.push(("HOME".to_owned(), self.home.clone()));
        env.push(("SHELL".to_owned(), self.shell.clone()));
        Some(
            LoginCmd {
                program: cmd.to_owned(),
                uid: self.uid as u32,
                gid: self.gid as u32,
                current_dir: self.home.clone(),
                env,
            },
        )
    }

    /// The entry of the user, which is read back as that user if the login name, the
    /// real name and the paths hold no semicolon
    pub fn to_string(&self) -> (res: String)
        ensures
            res@ == user_entry(self@),
            res@ == self.user@ + seq![';'] + self.passwd@ + seq![';'] + crate::number::decimal(
                self.uid as nat,
            ) + seq![';'] + crate::number::decimal(self.gid as nat) + seq![';'] + self.name@
                + seq![';'] + self.home@ + seq![';'] + self.shell@,
            !self@.user.contains(';') && !self@.name.contains(';') && !self@.home.contains(';')
                && !self@.shell.contains(';') ==> parse_user(res@) == Ok::<UserView, ErrorView>(
                self@,
            ),
    {
        let hash: &str = self.passwd.hash();
        let mut fields: Vec<String> = Vec::new();
        fields.push(self.user.clone());
        fields.push(hash.to_owned());
        fields.push(to_decimal(self.uid));
        fields.push(to_decimal(self.gid));
        fields.push(self.name.clone());
        fields.push(self.home.clone());
        fields.push(self.shell.clone());
        proof {
            assert(crate::text::strings(fields@) == user_fields(self@));
            law_written_user(self@);
            if !self@.user.contains(';') && !self@.name.contains(';') && !self@.home.contains(';')
                && !self@.shell.contains(';') {
                law_user_entry_round_trip(self@);
            }
        }
        crate::text::join_strs(&fields, ';')
    }
}

impl FromStr for User {
    type Err = Error;

    /// Reads the entry of a user
    fn from_str(s: &str) -> (res: Result<User, Error>)
        ensures
            match res {
                Ok(user) => parse_user(s@) == Ok::<UserView, ErrorView>(user@),
                Err(e) => parse_user(s@) == Err::<UserView, ErrorView>(e@),
            },
    {
        let f: Vec<String> = split_str(s, ';');
        let ghost fields = crate::text::split(s@, ';');
        proof {
            assert(crate::text::strings(f@).len() == f@.len());
            assert forall|i: int| 0 <= i < f@.len() implies fields[i] == #[trigger] f@[i]@ by {
                assert(crate::text::strings(f@)[i] == f@[i]@);
            }
            crate::text::lemma_split_free(s@, ';');
        }
        if f.len() < 2 {
            return Err(Error::Users(parse_error("expected hash")));
        }
        if f.len() < 3 {
            return Err(Error::Users(parse_error("expected uid")));
        }
        let uid: usize = match parse_number(f[2].as_str()) {
            Ok(uid) => uid,
            Err(e) => return Err(Error::Int(e)),
        };
        if f.len() < 4 {
            return Err(Error::Users(parse_error("expected uid")));
        }
        let gid: usize = match parse_number(f[3].as_str()) {
            Ok(gid) => gid,
            Err(e) => return Err(Error::Int(e)),
        };
        if f.len() < 5 {
            return Err(Error::Users(parse_error("expected real name")));
        }
        if f.len() < 6 {
            return Err(Error::Users(parse_error("expected home dir path")));
        }
        if f.len() < 7 {
            return Err(Error::Users(parse_error("expected shell path")));
        }
        Ok(
            User {
                user: f[0].clone(),
                passwd: Password::from_hash(f[1].as_str()),
                uid,
                gid,
                name: f[4].clone(),
                home: f[5].clone(),
                shell: f[6].clone(),
            },
        )
    }
}

/// The entry of a user is read back as that user, if no field holds a semicolon.
pub proof fn law_user_entry_round_trip(u: UserView)
    requires
        !u.user.contains(';'),
        !u.hash.contains(';'),
        !u.name.contains(';'),
        !u.home.contains(';'),
        !u.shell.contains(';'),
    ensures
        parse_user(user_entry(u)) == Ok::<UserView, ErrorView>(u),
{
    let fields = user_fields(u);
    crate::number::lemma_decimal_digits(u.uid as nat);
    crate::number::lemma_decimal_digits(u.gid as nat);
    crate::number::law_decimal_round_trip(u.uid as nat);
    crate::number::law_decimal_round_trip(u.gid as nat);
    assert(crate::text::free_of(fields, ';'));
    crate::text::law_split_of_join(fields, ';');
}

/// A user is seen with the characters of each field.
pub proof fn law_user_view(u: User)
    ensures
        u@.user == u.user@,
        u@.hash == u.passwd@,
        u@.uid == u.uid,
        u@.gid == u.gid,
        u@.name == u.name@,
        u@.home == u.home@,
        u@.shell == u.shell@,
{
}

/// The entry of a user is the login name, the hash, the user id, the group id, the real
/// name, the home directory and the shell, in this order, with semicolons between them.
pub proof fn law_written_user(u: UserView)
    ensures
        user_entry(u) == u.user + seq![';'] + u.hash + seq![';'] + crate::number::decimal(
            u.uid as nat,
        ) + seq![';'] + crate::number::decimal(u.gid as nat) + seq![';'] + u.name + seq![';']
            + u.home + seq![';'] + u.shell,
{
    let uid = crate::number::decimal(u.uid as nat);
    let gid = crate::number::decimal(u.gid as nat);
    let f6 = seq![u.shell];
    let f5 = seq![u.home] + f6;
    let f4 = seq![u.name] + f5;
    let f3 = seq![gid] + f4;
    let f2 = seq![uid] + f3;
    let f1 = seq![u.hash] + f2;
    assert(user_fields(u) == seq![u.user] + f1);
    crate::text::law_first_joined(u.user, f1, ';');
    crate::text::law_first_joined(u.hash, f2, ';');
    crate::text::law_first_joined(uid, f3, ';');
    crate::text::law_first_joined(gid, f4, ';');
    crate::text::law_first_joined(u.name, f5, ';');
    crate::text::law_first_joined(u.home, f6, ';');
    crate::text::law_first_joined(u.shell, f6, ';');
    assert(user_entry(u) == u.user + seq![';'] + u.hash + seq![';'] + uid + seq![';'] + gid
        + seq![';'] + u.name + seq![';'] + u.home + seq![';'] + u.shell);
}

/// The environment variables of a session are `USER` with the login name, `UID` with the
/// user id and `GROUPS` with the group id, both as decimal numerals, which are read back as
/// these ids, `HOME` with the home directory and `SHELL` with the shell, and no others.
pub proof fn law_login_variables(u: UserView)
    ensures
        login_variables(u).len() == 5,
        login_variables(u)[0] == ("USER"@, u.user),
        login_variables(u)[1].0 == "UID"@,
        login_variables(u)[1].1 == crate::number::decimal(u.uid as nat),
        crate::number::number_value(login_variables(u)[1].1) == Ok::<nat, IntError>(u.uid as nat),
        login_variables(u)[2].0 == "GROUPS"@,
        login_variables(u)[2].1 == crate::number::decimal(u.gid as nat),
        crate::number::number_value(login_variables(u)[2].1) == Ok::<nat, IntError>(u.gid as nat),
        login_variables(u)[3] == ("HOME"@, u.home),
        login_variables(u)[4] == ("SHELL"@, u.shell),
{
    crate::number::law_decimal_round_trip(u.uid as nat);
    crate::number::law_decimal_round_trip(u.gid as nat);
}

/// The environment variables of a command are seen one by one, in the same order.
pub proof fn law_variables(cmd: LoginCmd)
    ensures
        cmd.variables().len() == cmd.env@.len(),
        forall|i: int|
            0 <= i < cmd.env@.len() ==> #[trigger] cmd.variables()[i] == (
                cmd.env@[i].0@,
                cmd.env@[i].1@,
            ),
{
}

/// An entry is read by the places of its fields: what stands in front of the first
/// semicolon is the login name, what stands between the first and the second is the hash,
/// then come the user id, the group id, the real name, the home directory and the shell.
/// What follows a seventh semicolon does not count.
pub proof fn law_read_user(
    user: Seq<char>,
    hash: Seq<char>,
    uid_text: Seq<char>,
    gid_text: Seq<char>,
    name: Seq<char>,
    home: Seq<char>,
    shell: Seq<char>,
    rest: Seq<char>,
    uid: usize,
    gid: usize,
)
    requires
        !user.contains(';'),
        !hash.contains(';'),
        crate::number::number_value(uid_text) == Ok::<nat, IntError>(uid as nat),
        crate::number::number_value(gid_text) == Ok::<nat, IntError>(gid as nat),
        !name.contains(';'),
        !home.contains(';'),
        !shell.contains(';'),
        rest.len() > 0 ==> rest[0] == ';',
    ensures
        parse_user(
            user + seq![';'] + hash + seq![';'] + uid_text + seq![';'] + gid_text + seq![';']
                + name + seq![';'] + home + seq![';'] + shell + rest,
        ) == Ok::<UserView, ErrorView>(UserView { user, hash, uid, gid, name, home, shell }),
{
    let r6 = shell + rest;
    let r5 = home + seq![';'] + r6;
    let r4 = name + seq![';'] + r5;
    let r3 = gid_text + seq![';'] + r4;
    crate::number::lemma_number_has_no_semicolon(uid_text);
    crate::number::lemma_number_has_no_semicolon(gid_text);
    lemma_first_fields(user, hash, uid_text, r3);
    crate::text::law_first_piece(gid_text, r4, ';');
    crate::text::law_first_piece(name, r5, ';');
    crate::text::law_first_piece(home, r6, ';');
    crate::text::lemma_piece_in_front(shell, rest, ';');
    assert(user + seq![';'] + hash + seq![';'] + uid_text + seq![';'] + gid_text + seq![';']
        + name + seq![';'] + home + seq![';'] + shell + rest == user + seq![';'] + hash
        + seq![';'] + uid_text + seq![';'] + r3);
}

/// The first three fields of an entry, and those of the rest.
proof fn lemma_first_fields(
    user: Seq<char>,
    hash: Seq<char>,
    uid_text: Seq<char>,
    rest: Seq<char>,
)
    requires
        !user.contains(';'),
        !hash.contains(';'),
        !uid_text.contains(';'),
    ensures
        crate::text::split(
            user + seq![';'] + hash + seq![';'] + uid_text + seq![';'] + rest,
            ';',
        ) == seq![user, hash, uid_text] + crate::text::split(rest, ';'),
{
    let r2 = uid_text + seq![';'] + rest;
    let r1 = hash + seq![';'] + r2;
    crate::text::law_first_piece(user, r1, ';');
    crate::text::law_first_piece(hash, r2, ';');
    crate::text::law_first_piece(uid_text, rest, ';');
    assert(user + seq![';'] + hash + seq![';'] + uid_text + seq![';'] + rest == user + seq![';']
        + r1);
    assert(seq![user] + (seq![hash] + (seq![uid_text] + crate::text::split(rest, ';'))) == seq![
        user,
        hash,
        uid_text,
    ] + crate::text::split(rest, ';'));
}

/// An entry that ends in front of its second or third field lacks it. One whose third
/// field is no number is wrong for that reason, whatever follows.
pub proof fn law_user_without_id(
    user: Seq<char>,
    hash: Seq<char>,
    uid_text: Seq<char>,
    rest: Seq<char>,
)
    requires
        !user.contains(';'),
        !hash.contains(';'),
        !uid_text.contains(';'),
        rest.len() > 0 ==> rest[0] == ';',
    ensures
        parse_user(user) == Err::<UserView, ErrorView>(
            ErrorView::Users(UsersErrorView::Parsing { reason: "expected hash"@ }),
        ),
        parse_user(user + seq![';'] + hash) == Err::<UserView, ErrorView>(
            ErrorView::Users(UsersErrorView::Parsing { reason: "expected uid"@ }),
        ),
        crate::number::number_value(uid_text) matches Err(e) ==> parse_user(
            user + seq![';'] + hash + seq![';'] + uid_text + rest,
        ) == Err::<UserView, ErrorView>(ErrorView::Int(e)),
        crate::number::number_value(uid_text) is Ok ==> parse_user(
            user + seq![';'] + hash + seq![';'] + uid_text,
        ) == Err::<UserView, ErrorView>(
            ErrorView::Users(UsersErrorView::Parsing { reason: "expected uid"@ }),
        ),
{
    let empty = Seq::<char>::empty();
    let r2 = uid_text + rest;
    crate::text::law_first_piece(user, hash, ';');
    crate::text::law_first_piece(hash, r2, ';');
    crate::text::law_first_piece(hash, uid_text, ';');
    crate::text::law_first_piece(uid_text, empty, ';');
    crate::text::law_first_piece(user, hash + seq![';'] + r2, ';');
    crate::text::law_first_piece(user, hash + seq![';'] + uid_text, ';');
    crate::text::lemma_piece_in_front(uid_text, rest, ';');
    assert(user + seq![';'] + hash + seq![';'] + uid_text + rest == user + seq![';'] + (hash
        + seq![';'] + r2));
    assert(user + seq![';'] + hash + seq![';'] + uid_text == user + seq![';'] + (hash + seq![';']
        + uid_text));
}

/// An entry whose fourth field is no number is wrong for that reason, whatever follows.
/// One that ends in front of its fifth, sixth or seventh field lacks it.
pub proof fn law_user_without_field(
    user: Seq<char>,
    hash: Seq<char>,
    uid_text: Seq<char>,
    gid_text: Seq<char>,
    name: Seq<char>,
    home: Seq<char>,
    rest: Seq<char>,
)
    requires
        !user.contains(';'),
        !hash.contains(';'),
        crate::number::number_value(uid_text) is Ok,
        !gid_text.contains(';'),
        !name.contains(';'),
        !home.contains(';'),
        rest.len() > 0 ==> rest[0] == ';',
    ensures
        crate::number::number_value(gid_text) matches Err(e) ==> parse_user(
            user + seq![';'] + hash + seq![';'] + uid_text + seq![';'] + gid_text + rest,
        ) == Err::<UserView, ErrorView>(ErrorView::Int(e)),
        crate::number::number_value(gid_text) is Ok ==> {
            &&& parse_user(
                user + seq![';'] + hash + seq![';'] + uid_text + seq![';'] + gid_text,
            ) == Err::<UserView, ErrorView>(
                ErrorView::Users(UsersErrorView::Parsing { reason: "expected real name"@ }),
            )
            &&& parse_user(
                user + seq![';'] + hash + seq![';'] + uid_text + seq![';'] + gid_text + seq![';']
                    + name,
            ) == Err::<UserView, ErrorView>(
                ErrorView::Users(UsersErrorView::Parsing { reason: "expected home dir path"@ }),
            )
            &&& parse_user(
                user + seq![';'] + hash + seq![';'] + uid_text + seq![';'] + gid_text + seq![';']
                    + name + seq![';'] + home,
            ) == Err::<UserView, ErrorView>(
                ErrorView::Users(UsersErrorView::Parsing { reason: "expected shell path"@ }),
            )
        },
{
    let start = user + seq![';'] + hash + seq![';'] + uid_text + seq![';'];
    let named = gid_text + seq![';'] + name;
    let housed = gid_text + seq![';'] + (name + seq![';'] + home);
    crate::number::lemma_number_has_no_semicolon(uid_text);
    lemma_first_fields(user, hash, uid_text, gid_text + rest);
    lemma_first_fields(user, hash, uid_text, gid_text);
    lemma_first_fields(user, hash, uid_text, named);
    lemma_first_fields(user, hash, uid_text, housed);
    crate::text::lemma_piece_in_front(gid_text, rest, ';');
    crate::text::law_first_piece(gid_text, name, ';');
    crate::text::law_first_piece(gid_text, name + seq![';'] + home, ';');
    crate::text::law_first_piece(name, home, ';');
    crate::text::law_first_piece(home, home, ';');
    assert(start + gid_text + rest == start + (gid_text + rest));
    assert(start + gid_text + seq![';'] + name == start + named);
    assert(start + gid_text + seq![';'] + name + seq![';'] + home == start + housed);
}

/// The entry of `u` can stand in a file of users: no field holds a semicolon or a line
/// feed, and the last does not end with a carriage return.
pub open spec fn is_storable_user(u: UserView) -> bool {
    &&& crate::text::is_field(u.user)
    &&& crate::text::is_field(u.hash)
    &&& crate::text::is_field(u.name)
    &&& crate::text::is_field(u.home)
    &&& crate::text::is_field(u.shell)
    &&& crate::text::strip_cr(u.shell) == u.shell
}

/// The entry of a storable user is one line.
pub proof fn lemma_storable_user(u: UserView)
    requires
        is_storable_user(u),
    ensures
        parse_user(user_entry(u)) == Ok::<UserView, ErrorView>(u),
        !user_entry(u).contains('\n'),
        crate::text::strip_cr(user_entry(u)) == user_entry(u),
{
    let fields = user_fields(u);
    law_user_entry_round_trip(u);
    crate::number::lemma_decimal_digits(u.uid as nat);
    crate::number::lemma_decimal_digits(u.gid as nat);
    assert(crate::text::free_of(fields, '\n'));
    crate::text::lemma_join_free(fields, ';', '\n');
    crate::text::lemma_join_strip_cr(fields, ';');
}

/// The fields of a user that was read from one line can stand in a file of users, but
/// for a carriage return at the end of the last.
pub proof fn lemma_parsed_user_fields(entry: Seq<char>, u: UserView)
    requires
        parse_user(entry) == Ok::<UserView, ErrorView>(u),
        !entry.contains('\n'),
    ensures
        crate::text::is_field(u.user),
        crate::text::is_field(u.hash),
        crate::text::is_field(u.name),
        crate::text::is_field(u.home),
        crate::text::is_field(u.shell),
{
    let f = crate::text::split(entry, ';');
    crate::text::lemma_split_free(entry, ';');
    assert forall|i: int| 0 <= i < f.len() implies crate::text::is_field(#[trigger] f[i]) by {
        crate::text::lemma_split_holds(entry, ';', i, '\n');
    }
}

} // verus!
