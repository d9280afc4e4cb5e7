//! All users of the system.

use std::str::FromStr;

use vstd::prelude::*;

use crate::error::{Error, UsersError};
use crate::text::split_lines;
use crate::user::{User, UserView};

verus! {

/// The lowest id that is given out to users
pub const MIN_UID: usize = 1000;

/// The id above the highest that is given out to users
pub const MAX_UID: usize = 6000;

/// The users with their texts as characters.
pub open spec fn entries(users: Seq<User>) -> Seq<UserView> {
    users.map_values(|u: User| u@)
}

/// The login names.
pub open spec fn names(users: Seq<UserView>) -> Seq<Seq<char>> {
    users.map_values(|u: UserView| u.user)
}

/// The user ids.
pub open spec fn uids(users: Seq<UserView>) -> Seq<usize> {
    users.map_values(|u: UserView| u.uid)
}

/// The users that the given lines describe. A line that describes none is passed over.
pub open spec fn parse_users(lines: Seq<Seq<char>>) -> Seq<UserView>
    decreases lines.len(),
{
    if lines.len() == 0 {
        Seq::empty()
    } else {
        let front = parse_users(lines.drop_last());
        match crate::user::parse_user(lines.last()) {
            Ok(u) => front.push(u),
            Err(_) => front,
        }
    }
}

/// The users that the text of a file of users describes.
pub open spec fn read_users(content: Seq<char>) -> Seq<UserView> {
    parse_users(crate::text::lines(content))
}

/// The lines that write the given users.
pub open spec fn user_lines(users: Seq<UserView>) -> Seq<Seq<char>> {
    users.map_values(|u: UserView| crate::user::user_entry(u))
}

/// The text of a file of the given users.
pub open spec fn write_users(users: Seq<UserView>) -> Seq<char> {
    crate::text::unlines(user_lines(users))
}

/// Struct encapsulating all users on the system
///
/// [`AllUsers`] is a struct providing
/// (borrowed) access to all the users on the system.
///
/// ## Notes
/// Note that everything in this section also applies to
/// [`AllGroups`](crate::all_groups::AllGroups)
///
/// * If you mutate anything in conjunction with an AllUsers,
///   what [`AllUsers::save`] gives
///   must be written in order for those changes to be applied to the system.
/// * The API here is kept small on purpose in order to reduce the
///   surface area for security exploitation. Most mutating actions
///   can be accomplished via the [`AllUsers::get_mut_by_id`]
///   and [`AllUsers::get_mut_by_name`]
///   functions.
#[derive(Debug)]
pub struct AllUsers {
    users: Vec<User>,
}

impl View for AllUsers {
    type V = Seq<User>;

    closed spec fn view(&self) -> Seq<User> {
        self.users@
    }
}

impl AllUsers {
    /// Create a new AllUsers from the content of the file of users
    pub fn new(passwd_cntnt: &str) -> (res: AllUsers)
        ensures
            entries(res@) == read_users(passwd_cntnt@),
    {
        let lines: Vec<String> = split_lines(passwd_cntnt);
        let ghost list = crate::text::lines(passwd_cntnt@);
        let mut users: Vec<User> = Vec::new();
        proof {
            assert(crate::text::strings(lines@).len() == lines@.len());
            assert(entries(users@) == Seq::<UserView>::empty());
        }
        for i in 0..lines.len()
            invariant
                list == crate::text::lines(passwd_cntnt@),
                crate::text::strings(lines@) == list,
                entries(users@) == parse_users(list.take(i as int)),
        {
            proof {
                assert(list.take(i + 1).drop_last() == list.take(i as int));
                assert(list.take(i + 1).last() == lines@[i as int]@);
            }
            let parsed: Result<User, Error> = User::from_str(lines[i].as_str());
            if let Ok(user) = parsed {
                let ghost before = users@;
                users.push(user);
                proof {
                    assert(entries(users@) == entries(before).push(user@));
                }
            }
        }
        proof {
            assert(list.take(list.len() as int) == list);
        }
        AllUsers { users }
    }

    /// The given users
    pub fn from_iter(users: Vec<User>) -> (res: AllUsers)
        ensures
            res@ == users@,
    {
        AllUsers { users }
    }

    /// Get an iterator over all system users
    pub fn iter(&self) -> (res: std::slice::Iter<'_, User>)
        ensures
            vstd::std_specs::iter::IteratorSpec::remaining(&res) == self@.as_ref(),
    {
        self.users.iter()
    }

    /// Mutable version of `iter`
    pub fn iter_mut(&mut self) -> (res: &mut [User])
        ensures
            res@ == old(self)@,
            final(self)@ == final(res)@,
    {
        self.users.as_mut_slice()
    }

    /// Where the first user with the given login name stands
    fn position_by_name(&self, username: &str) -> (res: Option<usize>)
        ensures
            match res {
                Some(i) => crate::list::first_index(names(entries(self@)), username@) == Some(
                    i as int,
                ),
                None => crate::list::first_index(names(entries(self@)), username@) is None,
            },
            res matches Some(i) ==> i < self@.len(),
    {
        let name: String = username.to_owned();
        let ghost keys = names(entries(self@));
        for i in 0..self.users.len()
            invariant
                name@ == username@,
                keys == names(entries(self@)),
                forall|j: int| 0 <= j < i ==> keys[j] != username@,
        {
            proof {
                assert(keys[i as int] == self.users@[i as int].user@);
            }
            if self.users[i].user == name {
                proof {
                    crate::list::lemma_is_first_index(keys, username@, i as int);
                }
                return Some(i);
            }
        }
        proof {
            crate::list::lemma_no_index(keys, username@);
        }
        None
    }

    /// Where the first user with the given id stands
    fn position_by_id(&self, uid: usize) -> (res: Option<usize>)
        ensures
            match res {
                Some(i) => crate::list::first_index(uids(entries(self@)), uid) == Some(i as int),
                None => crate::list::first_index(uids(entries(self@)), uid) is None,
            },
            res matches Some(i) ==> i < self@.len(),
    {
        let ghost keys = uids(entries(self@));
        for i in 0..self.users.len()
            invariant
                keys == uids(entries(self@)),
                forall|j: int| 0 <= j < i ==> keys[j] != uid,
        {
            proof {
                assert(keys[i as int] == self.users@[i as int].uid);
            }
            if self.users[i].uid == uid {
                proof {
                    crate::list::lemma_is_first_index(keys, uid, i as int);
                }
                return Some(i);
            }
        }
        proof {
            crate::list::lemma_no_index(keys, uid);
        }
        None
    }

    /// Borrow the [`User`] representing a user for a given username.
    pub fn get_by_name(&self, username: &str) -> (res: Option<&User>)
        ensures
            match crate::list::first_index(names(entries(self@)), username@) {
                Some(i) => res == Some(&self@[i]),
                None => res is None,
            },
    {
        match self.position_by_name(username) {
            Some(i) => Some(&self.users[i]),
            None => None,
        }
    }

    /// Mutable version of [`AllUsers::get_by_name`]
    pub fn get_mut_by_name(&mut self, username: &str) -> (res: Option<&mut User>)
        ensures
            match crate::list::first_index(names(entries(old(self)@)), username@) {
                Some(i) => {
                    &&& res matches Some(user)
                    &&& *user == old(self)@[i]
                    &&& final(self)@ == old(self)@.update(i, *final(user))
                },
                None => res is None && final(self)@ == old(self)@,
            },
    {
        match self.position_by_name(username) {
            Some(i) => Some(&mut self.users[i]),
            None => None,
        }
    }

    /// Borrow the [`User`] representing given user ID.
    pub fn get_by_id(&self, uid: usize) -> (res: Option<&User>)
        ensures
            match crate::list::first_index(uids(entries(self@)), uid) {
                Some(i) => res == Some(&self@[i]),
                None => res is None,
            },
    {
        match self.position_by_id(uid) {
            Some(i) => Some(&self.users[i]),
            None => None,
        }
    }

    /// Mutable version of [`AllUsers::get_by_id`]
    pub fn get_mut_by_id(&mut self, uid: usize) -> (res: Option<&mut User>)
        ensures
            match crate::list::first_index(uids(entries(old(self)@)), uid) {
                Some(i) => {
                    &&& res matches Some(user)
                    &&& *user == old(self)@[i]
                    &&& final(self)@ == old(self)@.update(i, *final(user))
                },
                None => res is None && final(self)@ == old(self)@,
            },
    {
        match self.position_by_id(uid) {
            Some(i) => Some(&mut self.users[i]),
            None => None,
        }
    }

    /// Provides an unused user id, defined as "unused" by the system
    /// defaults, between 1000 and 6000
    pub fn get_unique_id(&self) -> (res: Option<usize>)
        ensures
            crate::list::is_lowest_free(uids(entries(self@)), MIN_UID, MAX_UID, res),
    {
        let ghost ids = uids(entries(self@));
        for uid in MIN_UID..MAX_UID
            invariant
                ids == uids(entries(self@)),
                forall|k: usize| MIN_UID <= k < uid ==> ids.contains(k),
        {
            proof {
                crate::list::lemma_first_index(ids, uid);
            }
            if self.position_by_id(uid).is_none() {
                return Some(uid);
            }
        }
        None
    }

    /// Adds a user with the specified attributes to the
    /// AllUsers instance. Note that the
    /// user's password is set unset during this call.
    ///
    /// This function is classified as a mutating operation,
    /// and what [`AllUsers::save`] gives must therefore be written
    /// in order for the new user to be applied to the system.
    pub fn add_user(
        &mut self,
        login: &str,
        uid: usize,
        gid: usize,
        name: &str,
        home: &str,
        shell: &str,
    ) -> (res: Result<(), UsersError>)
        ensures
            if names(entries(old(self)@)).contains(login@) || uids(entries(old(self)@)).contains(
                uid,
            ) {
                &&& res matches Err(e) && e is AlreadyExists
                &&& *final(self) == *old(self)
            } else {
                &&& res is Ok
                &&& final(self)@.len() == old(self)@.len() + 1
                &&& final(self)@.drop_last() == old(self)@
                &&& final(self)@.last()@ == (UserView {
                    user: login@,
                    hash: "!"@,
                    uid,
                    gid,
                    name: name@,
                    home: home@,
                    shell: shell@,
                })
                &&& crate::passwd::is_unset(final(self)@.last()@.hash)
            },
    {
        proof {
            crate::passwd::law_bang_is_unset();
            crate::list::lemma_first_index(names(entries(self@)), login@);
            crate::list::lemma_first_index(uids(entries(self@)), uid);
        }
        if self.position_by_name(login).is_some() || self.position_by_id(uid).is_some() {
            return Err(UsersError::AlreadyExists);
        }
        self.users.push(User::with_unset_passwd(login, uid, gid, name, home, shell));
        Ok(())
    }

    /// Remove a user from the system. This is a mutating operation,
    /// and what [`AllUsers::save`] gives must therefore be written
    /// in order for changes to be applied to the system.
    pub fn remove_by_name(&mut self, name: String) -> (res: Result<(), UsersError>)
        ensures
            match crate::list::first_index(names(entries(old(self)@)), name@) {
                Some(i) => res is Ok && final(self)@ == old(self)@.remove(i),
                None => {
                    &&& res matches Err(e) && e is NotFound
                    &&& *final(self) == *old(self)
                },
            },
    {
        let pos: Option<usize> = self.position_by_name(name.as_str());
        self.remove(pos)
    }

    /// User-id version of [`AllUsers::remove_by_name`]
    pub fn remove_by_id(&mut self, id: usize) -> (res: Result<(), UsersError>)
        ensures
            match crate::list::first_index(uids(entries(old(self)@)), id) {
                Some(i) => res is Ok && final(self)@ == old(self)@.remove(i),
                None => {
                    &&& res matches Err(e) && e is NotFound
                    &&& *final(self) == *old(self)
                },
            },
    {
        let pos: Option<usize> = self.position_by_id(id);
        self.remove(pos)
    }

    // Reduce code duplication
    fn remove(&mut self, pos: Option<usize>) -> (res: Result<(), UsersError>)
        requires
            pos matches Some(i) ==> i < old(self)@.len(),
        ensures
            match pos {
                Some(i) => res is Ok && final(self)@ == old(self)@.remove(i as int),
                None => {
                    &&& res matches Err(e) && e is NotFound
                    &&& *final(self) == *old(self)
                },
            },
    {
        match pos {
            Some(i) => {
                self.users.remove(i);
                Ok(())
            },
            None => Err(UsersError::NotFound),
        }
    }

    /// The content of the file of users for the data stored in the AllUsers instance.
    /// To apply changes to the system from an AllUsers, it MUST be written!
    pub fn save(&self) -> (res: String)
        ensures
            res@ == write_users(entries(self@)),
    {
        let ghost list = user_lines(entries(self@));
        let mut userstring: String = String::new();
        for i in 0..self.users.len()
            invariant
                list == user_lines(entries(self@)),
                userstring@ == crate::text::unlines(list.take(i as int)),
        {
            let ghost before = userstring@;
            let entry: String = self.users[i].to_string();
            userstring.append(entry.as_str());
            userstring.push('\n');
            proof {
                assert(list.take(i + 1).drop_last() == list.take(i as int));
                assert(list.take(i + 1).last() == entry@);
                assert(userstring@ == before + entry@.push('\n'));
            }
        }
        proof {
            assert(list.take(list.len() as int) == list);
        }
        userstring
    }
}

impl IntoIterator for AllUsers {
    type Item = User;

    type IntoIter = std::vec::IntoIter<User>;

    fn into_iter(self) -> (res: std::vec::IntoIter<User>)
        ensures
            vstd::std_specs::iter::IteratorSpec::remaining(&res) == self@,
    {
        self.users.into_iter()
    }
}

impl<'a> IntoIterator for &'a AllUsers {
    type Item = &'a User;

    type IntoIter = std::slice::Iter<'a, User>;

    fn into_iter(self) -> (res: std::slice::Iter<'a, User>)
        ensures
            vstd::std_specs::iter::IteratorSpec::remaining(&res) == self@.as_ref(),
    {
        self.iter()
    }
}

/// Each of the users can stand in a file of users.
pub open spec fn all_storable(users: Seq<UserView>) -> bool {
    forall|i: int| 0 <= i < users.len() ==> crate::user::is_storable_user(#[trigger] users[i])
}

/// The lines of storable users are read back as these users.
proof fn lemma_parse_user_lines(users: Seq<UserView>)
    requires
        all_storable(users),
    ensures
        parse_users(user_lines(users)) == users,
    decreases users.len(),
{
    let lines = user_lines(users);
    if users.len() > 0 {
        let front = users.drop_last();
        assert(all_storable(front)) by {
            assert forall|i: int| 0 <= i < front.len() implies crate::user::is_storable_user(
                #[trigger] front[i],
            ) by {
                assert(front[i] == users[i]);
            }
        }
        lemma_parse_user_lines(front);
        assert(lines.drop_last() == user_lines(front));
        let last = users[users.len() - 1];
        assert(lines.last() == crate::user::user_entry(last));
        crate::user::lemma_storable_user(last);
        assert(front.push(last) == users);
    }
}

/// What is saved is what is read: the text of a file of storable users is read back as
/// the same users, in the same order.
pub proof fn law_users_round_trip(users: Seq<UserView>)
    requires
        all_storable(users),
    ensures
        read_users(write_users(users)) == users,
{
    let lines = user_lines(users);
    assert forall|i: int| 0 <= i < lines.len() implies !(#[trigger] lines[i]).contains('\n')
        && crate::text::strip_cr(lines[i]) == lines[i] by {
        assert(crate::user::is_storable_user(users[i]));
        crate::user::lemma_storable_user(users[i]);
    }
    crate::text::law_lines_of_unlines(lines);
    lemma_parse_user_lines(users);
}

/// Users that are read from lines have storable fields.
proof fn lemma_parsed_users(lines: Seq<Seq<char>>, i: int)
    requires
        crate::text::free_of(lines, '\n'),
        0 <= i < parse_users(lines).len(),
        crate::text::strip_cr(parse_users(lines)[i].shell) == parse_users(lines)[i].shell,
    ensures
        crate::user::is_storable_user(parse_users(lines)[i]),
    decreases lines.len(),
{
    if lines.len() > 0 {
        let front = lines.drop_last();
        assert forall|k: int| 0 <= k < front.len() implies !(#[trigger] front[k]).contains(
            '\n',
        ) by {
            assert(front[k] == lines[k]);
        }
        if i < parse_users(front).len() {
            lemma_parsed_users(front, i);
        } else {
            assert(!lines[lines.len() - 1].contains('\n'));
            crate::user::lemma_parsed_user_fields(lines.last(), parse_users(lines)[i]);
        }
    }
}

/// What was read from a file can be saved and read again without a change, if the shell
/// of no user ends with a carriage return.
pub proof fn law_reread_users(content: Seq<char>)
    requires
        forall|i: int|
            0 <= i < read_users(content).len() ==> crate::text::strip_cr(
                (#[trigger] read_users(content)[i]).shell,
            ) == read_users(content)[i].shell,
    ensures
        read_users(write_users(read_users(content))) == read_users(content),
{
    let users = read_users(content);
    crate::text::lemma_lines_free(content);
    assert forall|i: int| 0 <= i < users.len() implies crate::user::is_storable_user(
        #[trigger] users[i],
    ) by {
        lemma_parsed_users(crate::text::lines(content), i);
    }
    law_users_round_trip(users);
}

/// An added user, with a login name and an id that no other has, is found by both, and
/// removing it by either gives back the users from before.
pub proof fn law_added_user(users: Seq<User>, added: User)
    requires
        !names(entries(users)).contains(added@.user),
        !uids(entries(users)).contains(added@.uid),
    ensures
        crate::list::first_index(names(entries(users.push(added))), added@.user) == Some(
            users.len() as int,
        ),
        crate::list::first_index(uids(entries(users.push(added))), added@.uid) == Some(
            users.len() as int,
        ),
        users.push(added).remove(users.len() as int) == users,
{
    assert(names(entries(users.push(added))) == names(entries(users)).push(added@.user));
    assert(uids(entries(users.push(added))) == uids(entries(users)).push(added@.uid));
    crate::list::lemma_pushed_index(names(entries(users)), added@.user);
    crate::list::lemma_pushed_index(uids(entries(users)), added@.uid);
}

/// Login names and ids that are each given once stay so when such a user is added.
pub proof fn law_add_keeps_distinct(users: Seq<User>, added: User)
    requires
        crate::list::all_distinct(names(entries(users))),
        crate::list::all_distinct(uids(entries(users))),
        !names(entries(users)).contains(added@.user),
        !uids(entries(users)).contains(added@.uid),
    ensures
        crate::list::all_distinct(names(entries(users.push(added)))),
        crate::list::all_distinct(uids(entries(users.push(added)))),
{
    assert(names(entries(users.push(added))) == names(entries(users)).push(added@.user));
    assert(uids(entries(users.push(added))) == uids(entries(users)).push(added@.uid));
    crate::list::lemma_pushed_distinct(names(entries(users)), added@.user);
    crate::list::lemma_pushed_distinct(uids(entries(users)), added@.uid);
}

/// Where login names are each given once, a user that was removed by name is found no
/// more.
pub proof fn law_removed_by_name(users: Seq<User>, name: Seq<char>, i: int)
    requires
        crate::list::all_distinct(names(entries(users))),
        crate::list::first_index(names(entries(users)), name) == Some(i),
    ensures
        crate::list::first_index(names(entries(users.remove(i))), name) is None,
{
    crate::list::lemma_first_index(names(entries(users)), name);
    assert(names(entries(users.remove(i))) == names(entries(users)).remove(i));
    crate::list::lemma_removed_index(names(entries(users)), name, i);
}

/// Where ids are each given once, a user that was removed by id is found no more.
pub proof fn law_removed_by_id(users: Seq<User>, uid: usize, i: int)
    requires
        crate::list::all_distinct(uids(entries(users))),
        crate::list::first_index(uids(entries(users)), uid) == Some(i),
    ensures
        crate::list::first_index(uids(entries(users.remove(i))), uid) is None,
{
    crate::list::lemma_first_index(uids(entries(users)), uid);
    assert(uids(entries(users.remove(i))) == uids(entries(users)).remove(i));
    crate::list::lemma_removed_index(uids(entries(users)), uid, i);
}

/// An id that is given out as unused is that of no user, so a user with a new login name
/// can be added with it.
pub proof fn law_unique_id_is_unused(users: Seq<User>, id: usize)
    requires
        crate::list::is_lowest_free(uids(entries(users)), MIN_UID, MAX_UID, Some(id)),
    ensures
        crate::list::first_index(uids(entries(users)), id) is None,
        !uids(entries(users)).contains(id),
        MIN_UID <= id < MAX_UID,
{
    crate::list::lemma_first_index(uids(entries(users)), id);
}

/// Login names and ids that are each given once stay so when a user is removed.
pub proof fn law_remove_keeps_distinct(users: Seq<User>, i: int)
    requires
        crate::list::all_distinct(names(entries(users))),
        crate::list::all_distinct(uids(entries(users))),
        0 <= i < users.len(),
    ensures
        crate::list::all_distinct(names(entries(users.remove(i)))),
        crate::list::all_distinct(uids(entries(users.remove(i)))),
{
    assert(names(entries(users.remove(i))) == names(entries(users)).remove(i));
    assert(uids(entries(users.remove(i))) == uids(entries(users)).remove(i));
    crate::list::lemma_removed_distinct(names(entries(users)), i);
    crate::list::lemma_removed_distinct(uids(entries(users)), i);
}

/// Where login names and ids are each given once, every user is found by both.
pub proof fn law_every_user_is_found(users: Seq<User>, i: int)
    requires
        crate::list::all_distinct(names(entries(users))),
        crate::list::all_distinct(uids(entries(users))),
        0 <= i < users.len(),
    ensures
        crate::list::first_index(names(entries(users)), users[i]@.user) == Some(i),
        crate::list::first_index(uids(entries(users)), users[i]@.uid) == Some(i),
{
    assert(names(entries(users))[i] == users[i]@.user);
    assert(uids(entries(users))[i] == users[i]@.uid);
    crate::list::lemma_distinct_index(names(entries(users)), i);
    crate::list::lemma_distinct_index(uids(entries(users)), i);
}

/// A password opens an account after storable users were saved and read if and only if
/// it did before.
pub proof fn law_password_survives_saving(users: Seq<UserView>, i: int, password: Seq<char>)
    requires
        all_storable(users),
        0 <= i < users.len(),
    ensures
        crate::passwd::accepts(read_users(write_users(users))[i].hash, password)
            == crate::passwd::accepts(users[i].hash, password),
{
    law_users_round_trip(users);
}

/// What is looked for by name is the first user with that name, and there is none if no
/// user has it.
pub proof fn law_first_by_name(users: Seq<User>, name: Seq<char>)
    ensures
        match crate::list::first_index(names(entries(users)), name) {
            Some(i) => {
                &&& 0 <= i < users.len()
                &&& users[i].user@ == name
                &&& forall|j: int| 0 <= j < i ==> (#[trigger] users[j]).user@ != name
            },
            None => forall|j: int|
                0 <= j < users.len() ==> (#[trigger] users[j]).user@ != name,
        },
        names(entries(users)).contains(name) <==> exists|j: int|
            0 <= j < users.len() && (#[trigger] users[j]).user@ == name,
{
    let keys = names(entries(users));
    crate::list::lemma_first_index(keys, name);
    assert forall|j: int| 0 <= j < users.len() implies keys[j] == (
    #[trigger] users[j]).user@ by {}
    if keys.contains(name) {
        let j = choose|j: int| 0 <= j < keys.len() && keys[j] == name;
        assert(users[j].user@ == name);
    }
    if exists|j: int| 0 <= j < users.len() && (#[trigger] users[j]).user@ == name {
        let j = choose|j: int|
            0 <= j < users.len() && (#[trigger] users[j]).user@ == name;
        assert(keys[j] == name);
    }
}

/// What is looked for by id is the first user with that id, and there is none if no user
/// has it.
pub proof fn law_first_by_id(users: Seq<User>, id: usize)
    ensures
        match crate::list::first_index(uids(entries(users)), id) {
            Some(i) => {
                &&& 0 <= i < users.len()
                &&& users[i].uid == id
                &&& forall|j: int| 0 <= j < i ==> (#[trigger] users[j]).uid != id
            },
            None => forall|j: int| 0 <= j < users.len() ==> (#[trigger] users[j]).uid != id,
        },
        uids(entries(users)).contains(id) <==> exists|j: int|
            0 <= j < users.len() && (#[trigger] users[j]).uid == id,
{
    let keys = uids(entries(users));
    crate::list::lemma_first_index(keys, id);
    assert forall|j: int| 0 <= j < users.len() implies keys[j] == (
    #[trigger] users[j]).uid by {}
    if keys.contains(id) {
        let j = choose|j: int| 0 <= j < keys.len() && keys[j] == id;
        assert(users[j].uid == id);
    }
    if exists|j: int| 0 <= j < users.len() && (#[trigger] users[j]).uid == id {
        let j = choose|j: int| 0 <= j < users.len() && (#[trigger] users[j]).uid == id;
        assert(keys[j] == id);
    }
}

/// An id that is given out as unused is from 1000 up to 6000, no user has it, and every id
/// from 1000 up to it is taken. None is given out only if all of these are taken.
pub proof fn law_lowest_unused_id(users: Seq<User>, id: Option<usize>, other: usize)
    requires
        crate::list::is_lowest_free(uids(entries(users)), MIN_UID, MAX_UID, id),
    ensures
        match id {
            Some(id) => {
                &&& 1000 <= id < 6000
                &&& forall|j: int| 0 <= j < users.len() ==> (#[trigger] users[j]).uid != id
                &&& 1000 <= other < id ==> exists|j: int|
                    0 <= j < users.len() && (#[trigger] users[j]).uid == other
            },
            None => 1000 <= other < 6000 ==> exists|j: int|
                0 <= j < users.len() && (#[trigger] users[j]).uid == other,
        },
{
    law_first_by_id(users, other);
    if let Some(id) = id {
        law_first_by_id(users, id);
    }
}

/// The users of one line and of more lines.
proof fn lemma_parse_first(line: Seq<char>, rest: Seq<Seq<char>>)
    ensures
        parse_users(seq![line] + rest) == (match crate::user::parse_user(line) {
            Ok(x) => seq![x],
            Err(_) => Seq::<UserView>::empty(),
        }) + parse_users(rest),
    decreases rest.len(),
{
    let all = seq![line] + rest;
    let first = match crate::user::parse_user(line) {
        Ok(x) => seq![x],
        Err(_) => Seq::<UserView>::empty(),
    };
    assert(parse_users(Seq::<Seq<char>>::empty()) == Seq::<UserView>::empty());
    if rest.len() == 0 {
        assert(all.drop_last() == Seq::<Seq<char>>::empty());
        assert(all.last() == line);
        assert(parse_users(all) == first + parse_users(rest));
    } else {
        lemma_parse_first(line, rest.drop_last());
        assert(all.drop_last() == seq![line] + rest.drop_last());
        assert(all.last() == rest.last());
        assert(parse_users(all) == first + parse_users(rest));
    }
}

/// A file of users is read line by line. The user that the first line describes comes
/// first, if it describes one, and then those of the lines that follow; a line that
/// describes none changes nothing. The empty file has no user.
pub proof fn law_read_first_line(line: Seq<char>, rest: Seq<char>)
    requires
        !line.contains('\n'),
    ensures
        read_users(Seq::empty()) == Seq::<UserView>::empty(),
        match crate::user::parse_user(line) {
            Ok(x) => {
                &&& read_users(line) == seq![x]
                &&& read_users(line + seq!['\r', '\n'] + rest) == seq![x] + read_users(rest)
                &&& line.len() == 0 || line.last() != '\r' ==> read_users(
                    line + seq!['\n'] + rest,
                ) == seq![x] + read_users(rest)
            },
            Err(_) => {
                &&& read_users(line) == Seq::<UserView>::empty()
                &&& read_users(line + seq!['\r', '\n'] + rest) == read_users(rest)
                &&& line.len() == 0 || line.last() != '\r' ==> read_users(
                    line + seq!['\n'] + rest,
                ) == read_users(rest)
            },
        },
{
    let none = Seq::<Seq<char>>::empty();
    crate::text::law_first_line(line, rest);
    crate::text::law_first_line(Seq::empty(), rest);
    lemma_parse_first(line, crate::text::lines(rest));
    lemma_parse_first(line, none);
    assert(parse_users(none) == Seq::<UserView>::empty());
    assert(seq![line] + none == seq![line]);
    assert(Seq::<UserView>::empty() + read_users(rest) == read_users(rest));
    if line.len() == 0 {
        crate::text::law_first_piece(line, rest, ';');
    }
    match crate::user::parse_user(line) {
        Ok(x) => {
            assert(seq![x] + Seq::<UserView>::empty() == seq![x]);
        },
        Err(_) => {},
    }
}

/// The file of no users is empty. That of others is the entry of the first, a line feed,
/// and then the file of the rest.
pub proof fn law_write_first_entry(first: UserView, rest: Seq<UserView>)
    ensures
        write_users(Seq::empty()) == Seq::<char>::empty(),
        write_users(seq![first] + rest) == crate::user::user_entry(first) + seq!['\n']
            + write_users(rest),
{
    let entry = crate::user::user_entry(first);
    crate::text::law_first_written_line(entry, user_lines(rest));
    assert(user_lines(Seq::empty()) == Seq::<Seq<char>>::empty());
    assert(user_lines(seq![first] + rest) == seq![entry] + user_lines(rest));
}

/// The users are seen one by one, in the same order.
pub proof fn law_entries(users: Seq<User>)
    ensures
        entries(users).len() == users.len(),
        forall|i: int| 0 <= i < users.len() ==> #[trigger] entries(users)[i] == users[i]@,
{
}

} // verus!
