//! All groups of the system.

use std::str::FromStr;

use vstd::prelude::*;

use crate::error::{Error, UsersError};
use crate::group::{Group, GroupView};
use crate::text::split_lines;

verus! {

/// The lowest id that is given out to groups
pub const MIN_GID: usize = 1000;

/// The id above the highest that is given out to groups
pub const MAX_GID: usize = 6000;

/// The groups with their texts as characters.
pub open spec fn entries(groups: Seq<Group>) -> Seq<GroupView> {
    groups.map_values(|g: Group| g@)
}

/// The group names.
pub open spec fn names(groups: Seq<GroupView>) -> Seq<Seq<char>> {
    groups.map_values(|g: GroupView| g.group)
}

/// The group ids.
pub open spec fn gids(groups: Seq<GroupView>) -> Seq<usize> {
    groups.map_values(|g: GroupView| g.gid)
}

/// The groups that the given lines describe. A line that describes none is passed over.
pub open spec fn parse_groups(lines: Seq<Seq<char>>) -> Seq<GroupView>
    decreases lines.len(),
{
    if lines.len() == 0 {
        Seq::empty()
    } else {
        let front = parse_groups(lines.drop_last());
        match crate::group::parse_group(lines.last()) {
            Ok(g) => front.push(g),
            Err(_) => front,
        }
    }
}

/// The groups that the text of a file of groups describes.
pub open spec fn read_groups(content: Seq<char>) -> Seq<GroupView> {
    parse_groups(crate::text::lines(content))
}

/// The lines that write the given groups.
pub open spec fn group_lines(groups: Seq<GroupView>) -> Seq<Seq<char>> {
    groups.map_values(|g: GroupView| crate::group::group_entry(g))
}

/// The text of a file of the given groups.
pub open spec fn write_groups(groups: Seq<GroupView>) -> Seq<char> {
    crate::text::unlines(group_lines(groups))
}

/// The characters of each of the given strings.
pub open spec fn strs(list: Seq<&str>) -> Seq<Seq<char>> {
    list.map_values(|s: &str| s@)
}

/// Struct encapsulating all the groups on the system
///
/// [`AllGroups`] is a struct that provides
/// (borrowed) access to all groups on the system.
///
/// General notes that also apply to this struct may be found with
/// [`AllUsers`](crate::all_users::AllUsers).
#[derive(Debug)]
pub struct AllGroups {
    groups: Vec<Group>,
}

impl View for AllGroups {
    type V = Seq<Group>;

    closed spec fn view(&self) -> Seq<Group> {
        self.groups@
    }
}

impl AllGroups {
    /// Create a new AllGroups from the content of the file of groups
    pub fn new(group_cntnt: &str) -> (res: AllGroups)
        ensures
            entries(res@) == read_groups(group_cntnt@),
    {
        let lines: Vec<String> = split_lines(group_cntnt);
        let ghost list = crate::text::lines(group_cntnt@);
        let mut groups: Vec<Group> = Vec::new();
        proof {
            assert(crate::text::strings(lines@).len() == lines@.len());
            assert(entries(groups@) == Seq::<GroupView>::empty());
        }
        for i in 0..lines.len()
            invariant
                list == crate::text::lines(group_cntnt@),
                crate::text::strings(lines@) == list,
                entries(groups@) == parse_groups(list.take(i as int)),
        {
            proof {
                assert(list.take(i + 1).drop_last() == list.take(i as int));
                assert(list.take(i + 1).last() == lines@[i as int]@);
            }
            let parsed: Result<Group, Error> = Group::from_str(lines[i].as_str());
            if let Ok(group) = parsed {
                let ghost before = groups@;
                groups.push(group);
                proof {
                    assert(entries(groups@) == entries(before).push(group@));
                }
            }
        }
        proof {
            assert(list.take(list.len() as int) == list);
        }
        AllGroups { groups }
    }

    /// Get an iterator over all system groups
    pub fn iter(&self) -> (res: std::slice::Iter<'_, Group>)
        ensures
            vstd::std_specs::iter::IteratorSpec::remaining(&res) == self@.as_ref(),
    {
        self.groups.iter()
    }

    /// Mutable version of `iter`
    pub fn iter_mut(&mut self) -> (res: &mut [Group])
        ensures
            res@ == old(self)@,
            final(self)@ == final(res)@,
    {
        self.groups.as_mut_slice()
    }

    /// Where the first group with the given name stands
    fn position_by_name(&self, groupname: &str) -> (res: Option<usize>)
        ensures
            match res {
                Some(i) => crate::list::first_index(names(entries(self@)), groupname@) == Some(
                    i as int,
                ),
                None => crate::list::first_index(names(entries(self@)), groupname@) is None,
            },
            res matches Some(i) ==> i < self@.len(),
    {
        let name: String = groupname.to_owned();
        let ghost keys = names(entries(self@));
        for i in 0..self.groups.len()
            invariant
                name@ == groupname@,
                keys == names(entries(self@)),
                forall|j: int| 0 <= j < i ==> keys[j] != groupname@,
        {
            proof {
                assert(keys[i as int] == self.groups@[i as int].group@);
            }
            if self.groups[i].group == name {
                proof {
                    crate::list::lemma_is_first_index(keys, groupname@, i as int);
                }
                return Some(i);
            }
        }
        proof {
            crate::list::lemma_no_index(keys, groupname@);
        }
        None
    }

    /// Where the first group with the given id stands
    fn position_by_id(&self, gid: usize) -> (res: Option<usize>)
        ensures
            match res {
                Some(i) => crate::list::first_index(gids(entries(self@)), gid) == Some(i as int),
                None => crate::list::first_index(gids(entries(self@)), gid) is None,
            },
            res matches Some(i) ==> i < self@.len(),
    {
        let ghost keys = gids(entries(self@));
        for i in 0..self.groups.len()
            invariant
                keys == gids(entries(self@)),
                forall|j: int| 0 <= j < i ==> keys[j] != gid,
        {
            proof {
                assert(keys[i as int] == self.groups@[i as int].gid);
            }
            if self.groups[i].gid == gid {
                proof {
                    crate::list::lemma_is_first_index(keys, gid, i as int);
                }
                return Some(i);
            }
        }
        proof {
            crate::list::lemma_no_index(keys, gid);
        }
        None
    }

    /// Gets the [`Group`] for a given group name.
    pub fn get_by_name(&self, groupname: &str) -> (res: Option<&Group>)
        ensures
            match crate::list::first_index(names(entries(self@)), groupname@) {
                Some(i) => res == Some(&self@[i]),
                None => res is None,
            },
    {
        match self.position_by_name(groupname) {
            Some(i) => Some(&self.groups[i]),
            None => None,
        }
    }

    /// Mutable version of [`AllGroups::get_by_name`]
    pub fn get_mut_by_name(&mut self, groupname: &str) -> (res: Option<&mut Group>)
        ensures
            match crate::list::first_index(names(entries(old(self)@)), groupname@) {
                Some(i) => {
                    &&& res matches Some(group)
                    &&& *group == old(self)@[i]
                    &&& final(self)@ == old(self)@.update(i, *final(group))
                },
                None => res is None && final(self)@ == old(self)@,
            },
    {
        match self.position_by_name(groupname) {
            Some(i) => Some(&mut self.groups[i]),
            None => None,
        }
    }

    /// Gets the [`Group`] for a given group ID.
    pub fn get_by_id(&self, gid: usize) -> (res: Option<&Group>)
        ensures
            match crate::list::first_index(gids(entries(self@)), gid) {
                Some(i) => res == Some(&self@[i]),
                None => res is None,
            },
    {
        match self.position_by_id(gid) {
            Some(i) => Some(&self.groups[i]),
            None => None,
        }
    }

    /// Mutable version of [`AllGroups::get_by_id`]
    pub fn get_mut_by_id(&mut self, gid: usize) -> (res: Option<&mut Group>)
        ensures
            match crate::list::first_index(gids(entries(old(self)@)), gid) {
                Some(i) => {
                    &&& res matches Some(group)
                    &&& *group == old(self)@[i]
                    &&& final(self)@ == old(self)@.update(i, *final(group))
                },
                None => res is None && final(self)@ == old(self)@,
            },
    {
        match self.position_by_id(gid) {
            Some(i) => Some(&mut self.groups[i]),
            None => None,
        }
    }

    /// Provides an unused group id, defined as "unused" by the system
    /// defaults, between 1000 and 6000
    pub fn get_unique_id(&self) -> (res: Option<usize>)
        ensures
            crate::list::is_lowest_free(gids(entries(self@)), MIN_GID, MAX_GID, res),
    {
        let ghost ids = gids(entries(self@));
        for gid in MIN_GID..MAX_GID
            invariant
                ids == gids(entries(self@)),
                forall|k: usize| MIN_GID <= k < gid ==> ids.contains(k),
        {
            proof {
                crate::list::lemma_first_index(ids, gid);
            }
            if self.position_by_id(gid).is_none() {
                return Some(gid);
            }
        }
        None
    }

    /// Adds a group with the specified attributes to this AllGroups
    ///
    /// This function is classified as a mutating operation,
    /// and what [`AllGroups::save`] gives must therefore be written
    /// in order for the new group to be applied to the system.
    pub fn add_group(&mut self, name: &str, gid: usize, users: &[&str]) -> (res: Result<
        (),
        UsersError,
    >)
        ensures
            if names(entries(old(self)@)).contains(name@) || gids(entries(old(self)@)).contains(
                gid,
            ) {
                &&& res matches Err(e) && e is AlreadyExists
                &&& *final(self) == *old(self)
            } else {
                &&& res is Ok
                &&& final(self)@.len() == old(self)@.len() + 1
                &&& final(self)@.drop_last() == old(self)@
                &&& final(self)@.last()@ == (GroupView {
                    group: name@,
                    gid,
                    users: strs(users@),
                })
            },
    {
        proof {
            crate::list::lemma_first_index(names(entries(self@)), name@);
            crate::list::lemma_first_index(gids(entries(self@)), gid);
        }
        if self.position_by_name(name).is_some() || self.position_by_id(gid).is_some() {
            return Err(UsersError::AlreadyExists);
        }
        let mut members: Vec<String> = Vec::new();
        for i in 0..users.len()
            invariant
                crate::text::strings(members@) == strs(users@.take(i as int)),
        {
            let ghost before = members@;
            let member: String = users[i].to_owned();
            members.push(member);
            proof {
                assert(crate::text::strings(members@) == crate::text::strings(before).push(
                    member@,
                ));
                assert(users@.take(i + 1) == users@.take(i as int).push(users@[i as int]));
                assert(strs(users@.take(i + 1)) == strs(users@.take(i as int)).push(member@));
            }
        }
        proof {
            assert(users@.take(users@.len() as int) == users@);
        }
        self.groups.push(Group { group: name.to_owned(), gid, users: members });
        Ok(())
    }

    /// Remove a group from the system. This is a mutating operation,
    /// and what [`AllGroups::save`] gives must therefore be written
    /// in order for changes to be applied to the system.
    pub fn remove_by_name(&mut self, name: String) -> (res: Result<(), UsersError>)
        ensures
            match crate::list::first_index(names(entries(old(self)@)), name@) {
                Some(i) => res is Ok && final(self)@ == old(self)@.remove(i),
                None => {
                    &&& res matches Err(e) && e is NotFound
                    &&& *final(self) == *old(self)
                },
            },
    {
        let pos: Option<usize> = self.position_by_name(name.as_str());
        self.remove(pos)
    }

    /// Group-id version of [`AllGroups::remove_by_name`]
    pub fn remove_by_id(&mut self, id: usize) -> (res: Result<(), UsersError>)
        ensures
            match crate::list::first_index(gids(entries(old(self)@)), id) {
                Some(i) => res is Ok && final(self)@ == old(self)@.remove(i),
                None => {
                    &&& res matches Err(e) && e is NotFound
                    &&& *final(self) == *old(self)
                },
            },
    {
        let pos: Option<usize> = self.position_by_id(id);
        self.remove(pos)
    }

    // Reduce code duplication
    fn remove(&mut self, pos: Option<usize>) -> (res: Result<(), UsersError>)
        requires
            pos matches Some(i) ==> i < old(self)@.len(),
        ensures
            match pos {
                Some(i) => res is Ok && final(self)@ == old(self)@.remove(i as int),
                None => {
                    &&& res matches Err(e) && e is NotFound
                    &&& *final(self) == *old(self)
                },
            },
    {
        match pos {
            Some(i) => {
                self.groups.remove(i);
                Ok(())
            },
            None => Err(UsersError::NotFound),
        }
    }

    /// The content of the file of groups for the data stored in the AllGroups instance.
    /// To apply changes to the system from an AllGroups, it MUST be written!
    pub fn save(&self) -> (res: String)
        ensures
            res@ == write_groups(entries(self@)),
    {
        let ghost list = group_lines(entries(self@));
        let mut groupstring: String = String::new();
        for i in 0..self.groups.len()
            invariant
                list == group_lines(entries(self@)),
                groupstring@ == crate::text::unlines(list.take(i as int)),
        {
            let ghost before = groupstring@;
            let entry: String = self.groups[i].to_string();
            groupstring.append(entry.as_str());
            groupstring.push('\n');
            proof {
                assert(list.take(i + 1).drop_last() == list.take(i as int));
                assert(list.take(i + 1).last() == entry@);
                assert(groupstring@ == before + entry@.push('\n'));
            }
        }
        proof {
            assert(list.take(list.len() as int) == list);
        }
        groupstring
    }
}

impl IntoIterator for AllGroups {
    type Item = Group;

    type IntoIter = std::vec::IntoIter<Group>;

    fn into_iter(self) -> (res: std::vec::IntoIter<Group>)
        ensures
            vstd::std_specs::iter::IteratorSpec::remaining(&res) == self@,
    {
        self.groups.into_iter()
    }
}

impl<'a> IntoIterator for &'a AllGroups {
    type Item = &'a Group;

    type IntoIter = std::slice::Iter<'a, Group>;

    fn into_iter(self) -> (res: std::slice::Iter<'a, Group>)
        ensures
            vstd::std_specs::iter::IteratorSpec::remaining(&res) == self@.as_ref(),
    {
        self.iter()
    }
}

/// Each of the groups can stand in a file of groups.
pub open spec fn all_storable(groups: Seq<GroupView>) -> bool {
    forall|i: int| 0 <= i < groups.len() ==> crate::group::is_storable_group(#[trigger] groups[i])
}

/// The lines of storable groups are read back as these groups.
proof fn lemma_parse_group_lines(groups: Seq<GroupView>)
    requires
        all_storable(groups),
    ensures
        parse_groups(group_lines(groups)) == groups,
    decreases groups.len(),
{
    let lines = group_lines(groups);
    if groups.len() > 0 {
        let front = groups.drop_last();
        assert(all_storable(front)) by {
            assert forall|i: int| 0 <= i < front.len() implies crate::group::is_storable_group(
                #[trigger] front[i],
            ) by {
                assert(front[i] == groups[i]);
            }
        }
        lemma_parse_group_lines(front);
        assert(lines.drop_last() == group_lines(front));
        let last = groups[groups.len() - 1];
        assert(lines.last() == crate::group::group_entry(last));
        crate::group::lemma_storable_group(last);
        assert(front.push(last) == groups);
    }
}

/// What is saved is what is read: the text of a file of storable groups is read back as
/// the same groups, in the same order.
pub proof fn law_groups_round_trip(groups: Seq<GroupView>)
    requires
        all_storable(groups),
    ensures
        read_groups(write_groups(groups)) == groups,
{
    let lines = group_lines(groups);
    assert forall|i: int| 0 <= i < lines.len() implies !(#[trigger] lines[i]).contains('\n')
        && crate::text::strip_cr(lines[i]) == lines[i] by {
        assert(crate::group::is_storable_group(groups[i]));
        crate::group::lemma_storable_group(groups[i]);
    }
    crate::text::law_lines_of_unlines(lines);
    lemma_parse_group_lines(groups);
}

/// Groups that are read from lines have storable fields, if the field for the members
/// keeps them apart.
proof fn lemma_parsed_groups(lines: Seq<Seq<char>>, i: int)
    requires
        crate::text::free_of(lines, '\n'),
        0 <= i < parse_groups(lines).len(),
        keeps_members(parse_groups(lines)[i]),
    ensures
        crate::group::is_storable_group(parse_groups(lines)[i]),
    decreases lines.len(),
{
    if lines.len() > 0 {
        let front = lines.drop_last();
        assert forall|k: int| 0 <= k < front.len() implies !(#[trigger] front[k]).contains(
            '\n',
        ) by {
            assert(front[k] == lines[k]);
        }
        if i < parse_groups(front).len() {
            lemma_parsed_groups(front, i);
        } else {
            assert(!lines[lines.len() - 1].contains('\n'));
            crate::group::lemma_parsed_group_fields(lines.last(), parse_groups(lines)[i]);
        }
    }
}

/// Of several members the first and the last have a name, and the last does not end with
/// a carriage return.
pub open spec fn keeps_members(g: GroupView) -> bool {
    &&& g.users.len() > 1 ==> g.users[0].len() > 0 && g.users.last().len() > 0
    &&& crate::text::strip_cr(g.users.last()) == g.users.last()
}

/// What was read from a file can be saved and read again without a change, if in each
/// group the first and the last of several members have a name, and the last does not end
/// with a carriage return.
pub proof fn law_reread_groups(content: Seq<char>)
    requires
        forall|i: int|
            0 <= i < read_groups(content).len() ==> keeps_members(
                #[trigger] read_groups(content)[i],
            ),
    ensures
        read_groups(write_groups(read_groups(content))) == read_groups(content),
{
    let groups = read_groups(content);
    crate::text::lemma_lines_free(content);
    assert forall|i: int| 0 <= i < groups.len() implies crate::group::is_storable_group(
        #[trigger] groups[i],
    ) by {
        assert(keeps_members(groups[i]));
        lemma_parsed_groups(crate::text::lines(content), i);
    }
    law_groups_round_trip(groups);
}

/// An added group, with a name and an id that no other has, is found by both, and
/// removing it by either gives back the groups from before.
pub proof fn law_added_group(groups: Seq<Group>, added: Group)
    requires
        !names(entries(groups)).contains(added@.group),
        !gids(entries(groups)).contains(added@.gid),
    ensures
        crate::list::first_index(names(entries(groups.push(added))), added@.group) == Some(
            groups.len() as int,
        ),
        crate::list::first_index(gids(entries(groups.push(added))), added@.gid) == Some(
            groups.len() as int,
        ),
        groups.push(added).remove(groups.len() as int) == groups,
{
    assert(names(entries(groups.push(added))) == names(entries(groups)).push(added@.group));
    assert(gids(entries(groups.push(added))) == gids(entries(groups)).push(added@.gid));
    crate::list::lemma_pushed_index(names(entries(groups)), added@.group);
    crate::list::lemma_pushed_index(gids(entries(groups)), added@.gid);
}

/// Names and ids that are each given once stay so when such a group is added.
pub proof fn law_add_keeps_distinct(groups: Seq<Group>, added: Group)
    requires
        crate::list::all_distinct(names(entries(groups))),
        crate::list::all_distinct(gids(entries(groups))),
        !names(entries(groups)).contains(added@.group),
        !gids(entries(groups)).contains(added@.gid),
    ensures
        crate::list::all_distinct(names(entries(groups.push(added)))),
        crate::list::all_distinct(gids(entries(groups.push(added)))),
{
    assert(names(entries(groups.push(added))) == names(entries(groups)).push(added@.group));
    assert(gids(entries(groups.push(added))) == gids(entries(groups)).push(added@.gid));
    crate::list::lemma_pushed_distinct(names(entries(groups)), added@.group);
    crate::list::lemma_pushed_distinct(gids(entries(groups)), added@.gid);
}

/// Where names are each given once, a group that was removed by name is found no
/// more.
pub proof fn law_removed_by_name(groups: Seq<Group>, name: Seq<char>, i: int)
    requires
        crate::list::all_distinct(names(entries(groups))),
        crate::list::first_index(names(entries(groups)), name) == Some(i),
    ensures
        crate::list::first_index(names(entries(groups.remove(i))), name) is None,
{
    crate::list::lemma_first_index(names(entries(groups)), name);
    assert(names(entries(groups.remove(i))) == names(entries(groups)).remove(i));
    crate::list::lemma_removed_index(names(entries(groups)), name, i);
}

/// Where ids are each given once, a group that was removed by id is found no more.
pub proof fn law_removed_by_id(groups: Seq<Group>, gid: usize, i: int)
    requires
        crate::list::all_distinct(gids(entries(groups))),
        crate::list::first_index(gids(entries(groups)), gid) == Some(i),
    ensures
        crate::list::first_index(gids(entries(groups.remove(i))), gid) is None,
{
    crate::list::lemma_first_index(gids(entries(groups)), gid);
    assert(gids(entries(groups.remove(i))) == gids(entries(groups)).remove(i));
    crate::list::lemma_removed_index(gids(entries(groups)), gid, i);
}

/// An id that is given out as unused is that of no group, so a group with a new name
/// can be added with it.
pub proof fn law_unique_id_is_unused(groups: Seq<Group>, id: usize)
    requires
        crate::list::is_lowest_free(gids(entries(groups)), MIN_GID, MAX_GID, Some(id)),
    ensures
        crate::list::first_index(gids(entries(groups)), id) is None,
        !gids(entries(groups)).contains(id),
        MIN_GID <= id < MAX_GID,
{
    crate::list::lemma_first_index(gids(entries(groups)), id);
}

/// Names and ids that are each given once stay so when a group is removed.
pub proof fn law_remove_keeps_distinct(groups: Seq<Group>, i: int)
    requires
        crate::list::all_distinct(names(entries(groups))),
        crate::list::all_distinct(gids(entries(groups))),
        0 <= i < groups.len(),
    ensures
        crate::list::all_distinct(names(entries(groups.remove(i)))),
        crate::list::all_distinct(gids(entries(groups.remove(i)))),
{
    assert(names(entries(groups.remove(i))) == names(entries(groups)).remove(i));
    assert(gids(entries(groups.remove(i))) == gids(entries(groups)).remove(i));
    crate::list::lemma_removed_distinct(names(entries(groups)), i);
    crate::list::lemma_removed_distinct(gids(entries(groups)), i);
}

/// Where names and ids are each given once, every group is found by both.
pub proof fn law_every_group_is_found(groups: Seq<Group>, i: int)
    requires
        crate::list::all_distinct(names(entries(groups))),
        crate::list::all_distinct(gids(entries(groups))),
        0 <= i < groups.len(),
    ensures
        crate::list::first_index(names(entries(groups)), groups[i]@.group) == Some(i),
        crate::list::first_index(gids(entries(groups)), groups[i]@.gid) == Some(i),
{
    assert(names(entries(groups))[i] == groups[i]@.group);
    assert(gids(entries(groups))[i] == groups[i]@.gid);
    crate::list::lemma_distinct_index(names(entries(groups)), i);
    crate::list::lemma_distinct_index(gids(entries(groups)), i);
}

/// What is looked for by name is the first group with that name, and there is none if no
/// group has it.
pub proof fn law_first_by_name(groups: Seq<Group>, name: Seq<char>)
    ensures
        match crate::list::first_index(names(entries(groups)), name) {
            Some(i) => {
                &&& 0 <= i < groups.len()
                &&& groups[i].group@ == name
                &&& forall|j: int| 0 <= j < i ==> (#[trigger] groups[j]).group@ != name
            },
            None => forall|j: int|
                0 <= j < groups.len() ==> (#[trigger] groups[j]).group@ != name,
        },
        names(entries(groups)).contains(name) <==> exists|j: int|
            0 <= j < groups.len() && (#[trigger] groups[j]).group@ == name,
{
    let keys = names(entries(groups));
    crate::list::lemma_first_index(keys, name);
    assert forall|j: int| 0 <= j < groups.len() implies keys[j] == (
    #[trigger] groups[j]).group@ by {}
    if keys.contains(name) {
        let j = choose|j: int| 0 <= j < keys.len() && keys[j] == name;
        assert(groups[j].group@ == name);
    }
    if exists|j: int| 0 <= j < groups.len() && (#[trigger] groups[j]).group@ == name {
        let j = choose|j: int|
            0 <= j < groups.len() && (#[trigger] groups[j]).group@ == name;
        assert(keys[j] == name);
    }
}

/// What is looked for by id is the first group with that id, and there is none if no group
/// has it.
pub proof fn law_first_by_id(groups: Seq<Group>, id: usize)
    ensures
        match crate::list::first_index(gids(entries(groups)), id) {
            Some(i) => {
                &&& 0 <= i < groups.len()
                &&& groups[i].gid == id
                &&& forall|j: int| 0 <= j < i ==> (#[trigger] groups[j]).gid != id
            },
            None => forall|j: int| 0 <= j < groups.len() ==> (#[trigger] groups[j]).gid != id,
        },
        gids(entries(groups)).contains(id) <==> exists|j: int|
            0 <= j < groups.len() && (#[trigger] groups[j]).gid == id,
{
    let keys = gids(entries(groups));
    crate::list::lemma_first_index(keys, id);
    assert forall|j: int| 0 <= j < groups.len() implies keys[j] == (
    #[trigger] groups[j]).gid by {}
    if keys.contains(id) {
        let j = choose|j: int| 0 <= j < keys.len() && keys[j] == id;
        assert(groups[j].gid == id);
    }
    if exists|j: int| 0 <= j < groups.len() && (#[trigger] groups[j]).gid == id {
        let j = choose|j: int| 0 <= j < groups.len() && (#[trigger] groups[j]).gid == id;
        assert(keys[j] == id);
    }
}

/// An id that is given out as unused is from 1000 up to 6000, no group has it, and every id
/// from 1000 up to it is taken. None is given out only if all of these are taken.
pub proof fn law_lowest_unused_id(groups: Seq<Group>, id: Option<usize>, other: usize)
    requires
        crate::list::is_lowest_free(gids(entries(groups)), MIN_GID, MAX_GID, id),
    ensures
        match id {
            Some(id) => {
                &&& 1000 <= id < 6000
                &&& forall|j: int| 0 <= j < groups.len() ==> (#[trigger] groups[j]).gid != id
                &&& 1000 <= other < id ==> exists|j: int|
                    0 <= j < groups.len() && (#[trigger] groups[j]).gid == other
            },
            None => 1000 <= other < 6000 ==> exists|j: int|
                0 <= j < groups.len() && (#[trigger] groups[j]).gid == other,
        },
{
    law_first_by_id(groups, other);
    if let Some(id) = id {
        law_first_by_id(groups, id);
    }
}

/// The groups of one line and of more lines.
proof fn lemma_parse_first(line: Seq<char>, rest: Seq<Seq<char>>)
    ensures
        parse_groups(seq![line] + rest) == (match crate::group::parse_group(line) {
            Ok(x) => seq![x],
            Err(_) => Seq::<GroupView>::empty(),
        }) + parse_groups(rest),
    decreases rest.len(),
{
    let all = seq![line] + rest;
    let first = match crate::group::parse_group(line) {
        Ok(x) => seq![x],
        Err(_) => Seq::<GroupView>::empty(),
    };
    assert(parse_groups(Seq::<Seq<char>>::empty()) == Seq::<GroupView>::empty());
    if rest.len() == 0 {
        assert(all.drop_last() == Seq::<Seq<char>>::empty());
        assert(all.last() == line);
        assert(parse_groups(all) == first + parse_groups(rest));
    } else {
        lemma_parse_first(line, rest.drop_last());
        assert(all.drop_last() == seq![line] + rest.drop_last());
        assert(all.last() == rest.last());
        assert(parse_groups(all) == first + parse_groups(rest));
    }
}

/// A file of groups is read line by line. The group that the first line describes comes
/// first, if it describes one, and then those of the lines that follow; a line that
/// describes none changes nothing. The empty file has no group.
pub proof fn law_read_first_line(line: Seq<char>, rest: Seq<char>)
    requires
        !line.contains('\n'),
    ensures
        read_groups(Seq::empty()) == Seq::<GroupView>::empty(),
        match crate::group::parse_group(line) {
            Ok(x) => {
                &&& read_groups(line) == seq![x]
                &&& read_groups(line + seq!['\r', '\n'] + rest) == seq![x] + read_groups(rest)
                &&& line.len() == 0 || line.last() != '\r' ==> read_groups(
                    line + seq!['\n'] + rest,
                ) == seq![x] + read_groups(rest)
            },
            Err(_) => {
                &&& read_groups(line) == Seq::<GroupView>::empty()
                &&& read_groups(line + seq!['\r', '\n'] + rest) == read_groups(rest)
                &&& line.len() == 0 || line.last() != '\r' ==> read_groups(
                    line + seq!['\n'] + rest,
                ) == read_groups(rest)
            },
        },
{
    let none = Seq::<Seq<char>>::empty();
    crate::text::law_first_line(line, rest);
    crate::text::law_first_line(Seq::empty(), rest);
    lemma_parse_first(line, crate::text::lines(rest));
    lemma_parse_first(line, none);
    assert(parse_groups(none) == Seq::<GroupView>::empty());
    assert(seq![line] + none == seq![line]);
    assert(Seq::<GroupView>::empty() + read_groups(rest) == read_groups(rest));
    if line.len() == 0 {
        crate::text::law_first_piece(line, rest, ';');
    }
    match crate::group::parse_group(line) {
        Ok(x) => {
            assert(seq![x] + Seq::<GroupView>::empty() == seq![x]);
        },
        Err(_) => {},
    }
}

/// The file of no groups is empty. That of others is the entry of the first, a line feed,
/// and then the file of the rest.
pub proof fn law_write_first_entry(first: GroupView, rest: Seq<GroupView>)
    ensures
        write_groups(Seq::empty()) == Seq::<char>::empty(),
        write_groups(seq![first] + rest) == crate::group::group_entry(first) + seq!['\n']
            + write_groups(rest),
{
    let entry = crate::group::group_entry(first);
    crate::text::law_first_written_line(entry, group_lines(rest));
    assert(group_lines(Seq::empty()) == Seq::<Seq<char>>::empty());
    assert(group_lines(seq![first] + rest) == seq![entry] + group_lines(rest));
}

/// The texts of a list are those of its strings, in the same order.
pub proof fn law_strs(list: Seq<&str>)
    ensures
        strs(list).len() == list.len(),
        forall|i: int| 0 <= i < list.len() ==> #[trigger] strs(list)[i] == list[i]@,
{
}

/// The groups are seen one by one, in the same order.
pub proof fn law_entries(groups: Seq<Group>)
    ensures
        entries(groups).len() == groups.len(),
        forall|i: int| 0 <= i < groups.len() ==> #[trigger] entries(groups)[i] == groups[i]@,
{
}

} // verus!
