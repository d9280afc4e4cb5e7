//! A group, and the entry of a group in the file of groups.

use std::str::FromStr;

use vstd::prelude::*;

use crate::error::{parse_error, Error, ErrorView, UsersErrorView};
use crate::number::{parse_number, to_decimal, IntError};
use crate::text::{join_strs, split_str, trim_str};

verus! {

/// A struct representing a Redox users group.
/// Currently maps to an '/etc/group' file entry.
#[derive(Debug)]
pub struct Group {
    /// Group name
    pub group: String,
    /// Unique group id
    pub gid: usize,
    /// Group members usernames
    pub users: Vec<String>,
}

/// [`Group`] with its texts as characters.
#[verifier::ext_equal]
pub struct GroupView {
    pub group: Seq<char>,
    pub gid: usize,
    pub users: Seq<Seq<char>>,
}

impl View for Group {
    type V = GroupView;

    open spec fn view(&self) -> GroupView {
        GroupView {
            group: self.group@,
            gid: self.gid,
            users: crate::text::strings(self.users@),
        }
    }
}

/// The field for the members of a group. Commas at its start and at its end, which
/// members with an empty name would leave there, are dropped.
pub open spec fn users_field(users: Seq<Seq<char>>) -> Seq<char> {
    crate::text::trim(crate::text::join(users, ','), ',')
}

/// The fields of the entry of a group.
pub open spec fn group_fields(g: GroupView) -> Seq<Seq<char>> {
    seq![g.group, crate::number::decimal(g.gid as nat), users_field(g.users)]
}

/// The entry of a group.
pub open spec fn group_entry(g: GroupView) -> Seq<char> {
    crate::text::join(group_fields(g), ';')
}

/// The group that an entry describes, or the first thing that is wrong with it. An
/// entry without a field for the members is read as if a blank stood there.
pub open spec fn parse_group(entry: Seq<char>) -> Result<GroupView, ErrorView> {
    let f = crate::text::split(entry, ';');
    if f.len() < 2 {
        Err(crate::user::missing("expected gid"@))
    } else {
        match crate::number::number_value(f[1]) {
            Err(e) => Err(ErrorView::Int(e)),
            Ok(gid) => {
                let users = if f.len() < 3 {
                    " "@
                } else {
                    f[2]
                };
                Ok(
                    GroupView {
                        group: f[0],
                        gid: gid as usize,
                        users: crate::text::split(users, ','),
                    },
                )
            },
        }
    }
}

impl Group {
    /// The entry of the group
    pub fn to_string(&self) -> (res: String)
        ensures
            res@ == group_entry(self@),
            res@ == self.group@ + seq![';'] + crate::number::decimal(self.gid as nat) + seq![';']
                + users_field(crate::text::strings(self.users@)),
    {
        let members: String = join_strs(&self.users, ',');
        let mut fields: Vec<String> = Vec::new();
        fields.push(self.group.clone());
        fields.push(to_decimal(self.gid));
        fields.push(trim_str(members.as_str(), ','));
        proof {
            assert(crate::text::strings(fields@) == group_fields(self@));
            law_written_group(self@);
        }
        join_strs(&fields, ';')
    }
}

impl FromStr for Group {
    type Err = Error;

    /// Reads the entry of a group
    fn from_str(s: &str) -> (res: Result<Group, Error>)
        ensures
            match res {
                Ok(group) => parse_group(s@) == Ok::<GroupView, ErrorView>(group@),
                Err(e) => parse_group(s@) == Err::<GroupView, ErrorView>(e@),
            },
    {
        let f: Vec<String> = split_str(s, ';');
        let ghost fields = crate::text::split(s@, ';');
        proof {
            assert(crate::text::strings(f@).len() == f@.len());
            assert forall|i: int| 0 <= i < f@.len() implies fields[i] == #[trigger] f@[i]@ by {
                assert(crate::text::strings(f@)[i] == f@[i]@);
            }
        }
        if f.len() < 2 {
            return Err(Error::Users(parse_error("expected gid")));
        }
        let gid: usize = match parse_number(f[1].as_str()) {
            Ok(gid) => gid,
            Err(e) => return Err(Error::Int(e)),
        };
        let users: Vec<String> = if f.len() < 3 {
            split_str(" ", ',')
        } else {
            split_str(f[2].as_str(), ',')
        };
        Ok(Group { group: f[0].clone(), gid, users })
    }
}

/// A group is seen with the characters of its name and of each member.
pub proof fn law_group_view(g: Group)
    ensures
        g@.group == g.group@,
        g@.gid == g.gid,
        g@.users.len() == g.users@.len(),
        forall|i: int| 0 <= i < g.users@.len() ==> #[trigger] g@.users[i] == g.users@[i]@,
{
}

/// The field for the members neither starts nor ends with a comma. It is the names with
/// commas between them, without the commas in front and behind.
pub proof fn law_members_field(users: Seq<Seq<char>>)
    ensures
        users_field(users).len() > 0 ==> users_field(users)[0] != ',' && users_field(users).last()
            != ',',
        exists|i: int, j: int|
            {
                &&& 0 <= i <= j <= crate::text::join(users, ',').len()
                &&& users_field(users) == #[trigger] crate::text::join(users, ',').subrange(i, j)
                &&& forall|k: int|
                    0 <= k < i || j <= k < crate::text::join(users, ',').len()
                        ==> crate::text::join(users, ',')[k] == ','
            },
{
    crate::text::law_trim(crate::text::join(users, ','), ',');
}

/// The entry of a group is the name, the id and the field for the members, in this order,
/// with semicolons between them.
pub proof fn law_written_group(g: GroupView)
    ensures
        group_entry(g) == g.group + seq![';'] + crate::number::decimal(g.gid as nat) + seq![';']
            + users_field(g.users),
{
    let gid = crate::number::decimal(g.gid as nat);
    let members = users_field(g.users);
    let f2 = seq![members];
    let f1 = seq![gid] + f2;
    assert(group_fields(g) == seq![g.group] + f1);
    crate::text::law_first_joined(g.group, f1, ';');
    crate::text::law_first_joined(gid, f2, ';');
    crate::text::law_first_joined(members, f2, ';');
    assert(group_entry(g) == g.group + seq![';'] + gid + seq![';'] + members);
}

/// An entry is read by the places of its fields: what stands in front of the first
/// semicolon is the name, what stands between the first and the second is the id, and what
/// follows, up to a third, is the members, with commas between them. An entry that ends
/// behind the id has one member, whose name is a blank.
pub proof fn law_read_group(
    group: Seq<char>,
    gid_text: Seq<char>,
    members: Seq<char>,
    rest: Seq<char>,
    gid: usize,
)
    requires
        !group.contains(';'),
        crate::number::number_value(gid_text) == Ok::<nat, IntError>(gid as nat),
        !members.contains(';'),
        rest.len() > 0 ==> rest[0] == ';',
    ensures
        parse_group(group + seq![';'] + gid_text + seq![';'] + members + rest) == Ok::<
            GroupView,
            ErrorView,
        >(GroupView { group, gid, users: crate::text::split(members, ',') }),
        parse_group(group + seq![';'] + gid_text) == Ok::<GroupView, ErrorView>(
            GroupView { group, gid, users: seq![seq![' ']] },
        ),
{
    let r2 = members + rest;
    let r1 = gid_text + seq![';'] + r2;
    crate::number::lemma_number_has_no_semicolon(gid_text);
    crate::text::law_first_piece(group, r1, ';');
    crate::text::law_first_piece(group, gid_text, ';');
    crate::text::law_first_piece(gid_text, r2, ';');
    crate::text::lemma_piece_in_front(members, rest, ';');
    assert(group + seq![';'] + gid_text + seq![';'] + members + rest == group + seq![';'] + r1);
    reveal_strlit(" ");
    assert(" "@ == seq![' ']);
    crate::text::law_first_piece(seq![' '], rest, ',');
}

/// An entry without a semicolon lacks the id. One whose second field is no number is wrong
/// for that reason, whatever follows.
pub proof fn law_group_without_id(group: Seq<char>, gid_text: Seq<char>, rest: Seq<char>)
    requires
        !group.contains(';'),
        !gid_text.contains(';'),
        rest.len() > 0 ==> rest[0] == ';',
    ensures
        parse_group(group) == Err::<GroupView, ErrorView>(
            ErrorView::Users(UsersErrorView::Parsing { reason: "expected gid"@ }),
        ),
        crate::number::number_value(gid_text) matches Err(e) ==> parse_group(
            group + seq![';'] + gid_text + rest,
        ) == Err::<GroupView, ErrorView>(ErrorView::Int(e)),
{
    crate::text::law_first_piece(group, gid_text + rest, ';');
    crate::text::lemma_piece_in_front(gid_text, rest, ';');
    assert(group + seq![';'] + gid_text + rest == group + seq![';'] + (gid_text + rest));
}

/// Members that the field for them keeps apart: there is one at least, no name holds a
/// comma, and of several the first and the last have a name.
pub open spec fn is_member_list(users: Seq<Seq<char>>) -> bool {
    &&& users.len() >= 1
    &&& crate::text::free_of(users, ',')
    &&& users.len() > 1 ==> users[0].len() > 0 && users.last().len() > 0
}

/// The field for such members is their names with commas between them.
proof fn lemma_users_field(users: Seq<Seq<char>>)
    requires
        is_member_list(users),
    ensures
        users_field(users) == crate::text::join(users, ','),
        crate::text::split(users_field(users), ',') == users,
{
    let joined = crate::text::join(users, ',');
    if users[0].len() > 0 {
        crate::text::lemma_join_first(users, ',');
        crate::text::lemma_join_last(users, ',');
        assert(!users[0].contains(','));
        assert(!users[users.len() - 1].contains(','));
        assert(users[0].contains(users[0][0]));
        assert(users.last().contains(users.last().last()));
    }
    crate::text::lemma_trim_nothing(joined, ',');
    crate::text::law_split_of_join(users, ',');
}

/// The entry of a group is read back as that group, if the name and the members hold no
/// semicolon and the field for the members keeps them apart.
pub proof fn law_group_entry_round_trip(g: GroupView)
    requires
        !g.group.contains(';'),
        crate::text::free_of(g.users, ';'),
        is_member_list(g.users),
    ensures
        parse_group(group_entry(g)) == Ok::<GroupView, ErrorView>(g),
{
    let fields = group_fields(g);
    crate::number::lemma_decimal_digits(g.gid as nat);
    crate::number::law_decimal_round_trip(g.gid as nat);
    lemma_users_field(g.users);
    crate::text::lemma_join_free(g.users, ',', ';');
    assert(crate::text::free_of(fields, ';'));
    crate::text::law_split_of_join(fields, ';');
}

/// The entry of `g` can stand in a file of groups: neither the name nor a member holds a
/// semicolon or a line feed, the field for the members keeps them apart, and the last
/// member does not end with a carriage return.
pub open spec fn is_storable_group(g: GroupView) -> bool {
    &&& crate::text::is_field(g.group)
    &&& forall|i: int| 0 <= i < g.users.len() ==> crate::text::is_field(#[trigger] g.users[i])
    &&& is_member_list(g.users)
    &&& crate::text::strip_cr(g.users.last()) == g.users.last()
}

/// The entry of a storable group is one line.
pub proof fn lemma_storable_group(g: GroupView)
    requires
        is_storable_group(g),
    ensures
        parse_group(group_entry(g)) == Ok::<GroupView, ErrorView>(g),
        !group_entry(g).contains('\n'),
        crate::text::strip_cr(group_entry(g)) == group_entry(g),
{
    let fields = group_fields(g);
    assert forall|i: int| 0 <= i < g.users.len() implies !(#[trigger] g.users[i]).contains(';')
        && !g.users[i].contains('\n') by {
        assert(crate::text::is_field(g.users[i]));
    }
    law_group_entry_round_trip(g);
    crate::number::lemma_decimal_digits(g.gid as nat);
    lemma_users_field(g.users);
    crate::text::lemma_join_free(g.users, ',', '\n');
    assert(crate::text::free_of(fields, '\n'));
    crate::text::lemma_join_free(fields, ';', '\n');
    let members = users_field(g.users);
    assert(crate::text::strip_cr(members) == members) by {
        if g.users.len() > 1 {
            crate::text::lemma_join_strip_cr(g.users, ',');
        }
    }
    crate::text::lemma_join_strip_cr(fields, ';');
}

/// The fields of a group that was read from one line hold no semicolon and no line feed,
/// no member holds a comma, and there is one at least.
pub proof fn lemma_parsed_group_fields(entry: Seq<char>, g: GroupView)
    requires
        parse_group(entry) == Ok::<GroupView, ErrorView>(g),
        !entry.contains('\n'),
    ensures
        crate::text::is_field(g.group),
        forall|i: int| 0 <= i < g.users.len() ==> crate::text::is_field(#[trigger] g.users[i]),
        crate::text::free_of(g.users, ','),
        g.users.len() >= 1,
{
    let f = crate::text::split(entry, ';');
    crate::text::lemma_split_free(entry, ';');
    assert forall|i: int| 0 <= i < f.len() implies crate::text::is_field(#[trigger] f[i]) by {
        crate::text::lemma_split_holds(entry, ';', i, '\n');
    }
    reveal_strlit(" ");
    let users = if f.len() < 3 {
        " "@
    } else {
        f[2]
    };
    assert(crate::text::is_field(users));
    crate::text::lemma_split_len(users, ',');
    crate::text::lemma_split_free(users, ',');
    assert forall|i: int| 0 <= i < g.users.len() implies crate::text::is_field(
        #[trigger] g.users[i],
    ) by {
        crate::text::lemma_split_holds(users, ',', i, ';');
        crate::text::lemma_split_holds(users, ',', i, '\n');
    }
}

} // verus!
