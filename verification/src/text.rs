//! The text of the account files: separated fields, lines and numbers.

use vstd::prelude::*;

verus! {

/// [`String::push`] appends the given character to the end of the string.
pub assume_specification[ String::push ](s: &mut String, c: char)
    ensures
        final(s)@ == old(s)@.push(c),
;

/// The characters of each of the given strings.
pub open spec fn strings(list: Seq<String>) -> Seq<Seq<char>> {
    list.map_values(|s: String| s@)
}

/// The pieces of `s` between the occurrences of `sep`.
pub open spec fn split<T>(s: Seq<T>, sep: T) -> Seq<Seq<T>>
    decreases s.len(),
{
    if s.len() == 0 {
        seq![Seq::<T>::empty()]
    } else {
        let head = split(s.drop_last(), sep);
        if s.last() == sep {
            head.push(Seq::empty())
        } else {
            head.drop_last().push(head.last().push(s.last()))
        }
    }
}

/// The given pieces, with `sep` between each two neighbours.
pub open spec fn join<T>(pieces: Seq<Seq<T>>, sep: T) -> Seq<T>
    decreases pieces.len(),
{
    if pieces.len() == 0 {
        Seq::empty()
    } else if pieces.len() == 1 {
        pieces[0]
    } else {
        join(pieces.drop_last(), sep).push(sep) + pieces.last()
    }
}

/// No piece holds the separator.
pub open spec fn free_of<T>(pieces: Seq<Seq<T>>, sep: T) -> bool {
    forall|i: int| 0 <= i < pieces.len() ==> !(#[trigger] pieces[i]).contains(sep)
}

/// `s` can stand between the semicolons of an entry.
pub open spec fn is_field(s: Seq<char>) -> bool {
    !s.contains(';') && !s.contains('\n')
}

/// Splits `s` at each `sep`.
pub fn split_str(s: &str, sep: char) -> (pieces: Vec<String>)
    ensures
        strings(pieces@) == split(s@, sep),
{
    let mut done: Vec<String> = Vec::new();
    let mut cur: String = String::new();
    for c in it: s.chars()
        invariant
            it.seq() == s@,
            strings(done@).push(cur@) == split(s@.take(it.index()), sep),
    {
        proof {
            assert(s@.take(it.index() + 1).drop_last() == s@.take(it.index()));
        }
        if c == sep {
            done.push(cur);
            cur = String::new();
        } else {
            cur.push(c);
        }
    }
    done.push(cur);
    proof {
        assert(s@.take(s@.len() as int) == s@);
    }
    done
}

/// `s` without a carriage return at its end.
pub open spec fn strip_cr(s: Seq<char>) -> Seq<char> {
    if s.len() > 0 && s.last() == '\r' {
        s.drop_last()
    } else {
        s
    }
}

/// The lines of `s`. A line ends with a line feed or with a carriage return and
/// a line feed; what follows the last line feed is a line if it is not empty.
pub open spec fn lines(s: Seq<char>) -> Seq<Seq<char>> {
    let pieces = split(s, '\n');
    let ended = pieces.drop_last().map_values(|l: Seq<char>| strip_cr(l));
    if pieces.last().len() == 0 {
        ended
    } else {
        ended.push(pieces.last())
    }
}

/// Removes one carriage return from the end of `s`, if there is one.
fn without_cr(s: &str) -> (res: String)
    ensures
        res@ == strip_cr(s@),
{
    let n: usize = s.unicode_len();
    if n > 0 && s.get_char(n - 1) == '\r' {
        s.substring_char(0, n - 1).to_owned()
    } else {
        s.to_owned()
    }
}

/// The lines of `s`.
pub fn split_lines(s: &str) -> (res: Vec<String>)
    ensures
        strings(res@) == lines(s@),
{
    let pieces: Vec<String> = split_str(s, '\n');
    proof {
        lemma_split_len(s@, '\n');
        assert(pieces@.len() == split(s@, '\n').len());
    }
    let ghost parts = split(s@, '\n');
    let ghost ended = parts.drop_last().map_values(|l: Seq<char>| strip_cr(l));
    let last: usize = pieces.len() - 1;
    let mut res: Vec<String> = Vec::new();
    for i in 0..last
        invariant
            last + 1 == pieces@.len(),
            strings(pieces@) == parts,
            ended == parts.drop_last().map_values(|l: Seq<char>| strip_cr(l)),
            strings(res@) == ended.take(i as int),
    {
        let line: String = without_cr(pieces[i].as_str());
        proof {
            assert(pieces@[i as int]@ == strings(pieces@)[i as int]);
            assert(ended.take(i + 1) == ended.take(i as int).push(ended[i as int]));
        }
        let ghost before = res@;
        res.push(line);
        proof {
            assert(strings(res@) == strings(before).push(line@));
        }
    }
    proof {
        assert(ended.take(last as int) == ended);
        assert(pieces@[last as int]@ == strings(pieces@)[last as int]);
    }
    if !pieces[last].as_str().is_empty() {
        let ghost before = res@;
        let line: String = pieces[last].clone();
        res.push(line);
        proof {
            assert(strings(res@) == strings(before).push(line@));
        }
    }
    res
}

/// Splitting gives at least one piece, and at most one more than there are characters.
pub proof fn lemma_split_len<T>(s: Seq<T>, sep: T)
    ensures
        1 <= split(s, sep).len() <= s.len() + 1,
    decreases s.len(),
{
    if s.len() > 0 {
        lemma_split_len(s.drop_last(), sep);
    }
}

/// `s` without the occurrences of `c` at its start.
pub open spec fn trim_start(s: Seq<char>, c: char) -> Seq<char>
    decreases s.len(),
{
    if s.len() > 0 && s[0] == c {
        trim_start(s.drop_first(), c)
    } else {
        s
    }
}

/// `s` without the occurrences of `c` at its end.
pub open spec fn trim_end(s: Seq<char>, c: char) -> Seq<char>
    decreases s.len(),
{
    if s.len() > 0 && s.last() == c {
        trim_end(s.drop_last(), c)
    } else {
        s
    }
}

/// `s` without the occurrences of `c` at its start and at its end.
pub open spec fn trim(s: Seq<char>, c: char) -> Seq<char> {
    trim_end(trim_start(s, c), c)
}

/// Removes the occurrences of `c` at the start and at the end of `s`.
pub fn trim_str(s: &str, c: char) -> (res: String)
    ensures
        res@ == trim(s@, c),
        res@.len() > 0 ==> res@[0] != c && res@.last() != c,
        exists|i: int, j: int|
            {
                &&& 0 <= i <= j <= s@.len()
                &&& res@ == #[trigger] s@.subrange(i, j)
                &&& forall|k: int| 0 <= k < i || j <= k < s@.len() ==> s@[k] == c
            },
{
    let mut start: usize = 0;
    let mut end: usize = s.unicode_len();
    proof {
        assert(s@.skip(0) == s@);
    }
    while start < end && s.get_char(start) == c
        invariant
            start <= end == s@.len(),
            trim_start(s@, c) == trim_start(s@.skip(start as int), c),
        decreases end - start,
    {
        proof {
            assert(s@.skip(start as int).drop_first() == s@.skip(start + 1));
        }
        start = start + 1;
    }
    proof {
        assert(s@.skip(start as int) == s@.subrange(start as int, end as int));
    }
    while start < end && s.get_char(end - 1) == c
        invariant
            start <= end <= s@.len(),
            trim(s@, c) == trim_end(s@.subrange(start as int, end as int), c),
        decreases end - start,
    {
        proof {
            assert(s@.subrange(start as int, end as int).drop_last() == s@.subrange(
                start as int,
                end - 1,
            ));
        }
        end = end - 1;
    }
    proof {
        law_trim(s@, c);
    }
    s.substring_char(start, end).to_owned()
}

/// Joins the given strings, with `sep` between each two neighbours.
pub fn join_strs(list: &Vec<String>, sep: char) -> (res: String)
    ensures
        res@ == join(strings(list@), sep),
{
    let mut res: String = String::new();
    for i in 0..list.len()
        invariant
            res@ == join(strings(list@).take(i as int), sep),
    {
        let ghost pieces = strings(list@);
        proof {
            assert(pieces.take(i + 1).drop_last() == pieces.take(i as int));
            assert(pieces.take(i + 1).last() == list@[i as int]@);
        }
        if i > 0 {
            res.push(sep);
        }
        res.append(list[i].as_str());
    }
    proof {
        assert(strings(list@).take(list@.len() as int) == strings(list@));
    }
    res
}

/// The given lines, each ended with a line feed.
pub open spec fn unlines(list: Seq<Seq<char>>) -> Seq<char>
    decreases list.len(),
{
    if list.len() == 0 {
        Seq::empty()
    } else {
        unlines(list.drop_last()) + list.last().push('\n')
    }
}

/// No piece of a split holds the separator.
pub proof fn lemma_split_free<T>(s: Seq<T>, sep: T)
    ensures
        free_of(split(s, sep), sep),
    decreases s.len(),
{
    if s.len() > 0 {
        let head = split(s.drop_last(), sep);
        lemma_split_free(s.drop_last(), sep);
        lemma_split_len(s.drop_last(), sep);
        assert forall|i: int| 0 <= i < split(s, sep).len() implies !(#[trigger] split(
            s,
            sep,
        )[i]).contains(sep) by {
            let p = split(s, sep)[i];
            if i < head.len() {
                assert(!head[i].contains(sep));
            }
            if p.contains(sep) {
                let k = choose|k: int| 0 <= k < p.len() && p[k] == sep;
                if s.last() != sep && i == head.len() - 1 {
                    assert(p == head[i].push(s.last()));
                    assert(head[i][k] == sep);
                }
            }
        }
    }
}

/// Joining the pieces of a split gives the text back.
pub proof fn law_join_of_split<T>(s: Seq<T>, sep: T)
    ensures
        join(split(s, sep), sep) == s,
    decreases s.len(),
{
    if s.len() > 0 {
        let front = s.drop_last();
        let head = split(front, sep);
        law_join_of_split(front, sep);
        lemma_split_len(front, sep);
        assert(front.push(s.last()) == s);
        if s.last() == sep {
            assert(split(s, sep).drop_last() == head);
            assert(join(split(s, sep), sep) == front.push(sep));
        } else {
            let last = head.last().push(s.last());
            assert(split(s, sep).drop_last() == head.drop_last());
            assert(split(s, sep).last() == last);
            assert(join(split(s, sep), sep) == join(head, sep).push(s.last()));
        }
    }
}

/// A text without the separator extends the last piece.
proof fn lemma_split_extend<T>(a: Seq<T>, b: Seq<T>, sep: T)
    requires
        !b.contains(sep),
    ensures
        split(a + b, sep) == split(a, sep).drop_last().push(split(a, sep).last() + b),
    decreases b.len(),
{
    lemma_split_len(a, sep);
    if b.len() == 0 {
        assert(a + b == a);
        assert(split(a, sep).last() + b == split(a, sep).last());
    } else {
        let front = b.drop_last();
        assert forall|k: int| 0 <= k < front.len() implies front[k] != sep by {
            assert(b[k] != sep);
        }
        lemma_split_extend(a, front, sep);
        assert((a + b).drop_last() == a + front);
        assert(b.last() != sep);
        assert((split(a, sep).last() + front).push(b.last()) == split(a, sep).last() + b);
        assert(split(a + b, sep) == split(a, sep).drop_last().push(split(a, sep).last() + b));
    }
}

/// A separator starts a new piece.
proof fn lemma_split_sep<T>(a: Seq<T>, b: Seq<T>, sep: T)
    requires
        !b.contains(sep),
    ensures
        split(a.push(sep) + b, sep) == split(a, sep).push(b),
{
    assert(a.push(sep).drop_last() == a);
    lemma_split_extend(a.push(sep), b, sep);
    assert(split(a.push(sep), sep) == split(a, sep).push(Seq::empty()));
    assert(Seq::<T>::empty() + b == b);
    assert(split(a, sep).push(Seq::empty()).drop_last() == split(a, sep));
}

/// Splitting joined pieces gives the pieces back, if none holds the separator
/// and there is at least one.
pub proof fn law_split_of_join<T>(pieces: Seq<Seq<T>>, sep: T)
    requires
        pieces.len() >= 1,
        free_of(pieces, sep),
    ensures
        split(join(pieces, sep), sep) == pieces,
    decreases pieces.len(),
{
    if pieces.len() == 1 {
        lemma_split_extend(Seq::empty(), pieces[0], sep);
        assert(Seq::<T>::empty() + pieces[0] == pieces[0]);
        assert(split(pieces[0], sep) == pieces);
    } else {
        let front = pieces.drop_last();
        assert forall|i: int| 0 <= i < front.len() implies !(#[trigger] front[i]).contains(
            sep,
        ) by {
            assert(front[i] == pieces[i]);
        }
        law_split_of_join(front, sep);
        lemma_split_sep(join(front, sep), pieces.last(), sep);
        assert(front.push(pieces.last()) == pieces);
    }
}

/// A list of lines splits at the line feeds into the lines and an empty rest.
proof fn lemma_split_unlines(list: Seq<Seq<char>>)
    requires
        free_of(list, '\n'),
    ensures
        split(unlines(list), '\n') == list.push(Seq::empty()),
    decreases list.len(),
{
    if list.len() > 0 {
        let front = list.drop_last();
        let last = list.last();
        assert forall|i: int| 0 <= i < front.len() implies !(#[trigger] front[i]).contains(
            '\n',
        ) by {
            assert(front[i] == list[i]);
        }
        lemma_split_unlines(front);
        let head = unlines(front);
        lemma_split_extend(head, last, '\n');
        assert(Seq::<char>::empty() + last == last);
        assert(split(head, '\n').drop_last() == front);
        assert(front.push(last) == list);
        assert(unlines(list) == (head + last).push('\n'));
        assert((head + last).push('\n').drop_last() == head + last);
    } else {
        assert(unlines(list) == Seq::<char>::empty());
        assert(list.push(Seq::empty()) == seq![Seq::<char>::empty()]);
    }
}

/// Lines that are written out are read back, if none holds a line feed and none
/// ends with a carriage return.
pub proof fn law_lines_of_unlines(list: Seq<Seq<char>>)
    requires
        free_of(list, '\n'),
        forall|i: int| 0 <= i < list.len() ==> strip_cr(#[trigger] list[i]) == list[i],
    ensures
        lines(unlines(list)) == list,
{
    lemma_split_unlines(list);
    assert(list.push(Seq::<char>::empty()).drop_last() == list);
    assert(list.map_values(|l: Seq<char>| strip_cr(l)) == list);
}

/// Joined pieces hold only what a piece holds, and the separator.
pub proof fn lemma_join_free<T>(pieces: Seq<Seq<T>>, sep: T, c: T)
    requires
        free_of(pieces, c),
        c != sep,
    ensures
        !join(pieces, sep).contains(c),
    decreases pieces.len(),
{
    if pieces.len() == 1 {
        assert(!pieces[0].contains(c));
    } else if pieces.len() > 1 {
        let front = pieces.drop_last();
        assert forall|i: int| 0 <= i < front.len() implies !(#[trigger] front[i]).contains(c) by {
            assert(front[i] == pieces[i]);
        }
        lemma_join_free(front, sep, c);
        let head = join(front, sep);
        let all = head.push(sep) + pieces.last();
        assert(!pieces[pieces.len() - 1].contains(c));
        assert forall|k: int| 0 <= k < all.len() implies all[k] != c by {
            if k < head.len() {
                assert(head.contains(head[k]));
            } else if k > head.len() {
                assert(all[k] == pieces.last()[k - head.len() - 1]);
                assert(pieces.last().contains(all[k]));
            }
        }
    }
}

/// Joined pieces hold what a piece holds.
pub proof fn lemma_join_holds<T>(pieces: Seq<Seq<T>>, sep: T, i: int, c: T)
    requires
        0 <= i < pieces.len(),
        pieces[i].contains(c),
    ensures
        join(pieces, sep).contains(c),
    decreases pieces.len(),
{
    if pieces.len() > 1 {
        let front = pieces.drop_last();
        let head = join(front, sep);
        let all = head.push(sep) + pieces.last();
        if i < front.len() {
            lemma_join_holds(front, sep, i, c);
            let k = choose|k: int| 0 <= k < head.len() && head[k] == c;
            assert(all[k] == c);
        } else {
            let k = choose|k: int| 0 <= k < pieces[i].len() && pieces[i][k] == c;
            assert(all[head.len() + 1 + k] == c);
        }
    }
}

/// A piece of a split holds only what the text holds.
pub proof fn lemma_split_holds<T>(s: Seq<T>, sep: T, i: int, c: T)
    requires
        0 <= i < split(s, sep).len(),
        !s.contains(c),
    ensures
        !split(s, sep)[i].contains(c),
{
    law_join_of_split(s, sep);
    if split(s, sep)[i].contains(c) {
        lemma_join_holds(split(s, sep), sep, i, c);
    }
}

/// Joined pieces end as the last piece does.
pub proof fn lemma_join_last<T>(pieces: Seq<Seq<T>>, sep: T)
    requires
        pieces.len() >= 1,
        pieces.last().len() > 0,
    ensures
        join(pieces, sep).len() > 0,
        join(pieces, sep).last() == pieces.last().last(),
{
    if pieces.len() > 1 {
        let head = join(pieces.drop_last(), sep).push(sep);
        assert((head + pieces.last()).last() == pieces.last().last());
    }
}

/// Joined pieces start as the first piece does.
pub proof fn lemma_join_first<T>(pieces: Seq<Seq<T>>, sep: T)
    requires
        pieces.len() >= 1,
        pieces[0].len() > 0,
    ensures
        join(pieces, sep).len() > 0,
        join(pieces, sep)[0] == pieces[0][0],
    decreases pieces.len(),
{
    if pieces.len() > 1 {
        lemma_join_first(pieces.drop_last(), sep);
    }
}

/// Two or more pieces, the last of which does not end with a carriage return, do not
/// end with one when they are joined.
pub proof fn lemma_join_strip_cr(pieces: Seq<Seq<char>>, sep: char)
    requires
        pieces.len() >= 2,
        sep != '\r',
        strip_cr(pieces.last()) == pieces.last(),
    ensures
        strip_cr(join(pieces, sep)) == join(pieces, sep),
{
    let last = pieces.last();
    if last.len() > 0 {
        lemma_join_last(pieces, sep);
        assert(last.last() != '\r') by {
            if last.last() == '\r' {
                assert(strip_cr(last).len() < last.len());
            }
        }
    } else {
        let head = join(pieces.drop_last(), sep).push(sep);
        assert(head + last == head);
    }
}

/// No line holds a line feed.
pub proof fn lemma_lines_free(s: Seq<char>)
    ensures
        free_of(lines(s), '\n'),
{
    let pieces = split(s, '\n');
    lemma_split_len(s, '\n');
    lemma_split_free(s, '\n');
    assert forall|i: int| 0 <= i < lines(s).len() implies !(#[trigger] lines(s)[i]).contains(
        '\n',
    ) by {
        let piece = pieces[i];
        let line = lines(s)[i];
        assert(!piece.contains('\n'));
        if line.contains('\n') {
            let k = choose|k: int| 0 <= k < line.len() && line[k] == '\n';
            assert(line == strip_cr(piece) || line == piece);
            assert(piece[k] == '\n');
        }
    }
}

/// Text in front of a separator and text behind it are split on their own.
proof fn lemma_split_at<T>(a: Seq<T>, b: Seq<T>, sep: T)
    ensures
        split(a + seq![sep] + b, sep) == split(a, sep) + split(b, sep),
    decreases b.len(),
{
    let all = a + seq![sep] + b;
    lemma_split_len(b, sep);
    if b.len() == 0 {
        assert(all.drop_last() == a);
        assert(split(all, sep) == split(a, sep).push(Seq::empty()));
    } else {
        let front = b.drop_last();
        lemma_split_at(a, front, sep);
        lemma_split_len(front, sep);
        assert(all.drop_last() == a + seq![sep] + front);
        assert(all.last() == b.last());
        assert((split(a, sep) + split(front, sep)).drop_last() == split(a, sep) + split(
            front,
            sep,
        ).drop_last());
    }
}

/// A text without the separator is its own only piece. Otherwise what stands in front of
/// the first separator is the first piece, and the others are those of what follows it.
pub proof fn law_first_piece<T>(a: Seq<T>, b: Seq<T>, sep: T)
    requires
        !a.contains(sep),
    ensures
        split(a, sep) == seq![a],
        split(a + seq![sep] + b, sep) == seq![a] + split(b, sep),
{
    lemma_split_extend(Seq::empty(), a, sep);
    assert(Seq::<T>::empty() + a == a);
    assert(split(Seq::<T>::empty(), sep).drop_last().push(a) == seq![a]);
    lemma_split_at(a, b, sep);
}

/// What stands in front of the first separator is the first piece, whatever follows.
pub proof fn lemma_piece_in_front<T>(a: Seq<T>, rest: Seq<T>, sep: T)
    requires
        !a.contains(sep),
        rest.len() > 0 ==> rest[0] == sep,
    ensures
        split(a + rest, sep).len() >= 1,
        split(a + rest, sep)[0] == a,
{
    if rest.len() == 0 {
        assert(a + rest == a);
        law_first_piece(a, rest, sep);
    } else {
        let more = rest.drop_first();
        assert(a + rest == a + seq![sep] + more);
        law_first_piece(a, more, sep);
    }
}

/// There is one piece more than there are separators.
pub proof fn law_count_of_pieces<T>(s: Seq<T>, sep: T)
    ensures
        split(s, sep).len() == s.to_multiset().count(sep) + 1,
    decreases s.len(),
{
    s.to_multiset_ensures();
    if s.len() > 0 {
        s.drop_last().to_multiset_ensures();
        assert(s == s.drop_last().push(s.last()));
        law_count_of_pieces(s.drop_last(), sep);
        lemma_split_len(s.drop_last(), sep);
    }
}

/// Nothing joined is nothing, and one piece joined is that piece. Of more, the first
/// comes first, then the separator, then the others joined.
pub proof fn law_first_joined<T>(piece: Seq<T>, rest: Seq<Seq<T>>, sep: T)
    ensures
        join(Seq::<Seq<T>>::empty(), sep) == Seq::<T>::empty(),
        join(seq![piece], sep) == piece,
        rest.len() > 0 ==> join(seq![piece] + rest, sep) == piece + seq![sep] + join(rest, sep),
    decreases rest.len(),
{
    let all = seq![piece] + rest;
    if rest.len() > 0 {
        let front = rest.drop_last();
        law_first_joined(piece, front, sep);
        assert(all.drop_last() == seq![piece] + front);
        assert(all.last() == rest.last());
        if front.len() == 0 {
            assert(all.drop_last() == seq![piece]);
            assert(join(rest, sep) == rest.last());
            assert(piece.push(sep) + rest.last() == piece + seq![sep] + rest.last());
        } else {
            let tail = join(front, sep);
            assert((piece + seq![sep] + tail).push(sep) + rest.last() == piece + seq![sep] + (
            tail.push(sep) + rest.last()));
        }
    }
}

/// An empty text has no line, and one without a line feed is one line, as it is. A line
/// feed, or a carriage return and a line feed, ends a line and belongs to none.
pub proof fn law_first_line(line: Seq<char>, rest: Seq<char>)
    requires
        !line.contains('\n'),
    ensures
        lines(Seq::empty()) == Seq::<Seq<char>>::empty(),
        line.len() > 0 ==> lines(line) == seq![line],
        line.len() == 0 || line.last() != '\r' ==> lines(line + seq!['\n'] + rest) == seq![line]
            + lines(rest),
        lines(line + seq!['\r', '\n'] + rest) == seq![line] + lines(rest),
{
    law_first_piece(line, rest, '\n');
    law_first_piece(Seq::empty(), rest, '\n');
    lemma_split_len(rest, '\n');
    let pieces = split(rest, '\n');
    let strip = |l: Seq<char>| strip_cr(l);
    assert((seq![line] + pieces).drop_last() == seq![line] + pieces.drop_last());
    assert((seq![line] + pieces).drop_last().map_values(strip) == seq![strip_cr(line)]
        + pieces.drop_last().map_values(strip));
    let ended = line.push('\r');
    assert forall|k: int| 0 <= k < ended.len() implies ended[k] != '\n' by {
        if k < line.len() {
            assert(line.contains(line[k]));
        }
    }
    law_first_piece(ended, rest, '\n');
    assert(line + seq!['\r', '\n'] + rest == ended + seq!['\n'] + rest);
    assert((seq![ended] + pieces).drop_last() == seq![ended] + pieces.drop_last());
    assert((seq![ended] + pieces).drop_last().map_values(strip) == seq![strip_cr(ended)]
        + pieces.drop_last().map_values(strip));
    assert(strip_cr(ended) == line);
    assert(seq![line].drop_last().map_values(strip) == Seq::<Seq<char>>::empty());
    assert(split(Seq::<char>::empty(), '\n').drop_last().map_values(strip) == Seq::<
        Seq<char>,
    >::empty());
    assert(lines(line + seq!['\r', '\n'] + rest) == seq![line] + lines(rest));
    assert(line.len() > 0 ==> lines(line) == seq![line]);
}

/// No lines are written as the empty text. Of others the first comes first, then a line
/// feed, then the rest.
pub proof fn law_first_written_line(line: Seq<char>, rest: Seq<Seq<char>>)
    ensures
        unlines(Seq::empty()) == Seq::<char>::empty(),
        unlines(seq![line] + rest) == line + seq!['\n'] + unlines(rest),
    decreases rest.len(),
{
    let all = seq![line] + rest;
    if rest.len() == 0 {
        assert(all.drop_last() == Seq::<Seq<char>>::empty());
        assert(all.last() == line);
        assert(unlines(Seq::<Seq<char>>::empty()) == Seq::<char>::empty());
        assert(unlines(all) == Seq::<char>::empty() + line.push('\n'));
    } else {
        let front = rest.drop_last();
        law_first_written_line(line, front);
        assert(all.drop_last() == seq![line] + front);
        assert(all.last() == rest.last());
        let last = rest.last().push('\n');
        assert(line + seq!['\n'] + unlines(front) + last == line + seq!['\n'] + (unlines(front)
            + last));
    }
}

/// What trimming leaves neither starts nor ends with the character, and in front of it
/// and behind it the text holds nothing else.
pub proof fn law_trim(s: Seq<char>, c: char)
    ensures
        trim(s, c).len() > 0 ==> trim(s, c)[0] != c && trim(s, c).last() != c,
        exists|i: int, j: int|
            {
                &&& 0 <= i <= j <= s.len()
                &&& trim(s, c) == #[trigger] s.subrange(i, j)
                &&& forall|k: int| 0 <= k < i || j <= k < s.len() ==> s[k] == c
            },
{
    lemma_trim_start(s, c);
    let i = choose|i: int|
        {
            &&& 0 <= i <= s.len()
            &&& trim_start(s, c) == #[trigger] s.subrange(i, s.len() as int)
            &&& forall|k: int| 0 <= k < i ==> s[k] == c
        };
    let t = s.subrange(i, s.len() as int);
    lemma_trim_end(t, c);
    let n = choose|n: int|
        {
            &&& 0 <= n <= t.len()
            &&& trim_end(t, c) == #[trigger] t.subrange(0, n)
            &&& forall|k: int| n <= k < t.len() ==> t[k] == c
        };
    assert(t.subrange(0, n) == s.subrange(i, i + n));
    assert forall|k: int| i + n <= k < s.len() implies s[k] == c by {
        assert(t[k - i] == c);
    }
}

/// What trimming at the start leaves does not start with the character, and in front of
/// it the text holds nothing else.
proof fn lemma_trim_start(s: Seq<char>, c: char)
    ensures
        trim_start(s, c).len() > 0 ==> trim_start(s, c)[0] != c,
        exists|i: int|
            {
                &&& 0 <= i <= s.len()
                &&& trim_start(s, c) == #[trigger] s.subrange(i, s.len() as int)
                &&& forall|k: int| 0 <= k < i ==> s[k] == c
            },
    decreases s.len(),
{
    if s.len() > 0 && s[0] == c {
        let t = s.drop_first();
        lemma_trim_start(t, c);
        let i = choose|i: int|
            {
                &&& 0 <= i <= t.len()
                &&& trim_start(t, c) == #[trigger] t.subrange(i, t.len() as int)
                &&& forall|k: int| 0 <= k < i ==> t[k] == c
            };
        assert(t.subrange(i, t.len() as int) == s.subrange(i + 1, s.len() as int));
        assert forall|k: int| 0 <= k < i + 1 implies s[k] == c by {
            if k > 0 {
                assert(t[k - 1] == c);
            }
        }
    } else {
        assert(s.subrange(0, s.len() as int) == s);
    }
}

/// What trimming at the end leaves starts as the text does and does not end with the
/// character, and behind it the text holds nothing else.
proof fn lemma_trim_end(s: Seq<char>, c: char)
    ensures
        trim_end(s, c).len() > 0 ==> trim_end(s, c).last() != c,
        exists|n: int|
            {
                &&& 0 <= n <= s.len()
                &&& trim_end(s, c) == #[trigger] s.subrange(0, n)
                &&& forall|k: int| n <= k < s.len() ==> s[k] == c
            },
    decreases s.len(),
{
    if s.len() > 0 && s.last() == c {
        let t = s.drop_last();
        lemma_trim_end(t, c);
        let n = choose|n: int|
            {
                &&& 0 <= n <= t.len()
                &&& trim_end(t, c) == #[trigger] t.subrange(0, n)
                &&& forall|k: int| n <= k < t.len() ==> t[k] == c
            };
        assert(t.subrange(0, n) == s.subrange(0, n));
        assert forall|k: int| n <= k < s.len() implies s[k] == c by {
            if k < t.len() {
                assert(t[k] == c);
            }
        }
    } else {
        assert(s.subrange(0, s.len() as int) == s);
    }
}

/// The texts of a list are those of its strings, in the same order.
pub proof fn law_strings(list: Seq<String>)
    ensures
        strings(list).len() == list.len(),
        forall|i: int| 0 <= i < list.len() ==> #[trigger] strings(list)[i] == list[i]@,
{
}

/// Trimming leaves a text alone that neither starts nor ends with the character.
pub proof fn lemma_trim_nothing(s: Seq<char>, c: char)
    requires
        s.len() > 0 ==> s[0] != c && s.last() != c,
    ensures
        trim(s, c) == s,
{
}

} // verus!
