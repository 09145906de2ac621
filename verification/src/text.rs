//! Text as SSH uses it: comma-separated name lists, trimming, substring search.

use vstd::prelude::*;
use vstd::string::{StrSliceExecFns, StringExecFns};

verus! {

/// The parts of `s` between the separators; one empty part for an empty text.
pub open spec fn split_on(s: Seq<char>, sep: char) -> Seq<Seq<char>>
    decreases s.len(),
{
    if s.len() == 0 {
        seq![Seq::<char>::empty()]
    } else {
        let parts = split_on(s.drop_last(), sep);
        if s.last() == sep {
            parts.push(Seq::<char>::empty())
        } else {
            parts.drop_last().push(parts.last().push(s.last()))
        }
    }
}

/// The parts one after the other with a separator between each two.
pub open spec fn join_with(parts: Seq<Seq<char>>, sep: char) -> Seq<char>
    decreases parts.len(),
{
    if parts.len() == 0 {
        Seq::<char>::empty()
    } else if parts.len() == 1 {
        parts[0]
    } else {
        join_with(parts.drop_last(), sep).push(sep) + parts.last()
    }
}

/// The texts that a vector of string slices holds.
pub open spec fn texts(parts: Seq<&str>) -> Seq<Seq<char>> {
    parts.map_values(|part: &str| part@)
}

/// Whether `part` occurs somewhere in `s`.
pub open spec fn occurs_in(part: Seq<char>, s: Seq<char>) -> bool {
    exists|i: int|
        0 <= i && i + part.len() <= s.len() && #[trigger] s.subrange(i, i + part.len()) == part
}

/// Whether a character has the Unicode property White_Space.
pub open spec fn is_white_space(c: char) -> bool {
    let u = c as u32;
    ||| 0x9 <= u <= 0xd
    ||| u == 0x20
    ||| u == 0x85
    ||| u == 0xa0
    ||| u == 0x1680
    ||| 0x2000 <= u <= 0x200a
    ||| 0x2028 <= u <= 0x2029
    ||| u == 0x202f
    ||| u == 0x205f
    ||| u == 0x3000
}

/// `s` without white space at its start.
pub open spec fn trim_start(s: Seq<char>) -> Seq<char>
    decreases s.len(),
{
    if s.len() > 0 && is_white_space(s[0]) {
        trim_start(s.drop_first())
    } else {
        s
    }
}

/// `s` without white space at its end.
pub open spec fn trim_end(s: Seq<char>) -> Seq<char>
    decreases s.len(),
{
    if s.len() > 0 && is_white_space(s.last()) {
        trim_end(s.drop_last())
    } else {
        s
    }
}

/// `s` without white space at either end.
pub open spec fn trimmed(s: Seq<char>) -> Seq<char> {
    trim_end(trim_start(s))
}

/// The characters of a text.
pub fn chars_of(s: &str) -> (chars: Vec<char>)
    ensures
        chars@ == s@,
{
    let mut chars: Vec<char> = Vec::new();
    for c in it: s.chars()
        invariant
            it.seq() == s@,
            chars@ == s@.take(it.index() as int),
    {
        chars.push(c);
        assert(chars@ =~= s@.take(it.index() + 1));
    }
    assert(s@.take(s@.len() as int) =~= s@);
    chars
}

/// Whether two texts are the same.
pub fn same_text(a: &str, b: &str) -> (same: bool)
    ensures
        same == (a@ == b@),
{
    proof {
        vstd::utf8::encode_utf8_decode_utf8(a@);
        vstd::utf8::encode_utf8_decode_utf8(b@);
    }
    crate::wire::same_bytes(a.as_bytes(), b.as_bytes())
}

/// Whether a text is empty.
pub fn is_empty(s: &str) -> (empty: bool)
    ensures
        empty == (s@.len() == 0),
{
    chars_of(s).len() == 0
}

/// Splits a text at every separator.
pub fn split<'a>(s: &'a str, sep: char) -> (parts: Vec<&'a str>)
    ensures
        texts(parts@) == split_on(s@, sep),
{
    let chars = chars_of(s);
    let mut parts: Vec<&'a str> = Vec::new();
    let mut start: usize = 0;
    let mut i: usize = 0;
    assert(s@.take(0) =~= Seq::<char>::empty());
    while i < chars.len()
        invariant
            chars@ == s@,
            start <= i <= s@.len(),
            split_on(s@.take(i as int), sep) == texts(parts@).push(
                s@.subrange(start as int, i as int),
            ),
        decreases chars@.len() - i,
    {
        let ghost before = s@.take(i as int);
        assert(s@.take(i + 1).drop_last() =~= before);
        if chars[i] == sep {
            let ghost old_parts = parts@;
            parts.push(s.substring_char(start, i));
            start = i + 1;
            assert(texts(parts@) =~= texts(old_parts).push(parts@.last()@));
            assert(s@.subrange(start as int, i + 1) =~= Seq::<char>::empty());
        } else {
            assert(s@.subrange(start as int, i + 1) =~= s@.subrange(start as int, i as int).push(
                s@[i as int],
            ));
            let ghost all = texts(parts@).push(s@.subrange(start as int, i as int));
            assert(all.drop_last() =~= texts(parts@));
        }
        i = i + 1;
    }
    let ghost old_parts = parts@;
    parts.push(s.substring_char(start, i));
    assert(texts(parts@) =~= texts(old_parts).push(parts@.last()@));
    assert(s@.take(i as int) =~= s@);
    parts
}

/// Joins names with a comma between each two.
pub fn join_names(names: &Vec<&str>) -> (list: String)
    ensures
        list@ == join_with(texts(names@), ','),
{
    proof {
        reveal_strlit(",");
        assert(","@ =~= seq![',']);
    }
    let mut list = String::new();
    let mut i: usize = 0;
    while i < names.len()
        invariant
            i <= names@.len(),
            list@ == join_with(texts(names@.take(i as int)), ','),
            ","@ == seq![','],
        decreases names@.len() - i,
    {
        let ghost done = texts(names@.take(i as int));
        let ghost more = texts(names@.take(i + 1));
        assert(more.drop_last() =~= done);
        assert(more.last() == names@[i as int]@);
        if i > 0 {
            list.append(",");
        }
        list.append(names[i]);
        assert(list@ =~= join_with(more, ','));
        i = i + 1;
    }
    assert(names@.take(i as int) =~= names@);
    list
}

/// Whether `part` occurs somewhere in `s`.
pub fn contains(s: &str, part: &str) -> (found: bool)
    ensures
        found == occurs_in(part@, s@),
{
    let chars = chars_of(s);
    let wanted = chars_of(part);
    if wanted.len() > chars.len() {
        return false;
    }
    let last: usize = chars.len() - wanted.len();
    let mut i: usize = 0;
    loop
        invariant
            chars@ == s@,
            wanted@ == part@,
            i <= last,
            last + part@.len() == s@.len(),
            s@.len() <= usize::MAX,
            forall|k: int| 0 <= k < i ==> #[trigger] s@.subrange(k, k + part@.len()) != part@,
        decreases last - i,
    {
        let mut j: usize = 0;
        while j < wanted.len() && chars[i + j] == wanted[j]
            invariant
                chars@ == s@,
                wanted@ == part@,
                i <= last,
                j <= part@.len(),
                last + part@.len() == s@.len(),
                s@.len() <= usize::MAX,
                forall|k: int| 0 <= k < j ==> s@[i + k] == part@[k],
            decreases part@.len() - j,
        {
            j = j + 1;
        }
        if j == wanted.len() {
            assert(s@.subrange(i as int, i + part@.len()) =~= part@);
            return true;
        }
        assert(s@.subrange(i as int, i + part@.len())[j as int] != part@[j as int]);
        if i == last {
            return false;
        }
        i = i + 1;
    }
}

/// Computes [`is_white_space`].
pub fn is_space(c: char) -> (space: bool)
    ensures
        space == is_white_space(c),
{
    let u: u32 = c as u32;
    (0x9 <= u && u <= 0xd) || u == 0x20 || u == 0x85 || u == 0xa0 || u == 0x1680 || (0x2000 <= u
        && u <= 0x200a) || (0x2028 <= u && u <= 0x2029) || u == 0x202f || u == 0x205f || u == 0x3000
}

/// Takes the white space off both ends of a text.
pub fn trim<'a>(s: &'a str) -> (inner: &'a str)
    ensures
        inner@ == trimmed(s@),
{
    let chars = chars_of(s);
    let mut start: usize = 0;
    assert(s@.skip(0) =~= s@);
    while start < chars.len() && is_space(chars[start])
        invariant
            chars@ == s@,
            start <= s@.len(),
            trim_start(s@) == trim_start(s@.skip(start as int)),
        decreases s@.len() - start,
    {
        assert(s@.skip(start as int).drop_first() =~= s@.skip(start + 1));
        start = start + 1;
    }
    let mut end: usize = chars.len();
    assert(s@.skip(start as int) =~= s@.subrange(start as int, end as int));
    while start < end && is_space(chars[end - 1])
        invariant
            chars@ == s@,
            start <= end <= s@.len(),
            trimmed(s@) == trim_end(s@.subrange(start as int, end as int)),
        decreases end,
    {
        assert(s@.subrange(start as int, end as int).drop_last() =~= s@.subrange(
            start as int,
            end - 1,
        ));
        end = end - 1;
    }
    s.substring_char(start, end)
}

/// A split text has at least one part.
pub proof fn lemma_split_not_empty(s: Seq<char>, sep: char)
    ensures
        split_on(s, sep).len() >= 1,
    decreases s.len(),
{
    if s.len() > 0 {
        lemma_split_not_empty(s.drop_last(), sep);
    }
}

/// Joining the parts of a text gives the text back.
pub proof fn law_join_gives_back_split(s: Seq<char>, sep: char)
    ensures
        join_with(split_on(s, sep), sep) == s,
    decreases s.len(),
{
    if s.len() > 0 {
        let rest = s.drop_last();
        let parts = split_on(rest, sep);
        law_join_gives_back_split(rest, sep);
        lemma_split_not_empty(rest, sep);
        let all = split_on(s, sep);
        assert(s =~= rest.push(s.last()));
        if s.last() == sep {
            assert(all.drop_last() =~= parts);
            assert(join_with(all, sep) =~= s);
        } else {
            assert(all.drop_last() =~= parts.drop_last());
            assert(join_with(all, sep) =~= s);
        }
    } else {
        assert(s =~= Seq::<char>::empty());
    }
}

/// No part of a split text holds the separator.
pub proof fn law_parts_hold_no_separator(s: Seq<char>, sep: char)
    ensures
        forall|i: int| 0 <= i < split_on(s, sep).len() ==> !(#[trigger] split_on(s, sep)[i]).contains(sep),
    decreases s.len(),
{
    if s.len() > 0 {
        let parts = split_on(s.drop_last(), sep);
        let all = split_on(s, sep);
        law_parts_hold_no_separator(s.drop_last(), sep);
        lemma_split_not_empty(s.drop_last(), sep);
        assert forall|i: int| 0 <= i < all.len() implies !(#[trigger] all[i]).contains(sep) by {
            if i < all.len() - 1 {
                assert(all[i] == parts[i]);
            } else if s.last() != sep {
                assert(!parts.last().contains(sep));
                let grown = parts.last().push(s.last());
                assert forall|k: int| 0 <= k < grown.len() implies grown[k] != sep by {
                    if k < parts.last().len() {
                        assert(parts.last()[k] != sep);
                    }
                }
            }
        }
    }
}

proof fn lemma_split_append(s: Seq<char>, name: Seq<char>, sep: char)
    requires
        !name.contains(sep),
    ensures
        split_on(s + name, sep) == split_on(s, sep).drop_last().push(split_on(s, sep).last() + name),
    decreases name.len(),
{
    lemma_split_not_empty(s, sep);
    if name.len() == 0 {
        assert(s + name =~= s);
        assert(split_on(s, sep).last() + name =~= split_on(s, sep).last());
        assert(split_on(s, sep) =~= split_on(s, sep).drop_last().push(split_on(s, sep).last()));
    } else {
        let shorter = name.drop_last();
        assert forall|k: int| 0 <= k < shorter.len() implies shorter[k] != sep by {
            assert(name[k] != sep);
        }
        lemma_split_append(s, shorter, sep);
        assert((s + name).drop_last() =~= s + shorter);
        assert(name.last() != sep);
        let parts = split_on(s + shorter, sep);
        assert(parts.drop_last() =~= split_on(s, sep).drop_last());
        assert(parts.last().push(name.last()) =~= split_on(s, sep).last() + name);
    }
}

/// Splitting a list of names that was joined gives the names back; only the
/// empty list of names comes back as one empty name.
pub proof fn law_split_gives_back_join(names: Seq<Seq<char>>, sep: char)
    requires
        names.len() > 0,
        forall|i: int| 0 <= i < names.len() ==> !(#[trigger] names[i]).contains(sep),
    ensures
        split_on(join_with(names, sep), sep) == names,
    decreases names.len(),
{
    let last = names.last();
    if names.len() == 1 {
        lemma_split_append(Seq::<char>::empty(), last, sep);
        assert(Seq::<char>::empty() + last =~= last);
        assert(split_on(last, sep) =~= names);
    } else {
        let front = names.drop_last();
        assert forall|i: int| 0 <= i < front.len() implies !(#[trigger] front[i]).contains(sep) by {
            assert(front[i] == names[i]);
        }
        law_split_gives_back_join(front, sep);
        let head = join_with(front, sep).push(sep);
        assert(head.drop_last() =~= join_with(front, sep));
        assert(split_on(head, sep) =~= front.push(Seq::<char>::empty()));
        lemma_split_append(head, last, sep);
        assert(front.push(Seq::<char>::empty()).drop_last() =~= front);
        assert(Seq::<char>::empty() + last =~= last);
        assert(split_on(join_with(names, sep), sep) =~= names);
    }
}

/// Two texts with a separator between them have the parts of the first, then
/// those of the second.
pub proof fn law_parts_of_two(s: Seq<char>, t: Seq<char>, sep: char)
    ensures
        split_on(s.push(sep) + t, sep) == split_on(s, sep) + split_on(t, sep),
    decreases t.len(),
{
    lemma_split_not_empty(s, sep);
    if t.len() == 0 {
        assert(s.push(sep) + t =~= s.push(sep));
        assert(s.push(sep).drop_last() =~= s);
        assert(split_on(s, sep) + split_on(t, sep) =~= split_on(s, sep).push(
            Seq::<char>::empty(),
        ));
    } else {
        let shorter = t.drop_last();
        law_parts_of_two(s, shorter, sep);
        lemma_split_not_empty(shorter, sep);
        let all = s.push(sep) + t;
        let (front, parts) = (split_on(s, sep), split_on(shorter, sep));
        assert(all.drop_last() =~= s.push(sep) + shorter);
        if t.last() == sep {
            assert((front + parts).push(Seq::<char>::empty()) =~= front + parts.push(
                Seq::<char>::empty(),
            ));
        } else {
            let grown = parts.last().push(t.last());
            assert((front + parts).drop_last().push(grown) =~= front + parts.drop_last().push(
                grown,
            ));
        }
    }
}

} // verus!
