//! Name lists of algorithms: what the client offers and what both sides share.

use vstd::prelude::*;
use crate::text;
use crate::cipher;

verus! {

/// The ciphers that the client offers of its own accord, best first.
pub const DEFAULT_CIPHERS: &'static str =
    "chacha20-poly1305@openssh.com,aes256-gcm@openssh.com,aes128-gcm@openssh.com";

/// The names in a comma-separated list.
pub open spec fn names(list: Seq<char>) -> Seq<Seq<char>> {
    text::split_on(list, ',')
}

/// The first of `wanted` that is among `offered`, if there is one.
pub open spec fn first_common(wanted: Seq<Seq<char>>, offered: Seq<Seq<char>>) -> Option<Seq<char>>
    decreases wanted.len(),
{
    if wanted.len() == 0 {
        None
    } else if offered.contains(wanted[0]) {
        Some(wanted[0])
    } else {
        first_common(wanted.drop_first(), offered)
    }
}

/// The names of `all` that are not among `excluded`, in their order.
pub open spec fn without(all: Seq<Seq<char>>, excluded: Seq<Seq<char>>) -> Seq<Seq<char>> {
    all.filter(|name: Seq<char>| !excluded.contains(name))
}

/// The list that is left of `algs` when the names of a second list, if there is
/// one, are taken out.
pub open spec fn filtered(algs: Seq<char>, not_algs: Option<Seq<char>>) -> Seq<char> {
    match not_algs {
        Some(excluded) => text::join_with(without(names(algs), names(excluded)), ','),
        None => algs,
    }
}

/// The text of an optional string.
pub open spec fn option_text(s: Option<String>) -> Option<Seq<char>> {
    match s {
        Some(s) => Some(s@),
        None => None,
    }
}

/// Whether `name` is one of `list`.
fn is_listed(list: &Vec<&str>, name: &str) -> (listed: bool)
    ensures
        listed == text::texts(list@).contains(name@),
{
    let mut i: usize = 0;
    while i < list.len()
        invariant
            i <= list@.len(),
            forall|j: int| 0 <= j < i ==> list@[j]@ != name@,
        decreases list@.len() - i,
    {
        if text::same_text(list[i], name) {
            assert(text::texts(list@)[i as int] == name@);
            return true;
        }
        i = i + 1;
    }
    false
}

/// The first name of the client's list that is in the server's list too; an
/// empty text if there is none.
pub fn find_common_cipher(client_algs: String, server_algs: &str) -> (common: String)
    ensures
        common@ == (match first_common(names(client_algs@), names(server_algs@)) {
            Some(name) => name,
            None => Seq::<char>::empty(),
        }),
{
    let client_list = text::split(client_algs.as_str(), ',');
    let server_list = text::split(server_algs, ',');
    let ghost wanted = names(client_algs@);
    let ghost offered = names(server_algs@);
    let mut i: usize = 0;
    assert(wanted.skip(0) =~= wanted);
    while i < client_list.len()
        invariant
            i <= client_list@.len(),
            text::texts(client_list@) == wanted,
            text::texts(server_list@) == offered,
            wanted == names(client_algs@),
            offered == names(server_algs@),
            first_common(wanted, offered) == first_common(wanted.skip(i as int), offered),
        decreases client_list@.len() - i,
    {
        assert(wanted.skip(i as int)[0] == client_list@[i as int]@);
        if is_listed(&server_list, client_list[i]) {
            return client_list[i].to_owned();
        }
        assert(wanted.skip(i as int).drop_first() =~= wanted.skip(i + 1));
        i = i + 1;
    }
    String::new()
}

/// Takes the names in `not_algs`, if given, out of the list `algs`.
pub fn filter_algorithms(algs: &str, not_algs: &Option<String>) -> (list: String)
    ensures
        list@ == filtered(algs@, option_text(*not_algs)),
{
    let allowed = text::split(algs, ',');
    if let Some(excluded) = not_algs {
        let excluded_list = text::split(excluded.as_str(), ',');
        let ghost all = names(algs@);
        let ghost out = names(excluded@);
        let ghost stays = |name: Seq<char>| !out.contains(name);
        let mut kept: Vec<&str> = Vec::new();
        let mut i: usize = 0;
        assert(text::texts(kept@) =~= all.take(0).filter(stays)) by {
            reveal(Seq::filter);
        }
        while i < allowed.len()
            invariant
                i <= allowed@.len(),
                text::texts(allowed@) == all,
                text::texts(excluded_list@) == out,
                stays == (|name: Seq<char>| !out.contains(name)),
                text::texts(kept@) == all.take(i as int).filter(stays),
            decreases allowed@.len() - i,
        {
            let ghost before = kept@;
            assert(all.take(i + 1).drop_last() =~= all.take(i as int));
            assert(all.take(i + 1).last() == allowed@[i as int]@);
            reveal(Seq::filter);
            if !is_listed(&excluded_list, allowed[i]) {
                kept.push(allowed[i]);
                assert(text::texts(kept@) =~= text::texts(before).push(allowed@[i as int]@));
            }
            i = i + 1;
        }
        assert(all.take(i as int) =~= all);
        text::join_names(&kept)
    } else {
        algs.to_owned()
    }
}

/// The list of ciphers that the client offers: the one it was given, or else its
/// own without the excluded names.
pub open spec fn offer(algs: Option<Seq<char>>, not_algs: Option<Seq<char>>) -> Seq<char> {
    match algs {
        Some(list) => list,
        None => filtered(DEFAULT_CIPHERS@, not_algs),
    }
}

/// Computes [`offer`]. A list that was given is offered as it is; the exclusions
/// do not touch it.
pub fn offered_ciphers(algs: &Option<String>, not_algs: &Option<String>) -> (list: String)
    ensures
        list@ == offer(option_text(*algs), option_text(*not_algs)),
{
    match algs {
        Some(list) => list.as_str().to_owned(),
        None => filter_algorithms(DEFAULT_CIPHERS, not_algs),
    }
}

/// How many bytes of key material are derived for a cipher, by what its name
/// holds.
pub open spec fn key_len_of(name: Seq<char>) -> Option<nat> {
    if text::occurs_in("chacha20"@, name) {
        Some(64)
    } else if text::occurs_in("aes256"@, name) {
        Some(44)
    } else if text::occurs_in("aes128"@, name) {
        Some(28)
    } else {
        None
    }
}

/// Computes [`key_len_of`].
pub fn cipher_key_len(name: &str) -> (len: Option<usize>)
    ensures
        len is Some <==> key_len_of(name@) is Some,
        len matches Some(n) ==> key_len_of(name@) == Some(n as nat),
{
    if text::contains(name, "chacha20") {
        Some(64)
    } else if text::contains(name, "aes256") {
        Some(44)
    } else if text::contains(name, "aes128") {
        Some(28)
    } else {
        None
    }
}

/// The first common name stands in both lists, and no name before it in the
/// first list stands in the second; there is none only if the lists share no
/// name.
pub proof fn law_first_common_is_first(wanted: Seq<Seq<char>>, offered: Seq<Seq<char>>)
    ensures
        match first_common(wanted, offered) {
            Some(name) => {
                &&& offered.contains(name)
                &&& exists|i: int|
                    0 <= i < wanted.len() && #[trigger] wanted[i] == name && forall|j: int|
                        0 <= j < i ==> !offered.contains(#[trigger] wanted[j])
            },
            None => forall|j: int|
                0 <= j < wanted.len() ==> !offered.contains(#[trigger] wanted[j]),
        },
    decreases wanted.len(),
{
    if wanted.len() > 0 {
        if offered.contains(wanted[0]) {
            assert(wanted[0] == wanted[0]);
        } else {
            let rest = wanted.drop_first();
            law_first_common_is_first(rest, offered);
            match first_common(rest, offered) {
                Some(name) => {
                    let i = choose|i: int|
                        0 <= i < rest.len() && #[trigger] rest[i] == name && forall|j: int|
                            0 <= j < i ==> !offered.contains(#[trigger] rest[j]);
                    assert(wanted[i + 1] == name);
                    assert forall|j: int| 0 <= j < i + 1 implies !offered.contains(
                        #[trigger] wanted[j],
                    ) by {
                        if j > 0 {
                            assert(wanted[j] == rest[j - 1]);
                        }
                    }
                },
                None => {
                    assert forall|j: int| 0 <= j < wanted.len() implies !offered.contains(
                        #[trigger] wanted[j],
                    ) by {
                        if j > 0 {
                            assert(wanted[j] == rest[j - 1]);
                        }
                    }
                },
            }
        }
    }
}

/// Of a list, exclusion leaves the names that are not excluded, in their order,
/// and nothing else. (Where none is left, the list is the empty text.)
pub proof fn law_filtering_leaves_the_rest(algs: Seq<char>, excluded: Seq<char>)
    ensures
        ({
            let left = without(names(algs), names(excluded));
            let list = filtered(algs, Some(excluded));
            &&& left.len() > 0 ==> names(list) == left
            &&& left.len() == 0 ==> list.len() == 0
            &&& forall|name: Seq<char>| #[trigger]
                left.contains(name) <==> names(algs).contains(name) && !names(excluded).contains(name)
        }),
{
    let all = names(algs);
    let stays = |name: Seq<char>| !names(excluded).contains(name);
    let left = without(all, names(excluded));
    assert forall|name: Seq<char>| #[trigger]
        left.contains(name) <==> all.contains(name) && !names(excluded).contains(name) by {
        if left.contains(name) {
            all.lemma_filter_contains_rev(stays, name);
            let i = choose|i: int| 0 <= i < left.len() && left[i] == name;
            all.lemma_filter_pred(stays, i);
        }
        if all.contains(name) && stays(name) {
            let i = choose|i: int| 0 <= i < all.len() && all[i] == name;
            all.lemma_filter_contains(stays, i);
        }
    }
    if left.len() > 0 {
        text::law_parts_hold_no_separator(algs, ',');
        assert forall|i: int| 0 <= i < left.len() implies !(#[trigger] left[i]).contains(',') by {
            assert(left.contains(left[i]));
            let k = choose|k: int| 0 <= k < all.len() && all[k] == left[i];
            assert(!all[k].contains(','));
        }
        text::law_split_gives_back_join(left, ',');
    }
}

/// A text that differs from `part` wherever `part` could stand does not hold it;
/// it is enough to look at the first character and one other.
proof fn lemma_not_in(part: Seq<char>, s: Seq<char>, k: int)
    requires
        0 < k < part.len(),
        forall|i: int|
            0 <= i && i + part.len() <= s.len() ==> #[trigger] s[i] != part[0] || s[i + k] != part[k],
    ensures
        !text::occurs_in(part, s),
{
    assert forall|i: int| 0 <= i && i + part.len() <= s.len() implies #[trigger] s.subrange(
        i,
        i + part.len(),
    ) != part by {
        let here = s.subrange(i, i + part.len());
        assert(here[0] == s[i] && here[k] == s[i + k]);
    }
}

/// A text holds what it starts with.
proof fn lemma_starts_with(part: Seq<char>, s: Seq<char>)
    requires
        part.len() <= s.len(),
        s.take(part.len() as int) == part,
    ensures
        text::occurs_in(part, s),
{
    assert(s.subrange(0, 0int + part.len()) =~= part);
}

/// Splits a small number into its cases.
proof fn lemma_up_to_16(i: int)
    requires
        0 <= i <= 16,
    ensures
        i == 0 || i == 1 || i == 2 || i == 3 || i == 4 || i == 5 || i == 6 || i == 7 || i == 8 || i
            == 9 || i == 10 || i == 11 || i == 12 || i == 13 || i == 14 || i == 15 || i == 16,
{
}

/// No AES name holds `chacha20`.
proof fn lemma_no_chacha20_in(name: Seq<char>)
    requires
        name == "aes256-gcm@openssh.com"@ || name == "aes128-gcm@openssh.com"@ || name
            == "aes192-gcm@openssh.com"@,
    ensures
        !text::occurs_in("chacha20"@, name),
{
    reveal_strlit("chacha20");
    reveal_strlit("aes256-gcm@openssh.com");
    reveal_strlit("aes128-gcm@openssh.com");
    reveal_strlit("aes192-gcm@openssh.com");
    assert forall|i: int| 0 <= i && i + 8 <= name.len() implies #[trigger] name[i] != 'c' || name[i
        + 1] != 'h' by {
        lemma_up_to_16(i);
    }
    lemma_not_in("chacha20"@, name, 1);
}

/// The key material that is derived for a cipher is just what the cipher takes.
/// AES-192-GCM, for which none is derived, is left out.
pub proof fn law_key_len_fits_cipher(name: Seq<char>)
    requires
        name != "aes192-gcm@openssh.com"@,
    ensures
        cipher::kind_of(name) matches Some(kind) ==> key_len_of(name) == Some(kind.key_len() as nat),
{
    reveal_strlit("chacha20");
    reveal_strlit("aes256");
    reveal_strlit("aes128");
    reveal_strlit("chacha20-poly1305@openssh.com");
    reveal_strlit("aes256-gcm@openssh.com");
    reveal_strlit("aes128-gcm@openssh.com");
    if name == "chacha20-poly1305@openssh.com"@ {
        assert(name.take("chacha20"@.len() as int) =~= "chacha20"@);
        lemma_starts_with("chacha20"@, name);
    } else if name == "aes256-gcm@openssh.com"@ {
        assert(name.take("aes256"@.len() as int) =~= "aes256"@);
        lemma_starts_with("aes256"@, name);
        lemma_no_chacha20_in(name);
        assert(name[3] != "aes128-gcm@openssh.com"@[3]);
    } else if name == "aes128-gcm@openssh.com"@ {
        assert(name.take("aes128"@.len() as int) =~= "aes128"@);
        lemma_starts_with("aes128"@, name);
        lemma_no_chacha20_in(name);
        assert forall|i: int| 0 <= i && i + 6 <= name.len() implies #[trigger] name[i] != 'a' || name[i
            + 3] != '2' by {
            lemma_up_to_16(i);
        }
        lemma_not_in("aes256"@, name, 3);
    }
}

/// No key material is derived for AES-192-GCM, although there is a cipher of that
/// name.
pub proof fn lemma_aes192_gets_no_key()
    ensures
        key_len_of("aes192-gcm@openssh.com"@) is None,
{
    let name = "aes192-gcm@openssh.com"@;
    reveal_strlit("chacha20");
    reveal_strlit("aes256");
    reveal_strlit("aes128");
    reveal_strlit("aes192-gcm@openssh.com");
    lemma_no_chacha20_in(name);
    assert forall|i: int| 0 <= i && i + 6 <= name.len() implies #[trigger] name[i] != 'a' || name[i
        + 3] != '2' by {
        lemma_up_to_16(i);
    }
    lemma_not_in("aes256"@, name, 3);
    assert forall|i: int| 0 <= i && i + 6 <= name.len() implies #[trigger] name[i] != 'a' || name[i
        + 4] != '2' by {
        lemma_up_to_16(i);
    }
    lemma_not_in("aes128"@, name, 4);
}

/// Once there is a first common name, names further down the first list change
/// nothing.
pub proof fn law_later_names_do_not_matter(
    wanted: Seq<Seq<char>>,
    more: Seq<Seq<char>>,
    offered: Seq<Seq<char>>,
)
    ensures
        first_common(wanted, offered) is Some ==> first_common(wanted + more, offered)
            == first_common(wanted, offered),
    decreases wanted.len(),
{
    if wanted.len() > 0 {
        law_later_names_do_not_matter(wanted.drop_first(), more, offered);
        assert((wanted + more).drop_first() =~= wanted.drop_first() + more);
    }
}

/// It does not matter in which order, or how often, names stand in the second
/// list.
pub proof fn law_order_of_second_list_does_not_matter(
    wanted: Seq<Seq<char>>,
    one: Seq<Seq<char>>,
    two: Seq<Seq<char>>,
)
    requires
        forall|name: Seq<char>| #[trigger] one.contains(name) <==> two.contains(name),
    ensures
        first_common(wanted, one) == first_common(wanted, two),
    decreases wanted.len(),
{
    if wanted.len() > 0 {
        assert(one.contains(wanted[0]) <==> two.contains(wanted[0]));
        law_order_of_second_list_does_not_matter(wanted.drop_first(), one, two);
    }
}

/// Taking out the names of one list and then those of another leaves the same as
/// taking out those of both at once.
proof fn lemma_without_twice(all: Seq<Seq<char>>, one: Seq<Seq<char>>, two: Seq<Seq<char>>)
    ensures
        without(without(all, one), two) == without(all, one + two),
    decreases all.len(),
{
    reveal(Seq::filter);
    if all.len() > 0 {
        let name = all.last();
        let rest = all.drop_last();
        lemma_without_twice(rest, one, two);
        assert((one + two).contains(name) <==> one.contains(name) || two.contains(name)) by {
            if one.contains(name) {
                let i = choose|i: int| 0 <= i < one.len() && one[i] == name;
                assert((one + two)[i] == name);
            }
            if two.contains(name) {
                let i = choose|i: int| 0 <= i < two.len() && two[i] == name;
                assert((one + two)[one.len() + i] == name);
            }
        }
        if !one.contains(name) {
            let kept = without(rest, one);
            assert(without(all, one) == kept.push(name));
            assert(kept.push(name).drop_last() =~= kept);
        }
    }
}

/// Excluding the names of one list and then those of another is excluding those
/// of the two lists joined.
pub proof fn law_excluding_twice(algs: Seq<char>, one: Seq<char>, two: Seq<char>)
    ensures
        filtered(filtered(algs, Some(one)), Some(two)) == filtered(algs, Some(one.push(',') + two)),
{
    let all = names(algs);
    text::law_parts_of_two(one, two, ',');
    lemma_without_twice(all, names(one), names(two));
    law_filtering_leaves_the_rest(algs, one);
    let left = without(all, names(one));
    if left.len() == 0 {
        let list = filtered(algs, Some(one));
        assert(list =~= Seq::<char>::empty());
        assert(names(list) =~= seq![Seq::<char>::empty()]);
        law_filtering_leaves_the_rest(list, two);
        let again = without(names(list), names(two));
        assert(again.len() <= 1) by {
            names(list).lemma_filter_len(|name: Seq<char>| !names(two).contains(name));
        }
        if again.len() == 1 {
            assert(again.contains(again[0]));
            assert(again[0] =~= Seq::<char>::empty());
        }
        assert(filtered(list, Some(two)) =~= Seq::<char>::empty());
        assert(without(left, names(two)) =~= Seq::<Seq<char>>::empty()) by {
            reveal(Seq::filter);
        }
        assert(filtered(algs, Some(one.push(',') + two)) =~= Seq::<char>::empty());
    }
}

} // verus!
