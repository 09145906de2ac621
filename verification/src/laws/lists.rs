//! Laws of texts, name lists, the choice of a cipher and destinations.

use vstd::prelude::*;
use crate::algorithms;
use crate::destination;
use crate::keys;
use crate::keys::{Choice, NegotiationError, Outcome};
use crate::text;

verus! {

/// A text without the separator is its only part.
pub proof fn law_text_without_separator_is_one_part(s: Seq<char>, sep: char)
    requires
        !s.contains(sep),
    ensures
        text::split_on(s, sep) == seq![s],
{
    assert(text::join_with(seq![s], sep) == s);
    text::law_split_gives_back_join(seq![s], sep);
}

/// Joining: nothing gives the empty text, one part itself, and two rows of parts
/// their two texts with a separator between.
pub proof fn law_joining_parts(
    part: Seq<char>,
    one: Seq<Seq<char>>,
    two: Seq<Seq<char>>,
    sep: char,
)
    requires
        one.len() > 0,
        two.len() > 0,
    ensures
        text::join_with(Seq::empty(), sep) == Seq::<char>::empty(),
        text::join_with(seq![part], sep) == part,
        text::join_with(one + two, sep) == text::join_with(one, sep) + seq![sep] + text::join_with(
            two,
            sep,
        ),
    decreases two.len(),
{
    let all = one + two;
    if two.len() == 1 {
        assert(all.drop_last() =~= one);
        assert(text::join_with(all, sep) =~= text::join_with(one, sep) + seq![sep]
            + text::join_with(two, sep));
    } else {
        let fewer = two.drop_last();
        law_joining_parts(part, one, fewer, sep);
        assert(all.drop_last() =~= one + fewer);
        assert(text::join_with(all, sep) =~= text::join_with(one, sep) + seq![sep]
            + text::join_with(two, sep));
    }
}

/// The texts in a row of string slices, each in its place.
pub proof fn law_texts_in_place(parts: Seq<&str>)
    ensures
        text::texts(parts).len() == parts.len(),
        forall|i: int| 0 <= i < parts.len() ==> #[trigger] text::texts(parts)[i] == parts[i]@,
{
}

/// A text occurs in another exactly if that is made of something, the text, and
/// something.
pub proof fn law_occurring(before: Seq<char>, part: Seq<char>, behind: Seq<char>)
    ensures
        text::occurs_in(part, before + part + behind),
{
    let s = before + part + behind;
    let i = before.len() as int;
    assert(s.subrange(i, i + part.len()) =~= part);
}

/// Where a text occurs in another, that is made of something, the text, and
/// something.
pub proof fn law_occurring_text_splits(part: Seq<char>, s: Seq<char>)
    requires
        text::occurs_in(part, s),
    ensures
        exists|before: Seq<char>, behind: Seq<char>| s == #[trigger] (before + part + behind),
{
    let i = choose|i: int|
        0 <= i && i + part.len() <= s.len() && #[trigger] s.subrange(i, i + part.len()) == part;
    let (before, behind) = (s.take(i), s.skip(i + part.len()));
    assert(s =~= before + part + behind);
}

proof fn lemma_trim_start_takes_off(space: Seq<char>, s: Seq<char>)
    requires
        forall|i: int| 0 <= i < space.len() ==> text::is_white_space(#[trigger] space[i]),
    ensures
        text::trim_start(space + s) == text::trim_start(s),
    decreases space.len(),
{
    if space.len() == 0 {
        assert(space + s =~= s);
    } else {
        let fewer = space.drop_first();
        assert forall|i: int| 0 <= i < fewer.len() implies text::is_white_space(
            #[trigger] fewer[i],
        ) by {
            assert(fewer[i] == space[i + 1]);
        }
        assert((space + s)[0] == space[0]);
        assert((space + s).drop_first() =~= fewer + s);
        lemma_trim_start_takes_off(fewer, s);
    }
}

proof fn lemma_trim_end_takes_off(s: Seq<char>, space: Seq<char>)
    requires
        forall|i: int| 0 <= i < space.len() ==> text::is_white_space(#[trigger] space[i]),
    ensures
        text::trim_end(s + space) == text::trim_end(s),
    decreases space.len(),
{
    if space.len() == 0 {
        assert(s + space =~= s);
    } else {
        let fewer = space.drop_last();
        assert forall|i: int| 0 <= i < fewer.len() implies text::is_white_space(
            #[trigger] fewer[i],
        ) by {
            assert(fewer[i] == space[i]);
        }
        assert((s + space).last() == space.last());
        assert((s + space).drop_last() =~= s + fewer);
        lemma_trim_end_takes_off(s, fewer);
    }
}

/// Trimming takes off all white space before and behind, and nothing else.
pub proof fn law_trimming(before: Seq<char>, inner: Seq<char>, behind: Seq<char>)
    requires
        forall|i: int| 0 <= i < before.len() ==> text::is_white_space(#[trigger] before[i]),
        forall|i: int| 0 <= i < behind.len() ==> text::is_white_space(#[trigger] behind[i]),
        inner.len() > 0 ==> !text::is_white_space(inner[0]) && !text::is_white_space(inner.last()),
    ensures
        text::trimmed(before + inner + behind) == inner,
{
    assert(before + inner + behind =~= before + (inner + behind));
    lemma_trim_start_takes_off(before, inner + behind);
    if inner.len() > 0 {
        assert((inner + behind)[0] == inner[0]);
        lemma_trim_end_takes_off(inner, behind);
    } else {
        assert(inner + behind =~= behind + inner);
        lemma_trim_start_takes_off(behind, inner);
        assert(inner =~= Seq::<char>::empty());
    }
}

/// The names in a list are what stands between its commas.
pub proof fn law_names_between_commas(name: Seq<char>, one: Seq<char>, two: Seq<char>)
    requires
        !name.contains(','),
    ensures
        algorithms::names(name) == seq![name],
        algorithms::names(one + seq![','] + two) == algorithms::names(one) + algorithms::names(two),
{
    law_text_without_separator_is_one_part(name, ',');
    text::law_parts_of_two(one, two, ',');
    assert(one + seq![','] + two =~= one.push(',') + two);
}

/// Taking names out goes name by name and keeps the order.
pub proof fn law_taking_out_keeps_order(
    all: Seq<Seq<char>>,
    name: Seq<char>,
    excluded: Seq<Seq<char>>,
)
    ensures
        algorithms::without(Seq::empty(), excluded) == Seq::<Seq<char>>::empty(),
        excluded.contains(name) ==> algorithms::without(all + seq![name], excluded)
            == algorithms::without(all, excluded),
        !excluded.contains(name) ==> algorithms::without(all + seq![name], excluded)
            == algorithms::without(all, excluded) + seq![name],
{
    reveal(Seq::filter);
    let more = all + seq![name];
    assert(more.drop_last() =~= all);
    assert(more.last() == name);
    let left = algorithms::without(all, excluded);
    assert(left.push(name) =~= left + seq![name]);
    assert(algorithms::without(Seq::empty(), excluded) =~= Seq::<Seq<char>>::empty());
}

/// Without exclusions a list stays as it is; with them it is made of the names that
/// are left.
pub proof fn law_filtered_list(algs: Seq<char>, excluded: Seq<char>)
    ensures
        algorithms::filtered(algs, None) == algs,
        algorithms::filtered(algs, Some(excluded)) == text::join_with(
            algorithms::without(algorithms::names(algs), algorithms::names(excluded)),
            ',',
        ),
{
}

/// A list that was given is offered as it is, whether or not there are exclusions.
/// Without one, the client's own list is offered, without the excluded names.
pub proof fn law_given_list_is_offered(
    list: Seq<char>,
    excluded: Seq<char>,
    not_algs: Option<Seq<char>>,
)
    ensures
        algorithms::offer(Some(list), not_algs) == list,
        algorithms::offer(None, None) == algorithms::DEFAULT_CIPHERS@,
        algorithms::names(algorithms::offer(None, Some(excluded))).len() >= 1,
        forall|name: Seq<char>|
            name.len() > 0 ==> (#[trigger] algorithms::names(
                algorithms::offer(None, Some(excluded)),
            ).contains(name) <==> algorithms::names(algorithms::DEFAULT_CIPHERS@).contains(name)
                && !algorithms::names(excluded).contains(name)),
{
    let own = algorithms::DEFAULT_CIPHERS@;
    let offered = algorithms::offer(None, Some(excluded));
    algorithms::law_filtering_leaves_the_rest(own, excluded);
    text::lemma_split_not_empty(offered, ',');
    let left = algorithms::without(algorithms::names(own), algorithms::names(excluded));
    if left.len() == 0 {
        assert(algorithms::names(offered) =~= seq![Seq::<char>::empty()]);
        assert forall|name: Seq<char>| name.len() > 0 implies (
        #[trigger] algorithms::names(offered).contains(name) <==> algorithms::names(own).contains(
            name,
        ) && !algorithms::names(excluded).contains(name)) by {
            assert(!left.contains(name));
        }
    } else {
        assert forall|name: Seq<char>| name.len() > 0 implies (
        #[trigger] algorithms::names(offered).contains(name) <==> algorithms::names(own).contains(
            name,
        ) && !algorithms::names(excluded).contains(name)) by {
            assert(left.contains(name) <==> algorithms::names(own).contains(name)
                && !algorithms::names(excluded).contains(name));
        }
    }
}

/// A cipher that is chosen from a list that was given is one of its names.
pub proof fn law_chosen_cipher_was_allowed(
    list: Seq<char>,
    not_algs: Option<Seq<char>>,
    server_list: Seq<char>,
)
    ensures
        keys::outcome(algorithms::offer(Some(list), not_algs), server_list) matches Outcome::Chosen {
            name,
            ..
        } ==> algorithms::names(list).contains(name),
{
    law_given_list_is_offered(list, list, not_algs);
    keys::law_chosen_cipher_is_common(list, server_list);
}

/// The text of an optional string is that of the string.
pub proof fn law_optional_text(s: String)
    ensures
        algorithms::option_text(Some(s)) == Some(s@),
        algorithms::option_text(None) == None::<Seq<char>>,
{
}

/// How much key material a cipher gets goes by the first of three words that its
/// name holds anywhere.
pub proof fn law_key_len_by_word(before: Seq<char>, behind: Seq<char>, name: Seq<char>)
    ensures
        algorithms::key_len_of(before + "chacha20"@ + behind) == Some(64nat),
        !text::occurs_in("chacha20"@, before + "aes256"@ + behind) ==> algorithms::key_len_of(
            before + "aes256"@ + behind,
        ) == Some(44nat),
        !text::occurs_in("chacha20"@, before + "aes128"@ + behind) && !text::occurs_in(
            "aes256"@,
            before + "aes128"@ + behind,
        ) ==> algorithms::key_len_of(before + "aes128"@ + behind) == Some(28nat),
        !text::occurs_in("chacha20"@, name) && !text::occurs_in("aes256"@, name)
            && !text::occurs_in("aes128"@, name) ==> algorithms::key_len_of(name) is None,
{
    law_occurring(before, "chacha20"@, behind);
    law_occurring(before, "aes256"@, behind);
    law_occurring(before, "aes128"@, behind);
}

/// The negotiation goes by the first common name: with none, or an empty one, there
/// is no cipher; one without key material is not supported.
pub proof fn law_negotiation(offered: Seq<char>, server_list: Seq<char>, i: int)
    requires
        0 <= i < algorithms::names(offered).len(),
        algorithms::names(server_list).contains(algorithms::names(offered)[i]),
        forall|j: int|
            0 <= j < i ==> !algorithms::names(server_list).contains(
                #[trigger] algorithms::names(offered)[j],
            ),
    ensures
        ({
            let name = algorithms::names(offered)[i];
            keys::outcome(offered, server_list) == (if name.len() == 0 {
                Outcome::NoCommonCipher
            } else {
                match algorithms::key_len_of(name) {
                    Some(key_len) => Outcome::Chosen { name, key_len },
                    None => Outcome::UnsupportedCipher { name },
                }
            })
        }),
{
    let (wanted, had) = (algorithms::names(offered), algorithms::names(server_list));
    algorithms::law_first_common_is_first(wanted, had);
    match algorithms::first_common(wanted, had) {
        Some(name) => {
            let k = choose|k: int|
                0 <= k < wanted.len() && #[trigger] wanted[k] == name && forall|j: int|
                    0 <= j < k ==> !had.contains(#[trigger] wanted[j]);
            if k < i {
                assert(!had.contains(wanted[k]));
            }
            if i < k {
                assert(!had.contains(wanted[i]));
            }
        },
        None => {
            assert(!had.contains(wanted[i]));
        },
    }
}

/// Two lists without a name in common give no cipher.
pub proof fn law_nothing_in_common(offered: Seq<char>, server_list: Seq<char>)
    requires
        forall|j: int|
            0 <= j < algorithms::names(offered).len() ==> !algorithms::names(server_list).contains(
                #[trigger] algorithms::names(offered)[j],
            ),
    ensures
        keys::outcome(offered, server_list) == Outcome::NoCommonCipher,
{
    let (wanted, had) = (algorithms::names(offered), algorithms::names(server_list));
    algorithms::law_first_common_is_first(wanted, had);
    if let Some(name) = algorithms::first_common(wanted, had) {
        let k = choose|k: int|
            0 <= k < wanted.len() && #[trigger] wanted[k] == name && forall|j: int|
                0 <= j < k ==> !had.contains(#[trigger] wanted[j]);
        assert(!had.contains(wanted[k]));
    }
}

/// A result of a negotiation stands for the outcome with its name and length.
pub proof fn law_choice_is_its_outcome(name: String, key_len: usize)
    ensures
        keys::outcome_of(Ok(Choice { name, key_len })) == (Outcome::Chosen {
            name: name@,
            key_len: key_len as nat,
        }),
        keys::outcome_of(Err(NegotiationError::NoCommonCipher)) == Outcome::NoCommonCipher,
        keys::outcome_of(Err(NegotiationError::UnsupportedCipher { name })) == (
        Outcome::UnsupportedCipher { name: name@ }),
{
}

/// A destination names as user what stands before its first `@`, and as server what
/// stands behind its last, whatever stands between.
pub proof fn law_first_and_last_part(user: Seq<char>, rest: Seq<char>, server: Seq<char>)
    requires
        !user.contains('@'),
        !server.contains('@'),
    ensures
        destination::user_in(user + seq!['@'] + rest) == Some(user),
        destination::server_in(rest + seq!['@'] + server) == server,
{
    text::law_parts_of_two(user, rest, '@');
    law_text_without_separator_is_one_part(user, '@');
    text::lemma_split_not_empty(rest, '@');
    assert(user + seq!['@'] + rest =~= user.push('@') + rest);
    let parts = seq![user] + text::split_on(rest, '@');
    assert(parts.len() >= 2 && parts[0] == user);
    text::law_parts_of_two(rest, server, '@');
    law_text_without_separator_is_one_part(server, '@');
    assert(rest + seq!['@'] + server =~= rest.push('@') + server);
    assert((text::split_on(rest, '@') + seq![server]).last() == server);
}

/// The login name counts exactly where a destination names no user.
pub proof fn law_login_name(user: Seq<char>, rest: Seq<char>, server: Seq<char>, login: Seq<char>)
    requires
        !user.contains('@'),
        !server.contains('@'),
    ensures
        destination::user_for(user + seq!['@'] + rest, login) == user,
        destination::user_for(server, login) == login,
        destination::server_in(server) == server,
{
    law_first_and_last_part(user, rest, server);
    destination::law_server_alone(server);
}

} // verus!
