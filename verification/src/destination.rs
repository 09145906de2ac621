//! Where to connect and as whom: `server` or `user@server`.

use vstd::prelude::*;
use crate::text;

verus! {

/// A server and the user to log in as.
pub struct Destination {
    pub user: String,
    pub server: String,
}

/// The user that a destination names: what stands before the first `@`, if there
/// is one.
pub open spec fn user_in(host: Seq<char>) -> Option<Seq<char>> {
    let parts = text::split_on(host, '@');
    if parts.len() == 1 {
        None
    } else {
        Some(parts[0])
    }
}

/// The server that a destination names: what stands behind the last `@`.
pub open spec fn server_in(host: Seq<char>) -> Seq<char> {
    text::split_on(host, '@').last()
}

/// The user to log in as: the one that the destination names, or else `login`.
pub open spec fn user_for(host: Seq<char>, login: Seq<char>) -> Seq<char> {
    match user_in(host) {
        Some(user) => user,
        None => login,
    }
}

/// Whether a destination names a user.
pub fn names_user(host: &str) -> (named: bool)
    ensures
        named == (user_in(host@) is Some),
{
    let parts = text::split(host, '@');
    assert(text::texts(parts@).len() == parts@.len());
    parts.len() != 1
}

/// Reads a destination; where it names no user, `login` is taken. `None` if that
/// leaves no user.
pub fn parse_destination(host: &str, login: &str) -> (destination: Option<Destination>)
    ensures
        destination is Some <==> user_for(host@, login@).len() > 0,
        destination matches Some(d) ==> {
            &&& d.user@ == user_for(host@, login@)
            &&& d.server@ == server_in(host@)
        },
{
    proof {
        text::lemma_split_not_empty(host@, '@');
    }
    let parts = text::split(host, '@');
    assert(text::texts(parts@).len() == parts@.len());
    assert(text::texts(parts@)[0] == parts@[0]@);
    assert(text::texts(parts@).last() == parts@.last()@);
    let user: &str = if parts.len() == 1 {
        login
    } else {
        parts[0]
    };
    let server: &str = parts[parts.len() - 1];
    if text::is_empty(user) {
        None
    } else {
        Some(Destination { user: user.to_owned(), server: server.to_owned() })
    }
}

/// A user and a server with an `@` between them are read back, if neither holds
/// an `@` itself.
pub proof fn law_destination_gives_back_parts(user: Seq<char>, server: Seq<char>)
    requires
        !user.contains('@'),
        !server.contains('@'),
    ensures
        user_in(user + seq!['@'] + server) == Some(user),
        server_in(user + seq!['@'] + server) == server,
{
    let parts = seq![user, server];
    assert(parts.drop_last() =~= seq![user]);
    reveal_with_fuel(text::join_with, 3);
    assert(text::join_with(parts, '@') =~= user + seq!['@'] + server);
    text::law_split_gives_back_join(parts, '@');
}

/// A text without an `@` is a server alone.
pub proof fn law_server_alone(server: Seq<char>)
    requires
        !server.contains('@'),
    ensures
        user_in(server) is None,
        server_in(server) == server,
{
    let parts = seq![server];
    assert(text::join_with(parts, '@') =~= server);
    text::law_split_gives_back_join(parts, '@');
}

} // verus!
