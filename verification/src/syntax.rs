//! What the parts of a URL are, over sequences of characters.
//!
//! A raw string is read in three cuts. A leading `http://` is taken off. What
//! is left is cut at its first `/` into the authority and, where there is a
//! `/`, the target behind it. The authority is cut at its first `:` into host
//! and port, the target at its first `?` into path and search part.

use crate::text::{after_first, before_first, first_at, first_index, lemma_first_index_sound,
    occurs_at, occurs_in};
use vstd::prelude::*;

verus! {

/// The one scheme that is accepted, with its delimiter.
pub open spec fn scheme() -> Seq<char> {
    "http://"@
}

/// The port of an authority that names none.
pub open spec fn default_port() -> Seq<char> {
    "80"@
}

/// The scheme stands somewhere in `raw`, at its start or later.
pub open spec fn has_scheme(raw: Seq<char>) -> bool {
    occurs_in(raw, scheme())
}

/// `raw` without the scheme at its start. One leading occurrence is taken
/// off; where `raw` does not begin with the scheme, nothing is.
pub open spec fn strip_scheme(raw: Seq<char>) -> Seq<char> {
    if occurs_at(raw, scheme(), 0) {
        raw.skip(scheme().len() as int)
    } else {
        raw
    }
}

/// Host and port together: what stands before the first `/`.
pub open spec fn authority(raw: Seq<char>) -> Seq<char> {
    before_first(strip_scheme(raw), '/')
}

/// Path and search part together: what stands after the first `/`, if there
/// is one.
pub open spec fn target(raw: Seq<char>) -> Option<Seq<char>> {
    after_first(strip_scheme(raw), '/')
}

/// The authority up to its first `:`.
pub open spec fn host_of(raw: Seq<char>) -> Seq<char> {
    before_first(authority(raw), ':')
}

/// The authority after its first `:`, as it stands; the default where the
/// authority holds no `:`.
pub open spec fn port_of(raw: Seq<char>) -> Seq<char> {
    match after_first(authority(raw), ':') {
        Some(port) => port,
        None => default_port(),
    }
}

/// The target up to its first `?`; empty without a target.
pub open spec fn path_of(raw: Seq<char>) -> Seq<char> {
    match target(raw) {
        Some(t) => before_first(t, '?'),
        None => Seq::empty(),
    }
}

/// The target after its first `?`; empty without a target or without a `?`
/// in it.
pub open spec fn searchpart_of(raw: Seq<char>) -> Seq<char> {
    match target(raw) {
        Some(t) => match after_first(t, '?') {
            Some(query) => query,
            None => Seq::empty(),
        },
        None => Seq::empty(),
    }
}

/// The authority holds a `:`, so the port is written out.
pub open spec fn names_port(raw: Seq<char>) -> bool {
    first_index(authority(raw), ':') is Some
}

/// The target exists and holds a `?`, so the search part is written out.
pub open spec fn names_searchpart(raw: Seq<char>) -> bool {
    match target(raw) {
        Some(t) => first_index(t, '?') is Some,
        None => false,
    }
}

/// A sequence that holds `c` is what stands before the first `c`, then `c`,
/// then what stands after it.
pub proof fn lemma_cut_joins(s: Seq<char>, c: char)
    requires
        first_index(s, c) is Some,
    ensures
        s == before_first(s, c) + seq![c] + after_first(s, c).unwrap(),
{
    lemma_first_index_sound(s, c);
    let i = first_index(s, c).unwrap();
    assert(s =~= s.take(i) + seq![c] + s.skip(i + 1));
}

/// A raw string that begins with the scheme and holds no `/` behind it is
/// all authority: path and search part are empty, the first `:` behind the
/// scheme parts host from port, and without a `:` the host is everything
/// behind the scheme and the port is the default.
pub proof fn lemma_bare_authority(raw: Seq<char>)
    requires
        occurs_at(raw, scheme(), 0),
        !raw.skip(scheme().len() as int).contains('/'),
    ensures
        path_of(raw) == Seq::<char>::empty(),
        searchpart_of(raw) == Seq::<char>::empty(),
        match first_index(raw.skip(scheme().len() as int), ':') {
            Some(i) => {
                &&& host_of(raw) == raw.skip(scheme().len() as int).take(i)
                &&& port_of(raw) == raw.skip(scheme().len() as int).skip(i + 1)
            },
            None => {
                &&& host_of(raw) == raw.skip(scheme().len() as int)
                &&& port_of(raw) == default_port()
            },
        },
{
    let rest = raw.skip(scheme().len() as int);
    lemma_first_index_sound(rest, '/');
    if first_index(rest, '/') is Some {
        let i = first_index(rest, '/').unwrap();
        assert(first_at(rest, '/', i));
        assert(rest.contains('/'));
    }
}

/// Where port, path and search part are all written out, the four parts with
/// their delimiters between them are the raw string behind its scheme.
pub proof fn lemma_parts_rebuild(raw: Seq<char>)
    requires
        names_port(raw),
        names_searchpart(raw),
    ensures
        strip_scheme(raw) == host_of(raw) + seq![':'] + port_of(raw) + seq!['/'] + path_of(raw)
            + seq!['?'] + searchpart_of(raw),
{
    let rest = strip_scheme(raw);
    lemma_cut_joins(rest, '/');
    lemma_cut_joins(authority(raw), ':');
    lemma_cut_joins(target(raw).unwrap(), '?');
    assert(rest =~= host_of(raw) + seq![':'] + port_of(raw) + seq!['/'] + path_of(raw) + seq!['?']
        + searchpart_of(raw));
}

} // verus!
