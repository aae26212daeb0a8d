//! The URL value: a raw string and the four parts read from it.

use crate::syntax::{authority, has_scheme, host_of, path_of, port_of, searchpart_of,
    strip_scheme, target};
use crate::text::{contains_pattern, find_char, lemma_first_index_sound, matches_at, to_chars};
use vstd::prelude::*;

verus! {

/// A URL: the raw string it was made from and, once `parse` has accepted
/// it, its host, port, path and search part.
#[derive(Debug, PartialEq)]
pub struct Url {
    raw: String,
    host: String,
    port: String,
    path: String,
    searchpart: String,
}

/// What a `Url` holds, as sequences of characters.
pub struct UrlView {
    pub raw: Seq<char>,
    pub host: Seq<char>,
    pub port: Seq<char>,
    pub path: Seq<char>,
    pub searchpart: Seq<char>,
}

/// The text of the one error: the raw string does not hold the scheme.
pub open spec fn unsupported_scheme() -> Seq<char> {
    "Only Http schema is supported"@
}

impl UrlView {
    /// A URL made from `raw` and not parsed: the four parts are empty.
    pub open spec fn unparsed(raw: Seq<char>) -> UrlView {
        UrlView {
            raw,
            host: Seq::empty(),
            port: Seq::empty(),
            path: Seq::empty(),
            searchpart: Seq::empty(),
        }
    }

    /// A URL made from `raw` and parsed: each part is what the syntax finds
    /// in `raw`.
    pub open spec fn parsed(raw: Seq<char>) -> UrlView {
        UrlView {
            raw,
            host: host_of(raw),
            port: port_of(raw),
            path: path_of(raw),
            searchpart: searchpart_of(raw),
        }
    }

    /// The four parts are never filled in part: either all are empty, or the
    /// raw string holds the scheme and all four are read from it.
    pub open spec fn wf(self) -> bool {
        ||| self == UrlView::unparsed(self.raw)
        ||| has_scheme(self.raw) && self == UrlView::parsed(self.raw)
    }

    /// The value that one call of `parse` leaves behind: parsed where the raw
    /// string holds the scheme, untouched where it does not.
    pub open spec fn after_parse(self) -> UrlView {
        if has_scheme(self.raw) {
            UrlView::parsed(self.raw)
        } else {
            self
        }
    }

    /// What one call of `parse` returns: the parsed value, or the error text.
    pub open spec fn parse_result(self) -> Result<UrlView, Seq<char>> {
        if has_scheme(self.raw) {
            Ok(UrlView::parsed(self.raw))
        } else {
            Err(unsupported_scheme())
        }
    }
}

impl View for Url {
    type V = UrlView;

    closed spec fn view(&self) -> UrlView {
        UrlView {
            raw: self.raw@,
            host: self.host@,
            port: self.port@,
            path: self.path@,
            searchpart: self.searchpart@,
        }
    }
}

/// What a result of `parse` holds, as sequences of characters.
pub open spec fn result_view(r: Result<Url, String>) -> Result<UrlView, Seq<char>> {
    match r {
        Ok(url) => Ok(url@),
        Err(text) => Err(text@),
    }
}

/// Parsing again changes nothing: a second call of `parse` leaves the value
/// that the first one left, and returns what the first one returned.
pub proof fn lemma_parse_idempotent(v: UrlView)
    ensures
        v.after_parse().raw == v.raw,
        v.after_parse().after_parse() == v.after_parse(),
        v.after_parse().parse_result() == v.parse_result(),
{
}

/// Parsing keeps a value well formed.
pub proof fn lemma_parse_keeps_wf(v: UrlView)
    requires
        v.wf(),
    ensures
        v.after_parse().wf(),
{
}

impl Clone for Url {
    /// A copy that holds the same raw string and the same four parts.
    fn clone(&self) -> (r: Url)
        ensures
            r@ == self@,
    {
        proof {
            use_type_invariant(self);
        }
        Url {
            raw: self.raw.clone(),
            host: self.host.clone(),
            port: self.port.clone(),
            path: self.path.clone(),
            searchpart: self.searchpart.clone(),
        }
    }
}

impl Url {
    #[verifier::type_invariant]
    spec fn inv(&self) -> bool {
        self@.wf()
    }

    /// A URL that holds `raw` as it is, not yet parsed.
    pub fn new(raw: String) -> (r: Url)
        ensures
            r@ == UrlView::unparsed(raw@),
    {
        Url {
            raw,
            host: String::new(),
            port: String::new(),
            path: String::new(),
            searchpart: String::new(),
        }
    }

    /// The raw string, as it was given to `new`.
    pub fn raw(&self) -> (r: String)
        ensures
            r@ == self@.raw,
            self@.wf(),
    {
        proof {
            use_type_invariant(self);
        }
        self.raw.clone()
    }

    /// The host; empty before a successful `parse`.
    pub fn host(&self) -> (r: String)
        ensures
            r@ == self@.host,
            self@.wf(),
    {
        proof {
            use_type_invariant(self);
        }
        self.host.clone()
    }

    /// The port, as text; empty before a successful `parse`.
    pub fn port(&self) -> (r: String)
        ensures
            r@ == self@.port,
            self@.wf(),
    {
        proof {
            use_type_invariant(self);
        }
        self.port.clone()
    }

    /// The path, without the `/` before it; empty before a successful
    /// `parse`.
    pub fn path(&self) -> (r: String)
        ensures
            r@ == self@.path,
            self@.wf(),
    {
        proof {
            use_type_invariant(self);
        }
        self.path.clone()
    }

    /// The search part, without the `?` before it; empty before a successful
    /// `parse`.
    pub fn searchpart(&self) -> (r: String)
        ensures
            r@ == self@.searchpart,
            self@.wf(),
    {
        proof {
            use_type_invariant(self);
        }
        self.searchpart.clone()
    }

    /// Reads the four parts from the raw string. Where it holds the scheme,
    /// all four are written at once and a copy of the parsed value is
    /// returned; where it does not, the value is left as it was and the one
    /// error is returned.
    pub fn parse(&mut self) -> (r: Result<Url, String>)
        ensures
            r is Ok <==> has_scheme(old(self)@.raw),
            result_view(r) == old(self)@.parse_result(),
            final(self)@ == old(self)@.after_parse(),
            final(self)@.raw == old(self)@.raw,
            final(self)@.wf(),
    {
        proof {
            use_type_invariant(&*self);
        }
        if !self.is_http() {
            return Err("Only Http schema is supported".to_owned());
        }
        let host = self.extract_host();
        let port = self.extract_port();
        let path = self.extract_path();
        let searchpart = self.extract_searchpart();
        *self = Url { raw: self.raw.clone(), host, port, path, searchpart };
        Ok(self.clone())
    }

    /// Whether the raw string holds the scheme, at its start or later.
    fn is_http(&self) -> (r: bool)
        ensures
            r == has_scheme(self@.raw),
    {
        let chars = to_chars(self.raw.as_str());
        let pattern = to_chars("http://");
        contains_pattern(&chars, &pattern)
    }

    /// The host, read from the raw string.
    fn extract_host(&self) -> (r: String)
        ensures
            r@ == host_of(self@.raw),
    {
        let chars = to_chars(self.raw.as_str());
        let (start, end) = authority_bounds(&chars);
        proof {
            lemma_first_index_sound(authority(chars@), ':');
        }
        let host_end = match find_char(&chars, start, end, ':') {
            Some(colon) => colon,
            None => end,
        };
        let host = self.raw.as_str().substring_char(start, host_end).to_owned();
        proof {
            assert(host@ =~= host_of(chars@));
        }
        host
    }

    /// The port, read from the raw string; the default where the authority
    /// names none.
    fn extract_port(&self) -> (r: String)
        ensures
            r@ == port_of(self@.raw),
    {
        let chars = to_chars(self.raw.as_str());
        let (start, end) = authority_bounds(&chars);
        proof {
            lemma_first_index_sound(authority(chars@), ':');
        }
        match find_char(&chars, start, end, ':') {
            Some(colon) => {
                let port = self.raw.as_str().substring_char(colon + 1, end).to_owned();
                proof {
                    assert(port@ =~= port_of(chars@));
                }
                port
            },
            None => "80".to_owned(),
        }
    }

    /// The path, read from the raw string; empty where no `/` follows the
    /// authority.
    fn extract_path(&self) -> (r: String)
        ensures
            r@ == path_of(self@.raw),
    {
        let chars = to_chars(self.raw.as_str());
        let (_, end) = authority_bounds(&chars);
        if end == chars.len() {
            return String::new();
        }
        proof {
            lemma_first_index_sound(target(chars@).unwrap(), '?');
        }
        let path_end = match find_char(&chars, end + 1, chars.len(), '?') {
            Some(mark) => mark,
            None => chars.len(),
        };
        let path = self.raw.as_str().substring_char(end + 1, path_end).to_owned();
        proof {
            assert(path@ =~= path_of(chars@));
        }
        path
    }

    /// The search part, read from the raw string; empty where no `/` follows
    /// the authority, or no `?` follows that `/`.
    fn extract_searchpart(&self) -> (r: String)
        ensures
            r@ == searchpart_of(self@.raw),
    {
        let chars = to_chars(self.raw.as_str());
        let (_, end) = authority_bounds(&chars);
        if end == chars.len() {
            return String::new();
        }
        proof {
            lemma_first_index_sound(target(chars@).unwrap(), '?');
        }
        match find_char(&chars, end + 1, chars.len(), '?') {
            Some(mark) => {
                let query = self.raw.as_str().substring_char(mark + 1, chars.len()).to_owned();
                proof {
                    assert(query@ =~= searchpart_of(chars@));
                }
                query
            },
            None => String::new(),
        }
    }
}

/// Where the authority of `chars` begins and where it ends: behind a leading
/// scheme, and before the first `/` from there on or at the end of `chars`.
fn authority_bounds(chars: &Vec<char>) -> (r: (usize, usize))
    ensures
        r.0 <= r.1 <= chars.len(),
        chars@.skip(r.0 as int) == strip_scheme(chars@),
        chars@.subrange(r.0 as int, r.1 as int) == authority(chars@),
        target(chars@) == if r.1 < chars.len() {
            Some(chars@.skip(r.1 + 1))
        } else {
            None
        },
{
    let pattern = to_chars("http://");
    let start: usize = if matches_at(chars, &pattern, 0) {
        pattern.len()
    } else {
        0
    };
    proof {
        assert(chars@.skip(start as int) =~= strip_scheme(chars@));
        lemma_first_index_sound(strip_scheme(chars@), '/');
    }
    let end = match find_char(chars, start, chars.len(), '/') {
        Some(slash) => slash,
        None => chars.len(),
    };
    proof {
        assert(chars@.subrange(start as int, end as int) =~= authority(chars@));
        if end < chars.len() {
            assert(chars@.skip(end + 1) =~= target(chars@).unwrap());
        }
    }
    (start, end)
}

} // verus!
