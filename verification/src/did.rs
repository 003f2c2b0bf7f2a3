//! The executable DID parser.
//!
//! [`Did::parse`] and [`Did::is_valid_base_did`] are proved to agree exactly
//! with the specification-level grammar in [`crate::grammar`]: parsing
//! returns precisely `spec_parse` of the input's characters, for every
//! input.

use crate::chars::CharClass;
use crate::grammar::{
    frag_end, id_end, id_start, lookup_last, method_end, pair_at, pair_end, pair_list,
    pair_list_end, pair_ok, pairs_continue, seg_end, seg_list, seg_list_end, segs_continue,
    spec_is_base_did, spec_parse, DidView, ParseError,
};
use crate::laws::lemma_base_did_iff_plain_parse;
use crate::scan::scan_class;
use vstd::prelude::*;

verus! {

/// Container for a parsed DID URL. Each component owns the text it was read
/// from; an optional component is `None` exactly when its trigger character
/// never appeared in the input.
#[derive(Debug, Clone)]
pub struct Did {
    /// The method (registry) name: a non-empty run of lower-case letters and
    /// digits.
    pub method: String,
    /// The method-specific identifier; may be empty when a URL component
    /// follows the second `:` directly.
    pub id: String,
    /// Method-specific parameters from a `;` block, as `name=value` pairs in
    /// input order.
    pub method_params: Option<Vec<(String, String)>>,
    /// Path segments from a `/` block, in order; empty segments from
    /// consecutive separators are preserved.
    pub path: Option<Vec<String>>,
    /// Query pairs from a `?` block, separated by `&`, in input order.
    pub query: Option<Vec<(String, String)>>,
    /// Fragment text from a `#` block, without the `#`.
    pub frag: Option<String>,
}

/// The characters of each pair in a key/value list.
pub open spec fn pairs_view(ps: Seq<(String, String)>) -> Seq<(Seq<char>, Seq<char>)> {
    ps.map_values(|p: (String, String)| (p.0@, p.1@))
}

/// The characters of each segment in a path.
pub open spec fn segs_view(ss: Seq<String>) -> Seq<Seq<char>> {
    ss.map_values(|t: String| t@)
}

/// The characters of an optional string.
pub open spec fn opt_string_view(o: Option<String>) -> Option<Seq<char>> {
    match o {
        Some(t) => Some(t@),
        None => None,
    }
}

impl View for Did {
    type V = DidView;

    open spec fn view(&self) -> DidView {
        DidView {
            method: self.method@,
            id: self.id@,
            method_params: match self.method_params {
                Some(ps) => Some(pairs_view(ps@)),
                None => None,
            },
            path: match self.path {
                Some(ss) => Some(segs_view(ss@)),
                None => None,
            },
            query: match self.query {
                Some(ps) => Some(pairs_view(ps@)),
                None => None,
            },
            frag: opt_string_view(self.frag),
        }
    }
}

/// The pairs that follow a pair ending at `e`, and where they stop: empty
/// and `e` itself unless a separator with a further well-formed pair stands
/// at `e`.
spec fn pair_tail(s: Seq<char>, e: int, sep: char) -> Seq<(Seq<char>, Seq<char>)> {
    if pairs_continue(s, e, sep) {
        pair_list(s, e + 1, sep)
    } else {
        Seq::empty()
    }
}

spec fn pair_tail_end(s: Seq<char>, e: int, sep: char) -> int {
    if pairs_continue(s, e, sep) {
        pair_list_end(s, e + 1, sep)
    } else {
        e
    }
}

/// The segments that follow a segment ending at `e`, and where they stop.
spec fn seg_tail(s: Seq<char>, e: int) -> Seq<Seq<char>> {
    if segs_continue(s, e) {
        seg_list(s, e + 1)
    } else {
        Seq::empty()
    }
}

spec fn seg_tail_end(s: Seq<char>, e: int) -> int {
    if segs_continue(s, e) {
        seg_list_end(s, e + 1)
    } else {
        e
    }
}

/// A single pair starting at i decomposes into its own pair and the tail
/// after its end.
proof fn lemma_pair_list_step(s: Seq<char>, i: int, sep: char)
    requires
        0 <= i <= s.len(),
        pair_ok(s, i),
    ensures
        pair_list(s, i, sep) == seq![pair_at(s, i)] + pair_tail(s, pair_end(s, i), sep),
        pair_list_end(s, i, sep) == pair_tail_end(s, pair_end(s, i), sep),
{
    crate::scan::lemma_run_end_bounds(s, i, CharClass::Param);
    crate::scan::lemma_run_end_bounds(s, crate::grammar::pair_key_end(s, i) + 1, CharClass::Param);
    let e: int = pair_end(s, i);
    if pairs_continue(s, e, sep) {
        assert(pair_list(s, i, sep) == seq![pair_at(s, i)] + pair_list(s, e + 1, sep));
        assert(pair_list_end(s, i, sep) == pair_list_end(s, e + 1, sep));
    } else {
        assert(pair_list(s, i, sep) == seq![pair_at(s, i)]);
        assert(pair_list_end(s, i, sep) == e);
        assert(seq![pair_at(s, i)] + Seq::<(Seq<char>, Seq<char>)>::empty() =~= seq![
            pair_at(s, i),
        ]);
    }
}

/// A single segment starting at i decomposes into its own text and the tail
/// after its end.
proof fn lemma_seg_list_step(s: Seq<char>, i: int)
    requires
        0 <= i <= s.len(),
    ensures
        seg_list(s, i) == seq![s.subrange(i, seg_end(s, i))] + seg_tail(s, seg_end(s, i)),
        seg_list_end(s, i) == seg_tail_end(s, seg_end(s, i)),
{
    crate::scan::lemma_run_end_bounds(s, i, CharClass::PathSegment);
    let e: int = seg_end(s, i);
    if segs_continue(s, e) {
        assert(seg_list(s, i) == seq![s.subrange(i, e)] + seg_list(s, e + 1));
        assert(seg_list_end(s, i) == seg_list_end(s, e + 1));
    } else {
        assert(seg_list(s, i) == seq![s.subrange(i, e)]);
        assert(seg_list_end(s, i) == e);
        assert(seq![s.subrange(i, e)] + Seq::<Seq<char>>::empty() =~= seq![s.subrange(i, e)]);
    }
}

/// Parses the `name=value` pair starting at `i`; `None` when the mandatory
/// `=` does not follow the key run.
fn parse_pair(s: &str, i: usize) -> (r: Option<(String, String, usize)>)
    requires
        i as int <= s@.len(),
    ensures
        match r {
            Some(kvj) => pair_ok(s@, i as int) && kvj.0@ == pair_at(s@, i as int).0 && kvj.1@
                == pair_at(s@, i as int).1 && kvj.2 as int == pair_end(s@, i as int) && i < kvj.2
                && kvj.2 as int <= s@.len(),
            None => !pair_ok(s@, i as int),
        },
{
    let n: usize = s.unicode_len();
    let ke: usize = scan_class(s, i, CharClass::Param);
    if ke == n {
        return None;
    }
    if s.get_char(ke) != '=' {
        return None;
    }
    let ve: usize = scan_class(s, ke + 1, CharClass::Param);
    let key: String = s.substring_char(i, ke).to_owned();
    let val: String = s.substring_char(ke + 1, ve).to_owned();
    Some((key, val, ve))
}

/// Parses the `sep`-separated pair list that a `;` or `?` trigger opened at
/// `start`; fails when no well-formed pair follows the trigger. A later
/// separator whose pair is malformed is left unconsumed.
fn parse_pairs(s: &str, start: usize, sep: char) -> (r: Result<
    (Vec<(String, String)>, usize),
    ParseError,
>)
    requires
        start as int <= s@.len(),
    ensures
        match r {
            Ok(psj) => pair_ok(s@, start as int) && pairs_view(psj.0@) == pair_list(
                s@,
                start as int,
                sep,
            ) && psj.1 as int == pair_list_end(s@, start as int, sep) && start < psj.1 && psj.1
                as int <= s@.len(),
            Err(e) => !pair_ok(s@, start as int) && e == ParseError::MalformedKeyValue,
        },
{
    let n: usize = s.unicode_len();
    let mut pairs: Vec<(String, String)> = Vec::new();
    let mut i: usize;
    match parse_pair(s, start) {
        Some((key, val, j)) => {
            pairs.push((key, val));
            i = j;
        }
        None => {
            return Err(ParseError::MalformedKeyValue);
        }
    }
    proof {
        lemma_pair_list_step(s@, start as int, sep);
        assert(pairs_view(pairs@) =~= seq![pair_at(s@, start as int)]);
    }
    loop
        invariant
            start < i <= n,
            n as int == s@.len(),
            pair_ok(s@, start as int),
            pair_list(s@, start as int, sep) == pairs_view(pairs@) + pair_tail(s@, i as int, sep),
            pair_list_end(s@, start as int, sep) == pair_tail_end(s@, i as int, sep),
        ensures
            start < i <= n,
            pairs_view(pairs@) == pair_list(s@, start as int, sep),
            i as int == pair_list_end(s@, start as int, sep),
        decreases n - i,
    {
        if i == n {
            proof {
                assert(pairs_view(pairs@) + pair_tail(s@, i as int, sep) =~= pairs_view(pairs@));
            }
            break;
        }
        if s.get_char(i) != sep {
            proof {
                assert(pairs_view(pairs@) + pair_tail(s@, i as int, sep) =~= pairs_view(pairs@));
            }
            break;
        }
        match parse_pair(s, i + 1) {
            Some((key, val, j)) => {
                proof {
                    lemma_pair_list_step(s@, i + 1, sep);
                    assert(pairs_view(pairs@.push((key, val))) =~= pairs_view(pairs@) + seq![
                        pair_at(s@, i + 1),
                    ]);
                    assert((pairs_view(pairs@) + seq![pair_at(s@, i + 1)]) + pair_tail(
                        s@,
                        j as int,
                        sep,
                    ) =~= pairs_view(pairs@) + (seq![pair_at(s@, i + 1)] + pair_tail(
                        s@,
                        j as int,
                        sep,
                    )));
                }
                pairs.push((key, val));
                i = j;
            }
            None => {
                proof {
                    assert(pairs_view(pairs@) + pair_tail(s@, i as int, sep) =~= pairs_view(
                        pairs@,
                    ));
                }
                break;
            }
        }
    }
    Ok((pairs, i))
}

/// Parses the path segments that a `/` trigger opened at `start`.
fn parse_segments(s: &str, start: usize) -> (r: (Vec<String>, usize))
    requires
        start as int <= s@.len(),
    ensures
        segs_view(r.0@) == seg_list(s@, start as int),
        r.1 as int == seg_list_end(s@, start as int),
        start <= r.1,
        r.1 as int <= s@.len(),
{
    let n: usize = s.unicode_len();
    let mut segs: Vec<String> = Vec::new();
    let e: usize = scan_class(s, start, CharClass::PathSegment);
    segs.push(s.substring_char(start, e).to_owned());
    let mut i: usize = e;
    proof {
        lemma_seg_list_step(s@, start as int);
        assert(segs_view(segs@) =~= seq![s@.subrange(start as int, seg_end(s@, start as int))]);
    }
    loop
        invariant
            start <= i <= n,
            n as int == s@.len(),
            seg_list(s@, start as int) == segs_view(segs@) + seg_tail(s@, i as int),
            seg_list_end(s@, start as int) == seg_tail_end(s@, i as int),
        ensures
            start <= i <= n,
            segs_view(segs@) == seg_list(s@, start as int),
            i as int == seg_list_end(s@, start as int),
        decreases n - i,
    {
        if i == n {
            proof {
                assert(segs_view(segs@) + seg_tail(s@, i as int) =~= segs_view(segs@));
            }
            break;
        }
        if s.get_char(i) != '/' {
            proof {
                assert(segs_view(segs@) + seg_tail(s@, i as int) =~= segs_view(segs@));
            }
            break;
        }
        let e2: usize = scan_class(s, i + 1, CharClass::PathSegment);
        let seg: String = s.substring_char(i + 1, e2).to_owned();
        proof {
            lemma_seg_list_step(s@, i + 1);
            assert(segs_view(segs@.push(seg)) =~= segs_view(segs@) + seq![
                s@.subrange(i + 1, seg_end(s@, i + 1)),
            ]);
            assert((segs_view(segs@) + seq![s@.subrange(i + 1, seg_end(s@, i + 1))]) + seg_tail(
                s@,
                e2 as int,
            ) =~= segs_view(segs@) + (seq![s@.subrange(i + 1, seg_end(s@, i + 1))] + seg_tail(
                s@,
                e2 as int,
            )));
        }
        segs.push(seg);
        i = e2;
    }
    (segs, i)
}

/// Character-wise string equality, stated over the views.
fn str_eq(a: &str, b: &str) -> (r: bool)
    ensures
        r == (a@ == b@),
{
    let n: usize = a.unicode_len();
    if n != b.unicode_len() {
        return false;
    }
    let mut i: usize = 0;
    while i < n
        invariant
            i <= n,
            n as int == a@.len(),
            n as int == b@.len(),
            forall|j: int| 0 <= j < i ==> a@[j] == b@[j],
        decreases n - i,
    {
        if a.get_char(i) != b.get_char(i) {
            return false;
        }
        i = i + 1;
    }
    proof {
        assert(a@ =~= b@);
    }
    true
}

/// Last-write-wins lookup of `name` in a key/value list.
fn lookup_pair(ps: &Vec<(String, String)>, name: &str) -> (r: Option<String>)
    ensures
        opt_string_view(r) == lookup_last(pairs_view(ps@), name@),
{
    let mut i: usize = ps.len();
    proof {
        assert(pairs_view(ps@).take(i as int) =~= pairs_view(ps@));
    }
    while i > 0
        invariant
            i <= ps.len(),
            lookup_last(pairs_view(ps@), name@) == lookup_last(
                pairs_view(ps@).take(i as int),
                name@,
            ),
        decreases i,
    {
        let idx: usize = i - 1;
        let hit: bool = str_eq(ps[idx].0.as_str(), name);
        proof {
            assert(pairs_view(ps@).take(i as int).last() == (ps@[idx as int].0@, ps@[
                idx as int
            ].1@));
            assert(pairs_view(ps@).take(i as int).drop_last() =~= pairs_view(ps@).take(
                idx as int,
            ));
        }
        if hit {
            return Some(ps[idx].1.clone());
        }
        i = idx;
    }
    proof {
        assert(pairs_view(ps@).take(0) =~= Seq::<(Seq<char>, Seq<char>)>::empty());
    }
    None
}

impl Did {
    /// Parses a DID or DID URL. Returns the parsed container exactly when
    /// the whole input matches the grammar, and the error that the
    /// specification-level parser assigns otherwise.
    pub fn parse(value: &str) -> (r: Result<Did, ParseError>)
        ensures
            (r matches Ok(d) ==> spec_parse(value@) == Ok::<DidView, ParseError>(d@)),
            (r matches Err(e) ==> spec_parse(value@) == Err::<DidView, ParseError>(e)),
    {
        let n: usize = value.unicode_len();
        if n < 4 {
            return Err(ParseError::MalformedDid);
        }
        if value.get_char(0) != 'd' || value.get_char(1) != 'i' || value.get_char(2) != 'd'
            || value.get_char(3) != ':' {
            return Err(ParseError::MalformedDid);
        }
        if n == 4 {
            return Err(ParseError::MissingMethodName);
        }
        if value.get_char(4) == ':' {
            return Err(ParseError::MissingMethodName);
        }
        let me: usize = scan_class(value, 4, CharClass::MethodName);
        if me == n {
            return Err(ParseError::MalformedDid);
        }
        if value.get_char(me) != ':' {
            return Err(ParseError::MalformedDid);
        }
        if me + 1 == n {
            return Err(ParseError::MissingIdentifier);
        }
        let ie: usize = scan_class(value, me + 1, CharClass::Identifier);
        let method: String = value.substring_char(4, me).to_owned();
        let id: String = value.substring_char(me + 1, ie).to_owned();
        let mut p: usize = ie;
        let mut method_params: Option<Vec<(String, String)>> = None;
        if p < n && value.get_char(p) == ';' {
            match parse_pairs(value, p + 1, ';') {
                Ok((ps, j)) => {
                    method_params = Some(ps);
                    p = j;
                }
                Err(e) => {
                    return Err(e);
                }
            }
        }
        let mut path: Option<Vec<String>> = None;
        if p < n && value.get_char(p) == '/' {
            let (ss, j) = parse_segments(value, p + 1);
            path = Some(ss);
            p = j;
        }
        let mut query: Option<Vec<(String, String)>> = None;
        if p < n && value.get_char(p) == '?' {
            match parse_pairs(value, p + 1, '&') {
                Ok((ps, j)) => {
                    query = Some(ps);
                    p = j;
                }
                Err(e) => {
                    return Err(e);
                }
            }
        }
        let mut frag: Option<String> = None;
        if p < n && value.get_char(p) == '#' {
            let fe: usize = scan_class(value, p + 1, CharClass::Fragment);
            frag = Some(value.substring_char(p + 1, fe).to_owned());
            p = fe;
        }
        if p != n {
            return Err(ParseError::TrailingInput);
        }
        let d = Did { method, id, method_params, path, query, frag };
        proof {
            assert(spec_parse(value@) == Ok::<DidView, ParseError>(d@));
        }
        Ok(d)
    }

    /// Recognizes a structurally correct bare DID: the `did:method:id` form
    /// with nothing after it. Equivalently (and stated as such): the inputs
    /// on which `parse` succeeds without finding any method parameters,
    /// path, query or fragment.
    pub fn is_valid_base_did(value: &str) -> (b: bool)
        ensures
            b == spec_is_base_did(value@),
            b == (spec_parse(value@) matches Ok(d) && d.method_params is None && d.path is None
                && d.query is None && d.frag is None),
    {
        proof {
            lemma_base_did_iff_plain_parse(value@);
        }
        let n: usize = value.unicode_len();
        if n < 4 {
            return false;
        }
        if value.get_char(0) != 'd' || value.get_char(1) != 'i' || value.get_char(2) != 'd'
            || value.get_char(3) != ':' {
            return false;
        }
        if n == 4 {
            return false;
        }
        if value.get_char(4) == ':' {
            return false;
        }
        let me: usize = scan_class(value, 4, CharClass::MethodName);
        if me == n {
            return false;
        }
        if value.get_char(me) != ':' {
            return false;
        }
        if me + 1 == n {
            return false;
        }
        let ie: usize = scan_class(value, me + 1, CharClass::Identifier);
        ie == n
    }

    /// Value of the method parameter `name`; on duplicate keys the last
    /// pair in the input wins, as in a map collected from the pairs.
    pub fn method_param(&self, name: &str) -> (r: Option<String>)
        ensures
            self.method_params is None ==> r is None,
            self.method_params matches Some(ps) ==> opt_string_view(r) == lookup_last(
                pairs_view(ps@),
                name@,
            ),
    {
        match &self.method_params {
            None => None,
            Some(ps) => lookup_pair(ps, name),
        }
    }

    /// Value of the query parameter `name`; on duplicate keys the last pair
    /// in the input wins.
    pub fn query_param(&self, name: &str) -> (r: Option<String>)
        ensures
            self.query is None ==> r is None,
            self.query matches Some(ps) ==> opt_string_view(r) == lookup_last(
                pairs_view(ps@),
                name@,
            ),
    {
        match &self.query {
            None => None,
            Some(ps) => lookup_pair(ps, name),
        }
    }
}

} // verus!
