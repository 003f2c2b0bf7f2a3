//! The specification-level DID grammar.
//!
//! `spec_parse` is the normative statement of what parsing means: a total,
//! deterministic function from the input's characters to either the abstract
//! parsed value ([`DidView`]) or the error that the input earns. The
//! executable parser in [`crate::did`] is proved to return exactly
//! `spec_parse` of its input.

use crate::chars::CharClass;
use crate::scan::{lemma_run_end_bounds, run_end};
use vstd::prelude::*;

verus! {

/// Why an input failed to parse.
#[derive(Clone, Copy, Debug, PartialEq, Eq, Structural)]
pub enum ParseError {
    /// The input ends right after `did:`, or a `:` stands where the method
    /// name should begin.
    MissingMethodName,
    /// The input ends right after the `:` that closes the method name.
    MissingIdentifier,
    /// A `;` or `?` block was opened but no well-formed `name=value` pair
    /// follows it.
    MalformedKeyValue,
    /// All productions matched a prefix of the input, but characters the
    /// grammar does not license at that position remain.
    TrailingInput,
    /// The input lacks the `did:` scheme, or the method name is not closed
    /// by a `:`.
    MalformedDid,
}

/// The abstract value of a parsed DID URL: each component as the run of
/// characters it was read from, with absent optional blocks kept distinct
/// from present-but-empty ones.
#[verifier::ext_equal]
pub ghost struct DidView {
    pub method: Seq<char>,
    pub id: Seq<char>,
    pub method_params: Option<Seq<(Seq<char>, Seq<char>)>>,
    pub path: Option<Seq<Seq<char>>>,
    pub query: Option<Seq<(Seq<char>, Seq<char>)>>,
    pub frag: Option<Seq<char>>,
}

/// The input starts with the scheme literal `did:`.
pub open spec fn has_did_prefix(s: Seq<char>) -> bool {
    s.len() >= 4 && s[0] == 'd' && s[1] == 'i' && s[2] == 'd' && s[3] == ':'
}

/// Where the method name's run, starting right after `did:`, stops.
pub open spec fn method_end(s: Seq<char>) -> int {
    run_end(s, 4, CharClass::MethodName)
}

/// The first index of the method-specific identifier, past the second `:`.
pub open spec fn id_start(s: Seq<char>) -> int {
    method_end(s) + 1
}

/// Where the identifier's run stops.
pub open spec fn id_end(s: Seq<char>) -> int {
    run_end(s, id_start(s), CharClass::Identifier)
}

/// Where the key of a `name=value` pair starting at `i` stops.
pub open spec fn pair_key_end(s: Seq<char>, i: int) -> int {
    run_end(s, i, CharClass::Param)
}

/// A pair is well-formed at `i` when the mandatory `=` follows the
/// (possibly empty) key run.
pub open spec fn pair_ok(s: Seq<char>, i: int) -> bool {
    pair_key_end(s, i) < s.len() && s[pair_key_end(s, i)] == '='
}

/// Where the pair starting at `i` stops: the end of the value run.
pub open spec fn pair_end(s: Seq<char>, i: int) -> int {
    run_end(s, pair_key_end(s, i) + 1, CharClass::Param)
}

/// The key and value of the pair starting at `i`.
pub open spec fn pair_at(s: Seq<char>, i: int) -> (Seq<char>, Seq<char>) {
    (
        s.subrange(i, pair_key_end(s, i)),
        s.subrange(pair_key_end(s, i) + 1, pair_end(s, i)),
    )
}

/// Another pair follows when the separator stands right after the previous
/// pair and a well-formed pair follows the separator. A separator whose pair
/// is malformed is left unconsumed for the next production to reject.
pub open spec fn pairs_continue(s: Seq<char>, e: int, sep: char) -> bool {
    e < s.len() && s[e] == sep && pair_ok(s, e + 1)
}

/// Where the `sep`-separated pair list starting at `i` stops.
pub open spec fn pair_list_end(s: Seq<char>, i: int, sep: char) -> int
    decreases s.len() - i
    when 0 <= i <= s.len()
    via pair_list_end_dec
{
    let e: int = pair_end(s, i);
    if pair_ok(s, i) && pairs_continue(s, e, sep) {
        pair_list_end(s, e + 1, sep)
    } else {
        e
    }
}

#[via_fn]
proof fn pair_list_end_dec(s: Seq<char>, i: int, sep: char) {
    lemma_run_end_bounds(s, i, CharClass::Param);
    if pair_key_end(s, i) < s.len() {
        lemma_run_end_bounds(s, pair_key_end(s, i) + 1, CharClass::Param);
    }
}

/// The pairs of the `sep`-separated list starting at `i`, in input order.
pub open spec fn pair_list(s: Seq<char>, i: int, sep: char) -> Seq<(Seq<char>, Seq<char>)>
    decreases s.len() - i
    when 0 <= i <= s.len()
    via pair_list_dec
{
    let e: int = pair_end(s, i);
    if pair_ok(s, i) && pairs_continue(s, e, sep) {
        seq![pair_at(s, i)] + pair_list(s, e + 1, sep)
    } else {
        seq![pair_at(s, i)]
    }
}

#[via_fn]
proof fn pair_list_dec(s: Seq<char>, i: int, sep: char) {
    lemma_run_end_bounds(s, i, CharClass::Param);
    if pair_key_end(s, i) < s.len() {
        lemma_run_end_bounds(s, pair_key_end(s, i) + 1, CharClass::Param);
    }
}

/// Where the path segment starting at `i` stops.
pub open spec fn seg_end(s: Seq<char>, i: int) -> int {
    run_end(s, i, CharClass::PathSegment)
}

/// Another segment follows when a `/` stands right after the previous one.
pub open spec fn segs_continue(s: Seq<char>, e: int) -> bool {
    e < s.len() && s[e] == '/'
}

/// Where the segment list starting at `i` stops.
pub open spec fn seg_list_end(s: Seq<char>, i: int) -> int
    decreases s.len() - i
    when 0 <= i <= s.len()
    via seg_list_end_dec
{
    let e: int = seg_end(s, i);
    if segs_continue(s, e) {
        seg_list_end(s, e + 1)
    } else {
        e
    }
}

#[via_fn]
proof fn seg_list_end_dec(s: Seq<char>, i: int) {
    lemma_run_end_bounds(s, i, CharClass::PathSegment);
}

/// The segments of the path starting at `i`, in order; empty segments from
/// consecutive separators are preserved, not collapsed.
pub open spec fn seg_list(s: Seq<char>, i: int) -> Seq<Seq<char>>
    decreases s.len() - i
    when 0 <= i <= s.len()
    via seg_list_dec
{
    let e: int = seg_end(s, i);
    if segs_continue(s, e) {
        seq![s.subrange(i, e)] + seg_list(s, e + 1)
    } else {
        seq![s.subrange(i, e)]
    }
}

#[via_fn]
proof fn seg_list_dec(s: Seq<char>, i: int) {
    lemma_run_end_bounds(s, i, CharClass::PathSegment);
}

/// Where the fragment's run, starting right after `#` at `i`, stops.
pub open spec fn frag_end(s: Seq<char>, i: int) -> int {
    run_end(s, i, CharClass::Fragment)
}

/// The optional method-parameter block at `i`: absent without its `;`
/// trigger; a `;` not followed by a well-formed pair is an error, never
/// silently absent.
pub open spec fn params_step(s: Seq<char>, i: int) -> Result<
    (Option<Seq<(Seq<char>, Seq<char>)>>, int),
    ParseError,
> {
    if i < s.len() && s[i] == ';' {
        if pair_ok(s, i + 1) {
            Ok((Some(pair_list(s, i + 1, ';')), pair_list_end(s, i + 1, ';')))
        } else {
            Err(ParseError::MalformedKeyValue)
        }
    } else {
        Ok((None, i))
    }
}

/// The optional path block at `i`: absent without its `/` trigger.
pub open spec fn path_step(s: Seq<char>, i: int) -> (Option<Seq<Seq<char>>>, int) {
    if i < s.len() && s[i] == '/' {
        (Some(seg_list(s, i + 1)), seg_list_end(s, i + 1))
    } else {
        (None, i)
    }
}

/// The optional query block at `i`: absent without its `?` trigger; a `?`
/// not followed by a well-formed pair is an error.
pub open spec fn query_step(s: Seq<char>, i: int) -> Result<
    (Option<Seq<(Seq<char>, Seq<char>)>>, int),
    ParseError,
> {
    if i < s.len() && s[i] == '?' {
        if pair_ok(s, i + 1) {
            Ok((Some(pair_list(s, i + 1, '&')), pair_list_end(s, i + 1, '&')))
        } else {
            Err(ParseError::MalformedKeyValue)
        }
    } else {
        Ok((None, i))
    }
}

/// The optional fragment at `i`: absent without its `#` trigger.
pub open spec fn frag_step(s: Seq<char>, i: int) -> (Option<Seq<char>>, int) {
    if i < s.len() && s[i] == '#' {
        (Some(s.subrange(i + 1, frag_end(s, i + 1))), frag_end(s, i + 1))
    } else {
        (None, i)
    }
}

/// The optional URL suffix after the identifier: parameters, then path, then
/// query, then fragment, each tried once in that fixed order with no
/// backtracking, followed by the demand that nothing of the input remains.
pub open spec fn spec_parse_url(s: Seq<char>) -> Result<DidView, ParseError> {
    match params_step(s, id_end(s)) {
        Err(e) => Err(e),
        Ok((mp, i1)) => {
            let (pa, i2) = path_step(s, i1);
            match query_step(s, i2) {
                Err(e) => Err(e),
                Ok((q, i3)) => {
                    let (fr, i4) = frag_step(s, i3);
                    if i4 == s.len() {
                        Ok(
                            DidView {
                                method: s.subrange(4, method_end(s)),
                                id: s.subrange(id_start(s), id_end(s)),
                                method_params: mp,
                                path: pa,
                                query: q,
                                frag: fr,
                            },
                        )
                    } else {
                        Err(ParseError::TrailingInput)
                    }
                }
            }
        }
    }
}

/// What parsing an input means: the scheme literal, the method name closed
/// by `:`, the identifier run, then the optional URL suffix, consuming the
/// whole input. Total and deterministic: every input is mapped to exactly
/// one parsed value or error.
pub open spec fn spec_parse(s: Seq<char>) -> Result<DidView, ParseError> {
    if !has_did_prefix(s) {
        Err(ParseError::MalformedDid)
    } else if s.len() == 4 || s[4] == ':' {
        Err(ParseError::MissingMethodName)
    } else if !(method_end(s) < s.len() && s[method_end(s)] == ':') {
        Err(ParseError::MalformedDid)
    } else if id_start(s) == s.len() {
        Err(ParseError::MissingIdentifier)
    } else {
        spec_parse_url(s)
    }
}

/// A bare DID: the mandatory `did:method:id` productions consume the whole
/// input, with a non-empty input at the identifier position.
pub open spec fn spec_is_base_did(s: Seq<char>) -> bool {
    has_did_prefix(s) && s.len() > 4 && s[4] != ':' && method_end(s) < s.len() && s[method_end(s)]
        == ':' && id_start(s) < s.len() && id_end(s) == s.len()
}

/// Last-write-wins lookup in a key/value list: the value of the last pair
/// whose key is `key`, matching a map built from the pairs in order where a
/// later pair overwrites an earlier one.
pub open spec fn lookup_last(ps: Seq<(Seq<char>, Seq<char>)>, key: Seq<char>) -> Option<Seq<char>>
    decreases ps.len(),
{
    if ps.len() == 0 {
        None
    } else if ps.last().0 == key {
        Some(ps.last().1)
    } else {
        lookup_last(ps.drop_last(), key)
    }
}

} // verus!
