//! Proved laws of the grammar.
//!
//! Each proof function here states a property of [`spec_parse`] that holds
//! for whole families of inputs; together with the contracts of
//! [`crate::did::Did::parse`] and [`crate::did::Did::is_valid_base_did`]
//! they carry over to the executable parser.

use crate::chars::{class_allows, is_id_char, is_method_char, is_upper_alpha, CharClass};
use crate::grammar::{
    has_did_prefix, method_end, spec_is_base_did, spec_parse, DidView, ParseError,
};
use crate::scan::{lemma_run_end_bounds, lemma_run_end_chars, lemma_run_end_exact};
use vstd::prelude::*;

verus! {

/// An input is a bare DID exactly when parsing succeeds and finds none of
/// the optional URL components: no method parameters, path, query or
/// fragment.
pub proof fn lemma_base_did_iff_plain_parse(s: Seq<char>)
    ensures
        spec_is_base_did(s) <==> (spec_parse(s) matches Ok(d) && d.method_params is None
            && d.path is None && d.query is None && d.frag is None),
{
    if has_did_prefix(s) && s.len() > 4 && s[4] != ':' {
        lemma_run_end_bounds(s, 4, CharClass::MethodName);
        let me: int = method_end(s);
        if me < s.len() && s[me] == ':' {
            lemma_run_end_bounds(s, me + 1, CharClass::Identifier);
        }
    }
}

/// Every bare DID `did:<method>:<id>` with a non-empty method name of
/// lower-case letters and digits and a non-empty identifier of `idchar`s
/// parses successfully into exactly those two components, with every
/// optional component absent.
pub proof fn lemma_parse_bare_did(s: Seq<char>, m: Seq<char>, id: Seq<char>)
    requires
        s == "did:"@ + m + ":"@ + id,
        m.len() > 0,
        id.len() > 0,
        forall|j: int| 0 <= j < m.len() ==> is_method_char(#[trigger] m[j]),
        forall|j: int| 0 <= j < id.len() ==> is_id_char(#[trigger] id[j]),
    ensures
        spec_parse(s) == Ok::<DidView, ParseError>(
            DidView {
                method: m,
                id: id,
                method_params: None,
                path: None,
                query: None,
                frag: None,
            },
        ),
{
    reveal_strlit("did:");
    reveal_strlit(":");
    assert(s.len() == 5 + m.len() + id.len());
    assert(s[0] == 'd' && s[1] == 'i' && s[2] == 'd' && s[3] == ':');
    let me0: int = 4 + m.len() as int;
    assert forall|j: int| 4 <= j < me0 implies class_allows(CharClass::MethodName, s[j]) by {
        assert(s[j] == m[j - 4]);
        assert(is_method_char(m[j - 4]));
    };
    assert(s[me0] == ':');
    assert(':' as u32 == 58);
    assert(!class_allows(CharClass::MethodName, s[me0]));
    lemma_run_end_exact(s, 4, me0, CharClass::MethodName);
    assert(s[4] == m[0]);
    assert(is_method_char(m[0]));
    assert(s[4] != ':');
    let i0: int = me0 + 1;
    assert forall|j: int| i0 <= j < s.len() implies class_allows(
        CharClass::Identifier,
        s[j],
    ) by {
        assert(s[j] == id[j - i0]);
        assert(is_id_char(id[j - i0]));
    };
    lemma_run_end_exact(s, i0, s.len() as int, CharClass::Identifier);
    assert(s.subrange(4, me0) =~= m);
    assert(s.subrange(i0, s.len() as int) =~= id);
}

/// Every successful parse yields a non-empty method name drawn from the
/// method-name class and an identifier drawn from the `idchar` class; the
/// two mandatory components are always present and well-formed.
pub proof fn lemma_parsed_components_well_formed(s: Seq<char>)
    ensures
        spec_parse(s) matches Ok(d) ==> d.method.len() > 0 && (forall|j: int|
            0 <= j < d.method.len() ==> is_method_char(#[trigger] d.method[j])) && (forall|j: int|
            0 <= j < d.id.len() ==> is_id_char(#[trigger] d.id[j])),
{
    if spec_parse(s) is Ok {
        lemma_run_end_bounds(s, 4, CharClass::MethodName);
        lemma_run_end_chars(s, 4, CharClass::MethodName);
        let me: int = method_end(s);
        lemma_run_end_bounds(s, me + 1, CharClass::Identifier);
        lemma_run_end_chars(s, me + 1, CharClass::Identifier);
        assert(me > 4) by {
            if me == 4 {
                assert(s[4] == ':');
            }
        };
    }
}

/// Parsing fails for every input that does not start with the scheme
/// literal `did:`.
pub proof fn lemma_non_did_prefix_fails(s: Seq<char>)
    requires
        s.len() < 4 || s.subrange(0, 4) != "did:"@,
    ensures
        spec_parse(s) is Err,
{
    reveal_strlit("did:");
    if s.len() >= 4 && has_did_prefix(s) {
        assert(s.subrange(0, 4) =~= "did:"@);
    }
}

/// A method name that contains an upper-case letter makes parsing fail: the
/// method-name run stops before the upper-case letter, and the character
/// found there is not the `:` the grammar demands.
pub proof fn lemma_upper_case_method_fails(s: Seq<char>, m: Seq<char>, rest: Seq<char>)
    requires
        s == "did:"@ + m + ":"@ + rest,
        forall|j: int| 0 <= j < m.len() ==> #[trigger] m[j] != ':',
        exists|j: int| 0 <= j < m.len() && is_upper_alpha(#[trigger] m[j]),
    ensures
        spec_parse(s) is Err,
{
    reveal_strlit("did:");
    reveal_strlit(":");
    let u: int = choose|j: int| 0 <= j < m.len() && is_upper_alpha(m[j]);
    assert(m.len() > 0);
    assert(s.len() == 5 + m.len() + rest.len());
    assert(s[0] == 'd' && s[1] == 'i' && s[2] == 'd' && s[3] == ':');
    assert(s[4] == m[0]);
    assert(s[4] != ':');
    lemma_run_end_bounds(s, 4, CharClass::MethodName);
    lemma_run_end_chars(s, 4, CharClass::MethodName);
    let me: int = method_end(s);
    assert(s[4 + u] == m[u]);
    assert(!class_allows(CharClass::MethodName, s[4 + u]));
    assert(me <= 4 + u) by {
        if me > 4 + u {
            assert(class_allows(CharClass::MethodName, s[4 + u]));
        }
    };
    assert(me < s.len());
    if s[me] == ':' {
        assert(s[me] == m[me - 4]);
        assert(m[me - 4] != ':');
    }
}

} // verus!
