//! Maximal-run scanning.
//!
//! Every production of the grammar consumes the longest run of characters
//! from one class. `run_end` is the specification of that cursor movement:
//! the index where the run starting at `i` stops. `scan_class` is the
//! verified executable scanner.

use crate::chars::{class_allows, class_allows_exec, CharClass};
use vstd::prelude::*;

verus! {

/// The end of the maximal run of class-`k` characters that starts at `i`:
/// the first index at or after `i` holding a character outside the class,
/// or `s.len()` when the run reaches the end of the input.
pub open spec fn run_end(s: Seq<char>, i: int, k: CharClass) -> int
    decreases s.len() - i
    when 0 <= i <= s.len()
{
    if i < s.len() && class_allows(k, s[i]) {
        run_end(s, i + 1, k)
    } else {
        i
    }
}

/// A maximal run stays within the input and never moves backwards.
pub proof fn lemma_run_end_bounds(s: Seq<char>, i: int, k: CharClass)
    requires
        0 <= i <= s.len(),
    ensures
        i <= run_end(s, i, k) <= s.len(),
    decreases s.len() - i,
{
    if i < s.len() && class_allows(k, s[i]) {
        lemma_run_end_bounds(s, i + 1, k);
    }
}

/// Every character inside the run belongs to the class, and the character
/// that ends the run (when there is one) does not.
pub proof fn lemma_run_end_chars(s: Seq<char>, i: int, k: CharClass)
    requires
        0 <= i <= s.len(),
    ensures
        forall|j: int| i <= j < run_end(s, i, k) ==> class_allows(k, s[j]),
        run_end(s, i, k) < s.len() ==> !class_allows(k, s[run_end(s, i, k)]),
    decreases s.len() - i,
{
    if i < s.len() && class_allows(k, s[i]) {
        lemma_run_end_chars(s, i + 1, k);
    }
}

/// The run end is the unique index `e` with only class characters before it
/// and a non-class character (or the end of the input) at it.
pub proof fn lemma_run_end_exact(s: Seq<char>, i: int, e: int, k: CharClass)
    requires
        0 <= i <= e <= s.len(),
        forall|j: int| i <= j < e ==> class_allows(k, s[j]),
        e < s.len() ==> !class_allows(k, s[e]),
    ensures
        run_end(s, i, k) == e,
    decreases e - i,
{
    if i < e {
        assert(class_allows(k, s[i]));
        lemma_run_end_exact(s, i + 1, e, k);
    }
}

/// Scans the maximal run of class-`k` characters starting at `from`.
pub fn scan_class(s: &str, from: usize, k: CharClass) -> (j: usize)
    requires
        from as int <= s@.len(),
    ensures
        j as int == run_end(s@, from as int, k),
        from <= j,
        j as int <= s@.len(),
{
    let n: usize = s.unicode_len();
    let mut j: usize = from;
    loop
        invariant
            from <= j <= n,
            n as int == s@.len(),
            run_end(s@, from as int, k) == run_end(s@, j as int, k),
        ensures
            from <= j <= n,
            j as int == run_end(s@, from as int, k),
        decreases n - j,
    {
        if j == n {
            break;
        }
        let c = s.get_char(j);
        if !class_allows_exec(k, c) {
            break;
        }
        j = j + 1;
    }
    j
}

} // verus!
