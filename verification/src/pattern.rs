//! Glob patterns over location paths, compiled and matched by the `glob`
//! crate.

use crate::text::{chars_of, contains_char};
use vstd::prelude::*;

verus! {

/// Whether `glob::Pattern::new` accepts `pattern`.
pub uninterp spec fn glob_compiles(pattern: Seq<char>) -> bool;

/// Whether `pattern`, once compiled, matches the whole of `text` under the
/// default match options of `glob`.
pub uninterp spec fn glob_matches(pattern: Seq<char>, text: Seq<char>) -> bool;

/// A text without a backslash.
///
/// `glob` treats path separators apart from other characters, in `**` and
/// when it compares two of them, and takes them from std, where they depend
/// on the target: `/` on Unix, `/` and `\` on Windows. A text without a
/// backslash holds the same separators on both, so that patterns and texts
/// without one are compiled and matched alike on both.
pub open spec fn is_portable(s: Seq<char>) -> bool {
    !s.contains('\\')
}

/// A pattern that this library matches with: it holds no backslash and
/// compiles.
pub open spec fn usable_pattern(pattern: Seq<char>) -> bool {
    is_portable(pattern) && glob_compiles(pattern)
}

/// Some pattern of `patterns` matches `text`, or there is no pattern at all.
pub open spec fn accepted_by(patterns: Seq<Seq<char>>, text: Seq<char>) -> bool {
    patterns.len() == 0 || exists|i: int|
        0 <= i < patterns.len() && #[trigger] glob_matches(patterns[i], text)
}

/// Calls `glob::Pattern::new` and tells whether it returned a pattern.
///
/// Trusted: for a pattern without a backslash the answer is the one that
/// `glob_compiles` names. Nothing is claimed for other patterns.
#[verifier::external_body]
fn glob_compile_check(pattern: &str) -> (ok: bool)
    ensures
        is_portable(pattern@) ==> ok == glob_compiles(pattern@),
{
    glob::Pattern::new(pattern).is_ok()
}

/// Compiles `pattern` with `glob::Pattern::new` and calls
/// `glob::Pattern::matches` on `text`; a pattern that does not compile
/// matches nothing.
///
/// Trusted: for a usable pattern and a text without a backslash the answer
/// is the one that `glob_matches` names. Nothing is claimed otherwise.
#[verifier::external_body]
pub(crate) fn glob_match(pattern: &str, text: &str) -> (hit: bool)
    ensures
        usable_pattern(pattern@) && is_portable(text@) ==> hit == glob_matches(pattern@, text@),
{
    match glob::Pattern::new(pattern) {
        Ok(compiled) => compiled.matches(text),
        Err(_) => false,
    }
}

/// Tells whether `text` holds no backslash.
pub fn check_portable(text: &str) -> (ok: bool)
    ensures
        ok == is_portable(text@),
{
    let chars = chars_of(text);
    !contains_char(&chars, '\\')
}

/// Tells whether `pattern` can be matched with.
pub fn check_pattern(pattern: &str) -> (ok: bool)
    ensures
        ok == usable_pattern(pattern@),
{
    check_portable(pattern) && glob_compile_check(pattern)
}

/// Matches `text` against `pattern`, where the pattern can be matched with.
pub fn try_match(pattern: &str, text: &str) -> (hit: Option<bool>)
    ensures
        hit is Some <==> usable_pattern(pattern@) && is_portable(text@),
        hit matches Some(h) ==> h == glob_matches(pattern@, text@),
{
    if check_pattern(pattern) && check_portable(text) {
        Some(glob_match(pattern, text))
    } else {
        None
    }
}

} // verus!
