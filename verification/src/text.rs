//! Character-level helpers for the strings that the pipelines handle.

use vstd::prelude::*;
use vstd::string::*;
use vstd::utf8::*;

verus! {

/// `suffix` stands at the end of `s`.
pub open spec fn ends_with(s: Seq<char>, suffix: Seq<char>) -> bool {
    suffix.len() <= s.len() && s.subrange(s.len() - suffix.len(), s.len() as int) == suffix
}

/// `prefix` stands at the start of `s`.
pub open spec fn starts_with(s: Seq<char>, prefix: Seq<char>) -> bool {
    prefix.len() <= s.len() && s.subrange(0, prefix.len() as int) == prefix
}

/// The position of the last `c` in `s`, or -1 where `s` holds none.
pub open spec fn last_index_of(s: Seq<char>, c: char) -> int
    decreases s.len(),
{
    if s.len() == 0 {
        -1
    } else if s.last() == c {
        s.len() - 1
    } else {
        last_index_of(s.drop_last(), c)
    }
}

/// `last_index_of` is the one position that holds `c` and has no `c` behind
/// it, and it is -1 exactly where there is no `c` at all.
pub proof fn lemma_last_index_of(s: Seq<char>, c: char)
    ensures
        -1 <= last_index_of(s, c) < s.len(),
        last_index_of(s, c) >= 0 ==> s[last_index_of(s, c)] == c,
        forall|j: int| last_index_of(s, c) < j < s.len() ==> s[j] != c,
    decreases s.len(),
{
    if s.len() > 0 && s.last() != c {
        let front = s.drop_last();
        lemma_last_index_of(front, c);
        assert forall|j: int| last_index_of(s, c) < j < s.len() implies s[j] != c by {
            if j < front.len() {
                assert(front[j] == s[j]);
            }
        }
    }
}

/// A position with no `c` behind it, which holds `c` or is -1, is the last
/// index of `c`.
pub proof fn lemma_last_index_is(s: Seq<char>, c: char, k: int)
    requires
        -1 <= k < s.len(),
        k >= 0 ==> s[k] == c,
        forall|j: int| k < j < s.len() ==> s[j] != c,
    ensures
        last_index_of(s, c) == k,
{
    lemma_last_index_of(s, c);
}

/// The texts of `items`, in their order.
pub open spec fn texts(items: Seq<String>) -> Seq<Seq<char>> {
    Seq::new(items.len(), |i: int| items[i]@)
}

/// A copy of `items`.
pub(crate) fn clone_strings(items: &Vec<String>) -> (copy: Vec<String>)
    ensures
        texts(copy@) == texts(items@),
{
    let mut copy: Vec<String> = Vec::new();
    let mut i: usize = 0;
    while i < items.len()
        invariant
            i <= items.len(),
            copy.len() == i,
            forall|j: int| 0 <= j < i ==> copy@[j]@ == items@[j]@,
        decreases items.len() - i,
    {
        copy.push(items[i].clone());
        i += 1;
    }
    assert(texts(copy@) =~= texts(items@));
    copy
}

/// The characters of `s`, one element each.
pub(crate) fn chars_of(s: &str) -> (chars: Vec<char>)
    ensures
        chars@ == s@,
{
    broadcast use vstd::string::group_string_axioms;

    let mut chars: Vec<char> = Vec::new();
    for c in it: s.chars()
        invariant
            it.seq() == s@,
            chars@ == s@.take(it.index() as int),
    {
        chars.push(c);
    }
    chars
}

/// Tells whether `c` occurs in `chars`.
pub(crate) fn contains_char(chars: &Vec<char>, c: char) -> (found: bool)
    ensures
        found == chars@.contains(c),
{
    let mut i: usize = 0;
    while i < chars.len()
        invariant
            i <= chars.len(),
            forall|j: int| 0 <= j < i ==> chars@[j] != c,
        decreases chars.len() - i,
    {
        if chars[i] == c {
            return true;
        }
        i += 1;
    }
    false
}

/// Finds the last `c` in `chars`.
pub(crate) fn find_last(chars: &Vec<char>, c: char) -> (found: Option<usize>)
    ensures
        match found {
            Some(k) => k as int == last_index_of(chars@, c),
            None => last_index_of(chars@, c) == -1,
        },
{
    let mut i: usize = chars.len();
    while i > 0
        invariant
            i <= chars.len(),
            forall|j: int| i <= j < chars.len() ==> chars@[j] != c,
        decreases i,
    {
        if chars[i - 1] == c {
            proof {
                lemma_last_index_is(chars@, c, i - 1);
            }
            return Some(i - 1);
        }
        i -= 1;
    }
    proof {
        lemma_last_index_is(chars@, c, -1);
    }
    None
}

/// Tells whether `chars` ends with `suffix`.
pub(crate) fn has_suffix(chars: &Vec<char>, suffix: &Vec<char>) -> (yes: bool)
    ensures
        yes == ends_with(chars@, suffix@),
{
    if suffix.len() > chars.len() {
        return false;
    }
    let start: usize = chars.len() - suffix.len();
    let ghost tail = chars@.subrange(start as int, chars@.len() as int);
    let mut i: usize = 0;
    while i < suffix.len()
        invariant
            i <= suffix.len(),
            start + suffix.len() == chars.len(),
            tail == chars@.subrange(start as int, chars@.len() as int),
            forall|j: int| 0 <= j < i ==> tail[j] == suffix@[j],
        decreases suffix.len() - i,
    {
        if chars[start + i] != suffix[i] {
            assert(tail[i as int] != suffix@[i as int]);
            return false;
        }
        i += 1;
    }
    assert(tail =~= suffix@);
    true
}

/// Tells whether `chars` starts with `prefix`.
pub(crate) fn has_prefix(chars: &Vec<char>, prefix: &Vec<char>) -> (yes: bool)
    ensures
        yes == starts_with(chars@, prefix@),
{
    if prefix.len() > chars.len() {
        return false;
    }
    let ghost head = chars@.subrange(0, prefix@.len() as int);
    let mut i: usize = 0;
    while i < prefix.len()
        invariant
            i <= prefix.len() <= chars.len(),
            head == chars@.subrange(0, prefix@.len() as int),
            forall|j: int| 0 <= j < i ==> head[j] == prefix@[j],
        decreases prefix.len() - i,
    {
        if chars[i] != prefix[i] {
            assert(head[i as int] != prefix@[i as int]);
            return false;
        }
        i += 1;
    }
    assert(head =~= prefix@);
    true
}

/// The number of bytes of a debug value that are shown before it is cut.
pub const ELLIPSIS_LIMIT: usize = 30;

/// The text that marks a cut value.
pub open spec fn ellipsis_mark() -> Seq<char> {
    seq!['.', '.', '.']
}

/// What `ellipsis_text` shows for `text`: the text itself while its UTF-8
/// encoding is at most 30 bytes long, else the characters encoded by its
/// first 30 bytes followed by three dots.
pub open spec fn ellipsis_of(text: Seq<char>) -> Seq<char> {
    if encode_utf8(text).len() > ELLIPSIS_LIMIT {
        decode_utf8(encode_utf8(text).subrange(0, ELLIPSIS_LIMIT as int)) + ellipsis_mark()
    } else {
        text
    }
}

/// Shortens a long text for display.
///
/// The cut is made after 30 bytes, so byte 30 has to be the start of a
/// character whenever the text is longer than that.
pub fn ellipsis_text(text: String) -> (shown: String)
    requires
        encode_utf8(text@).len() > ELLIPSIS_LIMIT ==> is_char_boundary(
            encode_utf8(text@),
            ELLIPSIS_LIMIT as int,
        ),
    ensures
        shown@ == ellipsis_of(text@),
{
    if text.as_str().as_bytes().len() > ELLIPSIS_LIMIT {
        let (head, _) = text.as_str().split_at(ELLIPSIS_LIMIT);
        proof {
            reveal_strlit("...");
            encode_utf8_decode_utf8(head@);
            assert("..."@ =~= ellipsis_mark());
        }
        String::from_str(head).concat("...")
    } else {
        text
    }
}

} // verus!
