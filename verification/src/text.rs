//! Text helpers over the characters of a string.

use vstd::prelude::*;
use vstd::string::*;

verus! {

/// Appends one character.
///
/// This is `String::push`, of the standard library.
#[verifier::external_body]
pub(crate) fn push_char(text: &mut String, c: char)
    ensures
        final(text)@ == old(text)@.push(c),
{
    text.push(c);
}

/// The lowercase form of a text, as the standard library computes it from the
/// Unicode tables. It depends on the text alone.
pub uninterp spec fn lowercase(text: Seq<char>) -> Seq<char>;

/// The lowercase form of a text.
///
/// This is `str::to_lowercase`, of the standard library.
#[verifier::external_body]
pub(crate) fn to_lowercase(text: &str) -> (lowered: String)
    ensures
        lowered@ == lowercase(text@),
{
    text.to_lowercase()
}

/// The characters of `s`, in order.
pub fn chars_of(s: &str) -> (chars: Vec<char>)
    ensures
        chars@ == s@,
{
    let mut chars: Vec<char> = Vec::new();
    for c in it: s.chars()
        invariant
            chars@ == it.seq().take(it.index() as int),
            it.seq() == s@,
    {
        chars.push(c);
    }
    chars
}

/// The string of the given characters.
pub fn string_of(chars: &Vec<char>) -> (text: String)
    ensures
        text@ == chars@,
{
    let mut text = String::new();
    let mut i: usize = 0;
    while i < chars.len()
        invariant
            i <= chars.len(),
            text@ == chars@.take(i as int),
        decreases chars.len() - i,
    {
        push_char(&mut text, chars[i]);
        proof {
            assert(chars@.take(i as int).push(chars@[i as int]) =~= chars@.take(i + 1));
        }
        i += 1;
    }
    proof {
        assert(chars@.take(chars.len() as int) =~= chars@);
    }
    text
}

/// `text` ends with `suffix`.
pub open spec fn has_suffix(text: Seq<char>, suffix: Seq<char>) -> bool {
    suffix.len() <= text.len() && text.subrange(text.len() - suffix.len(), text.len() as int)
        == suffix
}

/// Whether `text` ends with `suffix`.
pub fn ends_with(text: &Vec<char>, suffix: &str) -> (found: bool)
    ensures
        found == has_suffix(text@, suffix@),
{
    let tail = chars_of(suffix);
    if tail.len() > text.len() {
        return false;
    }
    let offset = text.len() - tail.len();
    let ghost end = text@.subrange(offset as int, text.len() as int);
    let mut i: usize = 0;
    while i < tail.len()
        invariant
            i <= tail.len(),
            tail@ == suffix@,
            offset + tail.len() == text.len(),
            end == text@.subrange(offset as int, text.len() as int),
            forall|k: int| 0 <= k < i ==> end[k] == tail@[k],
        decreases tail.len() - i,
    {
        if text[offset + i] != tail[i] {
            proof {
                assert(end[i as int] != tail@[i as int]);
            }
            return false;
        }
        i += 1;
    }
    proof {
        assert(end =~= tail@);
    }
    true
}

/// Whether the character occurs in the text.
pub fn contains_char(text: &str, c: char) -> (found: bool)
    ensures
        found == text@.contains(c),
{
    let chars = chars_of(text);
    let mut i: usize = 0;
    while i < chars.len()
        invariant
            i <= chars.len(),
            chars@ == text@,
            forall|k: int| 0 <= k < i ==> chars@[k] != c,
        decreases chars.len() - i,
    {
        if chars[i] == c {
            proof {
                assert(chars@[i as int] == c);
            }
            return true;
        }
        i += 1;
    }
    false
}

/// Where the part of `text` after the last `separator` begins: behind the
/// last separator, or at 0 where there is none.
pub open spec fn last_part_start(text: Seq<char>, separator: char) -> int
    decreases text.len(),
{
    if text.len() == 0 {
        0
    } else if text.last() == separator {
        text.len() as int
    } else {
        last_part_start(text.drop_last(), separator)
    }
}

/// The part of `text` after the last `separator`; all of it where there is
/// none, and nothing where the text ends with one.
pub open spec fn last_part(text: Seq<char>, separator: char) -> Seq<char> {
    text.subrange(last_part_start(text, separator), text.len() as int)
}

/// The last part lies behind a separator or begins the text, and has no
/// separator in it.
pub proof fn lemma_last_part(text: Seq<char>, separator: char)
    ensures
        0 <= last_part_start(text, separator) <= text.len(),
        last_part_start(text, separator) > 0 ==> text[last_part_start(text, separator) - 1]
            == separator,
        !last_part(text, separator).contains(separator),
    decreases text.len(),
{
    if text.len() > 0 && text.last() != separator {
        let head = text.drop_last();
        lemma_last_part(head, separator);
        let start = last_part_start(head, separator);
        let part = last_part(text, separator);
        if part.contains(separator) {
            let i = choose|i: int| 0 <= i < part.len() && part[i] == separator;
            if start + i < head.len() {
                assert(last_part(head, separator)[i] == separator);
            }
        }
    }
}

/// The part of `text` after the last `separator`.
pub fn after_last(text: &Vec<char>, separator: char) -> (part: Vec<char>)
    ensures
        part@ == last_part(text@, separator),
{
    let mut start: usize = 0;
    let mut i: usize = 0;
    while i < text.len()
        invariant
            i <= text.len(),
            start <= i,
            start == last_part_start(text@.take(i as int), separator),
        decreases text.len() - i,
    {
        proof {
            assert(text@.take(i + 1).drop_last() =~= text@.take(i as int));
            assert(text@.take(i + 1).last() == text@[i as int]);
        }
        if text[i] == separator {
            start = i + 1;
        }
        i += 1;
    }
    proof {
        assert(text@.take(text.len() as int) =~= text@);
    }
    let mut part: Vec<char> = Vec::new();
    let mut j: usize = start;
    while j < text.len()
        invariant
            start <= j <= text.len(),
            part@ == text@.subrange(start as int, j as int),
        decreases text.len() - j,
    {
        part.push(text[j]);
        proof {
            assert(text@.subrange(start as int, j as int).push(text@[j as int]) =~= text@.subrange(
                start as int,
                j + 1,
            ));
        }
        j += 1;
    }
    part
}

/// `text` with every `from` replaced by `to`.
pub open spec fn with_char_replaced(text: Seq<char>, from: char, to: char) -> Seq<char> {
    text.map_values(
        |c: char|
            if c == from {
                to
            } else {
                c
            },
    )
}

/// Replaces every `from` in `text` by `to`.
pub fn replace_char(text: &Vec<char>, from: char, to: char) -> (replaced: Vec<char>)
    ensures
        replaced@ == with_char_replaced(text@, from, to),
{
    let mut replaced: Vec<char> = Vec::new();
    let mut i: usize = 0;
    while i < text.len()
        invariant
            i <= text.len(),
            replaced@ == with_char_replaced(text@.take(i as int), from, to),
        decreases text.len() - i,
    {
        let c = text[i];
        replaced.push(
            if c == from {
                to
            } else {
                c
            },
        );
        proof {
            assert(replaced@ =~= with_char_replaced(text@.take(i + 1), from, to));
        }
        i += 1;
    }
    proof {
        assert(text@.take(text.len() as int) =~= text@);
    }
    replaced
}

/// `pattern` stands in `text` at position `at`.
pub open spec fn occurs_at(text: Seq<char>, pattern: Seq<char>, at: int) -> bool {
    0 <= at && at + pattern.len() <= text.len() && text.subrange(at, at + pattern.len())
        == pattern
}

/// `text` without the occurrences of `pattern`, found from left to right, an
/// occurrence beginning only behind the one before it. An empty pattern takes
/// nothing out.
pub open spec fn without(text: Seq<char>, pattern: Seq<char>) -> Seq<char>
    decreases text.len(),
{
    if pattern.len() == 0 || text.len() == 0 {
        text
    } else if occurs_at(text, pattern, 0) {
        without(text.skip(pattern.len() as int), pattern)
    } else {
        seq![text[0]] + without(text.skip(1), pattern)
    }
}

fn matches_at(text: &Vec<char>, pattern: &Vec<char>, at: usize) -> (found: bool)
    requires
        at <= text.len(),
    ensures
        found == occurs_at(text@, pattern@, at as int),
{
    if pattern.len() > text.len() - at {
        return false;
    }
    let ghost window = text@.subrange(at as int, at + pattern.len());
    let mut k: usize = 0;
    while k < pattern.len()
        invariant
            k <= pattern.len(),
            at + pattern.len() <= text.len(),
            window == text@.subrange(at as int, at + pattern.len()),
            forall|j: int| 0 <= j < k ==> window[j] == pattern@[j],
        decreases pattern.len() - k,
    {
        if text[at + k] != pattern[k] {
            proof {
                assert(window[k as int] != pattern@[k as int]);
            }
            return false;
        }
        k += 1;
    }
    proof {
        assert(window =~= pattern@);
    }
    true
}

/// Takes the occurrences of `pattern` out of `text`.
pub fn remove_all(text: &Vec<char>, pattern: &Vec<char>) -> (kept: Vec<char>)
    ensures
        kept@ == without(text@, pattern@),
{
    let mut kept: Vec<char> = Vec::new();
    let mut i: usize = 0;
    if pattern.len() == 0 {
        while i < text.len()
            invariant
                i <= text.len(),
                kept@ == text@.take(i as int),
            decreases text.len() - i,
        {
            kept.push(text[i]);
            proof {
                assert(text@.take(i as int).push(text@[i as int]) =~= text@.take(i + 1));
            }
            i += 1;
        }
        proof {
            assert(text@.take(text.len() as int) =~= text@);
        }
        return kept;
    }
    proof {
        assert(text@.skip(0) =~= text@);
        assert(kept@ + without(text@, pattern@) =~= without(text@, pattern@));
    }
    while i < text.len()
        invariant
            i <= text.len(),
            pattern.len() > 0,
            kept@ + without(text@.skip(i as int), pattern@) == without(text@, pattern@),
        decreases text.len() - i,
    {
        let ghost rest = text@.skip(i as int);
        let found = matches_at(text, pattern, i);
        proof {
            assert(rest.len() > 0);
            assert(occurs_at(rest, pattern@, 0) == found) by {
                if i + pattern@.len() <= text@.len() {
                    assert(rest.subrange(0, pattern@.len() as int) =~= text@.subrange(
                        i as int,
                        i + pattern@.len(),
                    ));
                }
            }
        }
        if found {
            proof {
                assert(rest.skip(pattern@.len() as int) =~= text@.skip(i + pattern@.len()));
            }
            i += pattern.len();
        } else {
            let ghost before = kept@;
            kept.push(text[i]);
            proof {
                assert(rest.skip(1) =~= text@.skip(i + 1));
                assert(rest[0] == text@[i as int]);
                assert(kept@ + without(text@.skip(i + 1), pattern@) =~= before + (seq![rest[0]]
                    + without(rest.skip(1), pattern@)));
            }
            i += 1;
        }
    }
    proof {
        assert(text@.skip(text.len() as int) =~= Seq::<char>::empty());
        assert(kept@ + Seq::<char>::empty() =~= kept@);
    }
    kept
}

} // verus!
