//! Characters and lines: whitespace, blank lines, fence markers, the split
//! of a text into lines, and the cut of a text to a number of characters.
//!
//! Strings are modelled by their sequence of characters (`Seq<char>`), so a
//! length is always a count of characters, never of bytes.
use vstd::prelude::*;
use vstd::std_specs::iter::IteratorSpec;
use vstd::string::StringExecFns;
use vstd::string::StrSliceExecFns;

verus! {

/// `String::push` appends one character to the end of the string.
pub assume_specification[ String::push ](s: &mut String, ch: char)
    ensures
        final(s)@ == old(s)@.push(ch),
;

/// Whether `c` has the Unicode property `White_Space`.
pub open spec fn is_whitespace(c: char) -> bool {
    let u = c as u32;
    ||| 0x09 <= u <= 0x0D
    ||| u == 0x20
    ||| u == 0x85
    ||| u == 0xA0
    ||| u == 0x1680
    ||| 0x2000 <= u <= 0x200A
    ||| u == 0x2028
    ||| u == 0x2029
    ||| u == 0x202F
    ||| u == 0x205F
    ||| u == 0x3000
}

/// Whether every character of `s` is whitespace; the empty sequence is blank.
pub open spec fn is_blank(s: Seq<char>) -> bool {
    forall|i: int| 0 <= i < s.len() ==> is_whitespace(#[trigger] s[i])
}

/// How many whitespace characters stand at the start of `s`.
pub open spec fn leading_whitespace(s: Seq<char>) -> nat
    decreases s.len(),
{
    if s.len() > 0 && is_whitespace(s[0]) {
        1 + leading_whitespace(s.drop_first())
    } else {
        0
    }
}

/// How many whitespace characters stand at the end of `s`.
pub open spec fn trailing_whitespace(s: Seq<char>) -> nat
    decreases s.len(),
{
    if s.len() > 0 && is_whitespace(s.last()) {
        1 + trailing_whitespace(s.drop_last())
    } else {
        0
    }
}

/// `s` without the whitespace at its start.
pub open spec fn trim_start(s: Seq<char>) -> Seq<char> {
    s.skip(leading_whitespace(s) as int)
}

/// `s` without the whitespace at its start and at its end.
pub open spec fn trim(s: Seq<char>) -> Seq<char> {
    let t = trim_start(s);
    t.take(t.len() - trailing_whitespace(t))
}

/// Whether `s` begins with three backticks.
pub open spec fn starts_with_fence(s: Seq<char>) -> bool {
    s.len() >= 3 && s[0] == '`' && s[1] == '`' && s[2] == '`'
}

/// Whether a line opens or closes a code block: after its leading whitespace
/// come three backticks.
pub open spec fn is_fence(line: Seq<char>) -> bool {
    starts_with_fence(trim_start(line))
}

/// `s` cut to its first `max` characters where it has more, else `s` itself.
pub open spec fn truncated(s: Seq<char>, max: nat) -> Seq<char> {
    if s.len() > max {
        s.take(max as int)
    } else {
        s
    }
}

/// The position of the first line feed in `s`, or the length of `s` where it
/// has none.
pub open spec fn first_newline(s: Seq<char>) -> nat
    decreases s.len(),
{
    if s.len() == 0 || s[0] == '\n' {
        0
    } else {
        1 + first_newline(s.drop_first())
    }
}

/// A line as it stood before its line feed, without a carriage return at its
/// end.
pub open spec fn strip_cr(line: Seq<char>) -> Seq<char> {
    if line.len() > 0 && line.last() == '\r' {
        line.drop_last()
    } else {
        line
    }
}

/// The lines of a text. A line ends at a line feed, which is not part of it,
/// and a carriage return just before that line feed is dropped too. What
/// follows the last line feed is one more line if it is not empty, taken as
/// it stands.
pub open spec fn lines_of(s: Seq<char>) -> Seq<Seq<char>>
    decreases s.len(),
{
    if s.len() == 0 {
        Seq::empty()
    } else {
        let k = first_newline(s) as int;
        if k >= s.len() {
            seq![s]
        } else {
            seq![strip_cr(s.take(k))] + lines_of(s.skip(k + 1))
        }
    }
}

/// The views of a sequence of strings.
pub open spec fn string_views(v: Seq<String>) -> Seq<Seq<char>> {
    v.map_values(|s: String| s@)
}

/// A sequence made of two parts is blank exactly when both parts are.
pub proof fn lemma_blank_concat(a: Seq<char>, b: Seq<char>)
    ensures
        is_blank(a + b) <==> is_blank(a) && is_blank(b),
{
    let ab = a + b;
    if is_blank(ab) {
        assert forall|i: int| 0 <= i < a.len() implies is_whitespace(#[trigger] a[i]) by {
            assert(ab[i] == a[i]);
        }
        assert forall|i: int| 0 <= i < b.len() implies is_whitespace(#[trigger] b[i]) by {
            assert(ab[a.len() + i] == b[i]);
        }
    }
    if is_blank(a) && is_blank(b) {
        assert forall|i: int| 0 <= i < ab.len() implies is_whitespace(#[trigger] ab[i]) by {
            if i < a.len() {
                assert(ab[i] == a[i]);
            } else {
                assert(ab[i] == b[i - a.len()]);
            }
        }
    }
}

/// Where the first `k` characters are whitespace and the next one, if any, is
/// not, exactly `k` whitespace characters lead.
pub proof fn lemma_leading_whitespace(s: Seq<char>, k: int)
    requires
        0 <= k <= s.len(),
        forall|i: int| 0 <= i < k ==> is_whitespace(#[trigger] s[i]),
        k < s.len() ==> !is_whitespace(s[k]),
    ensures
        leading_whitespace(s) == k,
    decreases k,
{
    if k > 0 {
        let rest = s.drop_first();
        assert forall|i: int| 0 <= i < k - 1 implies is_whitespace(#[trigger] rest[i]) by {
            assert(rest[i] == s[i + 1]);
        }
        lemma_leading_whitespace(rest, k - 1);
    }
}

/// The whitespace at the start of a sequence is whitespace, and it ends at
/// the first character that is none.
pub proof fn lemma_leading_whitespace_is_whitespace(s: Seq<char>)
    ensures
        leading_whitespace(s) <= s.len(),
        forall|i: int| 0 <= i < leading_whitespace(s) ==> is_whitespace(#[trigger] s[i]),
        leading_whitespace(s) < s.len() ==> !is_whitespace(s[leading_whitespace(s) as int]),
    decreases s.len(),
{
    if s.len() > 0 && is_whitespace(s[0]) {
        let rest = s.drop_first();
        lemma_leading_whitespace_is_whitespace(rest);
        assert forall|i: int| 0 <= i < leading_whitespace(s) implies is_whitespace(
            #[trigger] s[i],
        ) by {
            if i > 0 {
                assert(s[i] == rest[i - 1]);
            }
        }
        if leading_whitespace(s) < s.len() {
            assert(s[leading_whitespace(s) as int] == rest[leading_whitespace(rest) as int]);
        }
    }
}

/// A sequence is blank exactly when nothing is left of it after trimming.
pub proof fn lemma_blank_iff_trim_empty(s: Seq<char>)
    ensures
        is_blank(s) <==> trim(s).len() == 0,
{
    lemma_leading_whitespace_is_whitespace(s);
    let k = leading_whitespace(s) as int;
    let t = trim_start(s);
    if is_blank(s) {
        if k < s.len() {
            assert(is_whitespace(s[k]));
        }
        assert(t.len() == 0);
    } else {
        assert(k < s.len());
        assert(t.len() > 0);
        assert(t[0] == s[k]);
        lemma_trailing_whitespace_keeps_start(t);
    }
}

/// The whitespace at the end of a sequence that begins with another
/// character stops short of that character.
pub proof fn lemma_trailing_whitespace_keeps_start(t: Seq<char>)
    requires
        t.len() > 0,
        !is_whitespace(t[0]),
    ensures
        trailing_whitespace(t) < t.len(),
    decreases t.len(),
{
    if is_whitespace(t.last()) {
        let rest = t.drop_last();
        assert(t.len() > 1);
        assert(rest[0] == t[0]);
        lemma_trailing_whitespace_keeps_start(rest);
    }
}

/// The whitespace at the end of a sequence is no longer than the sequence.
pub proof fn lemma_trailing_whitespace_bound(t: Seq<char>)
    ensures
        trailing_whitespace(t) <= t.len(),
    decreases t.len(),
{
    if t.len() > 0 && is_whitespace(t.last()) {
        lemma_trailing_whitespace_bound(t.drop_last());
    }
}

/// How far the whitespace at the end of a sequence reaches: not into a
/// character that is none.
pub proof fn lemma_trailing_whitespace_stops(t: Seq<char>, i: int)
    requires
        0 <= i < t.len(),
        !is_whitespace(t[i]),
    ensures
        trailing_whitespace(t) <= t.len() - 1 - i,
    decreases t.len(),
{
    if is_whitespace(t.last()) {
        let rest = t.drop_last();
        assert(i < t.len() - 1);
        assert(rest[i] == t[i]);
        lemma_trailing_whitespace_stops(rest, i);
    }
}

/// A line is a fence exactly when its trimmed content starts with three
/// backticks: trimming the end takes nothing from the marker.
pub proof fn lemma_fence_iff_trim_starts_with_fence(line: Seq<char>)
    ensures
        is_fence(line) <==> starts_with_fence(trim(line)),
{
    let t = trim_start(line);
    let full = trim(line);
    lemma_leading_whitespace_is_whitespace(line);
    if starts_with_fence(t) {
        lemma_trailing_whitespace_stops(t, 2);
        assert(full.len() >= 3);
        assert(full[0] == t[0] && full[1] == t[1] && full[2] == t[2]);
    }
    if starts_with_fence(full) {
        lemma_trailing_whitespace_bound(t);
        assert(full[0] == t[0] && full[1] == t[1] && full[2] == t[2]);
    }
}

/// A fence line is never blank.
pub proof fn lemma_fence_is_not_blank(line: Seq<char>)
    requires
        is_fence(line),
    ensures
        !is_blank(line),
{
    lemma_leading_whitespace_is_whitespace(line);
    let k = leading_whitespace(line) as int;
    assert(trim_start(line)[0] == line[k]);
    assert(!is_whitespace(line[k]));
}

/// Where no line feed stands among the first `k` characters and one stands
/// right after them, or the sequence ends there, the first line feed is at
/// `k`.
pub proof fn lemma_first_newline(s: Seq<char>, k: int)
    requires
        0 <= k <= s.len(),
        forall|i: int| 0 <= i < k ==> #[trigger] s[i] != '\n',
        k < s.len() ==> s[k] == '\n',
    ensures
        first_newline(s) == k,
    decreases k,
{
    if k > 0 {
        let rest = s.drop_first();
        assert(s[0] != '\n');
        assert forall|i: int| 0 <= i < k - 1 implies #[trigger] rest[i] != '\n' by {
            assert(rest[i] == s[i + 1]);
        }
        lemma_first_newline(rest, k - 1);
    }
}

/// Tests one character for the property `White_Space`.
pub fn whitespace(c: char) -> (r: bool)
    ensures
        r == is_whitespace(c),
{
    let u: u32 = c as u32;
    (0x09 <= u && u <= 0x0D) || u == 0x20 || u == 0x85 || u == 0xA0 || u == 0x1680 || (0x2000 <= u
        && u <= 0x200A) || u == 0x2028 || u == 0x2029 || u == 0x202F || u == 0x205F || u == 0x3000
}

/// Tests whether a string holds nothing but whitespace.
pub fn blank(s: &str) -> (r: bool)
    ensures
        r == is_blank(s@),
{
    let mut it = s.chars();
    let ghost mut seen: int = 0;
    loop
        invariant
            0 <= seen <= s@.len(),
            it.remaining() == s@.skip(seen),
            forall|i: int| 0 <= i < seen ==> is_whitespace(#[trigger] s@[i]),
        decreases s@.len() - seen,
    {
        match it.next() {
            None => {
                return true;
            },
            Some(c) => {
                if !whitespace(c) {
                    assert(s@[seen] == c);
                    return false;
                }
                proof {
                    seen = seen + 1;
                }
            },
        }
    }
}

/// Tests whether a line is a fence: three backticks after its leading
/// whitespace.
pub fn fence(line: &str) -> (r: bool)
    ensures
        r == is_fence(line@),
{
    let mut it = line.chars();
    let mut ticks: u8 = 0;
    let ghost mut seen: int = 0;
    let ghost mut lead: int = 0;
    loop
        invariant
            0 <= lead <= seen <= line@.len(),
            it.remaining() == line@.skip(seen),
            ticks < 3,
            seen == lead + ticks,
            forall|i: int| 0 <= i < lead ==> is_whitespace(#[trigger] line@[i]),
            forall|i: int| lead <= i < seen ==> #[trigger] line@[i] == '`',
        decreases line@.len() - seen,
    {
        match it.next() {
            None => {
                proof {
                    lemma_leading_whitespace(line@, lead);
                }
                return false;
            },
            Some(c) => {
                assert(line@[seen] == c);
                if c == '`' {
                    ticks = ticks + 1;
                    proof {
                        seen = seen + 1;
                    }
                    if ticks == 3 {
                        proof {
                            lemma_leading_whitespace(line@, lead);
                            let t = trim_start(line@);
                            assert(t[0] == line@[lead] && t[1] == line@[lead + 1] && t[2]
                                == line@[lead + 2]);
                        }
                        return true;
                    }
                } else if ticks == 0 && whitespace(c) {
                    proof {
                        seen = seen + 1;
                        lead = lead + 1;
                    }
                } else {
                    proof {
                        lemma_leading_whitespace(line@, lead);
                        let t = trim_start(line@);
                        assert(t[ticks as int] == line@[seen]);
                    }
                    return false;
                }
            },
        }
    }
}

/// Cuts a text to its first `max` characters where it has more, and says
/// whether it did. The cut falls between characters, never inside one.
pub fn truncate(text: &str, max: usize) -> (r: (String, bool))
    ensures
        r.0@ == truncated(text@, max as nat),
        r.1 == (text@.len() > max),
{
    let count = text.unicode_len();
    if count > max {
        let head = text.substring_char(0, max);
        (String::from_str(head), true)
    } else {
        (String::from_str(text), false)
    }
}

/// Splits a text into its lines.
pub fn split_lines(text: &str) -> (lines: Vec<String>)
    ensures
        string_views(lines@) == lines_of(text@),
{
    let mut lines: Vec<String> = Vec::new();
    let mut current = String::new();
    let mut pending_cr = false;
    let mut it = text.chars();
    let ghost s = text@;
    let ghost mut seen: int = 0;
    let ghost mut start: int = 0;
    proof {
        assert(s.skip(0) == s);
        assert(string_views(lines@) + lines_of(s) == lines_of(s));
    }
    loop
        invariant
            s == text@,
            0 <= start <= seen <= s.len(),
            it.remaining() == s.skip(seen),
            forall|i: int| start <= i < seen ==> #[trigger] s[i] != '\n',
            s.subrange(start, seen) == if pending_cr {
                current@.push('\r')
            } else {
                current@
            },
            !pending_cr ==> current@.len() == 0 || current@.last() != '\r',
            lines_of(s) == string_views(lines@) + lines_of(s.skip(start)),
        decreases s.len() - seen,
    {
        match it.next() {
            None => {
                let ghost rest = s.skip(start);
                assert(rest == s.subrange(start, seen));
                if pending_cr {
                    current.push('\r');
                }
                assert(current@ == rest);
                if !current.as_str().is_empty() {
                    proof {
                        assert forall|i: int| 0 <= i < rest.len() implies #[trigger] rest[i]
                            != '\n' by {
                            assert(rest[i] == s[start + i]);
                        }
                        lemma_first_newline(rest, rest.len() as int);
                        assert(lines_of(rest) == seq![rest]);
                        assert(string_views(lines@.push(current)) == string_views(lines@).push(
                            current@,
                        ));
                    }
                    lines.push(current);
                } else {
                    assert(lines_of(rest) == Seq::<Seq<char>>::empty());
                }
                return lines;
            },
            Some(c) => {
                assert(s[seen] == c);
                if c == '\n' {
                    proof {
                        let rest = s.skip(start);
                        let k = seen - start;
                        assert forall|i: int| 0 <= i < k implies #[trigger] rest[i] != '\n' by {
                            assert(rest[i] == s[start + i]);
                        }
                        assert(rest[k] == '\n');
                        lemma_first_newline(rest, k);
                        assert(rest.take(k) == s.subrange(start, seen));
                        assert(rest.skip(k + 1) == s.skip(seen + 1));
                        assert(strip_cr(rest.take(k)) == current@) by {
                            if pending_cr {
                                assert(current@.push('\r').drop_last() == current@);
                            }
                        }
                        assert(lines_of(rest) == seq![current@] + lines_of(s.skip(seen + 1)));
                        assert(string_views(lines@.push(current)) == string_views(lines@).push(
                            current@,
                        ));
                    }
                    lines.push(current);
                    current = String::new();
                    pending_cr = false;
                    proof {
                        seen = seen + 1;
                        start = seen;
                        assert(s.subrange(start, seen) == Seq::<char>::empty());
                    }
                } else {
                    let ghost before = s.subrange(start, seen);
                    if pending_cr {
                        current.push('\r');
                    }
                    assert(current@ == before);
                    if c == '\r' {
                        pending_cr = true;
                    } else {
                        pending_cr = false;
                        current.push(c);
                    }
                    proof {
                        assert(s.subrange(start, seen + 1) == before.push(c));
                        seen = seen + 1;
                    }
                }
            },
        }
    }
}

} // verus!
