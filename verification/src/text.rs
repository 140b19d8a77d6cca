//! Text as sequences of characters: trimming, prefixes and suffixes,
//! searching, and decimal numbers.

use vstd::prelude::*;
use vstd::string::StringExecFns;

verus! {

/// White space as Unicode defines it (the property `White_Space`).
pub open spec fn white_space(c: char) -> bool {
    let code = c as u32;
    ||| 0x09 <= code <= 0x0D
    ||| code == 0x20
    ||| code == 0x85
    ||| code == 0xA0
    ||| code == 0x1680
    ||| 0x2000 <= code <= 0x200A
    ||| code == 0x2028
    ||| code == 0x2029
    ||| code == 0x202F
    ||| code == 0x205F
    ||| code == 0x3000
}

/// The text without the white space at its start.
pub open spec fn trim_start(s: Seq<char>) -> Seq<char>
    decreases s.len(),
{
    if s.len() > 0 && white_space(s[0]) {
        trim_start(s.drop_first())
    } else {
        s
    }
}

/// The text without the white space at its end.
pub open spec fn trim_end(s: Seq<char>) -> Seq<char>
    decreases s.len(),
{
    if s.len() > 0 && white_space(s.last()) {
        trim_end(s.drop_last())
    } else {
        s
    }
}

/// The text without the white space at its start and at its end.
pub open spec fn trimmed(s: Seq<char>) -> Seq<char> {
    trim_end(trim_start(s))
}

/// Whether the text starts with the given prefix.
pub open spec fn starts_with(s: Seq<char>, prefix: Seq<char>) -> bool {
    prefix.len() <= s.len() && s.take(prefix.len() as int) == prefix
}

/// Whether the text ends with the given suffix.
pub open spec fn ends_with(s: Seq<char>, suffix: Seq<char>) -> bool {
    suffix.len() <= s.len() && s.skip(s.len() - suffix.len()) == suffix
}

/// The text without the given prefix, taken off as often as it stands at
/// the start. An empty prefix takes nothing off.
pub open spec fn without_prefixes(s: Seq<char>, prefix: Seq<char>) -> Seq<char>
    decreases s.len(),
{
    if prefix.len() > 0 && starts_with(s, prefix) {
        without_prefixes(s.skip(prefix.len() as int), prefix)
    } else {
        s
    }
}

/// The text without the given suffix, taken off as often as it stands at
/// the end. An empty suffix takes nothing off.
pub open spec fn without_suffixes(s: Seq<char>, suffix: Seq<char>) -> Seq<char>
    decreases s.len(),
{
    if suffix.len() > 0 && ends_with(s, suffix) {
        without_suffixes(s.take(s.len() - suffix.len()), suffix)
    } else {
        s
    }
}

/// The position of the first `wanted` at or after `from`, if there is one.
pub open spec fn position_of(s: Seq<char>, wanted: char, from: int) -> Option<int>
    decreases s.len() - from,
{
    if from < 0 || from >= s.len() {
        None
    } else if s[from] == wanted {
        Some(from)
    } else {
        position_of(s, wanted, from + 1)
    }
}

/// The decimal digit for a number below ten.
pub open spec fn digit_char(d: nat) -> char {
    if d == 0 {
        '0'
    } else if d == 1 {
        '1'
    } else if d == 2 {
        '2'
    } else if d == 3 {
        '3'
    } else if d == 4 {
        '4'
    } else if d == 5 {
        '5'
    } else if d == 6 {
        '6'
    } else if d == 7 {
        '7'
    } else if d == 8 {
        '8'
    } else {
        '9'
    }
}

/// A number in decimal digits, without leading zeros.
pub open spec fn decimal(n: nat) -> Seq<char>
    decreases n,
{
    if n < 10 {
        seq![digit_char(n)]
    } else {
        decimal(n / 10).push(digit_char(n % 10))
    }
}

/// The number that a decimal digit stands for.
pub open spec fn digit_value(c: char) -> Option<nat> {
    if '0' <= c <= '9' {
        Some((c as u32 - '0' as u32) as nat)
    } else {
        None
    }
}

/// The number that a text of decimal digits stands for. A text that is
/// empty or holds anything but the digits `0` to `9` stands for none.
pub open spec fn digits_value(s: Seq<char>) -> Option<nat>
    decreases s.len(),
{
    if s.len() == 0 {
        None
    } else if s.len() == 1 {
        digit_value(s[0])
    } else {
        match (digits_value(s.drop_last()), digit_value(s.last())) {
            (Some(front), Some(d)) => Some(front * 10 + d),
            _ => None,
        }
    }
}

/// The number below 65536 that a text stands for: decimal digits, with a
/// plus sign before them or without.
pub open spec fn decimal_u16(s: Seq<char>) -> Option<u16> {
    let digits = if s.len() > 0 && s[0] == '+' {
        s.skip(1)
    } else {
        s
    };
    match digits_value(digits) {
        Some(value) => if value <= u16::MAX {
            Some(value as u16)
        } else {
            None
        },
        None => None,
    }
}

/// The characters of a string, one by one.
pub fn chars_of(s: &str) -> (chars: Vec<char>)
    ensures
        chars@ == s@,
{
    let mut chars: Vec<char> = Vec::new();
    for c in it: s.chars()
        invariant
            chars@ == it.seq().take(it.index() as int),
            it.seq() == s@,
    {
        chars.push(c);
    }
    chars
}

/// Whether a character is white space.
pub fn is_white_space(c: char) -> (space: bool)
    ensures
        space == white_space(c),
{
    let code: u32 = c as u32;
    (0x09 <= code && code <= 0x0D) || code == 0x20 || code == 0x85 || code == 0xA0 || code
        == 0x1680 || (0x2000 <= code && code <= 0x200A) || code == 0x2028 || code == 0x2029
        || code == 0x202F || code == 0x205F || code == 0x3000
}

/// Whether two strings hold the same text.
pub fn same_text(a: &str, b: &str) -> (same: bool)
    ensures
        same == (a@ == b@),
{
    let left = chars_of(a);
    let right = chars_of(b);
    if left.len() != right.len() {
        return false;
    }
    let mut i: usize = 0;
    while i < left.len()
        invariant
            i <= left.len(),
            left.len() == right.len(),
            left@ == a@,
            right@ == b@,
            forall|j: int| 0 <= j < i ==> left@[j] == right@[j],
        decreases left.len() - i,
    {
        if left[i] != right[i] {
            proof {
                assert(a@[i as int] != b@[i as int]);
            }
            return false;
        }
        i = i + 1;
    }
    proof {
        assert(left@ =~= right@);
    }
    true
}

/// Moves the start of a window past the white space at its start.
fn skip_space_front(chars: &Vec<char>, from: usize, to: usize) -> (start: usize)
    requires
        from <= to <= chars@.len(),
    ensures
        from <= start <= to,
        chars@.subrange(start as int, to as int) == trim_start(
            chars@.subrange(from as int, to as int),
        ),
{
    let mut start: usize = from;
    while start < to && is_white_space(chars[start])
        invariant
            from <= start <= to,
            to <= chars@.len(),
            trim_start(chars@.subrange(start as int, to as int)) == trim_start(
                chars@.subrange(from as int, to as int),
            ),
        decreases to - start,
    {
        proof {
            assert(chars@.subrange(start as int, to as int).drop_first() =~= chars@.subrange(
                start as int + 1,
                to as int,
            ));
        }
        start = start + 1;
    }
    start
}

/// Moves the end of a window before the white space at its end.
fn skip_space_back(chars: &Vec<char>, from: usize, to: usize) -> (end: usize)
    requires
        from <= to <= chars@.len(),
    ensures
        from <= end <= to,
        chars@.subrange(from as int, end as int) == trim_end(
            chars@.subrange(from as int, to as int),
        ),
{
    let mut end: usize = to;
    while end > from && is_white_space(chars[end - 1])
        invariant
            from <= end <= to,
            to <= chars@.len(),
            trim_end(chars@.subrange(from as int, end as int)) == trim_end(
                chars@.subrange(from as int, to as int),
            ),
        decreases end - from,
    {
        proof {
            assert(chars@.subrange(from as int, end as int).drop_last() =~= chars@.subrange(
                from as int,
                end as int - 1,
            ));
        }
        end = end - 1;
    }
    end
}

/// Whether the window starts with the pattern.
fn window_starts_with(chars: &Vec<char>, from: usize, to: usize, pattern: &Vec<char>) -> (found:
    bool)
    requires
        from <= to <= chars@.len(),
    ensures
        found == starts_with(chars@.subrange(from as int, to as int), pattern@),
{
    let ghost window = chars@.subrange(from as int, to as int);
    if pattern.len() > to - from {
        return false;
    }
    let mut i: usize = 0;
    while i < pattern.len()
        invariant
            i <= pattern.len(),
            pattern.len() <= to - from,
            from <= to <= chars@.len(),
            window == chars@.subrange(from as int, to as int),
            forall|j: int| 0 <= j < i ==> window[j] == pattern@[j],
        decreases pattern.len() - i,
    {
        if chars[from + i] != pattern[i] {
            proof {
                assert(window.take(pattern.len() as int)[i as int] != pattern@[i as int]);
            }
            return false;
        }
        i = i + 1;
    }
    proof {
        assert(window.take(pattern.len() as int) =~= pattern@);
    }
    true
}

/// Whether the window ends with the pattern.
fn window_ends_with(chars: &Vec<char>, from: usize, to: usize, pattern: &Vec<char>) -> (found: bool)
    requires
        from <= to <= chars@.len(),
    ensures
        found == ends_with(chars@.subrange(from as int, to as int), pattern@),
{
    let ghost window = chars@.subrange(from as int, to as int);
    if pattern.len() > to - from {
        return false;
    }
    let base: usize = to - pattern.len();
    let mut i: usize = 0;
    while i < pattern.len()
        invariant
            i <= pattern.len(),
            pattern.len() <= to - from,
            base == to - pattern.len(),
            from <= to <= chars@.len(),
            window == chars@.subrange(from as int, to as int),
            forall|j: int| 0 <= j < i ==> window[window.len() - pattern.len() + j] == pattern@[j],
        decreases pattern.len() - i,
    {
        if chars[base + i] != pattern[i] {
            proof {
                assert(window.skip(window.len() - pattern.len())[i as int] != pattern@[i as int]);
            }
            return false;
        }
        i = i + 1;
    }
    proof {
        assert(window.skip(window.len() - pattern.len()) =~= pattern@);
    }
    true
}

/// Moves the start of a window past every copy of the pattern at its start.
fn skip_prefixes(chars: &Vec<char>, from: usize, to: usize, pattern: &Vec<char>) -> (start: usize)
    requires
        from <= to <= chars@.len(),
    ensures
        from <= start <= to,
        chars@.subrange(start as int, to as int) == without_prefixes(
            chars@.subrange(from as int, to as int),
            pattern@,
        ),
{
    let mut start: usize = from;
    if pattern.len() == 0 {
        return start;
    }
    while window_starts_with(chars, start, to, pattern)
        invariant
            from <= start <= to,
            to <= chars@.len(),
            pattern.len() > 0,
            without_prefixes(chars@.subrange(start as int, to as int), pattern@)
                == without_prefixes(chars@.subrange(from as int, to as int), pattern@),
        decreases to - start,
    {
        proof {
            assert(chars@.subrange(start as int, to as int).skip(pattern.len() as int)
                =~= chars@.subrange(start as int + pattern.len() as int, to as int));
        }
        start = start + pattern.len();
    }
    start
}

/// Moves the end of a window before every copy of the pattern at its end.
fn skip_suffixes(chars: &Vec<char>, from: usize, to: usize, pattern: &Vec<char>) -> (end: usize)
    requires
        from <= to <= chars@.len(),
    ensures
        from <= end <= to,
        chars@.subrange(from as int, end as int) == without_suffixes(
            chars@.subrange(from as int, to as int),
            pattern@,
        ),
{
    let mut end: usize = to;
    if pattern.len() == 0 {
        return end;
    }
    while window_ends_with(chars, from, end, pattern)
        invariant
            from <= end <= to,
            to <= chars@.len(),
            pattern.len() > 0,
            without_suffixes(chars@.subrange(from as int, end as int), pattern@)
                == without_suffixes(chars@.subrange(from as int, to as int), pattern@),
        decreases end - from,
    {
        proof {
            let window = chars@.subrange(from as int, end as int);
            assert(window.take(window.len() - pattern.len()) =~= chars@.subrange(
                from as int,
                end as int - pattern.len() as int,
            ));
        }
        end = end - pattern.len();
    }
    end
}

/// The text without the white space at its start and at its end.
pub fn trim(s: &str) -> (slice: &str)
    ensures
        slice@ == trimmed(s@),
{
    let chars = chars_of(s);
    proof {
        assert(chars@.subrange(0, chars@.len() as int) =~= chars@);
    }
    let start = skip_space_front(&chars, 0, chars.len());
    let end = skip_space_back(&chars, start, chars.len());
    s.substring_char(start, end)
}

/// The position of the first `wanted` at or after `from`, if there is one.
pub fn find_char(chars: &Vec<char>, wanted: char, from: usize) -> (found: Option<usize>)
    ensures
        match found {
            Some(at) => position_of(chars@, wanted, from as int) == Some(at as int) && from <= at
                < chars@.len() && chars@[at as int] == wanted,
            None => position_of(chars@, wanted, from as int) is None,
        },
{
    let mut at: usize = from;
    while at < chars.len()
        invariant
            from <= at,
            position_of(chars@, wanted, at as int) == position_of(chars@, wanted, from as int),
        decreases chars.len() - at,
    {
        if chars[at] == wanted {
            return Some(at);
        }
        at = at + 1;
    }
    None
}

/// The digits of a number start with the digits of a shorter number: where
/// a text stands for a number, so does every start of it, and for no larger
/// one.
pub proof fn lemma_digits_start(s: Seq<char>, k: int)
    requires
        0 < k <= s.len(),
        digits_value(s) is Some,
    ensures
        digits_value(s.take(k)) is Some,
        digits_value(s.take(k))->0 <= digits_value(s)->0,
    decreases s.len() - k,
{
    if k == s.len() {
        assert(s.take(k) =~= s);
    } else {
        assert(s.drop_last().take(k) =~= s.take(k));
        lemma_digits_start(s.drop_last(), k);
    }
}

/// One more digit makes ten times the number and the digit.
pub proof fn lemma_digits_next(s: Seq<char>, k: int)
    requires
        0 <= k < s.len(),
    ensures
        digits_value(s.take(k + 1)) == if k == 0 {
            digit_value(s[0])
        } else {
            match (digits_value(s.take(k)), digit_value(s[k])) {
                (Some(front), Some(d)) => Some(front * 10 + d),
                _ => None,
            }
        },
{
    assert(s.take(k + 1).drop_last() =~= s.take(k));
}

/// The text of a decimal digit.
fn digit_text(d: u64) -> (text: &'static str)
    requires
        d < 10,
    ensures
        text@ == seq![digit_char(d as nat)],
{
    proof {
        reveal_strlit("0");
        reveal_strlit("1");
        reveal_strlit("2");
        reveal_strlit("3");
        reveal_strlit("4");
        reveal_strlit("5");
        reveal_strlit("6");
        reveal_strlit("7");
        reveal_strlit("8");
        reveal_strlit("9");
    }
    let text = if d == 0 {
        "0"
    } else if d == 1 {
        "1"
    } else if d == 2 {
        "2"
    } else if d == 3 {
        "3"
    } else if d == 4 {
        "4"
    } else if d == 5 {
        "5"
    } else if d == 6 {
        "6"
    } else if d == 7 {
        "7"
    } else if d == 8 {
        "8"
    } else {
        "9"
    };
    proof {
        assert(text@ =~= seq![digit_char(d as nat)]);
    }
    text
}

/// A number in decimal digits, without leading zeros.
pub fn decimal_text(n: u64) -> (text: String)
    ensures
        text@ == decimal(n as nat),
    decreases n,
{
    if n < 10 {
        String::from_str(digit_text(n))
    } else {
        let mut text = decimal_text(n / 10);
        let last = digit_text(n % 10);
        proof {
            assert(text@ + last@ =~= text@.push(digit_char((n % 10) as nat)));
        }
        text.append(last);
        text
    }
}

/// Reads a number below 65536 from decimal digits, with a plus sign before
/// them or without. Anything else in the text, or a larger number, gives
/// none.
pub fn parse_u16(s: &str) -> (value: Option<u16>)
    ensures
        value == decimal_u16(s@),
{
    let chars = chars_of(s);
    let start: usize = if chars.len() > 0 && chars[0] == '+' {
        1
    } else {
        0
    };
    let ghost digits = if s@.len() > 0 && s@[0] == '+' {
        s@.skip(1)
    } else {
        s@
    };
    proof {
        assert(chars@.skip(0) =~= chars@);
        assert(digits == chars@.skip(start as int));
    }
    if start >= chars.len() {
        return None;
    }
    let mut acc: u32 = 0;
    let mut i: usize = start;
    while i < chars.len()
        invariant
            start <= i <= chars.len(),
            start < chars.len(),
            digits == chars@.skip(start as int),
            decimal_u16(s@) == match digits_value(digits) {
                Some(value) => if value <= u16::MAX {
                    Some(value as u16)
                } else {
                    None
                },
                None => None,
            },
            acc <= u16::MAX,
            i > start ==> digits_value(digits.take(i - start)) == Some(acc as nat),
            i == start ==> acc == 0,
        decreases chars.len() - i,
    {
        let c = chars[i];
        proof {
            lemma_digits_next(digits, i - start);
            assert(digits[i - start] == c);
        }
        if !(c >= '0' && c <= '9') {
            proof {
                if digits_value(digits) is Some {
                    lemma_digits_start(digits, i - start + 1);
                }
            }
            return None;
        }
        let d: u32 = c as u32 - '0' as u32;
        let next: u32 = acc * 10 + d;
        if next > 0xFFFF {
            proof {
                if digits_value(digits) is Some {
                    lemma_digits_start(digits, i - start + 1);
                }
            }
            return None;
        }
        acc = next;
        i = i + 1;
    }
    proof {
        assert(digits.take(i - start) =~= digits);
    }
    Some(acc as u16)
}

/// The text with every place of a pattern replaced. The places are found
/// from the start and do not overlap; what is put in is not searched again.
/// An empty pattern has no place.
pub open spec fn replaced(s: Seq<char>, pattern: Seq<char>, with: Seq<char>) -> Seq<char>
    decreases s.len(),
{
    if s.len() == 0 {
        s
    } else if pattern.len() > 0 && starts_with(s, pattern) {
        with + replaced(s.skip(pattern.len() as int), pattern, with)
    } else {
        seq![s[0]] + replaced(s.drop_first(), pattern, with)
    }
}

/// Replaces every place of a pattern in a text: see [`replaced`].
pub fn replace_all(s: &str, pattern: &str, with: &str) -> (text: String)
    ensures
        text@ == replaced(s@, pattern@, with@),
{
    let chars = chars_of(s);
    let wanted = chars_of(pattern);
    let length: usize = chars.len();
    let mut text = String::new();
    let mut kept: usize = 0;
    let mut i: usize = 0;
    proof {
        assert(s@.skip(0) =~= s@);
        assert(text@ + s@.subrange(0, 0) + replaced(s@, pattern@, with@) =~= replaced(
            s@,
            pattern@,
            with@,
        ));
    }
    while i < length
        invariant
            kept <= i <= length,
            length == chars@.len(),
            chars@ == s@,
            wanted@ == pattern@,
            text@ + s@.subrange(kept as int, i as int) + replaced(
                s@.skip(i as int),
                pattern@,
                with@,
            ) == replaced(s@, pattern@, with@),
        decreases length - i,
    {
        let ghost rest = s@.skip(i as int);
        proof {
            assert(chars@.subrange(i as int, length as int) =~= rest);
        }
        if wanted.len() > 0 && window_starts_with(&chars, i, length, &wanted) {
            proof {
                assert(rest.skip(pattern@.len() as int) =~= s@.skip(i as int + pattern@.len()));
                let after = replaced(s@.skip(i as int + pattern@.len()), pattern@, with@);
                assert(text@ + s@.subrange(kept as int, i as int) + (with@ + after) =~= (text@
                    + s@.subrange(kept as int, i as int) + with@) + s@.subrange(
                    i as int + pattern@.len(),
                    i as int + pattern@.len(),
                ) + after);
            }
            text.append(s.substring_char(kept, i));
            text.append(with);
            i = i + wanted.len();
            kept = i;
        } else {
            proof {
                assert(rest.drop_first() =~= s@.skip(i as int + 1));
                let after = replaced(s@.skip(i as int + 1), pattern@, with@);
                assert(text@ + s@.subrange(kept as int, i as int) + (seq![rest[0]] + after)
                    =~= text@ + s@.subrange(kept as int, i as int + 1) + after);
            }
            i = i + 1;
        }
    }
    proof {
        assert(s@.skip(i as int) =~= Seq::<char>::empty());
        assert(text@ + s@.subrange(kept as int, i as int) + Seq::<char>::empty() =~= text@
            + s@.subrange(kept as int, i as int));
    }
    text.append(s.substring_char(kept, length));
    text
}

/// The text that frames a reply in a fenced block is taken off: white
/// space around it, the opening fence with or without the word `json`, and
/// the closing fence.
pub open spec fn stripped_markdown(content: Seq<char>) -> Seq<char> {
    trimmed(
        without_suffixes(
            without_prefixes(without_prefixes(trimmed(content), "```json"@), "```"@),
            "```"@,
        ),
    )
}

/// Takes the frame of a fenced block off a reply: see
/// [`stripped_markdown`].
pub fn strip_markdown(content: &str) -> (inner: &str)
    ensures
        inner@ == stripped_markdown(content@),
{
    let chars = chars_of(content);
    let fence_json = chars_of("```json");
    let fence = chars_of("```");
    proof {
        assert(chars@.subrange(0, chars@.len() as int) =~= chars@);
    }
    let a = skip_space_front(&chars, 0, chars.len());
    let b = skip_space_back(&chars, a, chars.len());
    let a = skip_prefixes(&chars, a, b, &fence_json);
    let a = skip_prefixes(&chars, a, b, &fence);
    let b = skip_suffixes(&chars, a, b, &fence);
    let a = skip_space_front(&chars, a, b);
    let b = skip_space_back(&chars, a, b);
    content.substring_char(a, b)
}

} // verus!
