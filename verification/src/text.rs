//! Small text functions that the configuration and the reference table
//! are read with: splitting at a separator, trimming white space, and
//! reading numbers and truth values.

use vstd::prelude::*;

verus! {

/// Whether two texts are the same, character by character.
pub fn same_text(a: &str, b: &str) -> (same: bool)
    ensures
        same == (a@ == b@),
{
    let left = String::from_str(a);
    let right = String::from_str(b);
    left == right
}

/// The contents of a list of strings.
pub open spec fn texts(strings: Seq<String>) -> Seq<Seq<char>> {
    strings.map_values(|s: String| s@)
}

/// The fields of a text: the pieces between the separators, in order. A
/// text without a separator is one field; a separator at the very start or
/// end borders an empty field.
pub open spec fn fields(s: Seq<char>, sep: char) -> Seq<Seq<char>>
    decreases s.len(),
{
    if s.len() == 0 {
        seq![Seq::empty()]
    } else {
        let before = fields(s.drop_last(), sep);
        if s.last() == sep {
            before.push(Seq::empty())
        } else {
            before.drop_last().push(before.last().push(s.last()))
        }
    }
}

/// Splits a text at every occurrence of the separator.
pub fn split_fields(text: &str, sep: char) -> (parts: Vec<String>)
    ensures
        texts(parts@) == fields(text@, sep),
{
    let n = text.unicode_len();
    let mut parts: Vec<String> = Vec::new();
    let mut start: usize = 0;
    let mut i: usize = 0;
    proof {
        assert(text@.take(0) =~= Seq::<char>::empty());
        assert(text@.subrange(0, 0) =~= Seq::<char>::empty());
        assert(texts(parts@).push(Seq::<char>::empty()) =~= seq![Seq::<char>::empty()]);
    }
    while i < n
        invariant
            n == text@.len(),
            0 <= start <= i <= n,
            fields(text@.take(i as int), sep) == texts(parts@).push(
                text@.subrange(start as int, i as int),
            ),
        decreases n - i,
    {
        let c = text.get_char(i);
        let ghost prefix = text@.take(i as int);
        let ghost longer = text@.take(i as int + 1);
        let ghost done = texts(parts@);
        proof {
            assert(longer.drop_last() =~= prefix);
            assert(longer.last() == c);
        }
        if c == sep {
            let piece = String::from_str(text.substring_char(start, i));
            parts.push(piece);
            proof {
                assert(texts(parts@) =~= done.push(text@.subrange(start as int, i as int)));
                assert(text@.subrange(i as int + 1, i as int + 1) =~= Seq::<char>::empty());
            }
            start = i + 1;
        } else {
            proof {
                let current = text@.subrange(start as int, i as int);
                assert(done.push(current).drop_last() =~= done);
                assert(current.push(c) =~= text@.subrange(start as int, i as int + 1));
            }
        }
        i = i + 1;
    }
    let ghost done = texts(parts@);
    let piece = String::from_str(text.substring_char(start, n));
    parts.push(piece);
    proof {
        assert(text@.take(n as int) =~= text@);
        assert(texts(parts@) =~= done.push(text@.subrange(start as int, n as int)));
    }
    parts
}

/// Whether a character is white space: the characters of Unicode's
/// `White_Space` property.
pub open spec fn is_space(c: char) -> bool {
    let code = c as u32;
    (0x09 <= code <= 0x0D) || code == 0x20 || code == 0x85 || code == 0xA0 || code == 0x1680 || (
    0x2000 <= code <= 0x200A) || code == 0x2028 || code == 0x2029 || code == 0x202F || code
        == 0x205F || code == 0x3000
}

/// Tells whether a character is white space.
pub fn is_whitespace(c: char) -> (space: bool)
    ensures
        space == is_space(c),
{
    let code = c as u32;
    (0x09 <= code && code <= 0x0D) || code == 0x20 || code == 0x85 || code == 0xA0 || code
        == 0x1680 || (0x2000 <= code && code <= 0x200A) || code == 0x2028 || code == 0x2029
        || code == 0x202F || code == 0x205F || code == 0x3000
}

/// A text without the white space at its start.
pub open spec fn trim_start(s: Seq<char>) -> Seq<char>
    decreases s.len(),
{
    if s.len() > 0 && is_space(s.first()) {
        trim_start(s.drop_first())
    } else {
        s
    }
}

/// A text without the white space at its end.
pub open spec fn trim_end(s: Seq<char>) -> Seq<char>
    decreases s.len(),
{
    if s.len() > 0 && is_space(s.last()) {
        trim_end(s.drop_last())
    } else {
        s
    }
}

/// A text without the white space at its start and at its end.
pub open spec fn trimmed(s: Seq<char>) -> Seq<char> {
    trim_end(trim_start(s))
}

/// Removes the white space at the start and at the end of a text.
pub fn trim(text: &str) -> (out: String)
    ensures
        out@ == trimmed(text@),
{
    let n = text.unicode_len();
    let mut start: usize = 0;
    proof {
        assert(text@.subrange(0, n as int) =~= text@);
    }
    while start < n && is_whitespace(text.get_char(start))
        invariant
            n == text@.len(),
            0 <= start <= n,
            trim_start(text@) == trim_start(text@.subrange(start as int, n as int)),
        decreases n - start,
    {
        proof {
            assert(text@.subrange(start as int, n as int).drop_first() =~= text@.subrange(
                start as int + 1,
                n as int,
            ));
        }
        start = start + 1;
    }
    let ghost rest = text@.subrange(start as int, n as int);
    assert(trim_start(text@) == rest);
    let mut end: usize = n;
    while end > start && is_whitespace(text.get_char(end - 1))
        invariant
            n == text@.len(),
            0 <= start <= end <= n,
            rest == text@.subrange(start as int, n as int),
            trim_end(rest) == trim_end(text@.subrange(start as int, end as int)),
        decreases end,
    {
        proof {
            assert(text@.subrange(start as int, end as int).drop_last() =~= text@.subrange(
                start as int,
                end as int - 1,
            ));
        }
        end = end - 1;
    }
    String::from_str(text.substring_char(start, end))
}

/// The non-empty trimmed fields of a text.
pub open spec fn list_items(s: Seq<char>, sep: char) -> Seq<Seq<char>> {
    fields(s, sep).map_values(|f: Seq<char>| trimmed(f)).filter(|f: Seq<char>| f.len() > 0)
}

/// Reads a list: the fields of the text, each trimmed, without the empty
/// ones.
pub fn parse_list(text: &str, sep: char) -> (items: Vec<String>)
    ensures
        texts(items@) == list_items(text@, sep),
{
    let parts = split_fields(text, sep);
    let ghost all = fields(text@, sep).map_values(|f: Seq<char>| trimmed(f));
    let ghost keep = |f: Seq<char>| f.len() > 0;
    let mut items: Vec<String> = Vec::new();
    let mut i: usize = 0;
    proof {
        assert(all.take(0) =~= Seq::<Seq<char>>::empty());
        assert(texts(items@) =~= Seq::<Seq<char>>::empty());
    }
    while i < parts.len()
        invariant
            0 <= i <= parts.len(),
            texts(parts@) == fields(text@, sep),
            all == fields(text@, sep).map_values(|f: Seq<char>| trimmed(f)),
            keep == |f: Seq<char>| f.len() > 0,
            texts(items@) == all.take(i as int).filter(keep),
        decreases parts.len() - i,
    {
        let item = trim(parts[i].as_str());
        proof {
            assert(texts(parts@)[i as int] == parts@[i as int]@);
            assert(item@ == all[i as int]);
            assert(all.take(i as int + 1).drop_last() =~= all.take(i as int));
            assert(all.take(i as int + 1).last() == all[i as int]);
            reveal(Seq::filter);
        }
        let ghost before = texts(items@);
        if item.as_str().unicode_len() > 0 {
            items.push(item);
            proof {
                assert(texts(items@) =~= before.push(all[i as int]));
            }
        }
        i = i + 1;
    }
    proof {
        assert(all.take(parts.len() as int) =~= all);
    }
    items
}

/// Whether a character is a decimal digit.
pub open spec fn is_digit(c: char) -> bool {
    0x30 <= c as u32 <= 0x39
}

/// The value of a decimal digit.
pub open spec fn digit_value(c: char) -> nat {
    (c as u32 - 0x30) as nat
}

/// Whether a text consists of decimal digits only.
pub open spec fn all_digits(s: Seq<char>) -> bool {
    forall|i: int| 0 <= i < s.len() ==> is_digit(#[trigger] s[i])
}

/// The number that a text of decimal digits denotes.
pub open spec fn decimal_value(s: Seq<char>) -> nat
    decreases s.len(),
{
    if s.len() == 0 {
        0
    } else {
        10 * decimal_value(s.drop_last()) + digit_value(s.last())
    }
}

/// The digits of a number text: the text without the plus sign that may
/// stand in front.
pub open spec fn unsigned_digits(s: Seq<char>) -> Seq<char> {
    if s.len() > 0 && s.first() == '+' {
        s.drop_first()
    } else {
        s
    }
}

/// The number that a text denotes: an optional plus sign followed by at
/// least one decimal digit and nothing else.
pub open spec fn number_of(s: Seq<char>) -> Option<nat> {
    let digits = unsigned_digits(s);
    if digits.len() > 0 && all_digits(digits) {
        Some(decimal_value(digits))
    } else {
        None
    }
}

/// A longer text of digits denotes no smaller number than its beginning.
pub proof fn lemma_decimal_value_grows(s: Seq<char>, k: int)
    requires
        0 <= k <= s.len(),
    ensures
        decimal_value(s.take(k)) <= decimal_value(s),
    decreases s.len() - k,
{
    if k == s.len() {
        assert(s.take(k) =~= s);
    } else {
        lemma_decimal_value_grows(s, k + 1);
        assert(s.take(k + 1).drop_last() =~= s.take(k));
    }
}

/// Reads a number: the value of the text if it denotes a number that fits a
/// machine word, and nothing otherwise.
pub fn parse_usize(text: &str) -> (value: Option<usize>)
    ensures
        value == match number_of(text@) {
            Some(v) => if v <= usize::MAX {
                Some(v as usize)
            } else {
                None
            },
            None => None,
        },
{
    let n = text.unicode_len();
    let mut i: usize = 0;
    if n > 0 && text.get_char(0) == '+' {
        i = 1;
    }
    let first: usize = i;
    let ghost digits = unsigned_digits(text@);
    proof {
        assert(digits =~= text@.subrange(first as int, n as int));
        assert(digits.take(0) =~= Seq::<char>::empty());
    }
    if i == n {
        return None;
    }
    let mut value: usize = 0;
    while i < n
        invariant
            n == text@.len(),
            first <= i <= n,
            first < n,
            digits == unsigned_digits(text@),
            digits == text@.subrange(first as int, n as int),
            all_digits(digits.take(i - first)),
            value == decimal_value(digits.take(i - first)),
        decreases n - i,
    {
        let c = text.get_char(i);
        let ghost k = i - first;
        proof {
            assert(digits[k] == c);
            assert(digits.take(k + 1).drop_last() =~= digits.take(k));
            assert(digits.take(k + 1).last() == c);
        }
        let code = c as u32;
        if code < 0x30 || code > 0x39 {
            assert(!is_digit(digits[k]));
            return None;
        }
        let digit = (code - 0x30) as usize;
        let next = match value.checked_mul(10) {
            Some(tens) => tens.checked_add(digit),
            None => None,
        };
        match next {
            Some(v) => {
                value = v;
            },
            None => {
                proof {
                    assert(decimal_value(digits.take(k + 1)) > usize::MAX);
                    if all_digits(digits) {
                        lemma_decimal_value_grows(digits, k + 1);
                    }
                }
                return None;
            },
        }
        proof {
            assert forall|j: int| 0 <= j < k + 1 implies is_digit(
                #[trigger] digits.take(k + 1)[j],
            ) by {
                if j < k {
                    assert(digits.take(k + 1)[j] == digits.take(k)[j]);
                }
            }
        }
        i = i + 1;
    }
    proof {
        assert(digits.take(n - first) =~= digits);
    }
    Some(value)
}

/// The truth value that a text denotes: `true` or `false`, spelled exactly
/// so.
pub open spec fn truth_of(s: Seq<char>) -> Option<bool> {
    if s == "true"@ {
        Some(true)
    } else if s == "false"@ {
        Some(false)
    } else {
        None
    }
}

/// Reads a truth value.
pub fn parse_bool(text: &str) -> (value: Option<bool>)
    ensures
        value == truth_of(text@),
{
    if same_text(text, "true") {
        Some(true)
    } else if same_text(text, "false") {
        Some(false)
    } else {
        None
    }
}

} // verus!
