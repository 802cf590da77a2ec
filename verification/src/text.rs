//! Text helpers: comparison, decimal numerals, searching and cutting.

use vstd::prelude::*;
use vstd::slice::slice_subrange;
use vstd::string::{StrSliceExecFns, StringExecFns};

verus! {

/// The text in lower case, by the rules of Unicode.
pub uninterp spec fn lowercase(text: Seq<char>) -> Seq<char>;

/// `str::to_lowercase`: the text with each character replaced by its lower
/// case by the rules of Unicode, which is what `lowercase` names.
#[verifier::external_body]
pub(crate) fn to_lowercase(text: &str) -> (lower: String)
    ensures
        lower@ == lowercase(text@),
{
    text.to_lowercase()
}

/// Whether two strings hold the same characters.
pub fn same_text(a: &str, b: &str) -> (same: bool)
    ensures
        same == (a@ == b@),
{
    String::from_str(a) == String::from_str(b)
}

/// The characters of a string.
pub fn chars_of(s: &str) -> (chars: Vec<char>)
    ensures
        chars@ == s@,
{
    let n = s.unicode_len();
    let mut chars: Vec<char> = Vec::new();
    let mut i: usize = 0;
    while i < n
        invariant
            i <= n,
            n == s@.len(),
            chars@ == s@.take(i as int),
        decreases n - i,
    {
        chars.push(s.get_char(i));
        proof {
            assert(s@.take(i + 1) =~= s@.take(i as int).push(s@[i as int]));
        }
        i += 1;
    }
    proof {
        assert(s@.take(n as int) =~= s@);
    }
    chars
}

/// Whether the character is one of the ten decimal digits.
pub open spec fn is_digit(c: char) -> bool {
    '0' <= c <= '9'
}

/// The value of a decimal digit.
pub open spec fn digit_value(c: char) -> nat {
    (c as u32 - '0' as u32) as nat
}

/// The digit that stands for a value below ten.
pub open spec fn digit_char(d: nat) -> char {
    if d == 0 {
        '0'
    } else if d == 1 {
        '1'
    } else if d == 2 {
        '2'
    } else if d == 3 {
        '3'
    } else if d == 4 {
        '4'
    } else if d == 5 {
        '5'
    } else if d == 6 {
        '6'
    } else if d == 7 {
        '7'
    } else if d == 8 {
        '8'
    } else {
        '9'
    }
}

/// The decimal numeral of a natural number, without leading zeros.
pub open spec fn decimal(n: nat) -> Seq<char>
    decreases n,
{
    if n < 10 {
        seq![digit_char(n)]
    } else {
        decimal(n / 10).push(digit_char(n % 10))
    }
}

/// The number that a sequence of digits spells; leading zeros are allowed.
pub open spec fn digits_value(digits: Seq<char>) -> nat
    decreases digits.len(),
{
    if digits.len() == 0 {
        0
    } else {
        digits_value(digits.drop_last()) * 10 + digit_value(digits.last())
    }
}

/// Whether the sequence is made of decimal digits only.
pub open spec fn all_digits(digits: Seq<char>) -> bool {
    forall|i: int| 0 <= i < digits.len() ==> is_digit(#[trigger] digits[i])
}

/// The unsigned integer that a text spells: an optional `+`, then one or
/// more decimal digits, with a value that fits in `usize`. `None` for any
/// other text.
pub open spec fn parse_unsigned(text: Seq<char>) -> Option<usize> {
    let digits = if text.len() > 0 && text[0] == '+' {
        text.drop_first()
    } else {
        text
    };
    if digits.len() > 0 && all_digits(digits) && digits_value(digits) <= usize::MAX {
        Some(digits_value(digits) as usize)
    } else {
        None
    }
}

/// The signed integer that a text spells: an optional `+` or `-`, then one
/// or more decimal digits, with a value that fits in `i64`. `None` for any
/// other text.
pub open spec fn parse_signed(text: Seq<char>) -> Option<i64> {
    let negative = text.len() > 0 && text[0] == '-';
    let digits = if text.len() > 0 && (text[0] == '+' || text[0] == '-') {
        text.drop_first()
    } else {
        text
    };
    let value = if negative {
        -(digits_value(digits) as int)
    } else {
        digits_value(digits) as int
    };
    if digits.len() > 0 && all_digits(digits) && i64::MIN <= value <= i64::MAX {
        Some(value as i64)
    } else {
        None
    }
}

/// A longer run of digits spells a number at least as large as any of its
/// prefixes.
pub proof fn lemma_digits_value_grows(digits: Seq<char>, k: int)
    requires
        0 <= k <= digits.len(),
    ensures
        digits_value(digits.take(k)) <= digits_value(digits),
    decreases digits.len() - k,
{
    if k == digits.len() {
        assert(digits.take(k) =~= digits);
    } else {
        lemma_digits_value_grows(digits.drop_last(), k);
        assert(digits.drop_last().take(k) =~= digits.take(k));
    }
}

/// The decimal numeral of a number.
pub fn decimal_string(n: usize) -> (text: String)
    ensures
        text@ == decimal(n as nat),
    decreases n,
{
    let mut text = if n < 10 {
        String::new()
    } else {
        decimal_string(n / 10)
    };
    let digit = match n % 10 {
        0 => "0",
        1 => "1",
        2 => "2",
        3 => "3",
        4 => "4",
        5 => "5",
        6 => "6",
        7 => "7",
        8 => "8",
        _ => "9",
    };
    proof {
        reveal_strlit("0");
        reveal_strlit("1");
        reveal_strlit("2");
        reveal_strlit("3");
        reveal_strlit("4");
        reveal_strlit("5");
        reveal_strlit("6");
        reveal_strlit("7");
        reveal_strlit("8");
        reveal_strlit("9");
        assert(digit@ =~= seq![digit_char((n % 10) as nat)]);
        if n < 10 {
            assert(text@ + digit@ =~= seq![digit_char(n as nat)]);
        } else {
            assert(text@ + digit@ =~= decimal((n / 10) as nat).push(digit_char((n % 10) as nat)));
        }
    }
    text.append(digit);
    text
}

/// Reads a run of decimal digits as a number, or `None` if the run is
/// empty, holds another character, or spells a number above `limit`.
fn digits_to_number(chars: &[char], start: usize, limit: u64) -> (value: Option<u64>)
    requires
        start <= chars@.len(),
        limit >= 9,
    ensures
        ({
            let digits = chars@.skip(start as int);
            value == if digits.len() > 0 && all_digits(digits) && digits_value(digits) <= limit {
                Some(digits_value(digits) as u64)
            } else {
                None::<u64>
            }
        }),
{
    let n = chars.len();
    let ghost digits = chars@.skip(start as int);
    if start == n {
        return None;
    }
    let mut acc: u64 = 0;
    let mut i: usize = start;
    proof {
        assert(digits.take(0).len() == 0);
    }
    while i < n
        invariant
            start <= i <= n,
            n == chars@.len(),
            digits == chars@.skip(start as int),
            all_digits(digits.take(i - start)),
            acc == digits_value(digits.take(i - start)),
            acc <= limit,
            limit >= 9,
        decreases n - i,
    {
        let c = chars[i];
        let ghost k = i - start;
        proof {
            assert(digits[k] == c);
            assert(digits.take(k + 1).drop_last() =~= digits.take(k));
            assert(digits.take(k + 1).last() == c);
        }
        if !('0' <= c && c <= '9') {
            proof {
                assert(!is_digit(digits[k]));
            }
            return None;
        }
        let d: u64 = (c as u32 - '0' as u32) as u64;
        let next = if acc <= (limit - d) / 10 {
            acc * 10 + d
        } else {
            proof {
                lemma_digits_value_grows(digits, k + 1);
                if all_digits(digits) {
                    assert(digits_value(digits.take(k + 1)) == acc * 10 + d);
                }
            }
            return None;
        };
        proof {
            assert forall|j: int| 0 <= j < k + 1 implies is_digit(
                #[trigger] digits.take(k + 1)[j],
            ) by {
                if j < k {
                    assert(digits.take(k)[j] == digits[j]);
                }
            }
        }
        acc = next;
        i += 1;
    }
    proof {
        assert(digits.take(n - start) =~= digits);
    }
    Some(acc)
}

/// Parses an unsigned integer as `usize` does from a string: an optional
/// `+` and one or more decimal digits.
pub fn parse_usize(chars: &[char]) -> (value: Option<usize>)
    ensures
        value == parse_unsigned(chars@),
{
    let start: usize = if chars.len() > 0 && chars[0] == '+' {
        1
    } else {
        0
    };
    proof {
        if start == 1 {
            assert(chars@.skip(1) =~= chars@.drop_first());
        } else {
            assert(chars@.skip(0) =~= chars@);
        }
    }
    match digits_to_number(chars, start, usize::MAX as u64) {
        Some(v) => Some(v as usize),
        None => None,
    }
}

/// Parses a signed integer as `i64` does from a string: an optional sign
/// and one or more decimal digits.
pub fn parse_i64(chars: &[char]) -> (value: Option<i64>)
    ensures
        value == parse_signed(chars@),
{
    let negative = chars.len() > 0 && chars[0] == '-';
    let start: usize = if chars.len() > 0 && (chars[0] == '+' || chars[0] == '-') {
        1
    } else {
        0
    };
    proof {
        if start == 1 {
            assert(chars@.skip(1) =~= chars@.drop_first());
        } else {
            assert(chars@.skip(0) =~= chars@);
        }
    }
    if negative {
        match digits_to_number(chars, start, 0x8000_0000_0000_0000u64) {
            Some(v) => {
                if v == 0x8000_0000_0000_0000u64 {
                    Some(i64::MIN)
                } else {
                    Some(-(v as i64))
                }
            },
            None => None,
        }
    } else {
        match digits_to_number(chars, start, 0x7fff_ffff_ffff_ffffu64) {
            Some(v) => Some(v as i64),
            None => None,
        }
    }
}

/// Number of items in front of the first `c`; the length of the sequence
/// where `c` does not occur.
pub open spec fn first_index_of<T>(text: Seq<T>, c: T) -> int
    decreases text.len(),
{
    if text.len() == 0 {
        0
    } else if text[0] == c {
        0
    } else {
        1 + first_index_of(text.drop_first(), c)
    }
}

/// Whether `c` occurs in the text.
pub open spec fn has_char(text: Seq<char>, c: char) -> bool {
    first_index_of(text, c) < text.len()
}

/// [`first_index_of`] is the least index that holds `c`.
pub proof fn lemma_first_index_of<T>(text: Seq<T>, c: T)
    ensures
        0 <= first_index_of(text, c) <= text.len(),
        forall|j: int| 0 <= j < first_index_of(text, c) ==> text[j] != c,
        first_index_of(text, c) < text.len() ==> text[first_index_of(text, c)] == c,
    decreases text.len(),
{
    if text.len() > 0 && text[0] != c {
        let rest = text.drop_first();
        lemma_first_index_of(rest, c);
        assert forall|j: int| 0 <= j < first_index_of(text, c) implies text[j] != c by {
            if j > 0 {
                assert(rest[j - 1] == text[j]);
            }
        }
    }
}

/// An index that holds `c` and has no `c` in front of it is
/// [`first_index_of`].
pub proof fn lemma_first_index_is<T>(text: Seq<T>, c: T, k: int)
    requires
        0 <= k <= text.len(),
        forall|j: int| 0 <= j < k ==> text[j] != c,
        k < text.len() ==> text[k] == c,
    ensures
        first_index_of(text, c) == k,
{
    lemma_first_index_of(text, c);
    let f = first_index_of(text, c);
    if f < k {
        assert(text[f] != c);
    }
}

/// The index of the first `c`, or the length of the text where there is
/// none.
pub fn find_char(chars: &[char], c: char) -> (index: usize)
    ensures
        index == first_index_of(chars@, c),
{
    let mut i: usize = 0;
    while i < chars.len()
        invariant
            i <= chars@.len(),
            forall|j: int| 0 <= j < i ==> chars@[j] != c,
        decreases chars@.len() - i,
    {
        if chars[i] == c {
            proof {
                lemma_first_index_is(chars@, c, i as int);
            }
            return i;
        }
        i += 1;
    }
    proof {
        lemma_first_index_is(chars@, c, i as int);
    }
    i
}

/// Whether the text begins with `prefix`.
pub open spec fn starts_with(text: Seq<char>, prefix: Seq<char>) -> bool {
    prefix.len() <= text.len() && text.take(prefix.len() as int) == prefix
}

/// Whether the text ends with `suffix`.
pub open spec fn ends_with(text: Seq<char>, suffix: Seq<char>) -> bool {
    suffix.len() <= text.len() && text.skip(text.len() - suffix.len()) == suffix
}

/// The text without the occurrences of `pattern`, found from left to right
/// without overlap.
pub open spec fn without(text: Seq<char>, pattern: Seq<char>) -> Seq<char>
    recommends
        pattern.len() > 0,
    decreases text.len(),
{
    if pattern.len() == 0 || text.len() == 0 {
        text
    } else if starts_with(text, pattern) {
        without(text.skip(pattern.len() as int), pattern)
    } else {
        seq![text[0]] + without(text.drop_first(), pattern)
    }
}

/// The text without the run of `c` at its start.
pub open spec fn trim_leading(text: Seq<char>, c: char) -> Seq<char>
    decreases text.len(),
{
    if text.len() > 0 && text[0] == c {
        trim_leading(text.drop_first(), c)
    } else {
        text
    }
}

/// The unsigned integers among the parts of a text that `sep` separates,
/// in order; parts that spell no unsigned integer are passed over.
pub open spec fn numeric_parts(text: Seq<char>, sep: char) -> Seq<usize>
    decreases text.len(),
{
    let end = first_index_of(text, sep);
    let head = match parse_unsigned(text.take(end)) {
        Some(value) => seq![value],
        None => Seq::empty(),
    };
    if 0 <= end < text.len() {
        head + numeric_parts(text.skip(end + 1), sep)
    } else {
        head
    }
}

/// Whether `pattern` stands in `chars` at position `at`.
pub fn matches_at(chars: &[char], at: usize, pattern: &[char]) -> (found: bool)
    requires
        at <= chars@.len(),
    ensures
        found == starts_with(chars@.skip(at as int), pattern@),
{
    let n = chars.len();
    let m = pattern.len();
    if n - at < m {
        return false;
    }
    let ghost rest = chars@.skip(at as int);
    let mut i: usize = 0;
    while i < m
        invariant
            i <= m,
            m == pattern@.len(),
            n == chars@.len(),
            at + m <= n,
            rest == chars@.skip(at as int),
            forall|j: int| 0 <= j < i ==> chars@[at + j] == pattern@[j],
        decreases m - i,
    {
        if chars[at + i] != pattern[i] {
            proof {
                assert(rest.take(m as int)[i as int] == chars@[at + i]);
            }
            return false;
        }
        i += 1;
    }
    proof {
        assert(rest.take(m as int) =~= pattern@);
    }
    true
}

/// Whether the text begins with `prefix`.
pub fn has_prefix(text: &str, prefix: &str) -> (found: bool)
    ensures
        found == starts_with(text@, prefix@),
{
    let chars = chars_of(text);
    let pattern = chars_of(prefix);
    proof {
        assert(chars@.skip(0) =~= chars@);
    }
    matches_at(chars.as_slice(), 0, pattern.as_slice())
}

/// Whether the text ends with `suffix`.
pub fn has_suffix(text: &str, suffix: &str) -> (found: bool)
    ensures
        found == ends_with(text@, suffix@),
{
    let chars = chars_of(text);
    let pattern = chars_of(suffix);
    if chars.len() < pattern.len() {
        return false;
    }
    let at = chars.len() - pattern.len();
    let found = matches_at(chars.as_slice(), at, pattern.as_slice());
    proof {
        let rest = chars@.skip(at as int);
        assert(rest.take(pattern@.len() as int) =~= rest);
    }
    found
}

/// The text without the occurrences of `pattern`, which must not be empty.
pub fn remove_all(text: &str, pattern: &str) -> (out: String)
    requires
        pattern@.len() > 0,
    ensures
        out@ == without(text@, pattern@),
{
    let chars = chars_of(text);
    let pat = chars_of(pattern);
    let n = chars.len();
    let m = pat.len();
    let mut out = String::new();
    let mut i: usize = 0;
    proof {
        assert(text@.skip(0) =~= text@);
    }
    while i < n
        invariant
            i <= n,
            n == text@.len(),
            m == pat@.len(),
            m > 0,
            chars@ == text@,
            pat@ == pattern@,
            out@ + without(text@.skip(i as int), pattern@) == without(text@, pattern@),
        decreases n - i,
    {
        let ghost rest = text@.skip(i as int);
        if matches_at(chars.as_slice(), i, pat.as_slice()) {
            proof {
                assert(rest.skip(m as int) =~= text@.skip(i + m));
            }
            i += m;
        } else {
            let piece = text.substring_char(i, i + 1);
            proof {
                assert(piece@ =~= seq![rest[0]]);
                assert(rest.drop_first() =~= text@.skip(i + 1));
                assert((out@ + piece@) + without(text@.skip(i + 1), pattern@) =~= out@ + (seq![
                    rest[0],
                ] + without(rest.drop_first(), pattern@)));
            }
            out.append(piece);
            i += 1;
        }
    }
    proof {
        assert(text@.skip(n as int).len() == 0);
        assert(out@ + Seq::<char>::empty() =~= out@);
    }
    out
}

/// The text without the run of `c` at its start.
pub fn trim_start(text: &str, c: char) -> (out: String)
    ensures
        out@ == trim_leading(text@, c),
{
    let chars = chars_of(text);
    let n = chars.len();
    let mut i: usize = 0;
    proof {
        assert(text@.skip(0) =~= text@);
    }
    while i < n && chars[i] == c
        invariant
            i <= n,
            n == text@.len(),
            chars@ == text@,
            trim_leading(text@.skip(i as int), c) == trim_leading(text@, c),
        decreases n - i,
    {
        proof {
            assert(text@.skip(i as int).drop_first() =~= text@.skip(i + 1));
        }
        i += 1;
    }
    proof {
        let rest = text@.skip(i as int);
        if i < n {
            assert(rest[0] == chars@[i as int]);
        }
        assert(trim_leading(rest, c) == rest);
        assert(text@.subrange(i as int, n as int) =~= rest);
    }
    String::from_str(text.substring_char(i, n))
}

/// The unsigned integers among the parts of `chars` that `sep` separates.
pub fn parse_parts(chars: &[char], sep: char) -> (out: Vec<usize>)
    ensures
        out@ == numeric_parts(chars@, sep),
{
    let n = chars.len();
    let mut out: Vec<usize> = Vec::new();
    let mut start: usize = 0;
    proof {
        assert(chars@.skip(0) =~= chars@);
    }
    loop
        invariant_except_break
            out@ + numeric_parts(chars@.skip(start as int), sep) == numeric_parts(chars@, sep),
        invariant
            start <= n,
            n == chars@.len(),
        ensures
            out@ == numeric_parts(chars@, sep),
        decreases n - start,
    {
        let rest = slice_subrange(chars, start, n);
        proof {
            assert(rest@ =~= chars@.skip(start as int));
            lemma_first_index_of(rest@, sep);
        }
        let len = find_char(rest, sep);
        let part = slice_subrange(rest, 0, len);
        proof {
            assert(part@ =~= rest@.take(len as int));
        }
        let ghost before = out@;
        match parse_usize(part) {
            Some(value) => {
                out.push(value);
                proof {
                    assert(out@ =~= before + seq![value]);
                }
            },
            None => {
                proof {
                    assert(out@ =~= before + Seq::<usize>::empty());
                }
            },
        }
        if len >= rest.len() {
            break;
        }
        proof {
            assert(rest@.skip(len + 1) =~= chars@.skip(start + len + 1));
            let head = match parse_unsigned(rest@.take(len as int)) {
                Some(value) => seq![value],
                None => Seq::<usize>::empty(),
            };
            assert(out@ == before + head);
            assert((before + head) + numeric_parts(rest@.skip(len + 1), sep) =~= before + (head
                + numeric_parts(rest@.skip(len + 1), sep)));
        }
        start = start + len + 1;
    }
    out
}

/// A decimal numeral is a non-empty run of digits that spells its number.
pub proof fn lemma_decimal_digits(n: nat)
    ensures
        decimal(n).len() > 0,
        all_digits(decimal(n)),
        digits_value(decimal(n)) == n,
    decreases n,
{
    let text = decimal(n);
    if n < 10 {
        assert(text.drop_last().len() == 0);
        assert(digits_value(text.drop_last()) == 0);
        assert(text.last() == digit_char(n));
    } else {
        lemma_decimal_digits(n / 10);
        assert(text.drop_last() =~= decimal(n / 10));
        assert(text.last() == digit_char(n % 10));
        assert forall|i: int| 0 <= i < text.len() implies is_digit(#[trigger] text[i]) by {
            if i < text.len() - 1 {
                assert(text[i] == decimal(n / 10)[i]);
            }
        }
    }
}

/// A text of digits holds no character that is not a digit.
pub proof fn lemma_digits_lack(text: Seq<char>, c: char)
    requires
        all_digits(text),
        !is_digit(c),
    ensures
        first_index_of(text, c) == text.len(),
{
    lemma_first_index_is(text, c, text.len() as int);
}

/// Reading a decimal numeral gives back its number.
pub proof fn lemma_parse_decimal(n: usize)
    ensures
        parse_unsigned(decimal(n as nat)) == Some(n),
{
    lemma_decimal_digits(n as nat);
    let text = decimal(n as nat);
    assert(is_digit(text[0]));
}

} // verus!
