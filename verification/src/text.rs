//! Text helpers: splitting on a separator, decimal numbers, trimming.
use vstd::prelude::*;

verus! {

/// The fields of `s` between occurrences of `sep`, as `str::split` yields
/// them: there is always at least one, and empty fields are kept.
pub open spec fn split_fields(s: Seq<char>, sep: char) -> Seq<Seq<char>>
    decreases s.len(),
{
    if s.len() == 0 {
        seq![Seq::<char>::empty()]
    } else {
        let rest = split_fields(s.drop_last(), sep);
        if s.last() == sep {
            rest.push(Seq::<char>::empty())
        } else {
            rest.update(rest.len() - 1, rest.last().push(s.last()))
        }
    }
}

pub proof fn lemma_split_fields_nonempty(s: Seq<char>, sep: char)
    ensures
        split_fields(s, sep).len() >= 1,
    decreases s.len(),
{
    if s.len() > 0 {
        lemma_split_fields_nonempty(s.drop_last(), sep);
    }
}

/// Splits `s` at every `sep`.
pub fn split_text(s: &str, sep: char) -> (r: Vec<String>)
    ensures
        r@.map_values(|f: String| f@) == split_fields(s@, sep),
        r@.len() >= 1,
{
    let n = s.unicode_len();
    let mut fields: Vec<String> = Vec::new();
    let mut cur: Vec<char> = Vec::new();
    let mut i: usize = 0;
    proof {
        assert(s@.take(0) == Seq::<char>::empty());
    }
    while i < n
        invariant
            n == s@.len(),
            i <= n,
            fields@.map_values(|f: String| f@).push(cur@) == split_fields(s@.take(i as int), sep),
        decreases n - i,
    {
        let c = s.get_char(i);
        let ghost prefix = s@.take(i as int);
        proof {
            assert(s@.take(i + 1).drop_last() == prefix);
            assert(s@.take(i + 1).last() == c);
            lemma_split_fields_nonempty(prefix, sep);
        }
        if c == sep {
            let f = string_from_chars(cur);
            let ghost before = fields@;
            fields.push(f);
            cur = Vec::new();
            proof {
                assert(fields@.map_values(|f: String| f@) == before.map_values(|f: String| f@).push(
                    f@,
                ));
            }
        } else {
            let ghost before = cur@;
            cur.push(c);
            proof {
                let old_all = fields@.map_values(|f: String| f@).push(before);
                assert(old_all.update(old_all.len() - 1, old_all.last().push(c)) == fields@.map_values(
                    |f: String| f@,
                ).push(cur@));
            }
        }
        i = i + 1;
    }
    proof {
        assert(s@.take(n as int) == s@);
    }
    let last = string_from_chars(cur);
    fields.push(last);
    proof {
        lemma_split_fields_nonempty(s@, sep);
    }
    fields
}

/// `String::from_iter` over characters.
#[verifier::external_body]
pub(crate) fn string_from_chars(chars: Vec<char>) -> (r: String)
    ensures
        r@ == chars@,
{
    String::from_iter(chars)
}

/// The characters with the Unicode `White_Space` property, which
/// `str::trim` removes.
pub open spec fn is_white_space(c: char) -> bool {
    ('\u{9}' <= c <= '\u{d}') || c == ' ' || c == '\u{85}' || c == '\u{a0}' || c == '\u{1680}'
        || ('\u{2000}' <= c <= '\u{200a}') || c == '\u{2028}' || c == '\u{2029}' || c
        == '\u{202f}' || c == '\u{205f}' || c == '\u{3000}'
}

pub fn white_space(c: char) -> (r: bool)
    ensures
        r == is_white_space(c),
{
    ('\u{9}' <= c && c <= '\u{d}') || c == ' ' || c == '\u{85}' || c == '\u{a0}' || c
        == '\u{1680}' || ('\u{2000}' <= c && c <= '\u{200a}') || c == '\u{2028}' || c
        == '\u{2029}' || c == '\u{202f}' || c == '\u{205f}' || c == '\u{3000}'
}

/// `s` without its leading whitespace.
pub open spec fn trim_start(s: Seq<char>) -> Seq<char>
    decreases s.len(),
{
    if s.len() > 0 && is_white_space(s[0]) {
        trim_start(s.drop_first())
    } else {
        s
    }
}

/// `s` without its trailing whitespace.
pub open spec fn trim_end(s: Seq<char>) -> Seq<char>
    decreases s.len(),
{
    if s.len() > 0 && is_white_space(s.last()) {
        trim_end(s.drop_last())
    } else {
        s
    }
}

/// A text with leading and trailing whitespace removed, as `str::trim`
/// returns it.
pub open spec fn spec_trim(s: Seq<char>) -> Seq<char> {
    trim_end(trim_start(s))
}

/// A text without whitespace is its own trimmed form.
pub proof fn lemma_trim_no_white_space(s: Seq<char>)
    requires
        forall|i: int| 0 <= i < s.len() ==> !is_white_space(#[trigger] s[i]),
    ensures
        spec_trim(s) == s,
{
    if s.len() > 0 {
        assert(!is_white_space(s[0]));
        assert(!is_white_space(s[s.len() - 1]));
    }
}

/// Removes leading and trailing whitespace.
pub fn trim_text(s: &str) -> (r: String)
    ensures
        r@ == spec_trim(s@),
{
    let n = s.unicode_len();
    let mut a: usize = 0;
    assert(s@.subrange(0, n as int) == s@);
    while a < n && white_space(s.get_char(a))
        invariant
            n == s@.len(),
            a <= n,
            trim_start(s@) == trim_start(s@.subrange(a as int, n as int)),
        decreases n - a,
    {
        let ghost t = s@.subrange(a as int, n as int);
        assert(t.drop_first() == s@.subrange(a + 1, n as int));
        a = a + 1;
    }
    let ghost t = s@.subrange(a as int, n as int);
    assert(trim_start(s@) == t);
    let mut b: usize = n;
    while b > a && white_space(s.get_char(b - 1))
        invariant
            n == s@.len(),
            a <= b <= n,
            trim_end(t) == trim_end(s@.subrange(a as int, b as int)),
            t == s@.subrange(a as int, n as int),
        decreases b - a,
    {
        let ghost u = s@.subrange(a as int, b as int);
        assert(u.drop_last() == s@.subrange(a as int, b - 1));
        b = b - 1;
    }
    String::from_str(s.substring_char(a, b))
}

/// Whether `s` holds the character `c`.
pub fn has_char(s: &str, c: char) -> (r: bool)
    ensures
        r == s@.contains(c),
{
    let n = s.unicode_len();
    let mut i: usize = 0;
    while i < n
        invariant
            n == s@.len(),
            i <= n,
            forall|j: int| 0 <= j < i ==> s@[j] != c,
        decreases n - i,
    {
        if s.get_char(i) == c {
            return true;
        }
        i = i + 1;
    }
    false
}

/// Whether a text equals another.
pub fn text_eq(a: &str, b: &str) -> (r: bool)
    ensures
        r == (a@ == b@),
{
    a.to_owned() == b.to_owned()
}

pub open spec fn is_digit(c: char) -> bool {
    '0' <= c <= '9'
}

pub open spec fn all_digits(s: Seq<char>) -> bool {
    forall|i: int| 0 <= i < s.len() ==> is_digit(#[trigger] s[i])
}

/// The value of a string of decimal digits.
pub open spec fn digits_value(s: Seq<char>) -> int
    decreases s.len(),
{
    if s.len() == 0 {
        0
    } else {
        digits_value(s.drop_last()) * 10 + (s.last() as int - '0' as int)
    }
}

/// The integer a decimal text denotes: an optional sign (`+` or `-`)
/// followed by at least one digit.
pub open spec fn spec_parse_int(s: Seq<char>) -> Option<int> {
    if s.len() > 0 && (s[0] == '-' || s[0] == '+') {
        let rest = s.drop_first();
        if rest.len() > 0 && all_digits(rest) {
            Some(
                if s[0] == '-' {
                    -digits_value(rest)
                } else {
                    digits_value(rest)
                },
            )
        } else {
            None
        }
    } else if s.len() > 0 && all_digits(s) {
        Some(digits_value(s))
    } else {
        None
    }
}

/// What `str::parse::<i32>` accepts: a decimal integer within range.
pub open spec fn spec_parse_i32(s: Seq<char>) -> Option<i32> {
    match spec_parse_int(s) {
        Some(v) => if i32::MIN <= v <= i32::MAX {
            Some(v as i32)
        } else {
            None
        },
        None => None,
    }
}

/// What `str::parse::<usize>` accepts: an unsigned decimal integer within
/// range (a `+` sign is allowed, a `-` sign is not).
pub open spec fn spec_parse_usize(s: Seq<char>) -> Option<usize> {
    if s.len() > 0 && s[0] == '-' {
        None
    } else {
        match spec_parse_int(s) {
            Some(v) => if 0 <= v <= usize::MAX {
                Some(v as usize)
            } else {
                None
            },
            None => None,
        }
    }
}

proof fn lemma_digits_value_nonneg(s: Seq<char>)
    requires
        all_digits(s),
    ensures
        digits_value(s) >= 0,
    decreases s.len(),
{
    if s.len() > 0 {
        lemma_digits_value_nonneg(s.drop_last());
    }
}

/// A longer run of digits is worth at least as much as its prefix.
proof fn lemma_digits_value_grows(s: Seq<char>, i: int, j: int)
    requires
        all_digits(s),
        0 <= i <= j <= s.len(),
    ensures
        digits_value(s.take(i)) <= digits_value(s.take(j)),
    decreases j - i,
{
    if i < j {
        lemma_digits_value_grows(s, i, j - 1);
        assert(s.take(j).drop_last() == s.take(j - 1));
        lemma_digits_value_nonneg(s.take(j - 1));
    }
}

/// The value of the digits of `s` from position `from` on, or `None` when
/// there are none, one is not a digit, or the value exceeds `limit`.
fn parse_digits(s: &str, from: usize, limit: u64) -> (r: Option<u64>)
    requires
        from <= s@.len(),
        limit <= u64::MAX / 10 - 9,
    ensures
        ({
            let d = s@.subrange(from as int, s@.len() as int);
            match r {
                Some(v) => d.len() > 0 && all_digits(d) && v == digits_value(d) && v <= limit,
                None => d.len() == 0 || !all_digits(d) || digits_value(d) > limit,
            }
        }),
{
    let n = s.unicode_len();
    let ghost d = s@.subrange(from as int, n as int);
    if from >= n {
        return None;
    }
    let mut acc: u64 = 0;
    let mut i: usize = from;
    while i < n
        invariant
            n == s@.len(),
            d == s@.subrange(from as int, n as int),
            from <= i <= n,
            limit <= u64::MAX / 10 - 9,
            all_digits(d.take(i - from)),
            acc == digits_value(d.take(i - from)),
            acc <= limit,
        decreases n - i,
    {
        let c = s.get_char(i);
        proof {
            assert(d.take(i - from + 1).drop_last() == d.take(i - from));
            assert(d.take(i - from + 1).last() == c);
        }
        if !('0' <= c && c <= '9') {
            proof {
                assert(!is_digit(d[i - from]));
            }
            return None;
        }
        let digit = (c as u32 - '0' as u32) as u64;
        acc = acc * 10 + digit;
        proof {
            assert(all_digits(d.take(i - from + 1)));
        }
        if acc > limit {
            proof {
                if all_digits(d) {
                    lemma_digits_value_grows(d, i - from + 1, d.len() as int);
                }
                assert(d.take(d.len() as int) == d);
            }
            return None;
        }
        i = i + 1;
    }
    proof {
        assert(d.take(n - from) == d);
    }
    Some(acc)
}

/// `str::parse::<i32>`.
pub fn parse_i32(s: &str) -> (r: Option<i32>)
    ensures
        r == spec_parse_i32(s@),
{
    let n = s.unicode_len();
    if n == 0 {
        return None;
    }
    let first = s.get_char(0);
    let signed = first == '-' || first == '+';
    let from: usize = if signed {
        1
    } else {
        0
    };
    let ghost rest = s@.subrange(from as int, n as int);
    proof {
        assert(s@.drop_first() == s@.subrange(1, n as int));
        assert(s@.subrange(0, n as int) == s@);
    }
    match parse_digits(s, from, 2147483648) {
        Some(v) => {
            if first == '-' {
                Some((0 - (v as i64)) as i32)
            } else if v <= 2147483647 {
                Some(v as i32)
            } else {
                None
            }
        },
        None => {
            proof {
                if rest.len() > 0 && all_digits(rest) {
                    lemma_digits_value_nonneg(rest);
                }
            }
            None
        },
    }
}

/// `str::parse::<usize>`.
pub fn parse_usize(s: &str) -> (r: Option<usize>)
    ensures
        r == spec_parse_usize(s@),
{
    let n = s.unicode_len();
    if n == 0 {
        return None;
    }
    let first = s.get_char(0);
    if first == '-' {
        return None;
    }
    let from: usize = if first == '+' {
        1
    } else {
        0
    };
    let ghost rest = s@.subrange(from as int, n as int);
    proof {
        assert(s@.drop_first() == s@.subrange(1, n as int));
        assert(s@.subrange(0, n as int) == s@);
    }
    let r = parse_usize_digits(s, from);
    proof {
        if rest.len() > 0 && all_digits(rest) {
            lemma_digits_value_nonneg(rest);
        }
    }
    r
}

/// The value of the digits of `s` from position `from` on, or `None` when
/// there are none, one is not a digit, or the value does not fit a `usize`.
fn parse_usize_digits(s: &str, from: usize) -> (r: Option<usize>)
    requires
        from <= s@.len(),
    ensures
        ({
            let d = s@.subrange(from as int, s@.len() as int);
            match r {
                Some(v) => d.len() > 0 && all_digits(d) && v == digits_value(d),
                None => d.len() == 0 || !all_digits(d) || digits_value(d) > usize::MAX,
            }
        }),
{
    let n = s.unicode_len();
    let ghost d = s@.subrange(from as int, n as int);
    if from >= n {
        return None;
    }
    let mut acc: usize = 0;
    let mut i: usize = from;
    while i < n
        invariant
            n == s@.len(),
            d == s@.subrange(from as int, n as int),
            from <= i <= n,
            all_digits(d.take(i - from)),
            acc == digits_value(d.take(i - from)),
        decreases n - i,
    {
        let c = s.get_char(i);
        proof {
            assert(d.take(i - from + 1).drop_last() == d.take(i - from));
            assert(d.take(i - from + 1).last() == c);
        }
        if !('0' <= c && c <= '9') {
            proof {
                assert(!is_digit(d[i - from]));
            }
            return None;
        }
        let digit = (c as u32 - '0' as u32) as usize;
        proof {
            assert(all_digits(d.take(i - from + 1)));
        }
        match acc.checked_mul(10) {
            Some(m) => match m.checked_add(digit) {
                Some(a) => {
                    acc = a;
                },
                None => {
                    proof {
                        if all_digits(d) {
                    lemma_digits_value_grows(d, i - from + 1, d.len() as int);
                }
                        assert(d.take(d.len() as int) == d);
                    }
                    return None;
                },
            },
            None => {
                proof {
                    if all_digits(d) {
                    lemma_digits_value_grows(d, i - from + 1, d.len() as int);
                }
                    assert(d.take(d.len() as int) == d);
                    lemma_digits_value_nonneg(d.take(i - from));
                }
                return None;
            },
        }
        i = i + 1;
    }
    proof {
        assert(d.take(n - from) == d);
    }
    Some(acc)
}

} // verus!
