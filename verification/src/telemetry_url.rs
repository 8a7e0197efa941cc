//! The URL scheme of the telemetry server: which recorded sessions a
//! request asks to have exported.
//!
//! The grammar is `/workouts/` followed by `latest`, a session key, or a
//! `key-key` range, closed by `.fit`; whatever follows is handed back as the
//! remainder.  A run of digits is taken greedily, and one whose value does
//! not fit 64 bits is rejected.
use vstd::prelude::*;

verus! {

/// Which sessions a request asks for.
#[derive(Debug, PartialEq, Eq, Clone, Copy)]
pub enum UrlKey {
    Latest,
    Key(u64),
    KeyRange((u64, u64)),
}

/// A request that does not fit the grammar.
#[derive(Debug, PartialEq, Eq, Clone, Copy)]
pub struct UrlParseError;

/// The numeric value of a digit character.
pub open spec fn digit_of(c: char) -> int {
    c as int - 48
}

/// Whether a character is a decimal digit.
pub open spec fn spec_is_digit(c: char) -> bool {
    48 <= c as int <= 57
}

/// Whether the path starts with `/workouts/`.
pub open spec fn spec_has_prefix(s: Seq<char>) -> bool {
    &&& s.len() >= 10
    &&& s[0] == '/'
    &&& s[1] == 'w'
    &&& s[2] == 'o'
    &&& s[3] == 'r'
    &&& s[4] == 'k'
    &&& s[5] == 'o'
    &&& s[6] == 'u'
    &&& s[7] == 't'
    &&& s[8] == 's'
    &&& s[9] == '/'
}

/// Whether the word `latest` stands at position `i`.
pub open spec fn spec_latest_at(s: Seq<char>, i: int) -> bool {
    &&& s.len() >= i + 6
    &&& s[i] == 'l'
    &&& s[i + 1] == 'a'
    &&& s[i + 2] == 't'
    &&& s[i + 3] == 'e'
    &&& s[i + 4] == 's'
    &&& s[i + 5] == 't'
}

/// Whether the closing `.fit` stands at position `i`.
pub open spec fn spec_fit_at(s: Seq<char>, i: int) -> bool {
    &&& 0 <= i
    &&& s.len() >= i + 4
    &&& s[i] == '.'
    &&& s[i + 1] == 'f'
    &&& s[i + 2] == 'i'
    &&& s[i + 3] == 't'
}

/// Where the run of digits starting at `i` ends.
pub open spec fn digits_end(s: Seq<char>, i: int) -> int
    decreases s.len() - i,
{
    if 0 <= i < s.len() && spec_is_digit(s[i]) {
        digits_end(s, i + 1)
    } else {
        i
    }
}

/// The value of the digits in `s[i..j)`.
pub open spec fn digits_value(s: Seq<char>, i: int, j: int) -> int
    decreases j - i,
{
    if j <= i {
        0
    } else {
        digits_value(s, i, j - 1) * 10 + digit_of(s[j - 1])
    }
}

/// The parse of a request path: the remainder after the closing `.fit` and
/// the key the path names, or nothing when the path does not fit the
/// grammar.  `latest` is preferred over digits; a digit run reaching a `-`
/// and further digits names a range, otherwise a single key.
pub open spec fn spec_parse_url(s: Seq<char>) -> Option<(Seq<char>, UrlKey)> {
    if !spec_has_prefix(s) {
        None
    } else if spec_latest_at(s, 10) {
        if spec_fit_at(s, 16) {
            Some((s.subrange(20, s.len() as int), UrlKey::Latest))
        } else {
            None
        }
    } else {
        let e1 = digits_end(s, 10);
        if e1 == 10 {
            None
        } else if digits_value(s, 10, e1) > u64::MAX {
            None
        } else {
            let v1 = digits_value(s, 10, e1) as u64;
            if e1 < s.len() && s[e1] == '-' && digits_end(s, e1 + 1) > e1 + 1 {
                let e2 = digits_end(s, e1 + 1);
                if digits_value(s, e1 + 1, e2) > u64::MAX {
                    None
                } else if spec_fit_at(s, e2) {
                    Some(
                        (
                            s.subrange(e2 + 4, s.len() as int),
                            UrlKey::KeyRange((v1, digits_value(s, e1 + 1, e2) as u64)),
                        ),
                    )
                } else {
                    None
                }
            } else {
                if spec_fit_at(s, e1) {
                    Some((s.subrange(e1 + 4, s.len() as int), UrlKey::Key(v1)))
                } else {
                    None
                }
            }
        }
    }
}

/// Digit-run values are non-negative.
proof fn lemma_digits_value_nonneg(s: Seq<char>, i: int, j: int)
    requires
        forall|k: int| i <= k < j ==> spec_is_digit(#[trigger] s[k]),
    ensures
        digits_value(s, i, j) >= 0,
    decreases j - i,
{
    if j > i {
        lemma_digits_value_nonneg(s, i, j - 1);
    }
}

/// Scans the run of digits starting at `from` and computes its value:
/// `None` when the value does not fit 64 bits.
fn scan_digits(i: &str, from: usize) -> (r: (usize, Option<u64>))
    requires
        from <= i@.len(),
        i@.len() <= usize::MAX,
    ensures
        r.0 == digits_end(i@, from as int),
        from <= r.0 <= i@.len(),
        r.1 is Some <==> digits_value(i@, from as int, r.0 as int) <= u64::MAX,
        r.1 matches Some(v) ==> v == digits_value(i@, from as int, r.0 as int),
{
    let n: usize = i.unicode_len();
    let ghost s = i@;
    let mut end: usize = from;
    while end < n
        invariant_except_break
            n == s.len(),
            i@ == s,
            from <= end <= n,
            forall|k: int| from <= k < end ==> spec_is_digit(#[trigger] s[k]),
            digits_end(s, end as int) == digits_end(s, from as int),
        ensures
            i@ == s,
            from <= end <= n,
            end == digits_end(s, from as int),
            forall|k: int| from <= k < end ==> spec_is_digit(#[trigger] s[k]),
        decreases n - end,
    {
        let c = i.get_char(end);
        let cv: u32 = c as u32;
        if !(48 <= cv && cv <= 57) {
            assert(!spec_is_digit(s[end as int]));
            break;
        }
        end = end + 1;
    }
    let ghost e = digits_end(s, from as int);
    let mut value: u64 = 0;
    let mut k: usize = from;
    let mut overflowed = false;
    while k < end
        invariant
            n == s.len(),
            i@ == s,
            from <= k <= end <= n,
            end == e,
            e == digits_end(s, from as int),
            forall|j: int| from <= j < end ==> spec_is_digit(#[trigger] s[j]),
            !overflowed ==> value == digits_value(s, from as int, k as int),
            overflowed ==> digits_value(s, from as int, k as int) > u64::MAX,
        decreases end - k,
    {
        let c = i.get_char(k);
        let d: u64 = (c as u32 as u64) - 48;
        if !overflowed {
            if value > (u64::MAX - d) / 10 {
                overflowed = true;
                proof {
                    assert(digits_value(s, from as int, k as int + 1) == value * 10 + d);
                    assert(value * 10 + d > u64::MAX) by (nonlinear_arith)
                        requires
                            value > (u64::MAX - d) / 10,
                            0 <= d <= 9,
                    ;
                }
            } else {
                proof {
                    assert(value * 10 + d <= u64::MAX) by (nonlinear_arith)
                        requires
                            value <= (u64::MAX - d) / 10,
                            0 <= d <= 9,
                    ;
                }
                value = value * 10 + d;
            }
        } else {
            proof {
                lemma_digits_value_nonneg(s, from as int, k as int);
                assert(digits_value(s, from as int, k as int + 1) == digits_value(
                    s,
                    from as int,
                    k as int,
                ) * 10 + digit_of(s[k as int]));
                assert(digits_value(s, from as int, k as int) * 10 >= digits_value(
                    s,
                    from as int,
                    k as int,
                )) by (nonlinear_arith)
                    requires
                        digits_value(s, from as int, k as int) >= 0,
                ;
            }
        }
        k = k + 1;
    }
    if overflowed {
        (end, None)
    } else {
        (end, Some(value))
    }
}

/// Parses a request path: the remainder after the closing `.fit` and the
/// key the path names, or an error when the path does not fit the grammar.
pub fn parse_url<'a>(i: &'a str) -> (r: Result<(&'a str, UrlKey), UrlParseError>)
    ensures
        r is Ok <==> spec_parse_url(i@) is Some,
        r matches Ok((rest, key)) ==> spec_parse_url(i@) == Some((rest@, key)),
{
    let n: usize = i.unicode_len();
    if n < 10 {
        return Err(UrlParseError);
    }
    if !(i.get_char(0) == '/' && i.get_char(1) == 'w' && i.get_char(2) == 'o' && i.get_char(3)
        == 'r' && i.get_char(4) == 'k' && i.get_char(5) == 'o' && i.get_char(6) == 'u'
        && i.get_char(7) == 't' && i.get_char(8) == 's' && i.get_char(9) == '/') {
        return Err(UrlParseError);
    }
    if n >= 16 && i.get_char(10) == 'l' && i.get_char(11) == 'a' && i.get_char(12) == 't'
        && i.get_char(13) == 'e' && i.get_char(14) == 's' && i.get_char(15) == 't' {
        if n >= 20 && i.get_char(16) == '.' && i.get_char(17) == 'f' && i.get_char(18) == 'i'
            && i.get_char(19) == 't' {
            let rest = i.substring_char(20, n);
            return Ok((rest, UrlKey::Latest));
        } else {
            return Err(UrlParseError);
        }
    }
    proof {
        assert(!spec_latest_at(i@, 10));
    }
    let (e1, o_v1) = scan_digits(i, 10);
    if e1 == 10 {
        return Err(UrlParseError);
    }
    let v1 = match o_v1 {
        None => {
            return Err(UrlParseError);
        },
        Some(v) => v,
    };
    if e1 < n && i.get_char(e1) == '-' {
        let (e2, o_v2) = scan_digits(i, e1 + 1);
        if e2 > e1 + 1 {
            let v2 = match o_v2 {
                None => {
                    return Err(UrlParseError);
                },
                Some(v) => v,
            };
            if e2 <= n - 4 && i.get_char(e2) == '.' && i.get_char(e2 + 1) == 'f' && i.get_char(
                e2 + 2,
            ) == 'i' && i.get_char(e2 + 3) == 't' {
                let rest = i.substring_char(e2 + 4, n);
                return Ok((rest, UrlKey::KeyRange((v1, v2))));
            } else {
                return Err(UrlParseError);
            }
        }
    }
    if e1 <= n - 4 && i.get_char(e1) == '.' && i.get_char(e1 + 1) == 'f' && i.get_char(e1 + 2)
        == 'i' && i.get_char(e1 + 3) == 't' {
        let rest = i.substring_char(e1 + 4, n);
        Ok((rest, UrlKey::Key(v1)))
    } else {
        Err(UrlParseError)
    }
}

} // verus!
