//! Decimal text of 64-bit integers: the form in which identifiers and error
//! codes stand in a document.

use vstd::prelude::*;
use vstd::string::*;

verus! {

/// The character of a decimal digit.
pub open spec fn digit_char(d: int) -> char {
    (d + 48) as char
}

/// Whether a character is a decimal digit.
pub open spec fn is_digit(c: char) -> bool {
    48 <= c as int <= 57
}

/// The decimal digits of a natural number, most significant first.
pub open spec fn digits(n: nat) -> Seq<char>
    decreases n,
{
    if n < 10 {
        seq![digit_char(n as int)]
    } else {
        digits(n / 10).push(digit_char((n % 10) as int))
    }
}

/// The decimal text of an integer: its digits, after a minus sign if it is
/// negative.
pub open spec fn decimal(i: int) -> Seq<char> {
    if i < 0 {
        seq!['-'] + digits((-i) as nat)
    } else {
        digits(i as nat)
    }
}

/// Whether a text is the decimal text of a 64-bit integer.
pub open spec fn is_decimal_i64(text: Seq<char>) -> bool {
    exists|i: int| i64::MIN <= i <= i64::MAX && text == #[trigger] decimal(i)
}

/// The 64-bit integer that a decimal text stands for.
pub open spec fn decimal_value(text: Seq<char>) -> int {
    choose|i: int| i64::MIN <= i <= i64::MAX && text == #[trigger] decimal(i)
}

/// The number that a sequence of digits stands for.
pub open spec fn digits_value(s: Seq<char>) -> nat
    decreases s.len(),
{
    if s.len() == 0 {
        0
    } else {
        (digits_value(s.drop_last()) * 10 + (s.last() as int - 48)) as nat
    }
}

/// Whether a text is made of digits, at least one, with no needless zero in
/// front.
pub open spec fn canonical_digits(s: Seq<char>) -> bool {
    &&& s.len() > 0
    &&& forall|k: int| 0 <= k < s.len() ==> is_digit(#[trigger] s[k])
    &&& (s.len() == 1 || s[0] != '0')
}

/// The digits of a number are canonical and stand for that number.
pub proof fn lemma_digits_canonical(n: nat)
    ensures
        canonical_digits(digits(n)),
        digits_value(digits(n)) == n,
        n > 0 ==> digits(n)[0] != '0',
    decreases n,
{
    if n < 10 {
        let s = digits(n);
        assert(s.drop_last() =~= Seq::<char>::empty());
        assert(digits_value(s.drop_last()) == 0);
    } else {
        lemma_digits_canonical(n / 10);
        let p = digits(n / 10);
        let s = digits(n);
        assert(s.drop_last() =~= p);
        assert(s[0] == p[0]);
        assert forall|k: int| 0 <= k < s.len() implies is_digit(#[trigger] s[k]) by {
            if k < p.len() {
                assert(s[k] == p[k]);
            }
        }
    }
}

/// Canonical digits are the digits of the number they stand for.
pub proof fn lemma_canonical_is_digits(s: Seq<char>)
    requires
        canonical_digits(s),
    ensures
        digits(digits_value(s)) == s,
        s[0] != '0' ==> digits_value(s) > 0,
    decreases s.len(),
{
    let last = s.last() as int - 48;
    assert(is_digit(s[s.len() - 1]));
    if s.len() == 1 {
        assert(s.drop_last() =~= Seq::<char>::empty());
        assert(digits_value(s.drop_last()) == 0);
        assert(digits_value(s) == last);
        assert(digits(last as nat) =~= s);
    } else {
        let p = s.drop_last();
        assert(p[0] == s[0]);
        assert forall|k: int| 0 <= k < p.len() implies is_digit(#[trigger] p[k]) by {
            assert(p[k] == s[k]);
        }
        lemma_canonical_is_digits(p);
        let v = digits_value(p);
        assert(v > 0);
        let n = digits_value(s);
        assert(n == v * 10 + last);
        assert(n >= 10);
        assert(n / 10 == v);
        assert(n % 10 == last);
        assert(digits(n) =~= s);
    }
}

/// Two integers with the same decimal text are the same integer.
pub proof fn lemma_decimal_injective(a: int, b: int)
    requires
        decimal(a) == decimal(b),
    ensures
        a == b,
{
    let na = (if a < 0 { -a } else { a }) as nat;
    let nb = (if b < 0 { -b } else { b }) as nat;
    lemma_digits_canonical(na);
    lemma_digits_canonical(nb);
    if a < 0 && b < 0 {
        assert(decimal(a).subrange(1, decimal(a).len() as int) =~= digits(na));
        assert(decimal(b).subrange(1, decimal(b).len() as int) =~= digits(nb));
    } else if a < 0 {
        assert(decimal(a)[0] == '-');
        assert(is_digit(digits(nb)[0]));
    } else if b < 0 {
        assert(decimal(b)[0] == '-');
        assert(is_digit(digits(na)[0]));
    }
}

/// The decimal text of a 64-bit integer stands for that integer.
pub proof fn lemma_decimal_value(i: int)
    requires
        i64::MIN <= i <= i64::MAX,
    ensures
        is_decimal_i64(decimal(i)),
        decimal_value(decimal(i)) == i,
{
    lemma_decimal_injective(decimal_value(decimal(i)), i);
}

/// The value of a prefix of digits is at most the value of the whole.
proof fn lemma_prefix_value(s: Seq<char>, k: int)
    requires
        0 <= k <= s.len(),
        forall|j: int| 0 <= j < s.len() ==> is_digit(#[trigger] s[j]),
    ensures
        digits_value(s.subrange(0, k)) <= digits_value(s),
    decreases s.len() - k,
{
    if k == s.len() {
        assert(s.subrange(0, k) =~= s);
    } else {
        let p = s.subrange(0, k + 1);
        assert(p.drop_last() =~= s.subrange(0, k));
        assert(is_digit(s[k]));
        assert(p.last() == s[k]);
        lemma_prefix_value(s, k + 1);
    }
}

fn digit_text(d: u64) -> (r: &'static str)
    requires
        d < 10,
    ensures
        r@ == seq![digit_char(d as int)],
{
    proof {
        reveal_strlit("0");
        reveal_strlit("1");
        reveal_strlit("2");
        reveal_strlit("3");
        reveal_strlit("4");
        reveal_strlit("5");
        reveal_strlit("6");
        reveal_strlit("7");
        reveal_strlit("8");
        reveal_strlit("9");
    }
    let r = if d == 0 {
        "0"
    } else if d == 1 {
        "1"
    } else if d == 2 {
        "2"
    } else if d == 3 {
        "3"
    } else if d == 4 {
        "4"
    } else if d == 5 {
        "5"
    } else if d == 6 {
        "6"
    } else if d == 7 {
        "7"
    } else if d == 8 {
        "8"
    } else {
        "9"
    };
    assert(r@ =~= seq![digit_char(d as int)]);
    r
}

fn magnitude_text(n: u64) -> (r: String)
    ensures
        r@ == digits(n as nat),
{
    let mut text = String::from_str(digit_text(n % 10));
    let mut rest: u64 = n / 10;
    assert(digits(n as nat) =~= (if rest > 0 {
        digits(rest as nat)
    } else {
        Seq::<char>::empty()
    }) + text@);
    while rest > 0
        invariant
            digits(n as nat) == (if rest > 0 {
                digits(rest as nat)
            } else {
                Seq::<char>::empty()
            }) + text@,
        decreases rest,
    {
        let digit = digit_text(rest % 10);
        let ghost old_rest = rest;
        text = String::from_str(digit).concat(text.as_str());
        rest = rest / 10;
        assert(digits(old_rest as nat) =~= (if rest > 0 {
            digits(rest as nat)
        } else {
            Seq::<char>::empty()
        }) + digit@);
        assert(digits(n as nat) =~= (if rest > 0 {
            digits(rest as nat)
        } else {
            Seq::<char>::empty()
        }) + text@);
    }
    text
}

/// The decimal text of a 64-bit integer.
pub fn decimal_text(n: i64) -> (r: String)
    ensures
        r@ == decimal(n as int),
{
    if n < 0 {
        let magnitude: u64 = (-(n + 1)) as u64 + 1;
        let r = String::from_str("-").concat(magnitude_text(magnitude).as_str());
        proof {
            reveal_strlit("-");
            assert("-"@ =~= seq!['-']);
        }
        r
    } else {
        magnitude_text(n as u64)
    }
}

/// Reads canonical digits as a number no greater than `limit`; `None` where
/// the text is no such thing.
fn parse_magnitude(text: &str, start: usize, len: usize, limit: u64) -> (r: Option<u64>)
    requires
        len == text@.len(),
        start <= len,
        limit >= 9,
    ensures
        match r {
            Some(n) => n <= limit && text@.subrange(start as int, len as int) == digits(n as nat),
            None => forall|n: nat|
                n <= limit ==> text@.subrange(start as int, len as int) != #[trigger] digits(n),
        },
{
    let ghost body = text@.subrange(start as int, len as int);
    if start == len {
        assert forall|n: nat| n <= limit implies body != #[trigger] digits(n) by {
            lemma_digits_canonical(n);
        }
        return None;
    }
    if len - start > 1 && text.get_char(start) == '0' {
        assert forall|n: nat| n <= limit implies body != #[trigger] digits(n) by {
            lemma_digits_canonical(n);
            assert(body[0] == '0');
        }
        return None;
    }
    let mut value: u64 = 0;
    let mut i: usize = start;
    while i < len
        invariant
            start <= i <= len,
            len == text@.len(),
            body == text@.subrange(start as int, len as int),
            forall|k: int| 0 <= k < i - start ==> is_digit(#[trigger] body[k]),
            value == digits_value(body.subrange(0, i - start)),
            value <= limit,
            limit >= 9,
        decreases len - i,
    {
        let c = text.get_char(i);
        let code: u32 = c as u32;
        assert(body[i - start] == c);
        if code < 48 || code > 57 {
            assert forall|n: nat| n <= limit implies body != #[trigger] digits(n) by {
                lemma_digits_canonical(n);
                if body == digits(n) {
                    assert(is_digit(digits(n)[i - start]));
                }
            }
            return None;
        }
        let d: u64 = (code - 48) as u64;
        let ghost next = body.subrange(0, i - start + 1);
        proof {
            assert(next.drop_last() =~= body.subrange(0, i - start));
            assert(next.last() == c);
            assert(digits_value(next) == value * 10 + d);
        }
        if value > (limit - d) / 10 {
            assert(value * 10 + d > limit);
            assert forall|n: nat| n <= limit implies body != #[trigger] digits(n) by {
                lemma_digits_canonical(n);
                if body == digits(n) {
                    lemma_prefix_value(body, i - start + 1);
                }
            }
            return None;
        }
        value = value * 10 + d;
        i = i + 1;
    }
    proof {
        assert(body.subrange(0, i - start) =~= body);
        lemma_canonical_is_digits(body);
    }
    Some(value)
}

/// Reads the decimal text of a 64-bit integer; `None` for any other text.
pub fn parse_decimal(text: &str) -> (r: Option<i64>)
    ensures
        match r {
            Some(n) => is_decimal_i64(text@) && decimal_value(text@) == n,
            None => !is_decimal_i64(text@),
        },
{
    let r = read_decimal(text);
    proof {
        if let Some(n) = r {
            lemma_decimal_value(n as int);
        }
    }
    r
}

fn read_decimal(text: &str) -> (r: Option<i64>)
    ensures
        match r {
            Some(n) => text@ == decimal(n as int),
            None => !is_decimal_i64(text@),
        },
{
    let len = text.unicode_len();
    if len == 0 {
        assert forall|i: int| i64::MIN <= i <= i64::MAX implies text@ != #[trigger] decimal(i) by {
            lemma_digits_canonical((if i < 0 { -i } else { i }) as nat);
        }
        return None;
    }
    if text.get_char(0) == '-' {
        let ghost body = text@.subrange(1, len as int);
        match parse_magnitude(text, 1, len, 0x8000_0000_0000_0000u64) {
            Some(m) => {
                if m == 0 {
                    assert forall|i: int| i64::MIN <= i <= i64::MAX implies text@
                        != #[trigger] decimal(i) by {
                        let n = (if i < 0 { -i } else { i }) as nat;
                        lemma_digits_canonical(n);
                        lemma_digits_canonical(0);
                        if text@ == decimal(i) {
                            if i < 0 {
                                assert(decimal(i).subrange(1, len as int) =~= digits(n));
                            } else {
                                assert(is_digit(digits(n)[0]));
                            }
                        }
                    }
                    None
                } else {
                    let n: i64 = if m == 0x8000_0000_0000_0000u64 {
                        i64::MIN
                    } else {
                        -(m as i64)
                    };
                    assert(text@ =~= seq!['-'] + body);
                    Some(n)
                }
            },
            None => {
                assert forall|i: int| i64::MIN <= i <= i64::MAX implies text@
                    != #[trigger] decimal(i) by {
                    let n = (if i < 0 { -i } else { i }) as nat;
                    lemma_digits_canonical(n);
                    if text@ == decimal(i) {
                        if i < 0 {
                            assert(decimal(i).subrange(1, len as int) =~= digits(n));
                        } else {
                            assert(is_digit(digits(n)[0]));
                        }
                    }
                }
                None
            },
        }
    } else {
        match parse_magnitude(text, 0, len, 0x7fff_ffff_ffff_ffffu64) {
            Some(m) => {
                assert(text@.subrange(0, len as int) =~= text@);
                Some(m as i64)
            },
            None => {
                assert forall|i: int| i64::MIN <= i <= i64::MAX implies text@
                    != #[trigger] decimal(i) by {
                    let n = (if i < 0 { -i } else { i }) as nat;
                    lemma_digits_canonical(n);
                    assert(text@.subrange(0, len as int) =~= text@);
                    if i < 0 {
                        assert(decimal(i)[0] == '-');
                    }
                }
                None
            },
        }
    }
}

} // verus!
