use vstd::prelude::*;

verus! {

/// A decimal digit character.
pub open spec fn is_digit(c: char) -> bool {
    48 <= c as int <= 57
}

/// Numeric value of a digit character.
pub open spec fn digit_val(c: char) -> int {
    c as int - 48
}

/// Every character of `s` is a decimal digit.
pub open spec fn all_digits(s: Seq<char>) -> bool {
    forall|i: int| 0 <= i < s.len() ==> is_digit(#[trigger] s[i])
}

/// Value of a digit string read left to right.
pub open spec fn dec_value(s: Seq<char>) -> int
    decreases s.len(),
{
    if s.len() == 0 {
        0
    } else {
        dec_value(s.drop_last()) * 10 + digit_val(s.last())
    }
}

/// Shape of an integer literal: optional sign, then one or more digits.
pub open spec fn is_int_literal(s: Seq<char>) -> bool {
    if s.len() == 0 {
        false
    } else if s[0] == '+' || s[0] == '-' {
        s.len() > 1 && all_digits(s.skip(1))
    } else {
        all_digits(s)
    }
}

/// Value of an integer literal.
pub open spec fn int_literal_value(s: Seq<char>) -> int {
    if s.len() > 0 && s[0] == '-' {
        -dec_value(s.skip(1))
    } else if s.len() > 0 && s[0] == '+' {
        dec_value(s.skip(1))
    } else {
        dec_value(s)
    }
}

/// An integer literal whose value fits in an `i32`.
pub open spec fn i32_literal_ok(s: Seq<char>) -> bool {
    is_int_literal(s) && -0x8000_0000 <= int_literal_value(s) <= 0x7FFF_FFFF
}

/// A digit string has a nonnegative value.
pub proof fn lemma_dec_value_nonneg(s: Seq<char>)
    requires
        all_digits(s),
    ensures
        dec_value(s) >= 0,
    decreases s.len(),
{
    if s.len() > 0 {
        assert(forall|i: int|
            0 <= i < s.drop_last().len() ==> is_digit(#[trigger] s.drop_last()[i]));
        lemma_dec_value_nonneg(s.drop_last());
    }
}

/// Appending a digit never shrinks the value of a digit string.
pub proof fn lemma_dec_value_push(s: Seq<char>, c: char)
    requires
        all_digits(s),
        is_digit(c),
    ensures
        dec_value(s.push(c)) == dec_value(s) * 10 + digit_val(c),
        dec_value(s.push(c)) >= dec_value(s),
{
    assert(s.push(c).drop_last() =~= s);
    assert(s.push(c).last() == c);
    lemma_dec_value_nonneg(s);
}

/// Parses a decimal integer with optional sign, exactly when the whole
/// text is an integer literal whose value fits in an `i32`.
pub fn parse_i32(s: &str) -> (r: Option<i32>)
    ensures
        r is Some <==> i32_literal_ok(s@),
        r is Some ==> r->0 == int_literal_value(s@),
{
    let len = s.unicode_len();
    if len == 0 {
        return None;
    }
    let first = s.get_char(0);
    let neg = first == '-';
    let start: usize = if first == '-' || first == '+' {
        1
    } else {
        0
    };
    if len == start {
        return None;
    }
    let ghost digits = s@.skip(start as int);
    let mut acc: u64 = 0;
    let mut over = false;
    let mut i: usize = start;
    while i < len
        invariant
            start <= i <= len,
            len == s@.len(),
            start < len,
            start == 0 || start == 1,
            start == 1 <==> (s@[0] == '-' || s@[0] == '+'),
            neg == (s@[0] == '-'),
            digits == s@.skip(start as int),
            all_digits(s@.subrange(start as int, i as int)),
            !over ==> acc == dec_value(s@.subrange(start as int, i as int)) && acc
                <= 0xFFFF_FFFFu64 * 10 + 9,
            over ==> dec_value(s@.subrange(start as int, i as int)) > 0xFFFF_FFFF,
        decreases len - i,
    {
        let c = s.get_char(i);
        let d = c as u32;
        let ghost pre = s@.subrange(start as int, i as int);
        if d < 48 || d > 57 {
            proof {
                assert(s@.skip(0) =~= s@);
                assert(s@.skip(start as int)[i - start] == s@[i as int]);
                assert(!is_digit(s@[i as int]));
                assert(!all_digits(s@.skip(start as int)));
                assert(!is_int_literal(s@));
            }
            return None;
        }
        proof {
            assert(pre.push(s@[i as int]) =~= s@.subrange(start as int, i + 1));
            lemma_dec_value_push(pre, s@[i as int]);
        }
        if !over {
            if acc > 0xFFFF_FFFF {
                over = true;
                proof {
                    lemma_dec_value_nonneg(pre);
                }
            } else {
                acc = acc * 10 + (d - 48) as u64;
            }
        } else {
            proof {
                lemma_dec_value_nonneg(pre);
            }
        }
        i = i + 1;
    }
    proof {
        assert(s@.subrange(start as int, len as int) =~= digits);
        assert(all_digits(digits));
        assert(s@.skip(0) =~= s@);
        assert(is_int_literal(s@));
        if start == 0 {
            assert(int_literal_value(s@) == dec_value(digits)) by {
                assert(s@.skip(0) =~= s@);
            }
        }
    }
    if over {
        proof {
            assert(int_literal_value(s@) > 0x7FFF_FFFF || int_literal_value(s@) < -0x8000_0000);
        }
        return None;
    }
    if neg {
        if acc <= 0x8000_0000 {
            Some((-(acc as i64)) as i32)
        } else {
            None
        }
    } else {
        if acc <= 0x7FFF_FFFF {
            Some(acc as i32)
        } else {
            None
        }
    }
}

/// The character of one decimal digit.
pub open spec fn digit_char(d: int) -> char {
    if d == 0 {
        '0'
    } else if d == 1 {
        '1'
    } else if d == 2 {
        '2'
    } else if d == 3 {
        '3'
    } else if d == 4 {
        '4'
    } else if d == 5 {
        '5'
    } else if d == 6 {
        '6'
    } else if d == 7 {
        '7'
    } else if d == 8 {
        '8'
    } else {
        '9'
    }
}

/// Decimal digit string of a nonnegative number.
pub open spec fn dec_seq(n: int) -> Seq<char>
    decreases n,
{
    if n < 10 {
        seq![digit_char(n)]
    } else {
        dec_seq(n / 10).push(digit_char(n % 10))
    }
}

/// Decimal rendering of an integer: a minus sign for negative values,
/// then the digits.
pub open spec fn int_str(n: int) -> Seq<char> {
    if n < 0 {
        seq!['-'] + dec_seq(-n)
    } else {
        dec_seq(n)
    }
}

/// A one-character string holding one digit.
fn digit_string(d: u32) -> (r: String)
    requires
        d < 10,
    ensures
        r@ =~= seq![digit_char(d as int)],
{
    match d {
        0 => {
            proof {
                reveal_strlit("0");
            }
            String::from_str("0")
        },
        1 => {
            proof {
                reveal_strlit("1");
            }
            String::from_str("1")
        },
        2 => {
            proof {
                reveal_strlit("2");
            }
            String::from_str("2")
        },
        3 => {
            proof {
                reveal_strlit("3");
            }
            String::from_str("3")
        },
        4 => {
            proof {
                reveal_strlit("4");
            }
            String::from_str("4")
        },
        5 => {
            proof {
                reveal_strlit("5");
            }
            String::from_str("5")
        },
        6 => {
            proof {
                reveal_strlit("6");
            }
            String::from_str("6")
        },
        7 => {
            proof {
                reveal_strlit("7");
            }
            String::from_str("7")
        },
        8 => {
            proof {
                reveal_strlit("8");
            }
            String::from_str("8")
        },
        _ => {
            proof {
                reveal_strlit("9");
            }
            String::from_str("9")
        },
    }
}

/// Decimal digits of a nonnegative number, most significant first.
fn u128_dec_string(n: u128) -> (r: String)
    ensures
        r@ == dec_seq(n as int),
    decreases n,
{
    if n < 10 {
        digit_string(n as u32)
    } else {
        let mut s = u128_dec_string(n / 10);
        let d = digit_string((n % 10) as u32);
        s.append(d.as_str());
        proof {
            assert(dec_seq(n as int / 10) + seq![digit_char(n as int % 10)] =~= dec_seq(
                n as int / 10,
            ).push(digit_char(n as int % 10)));
        }
        s
    }
}

/// Decimal rendering of an `i128`.
pub fn i128_to_string(n: i128) -> (r: String)
    ensures
        r@ == int_str(n as int),
{
    if n < 0 {
        let mag: u128 = ((-(n + 1)) as u128) + 1;
        proof {
            reveal_strlit("-");
        }
        let mut s = String::from_str("-");
        let digits = u128_dec_string(mag);
        s.append(digits.as_str());
        proof {
            assert(mag as int == -(n as int));
            assert("-"@ + dec_seq(mag as int) =~= seq!['-'] + dec_seq(-(n as int)));
        }
        s
    } else {
        u128_dec_string(n as u128)
    }
}

/// Decimal rendering of an `i32`.
pub fn i32_to_string(n: i32) -> (r: String)
    ensures
        r@ == int_str(n as int),
{
    i128_to_string(n as i128)
}

/// Digit strings hold digit characters only.
pub proof fn lemma_dec_seq_digits(n: int)
    requires
        n >= 0,
    ensures
        all_digits(dec_seq(n)),
    decreases n,
{
    if n >= 10 {
        lemma_dec_seq_digits(n / 10);
        assert forall|i: int| 0 <= i < dec_seq(n).len() implies is_digit(#[trigger] dec_seq(n)[i]) by {
            if i < dec_seq(n / 10).len() {
                assert(dec_seq(n)[i] == dec_seq(n / 10)[i]);
            }
        }
    }
}

/// A rendered integer never holds a tilde, so the report delimiter can
/// never occur inside a numeric field.
pub proof fn lemma_int_str_no_tilde(n: int)
    ensures
        forall|i: int| 0 <= i < int_str(n).len() ==> (#[trigger] int_str(n)[i]) != '~',
{
    if n < 0 {
        lemma_dec_seq_digits(-n);
    } else {
        lemma_dec_seq_digits(n);
    }
}

} // verus!
