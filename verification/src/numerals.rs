use vstd::prelude::*;

verus! {

pub open spec fn is_digit(c: char) -> bool {
    '0' <= c && c <= '9'
}

pub open spec fn digit_val(c: char) -> int {
    c as u32 - '0' as u32
}

pub open spec fn all_digits(s: Seq<char>) -> bool {
    forall|i: int| 0 <= i < s.len() ==> is_digit(#[trigger] s[i])
}

/// The numeric value of a string of decimal digits.
pub open spec fn dec_val(s: Seq<char>) -> int
    decreases s.len(),
{
    if s.len() == 0 {
        0
    } else {
        dec_val(s.drop_last()) * 10 + digit_val(s.last())
    }
}

/// The digits of an unsigned numeral, after an optional leading plus sign.
pub open spec fn numeral_digits(s: Seq<char>) -> Seq<char> {
    if s.len() > 0 && s[0] == '+' {
        s.drop_first()
    } else {
        s
    }
}

/// The strings that Rust's string-to-`u32` conversion accepts: an optional
/// `+`, then one or more decimal digits, with a value that fits.
pub open spec fn parses_as_u32(s: Seq<char>) -> bool {
    let d = numeral_digits(s);
    d.len() > 0 && all_digits(d) && dec_val(d) <= u32::MAX
}

/// The value of an accepted unsigned numeral.
pub open spec fn u32_of(s: Seq<char>) -> int {
    dec_val(numeral_digits(s))
}

proof fn lemma_dec_val_nonneg(s: Seq<char>)
    requires
        all_digits(s),
    ensures
        dec_val(s) >= 0,
    decreases s.len(),
{
    if s.len() > 0 {
        assert(all_digits(s.drop_last()));
        lemma_dec_val_nonneg(s.drop_last());
    }
}

proof fn lemma_dec_val_take_succ(s: Seq<char>, i: int)
    requires
        0 <= i < s.len(),
    ensures
        dec_val(s.take(i + 1)) == dec_val(s.take(i)) * 10 + digit_val(s[i]),
{
    assert(s.take(i + 1).drop_last() =~= s.take(i));
    assert(s.take(i + 1).last() == s[i]);
}

proof fn lemma_dec_val_prefix_le(s: Seq<char>, i: int)
    requires
        all_digits(s),
        0 <= i <= s.len(),
    ensures
        dec_val(s.take(i)) <= dec_val(s),
    decreases s.len() - i,
{
    if i < s.len() {
        assert(all_digits(s.take(i)));
        lemma_dec_val_nonneg(s.take(i));
        lemma_dec_val_take_succ(s, i);
        lemma_dec_val_prefix_le(s, i + 1);
    } else {
        assert(s.take(i) =~= s);
    }
}

/// Parse an unsigned decimal numeral exactly as Rust's `u32` parser does.
pub fn parse_u32(v: &Vec<char>) -> (r: Option<u32>)
    ensures
        r is Some <==> parses_as_u32(v@),
        r matches Some(a) ==> a == u32_of(v@),
{
    let n = v.len();
    let start: usize = if n > 0 && v[0] == '+' {
        1
    } else {
        0
    };
    let ghost d = numeral_digits(v@);
    proof {
        assert(d =~= v@.subrange(start as int, n as int));
    }
    if start >= n {
        return None;
    }
    let mut acc: u32 = 0;
    let mut i = start;
    while i < n
        invariant
            start <= i <= n,
            n == v@.len(),
            start <= 1,
            d == numeral_digits(v@),
            d =~= v@.subrange(start as int, n as int),
            all_digits(d.take(i - start)),
            acc == dec_val(d.take(i - start)),
        decreases n - i,
    {
        let c = v[i];
        if !('0' <= c && c <= '9') {
            proof {
                assert(d[i - start] == c);
                assert(!all_digits(d));
            }
            return None;
        }
        let dv: u32 = c as u32 - 48;
        let wide: u64 = acc as u64 * 10 + dv as u64;
        proof {
            assert(d[i - start] == c);
            lemma_dec_val_take_succ(d, i - start);
        }
        if wide > u32::MAX as u64 {
            proof {
                if all_digits(d) {
                    lemma_dec_val_prefix_le(d, i - start + 1);
                }
            }
            return None;
        }
        acc = wide as u32;
        i = i + 1;
    }
    proof {
        assert(d.take(n - start) =~= d);
    }
    Some(acc)
}

/// The character of one decimal digit.
pub open spec fn digit_char(d: int) -> char {
    if d == 0 {
        '0'
    } else if d == 1 {
        '1'
    } else if d == 2 {
        '2'
    } else if d == 3 {
        '3'
    } else if d == 4 {
        '4'
    } else if d == 5 {
        '5'
    } else if d == 6 {
        '6'
    } else if d == 7 {
        '7'
    } else if d == 8 {
        '8'
    } else {
        '9'
    }
}

/// The canonical decimal numeral of a non-negative number.
pub open spec fn dec_digits_of(n: int) -> Seq<char>
    decreases n,
{
    if n < 10 {
        seq![digit_char(n)]
    } else {
        dec_digits_of(n / 10).push(digit_char(n % 10))
    }
}

/// The canonical numeral of `n` is one or more digits and reads back to `n`.
pub proof fn lemma_dec_digits_of(n: int)
    requires
        0 <= n,
    ensures
        all_digits(dec_digits_of(n)),
        dec_digits_of(n).len() > 0,
        dec_val(dec_digits_of(n)) == n,
    decreases n,
{
    if n < 10 {
        let d = seq![digit_char(n)];
        assert(dec_val(Seq::<char>::empty()) == 0);
        assert(d.drop_last() =~= Seq::<char>::empty());
        assert(d.last() == digit_char(n));
        assert(dec_val(d) == digit_val(digit_char(n)));
    } else {
        lemma_dec_digits_of(n / 10);
        let d0 = dec_digits_of(n / 10);
        let d = d0.push(digit_char(n % 10));
        assert(d.drop_last() =~= d0);
        assert(d.last() == digit_char(n % 10));
        assert(dec_val(d) == dec_val(d0) * 10 + digit_val(digit_char(n % 10)));
        assert(all_digits(d));
    }
}

/// The first position at or after `i` that does not hold a decimal digit.
pub open spec fn digits_end_from(s: Seq<char>, i: int) -> int
    decreases s.len() - i,
{
    if i < s.len() && 0 <= i && is_digit(s[i]) {
        digits_end_from(s, i + 1)
    } else {
        i
    }
}

pub proof fn lemma_digits_end_from(s: Seq<char>, i: int)
    requires
        0 <= i <= s.len(),
    ensures
        i <= digits_end_from(s, i) <= s.len(),
        forall|m: int| i <= m < digits_end_from(s, i) ==> is_digit(#[trigger] s[m]),
        digits_end_from(s, i) == s.len() || !is_digit(s[digits_end_from(s, i)]),
    decreases s.len() - i,
{
    if i < s.len() && is_digit(s[i]) {
        lemma_digits_end_from(s, i + 1);
    }
}

fn digits_end(v: &Vec<char>, from: usize) -> (r: usize)
    requires
        from <= v@.len(),
    ensures
        r == digits_end_from(v@, from as int),
        from <= r <= v@.len(),
{
    let n = v.len();
    let mut i = from;
    while i < n && '0' <= v[i] && v[i] <= '9'
        invariant
            from <= i <= n,
            n == v@.len(),
            digits_end_from(v@, from as int) == digits_end_from(v@, i as int),
        decreases n - i,
    {
        i = i + 1;
    }
    i
}

/// The body of a float literal after an optional leading sign.
pub open spec fn sign_stripped(s: Seq<char>) -> Seq<char> {
    if s.len() > 0 && (s[0] == '+' || s[0] == '-') {
        s.drop_first()
    } else {
        s
    }
}

/// Case-insensitive match of one character.
pub open spec fn ic(c: char, lo: char, up: char) -> bool {
    c == lo || c == up
}

/// The special float words `inf`, `infinity` and `nan`, in any case.
pub open spec fn is_inf_nan(t: Seq<char>) -> bool {
    ||| (t.len() == 3 && ic(t[0], 'i', 'I') && ic(t[1], 'n', 'N') && ic(t[2], 'f', 'F'))
    ||| (t.len() == 8 && ic(t[0], 'i', 'I') && ic(t[1], 'n', 'N') && ic(t[2], 'f', 'F') && ic(
        t[3],
        'i',
        'I',
    ) && ic(t[4], 'n', 'N') && ic(t[5], 'i', 'I') && ic(t[6], 't', 'T') && ic(t[7], 'y', 'Y'))
    ||| (t.len() == 3 && ic(t[0], 'n', 'N') && ic(t[1], 'a', 'A') && ic(t[2], 'n', 'N'))
}

/// A well-formed exponent part starts at `i`: `e` or `E`, an optional sign,
/// then digits reaching the end of the string.
pub open spec fn exp_ok_from(t: Seq<char>, i: int) -> bool {
    &&& 0 <= i < t.len()
    &&& (t[i] == 'e' || t[i] == 'E')
    &&& {
        let j = if i + 1 < t.len() && (t[i + 1] == '+' || t[i + 1] == '-') {
            i + 2
        } else {
            i + 1
        };
        j < t.len() && digits_end_from(t, j) == t.len()
    }
}

/// Where the mantissa of a sign-stripped float literal ends: digits with an
/// optional fraction, or a fraction alone; `-1` where there is none.
pub open spec fn mantissa_end(t: Seq<char>) -> int {
    let d1 = digits_end_from(t, 0);
    if d1 > 0 {
        if d1 < t.len() && t[d1] == '.' {
            digits_end_from(t, d1 + 1)
        } else {
            d1
        }
    } else {
        if t.len() >= 2 && t[0] == '.' && digits_end_from(t, 1) > 1 {
            digits_end_from(t, 1)
        } else {
            -1
        }
    }
}

/// The strings Rust's string-to-float conversion accepts: an optional sign,
/// then `inf`, `infinity` or `nan` in any case, or a decimal number with an
/// optional fraction and an optional exponent.
pub open spec fn accepts_float(s: Seq<char>) -> bool {
    let t = sign_stripped(s);
    is_inf_nan(t) || {
        let m = mantissa_end(t);
        m >= 0 && (m == t.len() || exp_ok_from(t, m))
    }
}

/// The characters a float literal can hold: signs, digits, the decimal
/// point, the exponent mark, and the letters of `inf`, `infinity` and `nan`
/// in either case.
pub open spec fn float_char(c: char) -> bool {
    ||| is_digit(c)
    ||| c == '+'
    ||| c == '-'
    ||| c == '.'
    ||| ic(c, 'e', 'E')
    ||| ic(c, 'i', 'I')
    ||| ic(c, 'n', 'N')
    ||| ic(c, 'f', 'F')
    ||| ic(c, 'a', 'A')
    ||| ic(c, 't', 'T')
    ||| ic(c, 'y', 'Y')
}

proof fn lemma_float_body_chars(t: Seq<char>)
    requires
        is_inf_nan(t) || (mantissa_end(t) >= 0 && (mantissa_end(t) == t.len() || exp_ok_from(
            t,
            mantissa_end(t),
        ))),
    ensures
        t.len() > 0,
        forall|i: int| 0 <= i < t.len() ==> float_char(#[trigger] t[i]),
{
    if is_inf_nan(t) {
        assert forall|i: int| 0 <= i < t.len() implies float_char(#[trigger] t[i]) by {
            if t.len() == 3 {
                assert(i == 0 || i == 1 || i == 2);
            } else {
                assert(i == 0 || i == 1 || i == 2 || i == 3 || i == 4 || i == 5 || i == 6 || i
                    == 7);
            }
        }
    } else {
        let m = mantissa_end(t);
        let d1 = digits_end_from(t, 0);
        lemma_digits_end_from(t, 0);
        if d1 > 0 {
            if d1 < t.len() && t[d1] == '.' {
                lemma_digits_end_from(t, d1 + 1);
            }
        } else {
            lemma_digits_end_from(t, 1);
        }
        assert forall|i: int| 0 <= i < m implies float_char(#[trigger] t[i]) by {
            if d1 > 0 {
                if i >= d1 {
                    assert(t[d1] == '.');
                    if i > d1 {
                        assert(is_digit(t[i]));
                    }
                }
            } else {
                assert(t[0] == '.');
                if i > 0 {
                    assert(is_digit(t[i]));
                }
            }
        }
        if m == t.len() {
        } else {
            let j = if m + 1 < t.len() && (t[m + 1] == '+' || t[m + 1] == '-') {
                m + 2
            } else {
                m + 1
            };
            lemma_digits_end_from(t, j);
            assert forall|i: int| m <= i < t.len() implies float_char(#[trigger] t[i]) by {
                if i == m {
                    assert(t[m] == 'e' || t[m] == 'E');
                } else if i < j {
                    assert(t[i] == '+' || t[i] == '-');
                } else {
                    assert(is_digit(t[i]));
                }
            }
        }
    }
}

/// An accepted float literal is non-empty and holds only float characters:
/// in particular no colon, no underscore, and no letter of `RUB`.
pub proof fn lemma_accepts_float_chars(s: Seq<char>)
    requires
        accepts_float(s),
    ensures
        s.len() > 0,
        forall|i: int| 0 <= i < s.len() ==> float_char(#[trigger] s[i]),
{
    let t = sign_stripped(s);
    lemma_float_body_chars(t);
    assert forall|i: int| 0 <= i < s.len() implies float_char(#[trigger] s[i]) by {
        if s.len() > 0 && (s[0] == '+' || s[0] == '-') {
            if i > 0 {
                assert(s[i] == t[i - 1]);
            }
        } else {
            assert(s[i] == t[i]);
        }
    }
}

fn ic_e(c: char, lo: char, up: char) -> (r: bool)
    ensures
        r == ic(c, lo, up),
{
    c == lo || c == up
}

/// Decide whether `v` holds a numeral that Rust's float parser accepts.
pub fn is_float_text(v: &Vec<char>) -> (r: bool)
    ensures
        r == accepts_float(v@),
{
    let n = v.len();
    let start: usize = if n > 0 && (v[0] == '+' || v[0] == '-') {
        1
    } else {
        0
    };
    let t = crate::chars::char_subvec(v, start, n);
    proof {
        assert(t@ =~= sign_stripped(v@));
    }
    let tn = t.len();
    let special = (tn == 3 && ic_e(t[0], 'i', 'I') && ic_e(t[1], 'n', 'N') && ic_e(t[2], 'f', 'F'))
        || (tn == 8 && ic_e(t[0], 'i', 'I') && ic_e(t[1], 'n', 'N') && ic_e(t[2], 'f', 'F') && ic_e(
        t[3],
        'i',
        'I',
    ) && ic_e(t[4], 'n', 'N') && ic_e(t[5], 'i', 'I') && ic_e(t[6], 't', 'T') && ic_e(
        t[7],
        'y',
        'Y',
    )) || (tn == 3 && ic_e(t[0], 'n', 'N') && ic_e(t[1], 'a', 'A') && ic_e(t[2], 'n', 'N'));
    if special {
        return true;
    }
    let d1 = digits_end(&t, 0);
    let m_opt: Option<usize> = if d1 > 0 {
        if d1 < tn && t[d1] == '.' {
            Some(digits_end(&t, d1 + 1))
        } else {
            Some(d1)
        }
    } else {
        if tn >= 2 && t[0] == '.' {
            let e = digits_end(&t, 1);
            if e > 1 {
                Some(e)
            } else {
                None
            }
        } else {
            None
        }
    };
    match m_opt {
        None => {
            proof {
                assert(mantissa_end(t@) == -1);
            }
            false
        },
        Some(m) => {
            proof {
                assert(m == mantissa_end(t@));
            }
            if m == tn {
                true
            } else if !(t[m] == 'e' || t[m] == 'E') {
                false
            } else {
                let j = if m + 1 < tn && (t[m + 1] == '+' || t[m + 1] == '-') {
                    m + 2
                } else {
                    m + 1
                };
                let de = digits_end(&t, j);
                j < tn && de == tn
            }
        },
    }
}

} // verus!
