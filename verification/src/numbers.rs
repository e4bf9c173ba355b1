//! The console protocol's numbers. Parsing: unsigned integers for menu and
//! catalog numbers, rates and durations, and amounts with an optional dot
//! and up to two fraction digits for money — a malformed string is
//! reported, never guessed at. Rendering: decimal strings, with exactly two
//! fraction digits for amounts of money.

use vstd::prelude::*;

use crate::entities::DUE_UNITS_PER_CENT;

verus! {

/// A decimal digit.
pub open spec fn is_digit(c: char) -> bool {
    '0' <= c && c <= '9'
}

/// The value of a decimal digit.
pub open spec fn digit_val(c: char) -> int {
    c as int - '0' as int
}

/// Every character is a decimal digit.
pub open spec fn all_digits(s: Seq<char>) -> bool {
    forall|i: int| 0 <= i < s.len() ==> is_digit(s[i])
}

/// The number a string of decimal digits denotes, most significant first.
pub open spec fn digits_val(s: Seq<char>) -> int
    decreases s.len(),
{
    if s.len() == 0 {
        0
    } else {
        digits_val(s.drop_last()) * 10 + digit_val(s.last())
    }
}

/// Appending digits never lowers the denoted value.
pub proof fn lemma_digits_val_prefix(s: Seq<char>, k: int, m: int)
    requires
        0 <= k <= m <= s.len(),
        all_digits(s),
    ensures
        0 <= digits_val(s.subrange(0, k)) <= digits_val(s.subrange(0, m)),
    decreases m - k,
{
    lemma_digits_val_nonneg(s.subrange(0, k));
    if k < m {
        let shorter = s.subrange(0, m - 1);
        let longer = s.subrange(0, m);
        assert(longer.drop_last() =~= shorter);
        lemma_digits_val_nonneg(shorter);
        assert(is_digit(longer.last()));
        lemma_digits_val_prefix(s, k, m - 1);
    }
}

/// A digit string denotes a value of at least zero.
pub proof fn lemma_digits_val_nonneg(s: Seq<char>)
    requires
        all_digits(s),
    ensures
        digits_val(s) >= 0,
    decreases s.len(),
{
    if s.len() > 0 {
        assert(all_digits(s.drop_last())) by {
            assert(forall|i: int|
                0 <= i < s.len() - 1 ==> s.drop_last()[i] == s[i]);
        }
        lemma_digits_val_nonneg(s.drop_last());
        assert(is_digit(s.last()));
    }
}

/// Parses a nonempty string of decimal digits. `Some` exactly when the
/// string fits the grammar and its value fits the machine range.
pub fn parse_digits(s: &str) -> (r: Option<u64>)
    ensures
        match r {
            Some(v) => s@.len() > 0 && all_digits(s@) && v == digits_val(s@),
            None => s@.len() == 0 || !all_digits(s@) || digits_val(s@) > u64::MAX,
        },
{
    let n = s.unicode_len();
    if n == 0 {
        return None;
    }
    let mut val: u64 = 0;
    let mut k: usize = 0;
    while k < n
        invariant
            n == s@.len(),
            k <= n,
            forall|i: int| 0 <= i < k ==> is_digit(s@[i]),
            val == digits_val(s@.subrange(0, k as int)),
        decreases n - k,
    {
        let c = s.get_char(k);
        if c < '0' || c > '9' {
            return None;
        }
        let d: u64 = (c as u32 as u64) - ('0' as u32 as u64);
        let grown = match val.checked_mul(10) {
            Some(x) => x.checked_add(d),
            None => None,
        };
        proof {
            assert(s@.subrange(0, k + 1).drop_last() =~= s@.subrange(0, k as int));
            assert(s@.subrange(0, k + 1).last() == s@[k as int]);
            assert(digit_val(s@[k as int]) == d);
        }
        val = match grown {
            Some(x) => x,
            None => {
                proof {
                    assert(all_digits(s@) ==> digits_val(s@.subrange(0, k + 1)) <= digits_val(
                        s@.subrange(0, s@.len() as int),
                    )) by {
                        if all_digits(s@) {
                            lemma_digits_val_prefix(s@, k + 1, s@.len() as int);
                        }
                    }
                    assert(s@.subrange(0, s@.len() as int) =~= s@);
                }
                return None;
            },
        };
        k = k + 1;
    }
    proof {
        assert(s@.subrange(0, n as int) =~= s@);
    }
    Some(val)
}

/// The position of the first dot, or the length when there is none.
pub open spec fn dot_pos(s: Seq<char>) -> int
    decreases s.len(),
{
    if s.len() == 0 {
        0
    } else if s[0] == '.' {
        0
    } else {
        1 + dot_pos(s.subrange(1, s.len() as int))
    }
}

/// The first dot is where `dot_pos` says: no dot lies before it, and it is
/// a dot unless it is the length.
pub proof fn lemma_dot_pos(s: Seq<char>)
    ensures
        0 <= dot_pos(s) <= s.len(),
        forall|i: int| 0 <= i < dot_pos(s) ==> s[i] != '.',
        dot_pos(s) < s.len() ==> s[dot_pos(s)] == '.',
    decreases s.len(),
{
    if s.len() > 0 && s[0] != '.' {
        let rest = s.subrange(1, s.len() as int);
        lemma_dot_pos(rest);
        assert forall|i: int| 0 <= i < dot_pos(s) implies s[i] != '.' by {
            if i > 0 {
                assert(s[i] == rest[i - 1]);
            }
        }
    }
}

/// A money amount: a nonempty whole part in digits, optionally followed by
/// a dot and one or two fraction digits.
pub open spec fn money_form(s: Seq<char>) -> bool {
    let d = dot_pos(s);
    &&& d > 0
    &&& all_digits(s.subrange(0, d))
    &&& (d == s.len() || {
        let frac = s.subrange(d + 1, s.len() as int);
        &&& 1 <= frac.len() <= 2
        &&& all_digits(frac)
    })
}

/// The amount a well-formed money string denotes, in due units: the whole
/// part in currency units, the fraction in tenths or hundredths.
pub open spec fn money_value(s: Seq<char>) -> int {
    let d = dot_pos(s);
    let whole = digits_val(s.subrange(0, d)) * 100 * DUE_UNITS_PER_CENT;
    if d == s.len() {
        whole
    } else {
        let frac = s.subrange(d + 1, s.len() as int);
        if frac.len() == 1 {
            whole + digits_val(frac) * 10 * DUE_UNITS_PER_CENT
        } else {
            whole + digits_val(frac) * DUE_UNITS_PER_CENT
        }
    }
}

/// Parses a money amount into due units. `Some` exactly when the string
/// fits the money grammar and the amount fits the machine range.
pub fn parse_money(s: &str) -> (r: Option<u64>)
    ensures
        match r {
            Some(v) => money_form(s@) && v == money_value(s@),
            None => !money_form(s@) || money_value(s@) > u64::MAX,
        },
{
    proof {
        lemma_dot_pos(s@);
    }
    let n = s.unicode_len();
    let mut d: usize = 0;
    while d < n && s.get_char(d) != '.'
        invariant
            n == s@.len(),
            d <= n,
            forall|i: int| 0 <= i < d ==> s@[i] != '.',
        decreases n - d,
    {
        d = d + 1;
    }
    proof {
        lemma_dot_pos_from_scan(s@, d as int);
    }
    let whole_str = s.substring_char(0, d);
    let whole = match parse_digits(whole_str) {
        Some(w) => w,
        None => {
            proof {
                if money_form(s@) {
                    lemma_money_value_parts(s@);
                }
            }
            return None;
        },
    };
    proof {
        if money_form(s@) {
            lemma_money_value_parts(s@);
        }
    }
    if d == n {
        return match whole.checked_mul(100 * DUE_UNITS_PER_CENT) {
            Some(v) => Some(v),
            None => None,
        };
    }
    let frac_len = n - d - 1;
    if frac_len < 1 || frac_len > 2 {
        return None;
    }
    let frac_str = s.substring_char(d + 1, n);
    let frac = match parse_digits(frac_str) {
        Some(f) => f,
        None => {
            return None;
        },
    };
    let scale: u64 = if frac_len == 1 {
        10 * DUE_UNITS_PER_CENT
    } else {
        DUE_UNITS_PER_CENT
    };
    proof {
        lemma_frac_bound(frac_str@);
    }
    match whole.checked_mul(100 * DUE_UNITS_PER_CENT) {
        Some(w) => w.checked_add(frac * scale),
        None => None,
    }
}

/// A scan that saw no dot up to `d`, with `d` at a dot or the end, found
/// `dot_pos`.
pub proof fn lemma_dot_pos_from_scan(s: Seq<char>, d: int)
    requires
        0 <= d <= s.len(),
        forall|i: int| 0 <= i < d ==> s[i] != '.',
        d < s.len() ==> s[d] == '.',
    ensures
        dot_pos(s) == d,
    decreases s.len(),
{
    if s.len() > 0 && s[0] != '.' {
        let rest = s.subrange(1, s.len() as int);
        assert(forall|i: int| 0 <= i < rest.len() ==> rest[i] == s[i + 1]);
        lemma_dot_pos_from_scan(rest, d - 1);
    }
}

/// A digit string of at most two characters denotes less than one hundred.
pub proof fn lemma_frac_bound(s: Seq<char>)
    requires
        all_digits(s),
        s.len() <= 2,
    ensures
        0 <= digits_val(s) < 100,
        s.len() <= 1 ==> digits_val(s) < 10,
    decreases s.len(),
{
    lemma_digits_val_nonneg(s);
    if s.len() > 0 {
        assert(all_digits(s.drop_last())) by {
            assert(forall|i: int|
                0 <= i < s.len() - 1 ==> s.drop_last()[i] == s[i]);
        }
        lemma_frac_bound(s.drop_last());
    }
}

/// The character of a decimal digit.
pub open spec fn digit_char(d: int) -> char {
    if d == 0 {
        '0'
    } else if d == 1 {
        '1'
    } else if d == 2 {
        '2'
    } else if d == 3 {
        '3'
    } else if d == 4 {
        '4'
    } else if d == 5 {
        '5'
    } else if d == 6 {
        '6'
    } else if d == 7 {
        '7'
    } else if d == 8 {
        '8'
    } else {
        '9'
    }
}

/// The decimal rendering of a number, most significant digit first, with
/// no leading zero except on zero itself.
pub open spec fn dec_seq(n: int) -> Seq<char>
    decreases n,
{
    if n < 10 {
        seq![digit_char(n)]
    } else {
        dec_seq(n / 10) + seq![digit_char(n % 10)]
    }
}

/// One digit as a string slice.
fn digit_str(d: u64) -> (r: &'static str)
    requires
        d < 10,
    ensures
        r@ == seq![digit_char(d as int)],
{
    proof {
        reveal_strlit("0");
        reveal_strlit("1");
        reveal_strlit("2");
        reveal_strlit("3");
        reveal_strlit("4");
        reveal_strlit("5");
        reveal_strlit("6");
        reveal_strlit("7");
        reveal_strlit("8");
        reveal_strlit("9");
        assert("0"@ =~= seq!['0']);
        assert("1"@ =~= seq!['1']);
        assert("2"@ =~= seq!['2']);
        assert("3"@ =~= seq!['3']);
        assert("4"@ =~= seq!['4']);
        assert("5"@ =~= seq!['5']);
        assert("6"@ =~= seq!['6']);
        assert("7"@ =~= seq!['7']);
        assert("8"@ =~= seq!['8']);
        assert("9"@ =~= seq!['9']);
    }
    match d {
        0 => "0",
        1 => "1",
        2 => "2",
        3 => "3",
        4 => "4",
        5 => "5",
        6 => "6",
        7 => "7",
        8 => "8",
        _ => "9",
    }
}

/// Renders a number in decimal.
pub fn u64_string(n: u64) -> (r: String)
    ensures
        r@ == dec_seq(n as int),
    decreases n,
{
    if n < 10 {
        digit_str(n).to_owned()
    } else {
        proof {
            assert(n / 10 < n) by (nonlinear_arith)
                requires n >= 10,
            ;
        }
        let mut s = u64_string(n / 10);
        s.append(digit_str(n % 10));
        s
    }
}

/// The rendering of an amount of cents with exactly two fraction digits:
/// whole units, a dot, then the tens and ones of the leftover cents.
pub open spec fn cents_seq(cents: u64) -> Seq<char> {
    dec_seq((cents / 100) as int) + seq!['.'] + seq![
        digit_char(((cents % 100) / 10) as int),
        digit_char(((cents % 100) % 10) as int),
    ]
}

/// Renders an amount of cents with exactly two fraction digits.
pub fn cents_string(cents: u64) -> (r: String)
    ensures
        r@ == cents_seq(cents),
{
    proof {
        reveal_strlit(".");
        assert("."@ =~= seq!['.']);
    }
    let mut s = u64_string(cents / 100);
    s.append(".");
    let rem = cents % 100;
    s.append(digit_str(rem / 10));
    s.append(digit_str(rem % 10));
    s
}

/// A well-formed money amount is at least its whole part: the fraction
/// only adds to it.
pub proof fn lemma_money_value_parts(s: Seq<char>)
    requires
        money_form(s),
    ensures
        money_value(s) >= digits_val(s.subrange(0, dot_pos(s))) * 100 * DUE_UNITS_PER_CENT,
{
    lemma_dot_pos(s);
    let d = dot_pos(s);
    if d < s.len() {
        let frac = s.subrange(d + 1, s.len() as int);
        lemma_digits_val_nonneg(frac);
        assert(digits_val(frac) >= 0);
    }
}

} // verus!
