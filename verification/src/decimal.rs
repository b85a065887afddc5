use vstd::prelude::*;

use crate::security::string_push;

verus! {

/// The decimal digit character for a value below 10.
pub open spec fn dec_char(d: int) -> char
    recommends
        0 <= d < 10,
{
    if d == 0 {
        '0'
    } else if d == 1 {
        '1'
    } else if d == 2 {
        '2'
    } else if d == 3 {
        '3'
    } else if d == 4 {
        '4'
    } else if d == 5 {
        '5'
    } else if d == 6 {
        '6'
    } else if d == 7 {
        '7'
    } else if d == 8 {
        '8'
    } else {
        '9'
    }
}

/// The decimal digit character of a value below 10, as executable code.
fn digit_char(d: u8) -> (c: char)
    requires
        d < 10,
    ensures
        c == dec_char(d as int),
{
    match d {
        0 => '0',
        1 => '1',
        2 => '2',
        3 => '3',
        4 => '4',
        5 => '5',
        6 => '6',
        7 => '7',
        8 => '8',
        _ => '9',
    }
}

/// The canonical decimal rendering of a natural number: no sign, no leading
/// zeros, and `0` rendered as the single character `'0'`.
pub open spec fn dec_seq(n: nat) -> Seq<char>
    decreases n,
{
    if n < 10 {
        seq![dec_char(n as int)]
    } else {
        dec_seq(n / 10) + seq![dec_char((n % 10) as int)]
    }
}

/// The canonical decimal rendering of an integer: a leading `'-'` for
/// negative values, the digits of the absolute value otherwise.
pub open spec fn int_dec(i: int) -> Seq<char> {
    if i < 0 {
        seq!['-'] + dec_seq((-i) as nat)
    } else {
        dec_seq(i as nat)
    }
}

/// Whether a character is a decimal digit.
pub open spec fn is_dec_digit(c: char) -> bool {
    48 <= c as u32 <= 57
}

/// The value of a sequence of decimal digit characters.
pub open spec fn dec_val(s: Seq<char>) -> nat
    decreases s.len(),
{
    if s.len() == 0 {
        0
    } else {
        dec_val(s.drop_last()) * 10 + (s.last() as u32 - 48) as nat
    }
}

/// Powers of ten.
pub open spec fn pow10(k: nat) -> nat
    decreases k,
{
    if k == 0 {
        1
    } else {
        10 * pow10((k - 1) as nat)
    }
}

/// The canonical rendering consists of digits, is never empty, evaluates
/// back to the number it renders, and starts with `'0'` only for zero
/// itself.
pub proof fn lemma_dec_seq_correct(n: nat)
    ensures
        dec_seq(n).len() >= 1,
        forall|i: int| 0 <= i < dec_seq(n).len() ==> is_dec_digit(#[trigger] dec_seq(n)[i]),
        dec_val(dec_seq(n)) == n,
        n > 0 ==> dec_seq(n)[0] != '0',
        n == 0 ==> dec_seq(n) =~= seq!['0'],
    decreases n,
{
    if n < 10 {
        assert(dec_seq(n) =~= seq![dec_char(n as int)]);
        assert(dec_seq(n).drop_last() =~= Seq::<char>::empty());
        assert(dec_val(Seq::<char>::empty()) == 0);
        assert(dec_char(n as int) as u32 == 48 + n);
        assert(dec_val(dec_seq(n)) == n);
    } else {
        lemma_dec_seq_correct(n / 10);
        let prefix = dec_seq(n / 10);
        let whole = dec_seq(n);
        assert(whole =~= prefix + seq![dec_char((n % 10) as int)]);
        assert(whole.drop_last() =~= prefix);
        assert(whole.last() == dec_char((n % 10) as int));
        assert(dec_val(whole) == dec_val(prefix) * 10 + n % 10);
        assert(dec_val(whole) == (n / 10) * 10 + n % 10);
        assert((n / 10) * 10 + n % 10 == n) by {
            vstd::arithmetic::div_mod::lemma_fundamental_div_mod(n as int, 10);
        }
        assert(whole[0] == prefix[0]);
    }
}

/// A number below the `k`-th power of ten renders in at most `k` digits.
pub proof fn lemma_dec_seq_len(n: nat, k: nat)
    requires
        k >= 1,
        n < pow10(k),
    ensures
        dec_seq(n).len() <= k,
    decreases n,
{
    if n < 10 {
    } else {
        assert(pow10(k) == 10 * pow10((k - 1) as nat));
        assert(n / 10 < pow10((k - 1) as nat)) by {
            vstd::arithmetic::div_mod::lemma_fundamental_div_mod(n as int, 10);
        }
        if k == 1 {
            assert(pow10(0nat) == 1);
            assert(false);
        }
        lemma_dec_seq_len(n / 10, (k - 1) as nat);
        assert(dec_seq(n).len() == dec_seq(n / 10).len() + 1);
    }
}

/// The decimal rendering of a natural number, left-padded with zeros to at
/// least the given width.
pub open spec fn dec_seq_pad(n: nat, width: nat) -> Seq<char>
    decreases width,
{
    if dec_seq(n).len() >= width {
        dec_seq(n)
    } else {
        seq!['0'] + dec_seq_pad(n, (width - 1) as nat)
    }
}

/// The padded rendering is the canonical one behind exactly enough zeros
/// to reach the requested width.
pub proof fn lemma_dec_seq_pad_shape(n: nat, width: nat)
    ensures
        dec_seq(n).len() >= width ==> dec_seq_pad(n, width) == dec_seq(n),
        dec_seq(n).len() < width ==> dec_seq_pad(n, width) =~= Seq::new(
            (width - dec_seq(n).len()) as nat,
            |i: int| '0',
        ) + dec_seq(n),
    decreases width,
{
    if dec_seq(n).len() < width {
        lemma_dec_seq_pad_shape(n, (width - 1) as nat);
        if dec_seq(n).len() < width - 1 {
            assert(dec_seq_pad(n, width) =~= Seq::new(
                (width - dec_seq(n).len()) as nat,
                |i: int| '0',
            ) + dec_seq(n));
        } else {
            assert(dec_seq_pad(n, width) =~= Seq::new(
                (width - dec_seq(n).len()) as nat,
                |i: int| '0',
            ) + dec_seq(n));
        }
    }
}

/// The value of any digit string grows, or stays, as the string grows to
/// the right.
pub proof fn lemma_dec_val_prefix_le(s: Seq<char>, i: int)
    requires
        0 <= i <= s.len(),
    ensures
        dec_val(s.take(i)) <= dec_val(s),
    decreases s.len(),
{
    if i < s.len() {
        assert(s.drop_last().take(i) =~= s.take(i));
        lemma_dec_val_prefix_le(s.drop_last(), i);
        assert(dec_val(s) == dec_val(s.drop_last()) * 10 + (s.last() as u32 - 48) as nat);
        assert(dec_val(s.drop_last()) * 10 >= dec_val(s.drop_last())) by (nonlinear_arith);
    } else {
        assert(s.take(i) =~= s);
    }
}

/// Renders a natural number in canonical decimal form.
pub fn u64_to_string(n: u64) -> (r: String)
    ensures
        r@ == dec_seq(n as nat),
    decreases n,
{
    if n < 10 {
        let mut s = String::new();
        string_push(&mut s, digit_char(n as u8));
        proof {
            assert(s@ =~= seq![dec_char(n as int)]);
        }
        s
    } else {
        let mut s = u64_to_string(n / 10);
        string_push(&mut s, digit_char((n % 10) as u8));
        proof {
            assert(s@ =~= dec_seq((n / 10) as nat) + seq![dec_char((n % 10) as int)]);
            assert((n as nat) / 10 == (n / 10) as nat);
            assert((n as nat) % 10 == (n % 10) as nat);
        }
        s
    }
}

/// Renders a signed integer in canonical decimal form.
pub fn i64_to_string(i: i64) -> (r: String)
    ensures
        r@ == int_dec(i as int),
{
    if i >= 0 {
        u64_to_string(i as u64)
    } else {
        let magnitude: u64 = if i == i64::MIN {
            9223372036854775808u64
        } else {
            (-i) as u64
        };
        proof {
            assert(magnitude as nat == (-(i as int)) as nat);
        }
        let mut s = String::new();
        string_push(&mut s, '-');
        let digits = u64_to_string(magnitude);
        s.append(digits.as_str());
        proof {
            assert(s@ =~= seq!['-'] + dec_seq((-(i as int)) as nat));
        }
        s
    }
}

/// Renders a natural number in decimal, left-padded with zeros to at least
/// the given width.
pub fn u64_to_string_pad(n: u64, width: usize) -> (r: String)
    ensures
        r@ == dec_seq_pad(n as nat, width as nat),
{
    let digits = u64_to_string(n);
    let digits_len = digits.as_str().unicode_len();
    proof {
        lemma_dec_seq_pad_shape(n as nat, width as nat);
    }
    if digits_len >= width {
        return digits;
    }
    let zeros = width - digits_len;
    let mut r = String::new();
    let mut j: usize = 0;
    proof {
        assert(r@ =~= Seq::new(0nat, |i: int| '0'));
    }
    while j < zeros
        invariant
            j <= zeros,
            r@ =~= Seq::new(j as nat, |i: int| '0'),
        decreases zeros - j,
    {
        string_push(&mut r, '0');
        j = j + 1;
        proof {
            assert(r@ =~= Seq::new(j as nat, |i: int| '0'));
        }
    }
    r.append(digits.as_str());
    proof {
        assert(r@ =~= Seq::new(zeros as nat, |i: int| '0') + dec_seq(n as nat));
    }
    r
}

/// Parses a non-empty string of decimal digits — leading zeros allowed —
/// into its value, rejecting anything else and any value above the `u64`
/// range.
pub fn parse_digits_u64(s: &str) -> (r: Option<u64>)
    ensures
        match r {
            Some(v) => s@.len() >= 1 && (forall|j: int|
                0 <= j < s@.len() ==> is_dec_digit(#[trigger] s@[j])) && v == dec_val(s@),
            None => s@.len() == 0 || (exists|j: int|
                0 <= j < s@.len() && !is_dec_digit(#[trigger] s@[j])) || dec_val(s@) > u64::MAX,
        },
{
    let len = s.unicode_len();
    if len == 0 {
        return None;
    }
    let mut val: u64 = 0;
    let mut i: usize = 0;
    proof {
        assert(s@.take(0int) =~= Seq::<char>::empty());
    }
    while i < len
        invariant
            i <= len,
            len == s@.len(),
            val == dec_val(s@.take(i as int)),
            forall|j: int| 0 <= j < i ==> is_dec_digit(#[trigger] s@[j]),
        decreases len - i,
    {
        let c = s.get_char(i);
        let code = c as u32;
        if code < 48 || code > 57 {
            proof {
                assert(!is_dec_digit(s@[i as int]));
            }
            return None;
        }
        let d = (code - 48) as u64;
        if val > (u64::MAX - d) / 10 {
            proof {
                let part = s@.take(i + 1int);
                assert(part.drop_last() =~= s@.take(i as int));
                assert(part.last() == s@[i as int]);
                assert(dec_val(part) == val * 10 + d);
                assert(val * 10 + d > u64::MAX) by (nonlinear_arith)
                    requires
                        val > (u64::MAX - d) / 10,
                        d <= 9,
                ;
                lemma_dec_val_prefix_le(s@, i + 1int);
                assert(s@.take(s@.len() as int) =~= s@);
                assert(dec_val(s@) > u64::MAX);
            }
            return None;
        }
        proof {
            let part = s@.take(i + 1int);
            assert(part.drop_last() =~= s@.take(i as int));
            assert(part.last() == s@[i as int]);
            assert(val * 10 + d <= u64::MAX) by (nonlinear_arith)
                requires
                    val <= (u64::MAX - d) / 10,
                    d <= 9,
            ;
        }
        val = val * 10 + d;
        i = i + 1;
    }
    proof {
        assert(s@.take(len as int) =~= s@);
    }
    Some(val)
}

/// Parses the canonical decimal rendering of an `i32`, and nothing else:
/// the result is `Some(v)` exactly when the input is `int_dec(v)` for some
/// `i32` value `v`.  Inputs with a sign other than a single leading `'-'`,
/// leading zeros, non-digits, or a value out of range are rejected.
pub fn parse_i32(s: &str) -> (r: Option<i32>)
    ensures
        r matches Some(v) ==> s@ == int_dec(v as int),
        forall|v: i32| s@ == int_dec(v as int) ==> r == Some(v),
{
    let len = s.unicode_len();
    let negative = len >= 1 && s.get_char(0) == '-';
    let start: usize = if negative {
        1
    } else {
        0
    };
    let digit_count = len - start;
    if digit_count < 1 || digit_count > 10 {
        proof {
            lemma_reject_ok(s@, negative, start as int);
        }
        return None;
    }
    let mut val: u64 = 0;
    let mut i: usize = start;
    proof {
        assert(s@.subrange(start as int, start as int) =~= Seq::<char>::empty());
        assert(pow10(0nat) == 1);
    }
    while i < len
        invariant
            start <= i <= len,
            len == s@.len(),
            1 <= len - start <= 10,
            negative <==> (s@.len() >= 1 && s@[0] == '-'),
            start == if negative { 1int } else { 0int },
            val == dec_val(s@.subrange(start as int, i as int)),
            val < pow10((i - start) as nat),
            forall|j: int| start <= j < i ==> is_dec_digit(#[trigger] s@[j]),
        decreases len - i,
    {
        let c = s.get_char(i);
        let code = c as u32;
        if code < 48 || code > 57 {
            proof {
                lemma_reject_ok(s@, negative, start as int);
            }
            return None;
        }
        proof {
            let part = s@.subrange(start as int, i + 1int);
            assert(part.drop_last() =~= s@.subrange(start as int, i as int));
            assert(part.last() == s@[i as int]);
            lemma_pow10_unfold_small();
        }
        val = val * 10 + (code - 48) as u64;
        i = i + 1;
    }
    proof {
        assert(s@.subrange(start as int, len as int) =~= s@.skip(start as int));
        lemma_pow10_unfold_small();
    }
    let signed: i64 = if negative {
        -(val as i64)
    } else {
        val as i64
    };
    let formatted = i64_to_string(signed);
    if s.to_owned() == formatted {
        if signed >= -2147483648i64 && signed <= 2147483647i64 {
            proof {
                lemma_accept_complete(s@, signed as int);
            }
            return Some(signed as i32);
        }
    }
    proof {
        lemma_value_out_or_mismatch(s@, negative, start as int, val as nat, signed as int, formatted@);
    }
    None
}

/// The value of an all-digit string is below ten to the power of its
/// length.
pub proof fn lemma_dec_val_lt_pow10(s: Seq<char>)
    requires
        forall|j: int| 0 <= j < s.len() ==> is_dec_digit(#[trigger] s[j]),
    ensures
        dec_val(s) < pow10(s.len()),
    decreases s.len(),
{
    if s.len() == 0 {
    } else {
        lemma_dec_val_lt_pow10(s.drop_last());
        assert(dec_val(s) == dec_val(s.drop_last()) * 10 + (s.last() as u32 - 48) as nat);
        assert((s.last() as u32 - 48) as nat <= 9);
        assert(pow10(s.len()) == 10 * pow10((s.len() - 1) as nat));
    }
}

/// Ten powers of ten, unfolded for the parser's bound reasoning.
pub proof fn lemma_pow10_unfold_small()
    ensures
        pow10(0nat) == 1,
        pow10(1nat) == 10,
        pow10(2nat) == 100,
        pow10(3nat) == 1000,
        pow10(4nat) == 10000,
        pow10(5nat) == 100000,
        pow10(6nat) == 1000000,
        pow10(7nat) == 10000000,
        pow10(8nat) == 100000000,
        pow10(9nat) == 1000000000,
        pow10(10nat) == 10000000000,
{
    assert(pow10(0nat) == 1);
    assert(pow10(1nat) == 10);
    assert(pow10(2nat) == 100);
    assert(pow10(3nat) == 1000);
    assert(pow10(4nat) == 10000);
    assert(pow10(5nat) == 100000);
    assert(pow10(6nat) == 1000000);
    assert(pow10(7nat) == 10000000);
    assert(pow10(8nat) == 100000000);
    assert(pow10(9nat) == 1000000000);
    assert(pow10(10nat) == 10000000000);
}

/// If the input's shape was rejected (empty digit part, more than ten
/// digits, or a non-digit character), it is the rendering of no `i32`.
proof fn lemma_reject_ok(s: Seq<char>, negative: bool, start: int)
    requires
        start == if negative { 1int } else { 0int },
        negative <==> (s.len() >= 1 && s[0] == '-'),
        (s.len() - start < 1 || s.len() - start > 10) || (exists|j: int|
            start <= j < s.len() && !is_dec_digit(#[trigger] s[j])),
    ensures
        forall|v: i32| s != int_dec(v as int),
{
    assert forall|v: i32| s != int_dec(v as int) by {
        if s == int_dec(v as int) {
            let m = if v < 0 {
                (-(v as int)) as nat
            } else {
                v as nat
            };
            lemma_dec_seq_correct(m);
            lemma_pow10_unfold_small();
            lemma_dec_seq_len(m, 10);
            assert(dec_char(0) == '0');
            if v < 0 {
                assert(s =~= seq!['-'] + dec_seq(m));
                assert(s[0] == '-');
                assert(!is_dec_digit('-'));
                assert(negative);
                assert(forall|j: int|
                    1 <= j < s.len() ==> #[trigger] s[j] == dec_seq(m)[j - 1]);
            } else {
                assert(s =~= dec_seq(m));
                assert(is_dec_digit(s[0]));
                assert(s[0] != '-');
                assert(!negative);
            }
        }
    }
}

/// If the digits evaluated to an in-range value whose canonical rendering
/// is the input itself, the parse result is right for every value: the one
/// returned is rendered as the input, and no other value is.
proof fn lemma_accept_complete(s: Seq<char>, signed: int)
    requires
        s == int_dec(signed),
        i32::MIN <= signed <= i32::MAX,
    ensures
        forall|v: i32| s == int_dec(v as int) ==> v == signed,
{
    assert forall|v: i32| s == int_dec(v as int) implies v == signed by {
        lemma_int_dec_injective(v as int, signed);
    }
}

/// Canonical renderings of distinct integers differ.
proof fn lemma_int_dec_injective(a: int, b: int)
    requires
        int_dec(a) == int_dec(b),
    ensures
        a == b,
{
    let sa = int_dec(a);
    lemma_dec_seq_correct(if a < 0 {
        (-a) as nat
    } else {
        a as nat
    });
    lemma_dec_seq_correct(if b < 0 {
        (-b) as nat
    } else {
        b as nat
    });
    assert(dec_char(0) == '0');
    if a < 0 && b < 0 {
        assert(int_dec(a).skip(1) =~= dec_seq((-a) as nat));
        assert(int_dec(b).skip(1) =~= dec_seq((-b) as nat));
        assert(dec_val(dec_seq((-a) as nat)) == dec_val(dec_seq((-b) as nat)));
    } else if a >= 0 && b >= 0 {
        assert(dec_val(dec_seq(a as nat)) == dec_val(dec_seq(b as nat)));
    } else if a < 0 && b >= 0 {
        assert(sa[0] == '-');
        assert(is_dec_digit(int_dec(b)[0]));
        assert(!is_dec_digit('-'));
    } else {
        assert(int_dec(b)[0] == '-');
        assert(is_dec_digit(sa[0]));
        assert(!is_dec_digit('-'));
    }
}

/// If the re-rendering check failed, or the value fell outside the `i32`
/// range, the input is the rendering of no `i32`: any rendering would force
/// the digits to evaluate back to the rendered value, making the
/// re-rendering agree with the input and the value sit in range.
proof fn lemma_value_out_or_mismatch(
    s: Seq<char>,
    negative: bool,
    start: int,
    val: nat,
    signed: int,
    formatted: Seq<char>,
)
    requires
        start == if negative { 1int } else { 0int },
        negative <==> (s.len() >= 1 && s[0] == '-'),
        s.len() - start >= 1,
        val == dec_val(s.subrange(start, s.len() as int)),
        signed == if negative { -(val as int) } else { val as int },
        formatted == int_dec(signed),
        s != formatted || signed < i32::MIN || signed > i32::MAX,
    ensures
        forall|v: i32| s != int_dec(v as int),
{
    assert forall|v: i32| s != int_dec(v as int) by {
        if s == int_dec(v as int) {
            let m = if v < 0 {
                (-(v as int)) as nat
            } else {
                v as nat
            };
            lemma_dec_seq_correct(m);
            assert(!is_dec_digit('-'));
            if v < 0 {
                assert(s =~= seq!['-'] + dec_seq(m));
                assert(s[0] == '-');
                assert(negative);
                assert(s.subrange(1, s.len() as int) =~= dec_seq(m));
                assert(val == m);
                assert(signed == v);
            } else {
                assert(s =~= dec_seq(m));
                assert(is_dec_digit(s[0]));
                assert(!negative);
                assert(s.subrange(0, s.len() as int) =~= dec_seq(m));
                assert(val == m);
                assert(signed == v);
            }
            assert(formatted == s);
        }
    }
}

} // verus!
