//! Character encodings used by the token format: lower-case hexadecimal for
//! byte strings and zero-padded fixed-width decimal for integers.

use vstd::prelude::*;

verus! {

/// The hexadecimal digit for `d` (digits `0`-`9` are also the decimal digits).
pub open spec fn hex_digit(d: nat) -> char {
    if d == 0 { '0' } else if d == 1 { '1' } else if d == 2 { '2' } else if d == 3 { '3' }
    else if d == 4 { '4' } else if d == 5 { '5' } else if d == 6 { '6' } else if d == 7 { '7' }
    else if d == 8 { '8' } else if d == 9 { '9' } else if d == 10 { 'a' } else if d == 11 { 'b' }
    else if d == 12 { 'c' } else if d == 13 { 'd' } else if d == 14 { 'e' } else { 'f' }
}

/// The value of a decimal digit character, `None` for any other character.
pub open spec fn digit_value(c: char) -> Option<nat> {
    if c == '0' { Some(0) } else if c == '1' { Some(1) } else if c == '2' { Some(2) }
    else if c == '3' { Some(3) } else if c == '4' { Some(4) } else if c == '5' { Some(5) }
    else if c == '6' { Some(6) } else if c == '7' { Some(7) } else if c == '8' { Some(8) }
    else if c == '9' { Some(9) } else { None }
}

/// Two hexadecimal digits per byte, high nibble first.
pub open spec fn hex_text(b: Seq<u8>) -> Seq<char>
    decreases b.len(),
{
    if b.len() == 0 {
        Seq::empty()
    } else {
        hex_text(b.drop_last()) + seq![hex_digit(b.last() as nat / 16), hex_digit(b.last() as nat % 16)]
    }
}

pub open spec fn pow10(w: nat) -> nat
    decreases w,
{
    if w == 0 { 1 } else { 10 * pow10((w - 1) as nat) }
}

/// The last `w` decimal digits of `n`, padded with leading zeros.
pub open spec fn fixed_decimal(n: nat, w: nat) -> Seq<char>
    decreases w,
{
    if w == 0 {
        Seq::empty()
    } else {
        fixed_decimal(n / 10, (w - 1) as nat).push(hex_digit(n % 10))
    }
}

pub open spec fn all_digits(s: Seq<char>) -> bool {
    forall|i: int| 0 <= i < s.len() ==> (#[trigger] digit_value(s[i])) is Some
}

/// The number that a string of decimal digits denotes.
pub open spec fn decimal_value(s: Seq<char>) -> nat
    decreases s.len(),
{
    if s.len() == 0 {
        0
    } else {
        decimal_value(s.drop_last()) * 10 + match digit_value(s.last()) {
            Some(d) => d,
            None => 0,
        }
    }
}

pub proof fn lemma_pow10_positive(w: nat)
    ensures
        pow10(w) >= 1,
    decreases w,
{
    if w > 0 {
        lemma_pow10_positive((w - 1) as nat);
    }
}

/// A fixed-width decimal has `w` digits, and reads back as `n` when `n` fits.
pub proof fn lemma_fixed_decimal(n: nat, w: nat)
    ensures
        fixed_decimal(n, w).len() == w,
        all_digits(fixed_decimal(n, w)),
        n < pow10(w) ==> decimal_value(fixed_decimal(n, w)) == n,
    decreases w,
{
    if w > 0 {
        let w1 = (w - 1) as nat;
        lemma_fixed_decimal(n / 10, w1);
        let s = fixed_decimal(n, w);
        assert(s.drop_last() =~= fixed_decimal(n / 10, w1));
        assert(digit_value(hex_digit(n % 10)) == Some(n % 10));
        assert forall|i: int| 0 <= i < s.len() implies (#[trigger] digit_value(s[i])) is Some by {
            if i < w1 {
                assert(s[i] == fixed_decimal(n / 10, w1)[i]);
            }
        }
        if n < pow10(w) {
            assert(n / 10 < pow10(w1)) by (nonlinear_arith)
                requires
                    n < pow10(w),
                    pow10(w) == 10 * pow10(w1),
            ;
            assert((n / 10) * 10 + n % 10 == n) by (nonlinear_arith);
        }
    }
}

/// A digit string of length `w` denotes a number below `10^w`.
pub proof fn lemma_decimal_value_bound(s: Seq<char>)
    requires
        all_digits(s),
    ensures
        decimal_value(s) < pow10(s.len()),
    decreases s.len(),
{
    if s.len() > 0 {
        let t = s.drop_last();
        assert(all_digits(t)) by {
            assert forall|i: int| 0 <= i < t.len() implies (#[trigger] digit_value(t[i])) is Some by {
                assert(t[i] == s[i]);
            }
        }
        lemma_decimal_value_bound(t);
        assert(digit_value(s[s.len() - 1]) is Some);
        let d = digit_value(s.last()).unwrap();
        assert(d <= 9);
        assert(decimal_value(t) * 10 + d < 10 * pow10(t.len())) by (nonlinear_arith)
            requires
                decimal_value(t) < pow10(t.len()),
                d <= 9,
        ;
    }
}

/// No hexadecimal text holds a `.`.
pub proof fn lemma_hex_text_has_no_dot(b: Seq<u8>)
    ensures
        forall|i: int| 0 <= i < hex_text(b).len() ==> hex_text(b)[i] != '.',
    decreases b.len(),
{
    if b.len() > 0 {
        lemma_hex_text_has_no_dot(b.drop_last());
        let h = hex_text(b);
        let p = hex_text(b.drop_last());
        assert forall|i: int| 0 <= i < h.len() implies h[i] != '.' by {
            if i < p.len() {
                assert(h[i] == p[i]);
            }
        }
    }
}

/// The one-character string of the hexadecimal digit `d`.
pub fn hex_digit_str(d: u8) -> (r: &'static str)
    requires
        d < 16,
    ensures
        r@ == seq![hex_digit(d as nat)],
{
    proof {
        reveal_strlit("0"); reveal_strlit("1"); reveal_strlit("2"); reveal_strlit("3");
        reveal_strlit("4"); reveal_strlit("5"); reveal_strlit("6"); reveal_strlit("7");
        reveal_strlit("8"); reveal_strlit("9"); reveal_strlit("a"); reveal_strlit("b");
        reveal_strlit("c"); reveal_strlit("d"); reveal_strlit("e"); reveal_strlit("f");
    }
    let r = match d {
        0 => "0", 1 => "1", 2 => "2", 3 => "3", 4 => "4", 5 => "5", 6 => "6", 7 => "7",
        8 => "8", 9 => "9", 10 => "a", 11 => "b", 12 => "c", 13 => "d", 14 => "e", _ => "f",
    };
    assert(r@ =~= seq![hex_digit(d as nat)]);
    r
}

/// Appends the hexadecimal text of `b` to `out`.
pub fn push_hex(out: &mut String, b: &[u8])
    ensures
        final(out)@ == old(out)@ + hex_text(b@),
{
    let ghost start = out@;
    let n = b.len();
    for i in 0..n
        invariant
            n == b@.len(),
            out@ == start + hex_text(b@.subrange(0, i as int)),
    {
        let x = b[i];
        out.append(hex_digit_str(x / 16));
        out.append(hex_digit_str(x % 16));
        proof {
            let s = b@.subrange(0, i + 1);
            assert(s.drop_last() =~= b@.subrange(0, i as int));
            assert(s.last() == x);
            assert(out@ =~= start + hex_text(s));
        }
    }
    assert(b@.subrange(0, n as int) =~= b@);
}

/// Appends the last `w` decimal digits of `n` to `out`, padded with zeros.
pub fn push_fixed_decimal(out: &mut String, n: u64, w: usize)
    ensures
        final(out)@ == old(out)@ + fixed_decimal(n as nat, w as nat),
    decreases w,
{
    if w > 0 {
        push_fixed_decimal(out, n / 10, w - 1);
        out.append(hex_digit_str((n % 10) as u8));
        assert(out@ =~= old(out)@ + fixed_decimal(n as nat, w as nat));
    }
}

pub fn char_digit(c: char) -> (r: Option<u8>)
    ensures
        match r {
            Some(d) => digit_value(c) == Some(d as nat),
            None => digit_value(c) is None,
        },
{
    match c {
        '0' => Some(0), '1' => Some(1), '2' => Some(2), '3' => Some(3), '4' => Some(4),
        '5' => Some(5), '6' => Some(6), '7' => Some(7), '8' => Some(8), '9' => Some(9),
        _ => None,
    }
}

/// Reads the `w` characters of `s` from `from` as a decimal number, or `None`
/// if one of them is not a digit.
pub fn parse_fixed_decimal(s: &str, from: usize, w: usize) -> (r: Option<u128>)
    requires
        from + w <= s@.len(),
        from + w <= usize::MAX,
        w <= 20,
    ensures
        match r {
            Some(v) => all_digits(s@.subrange(from as int, from + w))
                && v as nat == decimal_value(s@.subrange(from as int, from + w)),
            None => !all_digits(s@.subrange(from as int, from + w)),
        },
{
    assert(pow10(20) == 100000000000000000000nat) by {
        reveal_with_fuel(pow10, 21);
    }
    let mut acc: u128 = 0;
    let mut i: usize = 0;
    while i < w
        invariant
            from + w <= s@.len(),
            from + w <= usize::MAX,
            w <= 20,
            i <= w,
            pow10(20) == 100000000000000000000nat,
            all_digits(s@.subrange(from as int, from + i)),
            acc as nat == decimal_value(s@.subrange(from as int, from + i)),
        decreases w - i,
    {
        let ghost pre = s@.subrange(from as int, from + i);
        let ghost next = s@.subrange(from as int, from + i + 1);
        assert(next.drop_last() =~= pre);
        let c = s.get_char(from + i);
        match char_digit(c) {
            None => {
                assert(next[i as int] == c);
                assert(s@.subrange(from as int, from + w)[i as int] == c);
                return None;
            },
            Some(d) => {
                proof {
                    lemma_decimal_value_bound(pre);
                    assert(pow10(pre.len()) <= pow10(20)) by {
                        lemma_pow10_mono(pre.len(), 20);
                    }
                }
                acc = acc * 10 + d as u128;
                i = i + 1;
                proof {
                    assert(next.last() == c);
                    assert forall|j: int| 0 <= j < next.len() implies (#[trigger] digit_value(next[j])) is Some by {
                        if j < pre.len() {
                            assert(next[j] == pre[j]);
                        }
                    }
                }
            },
        }
    }
    Some(acc)
}

pub proof fn lemma_pow10_mono(a: nat, b: nat)
    requires
        a <= b,
    ensures
        pow10(a) <= pow10(b),
    decreases b,
{
    if a < b {
        lemma_pow10_mono(a, (b - 1) as nat);
        lemma_pow10_positive((b - 1) as nat);
    }
}

} // verus!
