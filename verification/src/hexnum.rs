use vstd::prelude::*;
use vstd::utf8::is_ascii_chars;

verus! {

/// The uppercase hex digit for a value below 16.
pub open spec fn hex_digit(d: nat) -> char
    recommends
        d < 16,
{
    if d == 0 {
        '0'
    } else if d == 1 {
        '1'
    } else if d == 2 {
        '2'
    } else if d == 3 {
        '3'
    } else if d == 4 {
        '4'
    } else if d == 5 {
        '5'
    } else if d == 6 {
        '6'
    } else if d == 7 {
        '7'
    } else if d == 8 {
        '8'
    } else if d == 9 {
        '9'
    } else if d == 10 {
        'A'
    } else if d == 11 {
        'B'
    } else if d == 12 {
        'C'
    } else if d == 13 {
        'D'
    } else if d == 14 {
        'E'
    } else {
        'F'
    }
}

/// The uppercase hex rendering of `n`, most significant digit first, with no
/// leading zeros (a single `'0'` for zero itself).
pub open spec fn hex_digits(n: nat) -> Seq<char>
    decreases n,
{
    if n < 16 {
        seq![hex_digit(n)]
    } else {
        hex_digits(n / 16) + seq![hex_digit(n % 16)]
    }
}

/// Every character of a hex rendering is ASCII.
pub proof fn lemma_hex_digits_ascii(n: nat)
    ensures
        is_ascii_chars(hex_digits(n)),
    decreases n,
{
    if n < 16 {
        assert(hex_digits(n) == seq![hex_digit(n)]);
        assert(forall|i: int| 0 <= i < 1 ==> '\0' <= #[trigger] hex_digits(n)[i] <= '\u{7f}');
    } else {
        lemma_hex_digits_ascii(n / 16);
        assert(forall|i: int|
            0 <= i < hex_digits(n).len() ==> '\0' <= #[trigger] hex_digits(n)[i] <= '\u{7f}');
    }
}

/// A value below `16^k` renders to at most `k` hex digits.
pub proof fn lemma_hex_digits_len(n: nat, k: nat)
    requires
        1 <= k,
        n < pow16(k),
    ensures
        hex_digits(n).len() <= k,
    decreases k,
{
    if n >= 16 {
        assert(pow16(k) == 16 * pow16((k - 1) as nat));
        assert(n / 16 < pow16((k - 1) as nat)) by (nonlinear_arith)
            requires
                n < 16 * pow16((k - 1) as nat),
                n >= 16,
        ;
        lemma_hex_digits_len(n / 16, (k - 1) as nat);
    }
}

/// `16^k`.
pub open spec fn pow16(k: nat) -> nat
    decreases k,
{
    if k == 0 {
        1
    } else {
        16 * pow16((k - 1) as nat)
    }
}

/// Any `u32` renders to at most 8 hex digits.
pub proof fn lemma_hex_digits_len_u32(n: u32)
    ensures
        1 <= hex_digits(n as nat).len() <= 8,
{
    assert(pow16(0) == 1);
    assert(pow16(1) == 16);
    assert(pow16(2) == 256);
    assert(pow16(3) == 4096);
    assert(pow16(4) == 65536);
    assert(pow16(5) == 1048576);
    assert(pow16(6) == 16777216);
    assert(pow16(7) == 268435456);
    assert(pow16(8) == 4294967296);
    lemma_hex_digits_len(n as nat, 8);
    if n < 16 {
        assert(hex_digits(n as nat).len() == 1);
    } else {
        assert(hex_digits(n as nat).len() >= 1);
    }
}

/// A one-character string holding the uppercase hex digit of `d`.
fn hex_digit_str(d: u32) -> (r: &'static str)
    requires
        d < 16,
    ensures
        r@ == seq![hex_digit(d as nat)],
        r@.len() == 1,
{
    proof {
        reveal_strlit("0");
        reveal_strlit("1");
        reveal_strlit("2");
        reveal_strlit("3");
        reveal_strlit("4");
        reveal_strlit("5");
        reveal_strlit("6");
        reveal_strlit("7");
        reveal_strlit("8");
        reveal_strlit("9");
        reveal_strlit("A");
        reveal_strlit("B");
        reveal_strlit("C");
        reveal_strlit("D");
        reveal_strlit("E");
        reveal_strlit("F");
    }
    let r: &'static str = if d == 0 {
        "0"
    } else if d == 1 {
        "1"
    } else if d == 2 {
        "2"
    } else if d == 3 {
        "3"
    } else if d == 4 {
        "4"
    } else if d == 5 {
        "5"
    } else if d == 6 {
        "6"
    } else if d == 7 {
        "7"
    } else if d == 8 {
        "8"
    } else if d == 9 {
        "9"
    } else if d == 10 {
        "A"
    } else if d == 11 {
        "B"
    } else if d == 12 {
        "C"
    } else if d == 13 {
        "D"
    } else if d == 14 {
        "E"
    } else {
        "F"
    };
    proof {
        assert(r@ =~= seq![hex_digit(d as nat)]);
    }
    r
}

/// Renders `n` in uppercase hex, most significant digit first, no leading
/// zeros; this is what `{:X}` prints for a `u32`.
pub fn format_hex_u32(n: u32) -> (r: String)
    ensures
        r@ == hex_digits(n as nat),
        1 <= r@.len() <= 8,
        is_ascii_chars(r@),
    decreases n,
{
    proof {
        lemma_hex_digits_len_u32(n);
        lemma_hex_digits_ascii(n as nat);
    }
    if n < 16 {
        String::from_str(hex_digit_str(n))
    } else {
        let mut s = format_hex_u32(n / 16);
        s.append(hex_digit_str(n % 16));
        s
    }
}

} // verus!
