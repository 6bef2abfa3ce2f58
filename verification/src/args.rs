use vstd::prelude::*;
use crate::errors::Error;
use crate::hexnum::hex_digit;

verus! {

/// The init arguments both processes must agree on; the owner passes them to
/// the reloadable process, serialized, as its second CLI argument.
#[derive(Clone, Copy, Debug, PartialEq, Eq, Structural)]
pub struct Arguments {
    pub window_width: usize,
    pub window_height: usize,
}

/// The decimal rendering of `n`, most significant digit first, with no
/// leading zeros (a single `'0'` for zero itself).
pub open spec fn dec_digits(n: nat) -> Seq<char>
    decreases n,
{
    if n < 10 {
        seq![hex_digit(n)]
    } else {
        dec_digits(n / 10) + seq![hex_digit(n % 10)]
    }
}

/// Whether `c` is a decimal digit.
pub open spec fn is_dec_digit(c: char) -> bool {
    48 <= (c as u32) && (c as u32) <= 57
}

/// The numeric value of a run of decimal digits, most significant first.
pub open spec fn digits_val(s: Seq<char>) -> nat
    decreases s.len(),
{
    if s.len() == 0 {
        0
    } else {
        digits_val(s.drop_last()) * 10 + (((s.last() as u32) - 48) as nat)
    }
}

/// The canonical textual form of an argument record; it coincides with
/// what the RON object notation prints for this record type, so either
/// side could also decode it with a RON library.
pub open spec fn serialized_arguments(a: Arguments) -> Seq<char> {
    "(window_width:"@ + dec_digits(a.window_width as nat) + ",window_height:"@ + dec_digits(
        a.window_height as nat,
    ) + ")"@
}

/// What a decoder must return: the unique record with this canonical form,
/// if the text is canonical for any record at all.
pub open spec fn spec_parse_arguments(s: Seq<char>) -> Option<Arguments> {
    if exists|a: Arguments| s == serialized_arguments(a) {
        Some(choose|a: Arguments| s == serialized_arguments(a))
    } else {
        None
    }
}

/// The digits of a rendering are digits, and only zero's rendering starts
/// with a zero digit.
pub proof fn lemma_dec_digits_shape(n: nat)
    ensures
        dec_digits(n).len() >= 1,
        forall|i: int| 0 <= i < dec_digits(n).len() ==> is_dec_digit(#[trigger] dec_digits(n)[i]),
        n > 0 ==> dec_digits(n)[0] != '0',
    decreases n,
{
    lemma_hex_digit_codes();
    if n < 10 {
    } else {
        lemma_dec_digits_shape(n / 10);
        assert(n / 10 > 0 ==> dec_digits(n / 10)[0] != '0');
        assert(dec_digits(n)[0] == dec_digits(n / 10)[0]);
        assert forall|i: int| 0 <= i < dec_digits(n).len() implies is_dec_digit(
            #[trigger] dec_digits(n)[i],
        ) by {
            if i < dec_digits(n / 10).len() {
                assert(dec_digits(n)[i] == dec_digits(n / 10)[i]);
            } else {
                assert(dec_digits(n)[i] == hex_digit(n % 10));
            }
        }
    }
}

/// The digit characters below ten carry consecutive code points from '0'.
pub proof fn lemma_hex_digit_codes()
    ensures
        forall|d: nat| d < 10 ==> (#[trigger] hex_digit(d) as u32) == 48 + d,
        forall|d: nat| d < 10 ==> is_dec_digit(#[trigger] hex_digit(d)),
{
    assert forall|d: nat| d < 10 implies (#[trigger] hex_digit(d) as u32) == 48 + d by {
        if d == 0 {
            assert(hex_digit(0) == '0');
        }
    }
}

/// Reading the rendered digits of `n` back as a number yields `n`.
pub proof fn lemma_digits_val_of_dec_digits(n: nat)
    ensures
        digits_val(dec_digits(n)) == n,
    decreases n,
{
    lemma_hex_digit_codes();
    if n < 10 {
        let s = dec_digits(n);
        assert(s == seq![hex_digit(n)]);
        assert(s.drop_last() =~= Seq::<char>::empty());
        assert(digits_val(s.drop_last()) == 0);
        assert(s.last() == hex_digit(n));
        assert((hex_digit(n) as u32) == 48 + n);
        assert(digits_val(s) == digits_val(s.drop_last()) * 10 + (((s.last() as u32) - 48) as nat));
    } else {
        lemma_digits_val_of_dec_digits(n / 10);
        let s = dec_digits(n);
        assert(s.drop_last() =~= dec_digits(n / 10));
        assert(s.last() == hex_digit(n % 10));
        assert(digits_val(s) == (n / 10) * 10 + n % 10);
        assert((n / 10) * 10 + n % 10 == n) by (nonlinear_arith);
    }
}

/// Renderings are injective: equal digit runs mean equal numbers.
pub proof fn lemma_dec_digits_injective(m: nat, n: nat)
    requires
        dec_digits(m) == dec_digits(n),
    ensures
        m == n,
{
    lemma_digits_val_of_dec_digits(m);
    lemma_digits_val_of_dec_digits(n);
}

/// Appending one digit multiplies the run's value by ten and adds it.
pub proof fn lemma_digits_val_snoc(s: Seq<char>, c: char)
    ensures
        digits_val(s + seq![c]) == digits_val(s) * 10 + (((c as u32) - 48) as nat),
{
    let t = s + seq![c];
    assert(t.drop_last() =~= s);
    assert(t.last() == c);
}

/// A digit run is worth at least as much as any of its prefixes.
pub proof fn lemma_digits_val_prefix(s: Seq<char>, t: Seq<char>)
    ensures
        digits_val(s) <= digits_val(s + t),
    decreases t.len(),
{
    if t.len() == 0 {
        assert(s + t =~= s);
    } else {
        lemma_digits_val_prefix(s, t.drop_last());
        let u = s + t;
        assert(u.drop_last() =~= s + t.drop_last());
        assert(digits_val(u) == digits_val(s + t.drop_last()) * 10 + (((u.last() as u32)
            - 48) as nat));
        assert(digits_val(s + t.drop_last()) <= digits_val(s + t.drop_last()) * 10) by (nonlinear_arith);
    }
}

/// Growing a nonzero-led digit run: the rendering of `10 n + d` extends the
/// rendering of `n` by the digit `d`.
pub proof fn lemma_dec_digits_grow(n: nat, d: nat)
    requires
        n >= 1,
        d < 10,
    ensures
        dec_digits(10 * n + d) == dec_digits(n) + seq![hex_digit(d)],
{
    let m = 10 * n + d;
    assert(m >= 10) by (nonlinear_arith)
        requires
            n >= 1,
            m == 10 * n + d,
    ;
    assert(m / 10 == n && m % 10 == d) by (nonlinear_arith)
        requires
            d < 10,
            m == 10 * n + d,
    ;
}

/// Renders `n` in decimal, most significant digit first, no leading zeros;
/// this is what `{}` prints for a `usize`.
pub fn format_dec_usize(n: usize) -> (r: String)
    ensures
        r@ == dec_digits(n as nat),
    decreases n,
{
    proof {
        lemma_hex_digit_codes();
    }
    if n < 10 {
        dec_digit_str(n)
    } else {
        let mut s = format_dec_usize(n / 10);
        let d = dec_digit_str(n % 10);
        s.append(d.as_str());
        s
    }
}

/// A one-character string holding the decimal digit `d`.
fn dec_digit_str(d: usize) -> (r: String)
    requires
        d < 10,
    ensures
        r@ == seq![hex_digit(d as nat)],
{
    proof {
        reveal_strlit("0");
        reveal_strlit("1");
        reveal_strlit("2");
        reveal_strlit("3");
        reveal_strlit("4");
        reveal_strlit("5");
        reveal_strlit("6");
        reveal_strlit("7");
        reveal_strlit("8");
        reveal_strlit("9");
    }
    let r: &'static str = if d == 0 {
        "0"
    } else if d == 1 {
        "1"
    } else if d == 2 {
        "2"
    } else if d == 3 {
        "3"
    } else if d == 4 {
        "4"
    } else if d == 5 {
        "5"
    } else if d == 6 {
        "6"
    } else if d == 7 {
        "7"
    } else if d == 8 {
        "8"
    } else {
        "9"
    };
    proof {
        assert(r@ =~= seq![hex_digit(d as nat)]);
    }
    String::from_str(r)
}

/// Prints the canonical textual form of `a`; the reloadable side decodes it
/// with [`parse_arguments`].
pub fn serialize_arguments(a: &Arguments) -> (r: String)
    ensures
        r@ == serialized_arguments(*a),
{
    let mut s = String::from_str("(window_width:");
    let w = format_dec_usize(a.window_width);
    s.append(w.as_str());
    s.append(",window_height:");
    let h = format_dec_usize(a.window_height);
    s.append(h.as_str());
    s.append(")");
    proof {
        assert(s@ =~= serialized_arguments(*a));
    }
    s
}

/// Looks for the exact text `lit` at character position `pos` of `s`.
fn expect_lit(s: &str, pos: usize, lit: &str) -> (r: Option<usize>)
    requires
        pos <= s@.len(),
    ensures
        r matches Some(p) ==> p == pos + lit@.len() && p <= s@.len() && s@.subrange(
            pos as int,
            p as int,
        ) == lit@,
        r is None ==> !(pos + lit@.len() <= s@.len() && s@.subrange(
            pos as int,
            pos as int + lit@.len() as int,
        ) == lit@),
{
    let n = s.unicode_len();
    let m = lit.unicode_len();
    if n - pos < m {
        return None;
    }
    let mut i: usize = 0;
    while i < m
        invariant
            pos + m <= n,
            n == s@.len(),
            m == lit@.len(),
            i <= m,
            forall|j: int| 0 <= j < i ==> s@[pos + j] == lit@[j],
        decreases m - i,
    {
        let a = s.get_char(pos + i);
        let b = lit.get_char(i);
        if a != b {
            proof {
                assert(s@.subrange(pos as int, pos as int + lit@.len() as int)[i as int] == s@[pos
                    + i]);
            }
            return None;
        }
        i += 1;
    }
    proof {
        assert(s@.subrange(pos as int, pos as int + m as int) =~= lit@);
    }
    Some(pos + m)
}

/// Reads a maximal run of decimal digits at character position `pos` of `s`,
/// accepting exactly the canonical renderings that fit a `usize`: a lone
/// zero, or a nonzero leading digit with no overflow.
fn parse_number(s: &str, pos: usize) -> (r: Option<(usize, usize)>)
    requires
        pos <= s@.len(),
    ensures
        r matches Some(vp) ==> pos < vp.1 <= s@.len() && s@.subrange(pos as int, vp.1 as int)
            == dec_digits(vp.0 as nat) && (vp.1 == s@.len() || !is_dec_digit(s@[vp.1 as int])),
        forall|n: usize, q: usize|
            #![trigger dec_digits(n as nat), s@.subrange(pos as int, q as int)]
            (pos < q <= s@.len() && s@.subrange(pos as int, q as int) == dec_digits(n as nat) && (q
                == s@.len() || !is_dec_digit(s@[q as int]))) ==> r == Some((n, q)),
{
    let len = s.unicode_len();
    if pos == len {
        return None;
    }
    let c0 = s.get_char(pos);
    let c0u = c0 as u32;
    if !(48 <= c0u && c0u <= 57) {
        proof {
            assert forall|n: usize, q: usize|
                (pos < q <= s@.len() && s@.subrange(pos as int, q as int) == dec_digits(n as nat)
                    && (q == s@.len() || !is_dec_digit(s@[q as int]))) implies false by {
                lemma_dec_digits_shape(n as nat);
                assert(s@.subrange(pos as int, q as int)[0] == s@[pos as int]);
            }
        }
        return None;
    }
    if c0u == 48 {
        if pos + 1 < len {
            let c1 = s.get_char(pos + 1);
            let c1u = c1 as u32;
            if 48 <= c1u && c1u <= 57 {
                proof {
                    assert forall|n: usize, q: usize|
                        (pos < q <= s@.len() && s@.subrange(pos as int, q as int) == dec_digits(
                            n as nat,
                        ) && (q == s@.len() || !is_dec_digit(s@[q as int]))) implies false by {
                        lemma_dec_digits_shape(n as nat);
                        assert(s@.subrange(pos as int, q as int)[0] == s@[pos as int]);
                        if n == 0 {
                            assert(q == pos + 1);
                            assert(is_dec_digit(s@[q as int]));
                        } else {
                            assert(dec_digits(n as nat)[0] != '0');
                            assert(s@[pos as int] == '0');
                        }
                    }
                }
                return None;
            }
        }
        proof {
            assert(s@.subrange(pos as int, pos as int + 1) =~= seq![s@[pos as int]]);
            assert(c0 == hex_digit(0));
            assert(dec_digits(0) == seq![hex_digit(0)]);
            assert forall|n: usize, q: usize|
                (pos < q <= s@.len() && s@.subrange(pos as int, q as int) == dec_digits(n as nat)
                    && (q == s@.len() || !is_dec_digit(s@[q as int]))) implies (n, q) == (
                0usize,
                (pos + 1) as usize,
            ) by {
                lemma_dec_digits_shape(n as nat);
                assert(s@.subrange(pos as int, q as int)[0] == s@[pos as int]);
                if n != 0 {
                    assert(dec_digits(n as nat)[0] != '0');
                }
                assert(n == 0);
                assert(dec_digits(0) == seq![hex_digit(0)]);
                assert(q == pos + 1);
            }
        }
        return Some((0, pos + 1));
    }
    let mut v: usize = (c0u - 48) as usize;
    let mut i: usize = pos + 1;
    proof {
        lemma_hex_digit_codes();
        assert(s@.subrange(pos as int, i as int) =~= seq![s@[pos as int]]);
        assert((hex_digit(v as nat) as u32) == 48 + v);
        assert(c0 == hex_digit(v as nat));
        assert(dec_digits(v as nat) == seq![hex_digit(v as nat)]);
    }
    while i < len
        invariant
            pos < i <= len,
            len == s@.len(),
            1 <= v,
            s@.subrange(pos as int, i as int) == dec_digits(v as nat),
        ensures
            pos < i <= len,
            len == s@.len(),
            1 <= v,
            s@.subrange(pos as int, i as int) == dec_digits(v as nat),
            i == len || !is_dec_digit(s@[i as int]),
        decreases len - i,
    {
        let c = s.get_char(i);
        let cu = c as u32;
        if !(48 <= cu && cu <= 57) {
            break ;
        }
        let d = (cu - 48) as usize;
        proof {
            lemma_hex_digit_codes();
            assert(c == hex_digit(d as nat));
        }
        let v10 = match v.checked_mul(10) {
            Some(x) => x,
            None => {
                proof {
                    digit_run_overflow(s@, pos as int, i as int, v as nat, d as nat);
                }
                return None;
            },
        };
        let nv = match v10.checked_add(d) {
            Some(x) => x,
            None => {
                proof {
                    digit_run_overflow(s@, pos as int, i as int, v as nat, d as nat);
                }
                return None;
            },
        };
        proof {
            lemma_dec_digits_grow(v as nat, d as nat);
            assert(s@.subrange(pos as int, i as int + 1) =~= s@.subrange(pos as int, i as int)
                + seq![s@[i as int]]);
        }
        v = nv;
        i = i + 1;
    }
    proof {
        lemma_dec_digits_shape(v as nat);
        assert forall|n: usize, q: usize|
            (pos < q <= s@.len() && s@.subrange(pos as int, q as int) == dec_digits(n as nat) && (q
                == s@.len() || !is_dec_digit(s@[q as int]))) implies (n, q) == (v, i) by {
            lemma_dec_digits_shape(n as nat);
            if q < i {
                assert(s@.subrange(pos as int, i as int)[q - pos] == s@[q as int]);
                assert(is_dec_digit(dec_digits(v as nat)[q - pos]));
                assert(false);
            } else if q > i {
                assert(s@.subrange(pos as int, q as int)[i - pos] == s@[i as int]);
                assert(is_dec_digit(dec_digits(n as nat)[i - pos]));
                assert(i == s@.len() || !is_dec_digit(s@[i as int]));
                assert(false);
            } else {
                assert(dec_digits(n as nat) == dec_digits(v as nat));
                lemma_dec_digits_injective(n as nat, v as nat);
            }
        }
    }
    Some((v, i))
}

/// A five-way concatenation can be taken apart again by subranges.
proof fn lemma_concat5(s: Seq<char>, a: Seq<char>, b: Seq<char>, c: Seq<char>, d: Seq<char>, e: Seq<char>)
    requires
        s == a + b + c + d + e,
    ensures
        s.len() == a.len() + b.len() + c.len() + d.len() + e.len(),
        s.subrange(0, a.len() as int) == a,
        s.subrange(a.len() as int, a.len() as int + b.len() as int) == b,
        s.subrange(a.len() as int + b.len() as int, a.len() as int + b.len() as int + c.len() as int) == c,
        s.subrange(
            a.len() as int + b.len() as int + c.len() as int,
            a.len() as int + b.len() as int + c.len() as int + d.len() as int,
        ) == d,
        s.subrange(a.len() as int + b.len() as int + c.len() as int + d.len() as int, s.len() as int) == e,
{
    let la = a.len() as int;
    let lb = b.len() as int;
    let lc = c.len() as int;
    let ld = d.len() as int;
    assert(s.subrange(0, la) =~= a);
    assert(s.subrange(la, la + lb) =~= b);
    assert(s.subrange(la + lb, la + lb + lc) =~= c);
    assert(s.subrange(la + lb + lc, la + lb + lc + ld) =~= d);
    assert(s.subrange(la + lb + lc + ld, s.len() as int) =~= e);
}

/// A sequence is the concatenation of its pieces at any four cut points.
proof fn lemma_parts5(s: Seq<char>, p1: int, p2: int, p3: int, p4: int)
    requires
        0 <= p1 <= p2 <= p3 <= p4 <= s.len(),
    ensures
        s == s.subrange(0, p1) + s.subrange(p1, p2) + s.subrange(p2, p3) + s.subrange(p3, p4)
            + s.subrange(p4, s.len() as int),
{
    assert(s =~= s.subrange(0, p1) + s.subrange(p1, p2) + s.subrange(p2, p3) + s.subrange(p3, p4)
        + s.subrange(p4, s.len() as int));
}

/// Canonical argument texts are injective: equal texts mean equal records.
pub proof fn lemma_serialized_arguments_injective(a1: Arguments, a2: Arguments)
    requires
        serialized_arguments(a1) == serialized_arguments(a2),
    ensures
        a1 == a2,
{
    reveal_strlit("(window_width:");
    reveal_strlit(",window_height:");
    reveal_strlit(")");
    let s = serialized_arguments(a1);
    let w1 = dec_digits(a1.window_width as nat);
    let w2 = dec_digits(a2.window_width as nat);
    let h1 = dec_digits(a1.window_height as nat);
    let h2 = dec_digits(a2.window_height as nat);
    let lit1 = "(window_width:"@;
    let lit2 = ",window_height:"@;
    let lit3 = ")"@;
    lemma_concat5(s, lit1, w1, lit2, h1, lit3);
    lemma_concat5(s, lit1, w2, lit2, h2, lit3);
    lemma_dec_digits_shape(a1.window_width as nat);
    lemma_dec_digits_shape(a2.window_width as nat);
    lemma_dec_digits_shape(a1.window_height as nat);
    lemma_dec_digits_shape(a2.window_height as nat);
    let l1 = lit1.len() as int;
    let e1 = l1 + w1.len();
    let e2 = l1 + w2.len();
    if e1 < e2 {
        assert(s[e1] == lit2[0]);
        assert(s.subrange(l1, e2)[e1 - l1] == s[e1]);
        assert(is_dec_digit(w2[e1 - l1]));
        assert(false);
    }
    if e2 < e1 {
        assert(s[e2] == lit2[0]);
        assert(s.subrange(l1, e1)[e2 - l1] == s[e2]);
        assert(is_dec_digit(w1[e2 - l1]));
        assert(false);
    }
    assert(w1 == s.subrange(l1, e1) && w2 == s.subrange(l1, e2));
    lemma_dec_digits_injective(a1.window_width as nat, a2.window_width as nat);
    assert(h1.len() == h2.len());
    let q = e1 + lit2.len();
    assert(h1 == s.subrange(q, q + h1.len()) && h2 == s.subrange(q, q + h2.len()));
    lemma_dec_digits_injective(a1.window_height as nat, a2.window_height as nat);
}

/// In a maximal canonical digit run, extending the already-read prefix by
/// one more digit cannot exceed the run's value, so an accumulator overflow
/// contradicts the run's existence.
proof fn digit_run_overflow(s: Seq<char>, pos: int, i: int, v: nat, d: nat)
    requires
        0 <= pos < i <= s.len(),
        s.subrange(pos, i) == dec_digits(v),
        i < s.len(),
        is_dec_digit(s[i]),
        (s[i] as u32) == 48 + d,
        v * 10 + d > usize::MAX,
    ensures
        forall|n: usize, q: usize|
            (pos < q <= s.len() && s.subrange(pos, q as int) == dec_digits(n as nat) && (q
                == s.len() || !is_dec_digit(s[q as int]))) ==> false,
{
    assert forall|n: usize, q: usize|
        (pos < q <= s.len() && s.subrange(pos, q as int) == dec_digits(n as nat) && (q == s.len()
            || !is_dec_digit(s[q as int]))) implies false by {
        lemma_dec_digits_shape(n as nat);
        if q <= i {
            if q < s.len() {
                if q < i {
                    lemma_dec_digits_shape(v);
                    assert(s.subrange(pos, i)[q - pos] == s[q as int]);
                    assert(is_dec_digit(dec_digits(v)[q - pos]));
                } else {
                    assert(q == i);
                }
                assert(false);
            } else {
                assert(false);
            }
        } else {
            // the prefix read so far, extended by the digit at `i`, sits
            // inside the run for `n`, so its value is bounded by `n`
            let ext = s.subrange(pos, i + 1);
            assert(ext =~= s.subrange(pos, i) + seq![s[i]]);
            lemma_digits_val_snoc(s.subrange(pos, i), s[i]);
            lemma_digits_val_of_dec_digits(v);
            assert(digits_val(ext) == v * 10 + d);
            let rest = s.subrange(i + 1, q as int);
            assert(s.subrange(pos, q as int) =~= ext + rest);
            lemma_digits_val_prefix(ext, rest);
            lemma_digits_val_of_dec_digits(n as nat);
            assert(digits_val(s.subrange(pos, q as int)) == n);
            assert(v * 10 + d <= n);
            assert(false);
        }
    }
}

/// Decodes the canonical textual form of an argument record, accepting
/// exactly the texts [`serialize_arguments`] produces and rejecting all
/// others as malformed.
pub fn parse_arguments(s: &str) -> (r: Result<Arguments, Error>)
    ensures
        r == match spec_parse_arguments(s@) {
            Some(a) => Ok::<Arguments, Error>(a),
            None => Err::<Arguments, Error>(Error::ArgumentMalformed),
        },
{
    proof {
        reveal_strlit("(window_width:");
        reveal_strlit(",window_height:");
        reveal_strlit(")");
    }
    let ghost lit1 = "(window_width:"@;
    let ghost lit2 = ",window_height:"@;
    let ghost lit3 = ")"@;
    let len = s.unicode_len();
    let p1 = match expect_lit(s, 0, "(window_width:") {
        Some(p) => p,
        None => {
            proof {
                assert forall|a: Arguments| s@ == serialized_arguments(a) implies false by {
                    lemma_concat5(
                        s@,
                        lit1,
                        dec_digits(a.window_width as nat),
                        lit2,
                        dec_digits(a.window_height as nat),
                        lit3,
                    );
                }
            }
            return Err(Error::ArgumentMalformed);
        },
    };
    let wp = match parse_number(s, p1) {
        Some(x) => x,
        None => {
            proof {
                assert forall|a: Arguments| s@ == serialized_arguments(a) implies false by {
                    run_facts_width(s@, a);
                    let qu = (p1 + dec_digits(a.window_width as nat).len()) as usize;
                    assert(s@.subrange(p1 as int, qu as int) == dec_digits(
                        a.window_width as nat,
                    ));
                }
            }
            return Err(Error::ArgumentMalformed);
        },
    };
    let w = wp.0;
    let p2 = wp.1;
    let p3 = match expect_lit(s, p2, ",window_height:") {
        Some(p) => p,
        None => {
            proof {
                assert forall|a: Arguments| s@ == serialized_arguments(a) implies false by {
                    run_facts_width(s@, a);
                    let qu = (p1 + dec_digits(a.window_width as nat).len()) as usize;
                    assert(s@.subrange(p1 as int, qu as int) == dec_digits(
                        a.window_width as nat,
                    ));
                    assert(p2 == qu && w == a.window_width);
                    run_facts_height(s@, a);
                    assert(s@.subrange(p2 as int, p2 as int + lit2.len() as int) == lit2);
                    assert(p2 + lit2.len() <= s@.len());
                }
            }
            return Err(Error::ArgumentMalformed);
        },
    };
    let hp = match parse_number(s, p3) {
        Some(x) => x,
        None => {
            proof {
                assert forall|a: Arguments| s@ == serialized_arguments(a) implies false by {
                    run_facts_width(s@, a);
                    let qu = (p1 + dec_digits(a.window_width as nat).len()) as usize;
                    assert(s@.subrange(p1 as int, qu as int) == dec_digits(
                        a.window_width as nat,
                    ));
                    assert(p2 == qu && w == a.window_width);
                    run_facts_height(s@, a);
                    let qh = (p3 + dec_digits(a.window_height as nat).len()) as usize;
                    assert(s@.subrange(p3 as int, qh as int) == dec_digits(
                        a.window_height as nat,
                    ));
                }
            }
            return Err(Error::ArgumentMalformed);
        },
    };
    let h = hp.0;
    let p4 = hp.1;
    let p5 = match expect_lit(s, p4, ")") {
        Some(p) => p,
        None => {
            proof {
                assert forall|a: Arguments| s@ == serialized_arguments(a) implies false by {
                    run_facts_width(s@, a);
                    let qu = (p1 + dec_digits(a.window_width as nat).len()) as usize;
                    assert(s@.subrange(p1 as int, qu as int) == dec_digits(
                        a.window_width as nat,
                    ));
                    assert(p2 == qu && w == a.window_width);
                    run_facts_height(s@, a);
                    let qh = (p3 + dec_digits(a.window_height as nat).len()) as usize;
                    assert(s@.subrange(p3 as int, qh as int) == dec_digits(
                        a.window_height as nat,
                    ));
                    assert(p4 == qh && h == a.window_height);
                }
            }
            return Err(Error::ArgumentMalformed);
        },
    };
    if p5 != len {
        proof {
            assert forall|a: Arguments| s@ == serialized_arguments(a) implies false by {
                run_facts_width(s@, a);
                let qu = (p1 + dec_digits(a.window_width as nat).len()) as usize;
                assert(s@.subrange(p1 as int, qu as int) == dec_digits(a.window_width as nat));
                assert(p2 == qu && w == a.window_width);
                run_facts_height(s@, a);
                let qh = (p3 + dec_digits(a.window_height as nat).len()) as usize;
                assert(s@.subrange(p3 as int, qh as int) == dec_digits(a.window_height as nat));
                assert(p4 == qh && h == a.window_height);
                assert(s@.len() == p4 + 1);
            }
        }
        return Err(Error::ArgumentMalformed);
    }
    let ret = Arguments { window_width: w, window_height: h };
    proof {
        lemma_parts5(s@, p1 as int, p2 as int, p3 as int, p4 as int);
        assert(s@ == serialized_arguments(ret));
        assert(spec_parse_arguments(s@) is Some);
        let x = choose|x: Arguments| s@ == serialized_arguments(x);
        lemma_serialized_arguments_injective(x, ret);
    }
    Ok(ret)
}

/// Under the hypothesis that `s` is the canonical text of `a`, locates the
/// width digit run: it starts right after the opening literal, is followed
/// by a non-digit, and stays inside `s`.
proof fn run_facts_width(s: Seq<char>, a: Arguments)
    requires
        s == serialized_arguments(a),
    ensures
        ({
            let lit1 = "(window_width:"@;
            let lit2 = ",window_height:"@;
            let w = dec_digits(a.window_width as nat);
            let q = lit1.len() + w.len();
            &&& s.subrange(lit1.len() as int, q as int) == w
            &&& lit1.len() < q < s.len()
            &&& !is_dec_digit(s[q as int])
        }),
{
    reveal_strlit("(window_width:");
    reveal_strlit(",window_height:");
    reveal_strlit(")");
    let lit1 = "(window_width:"@;
    let lit2 = ",window_height:"@;
    let lit3 = ")"@;
    let w = dec_digits(a.window_width as nat);
    let h = dec_digits(a.window_height as nat);
    lemma_concat5(s, lit1, w, lit2, h, lit3);
    lemma_dec_digits_shape(a.window_width as nat);
    let q = lit1.len() + w.len();
    assert(s.subrange(q as int, (q + lit2.len()) as int)[0] == s[q as int]);
    assert(s[q as int] == ',');
}

/// Under the same hypothesis, locates the height digit run after the comma
/// literal, followed by the closing parenthesis, which ends the text.
proof fn run_facts_height(s: Seq<char>, a: Arguments)
    requires
        s == serialized_arguments(a),
    ensures
        ({
            let lit1 = "(window_width:"@;
            let lit2 = ",window_height:"@;
            let w = dec_digits(a.window_width as nat);
            let h = dec_digits(a.window_height as nat);
            let p3 = lit1.len() + w.len() + lit2.len();
            let q = p3 + h.len();
            &&& s.subrange(p3 as int, q as int) == h
            &&& p3 < q < s.len()
            &&& !is_dec_digit(s[q as int])
            &&& s.subrange(
                (lit1.len() + w.len()) as int,
                (lit1.len() + w.len() + lit2.len()) as int,
            ) == lit2
            &&& s.len() == q + 1
            &&& s.subrange(q as int, s.len() as int) == ")"@
        }),
{
    reveal_strlit("(window_width:");
    reveal_strlit(",window_height:");
    reveal_strlit(")");
    let lit1 = "(window_width:"@;
    let lit2 = ",window_height:"@;
    let lit3 = ")"@;
    let w = dec_digits(a.window_width as nat);
    let h = dec_digits(a.window_height as nat);
    lemma_concat5(s, lit1, w, lit2, h, lit3);
    lemma_dec_digits_shape(a.window_height as nat);
    let p3 = lit1.len() + w.len() + lit2.len();
    let q = p3 + h.len();
    assert(s.subrange(q as int, s.len() as int)[0] == s[q as int]);
    assert(s[q as int] == ')');
}

/// Round-trip law: decoding the canonical text of any argument record
/// yields exactly that record again.
pub proof fn lemma_arguments_round_trip(a: Arguments)
    ensures
        spec_parse_arguments(serialized_arguments(a)) == Some(a),
{
    let s = serialized_arguments(a);
    assert(spec_parse_arguments(s) is Some);
    let x = choose|x: Arguments| s == serialized_arguments(x);
    lemma_serialized_arguments_injective(x, a);
}

} // verus!
