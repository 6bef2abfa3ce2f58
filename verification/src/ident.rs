use vstd::prelude::*;
use vstd::utf8::encode_utf8;
use vstd::utf8::is_ascii_chars;
use vstd::utf8::is_ascii_chars_encode_utf8;
use crate::hexnum::format_hex_u32;
use crate::hexnum::hex_digits;
use crate::hexnum::lemma_hex_digits_ascii;
use crate::hexnum::lemma_hex_digits_len_u32;

verus! {

/// Byte limit on OS shared-memory names: the tightest host OS caps them at
/// 32 bytes, so every identifier must stay strictly below it.
pub const IDENTIFIER_LIMIT: usize = 32;

/// The session prefix chosen by an owner for the random value `n`:
/// a slash followed by the uppercase hex rendering of `n`.
pub open spec fn spec_prefix(n: nat) -> Seq<char> {
    seq!['/'] + hex_digits(n)
}

/// The OS name of a field's region: the session prefix followed by the
/// field name.
pub open spec fn spec_memory_id(prefix: Seq<char>, name: Seq<char>) -> Seq<char> {
    prefix + name
}

/// Builds the session prefix for the drawn value `n`. It is ASCII and at
/// most 9 bytes, so it leaves at least 22 bytes of the name budget to the
/// field names.
pub fn make_prefix(n: u32) -> (r: String)
    ensures
        r@ == spec_prefix(n as nat),
        is_ascii_chars(r@),
        encode_utf8(r@).len() <= 9,
{
    proof {
        reveal_strlit("/");
    }
    let mut s = String::from_str("/");
    let h = format_hex_u32(n);
    s.append(h.as_str());
    proof {
        assert(s@ =~= spec_prefix(n as nat));
        lemma_hex_digits_ascii(n as nat);
        lemma_hex_digits_len_u32(n);
        assert(is_ascii_chars(s@));
        is_ascii_chars_encode_utf8(s@);
    }
    s
}

/// Concatenates the session prefix with a field name, forming the OS name
/// of the field's backing region.
pub fn memory_id(prefix: &str, name: &str) -> (r: String)
    ensures
        r@ == spec_memory_id(prefix@, name@),
{
    let mut s = prefix.to_owned();
    s.append(name);
    s
}

/// Whether `id`, counted in bytes as the OS does, fits under the name limit.
pub fn identifier_fits(id: &str) -> (r: bool)
    ensures
        r == (encode_utf8(id@).len() < IDENTIFIER_LIMIT),
{
    id.as_bytes().len() < IDENTIFIER_LIMIT
}

} // verus!
