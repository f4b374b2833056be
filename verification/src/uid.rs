//! Textual form of 128-bit identifiers: 32 uppercase hexadecimal digits in
//! the usual five hyphen-separated groups.
use vstd::prelude::*;

verus! {

/// Sixteen to the power `k`.
pub open spec fn pow16(k: int) -> int
    decreases k,
{
    if k <= 0 {
        1
    } else {
        16 * pow16(k - 1)
    }
}

proof fn lemma_pow16_pos(k: int)
    ensures
        pow16(k) > 0,
    decreases k,
{
    if k > 0 {
        lemma_pow16_pos(k - 1);
    }
}

/// The uppercase hexadecimal digit for one value below sixteen.
pub open spec fn spec_hex_digit(n: int) -> u8 {
    if n < 10 {
        (48 + n) as u8
    } else {
        (55 + n) as u8
    }
}

/// The `i`-th nibble of `u`, counted from the most significant.
pub open spec fn spec_uuid_nibble(u: u128, i: int) -> int {
    (u as int / pow16(31 - i)) % 16
}

/// The 32 hexadecimal digits of `u`, most significant first.
pub open spec fn spec_uuid_hex(u: u128) -> Seq<u8> {
    Seq::new(32, |i: int| spec_hex_digit(spec_uuid_nibble(u, i)))
}

/// The hyphenated uppercase form, in groups of 8, 4, 4, 4 and 12 digits.
pub open spec fn spec_uuid_text(u: u128) -> Seq<u8> {
    spec_uuid_hex(u).subrange(0, 8) + seq![45u8] + spec_uuid_hex(u).subrange(8, 12) + seq![45u8]
        + spec_uuid_hex(u).subrange(12, 16) + seq![45u8] + spec_uuid_hex(u).subrange(16, 20)
        + seq![45u8] + spec_uuid_hex(u).subrange(20, 32)
}

fn push_uuid_group(out: &mut Vec<u8>, digits: &Vec<u8>, from: usize, to: usize, Ghost(u): Ghost<
    u128,
>)
    requires
        digits@.len() == 32,
        from <= to <= 32,
        forall|j: int|
            0 <= j < 32 ==> digits@[j] == spec_hex_digit((u as int / pow16(j)) % 16),
    ensures
        final(out)@ == old(out)@ + spec_uuid_hex(u).subrange(from as int, to as int),
{
    let ghost orig = out@;
    let mut i: usize = from;
    while i < to
        invariant
            from <= i <= to <= 32,
            digits@.len() == 32,
            forall|j: int|
                0 <= j < 32 ==> digits@[j] == spec_hex_digit((u as int / pow16(j)) % 16),
            out@ == orig + spec_uuid_hex(u).subrange(from as int, i as int),
        decreases to - i,
    {
        out.push(digits[31 - i]);
        proof {
            assert(spec_uuid_hex(u)[i as int] == digits@[31 - i as int]);
            assert(orig + spec_uuid_hex(u).subrange(from as int, i as int) + seq![
                digits@[31 - i as int],
            ] =~= orig + spec_uuid_hex(u).subrange(from as int, i as int + 1));
        }
        i = i + 1;
    }
}

/// What deriving a version-5 identifier from a namespace and a name yields.
pub uninterp spec fn uuid_v5_of(ns: u128, data: Seq<u8>) -> u128;

/// Relies on uuid::Uuid::new_v5: a version-5 identifier is a function of the
/// namespace and the name bytes alone, and its version nibble is 5.
#[verifier::external_body]
pub(crate) fn uuid_v5(ns: u128, data: &[u8]) -> (r: u128)
    ensures
        r == uuid_v5_of(ns, data@),
        (r >> 76) & 0xF == 5,
{
    uuid::Uuid::new_v5(&uuid::Uuid::from_u128(ns), data).as_u128()
}

/// Format `u` as hyphenated uppercase hexadecimal text.
pub fn uuid_text(u: u128) -> (r: Vec<u8>)
    ensures
        r@ == spec_uuid_text(u),
{
    let mut digits: Vec<u8> = Vec::new();
    let mut v: u128 = u;
    let mut k: usize = 0;
    while k < 32
        invariant
            k <= 32,
            digits@.len() == k,
            v as int == u as int / pow16(k as int),
            forall|j: int|
                0 <= j < k ==> digits@[j] == spec_hex_digit((u as int / pow16(j)) % 16),
        decreases 32 - k,
    {
        let d: u8 = (v % 16) as u8;
        let c: u8 = if d < 10 {
            48 + d
        } else {
            55 + d
        };
        digits.push(c);
        proof {
            lemma_pow16_pos(k as int);
            vstd::arithmetic::div_mod::lemma_div_denominator(u as int, pow16(k as int), 16);
            assert(pow16(k as int) * 16 == pow16(k as int + 1)) by {
                assert(pow16(k as int + 1) == 16 * pow16(k as int));
            }
        }
        v = v / 16;
        k = k + 1;
    }
    let mut out: Vec<u8> = Vec::new();
    push_uuid_group(&mut out, &digits, 0, 8, Ghost(u));
    out.push(45);
    push_uuid_group(&mut out, &digits, 8, 12, Ghost(u));
    out.push(45);
    push_uuid_group(&mut out, &digits, 12, 16, Ghost(u));
    out.push(45);
    push_uuid_group(&mut out, &digits, 16, 20, Ghost(u));
    out.push(45);
    push_uuid_group(&mut out, &digits, 20, 32, Ghost(u));
    proof {
        assert(out@ =~= spec_uuid_text(u));
    }
    out
}

} // verus!
