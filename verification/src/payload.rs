//! The eight bytes that carry one counter increment, least significant byte first.

use vstd::prelude::*;

verus! {

/// The number of values that `n` bytes can have.
pub open spec fn pow256(n: nat) -> nat
    decreases n,
{
    if n == 0 {
        1
    } else {
        256 * pow256((n - 1) as nat)
    }
}

/// The `n` lowest digits of `v` to the base 256, least significant first.
pub open spec fn digits(v: nat, n: nat) -> Seq<u8>
    decreases n,
{
    if n == 0 {
        seq![]
    } else {
        seq![(v % 256) as u8] + digits(v / 256, (n - 1) as nat)
    }
}

/// The number with these digits to the base 256, least significant first.
pub open spec fn number(s: Seq<u8>) -> nat
    decreases s.len(),
{
    if s.len() == 0 {
        0
    } else {
        s[0] as nat + 256 * number(s.drop_first())
    }
}

/// The bytes that carry the increment `v`.
pub open spec fn payload(v: u64) -> Seq<u8> {
    digits(v as nat, 8)
}

proof fn lemma_digits_len(v: nat, n: nat)
    ensures
        digits(v, n).len() == n,
    decreases n,
{
    if n > 0 {
        lemma_digits_len(v / 256, (n - 1) as nat);
    }
}

proof fn lemma_number_bound(s: Seq<u8>)
    ensures
        number(s) < pow256(s.len()),
    decreases s.len(),
{
    if s.len() > 0 {
        lemma_number_bound(s.drop_first());
    }
}

proof fn lemma_pow256_8()
    ensures
        pow256(8) == u64::MAX + 1,
{
    reveal_with_fuel(pow256, 9);
}

proof fn lemma_number_of_digits(v: nat, n: nat)
    requires
        v < pow256(n),
    ensures
        number(digits(v, n)) == v,
    decreases n,
{
    if n > 0 {
        let rest = digits(v / 256, (n - 1) as nat);
        lemma_number_of_digits(v / 256, (n - 1) as nat);
        assert(digits(v, n).drop_first() =~= rest);
    }
}

proof fn lemma_digits_of_number(s: Seq<u8>)
    ensures
        digits(number(s), s.len()) == s,
    decreases s.len(),
{
    if s.len() > 0 {
        let rest = s.drop_first();
        lemma_digits_of_number(rest);
        assert(number(s) / 256 == number(rest));
        assert(number(s) % 256 == s[0]);
        assert(digits(number(s), s.len()) =~= s);
    } else {
        assert(digits(number(s), s.len()) =~= s);
    }
}

/// Any eight bytes are the payload of one increment.
pub proof fn law_eight_bytes_are_payload(s: Seq<u8>)
    requires
        s.len() == 8,
    ensures
        number(s) <= u64::MAX,
        payload(number(s) as u64) == s,
{
    lemma_number_bound(s);
    lemma_pow256_8();
    lemma_digits_of_number(s);
}

/// A payload is eight bytes long and carries its increment: reading the bytes back as a
/// number gives the increment that they were made from.
pub proof fn law_payload_round_trip(v: u64)
    ensures
        payload(v).len() == 8,
        number(payload(v)) == v,
{
    lemma_digits_len(v as nat, 8);
    lemma_pow256_8();
    lemma_number_of_digits(v as nat, 8);
}

/// Byte `i` of a payload holds bits `8 * i` to `8 * i + 7` of the increment: the payload is
/// the increment in little-endian order.
pub proof fn law_payload_is_little_endian(v: u64)
    ensures
        payload(v).len() == 8,
        payload(v)[0] == v & 0xff,
        payload(v)[1] == (v >> 8) & 0xff,
        payload(v)[2] == (v >> 16) & 0xff,
        payload(v)[3] == (v >> 24) & 0xff,
        payload(v)[4] == (v >> 32) & 0xff,
        payload(v)[5] == (v >> 40) & 0xff,
        payload(v)[6] == (v >> 48) & 0xff,
        payload(v)[7] == (v >> 56) & 0xff,
{
    reveal_with_fuel(digits, 9);
    assert(v % 256 == v & 0xff) by (bit_vector);
    assert(v / 256 % 256 == (v >> 8) & 0xff) by (bit_vector);
    assert(v / 256 / 256 % 256 == (v >> 16) & 0xff) by (bit_vector);
    assert(v / 256 / 256 / 256 % 256 == (v >> 24) & 0xff) by (bit_vector);
    assert(v / 256 / 256 / 256 / 256 % 256 == (v >> 32) & 0xff) by (bit_vector);
    assert(v / 256 / 256 / 256 / 256 / 256 % 256 == (v >> 40) & 0xff) by (bit_vector);
    assert(v / 256 / 256 / 256 / 256 / 256 / 256 % 256 == (v >> 48) & 0xff) by (bit_vector);
    assert(v / 256 / 256 / 256 / 256 / 256 / 256 / 256 % 256 == (v >> 56) & 0xff) by (bit_vector);
}

/// Eight bytes carry the sum of their values, each weighted by its place.
pub proof fn law_number_is_weighted_sum(s: Seq<u8>)
    requires
        s.len() == 8,
    ensures
        number(s) == s[0] + s[1] * 0x100 + s[2] * 0x1_0000 + s[3] * 0x100_0000 + s[4]
            * 0x1_0000_0000 + s[5] * 0x100_0000_0000 + s[6] * 0x1_0000_0000_0000 + s[7]
            * 0x100_0000_0000_0000,
{
    let t1 = s.drop_first();
    let t2 = t1.drop_first();
    let t3 = t2.drop_first();
    let t4 = t3.drop_first();
    let t5 = t4.drop_first();
    let t6 = t5.drop_first();
    let t7 = t6.drop_first();
    assert(number(t7) == t7[0] + 256 * number(t7.drop_first()));
    assert(number(t6) == t6[0] + 256 * number(t7));
    assert(number(t5) == t5[0] + 256 * number(t6));
    assert(number(t4) == t4[0] + 256 * number(t5));
    assert(number(t3) == t3[0] + 256 * number(t4));
    assert(number(t2) == t2[0] + 256 * number(t3));
    assert(number(t1) == t1[0] + 256 * number(t2));
}

/// The bytes that carry the increment `v`.
pub fn encode(v: u64) -> (bytes: [u8; 8])
    ensures
        bytes@ == payload(v),
        forall|i: int|
            0 <= i < 8 ==> #[trigger] bytes@[i] == (v >> ((8 * i) as u64)) & 0xff,
{
    let mut bytes: [u8; 8] = [0; 8];
    let mut rest: u64 = v;
    for i in 0..8usize
        invariant
            payload(v) =~= bytes@.take(i as int) + digits(rest as nat, (8 - i) as nat),
    {
        let ghost before = bytes@;
        bytes[i] = (rest % 256) as u8;
        assert(bytes@.take(i + 1) =~= before.take(i as int).push((rest % 256) as u8));
        rest = rest / 256;
    }
    assert(bytes@.take(8) =~= bytes@);
    proof {
        law_payload_is_little_endian(v);
        assert(v >> 0u64 == v) by (bit_vector);
        assert forall|i: int| 0 <= i < 8 implies #[trigger] bytes@[i] == (v >> ((8 * i) as u64))
            & 0xff by {
            assert(i == 0 || i == 1 || i == 2 || i == 3 || i == 4 || i == 5 || i == 6 || i == 7);
        }
    }
    bytes
}

/// The increment that the bytes carry.
pub fn decode(bytes: &[u8; 8]) -> (v: u64)
    ensures
        v == number(bytes@),
        v == bytes@[0] + bytes@[1] * 0x100 + bytes@[2] * 0x1_0000 + bytes@[3] * 0x100_0000
            + bytes@[4] * 0x1_0000_0000 + bytes@[5] * 0x100_0000_0000 + bytes@[6]
            * 0x1_0000_0000_0000 + bytes@[7] * 0x100_0000_0000_0000,
{
    let mut v: u64 = 0;
    let mut i: usize = 8;
    while i > 0
        invariant
            i <= 8,
            v == number(bytes@.skip(i as int)),
        decreases i,
    {
        proof {
            let tail = bytes@.skip(i - 1);
            assert(tail.drop_first() =~= bytes@.skip(i as int));
            lemma_number_bound(tail);
            reveal_with_fuel(pow256, 9);
        }
        i = i - 1;
        v = v * 256 + bytes[i] as u64;
    }
    assert(bytes@.skip(0) =~= bytes@);
    proof {
        law_number_is_weighted_sum(bytes@);
    }
    v
}

} // verus!
