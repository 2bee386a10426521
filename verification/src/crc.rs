//! The sensor's frame checksum: CRC-8 with polynomial x^8 + x^5 + x^4 + 1,
//! computed by long division over the 24-bit word made of a 16-bit
//! magnitude followed by its checksum byte.

use vstd::prelude::*;

verus! {

/// The generator polynomial, aligned with the top of a 24-bit word.
pub const SHIFTED_DIVISOR: u32 = 0x988000;

/// Number of division steps: one per bit of the magnitude.
pub const DIVISION_STEPS: u32 = 16;

/// The 24-bit word that is divided: magnitude in the upper 16 bits,
/// checksum in the lower 8.
pub open spec fn dividend(raw_value: u16, checksum: u8) -> u32 {
    ((raw_value as u32) << 8) | (checksum as u32)
}

/// Step `i` of the division: if bit `23 - i` of the remainder is set, the
/// generator, moved `i` places down, is subtracted (XOR) from it.
pub open spec fn divide_step(remainder: u32, i: u32) -> u32 {
    if remainder & (1u32 << ((23 - i) as u32)) != 0 {
        remainder ^ (SHIFTED_DIVISOR >> i)
    } else {
        remainder
    }
}

/// The remainder after the first `steps` steps of the division.
pub open spec fn divide(word: u32, steps: nat) -> u32
    decreases steps,
{
    if steps == 0 {
        word
    } else {
        divide_step(divide(word, (steps - 1) as nat), (steps - 1) as u32)
    }
}

/// What is left of the word `raw_value ++ checksum` after the full division.
pub open spec fn crc_remainder(raw_value: u16, checksum: u8) -> u32 {
    divide(dividend(raw_value, checksum), DIVISION_STEPS as nat)
}

/// A frame passes the check when the division leaves no remainder.
pub open spec fn crc_passes(raw_value: u16, checksum: u8) -> bool {
    crc_remainder(raw_value, checksum) == 0
}

/// The checksum that belongs to a magnitude: the remainder of the magnitude
/// followed by eight zero bits.
pub open spec fn checksum_of(raw_value: u16) -> u8 {
    (crc_remainder(raw_value, 0) & 0xff) as u8
}

/// Runs the long division and returns its remainder.
pub fn remainder_of(raw_value: u16, checksum: u8) -> (remainder: u32)
    ensures
        remainder == crc_remainder(raw_value, checksum),
{
    let mut remainder: u32 = ((raw_value as u32) << 8) | (checksum as u32);
    let mut divisor: u32 = SHIFTED_DIVISOR;
    let mut i: u32 = 0;
    assert(SHIFTED_DIVISOR >> 0u32 == SHIFTED_DIVISOR) by (bit_vector);
    while i < DIVISION_STEPS
        invariant
            i <= DIVISION_STEPS,
            divisor == SHIFTED_DIVISOR >> i,
            remainder == divide(dividend(raw_value, checksum), i as nat),
        decreases DIVISION_STEPS - i,
    {
        if (remainder & (1u32 << (23 - i))) != 0 {
            remainder ^= divisor;
        }
        assert((SHIFTED_DIVISOR >> i) >> 1u32 == SHIFTED_DIVISOR >> ((i + 1) as u32)) by (bit_vector)
            requires
                i < 16,
        ;
        divisor >>= 1;
        i += 1;
    }
    remainder
}

/// The checksum byte that makes a frame for `raw_value` pass the check.
pub fn checksum(raw_value: u16) -> (sum: u8)
    ensures
        sum == checksum_of(raw_value),
{
    let remainder: u32 = remainder_of(raw_value, 0);
    assert(remainder & 0xff < 0x100) by (bit_vector);
    (remainder & 0xff) as u8
}

/// A checksum byte only occupies the low eight bits of the word, below
/// every bit that a division step inspects, so it passes through a step
/// untouched.
proof fn lemma_step_carries_checksum(word: u32, sum: u32, i: u32)
    requires
        i < 16,
        sum < 0x100,
    ensures
        divide_step(word ^ sum, i) == divide_step(word, i) ^ sum,
{
    assert(divide_step(word ^ sum, i) == divide_step(word, i) ^ sum) by (bit_vector)
        requires
            i < 16,
            sum < 0x100,
    ;
}

/// Step `i` clears bit `23 - i` and leaves nothing above it.
proof fn lemma_step_shortens(word: u32, i: u32)
    requires
        i < 16,
        word < (1u32 << ((24 - i) as u32)),
    ensures
        divide_step(word, i) < (1u32 << ((23 - i) as u32)),
{
    assert(divide_step(word, i) < (1u32 << ((23 - i) as u32))) by (bit_vector)
        requires
            i < 16,
            word < (1u32 << ((24 - i) as u32)),
    ;
}

/// The division is linear in the checksum byte, and after `steps` steps the
/// remainder fits in `24 - steps` bits.
proof fn lemma_divide_carries_checksum(word: u32, sum: u32, steps: nat)
    requires
        steps <= 16,
        sum < 0x100,
        word < 0x100_0000,
    ensures
        divide(word ^ sum, steps) == divide(word, steps) ^ sum,
        divide(word, steps) < (1u32 << ((24 - steps) as u32)),
    decreases steps,
{
    if steps == 0 {
        assert(0x100_0000u32 == 1u32 << 24u32) by (bit_vector);
    } else {
        let before = (steps - 1) as nat;
        let i = before as u32;
        lemma_divide_carries_checksum(word, sum, before);
        lemma_step_carries_checksum(divide(word, before), sum, i);
        lemma_step_shortens(divide(word, before), i);
    }
}

/// The remainder of a frame is the checksum of its magnitude XOR the
/// checksum byte it carries.
pub proof fn lemma_remainder_splits(raw_value: u16, sum: u8)
    ensures
        crc_remainder(raw_value, sum) == (checksum_of(raw_value) ^ sum) as u32,
{
    let word = dividend(raw_value, 0);
    assert(dividend(raw_value, sum) == word ^ (sum as u32) && word < 0x100_0000) by (bit_vector)
        requires
            word == ((raw_value as u32) << 8) | (0u8 as u32),
            dividend(raw_value, sum) == ((raw_value as u32) << 8) | (sum as u32),
    ;
    lemma_divide_carries_checksum(word, sum as u32, 16);
    let rest = divide(word, 16);
    let own = checksum_of(raw_value);
    assert(own == rest && rest ^ (sum as u32) == (own ^ sum) as u32) by (bit_vector)
        requires
            rest < (1u32 << 8u32),
            own == (rest & 0xff) as u8,
    ;
}

/// Exactly one checksum byte passes for a given magnitude: the one that
/// `checksum_of` computes.
pub proof fn lemma_only_own_checksum_passes(raw_value: u16, sum: u8)
    ensures
        crc_passes(raw_value, sum) <==> sum == checksum_of(raw_value),
{
    lemma_remainder_splits(raw_value, sum);
    let own = checksum_of(raw_value);
    assert(((own ^ sum) as u32 == 0) <==> sum == own) by (bit_vector);
}

/// A magnitude together with its correctly computed checksum passes the
/// check.
pub proof fn lemma_own_checksum_passes(raw_value: u16)
    ensures
        crc_passes(raw_value, checksum_of(raw_value)),
{
    lemma_only_own_checksum_passes(raw_value, checksum_of(raw_value));
}

/// Flipping any single bit of a correct checksum makes the check fail.
pub proof fn lemma_flipped_checksum_bit_fails(raw_value: u16, bit: u8)
    requires
        bit < 8,
    ensures
        !crc_passes(raw_value, checksum_of(raw_value) ^ (1u8 << bit)),
{
    let own = checksum_of(raw_value);
    lemma_only_own_checksum_passes(raw_value, own ^ (1u8 << bit));
    assert(own ^ (1u8 << bit) != own) by (bit_vector)
        requires
            bit < 8,
    ;
}

/// A division step treats the word as a polynomial over GF(2): the step
/// of a sum is the sum of the steps.
proof fn lemma_step_is_linear(a: u32, b: u32, i: u32)
    requires
        i < 16,
    ensures
        divide_step(a ^ b, i) == divide_step(a, i) ^ divide_step(b, i),
{
    assert(divide_step(a ^ b, i) == divide_step(a, i) ^ divide_step(b, i)) by (bit_vector)
        requires
            i < 16,
    ;
}

/// The whole division is linear as well.
proof fn lemma_divide_is_linear(a: u32, b: u32, steps: nat)
    requires
        steps <= 16,
    ensures
        divide(a ^ b, steps) == divide(a, steps) ^ divide(b, steps),
    decreases steps,
{
    if steps > 0 {
        let before = (steps - 1) as nat;
        lemma_divide_is_linear(a, b, before);
        lemma_step_is_linear(divide(a, before), divide(b, before), before as u32);
    }
}

/// Steps 0 to 3 of the division, written out.
spec fn steps_0_to_3(word: u32) -> u32 {
    divide_step(divide_step(divide_step(divide_step(word, 0), 1), 2), 3)
}

/// Steps 4 to 7 of the division, written out.
spec fn steps_4_to_7(word: u32) -> u32 {
    divide_step(divide_step(divide_step(divide_step(word, 4), 5), 6), 7)
}

/// Steps 8 to 11 of the division, written out.
spec fn steps_8_to_11(word: u32) -> u32 {
    divide_step(divide_step(divide_step(divide_step(word, 8), 9), 10), 11)
}

/// Steps 12 to 15 of the division, written out.
spec fn steps_12_to_15(word: u32) -> u32 {
    divide_step(divide_step(divide_step(divide_step(word, 12), 13), 14), 15)
}

/// The first half of the division: it works on the upper byte of the
/// magnitude.
spec fn first_half(word: u32) -> u32 {
    steps_4_to_7(steps_0_to_3(word))
}

/// The second half of the division: it works on the lower byte of the
/// magnitude.
spec fn second_half(word: u32) -> u32 {
    steps_12_to_15(steps_8_to_11(word))
}

/// The division is its two halves, one after the other.
proof fn lemma_divide_in_halves(word: u32)
    ensures
        divide(word, 16) == second_half(first_half(word)),
{
    reveal_with_fuel(divide, 17);
}

/// The first half leaves a word below 2^16 alone; applied to a word moved
/// up by a byte it does what the second half does to the word itself.
proof fn lemma_first_half(word: u32)
    requires
        word < 0x1_0000,
    ensures
        first_half(word) == word,
        first_half(word << 8) == second_half(word) << 8,
{
    let a = steps_0_to_3(word);
    assert(a == word) by (bit_vector)
        requires
            word < 0x1_0000,
            a == steps_0_to_3(word),
    ;
    let b = steps_4_to_7(a);
    assert(b == a) by (bit_vector)
        requires
            a < 0x1_0000,
            b == steps_4_to_7(a),
    ;
    let moved = word << 8;
    let c = steps_0_to_3(moved);
    let low = steps_8_to_11(word);
    assert(c == low << 8 && low < 0x1_0000) by (bit_vector)
        requires
            word < 0x1_0000,
            moved == word << 8,
            c == steps_0_to_3(moved),
            low == steps_8_to_11(word),
    ;
    let d = steps_4_to_7(c);
    let lower = steps_12_to_15(low);
    assert(d == lower << 8) by (bit_vector)
        requires
            low < 0x1_0000,
            c == low << 8,
            d == steps_4_to_7(c),
            lower == steps_12_to_15(low),
    ;
}

/// The second half leaves a word below 2^8 alone, and takes a word below
/// 2^16 to one below 2^8. It takes a word with an empty low byte to zero
/// only if the word is zero: no byte but zero has the checksum zero.
proof fn lemma_second_half(word: u32)
    requires
        word < 0x1_0000,
    ensures
        second_half(word) < 0x100,
        word < 0x100 ==> second_half(word) == word,
        word & 0xff == 0 && word != 0 ==> second_half(word) != 0,
{
    let a = steps_8_to_11(word);
    assert(a < 0x1000 && (word < 0x100 ==> a == word) && (word & 0xff == 0 ==> a & 0xf == 0) && (
    word & 0xff == 0 && word != 0 ==> a != 0)) by (bit_vector)
        requires
            word < 0x1_0000,
            a == steps_8_to_11(word),
    ;
    let b = steps_12_to_15(a);
    assert(b < 0x100 && (a < 0x100 ==> b == a) && (a & 0xf == 0 && a != 0 ==> b != 0))
        by (bit_vector)
        requires
            a < 0x1000,
            b == steps_12_to_15(a),
    ;
}

/// No word with a single bit set is a multiple of the generator.
proof fn lemma_single_bit_leaves_remainder(bit: u32)
    requires
        bit < 24,
    ensures
        divide(1u32 << bit, 16) != 0,
{
    let word = 1u32 << bit;
    lemma_divide_in_halves(word);
    if bit < 16 {
        assert(word < 0x1_0000 && word != 0 && (bit < 8 ==> word < 0x100) && (bit >= 8 ==> word
            & 0xff == 0)) by (bit_vector)
            requires
                bit < 16,
                word == 1u32 << bit,
        ;
        lemma_first_half(word);
        lemma_second_half(word);
    } else {
        let lower = 1u32 << ((bit - 8) as u32);
        assert(lower < 0x1_0000 && lower != 0 && lower & 0xff == 0 && word == lower << 8)
            by (bit_vector)
            requires
                16 <= bit < 24,
                word == 1u32 << bit,
                lower == 1u32 << ((bit - 8) as u32),
        ;
        lemma_first_half(lower);
        lemma_second_half(lower);
        let rest = second_half(lower);
        let moved = rest << 8;
        assert(moved < 0x1_0000 && moved != 0 && moved & 0xff == 0) by (bit_vector)
            requires
                rest < 0x100,
                rest != 0,
                moved == rest << 8,
        ;
        lemma_second_half(moved);
    }
}

/// The check detects every single-bit error: a frame that passes no longer
/// divides evenly once any one of its 24 bits is flipped.
pub proof fn lemma_single_bit_error_is_detected(raw_value: u16, sum: u8, bit: u32)
    requires
        bit < 24,
        crc_passes(raw_value, sum),
    ensures
        divide(dividend(raw_value, sum) ^ (1u32 << bit), DIVISION_STEPS as nat) != 0,
{
    let flip = 1u32 << bit;
    lemma_divide_is_linear(dividend(raw_value, sum), flip, 16);
    lemma_single_bit_leaves_remainder(bit);
    let tail = divide(flip, 16);
    assert(0u32 ^ tail == tail) by (bit_vector);
}

/// Flipping any single bit of the magnitude of a frame that passes makes
/// the check fail.
pub proof fn lemma_flipped_magnitude_bit_fails(raw_value: u16, sum: u8, bit: u16)
    requires
        bit < 16,
        crc_passes(raw_value, sum),
    ensures
        !crc_passes(raw_value ^ (1u16 << bit), sum),
{
    let word = dividend(raw_value, sum);
    let flip = 1u32 << ((bit + 8) as u32);
    let flipped = dividend(raw_value ^ (1u16 << bit), sum);
    assert(flipped == word ^ flip) by (bit_vector)
        requires
            bit < 16,
            word == ((raw_value as u32) << 8) | (sum as u32),
            flip == 1u32 << ((bit + 8) as u32),
            flipped == (((raw_value ^ (1u16 << bit)) as u32) << 8) | (sum as u32),
    ;
    lemma_single_bit_error_is_detected(raw_value, sum, (bit + 8) as u32);
}

} // verus!
