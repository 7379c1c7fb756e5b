use vstd::prelude::*;
use crate::op_parser::NUM_MAX;

verus! {

/// Modulus of the machine's arithmetic.
pub const MODULUS: u32 = 32768;

/// A word read as a number: its low fifteen bits.
pub open spec fn number(w: u16) -> u16 {
    (w % 32768) as u16
}

/// Sum modulo 32768.
pub open spec fn add_mod(a: u16, b: u16) -> u16 {
    ((a + b) % 32768) as u16
}

/// Product modulo 32768.
pub open spec fn mul_mod(a: u16, b: u16) -> u16 {
    ((a * b) % 32768) as u16
}

/// Remainder of the division of `a` by `b`, for `b` other than zero.
pub open spec fn rem(a: u16, b: u16) -> u16
    recommends
        b != 0,
{
    (a % b) as u16
}

/// Bitwise and of the low fifteen bits.
pub open spec fn and15(a: u16, b: u16) -> u16 {
    (a & b) & 0x7FFF
}

/// Bitwise or of the low fifteen bits.
pub open spec fn or15(a: u16, b: u16) -> u16 {
    (a | b) & 0x7FFF
}

/// Fifteen-bit complement.
pub open spec fn not15(x: u16) -> u16 {
    !x & 0x7FFF
}

/// The code that `in` stores for a character: its scalar value, cut to
/// sixteen bits.
pub open spec fn code_of(c: char) -> u16 {
    (c as u32 % 65536) as u16
}

/// The character that `out` writes for a number: the one whose scalar value
/// is the number's low eight bits.
pub open spec fn glyph_of(w: u16) -> char {
    ((w % 256) as u8) as char
}

/// Drops the sixteenth bit of a word.
pub fn to_number(w: u16) -> (n: u16)
    ensures
        n == number(w),
        n <= NUM_MAX,
{
    w % 32768
}

/// Product of two words, computed in a wider type and reduced modulo 32768.
pub fn wrapping_mul(a: u16, b: u16) -> (r: u16)
    ensures
        r == mul_mod(a, b),
        r as int == (a as int * b as int) % 32768,
        r <= NUM_MAX,
{
    assert(0 <= (a as int) * (b as int) <= 0xFFFF * 0xFFFF) by (nonlinear_arith)
        requires
            0 <= a <= 0xFFFF,
            0 <= b <= 0xFFFF,
    ;
    let wide: u32 = (a as u32) * (b as u32);
    (wide % MODULUS) as u16
}

/// Sum of two words, computed in a wider type and reduced modulo 32768.
pub fn wrapping_add(a: u16, b: u16) -> (r: u16)
    ensures
        r == add_mod(a, b),
        r as int == (a as int + b as int) % 32768,
        r <= NUM_MAX,
{
    let wide: u32 = (a as u32) + (b as u32);
    (wide % MODULUS) as u16
}

/// Remainder of `a` divided by `b`.
pub fn wrapping_mod(a: u16, b: u16) -> (r: u16)
    requires
        b != 0,
    ensures
        r == rem(a, b),
        r as int == (a as int) % (b as int),
        r < b,
{
    a % b
}

/// Fifteen-bit complement of a word.
pub fn bit_not(x: u16) -> (r: u16)
    ensures
        r == not15(x),
        r <= NUM_MAX,
{
    let r: u16 = !x & 0x7FFF;
    assert(!x & 0x7FFF <= 0x7FFF) by (bit_vector);
    r
}

/// Bitwise and of two words, cut to fifteen bits.
pub fn bit_and(a: u16, b: u16) -> (r: u16)
    ensures
        r == and15(a, b),
        r <= NUM_MAX,
{
    let r: u16 = (a & b) & 0x7FFF;
    assert((a & b) & 0x7FFF <= 0x7FFF) by (bit_vector);
    r
}

/// Bitwise or of two words, cut to fifteen bits.
pub fn bit_or(a: u16, b: u16) -> (r: u16)
    ensures
        r == or15(a, b),
        r <= NUM_MAX,
{
    let r: u16 = (a | b) & 0x7FFF;
    assert((a | b) & 0x7FFF <= 0x7FFF) by (bit_vector);
    r
}

/// The sixteen-bit code of a character.
pub fn char_code(c: char) -> (w: u16)
    ensures
        w == code_of(c),
{
    let wide: u32 = c as u32;
    (wide % 65536) as u16
}

/// The character for the low eight bits of a word.
pub fn glyph(w: u16) -> (c: char)
    ensures
        c == glyph_of(w),
{
    ((w % 256) as u8) as char
}

/// On numbers, addition and multiplication are those of the integers reduced
/// modulo 32768, and the remainder is that of the integers.
pub proof fn lemma_arithmetic_modulus(a: u16, b: u16)
    requires
        a <= NUM_MAX,
        b <= NUM_MAX,
    ensures
        add_mod(a, b) as int == (a as int + b as int) % 32768,
        mul_mod(a, b) as int == (a as int * b as int) % 32768,
        b != 0 ==> rem(a, b) as int == (a as int) % (b as int),
        add_mod(a, b) <= NUM_MAX,
        mul_mod(a, b) <= NUM_MAX,
        b != 0 ==> rem(a, b) <= NUM_MAX,
{
}

/// On numbers, the fifteen-bit complement undoes itself.
pub proof fn lemma_not_involution(x: u16)
    requires
        x <= NUM_MAX,
    ensures
        not15(not15(x)) == x,
        not15(x) <= NUM_MAX,
{
    assert(x <= 0x7FFF ==> !(!x & 0x7FFF) & 0x7FFF == x) by (bit_vector);
    assert(!x & 0x7FFF <= 0x7FFF) by (bit_vector);
}

/// On numbers, the bitwise operations are those of the words, and their
/// results are numbers.
pub proof fn lemma_bitwise_numbers(a: u16, b: u16)
    requires
        a <= NUM_MAX,
        b <= NUM_MAX,
    ensures
        and15(a, b) == a & b,
        or15(a, b) == a | b,
        and15(a, b) <= NUM_MAX,
        or15(a, b) <= NUM_MAX,
{
    assert(a <= 0x7FFF && b <= 0x7FFF ==> (a & b) & 0x7FFF == a & b) by (bit_vector);
    assert(a <= 0x7FFF && b <= 0x7FFF ==> (a | b) & 0x7FFF == a | b) by (bit_vector);
    assert((a & b) & 0x7FFF <= 0x7FFF) by (bit_vector);
    assert((a | b) & 0x7FFF <= 0x7FFF) by (bit_vector);
}

} // verus!
