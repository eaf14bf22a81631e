//! Little-endian integers of any width up to eight bytes, unsigned and
//! two's-complement, as they are laid out on disk.
use vstd::prelude::*;

verus! {

/// The number that the bytes `s` spell, least significant byte first.
pub open spec fn le_unsigned(s: Seq<u8>) -> nat
    decreases s.len(),
{
    if s.len() == 0 {
        0
    } else {
        (s[0] as nat) + 256 * le_unsigned(s.drop_first())
    }
}

/// `256` to the power `n`: the number of values that `n` bytes can spell.
pub open spec fn radix(n: nat) -> nat
    decreases n,
{
    if n == 0 {
        1
    } else {
        256 * radix((n - 1) as nat)
    }
}

/// The integer that the unsigned `value` stands for when its `width` bytes
/// are read as two's complement: values in the upper half of the range are
/// the negative ones.
pub open spec fn twos_complement(value: nat, width: nat) -> int {
    if 2 * value >= radix(width) {
        value - radix(width)
    } else {
        value as int
    }
}

/// The number that the bytes `s` spell when read as a two's-complement
/// integer of exactly `s.len()` bytes.
pub open spec fn le_signed(s: Seq<u8>) -> int {
    twos_complement(le_unsigned(s), s.len())
}

/// The unsigned number in the `width` bytes of `bytes` that start at
/// `offset`.
pub open spec fn le_field(bytes: Seq<u8>, offset: int, width: int) -> nat {
    le_unsigned(bytes.subrange(offset, offset + width))
}

/// The values of `radix` for the widths that occur on disk.
pub proof fn lemma_radix_values()
    ensures
        radix(0) == 1,
        radix(1) == 0x100,
        radix(2) == 0x1_0000,
        radix(3) == 0x100_0000,
        radix(4) == 0x1_0000_0000,
        radix(5) == 0x100_0000_0000,
        radix(6) == 0x1_0000_0000_0000,
        radix(7) == 0x100_0000_0000_0000,
        radix(8) == 0x1_0000_0000_0000_0000,
{
    reveal_with_fuel(radix, 9);
}

/// A wider field can spell at least as many values.
pub proof fn lemma_radix_monotonic(a: nat, b: nat)
    requires
        a <= b,
    ensures
        0 < radix(a) <= radix(b),
    decreases b,
{
    if b == 0 {
    } else if a == b {
        lemma_radix_monotonic((a - 1) as nat, (b - 1) as nat);
    } else {
        lemma_radix_monotonic(a, (b - 1) as nat);
    }
}

/// Putting one byte in front of a field multiplies what follows by 256.
pub proof fn lemma_le_unsigned_step(s: Seq<u8>, from: int, to: int)
    requires
        0 <= from < to <= s.len(),
    ensures
        le_unsigned(s.subrange(from, to)) == s[from] + 256 * le_unsigned(s.subrange(from + 1, to)),
{
    let t = s.subrange(from, to);
    assert(t.drop_first() =~= s.subrange(from + 1, to));
}

/// The `width` bytes that spell `value`, least significant byte first.
pub open spec fn le_bytes(value: nat, width: nat) -> Seq<u8>
    decreases width,
{
    if width == 0 {
        Seq::empty()
    } else {
        seq![(value % 256) as u8] + le_bytes(value / 256, (width - 1) as nat)
    }
}

/// The unsigned number whose `width` bytes stand for `value` in two's
/// complement: a negative value is counted down from the radix.
pub open spec fn unsigned_of(value: int, width: nat) -> nat {
    if value < 0 {
        (value + radix(width)) as nat
    } else {
        value as nat
    }
}

/// Whether `value` can be written as a two's-complement number of `width`
/// bytes.
pub open spec fn fits_signed(value: int, width: nat) -> bool {
    -(radix(width) as int) <= 2 * value < radix(width)
}

/// Spelling a number in `width` bytes and reading the bytes back gives the
/// number, when it is below the radix of the width.
pub proof fn lemma_le_bytes_round_trip(value: nat, width: nat)
    requires
        value < radix(width),
    ensures
        le_bytes(value, width).len() == width,
        le_unsigned(le_bytes(value, width)) == value,
    decreases width,
{
    if width > 0 {
        let rest = le_bytes(value / 256, (width - 1) as nat);
        let all = le_bytes(value, width);
        lemma_le_bytes_round_trip(value / 256, (width - 1) as nat);
        assert(all.drop_first() =~= rest);
    }
}

/// Writing a signed number in two's complement and extending the sign of
/// what was written gives the number back.
pub proof fn lemma_twos_complement_round_trip(value: int, width: nat)
    requires
        fits_signed(value, width),
    ensures
        unsigned_of(value, width) < radix(width),
        twos_complement(unsigned_of(value, width), width) == value,
{
    lemma_radix_monotonic(0, width);
}

/// Reads the `width` bytes at `offset` as an unsigned little-endian number.
pub fn read_unsigned(bytes: &[u8], offset: usize, width: usize) -> (value: u64)
    requires
        width <= 8,
        offset + width <= bytes@.len(),
    ensures
        value == le_field(bytes@, offset as int, width as int),
        value < radix(width as nat),
{
    let ghost field = bytes@.subrange(offset as int, offset + width);
    let mut value: u64 = 0;
    let mut i: usize = width;
    proof {
        lemma_radix_values();
        assert(bytes@.len() == bytes.len());
    }
    while i > 0
        invariant
            i <= width <= 8,
            offset + width <= bytes@.len() <= usize::MAX,
            field == bytes@.subrange(offset as int, offset + width),
            value == le_unsigned(field.subrange(i as int, width as int)),
            value < radix((width - i) as nat),
        decreases i,
    {
        proof {
            lemma_radix_values();
            lemma_radix_monotonic((width - i) as nat, 7);
            lemma_le_unsigned_step(field, i - 1, width as int);
        }
        i = i - 1;
        value = value * 256 + bytes[offset + i] as u64;
    }
    proof {
        assert(field.subrange(0, width as int) =~= field);
    }
    value
}

/// Reads the two bytes at `offset` as an unsigned little-endian number.
pub fn read_u16(bytes: &[u8], offset: usize) -> (value: u16)
    requires
        offset + 2 <= bytes@.len(),
    ensures
        value == le_field(bytes@, offset as int, 2),
{
    proof {
        lemma_radix_values();
    }
    read_unsigned(bytes, offset, 2) as u16
}

/// Reads the four bytes at `offset` as an unsigned little-endian number.
pub fn read_u32(bytes: &[u8], offset: usize) -> (value: u32)
    requires
        offset + 4 <= bytes@.len(),
    ensures
        value == le_field(bytes@, offset as int, 4),
{
    proof {
        lemma_radix_values();
    }
    read_unsigned(bytes, offset, 4) as u32
}

/// Reads the eight bytes at `offset` as an unsigned little-endian number.
pub fn read_u64(bytes: &[u8], offset: usize) -> (value: u64)
    requires
        offset + 8 <= bytes@.len(),
    ensures
        value == le_field(bytes@, offset as int, 8),
{
    read_unsigned(bytes, offset, 8)
}

fn modulus(width: usize) -> (modulus: u128)
    requires
        width <= 8,
    ensures
        modulus == radix(width as nat),
        modulus <= 0x1_0000_0000_0000_0000,
{
    let mut modulus: u128 = 1;
    let mut i: usize = 0;
    while i < width
        invariant
            i <= width <= 8,
            modulus == radix(i as nat),
        decreases width - i,
    {
        proof {
            lemma_radix_values();
            lemma_radix_monotonic(i as nat, 7);
        }
        modulus = modulus * 256;
        i = i + 1;
    }
    proof {
        lemma_radix_values();
        lemma_radix_monotonic(width as nat, 8);
    }
    modulus
}

/// Carries the sign bit of a `width`-byte two's-complement field up to the
/// full 64 bits. This is the one place where the crate extends a sign: the
/// size fields of the boot sector and the offsets of data runs both use it.
pub fn sign_extend(value: u64, width: usize) -> (extended: i64)
    requires
        width <= 8,
        value < radix(width as nat),
    ensures
        extended == twos_complement(value as nat, width as nat),
{
    let modulus = modulus(width);
    let wide: u128 = value as u128;
    if 2 * wide >= modulus {
        (wide as i128 - modulus as i128) as i64
    } else {
        value as i64
    }
}

/// The least number of bytes that can spell `value`: none for zero, and
/// otherwise one more than what is left takes once the lowest byte is off.
pub open spec fn least_width(value: nat) -> nat
    decreases value,
{
    if value == 0 {
        0
    } else {
        1 + least_width(value / 256)
    }
}

/// The least number of bytes, at least one, that can spell `value` in two's
/// complement.
pub open spec fn least_signed_width(value: int) -> nat
    decreases (if value < 0 {
        -value
    } else {
        value
    }),
{
    if -128 <= value < 128 {
        1
    } else {
        1 + least_signed_width(value / 256)
    }
}

/// A width that holds a value, while the width below it does not, is the
/// least width of the value.
pub proof fn lemma_least_width(value: nat, width: nat)
    requires
        value < radix(width),
        width > 0 ==> value >= radix((width - 1) as nat),
    ensures
        least_width(value) == width,
    decreases width,
{
    if width > 0 {
        lemma_radix_monotonic(0, (width - 1) as nat);
        lemma_least_width(value / 256, (width - 1) as nat);
    }
}

/// A width that holds a signed value, while the width below it does not,
/// is the least signed width of the value.
pub proof fn lemma_least_signed_width(value: int, width: nat)
    requires
        width >= 1,
        fits_signed(value, width),
        width > 1 ==> !fits_signed(value, (width - 1) as nat),
    ensures
        least_signed_width(value) == width,
    decreases width,
{
    lemma_radix_values();
    if width > 1 {
        let below = radix((width - 2) as nat);
        lemma_radix_monotonic(0, (width - 2) as nat);
        assert(radix((width - 1) as nat) == 256 * below);
        assert(radix(width) == 256 * (256 * below));
        lemma_least_signed_width(value / 256, (width - 1) as nat);
    }
}

/// The least number of bytes that can spell `value`.
pub fn unsigned_width(value: u64) -> (width: usize)
    ensures
        width <= 8,
        width == least_width(value as nat),
        value < radix(width as nat),
        width > 0 ==> value >= radix((width - 1) as nat),
{
    let mut width: usize = 0;
    let mut limit: u128 = 1;
    proof {
        lemma_radix_values();
    }
    while limit <= value as u128
        invariant
            width <= 8,
            limit == radix(width as nat),
            width > 0 ==> value >= radix((width - 1) as nat),
        decreases 8 - width,
    {
        proof {
            lemma_radix_values();
            assert(width < 8);
            lemma_radix_monotonic(width as nat, 7);
        }
        limit = limit * 256;
        width = width + 1;
    }
    proof {
        lemma_least_width(value as nat, width as nat);
    }
    width
}

/// The least number of bytes, at least one, that can spell `value` in two's
/// complement.
pub fn signed_width(value: i64) -> (width: usize)
    ensures
        1 <= width <= 8,
        width == least_signed_width(value as int),
        fits_signed(value as int, width as nat),
        width > 1 ==> !fits_signed(value as int, (width - 1) as nat),
{
    let mut width: usize = 1;
    let mut limit: i128 = 256;
    proof {
        lemma_radix_values();
    }
    while !(-limit <= 2 * (value as i128) && 2 * (value as i128) < limit)
        invariant
            1 <= width <= 8,
            limit == radix(width as nat),
            width > 1 ==> !fits_signed(value as int, (width - 1) as nat),
        decreases 8 - width,
    {
        proof {
            lemma_radix_values();
            assert(width < 8);
            lemma_radix_monotonic(width as nat, 7);
        }
        limit = limit * 256;
        width = width + 1;
    }
    proof {
        lemma_least_signed_width(value as int, width as nat);
    }
    width
}

/// Appends the `width` low bytes of `value`, least significant first.
pub fn write_unsigned(out: &mut Vec<u8>, value: u64, width: usize)
    requires
        width <= 8,
    ensures
        final(out)@ == old(out)@ + le_bytes(value as nat, width as nat),
{
    let mut rest: u64 = value;
    let mut i: usize = 0;
    proof {
        assert(out@ + le_bytes(rest as nat, width as nat) == old(out)@ + le_bytes(
            value as nat,
            width as nat,
        ));
    }
    while i < width
        invariant
            i <= width <= 8,
            out@ + le_bytes(rest as nat, (width - i) as nat) == old(out)@ + le_bytes(
                value as nat,
                width as nat,
            ),
        decreases width - i,
    {
        let ghost before = out@;
        let ghost tail = le_bytes(rest as nat / 256, (width - i - 1) as nat);
        let byte: u8 = (rest % 256) as u8;
        out.push(byte);
        proof {
            assert(le_bytes(rest as nat, (width - i) as nat) == seq![byte] + tail);
            assert(out@ + tail =~= before + (seq![byte] + tail));
        }
        rest = rest / 256;
        i = i + 1;
    }
    proof {
        assert(out@ + le_bytes(rest as nat, 0) =~= out@);
    }
}

/// Appends `value` as a two's-complement number of `width` bytes, least
/// significant byte first.
pub fn write_signed(out: &mut Vec<u8>, value: i64, width: usize)
    requires
        width <= 8,
        fits_signed(value as int, width as nat),
    ensures
        final(out)@ == old(out)@ + le_bytes(
            unsigned_of(value as int, width as nat),
            width as nat,
        ),
{
    let modulus = modulus(width);
    let raw: u64 = if value < 0 {
        (value as i128 + modulus as i128) as u64
    } else {
        value as u64
    };
    write_unsigned(out, raw, width);
}

} // verus!
