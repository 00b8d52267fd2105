use crate::error::LoadError;
use vstd::prelude::*;

verus! {

/// Selector byte of a little-endian file.
pub const DATA_LITTLE: u8 = 1;

/// Selector byte of a big-endian file.
pub const DATA_BIG: u8 = 2;

/// Class byte of a file with 4-byte addresses.
pub const CLASS_32: u8 = 1;

/// Class byte of a file with 8-byte addresses.
pub const CLASS_64: u8 = 2;

/// Byte order of the multi-byte fields of a file.
#[derive(Clone, Copy, Debug, PartialEq, Eq, Structural)]
pub enum Endianness {
    Little,
    Big,
}

/// Width of the address-sized fields of a file.
#[derive(Clone, Copy, Debug, PartialEq, Eq, Structural)]
pub enum WordSize {
    Bits32,
    Bits64,
}

impl Endianness {
    /// The byte order that a selector byte stands for, if any.
    pub open spec fn of(selector: u8) -> Option<Endianness> {
        if selector == DATA_LITTLE {
            Some(Endianness::Little)
        } else if selector == DATA_BIG {
            Some(Endianness::Big)
        } else {
            None
        }
    }

    /// The other byte order.
    pub open spec fn flipped(self) -> Endianness {
        match self {
            Endianness::Little => Endianness::Big,
            Endianness::Big => Endianness::Little,
        }
    }

    /// The selector byte that stands for this byte order.
    pub open spec fn selector(self) -> u8 {
        match self {
            Endianness::Little => DATA_LITTLE,
            Endianness::Big => DATA_BIG,
        }
    }

    /// The byte order that `selector` stands for.
    pub fn from_selector(selector: u8) -> (r: Result<Endianness, LoadError>)
        ensures
            r == match Endianness::of(selector) {
                Some(e) => Ok::<Endianness, LoadError>(e),
                None => Err(LoadError::UnsupportedEndianness),
            },
    {
        if selector == DATA_LITTLE {
            Ok(Endianness::Little)
        } else if selector == DATA_BIG {
            Ok(Endianness::Big)
        } else {
            Err(LoadError::UnsupportedEndianness)
        }
    }
}

impl WordSize {
    /// The word size that a class byte stands for, if any.
    pub open spec fn of(class: u8) -> Option<WordSize> {
        if class == CLASS_32 {
            Some(WordSize::Bits32)
        } else if class == CLASS_64 {
            Some(WordSize::Bits64)
        } else {
            None
        }
    }

    /// Number of bytes of an address-sized field.
    pub open spec fn address_width(self) -> nat {
        match self {
            WordSize::Bits32 => 4,
            WordSize::Bits64 => 8,
        }
    }

    /// The word size that `class` stands for.
    pub fn from_class(class: u8) -> (r: Result<WordSize, LoadError>)
        ensures
            r == match WordSize::of(class) {
                Some(w) => Ok::<WordSize, LoadError>(w),
                None => Err(LoadError::UnsupportedWordSize),
            },
    {
        if class == CLASS_32 {
            Ok(WordSize::Bits32)
        } else if class == CLASS_64 {
            Ok(WordSize::Bits64)
        } else {
            Err(LoadError::UnsupportedWordSize)
        }
    }
}

/// Value of two adjacent parts of a field, `first` at the lower address.
/// `radix` is the number of values that one part can take. Little-endian
/// puts the first part in the low-order position, big-endian in the
/// high-order position.
///
/// Opaque, so that a proof that only moves field values about does not pay
/// for their arithmetic: `reveal(join)`, or one of the lemmas below, brings
/// it in.
#[verifier::opaque]
pub open spec fn join(e: Endianness, first: nat, second: nat, radix: nat) -> nat {
    match e {
        Endianness::Little => first + radix * second,
        Endianness::Big => radix * first + second,
    }
}

/// Value of the 2-byte field that starts at `pos`.
pub open spec fn u16_at(bytes: Seq<u8>, pos: int, e: Endianness) -> nat {
    join(e, bytes[pos] as nat, bytes[pos + 1] as nat, 0x100)
}

/// Value of the 4-byte field that starts at `pos`: two 2-byte halves, joined
/// in the same order as the bytes of each half.
pub open spec fn u32_at(bytes: Seq<u8>, pos: int, e: Endianness) -> nat {
    join(e, u16_at(bytes, pos, e), u16_at(bytes, pos + 2, e), 0x1_0000)
}

/// Value of the 8-byte field that starts at `pos`: two 4-byte halves.
pub open spec fn u64_at(bytes: Seq<u8>, pos: int, e: Endianness) -> nat {
    join(e, u32_at(bytes, pos, e), u32_at(bytes, pos + 4, e), 0x1_0000_0000)
}

/// Value of the address-sized field that starts at `pos`.
pub open spec fn address_at(bytes: Seq<u8>, pos: int, w: WordSize, e: Endianness) -> nat {
    match w {
        WordSize::Bits32 => u32_at(bytes, pos, e),
        WordSize::Bits64 => u64_at(bytes, pos, e),
    }
}

/// Joins two bytes into a 16-bit value, `first` being the one at the lower
/// address.
pub fn join_u16(e: Endianness, first: u8, second: u8) -> (r: u16)
    ensures
        r == join(e, first as nat, second as nat, 0x100),
{
    reveal(join);
    match e {
        Endianness::Little => {
            let r = (first as u16) | ((second as u16) << 8);
            assert(r == first + 0x100 * second) by (bit_vector)
                requires
                    r == (first as u16) | ((second as u16) << 8),
            ;
            r
        },
        Endianness::Big => {
            let r = ((first as u16) << 8) | (second as u16);
            assert(r == 0x100 * first + second) by (bit_vector)
                requires
                    r == ((first as u16) << 8) | (second as u16),
            ;
            r
        },
    }
}

/// Joins two 16-bit halves into a 32-bit value.
pub fn join_u32(e: Endianness, first: u16, second: u16) -> (r: u32)
    ensures
        r == join(e, first as nat, second as nat, 0x1_0000),
{
    reveal(join);
    match e {
        Endianness::Little => {
            let r = (first as u32) | ((second as u32) << 16);
            assert(r == first + 0x1_0000 * second) by (bit_vector)
                requires
                    r == (first as u32) | ((second as u32) << 16),
            ;
            r
        },
        Endianness::Big => {
            let r = ((first as u32) << 16) | (second as u32);
            assert(r == 0x1_0000 * first + second) by (bit_vector)
                requires
                    r == ((first as u32) << 16) | (second as u32),
            ;
            r
        },
    }
}

/// Joins two 32-bit halves into a 64-bit value.
pub fn join_u64(e: Endianness, first: u32, second: u32) -> (r: u64)
    ensures
        r == join(e, first as nat, second as nat, 0x1_0000_0000),
{
    reveal(join);
    match e {
        Endianness::Little => {
            let r = (first as u64) | ((second as u64) << 32);
            assert(r == first + 0x1_0000_0000 * second) by (bit_vector)
                requires
                    r == (first as u64) | ((second as u64) << 32),
            ;
            r
        },
        Endianness::Big => {
            let r = ((first as u64) << 32) | (second as u64);
            assert(r == 0x1_0000_0000 * first + second) by (bit_vector)
                requires
                    r == ((first as u64) << 32) | (second as u64),
            ;
            r
        },
    }
}

/// Every field value fits the unsigned integer of its width.
pub proof fn lemma_field_bounds(bytes: Seq<u8>, pos: int, e: Endianness)
    ensures
        u16_at(bytes, pos, e) <= u16::MAX,
        u32_at(bytes, pos, e) <= u32::MAX,
        u64_at(bytes, pos, e) <= u64::MAX,
{
    reveal(join);
}

/// An address-sized value fits 64 bits; that of a 32-bit file fits 32 bits.
pub proof fn lemma_address_bounds(bytes: Seq<u8>, pos: int, w: WordSize, e: Endianness)
    ensures
        address_at(bytes, pos, w, e) <= u64::MAX,
        w == WordSize::Bits32 ==> address_at(bytes, pos, w, e) <= u32::MAX,
{
    lemma_field_bounds(bytes, pos, e);
}

/// The value of a 2-byte field with its two bytes in the other order.
pub open spec fn swap16(v: nat) -> nat {
    (v % 0x100) * 0x100 + v / 0x100
}

/// The value of a 4-byte field with its four bytes in reverse order: the
/// two halves change places, and each is swapped in itself.
pub open spec fn swap32(v: nat) -> nat {
    swap16(v % 0x1_0000) * 0x1_0000 + swap16(v / 0x1_0000)
}

/// The value of an 8-byte field with its eight bytes in reverse order.
pub open spec fn swap64(v: nat) -> nat {
    swap32(v % 0x1_0000_0000) * 0x1_0000_0000 + swap32(v / 0x1_0000_0000)
}

/// The value of an address-sized field with its bytes in reverse order.
pub open spec fn swap_address(v: nat, w: WordSize) -> nat {
    match w {
        WordSize::Bits32 => swap32(v),
        WordSize::Bits64 => swap64(v),
    }
}

/// Two bytes `b0`, `b1` read little-endian give `b0 | (b1 << 8)`, read
/// big-endian `(b0 << 8) | b1`.
pub proof fn lemma_u16_from_bytes(bytes: Seq<u8>, pos: int)
    ensures
        u16_at(bytes, pos, Endianness::Little) == (bytes[pos] as u16) | ((bytes[pos + 1] as u16)
            << 8),
        u16_at(bytes, pos, Endianness::Big) == ((bytes[pos] as u16) << 8) | (bytes[pos + 1]
            as u16),
{
    reveal(join);
    let b0 = bytes[pos];
    let b1 = bytes[pos + 1];
    assert(b0 + 0x100 * b1 == (b0 as u16) | ((b1 as u16) << 8)) by (bit_vector);
    assert(0x100 * b0 + b1 == ((b0 as u16) << 8) | (b1 as u16)) by (bit_vector);
}

/// Four bytes are two 2-byte halves `h0`, `h1`, each read in the byte order
/// of the whole: little-endian gives `h0 | (h1 << 16)`, big-endian
/// `(h0 << 16) | h1`.
pub proof fn lemma_u32_from_halves(bytes: Seq<u8>, pos: int)
    ensures
        u32_at(bytes, pos, Endianness::Little) == (u16_at(bytes, pos, Endianness::Little) as u32)
            | ((u16_at(bytes, pos + 2, Endianness::Little) as u32) << 16),
        u32_at(bytes, pos, Endianness::Big) == ((u16_at(bytes, pos, Endianness::Big) as u32)
            << 16) | (u16_at(bytes, pos + 2, Endianness::Big) as u32),
{
    lemma_field_bounds(bytes, pos, Endianness::Little);
    lemma_field_bounds(bytes, pos + 2, Endianness::Little);
    lemma_field_bounds(bytes, pos, Endianness::Big);
    lemma_field_bounds(bytes, pos + 2, Endianness::Big);
    reveal(join);
    let l0 = u16_at(bytes, pos, Endianness::Little) as u16;
    let l1 = u16_at(bytes, pos + 2, Endianness::Little) as u16;
    let h0 = u16_at(bytes, pos, Endianness::Big) as u16;
    let h1 = u16_at(bytes, pos + 2, Endianness::Big) as u16;
    assert(l0 + 0x1_0000 * l1 == (l0 as u32) | ((l1 as u32) << 16)) by (bit_vector);
    assert(0x1_0000 * h0 + h1 == ((h0 as u32) << 16) | (h1 as u32)) by (bit_vector);
}

/// Eight bytes are two 4-byte halves `h0`, `h1`, each read in the byte
/// order of the whole: little-endian gives `h0 | (h1 << 32)`, big-endian
/// `(h0 << 32) | h1`.
pub proof fn lemma_u64_from_halves(bytes: Seq<u8>, pos: int)
    ensures
        u64_at(bytes, pos, Endianness::Little) == (u32_at(bytes, pos, Endianness::Little) as u64)
            | ((u32_at(bytes, pos + 4, Endianness::Little) as u64) << 32),
        u64_at(bytes, pos, Endianness::Big) == ((u32_at(bytes, pos, Endianness::Big) as u64)
            << 32) | (u32_at(bytes, pos + 4, Endianness::Big) as u64),
{
    lemma_field_bounds(bytes, pos, Endianness::Little);
    lemma_field_bounds(bytes, pos + 4, Endianness::Little);
    lemma_field_bounds(bytes, pos, Endianness::Big);
    lemma_field_bounds(bytes, pos + 4, Endianness::Big);
    reveal(join);
    let l0 = u32_at(bytes, pos, Endianness::Little) as u32;
    let l1 = u32_at(bytes, pos + 4, Endianness::Little) as u32;
    let h0 = u32_at(bytes, pos, Endianness::Big) as u32;
    let h1 = u32_at(bytes, pos + 4, Endianness::Big) as u32;
    assert(l0 + 0x1_0000_0000 * l1 == (l0 as u64) | ((l1 as u64) << 32)) by (bit_vector);
    assert(0x1_0000_0000 * h0 + h1 == ((h0 as u64) << 32) | (h1 as u64)) by (bit_vector);
}

/// Each byte of a field weighs 256 times its neighbour: the first byte
/// weighs least in little-endian order and most in big-endian order.
pub proof fn lemma_positional_values(bytes: Seq<u8>, pos: int)
    ensures
        u16_at(bytes, pos, Endianness::Little) == bytes[pos] + 0x100 * bytes[pos + 1],
        u16_at(bytes, pos, Endianness::Big) == 0x100 * bytes[pos] + bytes[pos + 1],
        u32_at(bytes, pos, Endianness::Little) == bytes[pos] + 0x100 * bytes[pos + 1] + 0x1_0000
            * bytes[pos + 2] + 0x100_0000 * bytes[pos + 3],
        u32_at(bytes, pos, Endianness::Big) == 0x100_0000 * bytes[pos] + 0x1_0000 * bytes[pos + 1]
            + 0x100 * bytes[pos + 2] + bytes[pos + 3],
        u64_at(bytes, pos, Endianness::Little) == u32_at(bytes, pos, Endianness::Little)
            + 0x1_0000_0000 * u32_at(bytes, pos + 4, Endianness::Little),
        u64_at(bytes, pos, Endianness::Big) == 0x1_0000_0000 * u32_at(
            bytes,
            pos,
            Endianness::Big,
        ) + u32_at(bytes, pos + 4, Endianness::Big),
{
    reveal(join);
}

/// Read in the other byte order, a field gives the byte-swapped value.
pub proof fn lemma_flip_swaps(bytes: Seq<u8>, pos: int, e: Endianness)
    ensures
        u16_at(bytes, pos, e.flipped()) == swap16(u16_at(bytes, pos, e)),
        u32_at(bytes, pos, e.flipped()) == swap32(u32_at(bytes, pos, e)),
        u64_at(bytes, pos, e.flipped()) == swap64(u64_at(bytes, pos, e)),
{
    reveal(join);
    lemma_flip_swaps_u16(bytes, pos, e);
    lemma_flip_swaps_u16(bytes, pos + 2, e);
    lemma_flip_swaps_u16(bytes, pos + 4, e);
    lemma_flip_swaps_u16(bytes, pos + 6, e);
    lemma_field_bounds(bytes, pos, e);
    lemma_field_bounds(bytes, pos + 2, e);
    lemma_field_bounds(bytes, pos + 4, e);
    lemma_field_bounds(bytes, pos + 6, e);
    let a = u16_at(bytes, pos, e);
    let b = u16_at(bytes, pos + 2, e);
    let c = u16_at(bytes, pos + 4, e);
    let d = u16_at(bytes, pos + 6, e);
    lemma_split(a, b, 0x1_0000);
    lemma_split(b, a, 0x1_0000);
    lemma_split(c, d, 0x1_0000);
    lemma_split(d, c, 0x1_0000);
    let lo = u32_at(bytes, pos, e);
    let hi = u32_at(bytes, pos + 4, e);
    assert(u32_at(bytes, pos, e.flipped()) == swap32(lo));
    assert(u32_at(bytes, pos + 4, e.flipped()) == swap32(hi));
    lemma_split(lo, hi, 0x1_0000_0000);
    lemma_split(hi, lo, 0x1_0000_0000);
}

/// Read in the other byte order, an address-sized field gives the
/// byte-swapped value.
pub proof fn lemma_flip_swaps_address(bytes: Seq<u8>, pos: int, w: WordSize, e: Endianness)
    ensures
        address_at(bytes, pos, w, e.flipped()) == swap_address(address_at(bytes, pos, w, e), w),
{
    lemma_flip_swaps(bytes, pos, e);
}

/// The same of values held in unsigned integers: the 2-byte, 4-byte and
/// address-sized fields at `pos`, read in the other byte order, are the
/// byte-swapped fields.
pub proof fn lemma_flip_swaps_stored(bytes: Seq<u8>, pos: int, w: WordSize, e: Endianness)
    ensures
        u16_at(bytes, pos, e.flipped()) as u16 == swap16((u16_at(bytes, pos, e) as u16) as nat)
            as u16,
        u32_at(bytes, pos, e.flipped()) as u32 == swap32((u32_at(bytes, pos, e) as u32) as nat)
            as u32,
        address_at(bytes, pos, w, e.flipped()) as u64 == swap_address(
            (address_at(bytes, pos, w, e) as u64) as nat,
            w,
        ) as u64,
{
    lemma_flip_swaps(bytes, pos, e);
    lemma_flip_swaps_address(bytes, pos, w, e);
    lemma_field_bounds(bytes, pos, e);
    lemma_address_bounds(bytes, pos, w, e);
}

proof fn lemma_flip_swaps_u16(bytes: Seq<u8>, pos: int, e: Endianness)
    ensures
        u16_at(bytes, pos, e.flipped()) == swap16(u16_at(bytes, pos, e)),
{
    reveal(join);
    lemma_split(bytes[pos] as nat, bytes[pos + 1] as nat, 0x100);
    lemma_split(bytes[pos + 1] as nat, bytes[pos] as nat, 0x100);
}

/// A low part below `radix` and a high part come apart again by remainder
/// and quotient.
proof fn lemma_split(low: nat, high: nat, radix: nat)
    requires
        low < radix,
    ensures
        (low + radix * high) % radix == low,
        (low + radix * high) / radix == high,
        (radix * high + low) % radix == low,
        (radix * high + low) / radix == high,
{
    assert(low + radix * high == high * radix + low) by (nonlinear_arith);
    vstd::arithmetic::div_mod::lemma_fundamental_div_mod_converse(
        (low + radix * high) as int,
        radix as int,
        high as int,
        low as int,
    );
}

} // verus!
