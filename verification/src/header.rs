use crate::encoding::{
    address_at, lemma_address_bounds, lemma_flip_swaps_stored, swap16, swap32, swap_address,
    u16_at, u32_at, Endianness, WordSize,
};
use crate::error::LoadError;
use vstd::prelude::*;

verus! {

/// The identification block: the first 16 bytes of a file.
#[derive(Clone, Copy, Debug, PartialEq, Eq)]
pub struct E_IDENT {
    /// Signature of the format, `7f 45 4c 46` in a well-formed file.
    pub Magic: u32,
    /// Word-size class: 1 for 32-bit, 2 for 64-bit.
    pub Class: u8,
    /// Endianness selector: 1 for little, 2 for big.
    pub Data: u8,
    /// Version of the identification block.
    pub Version: u8,
    /// Operating system or ABI that the file targets.
    pub OS_ABI: u8,
    /// Version of that ABI.
    pub ABI_Version: u8,
    /// Reserved bytes; never decoded.
    pub Padding: [u8; 7],
}

/// The file header.
#[derive(Clone, Copy, Debug, PartialEq, Eq)]
pub struct Header {
    pub e_ident: E_IDENT,
    /// Kind of object file.
    pub e_type: u16,
    /// Target architecture.
    pub e_machine: u16,
    /// Format version.
    pub e_version: u32,
    /// Virtual address of the entry point, 0 if there is none.
    pub e_entry: u64,
    /// Offset of the program header table in the file.
    pub e_phoff: u64,
    /// Offset of the section header table in the file.
    pub e_shoff: u64,
    /// Processor-specific flags.
    pub e_flags: u32,
    /// Size of the file header in bytes, as the file declares it.
    pub e_ehsize: u16,
    /// Size of one program header, as the file declares it.
    pub e_phentsize: u16,
    /// Number of program headers.
    pub e_phnum: u16,
    /// Size of one section header, as the file declares it.
    pub e_shentsize: u16,
    /// Number of section headers.
    pub e_shnum: u16,
    /// Index of the section header of the section-name string table.
    pub e_shstrndx: u16,
}

/// Number of bytes of the identification block.
pub const IDENT_SIZE: u64 = 16;

/// Number of bytes of the identification block that are decoded; the rest is
/// padding.
pub const IDENT_DECODED: u64 = 9;

impl E_IDENT {
    /// Seven zero bytes.
    pub open spec fn zero_padding() -> [u8; 7] {
        vstd::array::spec_array_fill_for_copy_type::<u8, 7>(0u8)
    }

    /// The identification block before any decode: all zero. A zero selector
    /// names no byte order, so multi-byte reads have none to go by until a
    /// header is decoded or a selector is set.
    pub open spec fn empty() -> E_IDENT {
        E_IDENT {
            Magic: 0,
            Class: 0,
            Data: 0,
            Version: 0,
            OS_ABI: 0,
            ABI_Version: 0,
            Padding: E_IDENT::zero_padding(),
        }
    }

    /// The identification block that `bytes` starts with. The magic number is
    /// the big-endian value of its four bytes, whatever the selector says.
    /// The reserved bytes of the file are skipped: the padding here is zero,
    /// and a decode keeps the padding that it finds in the header it fills
    /// (see `Header::with_padding`).
    pub open spec fn at_start(bytes: Seq<u8>) -> E_IDENT {
        E_IDENT {
            Magic: u32_at(bytes, 0, Endianness::Big) as u32,
            Class: bytes[4],
            Data: bytes[5],
            Version: bytes[6],
            OS_ABI: bytes[7],
            ABI_Version: bytes[8],
            Padding: E_IDENT::zero_padding(),
        }
    }

    /// An identification block with nothing decoded into it.
    pub fn new() -> (r: Self)
        ensures
            r == E_IDENT::empty(),
    {
        Self {
            Magic: 0,
            Class: 0,
            Data: 0,
            Version: 0,
            OS_ABI: 0,
            ABI_Version: 0,
            Padding: [0u8; 7],
        }
    }

    /// Sets every decoded field; the padding stays as it is.
    pub fn fill(
        &mut self,
        Magic: u32,
        Class: u8,
        Data: u8,
        Version: u8,
        OS_ABI: u8,
        ABI_Version: u8,
    )
        ensures
            *final(self) == (E_IDENT {
                Magic,
                Class,
                Data,
                Version,
                OS_ABI,
                ABI_Version,
                Padding: old(self).Padding,
            }),
    {
        self.Magic = Magic;
        self.Class = Class;
        self.Data = Data;
        self.Version = Version;
        self.OS_ABI = OS_ABI;
        self.ABI_Version = ABI_Version;
    }
}

impl Header {
    /// The header before any decode.
    pub open spec fn empty() -> Header {
        Header {
            e_ident: E_IDENT::empty(),
            e_type: 0,
            e_machine: 0,
            e_version: 0,
            e_entry: 0,
            e_phoff: 0,
            e_shoff: 0,
            e_flags: 0,
            e_ehsize: 0,
            e_phentsize: 0,
            e_phnum: 0,
            e_shentsize: 0,
            e_shnum: 0,
            e_shstrndx: 0,
        }
    }

    /// Number of bytes of a file header, identification block included.
    pub open spec fn size(w: WordSize) -> nat {
        40 + 3 * w.address_width()
    }

    /// The header laid out at the start of `bytes`, read with word size `w`
    /// and byte order `e`.
    pub open spec fn layout(bytes: Seq<u8>, w: WordSize, e: Endianness) -> Header {
        let a = w.address_width() as int;
        Header {
            e_ident: E_IDENT::at_start(bytes),
            e_type: u16_at(bytes, 16, e) as u16,
            e_machine: u16_at(bytes, 18, e) as u16,
            e_version: u32_at(bytes, 20, e) as u32,
            e_entry: address_at(bytes, 24, w, e) as u64,
            e_phoff: address_at(bytes, 24 + a, w, e) as u64,
            e_shoff: address_at(bytes, 24 + 2 * a, w, e) as u64,
            e_flags: u32_at(bytes, 24 + 3 * a, e) as u32,
            e_ehsize: u16_at(bytes, 28 + 3 * a, e) as u16,
            e_phentsize: u16_at(bytes, 30 + 3 * a, e) as u16,
            e_phnum: u16_at(bytes, 32 + 3 * a, e) as u16,
            e_shentsize: u16_at(bytes, 34 + 3 * a, e) as u16,
            e_shnum: u16_at(bytes, 36 + 3 * a, e) as u16,
            e_shstrndx: u16_at(bytes, 38 + 3 * a, e) as u16,
        }
    }

    /// What decoding the file header of `bytes` gives, into a header whose
    /// padding is zero. The class byte and the selector byte of the
    /// identification block decide how the rest is read.
    pub open spec fn decode(bytes: Seq<u8>) -> Result<Header, LoadError> {
        if bytes.len() < IDENT_DECODED {
            Err(LoadError::TruncatedHeader)
        } else {
            match (WordSize::of(bytes[4]), Endianness::of(bytes[5])) {
                (None, _) => Err(LoadError::UnsupportedWordSize),
                (Some(_), None) => Err(LoadError::UnsupportedEndianness),
                (Some(w), Some(e)) => if bytes.len() < Header::size(w) {
                    Err(LoadError::TruncatedHeader)
                } else {
                    Ok(Header::layout(bytes, w, e))
                },
            }
        }
    }

    /// This header with `padding` as the reserved bytes of its
    /// identification block, and every other field as it is.
    pub open spec fn with_padding(self, padding: [u8; 7]) -> Header {
        Header { e_ident: (E_IDENT { Padding: padding, ..self.e_ident }), ..self }
    }

    /// Every address-sized field is one that a file of word size `w` can
    /// hold.
    pub open spec fn fits(self, w: WordSize) -> bool {
        w == WordSize::Bits32 ==> {
            &&& self.e_entry <= u32::MAX
            &&& self.e_phoff <= u32::MAX
            &&& self.e_shoff <= u32::MAX
        }
    }

    /// This header with the bytes of each field behind the identification
    /// block in reverse order. `w` is the width of the address-sized fields.
    pub open spec fn swapped(self, w: WordSize) -> Header {
        Header {
            e_ident: self.e_ident,
            e_type: swap16(self.e_type as nat) as u16,
            e_machine: swap16(self.e_machine as nat) as u16,
            e_version: swap32(self.e_version as nat) as u32,
            e_entry: swap_address(self.e_entry as nat, w) as u64,
            e_phoff: swap_address(self.e_phoff as nat, w) as u64,
            e_shoff: swap_address(self.e_shoff as nat, w) as u64,
            e_flags: swap32(self.e_flags as nat) as u32,
            e_ehsize: swap16(self.e_ehsize as nat) as u16,
            e_phentsize: swap16(self.e_phentsize as nat) as u16,
            e_phnum: swap16(self.e_phnum as nat) as u16,
            e_shentsize: swap16(self.e_shentsize as nat) as u16,
            e_shnum: swap16(self.e_shnum as nat) as u16,
            e_shstrndx: swap16(self.e_shstrndx as nat) as u16,
        }
    }

    /// Where a failed decode of the file header leaves the cursor: behind
    /// the last byte that was consumed, or behind the identification block
    /// where that block was decoded and no byte after it was consumed.
    pub open spec fn decode_stop(bytes: Seq<u8>) -> int {
        if bytes.len() < IDENT_DECODED || IDENT_SIZE <= bytes.len() && Header::decode(bytes)
            == Err::<Header, LoadError>(LoadError::TruncatedHeader) {
            bytes.len() as int
        } else {
            IDENT_SIZE as int
        }
    }

    /// A header with nothing decoded into it.
    pub fn new() -> (r: Self)
        ensures
            r == Header::empty(),
    {
        Self {
            e_ident: E_IDENT::new(),
            e_type: 0,
            e_machine: 0,
            e_version: 0,
            e_entry: 0,
            e_phoff: 0,
            e_shoff: 0,
            e_flags: 0,
            e_ehsize: 0,
            e_phentsize: 0,
            e_phnum: 0,
            e_shentsize: 0,
            e_shnum: 0,
            e_shstrndx: 0,
        }
    }
}

/// A header decoded from a 32-bit file holds no address above 32 bits.
pub proof fn lemma_header_fits(bytes: Seq<u8>, w: WordSize, e: Endianness)
    ensures
        Header::layout(bytes, w, e).fits(w),
{
    let a = w.address_width() as int;
    lemma_address_bounds(bytes, 24, w, e);
    lemma_address_bounds(bytes, 24 + a, w, e);
    lemma_address_bounds(bytes, 24 + 2 * a, w, e);
}

/// With the selector byte changed to the other byte order and every other
/// byte as it was, the header still decodes; each of its multi-byte fields
/// behind the identification block comes out byte-swapped, and the magic
/// number and the single-byte fields, but for the selector, stay.
pub proof fn lemma_selector_flip_swaps_header(
    bytes: Seq<u8>,
    header: Header,
    w: WordSize,
    e: Endianness,
)
    requires
        Header::decode(bytes) == Ok::<Header, LoadError>(header),
        WordSize::of(bytes[4]) == Some(w),
        Endianness::of(bytes[5]) == Some(e),
    ensures
        Header::decode(bytes.update(5, e.flipped().selector())) == Ok::<Header, LoadError>(
            (Header {
                e_ident: (E_IDENT { Data: e.flipped().selector(), ..header.e_ident }),
                ..header.swapped(w)
            }),
        ),
{
    let other = bytes.update(5, e.flipped().selector());
    let a = w.address_width() as int;
    assert(Header::decode(other) == Ok::<Header, LoadError>(
        Header::layout(other, w, e.flipped()),
    ));
    lemma_field_moved(bytes, other, 0, 4, Endianness::Big);
    lemma_swapped_field(bytes, other, 16, 2, w, e);
    lemma_swapped_field(bytes, other, 18, 2, w, e);
    lemma_swapped_field(bytes, other, 20, 4, w, e);
    lemma_swapped_field(bytes, other, 24, a, w, e);
    lemma_swapped_field(bytes, other, 24 + a, a, w, e);
    lemma_swapped_field(bytes, other, 24 + 2 * a, a, w, e);
    lemma_swapped_field(bytes, other, 24 + 3 * a, 4, w, e);
    lemma_swapped_field(bytes, other, 28 + 3 * a, 2, w, e);
    lemma_swapped_field(bytes, other, 30 + 3 * a, 2, w, e);
    lemma_swapped_field(bytes, other, 32 + 3 * a, 2, w, e);
    lemma_swapped_field(bytes, other, 34 + 3 * a, 2, w, e);
    lemma_swapped_field(bytes, other, 36 + 3 * a, 2, w, e);
    lemma_swapped_field(bytes, other, 38 + 3 * a, 2, w, e);
}

/// A field of `width` bytes reads the same from two buffers that agree on
/// those bytes.
proof fn lemma_field_moved(bytes: Seq<u8>, other: Seq<u8>, pos: int, width: int, e: Endianness)
    requires
        forall|i: int| pos <= i < pos + width ==> other[i] == bytes[i],
    ensures
        width >= 2 ==> u16_at(other, pos, e) == u16_at(bytes, pos, e),
        width >= 4 ==> u32_at(other, pos, e) == u32_at(bytes, pos, e),
        width >= 4 ==> address_at(other, pos, WordSize::Bits32, e) == address_at(
            bytes,
            pos,
            WordSize::Bits32,
            e,
        ),
        width >= 8 ==> address_at(other, pos, WordSize::Bits64, e) == address_at(
            bytes,
            pos,
            WordSize::Bits64,
            e,
        ),
{
}

/// A field of `width` bytes behind the identification block, read from the
/// buffer with the flipped selector, is the byte-swapped field of the buffer
/// as it was.
proof fn lemma_swapped_field(
    bytes: Seq<u8>,
    other: Seq<u8>,
    pos: int,
    width: int,
    w: WordSize,
    e: Endianness,
)
    requires
        16 <= pos,
        pos + width <= bytes.len(),
        other == bytes.update(5, e.flipped().selector()),
    ensures
        width >= 2 ==> u16_at(other, pos, e.flipped()) as u16 == swap16(
            (u16_at(bytes, pos, e) as u16) as nat,
        ) as u16,
        width >= 4 ==> u32_at(other, pos, e.flipped()) as u32 == swap32(
            (u32_at(bytes, pos, e) as u32) as nat,
        ) as u32,
        width >= w.address_width() ==> address_at(other, pos, w, e.flipped()) as u64
            == swap_address((address_at(bytes, pos, w, e) as u64) as nat, w) as u64,
{
    lemma_field_moved(bytes, other, pos, width, e.flipped());
    lemma_flip_swaps_stored(bytes, pos, w, e);
}

} // verus!
