use crate::encoding::{
    address_at, lemma_address_bounds, lemma_flip_swaps_stored, swap32, swap_address, u32_at, Endianness, WordSize,
};
use crate::error::LoadError;
use crate::header::Header;
use vstd::prelude::*;

verus! {

/// A section header, fields in file order.
#[derive(Clone, Copy, Debug, PartialEq, Eq)]
pub struct SectionHeader {
    /// Offset of the section's name in the section-name string table.
    pub sh_name: u32,
    /// Kind of section.
    pub sh_type: u32,
    /// Attribute bits.
    pub sh_flags: u64,
    /// Address of the section's first byte in memory.
    pub sh_addr: u64,
    /// Offset of the section's first byte in the file.
    pub sh_offset: u64,
    /// Number of bytes of the section.
    pub sh_size: u64,
    /// Index of a related section header.
    pub sh_link: u32,
    /// Extra information, by kind of section.
    pub sh_info: u32,
    /// Alignment of the section.
    pub sh_addralign: u64,
    /// Size of one entry, where the section holds a table of entries.
    pub sh_entsize: u64,
}

impl SectionHeader {
    /// The all-zero section header.
    pub open spec fn empty() -> SectionHeader {
        SectionHeader {
            sh_name: 0,
            sh_type: 0,
            sh_flags: 0,
            sh_addr: 0,
            sh_offset: 0,
            sh_size: 0,
            sh_link: 0,
            sh_info: 0,
            sh_addralign: 0,
            sh_entsize: 0,
        }
    }

    /// Number of bytes of one section header in the file.
    pub open spec fn size(w: WordSize) -> nat {
        16 + 6 * w.address_width()
    }

    /// The section header laid out at `pos`.
    pub open spec fn layout(bytes: Seq<u8>, pos: int, w: WordSize, e: Endianness) -> SectionHeader {
        let a = w.address_width() as int;
        SectionHeader {
            sh_name: u32_at(bytes, pos, e) as u32,
            sh_type: u32_at(bytes, pos + 4, e) as u32,
            sh_flags: address_at(bytes, pos + 8, w, e) as u64,
            sh_addr: address_at(bytes, pos + 8 + a, w, e) as u64,
            sh_offset: address_at(bytes, pos + 8 + 2 * a, w, e) as u64,
            sh_size: address_at(bytes, pos + 8 + 3 * a, w, e) as u64,
            sh_link: u32_at(bytes, pos + 8 + 4 * a, e) as u32,
            sh_info: u32_at(bytes, pos + 12 + 4 * a, e) as u32,
            sh_addralign: address_at(bytes, pos + 16 + 4 * a, w, e) as u64,
            sh_entsize: address_at(bytes, pos + 16 + 5 * a, w, e) as u64,
        }
    }

    /// The table of `count` section headers that starts at `offset`, in file
    /// order.
    pub open spec fn table(
        bytes: Seq<u8>,
        offset: int,
        count: nat,
        w: WordSize,
        e: Endianness,
    ) -> Seq<SectionHeader> {
        Seq::new(
            count,
            |i: int| SectionHeader::layout(bytes, offset + i * SectionHeader::size(w), w, e),
        )
    }

    /// What decoding the section header table that `header` announces gives:
    /// `e_shnum` records from `e_shoff` on, whatever `e_shentsize` says. An
    /// empty table is decoded from any buffer.
    pub open spec fn decode_table(bytes: Seq<u8>, header: Header) -> Result<
        Seq<SectionHeader>,
        LoadError,
    > {
        let offset = header.e_shoff as int;
        let count = header.e_shnum as nat;
        if count == 0 {
            Ok(Seq::empty())
        } else {
            match (WordSize::of(header.e_ident.Class), Endianness::of(header.e_ident.Data)) {
                (None, _) => Err(LoadError::UnsupportedWordSize),
                (Some(_), None) => Err(LoadError::UnsupportedEndianness),
                (Some(w), Some(e)) => if offset + count * SectionHeader::size(w) <= bytes.len() {
                    Ok(SectionHeader::table(bytes, offset, count, w, e))
                } else {
                    Err(LoadError::EndOfInput)
                },
            }
        }
    }

    /// Where decoding that table leaves the cursor: behind the table if it
    /// was decoded; at its start if the class or the selector is not
    /// recognised; else behind the last byte that was there to consume.
    pub open spec fn table_stop(bytes: Seq<u8>, header: Header) -> int {
        let offset = header.e_shoff as int;
        match (SectionHeader::decode_table(bytes, header), WordSize::of(header.e_ident.Class)) {
            (Ok(table), Some(w)) => offset + table.len() * SectionHeader::size(w),
            (Err(LoadError::EndOfInput), _) => if offset < bytes.len() {
                bytes.len() as int
            } else {
                offset
            },
            _ => offset,
        }
    }

    /// Every address-sized field is one that a file of word size `w` can
    /// hold.
    pub open spec fn fits(self, w: WordSize) -> bool {
        w == WordSize::Bits32 ==> {
            &&& self.sh_flags <= u32::MAX
            &&& self.sh_addr <= u32::MAX
            &&& self.sh_offset <= u32::MAX
            &&& self.sh_size <= u32::MAX
            &&& self.sh_addralign <= u32::MAX
            &&& self.sh_entsize <= u32::MAX
        }
    }

    /// This header with the bytes of each field in reverse order. `w` is the
    /// width of the address-sized fields.
    pub open spec fn swapped(self, w: WordSize) -> SectionHeader {
        SectionHeader {
            sh_name: swap32(self.sh_name as nat) as u32,
            sh_type: swap32(self.sh_type as nat) as u32,
            sh_flags: swap_address(self.sh_flags as nat, w) as u64,
            sh_addr: swap_address(self.sh_addr as nat, w) as u64,
            sh_offset: swap_address(self.sh_offset as nat, w) as u64,
            sh_size: swap_address(self.sh_size as nat, w) as u64,
            sh_link: swap32(self.sh_link as nat) as u32,
            sh_info: swap32(self.sh_info as nat) as u32,
            sh_addralign: swap_address(self.sh_addralign as nat, w) as u64,
            sh_entsize: swap_address(self.sh_entsize as nat, w) as u64,
        }
    }

    /// An all-zero section header.
    pub fn new() -> (r: Self)
        ensures
            r == SectionHeader::empty(),
    {
        Self {
            sh_name: 0,
            sh_type: 0,
            sh_flags: 0,
            sh_addr: 0,
            sh_offset: 0,
            sh_size: 0,
            sh_link: 0,
            sh_info: 0,
            sh_addralign: 0,
            sh_entsize: 0,
        }
    }
}

/// A section header decoded from a 32-bit file holds no address above 32
/// bits.
pub proof fn lemma_section_header_fits(bytes: Seq<u8>, pos: int, w: WordSize, e: Endianness)
    ensures
        SectionHeader::layout(bytes, pos, w, e).fits(w),
{
    let a = w.address_width() as int;
    lemma_address_bounds(bytes, pos + 8, w, e);
    lemma_address_bounds(bytes, pos + 8 + a, w, e);
    lemma_address_bounds(bytes, pos + 8 + 2 * a, w, e);
    lemma_address_bounds(bytes, pos + 8 + 3 * a, w, e);
    lemma_address_bounds(bytes, pos + 16 + 4 * a, w, e);
    lemma_address_bounds(bytes, pos + 16 + 5 * a, w, e);
}

/// Read in the other byte order, a section header has every field
/// byte-swapped.
pub proof fn lemma_flip_swaps_section_header(bytes: Seq<u8>, pos: int, w: WordSize, e: Endianness)
    ensures
        SectionHeader::layout(bytes, pos, w, e.flipped()) == SectionHeader::layout(
            bytes,
            pos,
            w,
            e,
        ).swapped(w),
{
    let a = w.address_width() as int;
    lemma_flip_swaps_stored(bytes, pos, w, e);
    lemma_flip_swaps_stored(bytes, pos + 4, w, e);
    lemma_flip_swaps_stored(bytes, pos + 8, w, e);
    lemma_flip_swaps_stored(bytes, pos + 8 + a, w, e);
    lemma_flip_swaps_stored(bytes, pos + 8 + 2 * a, w, e);
    lemma_flip_swaps_stored(bytes, pos + 8 + 3 * a, w, e);
    lemma_flip_swaps_stored(bytes, pos + 8 + 4 * a, w, e);
    lemma_flip_swaps_stored(bytes, pos + 12 + 4 * a, w, e);
    lemma_flip_swaps_stored(bytes, pos + 16 + 4 * a, w, e);
    lemma_flip_swaps_stored(bytes, pos + 16 + 5 * a, w, e);
}

/// A section header table that reaches past the end of the buffer is not
/// decoded in part: the decode fails with `EndOfInput`.
pub proof fn lemma_short_section_table(bytes: Seq<u8>, header: Header, w: WordSize, e: Endianness)
    requires
        WordSize::of(header.e_ident.Class) == Some(w),
        Endianness::of(header.e_ident.Data) == Some(e),
        header.e_shnum > 0,
        bytes.len() < header.e_shoff + header.e_shnum * SectionHeader::size(w),
    ensures
        SectionHeader::decode_table(bytes, header) == Err::<Seq<SectionHeader>, LoadError>(
            LoadError::EndOfInput,
        ),
{
}

} // verus!
