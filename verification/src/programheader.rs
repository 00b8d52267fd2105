use crate::encoding::{
    address_at, lemma_address_bounds, lemma_flip_swaps_stored, swap32, swap_address, u32_at, Endianness, WordSize,
};
use crate::error::LoadError;
use crate::header::Header;
use vstd::prelude::*;

verus! {

/// A program header in the layout of a 32-bit file, fields in file order.
#[derive(Clone, Copy, Debug, PartialEq, Eq)]
pub struct ProgramHeader32 {
    /// Kind of segment.
    pub p_type: u32,
    /// Offset of the segment's first byte in the file.
    pub p_offset: u64,
    /// Virtual address of the segment.
    pub p_vaddr: u64,
    /// Physical address of the segment, where that matters.
    pub p_paddr: u64,
    /// Number of bytes of the segment in the file.
    pub p_filesz: u64,
    /// Number of bytes of the segment in memory.
    pub p_memsz: u64,
    /// Permission bits: execute, write, read.
    pub p_flags: u32,
    /// Alignment of the segment.
    pub p_align: u64,
}

/// A program header in the layout of a 64-bit file, fields in file order.
#[derive(Clone, Copy, Debug, PartialEq, Eq)]
pub struct ProgramHeader64 {
    pub p_type: u32,
    pub p_flags: u32,
    pub p_offset: u64,
    pub p_vaddr: u64,
    pub p_paddr: u64,
    pub p_filesz: u64,
    pub p_memsz: u64,
    pub p_align: u64,
}

/// A program header of either layout. Both carry the same fields.
#[derive(Clone, Copy, Debug, PartialEq, Eq)]
pub enum ProgramHeader {
    ProgramHeader32(ProgramHeader32),
    ProgramHeader64(ProgramHeader64),
}

impl ProgramHeader {
    /// The all-zero program header of the layout that goes with `w`.
    pub open spec fn empty(w: WordSize) -> ProgramHeader {
        match w {
            WordSize::Bits32 => ProgramHeader::ProgramHeader32(
                ProgramHeader32 {
                    p_type: 0,
                    p_offset: 0,
                    p_vaddr: 0,
                    p_paddr: 0,
                    p_filesz: 0,
                    p_memsz: 0,
                    p_flags: 0,
                    p_align: 0,
                },
            ),
            WordSize::Bits64 => ProgramHeader::ProgramHeader64(
                ProgramHeader64 {
                    p_type: 0,
                    p_flags: 0,
                    p_offset: 0,
                    p_vaddr: 0,
                    p_paddr: 0,
                    p_filesz: 0,
                    p_memsz: 0,
                    p_align: 0,
                },
            ),
        }
    }

    /// The word size whose layout this header has.
    pub open spec fn word_size(self) -> WordSize {
        match self {
            ProgramHeader::ProgramHeader32(_) => WordSize::Bits32,
            ProgramHeader::ProgramHeader64(_) => WordSize::Bits64,
        }
    }

    /// The kind of segment, whichever the layout.
    pub open spec fn p_type(self) -> u32 {
        match self {
            ProgramHeader::ProgramHeader32(h) => h.p_type,
            ProgramHeader::ProgramHeader64(h) => h.p_type,
        }
    }

    /// The permission bits, whichever the layout.
    pub open spec fn p_flags(self) -> u32 {
        match self {
            ProgramHeader::ProgramHeader32(h) => h.p_flags,
            ProgramHeader::ProgramHeader64(h) => h.p_flags,
        }
    }

    /// The offset in the file, whichever the layout.
    pub open spec fn p_offset(self) -> u64 {
        match self {
            ProgramHeader::ProgramHeader32(h) => h.p_offset,
            ProgramHeader::ProgramHeader64(h) => h.p_offset,
        }
    }

    /// The virtual address, whichever the layout.
    pub open spec fn p_vaddr(self) -> u64 {
        match self {
            ProgramHeader::ProgramHeader32(h) => h.p_vaddr,
            ProgramHeader::ProgramHeader64(h) => h.p_vaddr,
        }
    }

    /// The physical address, whichever the layout.
    pub open spec fn p_paddr(self) -> u64 {
        match self {
            ProgramHeader::ProgramHeader32(h) => h.p_paddr,
            ProgramHeader::ProgramHeader64(h) => h.p_paddr,
        }
    }

    /// The size in the file, whichever the layout.
    pub open spec fn p_filesz(self) -> u64 {
        match self {
            ProgramHeader::ProgramHeader32(h) => h.p_filesz,
            ProgramHeader::ProgramHeader64(h) => h.p_filesz,
        }
    }

    /// The size in memory, whichever the layout.
    pub open spec fn p_memsz(self) -> u64 {
        match self {
            ProgramHeader::ProgramHeader32(h) => h.p_memsz,
            ProgramHeader::ProgramHeader64(h) => h.p_memsz,
        }
    }

    /// The alignment, whichever the layout.
    pub open spec fn p_align(self) -> u64 {
        match self {
            ProgramHeader::ProgramHeader32(h) => h.p_align,
            ProgramHeader::ProgramHeader64(h) => h.p_align,
        }
    }

    /// Number of bytes of one program header in the file.
    pub open spec fn size(w: WordSize) -> nat {
        8 + 6 * w.address_width()
    }

    /// The program header laid out at `pos`. A 32-bit file holds the flags
    /// after the two sizes, a 64-bit file right after the type.
    pub open spec fn layout(bytes: Seq<u8>, pos: int, w: WordSize, e: Endianness) -> ProgramHeader {
        match w {
            WordSize::Bits32 => ProgramHeader::ProgramHeader32(
                ProgramHeader32 {
                    p_type: u32_at(bytes, pos, e) as u32,
                    p_offset: address_at(bytes, pos + 4, w, e) as u64,
                    p_vaddr: address_at(bytes, pos + 8, w, e) as u64,
                    p_paddr: address_at(bytes, pos + 12, w, e) as u64,
                    p_filesz: address_at(bytes, pos + 16, w, e) as u64,
                    p_memsz: address_at(bytes, pos + 20, w, e) as u64,
                    p_flags: u32_at(bytes, pos + 24, e) as u32,
                    p_align: address_at(bytes, pos + 28, w, e) as u64,
                },
            ),
            WordSize::Bits64 => ProgramHeader::ProgramHeader64(
                ProgramHeader64 {
                    p_type: u32_at(bytes, pos, e) as u32,
                    p_flags: u32_at(bytes, pos + 4, e) as u32,
                    p_offset: address_at(bytes, pos + 8, w, e) as u64,
                    p_vaddr: address_at(bytes, pos + 16, w, e) as u64,
                    p_paddr: address_at(bytes, pos + 24, w, e) as u64,
                    p_filesz: address_at(bytes, pos + 32, w, e) as u64,
                    p_memsz: address_at(bytes, pos + 40, w, e) as u64,
                    p_align: address_at(bytes, pos + 48, w, e) as u64,
                },
            ),
        }
    }

    /// The table of `count` program headers that starts at `offset`, in file
    /// order.
    pub open spec fn table(
        bytes: Seq<u8>,
        offset: int,
        count: nat,
        w: WordSize,
        e: Endianness,
    ) -> Seq<ProgramHeader> {
        Seq::new(
            count,
            |i: int| ProgramHeader::layout(bytes, offset + i * ProgramHeader::size(w), w, e),
        )
    }

    /// What decoding the program header table that `header` announces gives:
    /// `e_phnum` records from `e_phoff` on, whatever `e_phentsize` says. An
    /// empty table is decoded from any buffer.
    pub open spec fn decode_table(bytes: Seq<u8>, header: Header) -> Result<
        Seq<ProgramHeader>,
        LoadError,
    > {
        let offset = header.e_phoff as int;
        let count = header.e_phnum as nat;
        if count == 0 {
            Ok(Seq::empty())
        } else {
            match (WordSize::of(header.e_ident.Class), Endianness::of(header.e_ident.Data)) {
                (None, _) => Err(LoadError::UnsupportedWordSize),
                (Some(_), None) => Err(LoadError::UnsupportedEndianness),
                (Some(w), Some(e)) => if offset + count * ProgramHeader::size(w) <= bytes.len() {
                    Ok(ProgramHeader::table(bytes, offset, count, w, e))
                } else {
                    Err(LoadError::EndOfInput)
                },
            }
        }
    }

    /// Where decoding that table leaves the cursor: behind the table if it
    /// was decoded; at its start if the class or the selector is not
    /// recognised; else behind the last byte that was there to consume.
    pub open spec fn table_stop(bytes: Seq<u8>, header: Header) -> int {
        let offset = header.e_phoff as int;
        match (ProgramHeader::decode_table(bytes, header), WordSize::of(header.e_ident.Class)) {
            (Ok(table), Some(w)) => offset + table.len() * ProgramHeader::size(w),
            (Err(LoadError::EndOfInput), _) => if offset < bytes.len() {
                bytes.len() as int
            } else {
                offset
            },
            _ => offset,
        }
    }

    /// Every address-sized field is one that a file of this header's
    /// layout can hold.
    pub open spec fn fits(self) -> bool {
        self is ProgramHeader32 ==> {
            &&& self.p_offset() <= u32::MAX
            &&& self.p_vaddr() <= u32::MAX
            &&& self.p_paddr() <= u32::MAX
            &&& self.p_filesz() <= u32::MAX
            &&& self.p_memsz() <= u32::MAX
            &&& self.p_align() <= u32::MAX
        }
    }

    /// This header with the bytes of each field in reverse order.
    pub open spec fn swapped(self) -> ProgramHeader {
        let w = self.word_size();
        match self {
            ProgramHeader::ProgramHeader32(h) => ProgramHeader::ProgramHeader32(
                ProgramHeader32 {
                    p_type: swap32(h.p_type as nat) as u32,
                    p_offset: swap_address(h.p_offset as nat, w) as u64,
                    p_vaddr: swap_address(h.p_vaddr as nat, w) as u64,
                    p_paddr: swap_address(h.p_paddr as nat, w) as u64,
                    p_filesz: swap_address(h.p_filesz as nat, w) as u64,
                    p_memsz: swap_address(h.p_memsz as nat, w) as u64,
                    p_flags: swap32(h.p_flags as nat) as u32,
                    p_align: swap_address(h.p_align as nat, w) as u64,
                },
            ),
            ProgramHeader::ProgramHeader64(h) => ProgramHeader::ProgramHeader64(
                ProgramHeader64 {
                    p_type: swap32(h.p_type as nat) as u32,
                    p_flags: swap32(h.p_flags as nat) as u32,
                    p_offset: swap_address(h.p_offset as nat, w) as u64,
                    p_vaddr: swap_address(h.p_vaddr as nat, w) as u64,
                    p_paddr: swap_address(h.p_paddr as nat, w) as u64,
                    p_filesz: swap_address(h.p_filesz as nat, w) as u64,
                    p_memsz: swap_address(h.p_memsz as nat, w) as u64,
                    p_align: swap_address(h.p_align as nat, w) as u64,
                },
            ),
        }
    }

    /// An all-zero program header of the layout that goes with `w`.
    pub fn new(w: WordSize) -> (r: Self)
        ensures
            r == ProgramHeader::empty(w),
    {
        match w {
            WordSize::Bits32 => Self::ProgramHeader32(
                ProgramHeader32 {
                    p_type: 0,
                    p_offset: 0,
                    p_vaddr: 0,
                    p_paddr: 0,
                    p_filesz: 0,
                    p_memsz: 0,
                    p_flags: 0,
                    p_align: 0,
                },
            ),
            WordSize::Bits64 => Self::ProgramHeader64(
                ProgramHeader64 {
                    p_type: 0,
                    p_flags: 0,
                    p_offset: 0,
                    p_vaddr: 0,
                    p_paddr: 0,
                    p_filesz: 0,
                    p_memsz: 0,
                    p_align: 0,
                },
            ),
        }
    }

    /// Sets the kind of segment; every other field stays.
    pub fn setTYPE(&mut self, val: u32)
        ensures
            *final(self) == match *old(self) {
                ProgramHeader::ProgramHeader32(h) => ProgramHeader::ProgramHeader32(
                    (ProgramHeader32 { p_type: val, ..h }),
                ),
                ProgramHeader::ProgramHeader64(h) => ProgramHeader::ProgramHeader64(
                    (ProgramHeader64 { p_type: val, ..h }),
                ),
            },
    {
        match self {
            ProgramHeader::ProgramHeader32(h) => h.p_type = val,
            ProgramHeader::ProgramHeader64(h) => h.p_type = val,
        }
    }

    /// Sets the permission bits; every other field stays.
    pub fn setFLAGS(&mut self, val: u32)
        ensures
            *final(self) == match *old(self) {
                ProgramHeader::ProgramHeader32(h) => ProgramHeader::ProgramHeader32(
                    (ProgramHeader32 { p_flags: val, ..h }),
                ),
                ProgramHeader::ProgramHeader64(h) => ProgramHeader::ProgramHeader64(
                    (ProgramHeader64 { p_flags: val, ..h }),
                ),
            },
    {
        match self {
            ProgramHeader::ProgramHeader32(h) => h.p_flags = val,
            ProgramHeader::ProgramHeader64(h) => h.p_flags = val,
        }
    }

    /// Sets the offset in the file; every other field stays.
    pub fn setOFFSET(&mut self, val: u64)
        ensures
            *final(self) == match *old(self) {
                ProgramHeader::ProgramHeader32(h) => ProgramHeader::ProgramHeader32(
                    (ProgramHeader32 { p_offset: val, ..h }),
                ),
                ProgramHeader::ProgramHeader64(h) => ProgramHeader::ProgramHeader64(
                    (ProgramHeader64 { p_offset: val, ..h }),
                ),
            },
    {
        match self {
            ProgramHeader::ProgramHeader32(h) => h.p_offset = val,
            ProgramHeader::ProgramHeader64(h) => h.p_offset = val,
        }
    }

    /// Sets the virtual address; every other field stays.
    pub fn setVADDR(&mut self, val: u64)
        ensures
            *final(self) == match *old(self) {
                ProgramHeader::ProgramHeader32(h) => ProgramHeader::ProgramHeader32(
                    (ProgramHeader32 { p_vaddr: val, ..h }),
                ),
                ProgramHeader::ProgramHeader64(h) => ProgramHeader::ProgramHeader64(
                    (ProgramHeader64 { p_vaddr: val, ..h }),
                ),
            },
    {
        match self {
            ProgramHeader::ProgramHeader32(h) => h.p_vaddr = val,
            ProgramHeader::ProgramHeader64(h) => h.p_vaddr = val,
        }
    }

    /// Sets the physical address; every other field stays.
    pub fn setPADDR(&mut self, val: u64)
        ensures
            *final(self) == match *old(self) {
                ProgramHeader::ProgramHeader32(h) => ProgramHeader::ProgramHeader32(
                    (ProgramHeader32 { p_paddr: val, ..h }),
                ),
                ProgramHeader::ProgramHeader64(h) => ProgramHeader::ProgramHeader64(
                    (ProgramHeader64 { p_paddr: val, ..h }),
                ),
            },
    {
        match self {
            ProgramHeader::ProgramHeader32(h) => h.p_paddr = val,
            ProgramHeader::ProgramHeader64(h) => h.p_paddr = val,
        }
    }

    /// Sets the size in the file; every other field stays.
    pub fn setFILESZ(&mut self, val: u64)
        ensures
            *final(self) == match *old(self) {
                ProgramHeader::ProgramHeader32(h) => ProgramHeader::ProgramHeader32(
                    (ProgramHeader32 { p_filesz: val, ..h }),
                ),
                ProgramHeader::ProgramHeader64(h) => ProgramHeader::ProgramHeader64(
                    (ProgramHeader64 { p_filesz: val, ..h }),
                ),
            },
    {
        match self {
            ProgramHeader::ProgramHeader32(h) => h.p_filesz = val,
            ProgramHeader::ProgramHeader64(h) => h.p_filesz = val,
        }
    }

    /// Sets the size in memory; every other field stays.
    pub fn setMEMSZ(&mut self, val: u64)
        ensures
            *final(self) == match *old(self) {
                ProgramHeader::ProgramHeader32(h) => ProgramHeader::ProgramHeader32(
                    (ProgramHeader32 { p_memsz: val, ..h }),
                ),
                ProgramHeader::ProgramHeader64(h) => ProgramHeader::ProgramHeader64(
                    (ProgramHeader64 { p_memsz: val, ..h }),
                ),
            },
    {
        match self {
            ProgramHeader::ProgramHeader32(h) => h.p_memsz = val,
            ProgramHeader::ProgramHeader64(h) => h.p_memsz = val,
        }
    }

    /// Sets the alignment; every other field stays.
    pub fn setALIGN(&mut self, val: u64)
        ensures
            *final(self) == match *old(self) {
                ProgramHeader::ProgramHeader32(h) => ProgramHeader::ProgramHeader32(
                    (ProgramHeader32 { p_align: val, ..h }),
                ),
                ProgramHeader::ProgramHeader64(h) => ProgramHeader::ProgramHeader64(
                    (ProgramHeader64 { p_align: val, ..h }),
                ),
            },
    {
        match self {
            ProgramHeader::ProgramHeader32(h) => h.p_align = val,
            ProgramHeader::ProgramHeader64(h) => h.p_align = val,
        }
    }

    /// The kind of segment.
    pub fn getTYPE(&self) -> (r: u32)
        ensures
            r == self.p_type(),
    {
        match self {
            ProgramHeader::ProgramHeader32(h) => h.p_type,
            ProgramHeader::ProgramHeader64(h) => h.p_type,
        }
    }

    /// The permission bits.
    pub fn getFLAGS(&self) -> (r: u32)
        ensures
            r == self.p_flags(),
    {
        match self {
            ProgramHeader::ProgramHeader32(h) => h.p_flags,
            ProgramHeader::ProgramHeader64(h) => h.p_flags,
        }
    }

    /// The offset in the file.
    pub fn getOFFSET(&self) -> (r: u64)
        ensures
            r == self.p_offset(),
    {
        match self {
            ProgramHeader::ProgramHeader32(h) => h.p_offset,
            ProgramHeader::ProgramHeader64(h) => h.p_offset,
        }
    }

    /// The virtual address.
    pub fn getVADDR(&self) -> (r: u64)
        ensures
            r == self.p_vaddr(),
    {
        match self {
            ProgramHeader::ProgramHeader32(h) => h.p_vaddr,
            ProgramHeader::ProgramHeader64(h) => h.p_vaddr,
        }
    }

    /// The physical address.
    pub fn getPADDR(&self) -> (r: u64)
        ensures
            r == self.p_paddr(),
    {
        match self {
            ProgramHeader::ProgramHeader32(h) => h.p_paddr,
            ProgramHeader::ProgramHeader64(h) => h.p_paddr,
        }
    }

    /// The size in the file.
    pub fn getFILESZ(&self) -> (r: u64)
        ensures
            r == self.p_filesz(),
    {
        match self {
            ProgramHeader::ProgramHeader32(h) => h.p_filesz,
            ProgramHeader::ProgramHeader64(h) => h.p_filesz,
        }
    }

    /// The size in memory.
    pub fn getMEMSZ(&self) -> (r: u64)
        ensures
            r == self.p_memsz(),
    {
        match self {
            ProgramHeader::ProgramHeader32(h) => h.p_memsz,
            ProgramHeader::ProgramHeader64(h) => h.p_memsz,
        }
    }

    /// The alignment.
    pub fn getALIGN(&self) -> (r: u64)
        ensures
            r == self.p_align(),
    {
        match self {
            ProgramHeader::ProgramHeader32(h) => h.p_align,
            ProgramHeader::ProgramHeader64(h) => h.p_align,
        }
    }
}

/// A program header decoded from a file has the layout of that file's word
/// size, and holds no address that the layout has no room for.
pub proof fn lemma_program_header_fits(bytes: Seq<u8>, pos: int, w: WordSize, e: Endianness)
    ensures
        ProgramHeader::layout(bytes, pos, w, e).word_size() == w,
        ProgramHeader::layout(bytes, pos, w, e).fits(),
{
    lemma_address_bounds(bytes, pos + 4, w, e);
    lemma_address_bounds(bytes, pos + 8, w, e);
    lemma_address_bounds(bytes, pos + 12, w, e);
    lemma_address_bounds(bytes, pos + 16, w, e);
    lemma_address_bounds(bytes, pos + 20, w, e);
    lemma_address_bounds(bytes, pos + 28, w, e);
}

/// Read in the other byte order, a program header has every field
/// byte-swapped.
pub proof fn lemma_flip_swaps_program_header(bytes: Seq<u8>, pos: int, w: WordSize, e: Endianness)
    ensures
        ProgramHeader::layout(bytes, pos, w, e.flipped()) == ProgramHeader::layout(
            bytes,
            pos,
            w,
            e,
        ).swapped(),
{
    let a = w.address_width() as int;
    lemma_flip_swaps_stored(bytes, pos, w, e);
    lemma_flip_swaps_stored(bytes, pos + 4, w, e);
    lemma_flip_swaps_stored(bytes, pos + 8, w, e);
    lemma_flip_swaps_stored(bytes, pos + 4 + a, w, e);
    lemma_flip_swaps_stored(bytes, pos + 8 + a, w, e);
    lemma_flip_swaps_stored(bytes, pos + 4 + 2 * a, w, e);
    lemma_flip_swaps_stored(bytes, pos + 8 + 2 * a, w, e);
    lemma_flip_swaps_stored(bytes, pos + 4 + 3 * a, w, e);
    lemma_flip_swaps_stored(bytes, pos + 8 + 3 * a, w, e);
    lemma_flip_swaps_stored(bytes, pos + 4 + 4 * a, w, e);
    lemma_flip_swaps_stored(bytes, pos + 8 + 4 * a, w, e);
    lemma_flip_swaps_stored(bytes, pos + 4 + 5 * a, w, e);
    lemma_flip_swaps_stored(bytes, pos + 8 + 5 * a, w, e);
}

/// A program header table that reaches past the end of the buffer is not
/// decoded in part: the decode fails with `EndOfInput`.
pub proof fn lemma_short_program_table(bytes: Seq<u8>, header: Header, w: WordSize, e: Endianness)
    requires
        WordSize::of(header.e_ident.Class) == Some(w),
        Endianness::of(header.e_ident.Data) == Some(e),
        header.e_phnum > 0,
        bytes.len() < header.e_phoff + header.e_phnum * ProgramHeader::size(w),
    ensures
        ProgramHeader::decode_table(bytes, header) == Err::<Seq<ProgramHeader>, LoadError>(
            LoadError::EndOfInput,
        ),
{
}

} // verus!
