use crate::encoding::{
    address_at, join_u16, join_u32, join_u64, lemma_field_bounds, u16_at, u32_at, u64_at,
    Endianness, WordSize,
};
use crate::error::LoadError;
use crate::header::{Header, E_IDENT, IDENT_DECODED, IDENT_SIZE};
use crate::programheader::ProgramHeader;
use crate::sectionheader::SectionHeader;
use vstd::prelude::*;

verus! {

/// The structures of a file: its header and its two tables, in file order.
pub struct Decoded {
    pub header: Header,
    pub program_headers: Seq<ProgramHeader>,
    pub section_headers: Seq<SectionHeader>,
}

/// A byte buffer, a cursor into it, and what has been decoded from it so far.
#[derive(Debug)]
pub struct Loader {
    /// The bytes of the file.
    pub fileVec: Vec<u8>,
    /// Position of the next byte to read.
    pub fileIndex: u64,
    /// The file header. Its class and selector bytes govern every read.
    pub header: Header,
    /// The program headers, in file order.
    pub programHeaders: Vec<ProgramHeader>,
    /// The section headers, in file order.
    pub sectionHeaders: Vec<SectionHeader>,
}

impl Loader {
    /// The bytes of the file.
    pub open spec fn bytes(&self) -> Seq<u8> {
        self.fileVec@
    }

    /// The byte order that reads go by, if the selector byte names one.
    pub open spec fn endianness(&self) -> Option<Endianness> {
        Endianness::of(self.header.e_ident.Data)
    }

    /// The word size that reads go by, if the class byte names one.
    pub open spec fn word_size(&self) -> Option<WordSize> {
        WordSize::of(self.header.e_ident.Class)
    }

    /// The buffer holds `width` bytes from the cursor on.
    pub open spec fn holds(&self, width: nat) -> bool {
        self.fileIndex + width <= self.fileVec@.len()
    }

    /// Where a read of `width` bytes leaves the cursor: behind the field if
    /// the buffer holds all of it, else behind the last byte that was there
    /// to consume.
    pub open spec fn cursor_after(&self, width: nat) -> int {
        if self.holds(width) {
            self.fileIndex + width
        } else if self.fileIndex < self.fileVec@.len() {
            self.fileVec@.len() as int
        } else {
            self.fileIndex as int
        }
    }

    /// `self` is `before` with the cursor at `position`.
    pub open spec fn moved(&self, before: &Loader, position: int) -> bool {
        &&& self.fileVec == before.fileVec
        &&& self.header == before.header
        &&& self.programHeaders == before.programHeaders
        &&& self.sectionHeaders == before.sectionHeaders
        &&& self.fileIndex == position
    }

    /// What a full decode of `bytes` gives: the file header, then the program
    /// header table and the section header table that it announces. The
    /// first step that fails decides the error.
    pub open spec fn decode(bytes: Seq<u8>) -> Result<Decoded, LoadError> {
        match Header::decode(bytes) {
            Err(error) => Err(error),
            Ok(header) => match ProgramHeader::decode_table(bytes, header) {
                Err(error) => Err(error),
                Ok(program_headers) => match SectionHeader::decode_table(bytes, header) {
                    Err(error) => Err(error),
                    Ok(section_headers) => Ok(Decoded { header, program_headers, section_headers }),
                },
            },
        }
    }

    /// This loader holds the full decode of its own buffer. The padding of
    /// its identification block is not part of that: no decode reads or
    /// writes it.
    pub open spec fn decoded(&self) -> bool {
        Loader::decode(self.bytes()) == Ok::<Decoded, LoadError>(
            Decoded {
                header: self.header.with_padding(E_IDENT::zero_padding()),
                program_headers: self.programHeaders@,
                section_headers: self.sectionHeaders@,
            },
        )
    }

    /// Where a full decode of `bytes` leaves the cursor: where its last step
    /// left it.
    pub open spec fn decode_stop(bytes: Seq<u8>) -> int {
        match Header::decode(bytes) {
            Err(_) => Header::decode_stop(bytes),
            Ok(header) => match ProgramHeader::decode_table(bytes, header) {
                Err(_) => ProgramHeader::table_stop(bytes, header),
                Ok(_) => SectionHeader::table_stop(bytes, header),
            },
        }
    }

    /// A loader over `bytes`, with the cursor at the start and nothing
    /// decoded. Its header is all zero, so it names neither a word size nor
    /// a byte order yet.
    pub fn new(bytes: Vec<u8>) -> (r: Self)
        ensures
            r.fileVec == bytes,
            r.fileIndex == 0,
            r.header == Header::empty(),
            r.programHeaders@ == Seq::<ProgramHeader>::empty(),
            r.sectionHeaders@ == Seq::<SectionHeader>::empty(),
    {
        Self {
            fileVec: bytes,
            fileIndex: 0,
            header: Header::new(),
            programHeaders: Vec::new(),
            sectionHeaders: Vec::new(),
        }
    }

    /// Reads the byte at the cursor and steps over it.
    pub fn readUByte(&mut self) -> (r: Result<u8, LoadError>)
        ensures
            final(self).moved(old(self), old(self).cursor_after(1)),
            r == if old(self).holds(1) {
                Ok::<u8, LoadError>(old(self).bytes()[old(self).fileIndex as int])
            } else {
                Err(LoadError::EndOfInput)
            },
    {
        if self.fileIndex < self.fileVec.len() as u64 {
            let byte = self.fileVec[self.fileIndex as usize];
            self.fileIndex += 1;
            Ok(byte)
        } else {
            Err(LoadError::EndOfInput)
        }
    }

    /// Reads two bytes as one value, in the byte order of the file.
    pub fn readUShort(&mut self) -> (r: Result<u16, LoadError>)
        ensures
            match old(self).endianness() {
                None => {
                    &&& final(self).moved(old(self), old(self).fileIndex as int)
                    &&& r == Err::<u16, LoadError>(LoadError::UnsupportedEndianness)
                },
                Some(e) => {
                    &&& final(self).moved(old(self), old(self).cursor_after(2))
                    &&& r == if old(self).holds(2) {
                        Ok::<u16, LoadError>(
                            u16_at(old(self).bytes(), old(self).fileIndex as int, e) as u16,
                        )
                    } else {
                        Err(LoadError::EndOfInput)
                    }
                },
            },
    {
        let e = Endianness::from_selector(self.header.e_ident.Data)?;
        let first = self.readUByte()?;
        let second = self.readUByte()?;
        Ok(join_u16(e, first, second))
    }

    /// Reads four bytes as one value: two 2-byte reads, joined in the byte
    /// order of the file.
    pub fn readUInt(&mut self) -> (r: Result<u32, LoadError>)
        ensures
            match old(self).endianness() {
                None => {
                    &&& final(self).moved(old(self), old(self).fileIndex as int)
                    &&& r == Err::<u32, LoadError>(LoadError::UnsupportedEndianness)
                },
                Some(e) => {
                    &&& final(self).moved(old(self), old(self).cursor_after(4))
                    &&& r == if old(self).holds(4) {
                        Ok::<u32, LoadError>(
                            u32_at(old(self).bytes(), old(self).fileIndex as int, e) as u32,
                        )
                    } else {
                        Err(LoadError::EndOfInput)
                    }
                },
            },
    {
        let e = Endianness::from_selector(self.header.e_ident.Data)?;
        let first = self.readUShort()?;
        let second = self.readUShort()?;
        proof {
            lemma_field_bounds(self.bytes(), old(self).fileIndex as int, e);
            lemma_field_bounds(self.bytes(), old(self).fileIndex + 2, e);
        }
        Ok(join_u32(e, first, second))
    }

    /// Reads eight bytes as one value: two 4-byte reads, joined in the byte
    /// order of the file.
    pub fn readULong(&mut self) -> (r: Result<u64, LoadError>)
        ensures
            match old(self).endianness() {
                None => {
                    &&& final(self).moved(old(self), old(self).fileIndex as int)
                    &&& r == Err::<u64, LoadError>(LoadError::UnsupportedEndianness)
                },
                Some(e) => {
                    &&& final(self).moved(old(self), old(self).cursor_after(8))
                    &&& r == if old(self).holds(8) {
                        Ok::<u64, LoadError>(
                            u64_at(old(self).bytes(), old(self).fileIndex as int, e) as u64,
                        )
                    } else {
                        Err(LoadError::EndOfInput)
                    }
                },
            },
    {
        let e = Endianness::from_selector(self.header.e_ident.Data)?;
        let first = self.readUInt()?;
        let second = self.readUInt()?;
        proof {
            lemma_field_bounds(self.bytes(), old(self).fileIndex as int, e);
            lemma_field_bounds(self.bytes(), old(self).fileIndex + 4, e);
        }
        Ok(join_u64(e, first, second))
    }

    /// Reads one address-sized value: four bytes in a 32-bit file, eight in a
    /// 64-bit file.
    pub fn readUSize(&mut self) -> (r: Result<u64, LoadError>)
        ensures
            match (old(self).word_size(), old(self).endianness()) {
                (None, _) => {
                    &&& final(self).moved(old(self), old(self).fileIndex as int)
                    &&& r == Err::<u64, LoadError>(LoadError::UnsupportedWordSize)
                },
                (Some(_), None) => {
                    &&& final(self).moved(old(self), old(self).fileIndex as int)
                    &&& r == Err::<u64, LoadError>(LoadError::UnsupportedEndianness)
                },
                (Some(w), Some(e)) => {
                    &&& final(self).moved(old(self), old(self).cursor_after(w.address_width()))
                    &&& r == if old(self).holds(w.address_width()) {
                        Ok::<u64, LoadError>(
                            address_at(old(self).bytes(), old(self).fileIndex as int, w, e) as u64,
                        )
                    } else {
                        Err(LoadError::EndOfInput)
                    }
                },
            },
    {
        match WordSize::from_class(self.header.e_ident.Class)? {
            WordSize::Bits32 => {
                let value = self.readUInt()?;
                proof {
                    lemma_field_bounds(
                        self.bytes(),
                        old(self).fileIndex as int,
                        Endianness::of(self.header.e_ident.Data)->0,
                    );
                }
                Ok(value as u64)
            },
            WordSize::Bits64 => self.readULong(),
        }
    }

    /// Decodes the identification block at the start of the buffer and puts
    /// the cursor behind its padding. The padding in `self.header` stays as
    /// it is.
    fn loadE_IDENT(&mut self) -> (r: Result<(), LoadError>)
        requires
            old(self).fileIndex == 0,
        ensures
            final(self).fileVec == old(self).fileVec,
            final(self).programHeaders == old(self).programHeaders,
            final(self).sectionHeaders == old(self).sectionHeaders,
            if old(self).bytes().len() >= IDENT_DECODED {
                &&& r is Ok
                &&& final(self).fileIndex == IDENT_SIZE
                &&& final(self).header == (Header {
                    e_ident: (E_IDENT {
                        Padding: old(self).header.e_ident.Padding,
                        ..E_IDENT::at_start(old(self).bytes())
                    }),
                    ..old(self).header
                })
            } else {
                &&& r == Err::<(), LoadError>(LoadError::EndOfInput)
                &&& final(self).fileIndex == old(self).bytes().len()
            },
    {
        let b0 = self.readUByte()?;
        let b1 = self.readUByte()?;
        let b2 = self.readUByte()?;
        let b3 = self.readUByte()?;
        let magic = join_u32(
            Endianness::Big,
            join_u16(Endianness::Big, b0, b1),
            join_u16(Endianness::Big, b2, b3),
        );
        let class = self.readUByte()?;
        let data = self.readUByte()?;
        let version = self.readUByte()?;
        let os_abi = self.readUByte()?;
        let abi_version = self.readUByte()?;
        self.header.e_ident.fill(magic, class, data, version, os_abi, abi_version);
        self.fileIndex = IDENT_SIZE;
        Ok(())
    }

    /// Decodes the file header into `self.header`, field by field. A short
    /// read comes out as `EndOfInput`.
    fn fill_header(&mut self) -> (r: Result<(), LoadError>)
        ensures
            final(self).fileVec == old(self).fileVec,
            final(self).programHeaders == old(self).programHeaders,
            final(self).sectionHeaders == old(self).sectionHeaders,
            match Header::decode(old(self).bytes()) {
                Ok(h) => {
                    &&& r is Ok
                    &&& final(self).header == h.with_padding(old(self).header.e_ident.Padding)
                    &&& final(self).word_size() matches Some(w)
                    &&& final(self).fileIndex == Header::size(w)
                },
                Err(error) => {
                    &&& r == Err::<(), LoadError>(
                        if error == LoadError::TruncatedHeader {
                            LoadError::EndOfInput
                        } else {
                            error
                        },
                    )
                    &&& final(self).fileIndex == Header::decode_stop(old(self).bytes())
                },
            },
    {
        self.fileIndex = 0;
        self.loadE_IDENT()?;
        WordSize::from_class(self.header.e_ident.Class)?;
        Endianness::from_selector(self.header.e_ident.Data)?;
        let e_type = self.readUShort()?;
        self.header.e_type = e_type;
        let e_machine = self.readUShort()?;
        self.header.e_machine = e_machine;
        let e_version = self.readUInt()?;
        self.header.e_version = e_version;
        let e_entry = self.readUSize()?;
        self.header.e_entry = e_entry;
        let e_phoff = self.readUSize()?;
        self.header.e_phoff = e_phoff;
        let e_shoff = self.readUSize()?;
        self.header.e_shoff = e_shoff;
        let e_flags = self.readUInt()?;
        self.header.e_flags = e_flags;
        let e_ehsize = self.readUShort()?;
        self.header.e_ehsize = e_ehsize;
        let e_phentsize = self.readUShort()?;
        self.header.e_phentsize = e_phentsize;
        let e_phnum = self.readUShort()?;
        self.header.e_phnum = e_phnum;
        let e_shentsize = self.readUShort()?;
        self.header.e_shentsize = e_shentsize;
        let e_shnum = self.readUShort()?;
        self.header.e_shnum = e_shnum;
        let e_shstrndx = self.readUShort()?;
        self.header.e_shstrndx = e_shstrndx;
        Ok(())
    }

    /// Decodes the file header at the start of the buffer. On success
    /// `self.header` holds it and the cursor stands behind it; the padding of
    /// the identification block is skipped in the file and stays what it was
    /// in `self.header`. On failure `self.header` is what it was.
    pub fn loadHeader(&mut self) -> (r: Result<(), LoadError>)
        ensures
            final(self).fileVec == old(self).fileVec,
            final(self).programHeaders == old(self).programHeaders,
            final(self).sectionHeaders == old(self).sectionHeaders,
            match Header::decode(old(self).bytes()) {
                Ok(h) => {
                    &&& r is Ok
                    &&& final(self).header == h.with_padding(old(self).header.e_ident.Padding)
                    &&& final(self).word_size() matches Some(w)
                    &&& final(self).fileIndex == Header::size(w)
                },
                Err(error) => {
                    &&& r == Err::<(), LoadError>(error)
                    &&& final(self).header == old(self).header
                    &&& final(self).fileIndex == Header::decode_stop(old(self).bytes())
                },
            },
    {
        let previous = self.header;
        match self.fill_header() {
            Ok(()) => Ok(()),
            Err(error) => {
                self.header = previous;
                match error {
                    LoadError::EndOfInput => Err(LoadError::TruncatedHeader),
                    other => Err(other),
                }
            },
        }
    }

    /// Decodes the program header at the cursor. A short read comes out as
    /// `EndOfInput`.
    fn next_program_header(&mut self) -> (r: Result<ProgramHeader, LoadError>)
        ensures
            match (old(self).word_size(), old(self).endianness()) {
                (None, _) => {
                    &&& final(self).moved(old(self), old(self).fileIndex as int)
                    &&& r == Err::<ProgramHeader, LoadError>(LoadError::UnsupportedWordSize)
                },
                (Some(_), None) => {
                    &&& final(self).moved(old(self), old(self).fileIndex as int)
                    &&& r == Err::<ProgramHeader, LoadError>(LoadError::UnsupportedEndianness)
                },
                (Some(w), Some(e)) => {
                    &&& final(self).moved(old(self), old(self).cursor_after(ProgramHeader::size(w)))
                    &&& r == if old(self).holds(ProgramHeader::size(w)) {
                        Ok::<ProgramHeader, LoadError>(
                            ProgramHeader::layout(
                                old(self).bytes(),
                                old(self).fileIndex as int,
                                w,
                                e,
                            ),
                        )
                    } else {
                        Err(LoadError::EndOfInput)
                    }
                },
            },
    {
        let w = WordSize::from_class(self.header.e_ident.Class)?;
        Endianness::from_selector(self.header.e_ident.Data)?;
        let mut pHeader = ProgramHeader::new(w);
        let p_type = self.readUInt()?;
        pHeader.setTYPE(p_type);
        match w {
            WordSize::Bits64 => {
                let p_flags = self.readUInt()?;
                pHeader.setFLAGS(p_flags);
            },
            WordSize::Bits32 => {},
        }
        let p_offset = self.readUSize()?;
        pHeader.setOFFSET(p_offset);
        let p_vaddr = self.readUSize()?;
        pHeader.setVADDR(p_vaddr);
        let p_paddr = self.readUSize()?;
        pHeader.setPADDR(p_paddr);
        let p_filesz = self.readUSize()?;
        pHeader.setFILESZ(p_filesz);
        let p_memsz = self.readUSize()?;
        pHeader.setMEMSZ(p_memsz);
        match w {
            WordSize::Bits32 => {
                let p_flags = self.readUInt()?;
                pHeader.setFLAGS(p_flags);
            },
            WordSize::Bits64 => {},
        }
        let p_align = self.readUSize()?;
        pHeader.setALIGN(p_align);
        Ok(pHeader)
    }

    /// Decodes the section header at the cursor. A short read comes out as
    /// `EndOfInput`.
    fn next_section_header(&mut self) -> (r: Result<SectionHeader, LoadError>)
        ensures
            match (old(self).word_size(), old(self).endianness()) {
                (None, _) => {
                    &&& final(self).moved(old(self), old(self).fileIndex as int)
                    &&& r == Err::<SectionHeader, LoadError>(LoadError::UnsupportedWordSize)
                },
                (Some(_), None) => {
                    &&& final(self).moved(old(self), old(self).fileIndex as int)
                    &&& r == Err::<SectionHeader, LoadError>(LoadError::UnsupportedEndianness)
                },
                (Some(w), Some(e)) => {
                    &&& final(self).moved(old(self), old(self).cursor_after(SectionHeader::size(w)))
                    &&& r == if old(self).holds(SectionHeader::size(w)) {
                        Ok::<SectionHeader, LoadError>(
                            SectionHeader::layout(
                                old(self).bytes(),
                                old(self).fileIndex as int,
                                w,
                                e,
                            ),
                        )
                    } else {
                        Err(LoadError::EndOfInput)
                    }
                },
            },
    {
        WordSize::from_class(self.header.e_ident.Class)?;
        Endianness::from_selector(self.header.e_ident.Data)?;
        let mut sHeader = SectionHeader::new();
        sHeader.sh_name = self.readUInt()?;
        sHeader.sh_type = self.readUInt()?;
        sHeader.sh_flags = self.readUSize()?;
        sHeader.sh_addr = self.readUSize()?;
        sHeader.sh_offset = self.readUSize()?;
        sHeader.sh_size = self.readUSize()?;
        sHeader.sh_link = self.readUInt()?;
        sHeader.sh_info = self.readUInt()?;
        sHeader.sh_addralign = self.readUSize()?;
        sHeader.sh_entsize = self.readUSize()?;
        Ok(sHeader)
    }

    /// Decodes the program header at the cursor, by the class and selector of
    /// `self.header`, and steps over it.
    pub fn readProgramHeader(&mut self) -> (r: Result<ProgramHeader, LoadError>)
        ensures
            match (old(self).word_size(), old(self).endianness()) {
                (None, _) => {
                    &&& final(self).moved(old(self), old(self).fileIndex as int)
                    &&& r == Err::<ProgramHeader, LoadError>(LoadError::UnsupportedWordSize)
                },
                (Some(_), None) => {
                    &&& final(self).moved(old(self), old(self).fileIndex as int)
                    &&& r == Err::<ProgramHeader, LoadError>(LoadError::UnsupportedEndianness)
                },
                (Some(w), Some(e)) => {
                    &&& final(self).moved(old(self), old(self).cursor_after(ProgramHeader::size(w)))
                    &&& r == if old(self).holds(ProgramHeader::size(w)) {
                        Ok::<ProgramHeader, LoadError>(
                            ProgramHeader::layout(
                                old(self).bytes(),
                                old(self).fileIndex as int,
                                w,
                                e,
                            ),
                        )
                    } else {
                        Err(LoadError::TruncatedRecord)
                    }
                },
            },
    {
        match self.next_program_header() {
            Err(LoadError::EndOfInput) => Err(LoadError::TruncatedRecord),
            other => other,
        }
    }

    /// Decodes the section header at the cursor, by the class and selector of
    /// `self.header`, and steps over it.
    pub fn readSectionHeader(&mut self) -> (r: Result<SectionHeader, LoadError>)
        ensures
            match (old(self).word_size(), old(self).endianness()) {
                (None, _) => {
                    &&& final(self).moved(old(self), old(self).fileIndex as int)
                    &&& r == Err::<SectionHeader, LoadError>(LoadError::UnsupportedWordSize)
                },
                (Some(_), None) => {
                    &&& final(self).moved(old(self), old(self).fileIndex as int)
                    &&& r == Err::<SectionHeader, LoadError>(LoadError::UnsupportedEndianness)
                },
                (Some(w), Some(e)) => {
                    &&& final(self).moved(old(self), old(self).cursor_after(SectionHeader::size(w)))
                    &&& r == if old(self).holds(SectionHeader::size(w)) {
                        Ok::<SectionHeader, LoadError>(
                            SectionHeader::layout(
                                old(self).bytes(),
                                old(self).fileIndex as int,
                                w,
                                e,
                            ),
                        )
                    } else {
                        Err(LoadError::TruncatedRecord)
                    }
                },
            },
    {
        match self.next_section_header() {
            Err(LoadError::EndOfInput) => Err(LoadError::TruncatedRecord),
            other => other,
        }
    }

    /// Decodes the program header table that `self.header` announces. On
    /// success `self.programHeaders` holds exactly its records, in file order; on
    /// failure `self.programHeaders` is what it was.
    pub fn loadProgramHeaders(&mut self) -> (r: Result<(), LoadError>)
        ensures
            final(self).fileVec == old(self).fileVec,
            final(self).header == old(self).header,
            final(self).sectionHeaders == old(self).sectionHeaders,
            final(self).fileIndex == ProgramHeader::table_stop(old(self).bytes(), old(self).header),
            match ProgramHeader::decode_table(old(self).bytes(), old(self).header) {
                Ok(table) => {
                    &&& r is Ok
                    &&& final(self).programHeaders@ == table
                    &&& final(self).programHeaders@.len() == old(self).header.e_phnum
                },
                Err(error) => {
                    &&& r == Err::<(), LoadError>(error)
                    &&& final(self).programHeaders == old(self).programHeaders
                },
            },
    {
        let count = self.header.e_phnum;
        self.fileIndex = self.header.e_phoff;
        let ghost offset = self.header.e_phoff as int;
        let ghost size = match self.word_size() {
            Some(w) => ProgramHeader::size(w) as int,
            None => 0,
        };
        let mut table: Vec<ProgramHeader> = Vec::new();
        let mut i: u16 = 0;
        while i < count
            invariant
                i <= count,
                count == old(self).header.e_phnum,
                offset == old(self).header.e_phoff,
                size == match old(self).word_size() {
                    Some(w) => ProgramHeader::size(w) as int,
                    None => 0,
                },
                self.fileVec == old(self).fileVec,
                self.header == old(self).header,
                self.programHeaders == old(self).programHeaders,
                self.sectionHeaders == old(self).sectionHeaders,
                self.fileIndex == offset + i * size,
                table@.len() == i,
                i > 0 ==> ({
                    &&& self.word_size() matches Some(w)
                    &&& self.endianness() matches Some(e)
                    &&& self.fileIndex <= self.bytes().len()
                    &&& table@ == ProgramHeader::table(self.bytes(), offset, i as nat, w, e)
                }),
            decreases count - i,
        {
            proof {
                lemma_record_offsets(i as int, count as int, size);
            }
            match self.next_program_header() {
                Ok(record) => {
                    table.push(record);
                    i += 1;
                    assert(table@ =~= ProgramHeader::table(
                        self.bytes(),
                        offset,
                        i as nat,
                        self.word_size()->0,
                        self.endianness()->0,
                    ));
                },
                Err(error) => {
                    return Err(error);
                },
            }
        }
        assert(table@ =~= ProgramHeader::decode_table(self.bytes(), self.header)->Ok_0);
        self.programHeaders = table;
        Ok(())
    }

    /// Decodes the section header table that `self.header` announces. On
    /// success `self.sectionHeaders` holds exactly its records, in file order; on
    /// failure `self.sectionHeaders` is what it was.
    pub fn loadSectionHeaders(&mut self) -> (r: Result<(), LoadError>)
        ensures
            final(self).fileVec == old(self).fileVec,
            final(self).header == old(self).header,
            final(self).programHeaders == old(self).programHeaders,
            final(self).fileIndex == SectionHeader::table_stop(old(self).bytes(), old(self).header),
            match SectionHeader::decode_table(old(self).bytes(), old(self).header) {
                Ok(table) => {
                    &&& r is Ok
                    &&& final(self).sectionHeaders@ == table
                    &&& final(self).sectionHeaders@.len() == old(self).header.e_shnum
                },
                Err(error) => {
                    &&& r == Err::<(), LoadError>(error)
                    &&& final(self).sectionHeaders == old(self).sectionHeaders
                },
            },
    {
        let count = self.header.e_shnum;
        self.fileIndex = self.header.e_shoff;
        let ghost offset = self.header.e_shoff as int;
        let ghost size = match self.word_size() {
            Some(w) => SectionHeader::size(w) as int,
            None => 0,
        };
        let mut table: Vec<SectionHeader> = Vec::new();
        let mut i: u16 = 0;
        while i < count
            invariant
                i <= count,
                count == old(self).header.e_shnum,
                offset == old(self).header.e_shoff,
                size == match old(self).word_size() {
                    Some(w) => SectionHeader::size(w) as int,
                    None => 0,
                },
                self.fileVec == old(self).fileVec,
                self.header == old(self).header,
                self.programHeaders == old(self).programHeaders,
                self.sectionHeaders == old(self).sectionHeaders,
                self.fileIndex == offset + i * size,
                table@.len() == i,
                i > 0 ==> ({
                    &&& self.word_size() matches Some(w)
                    &&& self.endianness() matches Some(e)
                    &&& self.fileIndex <= self.bytes().len()
                    &&& table@ == SectionHeader::table(self.bytes(), offset, i as nat, w, e)
                }),
            decreases count - i,
        {
            proof {
                lemma_record_offsets(i as int, count as int, size);
            }
            match self.next_section_header() {
                Ok(record) => {
                    table.push(record);
                    i += 1;
                    assert(table@ =~= SectionHeader::table(
                        self.bytes(),
                        offset,
                        i as nat,
                        self.word_size()->0,
                        self.endianness()->0,
                    ));
                },
                Err(error) => {
                    return Err(error);
                },
            }
        }
        assert(table@ =~= SectionHeader::decode_table(self.bytes(), self.header)->Ok_0);
        self.sectionHeaders = table;
        Ok(())
    }

    /// Decodes the whole file: the header, then the two tables. Each
    /// structure that was decoded before a failure stays; the others are what
    /// they were. The padding of the identification block stays what it was
    /// in any case.
    pub fn load(&mut self) -> (r: Result<(), LoadError>)
        ensures
            final(self).fileVec == old(self).fileVec,
            final(self).fileIndex == Loader::decode_stop(old(self).bytes()),
            match Loader::decode(old(self).bytes()) {
                Ok(_) => r is Ok,
                Err(error) => r == Err::<(), LoadError>(error),
            },
            r is Ok ==> final(self).decoded(),
            r is Ok ==> final(self).programHeaders@.len() == final(self).header.e_phnum,
            r is Ok ==> final(self).sectionHeaders@.len() == final(self).header.e_shnum,
            match Header::decode(old(self).bytes()) {
                Err(_) => {
                    &&& final(self).header == old(self).header
                    &&& final(self).programHeaders == old(self).programHeaders
                    &&& final(self).sectionHeaders == old(self).sectionHeaders
                },
                Ok(header) => {
                    &&& final(self).header == header.with_padding(
                        old(self).header.e_ident.Padding,
                    )
                    &&& match ProgramHeader::decode_table(old(self).bytes(), header) {
                        Err(_) => {
                            &&& final(self).programHeaders == old(self).programHeaders
                            &&& final(self).sectionHeaders == old(self).sectionHeaders
                        },
                        Ok(program_headers) => {
                            &&& final(self).programHeaders@ == program_headers
                            &&& SectionHeader::decode_table(old(self).bytes(), header) is Err
                                ==> final(self).sectionHeaders == old(self).sectionHeaders
                        },
                    }
                },
            },
    {
        self.loadHeader()?;
        self.loadProgramHeaders()?;
        self.loadSectionHeaders()
    }
}

/// Record `i` of a table of `count` records starts `i * size` bytes into the
/// table, and the table reaches at least to the end of that record.
proof fn lemma_record_offsets(i: int, count: int, size: int)
    requires
        0 <= i < count,
        0 <= size,
    ensures
        (i + 1) * size == i * size + size,
        (i + 1) * size <= count * size,
        0 <= i * size,
{
    assert((i + 1) * size == i * size + size) by (nonlinear_arith);
    assert((i + 1) * size <= count * size) by (nonlinear_arith)
        requires
            i + 1 <= count,
            0 <= size,
    ;
    assert(0 <= i * size) by (nonlinear_arith)
        requires
            0 <= i,
            0 <= size,
    ;
}

/// A read never moves the cursor back, nor further than its field reaches.
pub proof fn lemma_cursor_advances(loader: Loader, width: nat)
    ensures
        loader.fileIndex <= loader.cursor_after(width) <= loader.fileIndex + width,
        loader.holds(width) ==> loader.cursor_after(width) == loader.fileIndex + width,
        !loader.holds(width) ==> loader.cursor_after(width) >= loader.bytes().len(),
{
}

/// Decoding is determined by the bytes: two loaders over equal buffers that
/// each hold the full decode of their buffer hold the same tables and the
/// same header, field for field. The padding of the identification block,
/// which no decode reads or writes, is whatever each loader had.
pub proof fn lemma_decode_is_deterministic(first: Loader, second: Loader)
    requires
        first.bytes() == second.bytes(),
        first.decoded(),
        second.decoded(),
    ensures
        first.header == second.header.with_padding(first.header.e_ident.Padding),
        first.header.e_ident.Padding == second.header.e_ident.Padding ==> first.header
            == second.header,
        first.programHeaders@ == second.programHeaders@,
        first.sectionHeaders@ == second.sectionHeaders@,
{
}

/// A loader that holds the full decode of its buffer holds as many program
/// headers and section headers as its header announces, zero included, and
/// record `i` of each table is the one laid out `i` records into that table.
pub proof fn lemma_decoded_tables(loader: Loader, w: WordSize, e: Endianness)
    requires
        loader.decoded(),
        loader.word_size() == Some(w),
        loader.endianness() == Some(e),
    ensures
        loader.programHeaders@.len() == loader.header.e_phnum,
        loader.sectionHeaders@.len() == loader.header.e_shnum,
        forall|i: int|
            0 <= i < loader.header.e_phnum ==> #[trigger] loader.programHeaders@[i]
                == ProgramHeader::layout(
                loader.bytes(),
                loader.header.e_phoff + i * ProgramHeader::size(w),
                w,
                e,
            ),
        forall|i: int|
            0 <= i < loader.header.e_shnum ==> #[trigger] loader.sectionHeaders@[i]
                == SectionHeader::layout(
                loader.bytes(),
                loader.header.e_shoff + i * SectionHeader::size(w),
                w,
                e,
            ),
{
}

/// A buffer that ends before one of the two tables does is not decoded in
/// part: if its header decodes at all, the full decode fails with
/// `EndOfInput`.
pub proof fn lemma_short_buffer_fails(bytes: Seq<u8>, header: Header, w: WordSize)
    requires
        Header::decode(bytes) == Ok::<Header, LoadError>(header),
        WordSize::of(header.e_ident.Class) == Some(w),
        ({
            ||| header.e_phnum > 0 && bytes.len() < header.e_phoff + header.e_phnum
                * ProgramHeader::size(w)
            ||| header.e_shnum > 0 && bytes.len() < header.e_shoff + header.e_shnum
                * SectionHeader::size(w)
        }),
    ensures
        Loader::decode(bytes) == Err::<Decoded, LoadError>(LoadError::EndOfInput),
{
}

} // verus!
