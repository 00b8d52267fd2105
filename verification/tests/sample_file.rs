use elf_loader::loader::Loader;

const PROGRAM_TABLE: usize = 0x40;
const SECTION_TABLE: usize = 140208;

fn put(image: &mut Vec<u8>, at: usize, bytes: &[u8]) {
    image[at..at + bytes.len()].copy_from_slice(bytes);
}

/// A little-endian 64-bit file with 11 program headers and 27 section
/// headers, laid out like a small dynamically linked executable.
fn sample_image() -> Vec<u8> {
    let mut image = vec![0u8; SECTION_TABLE + 27 * 64];
    put(&mut image, 0, &[0x7f, 0x45, 0x4c, 0x46, 0x02, 0x01, 0x01, 0x00]);
    put(&mut image, 16, &3u16.to_le_bytes());
    put(&mut image, 18, &0x3eu16.to_le_bytes());
    put(&mut image, 20, &1u32.to_le_bytes());
    put(&mut image, 24, &0x5b20u64.to_le_bytes());
    put(&mut image, 32, &(PROGRAM_TABLE as u64).to_le_bytes());
    put(&mut image, 40, &(SECTION_TABLE as u64).to_le_bytes());
    put(&mut image, 48, &0u32.to_le_bytes());
    put(&mut image, 52, &64u16.to_le_bytes());
    put(&mut image, 54, &56u16.to_le_bytes());
    put(&mut image, 56, &11u16.to_le_bytes());
    put(&mut image, 58, &64u16.to_le_bytes());
    put(&mut image, 60, &27u16.to_le_bytes());
    put(&mut image, 62, &26u16.to_le_bytes());

    // First program header: the program header table itself.
    put(&mut image, PROGRAM_TABLE, &6u32.to_le_bytes());
    put(&mut image, PROGRAM_TABLE + 4, &4u32.to_le_bytes());
    put(&mut image, PROGRAM_TABLE + 8, &0x40u64.to_le_bytes());
    put(&mut image, PROGRAM_TABLE + 16, &0x40u64.to_le_bytes());
    put(&mut image, PROGRAM_TABLE + 24, &0x40u64.to_le_bytes());
    put(&mut image, PROGRAM_TABLE + 32, &0x268u64.to_le_bytes());
    put(&mut image, PROGRAM_TABLE + 40, &0x268u64.to_le_bytes());
    put(&mut image, PROGRAM_TABLE + 48, &8u64.to_le_bytes());

    // Second program header: the interpreter path.
    put(&mut image, PROGRAM_TABLE + 56, &3u32.to_le_bytes());
    put(&mut image, PROGRAM_TABLE + 60, &4u32.to_le_bytes());
    put(&mut image, PROGRAM_TABLE + 64, &0x2a8u64.to_le_bytes());
    put(&mut image, PROGRAM_TABLE + 72, &0x2a8u64.to_le_bytes());
    put(&mut image, PROGRAM_TABLE + 80, &0x2a8u64.to_le_bytes());
    put(&mut image, PROGRAM_TABLE + 88, &0x1cu64.to_le_bytes());
    put(&mut image, PROGRAM_TABLE + 96, &0x1cu64.to_le_bytes());
    put(&mut image, PROGRAM_TABLE + 104, &1u64.to_le_bytes());

    // Last section header: the section-name string table.
    let last = SECTION_TABLE + 26 * 64;
    put(&mut image, last, &0x11u32.to_le_bytes());
    put(&mut image, last + 4, &3u32.to_le_bytes());
    put(&mut image, last + 24, &0x222b4u64.to_le_bytes());
    put(&mut image, last + 32, &0xf7u64.to_le_bytes());
    put(&mut image, last + 48, &1u64.to_le_bytes());
    image
}

#[test]
fn testParserReadData() {
    let mut parser = Loader::new(sample_image());
    // Nothing is decoded yet: the reads are told to go big-endian.
    parser.header.e_ident.Data = 2;
    assert_eq!(0x7F, parser.readUByte().unwrap());
    assert_eq!(0x454C, parser.readUShort().unwrap());
    assert_eq!(0x46020101, parser.readUInt().unwrap());
    assert_eq!(0x0, parser.readULong().unwrap());
}

#[test]
fn testReadE_IDENT() {
    let mut parser = Loader::new(sample_image());
    parser.loadHeader().unwrap();
    assert_eq!(0x7F454C46, parser.header.e_ident.Magic);
    assert_eq!(0x02, parser.header.e_ident.Class);
    assert_eq!(0x01, parser.header.e_ident.Data);
    assert_eq!(0x01, parser.header.e_ident.Version);
    assert_eq!(0x0, parser.header.e_ident.OS_ABI);
}

#[test]
fn testHeaderLoading() {
    let mut parser = Loader::new(sample_image());
    parser.load().unwrap();
    assert_eq!(0x7F454C46, parser.header.e_ident.Magic);
    assert_eq!(0x02, parser.header.e_ident.Class);
    assert_eq!(0x01, parser.header.e_ident.Data);
    assert_eq!(0x01, parser.header.e_ident.Version);
    assert_eq!(0x0, parser.header.e_ident.OS_ABI);
    assert_eq!(0x3, parser.header.e_type);
    assert_eq!(0x3e, parser.header.e_machine);
    assert_eq!(0x1, parser.header.e_version);
    assert_eq!(0x5b20, parser.header.e_entry);
    assert_eq!(0x40, parser.header.e_phoff);
    assert_eq!(140208, parser.header.e_shoff);
    assert_eq!(0, parser.header.e_flags);
    assert_eq!(64, parser.header.e_ehsize);
    assert_eq!(56, parser.header.e_phentsize);
    assert_eq!(11, parser.header.e_phnum);
    assert_eq!(64, parser.header.e_shentsize);
    assert_eq!(27, parser.header.e_shnum);
    assert_eq!(26, parser.header.e_shstrndx);
}

#[test]
fn testProgramHeaderLoading() {
    let mut parser = Loader::new(sample_image());
    parser.load().unwrap();
    let PF_X = 1 << 0;
    let PF_W = 1 << 1;
    let PF_R = 1 << 2;
    assert_eq!(0x6, parser.programHeaders[0].getTYPE());
    assert_eq!(0x40, parser.programHeaders[0].getOFFSET());
    assert_eq!(0x40, parser.programHeaders[0].getVADDR());
    assert_eq!(0x40, parser.programHeaders[0].getPADDR());
    assert_eq!(0x268, parser.programHeaders[0].getFILESZ());
    assert_eq!(0x268, parser.programHeaders[0].getMEMSZ());
    assert_eq!(PF_R, parser.programHeaders[0].getFLAGS());
    assert_eq!(0x8, parser.programHeaders[0].getALIGN());
}

#[test]
fn testSectionHeaderLoading() {
    let mut parser = Loader::new(sample_image());
    parser.load().unwrap();
    let PF_X = 1 << 0;
    let PF_W = 1 << 1;
    let PF_R = 1 << 2;
    println!("{:#x?}", parser.sectionHeaders[26]);
    assert_eq!(0x222b4, parser.sectionHeaders[26].sh_offset);
}

#[test]
fn full_decode_fills_both_tables() {
    let mut parser = Loader::new(sample_image());
    assert_eq!(Ok(()), parser.load());
    assert_eq!(11, parser.programHeaders.len());
    assert_eq!(27, parser.sectionHeaders.len());
    assert_eq!(0x6, parser.programHeaders[0].getTYPE());
    assert_eq!(0x40, parser.programHeaders[0].getOFFSET());
    assert_eq!(0x40, parser.programHeaders[0].getVADDR());
    assert_eq!(0x40, parser.programHeaders[0].getPADDR());
    assert_eq!(0x3, parser.programHeaders[1].getTYPE());
    assert_eq!(0x2a8, parser.programHeaders[1].getOFFSET());
    assert_eq!(0x1c, parser.programHeaders[1].getFILESZ());
    assert_eq!(0, parser.programHeaders[10].getTYPE());
    assert_eq!(0x11, parser.sectionHeaders[26].sh_name);
    assert_eq!(3, parser.sectionHeaders[26].sh_type);
    assert_eq!(0xf7, parser.sectionHeaders[26].sh_size);
    assert_eq!(1, parser.sectionHeaders[26].sh_addralign);
    assert_eq!(0, parser.sectionHeaders[0].sh_offset);
    // The cursor stands behind the last section header.
    assert_eq!((SECTION_TABLE + 27 * 64) as u64, parser.fileIndex);
}

#[test]
fn identification_block_of_a_64_bit_little_endian_file() {
    let mut image = vec![0x7f, 0x45, 0x4c, 0x46, 0x02, 0x01, 0x01, 0x00, 0x00];
    image.resize(64, 0);
    let mut parser = Loader::new(image);
    assert_eq!(Ok(()), parser.loadHeader());
    assert_eq!(0x7F454C46, parser.header.e_ident.Magic);
    assert_eq!(2, parser.header.e_ident.Class);
    assert_eq!(1, parser.header.e_ident.Data);
    assert_eq!(1, parser.header.e_ident.Version);
    assert_eq!(0, parser.header.e_ident.OS_ABI);
    assert_eq!(0, parser.header.e_ident.ABI_Version);
    assert_eq!([0u8; 7], parser.header.e_ident.Padding);
    assert_eq!(64, parser.fileIndex);
}

#[test]
fn decoding_twice_gives_the_same_structures() {
    let mut first = Loader::new(sample_image());
    let mut second = Loader::new(sample_image());
    first.load().unwrap();
    second.load().unwrap();
    assert_eq!(first.header, second.header);
    assert_eq!(first.programHeaders, second.programHeaders);
    assert_eq!(first.sectionHeaders, second.sectionHeaders);

    // A second pass over the same loader replaces the tables by equal ones.
    let header = first.header;
    let programs = first.programHeaders.clone();
    let sections = first.sectionHeaders.clone();
    first.load().unwrap();
    assert_eq!(header, first.header);
    assert_eq!(programs, first.programHeaders);
    assert_eq!(sections, first.sectionHeaders);
}

#[test]
fn buffer_that_ends_inside_the_program_table_is_not_decoded() {
    let mut image = sample_image();
    image.truncate(PROGRAM_TABLE + 11 * 56 - 1);
    let end = image.len() as u64;
    let mut parser = Loader::new(image);
    assert_eq!(Err(elf_loader::error::LoadError::EndOfInput), parser.load());
    // The header was decoded; no table holds a record.
    assert_eq!(11, parser.header.e_phnum);
    assert!(parser.programHeaders.is_empty());
    assert!(parser.sectionHeaders.is_empty());
    assert_eq!(end, parser.fileIndex);
}

#[test]
fn buffer_that_ends_inside_the_section_table_is_not_decoded() {
    let mut image = sample_image();
    image.truncate(SECTION_TABLE + 26 * 64 + 10);
    let end = image.len() as u64;
    let mut parser = Loader::new(image);
    assert_eq!(Err(elf_loader::error::LoadError::EndOfInput), parser.load());
    assert_eq!(11, parser.programHeaders.len());
    assert!(parser.sectionHeaders.is_empty());
    assert_eq!(end, parser.fileIndex);
}

#[test]
fn declared_record_sizes_are_not_consulted() {
    let mut image = sample_image();
    put(&mut image, 54, &1000u16.to_le_bytes());
    put(&mut image, 58, &3u16.to_le_bytes());
    let mut parser = Loader::new(image);
    assert_eq!(Ok(()), parser.load());
    assert_eq!(1000, parser.header.e_phentsize);
    assert_eq!(3, parser.header.e_shentsize);
    assert_eq!(0x3, parser.programHeaders[1].getTYPE());
    assert_eq!(0x222b4, parser.sectionHeaders[26].sh_offset);
}

#[test]
fn magic_number_is_not_checked() {
    let mut image = sample_image();
    put(&mut image, 0, &[0xde, 0xad, 0xbe, 0xef]);
    let mut parser = Loader::new(image);
    assert_eq!(Ok(()), parser.load());
    assert_eq!(0xdeadbeef, parser.header.e_ident.Magic);
    assert_eq!(11, parser.programHeaders.len());
}
