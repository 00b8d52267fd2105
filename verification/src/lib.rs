//! A decoder for the headers of ELF object files: the file header, the
//! program header table and the section header table, read from a byte
//! buffer that is already in memory. Word size and byte order are taken
//! from the file's own identification block.

#![allow(non_snake_case)]
#![allow(non_camel_case_types)]

pub mod encoding;
pub mod error;
pub mod header;
pub mod loader;
pub mod programheader;
pub mod sectionheader;
