use bochumoxide::binary_handling::image::pe_header_admitted;
use bochumoxide::binary_handling::pe::{parse_eat, parse_iat, PEBinary};
use bochumoxide::binary_handling::plt::StubOutcome;
use bochumoxide::binary_handling::{from_bytes, Binary, BinaryImage};
use bochumoxide::error::ErrorKind;

const SECTION_RVA: u32 = 0x1000;
const SECTION_FILE: u32 = 0x400;
const SECTION_SIZE: u32 = 0xa0000;
const EXPORT_RVA: u32 = 0x9a000;
const EXPORT_SIZE: u32 = 0x1000;
const IMPORT_RVA: u32 = 0x9c000;

/// An export of an image under construction.
enum Export {
    /// A function with a name, at an address.
    Named(&'static str, u32),
    /// A function without a name that forwards to an ordinal of another library.
    ForwardByOrdinal(u32),
    /// A function with a name that forwards to a name of another library.
    ForwardByName(&'static str, &'static str),
    /// A function without a name, at an address.
    Unnamed(u32),
}

fn put(image: &mut Vec<u8>, rva: u32, bytes: &[u8]) {
    let at = (rva - SECTION_RVA + SECTION_FILE) as usize;
    image[at..at + bytes.len()].copy_from_slice(bytes);
}

/// A PE image with one section that holds an export and an import directory.
/// Each import is `(library, address of its slot, name)`.
fn build(is_64: bool, exports: &[Export], imports: &[(&str, u32, &str)]) -> Vec<u8> {
    let mut image = vec![0u8; (SECTION_FILE + SECTION_SIZE) as usize];
    image[0] = b'M';
    image[1] = b'Z';
    image[0x3c..0x40].copy_from_slice(&0x40u32.to_le_bytes());
    image[0x40..0x44].copy_from_slice(b"PE\0\0");
    let optional_size: u16 = if is_64 { 240 } else { 224 };
    let mut coff = Vec::new();
    coff.extend_from_slice(&(if is_64 { 0x8664u16 } else { 0x14c }).to_le_bytes());
    coff.extend_from_slice(&1u16.to_le_bytes());
    coff.extend_from_slice(&[0u8; 12]);
    coff.extend_from_slice(&optional_size.to_le_bytes());
    coff.extend_from_slice(&0x2022u16.to_le_bytes());
    image[0x44..0x58].copy_from_slice(&coff);

    let mut optional = Vec::new();
    optional.extend_from_slice(&(if is_64 { 0x20bu16 } else { 0x10b }).to_le_bytes());
    optional.extend_from_slice(&[14, 0]);
    optional.extend_from_slice(&[0u8; 12]);
    optional.extend_from_slice(&0x1000u32.to_le_bytes());
    optional.extend_from_slice(&0x1000u32.to_le_bytes());
    if is_64 {
        optional.extend_from_slice(&0x1_8000_0000u64.to_le_bytes());
    } else {
        optional.extend_from_slice(&0x1000u32.to_le_bytes());
        optional.extend_from_slice(&0x1000_0000u32.to_le_bytes());
    }
    optional.extend_from_slice(&0x1000u32.to_le_bytes());
    optional.extend_from_slice(&0x200u32.to_le_bytes());
    optional.extend_from_slice(&[0u8; 12]);
    optional.extend_from_slice(&0u32.to_le_bytes());
    optional.extend_from_slice(&(SECTION_RVA + SECTION_SIZE).to_le_bytes());
    optional.extend_from_slice(&SECTION_FILE.to_le_bytes());
    optional.extend_from_slice(&0u32.to_le_bytes());
    optional.extend_from_slice(&3u16.to_le_bytes());
    optional.extend_from_slice(&0u16.to_le_bytes());
    optional.extend_from_slice(&vec![0u8; if is_64 { 32 } else { 16 }]);
    optional.extend_from_slice(&0u32.to_le_bytes());
    optional.extend_from_slice(&16u32.to_le_bytes());
    // data directories: exports, imports, and fourteen empty ones
    if exports.is_empty() {
        optional.extend_from_slice(&[0u8; 8]);
    } else {
        optional.extend_from_slice(&EXPORT_RVA.to_le_bytes());
        optional.extend_from_slice(&EXPORT_SIZE.to_le_bytes());
    }
    if imports.is_empty() {
        optional.extend_from_slice(&[0u8; 8]);
    } else {
        optional.extend_from_slice(&IMPORT_RVA.to_le_bytes());
        optional.extend_from_slice(&0x1000u32.to_le_bytes());
    }
    optional.extend_from_slice(&[0u8; 14 * 8]);
    assert_eq!(optional.len(), optional_size as usize);
    let sections_at = 0x58 + optional.len();
    image[0x58..sections_at].copy_from_slice(&optional);

    let mut section = Vec::new();
    section.extend_from_slice(b".text\0\0\0");
    section.extend_from_slice(&SECTION_SIZE.to_le_bytes());
    section.extend_from_slice(&SECTION_RVA.to_le_bytes());
    section.extend_from_slice(&SECTION_SIZE.to_le_bytes());
    section.extend_from_slice(&SECTION_FILE.to_le_bytes());
    section.extend_from_slice(&[0u8; 12]);
    section.extend_from_slice(&0x6000_0020u32.to_le_bytes());
    image[sections_at..sections_at + 40].copy_from_slice(&section);

    if !exports.is_empty() {
        let count = exports.len() as u32;
        let addresses = EXPORT_RVA + 0x40;
        let pointers = EXPORT_RVA + 0x100;
        let ordinals = EXPORT_RVA + 0x200;
        let mut strings = EXPORT_RVA + 0x300;
        put(&mut image, strings, b"test.dll\0");
        let mut directory = Vec::new();
        directory.extend_from_slice(&[0u8; 12]);
        directory.extend_from_slice(&strings.to_le_bytes());
        directory.extend_from_slice(&1u32.to_le_bytes());
        directory.extend_from_slice(&count.to_le_bytes());
        directory.extend_from_slice(&count.to_le_bytes());
        directory.extend_from_slice(&addresses.to_le_bytes());
        directory.extend_from_slice(&pointers.to_le_bytes());
        directory.extend_from_slice(&ordinals.to_le_bytes());
        put(&mut image, EXPORT_RVA, &directory);
        strings += 0x10;
        let mut text = |image: &mut Vec<u8>, s: &str| -> u32 {
            let at = strings;
            put(image, at, s.as_bytes());
            strings += s.len() as u32 + 1;
            at
        };
        for (i, export) in exports.iter().enumerate() {
            let i = i as u32;
            let (name, address) = match export {
                Export::Named(name, rva) => (text(&mut image, name), *rva),
                Export::ForwardByOrdinal(ordinal) => {
                    (0, text(&mut image, &format!("NTDLL.#{}", ordinal)))
                }
                Export::ForwardByName(name, target) => {
                    let name = text(&mut image, name);
                    (name, text(&mut image, &format!("NTDLL.{}", target)))
                }
                Export::Unnamed(rva) => (0, *rva),
            };
            put(&mut image, addresses + 4 * i, &address.to_le_bytes());
            put(&mut image, pointers + 4 * i, &name.to_le_bytes());
            put(&mut image, ordinals + 2 * i, &(i as u16).to_le_bytes());
        }
    }

    let width: u32 = if is_64 { 8 } else { 4 };
    for (i, import) in imports.iter().enumerate() {
        let i = i as u32;
        let lookup = IMPORT_RVA + 0x200 + 0x10 * i;
        let hint = IMPORT_RVA + 0x600 + 0x40 * i;
        let library = IMPORT_RVA + 0xc00 + 0x20 * i;
        let mut descriptor = Vec::new();
        descriptor.extend_from_slice(&lookup.to_le_bytes());
        descriptor.extend_from_slice(&[0u8; 8]);
        descriptor.extend_from_slice(&library.to_le_bytes());
        descriptor.extend_from_slice(&import.1.to_le_bytes());
        put(&mut image, IMPORT_RVA + 20 * i, &descriptor);
        put(&mut image, lookup, &hint.to_le_bytes());
        assert!(width <= 8);
        put(&mut image, hint + 2, import.2.as_bytes());
        put(&mut image, library, import.0.as_bytes());
    }
    image
}

fn kernel32_32() -> Vec<u8> {
    build(
        false,
        &[
            Export::Named("GetAtomNameA", 0x52020),
            Export::Named("Module32NextW", 0x5a8c0),
            Export::Named("PssFreeSnapshot", 0x341c0),
        ],
        &[
            ("api-ms-win-core-console-l1-1-0.dll", 0x80e60, "GetConsoleCommandHistoryA"),
            ("api-ms-win-core-datetime-l1-1-1.dll", 0x8131c, "EnumDateFormatsW"),
            ("api-ms-win-core-file-l1-1-0.dll", 0x814c0, "SearchPathA"),
        ],
    )
}

fn kernel32_64() -> Vec<u8> {
    build(
        true,
        &[
            Export::Named("PssWalkMarkerGetPosition", 0x3acd0),
            Export::Named("SetCurrentDirectoryA", 0x3b6e0),
            Export::Named("SetNamedPipeHandleState", 0x21f40),
        ],
        &[
            ("api-ms-win-core-localization-l1-2-0.dll", 0x81678, "IdnToAscii"),
            ("api-ms-win-core-localization-l1-2-1.dll", 0x81740, "IsValidNLSVersion"),
            ("api-ms-win-core-namedpipe-l1-1-0.dll", 0x81948, "CreateNamedPipeW"),
        ],
    )
}

#[test]
fn test_iat_parser() {
    // start 32-bit tests
    let pe = PEBinary::new(kernel32_32()).unwrap();
    assert_eq!(*pe.iat.get("SearchPathA").unwrap(), 0x814c0);
    assert_eq!(*pe.iat.get("EnumDateFormatsW").unwrap(), 0x8131c);
    assert_eq!(*pe.iat.get("GetConsoleCommandHistoryA").unwrap(), 0x80e60);

    // start 64-bit tests
    let pe = PEBinary::new(kernel32_64()).unwrap();
    assert_eq!(*pe.iat.get("IdnToAscii").unwrap(), 0x81678);
    assert_eq!(*pe.iat.get("IsValidNLSVersion").unwrap(), 0x81740);
    assert_eq!(*pe.iat.get("CreateNamedPipeW").unwrap(), 0x81948);
}

#[test]
fn test_eat_parser() {
    // start 32-bit tests
    let pe = PEBinary::new(kernel32_32()).unwrap();
    assert_eq!(*pe.eat.get("Module32NextW").unwrap(), 0x5a8c0);
    assert_eq!(*pe.eat.get("GetAtomNameA").unwrap(), 0x52020);
    assert_eq!(*pe.eat.get("PssFreeSnapshot").unwrap(), 0x341c0);

    // start 64-bit tests
    let pe = PEBinary::new(kernel32_64()).unwrap();
    assert_eq!(*pe.eat.get("PssWalkMarkerGetPosition").unwrap(), 0x3acd0);
    assert_eq!(*pe.eat.get("SetCurrentDirectoryA").unwrap(), 0x3b6e0);
    assert_eq!(*pe.eat.get("SetNamedPipeHandleState").unwrap(), 0x21f40);
}

#[test]
fn pe_test_symbol_parser() {
    // start 32-bit tests
    let pe = PEBinary::new(kernel32_32()).unwrap();
    assert_eq!(*pe.symbols.get("Module32NextW").unwrap(), 0x5a8c0);
    assert_eq!(*pe.symbols.get("iat.SearchPathA").unwrap(), 0x814c0);
    assert_eq!(*pe.symbols.get("eat.PssFreeSnapshot").unwrap(), 0x341c0);

    // start 64-bit tests
    let pe = PEBinary::new(kernel32_64()).unwrap();
    assert_eq!(*pe.symbols.get("PssWalkMarkerGetPosition").unwrap(), 0x3acd0);
    assert_eq!(*pe.symbols.get("iat.IsValidNLSVersion").unwrap(), 0x81740);
    assert_eq!(*pe.symbols.get("eat.SetCurrentDirectoryA").unwrap(), 0x3b6e0);
}

#[test]
fn pe_64_scenario() {
    let pe = PEBinary::new(kernel32_64()).unwrap();
    assert_eq!(*pe.iat.get("IsValidNLSVersion").unwrap(), 0x81740);
    assert_eq!(*pe.eat.get("SetCurrentDirectoryA").unwrap(), 0x3B6E0);
    assert_eq!(*pe.symbols.get("PssWalkMarkerGetPosition").unwrap(), 0x3ACD0);
    assert_eq!(*pe.symbols.get("iat.IsValidNLSVersion").unwrap(), 0x81740);
    assert_eq!(pe.get_sym_addr("IsValidNLSVersion"), Ok(0x81740));
    assert_eq!(pe.get_sym_addr("no_such_symbol"), Err(ErrorKind::SymbolNotFound));
    assert_eq!(ErrorKind::SymbolNotFound.message(), "Symbol not found");
}

#[test]
fn opened_pe_answers_through_the_common_query() {
    let outcomes = vec![vec![StubOutcome::Observed(0x2000)]];
    let binary = from_bytes(kernel32_64(), &outcomes).unwrap();
    assert!(matches!(binary, BinaryImage::Pe(_)));
    assert_eq!(binary.get_sym_addr("eat.SetNamedPipeHandleState"), Ok(0x21f40));
    assert_eq!(binary.get_sym_addr("CreateNamedPipeW"), Ok(0x81948));
    assert_eq!(binary.get_sym_addr("nonexistingentry"), Err(ErrorKind::SymbolNotFound));
}

#[test]
fn tables_come_in_file_order() {
    let image = kernel32_32();
    let iat = parse_iat(&image).unwrap();
    assert_eq!(iat.keys(), vec!["GetConsoleCommandHistoryA", "EnumDateFormatsW", "SearchPathA"]);
    let eat = parse_eat(&image).unwrap();
    assert_eq!(eat.keys(), vec!["GetAtomNameA", "Module32NextW", "PssFreeSnapshot"]);
}

#[test]
fn forwarder_by_ordinal_gets_a_name_of_its_own() {
    let image = build(
        true,
        &[
            Export::Named("First", 0x2000),
            Export::ForwardByOrdinal(17),
            Export::ForwardByName("HeapAlloc", "RtlAllocateHeap"),
        ],
        &[],
    );
    let pe = PEBinary::new(image).unwrap();
    assert_eq!(pe.eat.len(), 3);
    assert_eq!(pe.eat.get("First"), Some(&0x2000));
    let forwarder = *pe.eat.get("ordinal_17").unwrap();
    assert!(EXPORT_RVA as u64 <= forwarder && forwarder < (EXPORT_RVA + EXPORT_SIZE) as u64);
    assert_eq!(pe.symbols.get("eat.ordinal_17"), Some(&forwarder));
    assert_eq!(pe.symbols.get("ordinal_17"), Some(&forwarder));
    let by_name = *pe.eat.get("HeapAlloc").unwrap();
    assert!(EXPORT_RVA as u64 <= by_name && by_name < (EXPORT_RVA + EXPORT_SIZE) as u64);
    assert!(pe.iat.is_empty());
}

#[test]
fn export_without_any_name_fails_the_image() {
    let image = build(true, &[Export::Named("First", 0x2000), Export::Unnamed(0x3000)], &[]);
    assert_eq!(parse_eat(&image).err(), Some(ErrorKind::MalformedPe));
    assert!(parse_iat(&image).unwrap().is_empty());
    assert_eq!(PEBinary::new(image.clone()).err(), Some(ErrorKind::MalformedPe));
    // what is no PE image is taken for an ELF image next, and this is none
    assert_eq!(from_bytes(image, &vec![]).err(), Some(ErrorKind::UnsupportedFormat));
}

#[test]
fn elf_image_is_no_pe_image() {
    let mut elf = vec![0x7f, b'E', b'L', b'F', 2, 1, 1, 0];
    elf.extend_from_slice(&[0u8; 56]);
    assert_eq!(PEBinary::new(elf.clone()).err(), Some(ErrorKind::UnsupportedFormat));
    assert_eq!(parse_iat(&elf).err(), Some(ErrorKind::UnsupportedFormat));
    assert_eq!(parse_eat(b"MZ").err(), Some(ErrorKind::UnsupportedFormat));
}

#[test]
fn headers_that_the_parser_cannot_be_given_are_refused() {
    let image = kernel32_64();
    assert!(pe_header_admitted(&image));
    assert!(pe_header_admitted(&kernel32_32()));

    // file alignment zero
    let mut zero_alignment = image.clone();
    zero_alignment[0x7c..0x80].copy_from_slice(&0u32.to_le_bytes());
    assert!(!pe_header_admitted(&zero_alignment));
    assert_eq!(parse_iat(&zero_alignment).err(), Some(ErrorKind::UnsupportedFormat));
    assert_eq!(parse_eat(&zero_alignment).err(), Some(ErrorKind::UnsupportedFormat));
    assert_eq!(PEBinary::new(zero_alignment.clone()).err(), Some(ErrorKind::UnsupportedFormat));
    assert_eq!(from_bytes(zero_alignment, &vec![]).err(), Some(ErrorKind::UnsupportedFormat));

    // a section that ends beyond 32 bits: virtual size at 0x150, address at 0x154
    let mut wide = image.clone();
    wide[0x150..0x154].copy_from_slice(&0xffff_f000u32.to_le_bytes());
    assert!(!pe_header_admitted(&wide));
    assert_eq!(PEBinary::new(wide).err(), Some(ErrorKind::UnsupportedFormat));

    // headers that lie outside the bytes, or no DOS magic
    assert!(!pe_header_admitted(b"MZ"));
    assert!(!pe_header_admitted(&image[..0x40]));
    assert!(!pe_header_admitted(&image[..0x150]));
    let mut far = image.clone();
    far[0x3c..0x40].copy_from_slice(&0xffff_fff0u32.to_le_bytes());
    assert!(!pe_header_admitted(&far));
    let mut other = image.clone();
    other[0] = b'N';
    assert!(!pe_header_admitted(&other));
    assert_eq!(PEBinary::new(other).err(), Some(ErrorKind::UnsupportedFormat));
}

/// Gives a 64-bit image a debug directory with a CodeView record of `size`
/// bytes at file offset `pointer`.
fn with_debug_record(mut image: Vec<u8>, pointer: u32, size: u32) -> Vec<u8> {
    let directory: u32 = 0x9e000;
    image[0xf8..0xfc].copy_from_slice(&directory.to_le_bytes());
    image[0xfc..0x100].copy_from_slice(&28u32.to_le_bytes());
    let mut entry = vec![0u8; 28];
    entry[12..16].copy_from_slice(&2u32.to_le_bytes());
    entry[16..20].copy_from_slice(&size.to_le_bytes());
    entry[24..28].copy_from_slice(&pointer.to_le_bytes());
    put(&mut image, directory, &entry);
    let at = pointer as usize;
    image[at..at + 4].copy_from_slice(b"RSDS");
    image
}

#[test]
fn debug_record_must_lie_in_the_file() {
    let len = kernel32_64().len() as u32;
    // a record with a file name of eight bytes, well within the file
    let image = with_debug_record(kernel32_64(), 0x9f000, 32);
    assert!(pe_header_admitted(&image));
    let pe = PEBinary::new(image).unwrap();
    assert_eq!(pe.get_sym_addr("iat.IdnToAscii"), Ok(0x81678));
    // a record whose file name runs over the end of the file
    let image = with_debug_record(kernel32_64(), len - 28, 124);
    assert!(!pe_header_admitted(&image));
    assert_eq!(PEBinary::new(image.clone()).err(), Some(ErrorKind::UnsupportedFormat));
    assert_eq!(from_bytes(image, &vec![]).err(), Some(ErrorKind::UnsupportedFormat));
    // the same record, ending exactly at the end of the file
    let image = with_debug_record(kernel32_64(), len - 124, 124);
    assert!(pe_header_admitted(&image));
    assert!(PEBinary::new(image).is_ok());
    // a record of another kind is not looked into
    let mut image = with_debug_record(kernel32_64(), len - 28, 124);
    image[0x9d40c..0x9d410].copy_from_slice(&4u32.to_le_bytes());
    assert!(pe_header_admitted(&image));
    assert!(PEBinary::new(image).is_ok());
}

#[test]
fn exports_stand_under_their_prefix() {
    let image = build(
        true,
        &[Export::Named("Alpha", 0x2000), Export::Named("Beta", 0x3000)],
        &[("other.dll", 0x80e60, "Gamma")],
    );
    let pe = PEBinary::new(image).unwrap();
    for name in pe.eat.keys() {
        let key = format!("eat.{}", name);
        assert_eq!(pe.symbols.get(&key), pe.eat.get(&name));
    }
    for name in pe.iat.keys() {
        let key = format!("iat.{}", name);
        assert_eq!(pe.symbols.get(&key), pe.iat.get(&name));
    }
    assert_eq!(pe.symbols.get("eat.Alpha"), Some(&0x2000));
    assert_eq!(pe.symbols.get("Beta"), Some(&0x3000));
}

#[test]
fn a_later_export_named_as_a_prefixed_key_takes_it() {
    let image =
        build(true, &[Export::Named("Alpha", 0x2000), Export::Named("eat.Alpha", 0x3000)], &[]);
    let pe = PEBinary::new(image).unwrap();
    assert_eq!(pe.eat.get("Alpha"), Some(&0x2000));
    assert_eq!(pe.eat.get("eat.Alpha"), Some(&0x3000));
    assert_eq!(pe.symbols.get("eat.Alpha"), Some(&0x3000));
    assert_eq!(pe.symbols.get("Alpha"), Some(&0x2000));
    assert_eq!(pe.symbols.get("eat.eat.Alpha"), Some(&0x3000));
}
