//! What the object parser reads out of an image, as plain values.
//!
//! The parsing of ELF and PE structures is goblin's work.  This module holds
//! the values that the rest of the library computes with, and the functions
//! that obtain them from goblin.  What goblin returns is not re-derived here:
//! each of these functions is trusted to hand on goblin's result.

use crate::misc::packing::Endian;
use goblin::container;
use goblin::elf::reloc::RelocSection;
use goblin::elf::sym::Symtab;
use goblin::pe::export::Reexport;
use goblin::strtab::Strtab;
use vstd::prelude::*;

verus! {

/// What a string table holds at an offset.
pub enum NameLookup {
    /// The offset lies outside the table.
    Missing,
    /// The bytes at the offset are not UTF-8.
    Invalid,
    /// The string that starts at the offset.
    Name(String),
}

/// The model of a [`NameLookup`].
pub enum NameView {
    Missing,
    Invalid,
    Name(Seq<char>),
}

impl View for NameLookup {
    type V = NameView;

    open spec fn view(&self) -> NameView {
        match self {
            NameLookup::Missing => NameView::Missing,
            NameLookup::Invalid => NameView::Invalid,
            NameLookup::Name(s) => NameView::Name(s@),
        }
    }
}

/// An ELF section header, with its name looked up in the section name table.
pub struct SectionRef {
    pub name: NameLookup,
    /// `sh_type`
    pub kind: u32,
    /// `sh_link`
    pub link: u32,
    /// `sh_addr`
    pub addr: u64,
    /// `sh_offset`
    pub offset: u64,
    /// `sh_size`
    pub size: u64,
    /// `sh_entsize`
    pub entsize: u64,
}

/// The model of a [`SectionRef`].
pub struct SectionView {
    pub name: NameView,
    pub kind: u32,
    pub link: u32,
    pub addr: u64,
    pub offset: u64,
    pub size: u64,
    pub entsize: u64,
}

impl View for SectionRef {
    type V = SectionView;

    open spec fn view(&self) -> SectionView {
        SectionView {
            name: self.name@,
            kind: self.kind,
            link: self.link,
            addr: self.addr,
            offset: self.offset,
            size: self.size,
            entsize: self.entsize,
        }
    }
}

impl SectionRef {
    /// A section header from its parts.
    pub fn new(
        name: NameLookup,
        kind: u32,
        link: u32,
        addr: u64,
        offset: u64,
        size: u64,
        entsize: u64,
    ) -> (s: SectionRef)
        ensures
            s.name == name,
            s.kind == kind,
            s.link == link,
            s.addr == addr,
            s.offset == offset,
            s.size == size,
            s.entsize == entsize,
    {
        SectionRef { name, kind, link, addr, offset, size, entsize }
    }
}

/// The models of a sequence of sections.
pub open spec fn section_views(sections: Seq<SectionRef>) -> Seq<SectionView> {
    sections.map_values(|s: SectionRef| s@)
}

/// A dynamic entry: `d_tag` and `d_val`.
#[derive(Clone, Copy, Debug, PartialEq, Eq, Structural)]
pub struct DynEntry {
    pub tag: u64,
    pub val: u64,
}

/// An ELF image as far as symbol resolution reads it.
pub struct ElfImage {
    /// ELF class: 64-bit or 32-bit.
    pub is_64: bool,
    /// Data encoding.
    pub little_endian: bool,
    /// `e_machine`
    pub machine: u16,
    /// `p_type` of each program header.
    pub program_types: Vec<u32>,
    pub sections: Vec<SectionRef>,
    /// The entries of the dynamic segment, if there is one.
    pub dynamic: Option<Vec<DynEntry>>,
}

/// The model of an [`ElfImage`].
pub struct ElfView {
    pub is_64: bool,
    pub little_endian: bool,
    pub machine: u16,
    pub program_types: Seq<u32>,
    pub sections: Seq<SectionView>,
    pub dynamic: Option<Seq<DynEntry>>,
}

impl View for ElfImage {
    type V = ElfView;

    open spec fn view(&self) -> ElfView {
        ElfView {
            is_64: self.is_64,
            little_endian: self.little_endian,
            machine: self.machine,
            program_types: self.program_types@,
            sections: section_views(self.sections@),
            dynamic: match self.dynamic {
                Some(d) => Some(d@),
                None => None,
            },
        }
    }
}

/// A symbol table entry: the offset of its name in the string table, and its value.
#[derive(Clone, Copy, Debug, PartialEq, Eq, Structural)]
pub struct SymbolRecord {
    /// `st_name`
    pub name_offset: usize,
    /// `st_value`
    pub value: u64,
}

/// A relocation: the index of its symbol, and the place it patches.
#[derive(Clone, Copy, Debug, PartialEq, Eq, Structural)]
pub struct Relocation {
    /// `r_sym`
    pub symbol: usize,
    /// `r_offset`
    pub offset: u64,
}

/// The width of the structures of an image.
#[derive(Clone, Copy, Debug, PartialEq, Eq, Structural)]
pub enum Container {
    /// 32-bit structures.
    Little,
    /// 64-bit structures.
    Big,
}

/// How the tables of an image are laid out: structure width and byte order.
#[derive(Clone, Copy, Debug, PartialEq, Eq, Structural)]
pub struct BinaryCtx {
    pub container: Container,
    pub le: Endian,
}

/// A PE import: its name and the file offset of its thunk.
pub struct ImportEntry {
    pub name: String,
    pub offset: u64,
}

/// A PE export: its name if it has one, the ordinal it forwards to if it is a
/// forwarder by ordinal, and its relative virtual address.
pub struct ExportEntry {
    pub name: Option<String>,
    pub ordinal: Option<usize>,
    pub rva: u64,
}

/// The model of an [`ExportEntry`].
pub struct ExportView {
    pub name: Option<Seq<char>>,
    pub ordinal: Option<usize>,
    pub rva: u64,
}

impl View for ExportEntry {
    type V = ExportView;

    open spec fn view(&self) -> ExportView {
        ExportView {
            name: match self.name {
                Some(n) => Some(n@),
                None => None,
            },
            ordinal: self.ordinal,
            rva: self.rva,
        }
    }
}

/// A PE image as far as symbol resolution reads it.
pub struct PeImage {
    pub imports: Vec<ImportEntry>,
    pub exports: Vec<ExportEntry>,
}

/// The model of a [`PeImage`]: imports as `(name, offset)` pairs, and exports.
pub struct PeView {
    pub imports: Seq<(Seq<char>, u64)>,
    pub exports: Seq<ExportView>,
}

impl View for PeImage {
    type V = PeView;

    open spec fn view(&self) -> PeView {
        PeView {
            imports: self.imports@.map_values(|i: ImportEntry| (i.name@, i.offset)),
            exports: self.exports@.map_values(|e: ExportEntry| e@),
        }
    }
}

/// What a byte string is taken for.
pub enum ObjectView {
    Elf(ElfView),
    Pe(PeView),
    /// Neither, or an image that does not parse.
    Other,
}

/// The result of `goblin::elf::Elf::parse` on `raw`, in the library's model;
/// `None` where it fails.
pub uninterp spec fn goblin_elf(raw: Seq<u8>) -> Option<ElfView>;

/// The result of `goblin::pe::PE::parse` on `raw`, in the library's model;
/// `None` where it fails.
pub uninterp spec fn goblin_pe(raw: Seq<u8>) -> Option<PeView>;

/// The 16-bit number at `at`, least significant byte first.
pub open spec fn le_u16(raw: Seq<u8>, at: int) -> int {
    raw[at] + 256 * raw[at + 1]
}

/// The 32-bit number at `at`, least significant byte first.
pub open spec fn le_u32(raw: Seq<u8>, at: int) -> int {
    raw[at] + 256 * raw[at + 1] + 65536 * raw[at + 2] + 16777216 * raw[at + 3]
}

/// The bytes start with the ELF magic and are long enough to be classified.
pub open spec fn has_elf_magic(raw: Seq<u8>) -> bool {
    raw.len() >= 16 && raw[0] == 0x7f && raw[1] == 0x45 && raw[2] == 0x4c && raw[3] == 0x46
}

/// Where the PE header starts: the number at offset `0x3c` of the DOS header.
pub open spec fn pe_pointer(raw: Seq<u8>) -> int {
    le_u32(raw, 0x3c)
}

/// The number of sections that the COFF header names.
pub open spec fn pe_section_count(raw: Seq<u8>) -> int {
    le_u16(raw, pe_pointer(raw) + 6)
}

/// The size of the optional header that the COFF header names.
pub open spec fn pe_optional_size(raw: Seq<u8>) -> int {
    le_u16(raw, pe_pointer(raw) + 20)
}

/// `FileAlignment` of the optional header.
pub open spec fn pe_file_alignment(raw: Seq<u8>) -> int {
    le_u32(raw, pe_pointer(raw) + 60)
}

/// Where the section table starts.
pub open spec fn pe_section_table(raw: Seq<u8>) -> int {
    pe_pointer(raw) + 24 + pe_optional_size(raw)
}

/// The end of section `i` in memory, virtual address plus virtual size, fits
/// in 32 bits.
pub open spec fn pe_section_fits(raw: Seq<u8>, i: int) -> bool {
    le_u32(raw, pe_section_table(raw) + 40 * i + 8) + le_u32(
        raw,
        pe_section_table(raw) + 40 * i + 12,
    ) <= u32::MAX
}

/// `x` rounded up to a multiple of 4096, as the parser rounds sizes.
pub open spec fn page_round(x: u64) -> u64 {
    ((x + 0xfff) as u64) & !0xfffu64
}

/// The number of bytes of section `i` that the parser maps, for the file
/// alignment `alignment`: the raw size, aligned, bounded by the raw size and
/// the virtual size rounded up to pages.
pub open spec fn pe_section_span(raw: Seq<u8>, i: int, alignment: u64) -> u64 {
    let entry = pe_section_table(raw) + 40 * i;
    let virtual_size = le_u32(raw, entry + 8) as u64;
    let raw_size = le_u32(raw, entry + 16) as u64;
    let pointer = le_u32(raw, entry + 20) as u64;
    let aligned = ((pointer + raw_size + alignment - 1) as u64) & !((alignment - 1) as u64);
    let read = if aligned < page_round(raw_size) {
        aligned
    } else {
        page_round(raw_size)
    };
    if virtual_size == 0 || read < page_round(virtual_size) {
        read
    } else {
        page_round(virtual_size)
    }
}

/// Where in the file the parser finds the relative virtual address `rva`: in
/// the first section from `from` on that maps it.
pub open spec fn pe_offset(raw: Seq<u8>, rva: u64, from: int) -> Option<u64>
    decreases pe_section_count(raw) - from,
{
    if from < 0 || from >= pe_section_count(raw) {
        None
    } else {
        let entry = pe_section_table(raw) + 40 * from;
        let address = le_u32(raw, entry + 12) as u64;
        let pointer = le_u32(raw, entry + 20) as u64;
        if address <= rva < address + pe_section_span(raw, from, pe_file_alignment(raw) as u64) {
            Some((rva - address + (pointer & !0x1ffu64)) as u64)
        } else {
            pe_offset(raw, rva, from + 1)
        }
    }
}

/// Where the data directories start: behind the fixed part of the optional
/// header, which is longer in the 64-bit format.
pub open spec fn pe_directories(raw: Seq<u8>) -> int {
    pe_pointer(raw) + 24 + (if le_u16(raw, pe_pointer(raw) + 24) == 0x20b {
        112int
    } else {
        96int
    })
}

/// The image has a debug directory that the parser reads: the optional header
/// has one of the two formats and names more than six data directories, and
/// the seventh is not empty.
pub open spec fn pe_has_debug(raw: Seq<u8>) -> bool {
    &&& pe_optional_size(raw) > 0
    &&& le_u16(raw, pe_pointer(raw) + 24) == 0x20b || le_u16(raw, pe_pointer(raw) + 24) == 0x10b
    &&& pe_directories(raw) + 56 <= raw.len()
    &&& 6 < le_u32(raw, pe_directories(raw) - 4) <= 16
    &&& le_u32(raw, pe_directories(raw) + 48) != 0 || le_u32(raw, pe_directories(raw) + 52) != 0
}

/// The debug record at file offset `at`, where it is a CodeView record of
/// plausible size with the PDB 7.0 signature, lies within the bytes.  The
/// parser slices the file name out of such a record without a check.
pub open spec fn pe_record_fits(raw: Seq<u8>, at: int) -> bool {
    at + 28 <= raw.len() && le_u32(raw, at + 12) == 2 && 24 <= le_u32(raw, at + 16) <= 1048
        && le_u32(raw, at + 24) + 4 <= raw.len() && le_u32(raw, le_u32(raw, at + 24))
        == 0x5344_5352 ==> le_u32(raw, at + 24) + le_u32(raw, at + 16) <= raw.len()
}

/// The debug record of the image, if it has one that the parser finds, lies
/// within the bytes.
pub open spec fn pe_debug_fits(raw: Seq<u8>) -> bool {
    pe_has_debug(raw) ==> match pe_offset(raw, le_u32(raw, pe_directories(raw) + 48) as u64, 0) {
        Some(at) => pe_record_fits(raw, at as int),
        None => true,
    }
}

/// The bytes can be handed to the PE parser, on a machine with addresses of
/// 64 bits: they start with the DOS magic, the headers and the section table
/// lie within them, the file alignment is not zero, no section ends beyond
/// 32 bits, and the debug record lies within them.  On what this leaves out
/// the parser either fails or computes with numbers that it has not checked.
pub open spec fn pe_admitted(raw: Seq<u8>) -> bool {
    &&& usize::MAX > 0xffff_ffff
    &&& raw.len() >= 0x40
    &&& raw[0] == 0x4d
    &&& raw[1] == 0x5a
    &&& pe_pointer(raw) + 24 <= raw.len()
    &&& pe_optional_size(raw) > 0 ==> pe_pointer(raw) + 64 <= raw.len() && pe_file_alignment(raw)
        != 0
    &&& pe_section_table(raw) + 40 * pe_section_count(raw) <= raw.len()
    &&& forall|i: int| 0 <= i < pe_section_count(raw) ==> #[trigger] pe_section_fits(raw, i)
    &&& pe_debug_fits(raw)
}

/// The bytes can be handed to the ELF parser, on a machine with addresses of
/// 64 bits: they start with the ELF magic.  With narrower addresses the
/// parser adds one to a symbol index and multiplies a table size that it
/// reads from the file, and either may not fit.
pub open spec fn elf_admitted(raw: Seq<u8>) -> bool {
    usize::MAX > 0xffff_ffff && has_elf_magic(raw)
}

/// What a byte string is taken for: a PE image where it starts with the DOS
/// magic, an ELF image where it starts with the ELF magic, as far as the
/// parsers can be given it and goblin parses it.
pub open spec fn object_view(raw: Seq<u8>) -> ObjectView {
    if pe_admitted(raw) {
        match goblin_pe(raw) {
            Some(pe) => ObjectView::Pe(pe),
            None => ObjectView::Other,
        }
    } else if elf_admitted(raw) {
        match goblin_elf(raw) {
            Some(elf) => ObjectView::Elf(elf),
            None => ObjectView::Other,
        }
    } else {
        ObjectView::Other
    }
}

/// The symbols that `goblin::elf::sym::Symtab::parse` reads: `count` entries
/// at `offset`, or `None` where it fails.
pub uninterp spec fn goblin_symtab(raw: Seq<u8>, offset: usize, count: usize, ctx: BinaryCtx) -> Option<
    Seq<SymbolRecord>,
>;

/// The relocations that `goblin::elf::reloc::RelocSection::parse` reads from
/// `size` bytes at `offset`, or `None` where it fails.
pub uninterp spec fn goblin_relocs(
    raw: Seq<u8>,
    offset: usize,
    size: usize,
    is_rela: bool,
    ctx: BinaryCtx,
) -> Option<Seq<Relocation>>;

/// Whether `goblin::strtab::Strtab::parse` accepts the `len` bytes at `offset`
/// as a NUL-delimited string table.
pub uninterp spec fn goblin_strtab_parses(raw: Seq<u8>, offset: usize, len: usize) -> bool;

/// What `goblin::strtab::Strtab::get` finds at `at` in that string table.
pub uninterp spec fn goblin_strtab_get(raw: Seq<u8>, offset: usize, len: usize, at: usize) -> NameView;

/// goblin's error type, `goblin::error::Error`.  Its values are carried
/// through unopened.
#[verifier::external_type_specification]
#[verifier::external_body]
pub struct ExGoblinError(goblin::error::Error);

/// What a string table lookup of goblin says, as a [`NameLookup`].
pub(crate) fn name_lookup(found: Option<Result<&str, goblin::error::Error>>) -> (name: NameLookup)
    ensures
        name@ == match found {
            None => NameView::Missing,
            Some(Err(_)) => NameView::Invalid,
            Some(Ok(s)) => NameView::Name(s@),
        },
{
    match found {
        None => NameLookup::Missing,
        Some(Err(_)) => NameLookup::Invalid,
        Some(Ok(s)) => NameLookup::Name(s.to_owned()),
    }
}

/// goblin's layout context, `goblin::container::Ctx`.  Its values are carried
/// through unopened.
#[verifier::external_type_specification]
#[verifier::external_body]
pub struct ExGoblinCtx(goblin::container::Ctx);

/// Calls `goblin::container::Ctx::new` with the structure width and the byte
/// order that `ctx` names.  Nothing is claimed of the value: it is only handed
/// on to goblin's table parsers.
#[verifier::external_body]
fn goblin_ctx(ctx: BinaryCtx) -> goblin::container::Ctx {
    let container = match ctx.container {
        Container::Little => container::Container::Little,
        Container::Big => container::Container::Big,
    };
    let le = match ctx.le {
        Endian::Little => container::Endian::Little,
        Endian::Big => container::Endian::Big,
    };
    container::Ctx::new(container, le)
}

/// Calls `goblin::elf::Elf::parse` and hands out the image's class, byte
/// order, machine, program header types, section headers with their names
/// (looked up with `Strtab::get` in the section name table), and dynamic
/// entries.  The contract claims that these are what the parser returns for
/// `raw`, and that `None` comes exactly when the parser fails.  Where an
/// address has 32 bits the parser computes with numbers of the file that may
/// not fit: `requires` leaves such machines out.
#[verifier::external_body]
fn parse_elf(raw: &[u8]) -> (image: Option<ElfImage>)
    requires
        elf_admitted(raw@),
    ensures
        match image {
            Some(img) => goblin_elf(raw@) == Some(img@),
            None => goblin_elf(raw@) is None,
        },
{
    let elf = goblin::elf::Elf::parse(raw).ok()?;
    let names = &elf.shdr_strtab;
    Some(ElfImage {
        is_64: elf.is_64,
        little_endian: elf.little_endian,
        machine: elf.header.e_machine,
        program_types: elf.program_headers.iter().map(|p| p.p_type).collect(),
        sections: elf.section_headers.iter().map(|s| SectionRef::new(name_lookup(names.get(s.sh_name)), s.sh_type, s.sh_link, s.sh_addr, s.sh_offset, s.sh_size, s.sh_entsize)).collect(),
        dynamic: elf.dynamic.as_ref().map(|d| d.dyns.iter().map(|e| DynEntry { tag: e.d_tag, val: e.d_val }).collect()),
    })
}

/// Calls `goblin::pe::PE::parse` and hands out the image's imports (name and
/// thunk offset) and exports (name, forwarded ordinal, relative virtual
/// address) in the parser's order.  The contract claims that these are what
/// the parser returns for `raw`, and that `None` comes exactly when the
/// parser fails.  The parser does not look at the DOS magic, subtracts one
/// from the file alignment and adds the address and the size of a section
/// without a check: `requires` leaves out the bytes on which that goes wrong.
#[verifier::external_body]
fn parse_pe(raw: &[u8]) -> (image: Option<PeImage>)
    requires
        pe_admitted(raw@),
    ensures
        match image {
            Some(img) => goblin_pe(raw@) == Some(img@),
            None => goblin_pe(raw@) is None,
        },
{
    let pe = goblin::pe::PE::parse(raw).ok()?;
    Some(PeImage {
        imports: pe.imports.iter().map(|i| ImportEntry { name: i.name.to_string(), offset: i.offset as u64 }).collect(),
        exports: pe.exports.iter().map(|e| ExportEntry { name: e.name.map(|n| n.to_string()), ordinal: match e.reexport {
            Some(Reexport::DLLOrdinal { ordinal, .. }) => Some(ordinal),
            _ => None,
        }, rva: e.rva as u64 }).collect(),
    })
}

fn u16_at(raw: &[u8], at: usize) -> (v: u16)
    requires
        at + 2 <= raw@.len(),
    ensures
        v == le_u16(raw@, at as int),
{
    raw[at] as u16 + 256 * (raw[at + 1] as u16)
}

fn u32_at(raw: &[u8], at: usize) -> (v: u32)
    requires
        at + 4 <= raw@.len(),
    ensures
        v == le_u32(raw@, at as int),
{
    raw[at] as u32 + 256 * (raw[at + 1] as u32) + 65536 * (raw[at + 2] as u32) + 16777216 * (
    raw[at + 3] as u32)
}

fn round_to_page(x: u64) -> (rounded: u64)
    requires
        x <= 0xffff_ffff,
    ensures
        rounded == page_round(x),
        rounded <= x + 0xfff,
{
    let padded = x + 0xfff;
    assert(padded & !0xfffu64 <= padded) by (bit_vector);
    padded & !0xfff
}

fn section_span(raw: &[u8], entry: usize, alignment: u64, Ghost(i): Ghost<int>) -> (span: u64)
    requires
        entry + 40 <= raw@.len() <= usize::MAX,
        entry == pe_section_table(raw@) + 40 * i,
        1 <= alignment <= 0xffff_ffff,
    ensures
        span == pe_section_span(raw@, i, alignment),
        span <= 0x1_0000_0fff,
{
    let virtual_size = u32_at(raw, entry + 8) as u64;
    let raw_size = u32_at(raw, entry + 16) as u64;
    let pointer = u32_at(raw, entry + 20) as u64;
    let total = pointer + raw_size + alignment - 1;
    let mask = !(alignment - 1);
    assert(total & mask <= total) by (bit_vector);
    let aligned = total & mask;
    let rounded = round_to_page(raw_size);
    let read = if aligned < rounded {
        aligned
    } else {
        rounded
    };
    if virtual_size == 0 {
        read
    } else {
        let bound = round_to_page(virtual_size);
        if read < bound {
            read
        } else {
            bound
        }
    }
}

fn offset_of(raw: &[u8], rva: u64, table: u64, count: u64, alignment: u64) -> (found: Option<u64>)
    requires
        rva <= 0xffff_ffff,
        count == pe_section_count(raw@),
        table == pe_section_table(raw@),
        table + 40 * count <= raw@.len(),
        alignment == pe_file_alignment(raw@),
        1 <= alignment <= 0xffff_ffff,
    ensures
        found == pe_offset(raw@, rva, 0),
        found is Some ==> found.unwrap() <= 0x1_ffff_ffff,
{
    let len = raw.len();
    let mut i: u64 = 0;
    while i < count
        invariant
            i <= count,
            len == raw@.len(),
            rva <= 0xffff_ffff,
            count == pe_section_count(raw@),
            table == pe_section_table(raw@),
            table + 40 * count <= raw@.len(),
            alignment == pe_file_alignment(raw@),
            1 <= alignment <= 0xffff_ffff,
            pe_offset(raw@, rva, 0) == pe_offset(raw@, rva, i as int),
        decreases count - i,
    {
        let entry = (table + 40 * i) as usize;
        let address = u32_at(raw, entry + 12) as u64;
        let pointer = u32_at(raw, entry + 20) as u64;
        let span = section_span(raw, entry, alignment, Ghost(i as int));
        if address <= rva && rva < address + span {
            assert(pointer & !0x1ffu64 <= pointer) by (bit_vector);
            return Some(rva - address + (pointer & !0x1ff));
        }
        i += 1;
    }
    None
}

fn record_fits(raw: &[u8], at: u64) -> (fits: bool)
    requires
        at <= 0x1_ffff_ffff,
    ensures
        fits == pe_record_fits(raw@, at as int),
{
    let len = raw.len() as u64;
    if at + 28 > len {
        return true;
    }
    let entry = at as usize;
    let kind = u32_at(raw, entry + 12);
    let size = u32_at(raw, entry + 16) as u64;
    let pointer = u32_at(raw, entry + 24) as u64;
    if kind != 2 || size < 24 || size > 1048 || pointer + 4 > len {
        return true;
    }
    if u32_at(raw, pointer as usize) != 0x5344_5352 {
        return true;
    }
    pointer + size <= len
}

/// Whether the bytes can be handed to the PE parser.
pub fn pe_header_admitted(raw: &[u8]) -> (admitted: bool)
    ensures
        admitted == pe_admitted(raw@),
{
    let len = raw.len();
    if usize::MAX as u64 <= 0xffff_ffff {
        return false;
    }
    if len < 0x40 || raw[0] != 0x4d || raw[1] != 0x5a {
        return false;
    }
    let pointer = u32_at(raw, 0x3c) as u64;
    if pointer + 24 > len as u64 {
        return false;
    }
    let at = pointer as usize;
    let count = u16_at(raw, at + 6) as u64;
    let optional = u16_at(raw, at + 20) as u64;
    if optional > 0 {
        if pointer + 64 > len as u64 || u32_at(raw, at + 60) == 0 {
            return false;
        }
    }
    let table = pointer + 24 + optional;
    if table + 40 * count > len as u64 {
        return false;
    }
    let mut i: u64 = 0;
    while i < count
        invariant
            i <= count,
            len == raw@.len(),
            count == pe_section_count(raw@),
            table == pe_section_table(raw@),
            table + 40 * count <= raw@.len(),
            forall|j: int| 0 <= j < i ==> #[trigger] pe_section_fits(raw@, j),
        decreases count - i,
    {
        let entry = (table + 40 * i) as usize;
        let size = u32_at(raw, entry + 8) as u64;
        let address = u32_at(raw, entry + 12) as u64;
        if size + address > 0xffff_ffff {
            assert(!pe_section_fits(raw@, i as int));
            return false;
        }
        i += 1;
    }
    if optional == 0 {
        return true;
    }
    let magic = u16_at(raw, at + 24);
    if magic != 0x20b && magic != 0x10b {
        return true;
    }
    let directories = pointer + 24 + if magic == 0x20b {
        112
    } else {
        96
    };
    if directories + 56 > len as u64 {
        return true;
    }
    let named = u32_at(raw, (directories - 4) as usize);
    let rva = u32_at(raw, (directories + 48) as usize);
    let size = u32_at(raw, (directories + 52) as usize);
    if named <= 6 || named > 16 || (rva == 0 && size == 0) {
        return true;
    }
    match offset_of(raw, rva as u64, table, count, u32_at(raw, at + 60) as u64) {
        Some(found) => record_fits(raw, found),
        None => true,
    }
}

/// Whether the bytes can be handed to the ELF parser.
pub fn elf_header_admitted(raw: &[u8]) -> (admitted: bool)
    ensures
        admitted == elf_admitted(raw@),
{
    if usize::MAX as u64 <= 0xffff_ffff {
        return false;
    }
    raw.len() >= 16 && raw[0] == 0x7f && raw[1] == 0x45 && raw[2] == 0x4c && raw[3] == 0x46
}

/// Reads the ELF image in `raw`, if it is one that the parser can be given.
pub(crate) fn read_elf(raw: &[u8]) -> (image: Option<ElfImage>)
    ensures
        match image {
            Some(img) => object_view(raw@) == ObjectView::Elf(img@),
            None => !(object_view(raw@) is Elf),
        },
{
    if elf_header_admitted(raw) {
        parse_elf(raw)
    } else {
        None
    }
}

/// Reads the PE image in `raw`, if it is one that the parser can be given.
pub(crate) fn read_pe(raw: &[u8]) -> (image: Option<PeImage>)
    ensures
        match image {
            Some(img) => object_view(raw@) == ObjectView::Pe(img@),
            None => !(object_view(raw@) is Pe),
        },
{
    if pe_header_admitted(raw) {
        parse_pe(raw)
    } else {
        None
    }
}

/// Calls `goblin::elf::sym::Symtab::parse` for `count` symbols at `offset` and
/// hands out the name offset and the value of each, in table order.  `None`
/// comes exactly when the parser fails.
#[verifier::external_body]
pub(crate) fn read_symbols(raw: &[u8], offset: usize, count: usize, ctx: BinaryCtx) -> (symbols: Option<
    Vec<SymbolRecord>,
>)
    ensures
        match symbols {
            Some(s) => goblin_symtab(raw@, offset, count, ctx) == Some(s@),
            None => goblin_symtab(raw@, offset, count, ctx) is None,
        },
{
    let table = Symtab::parse(raw, offset, count, goblin_ctx(ctx)).ok()?;
    Some(table.iter().map(|s| SymbolRecord { name_offset: s.st_name, value: s.st_value }).collect())
}

/// Calls `goblin::elf::reloc::RelocSection::parse` for `size` bytes at
/// `offset` and hands out the symbol index and the offset of each relocation,
/// in section order.  `None` comes exactly when the parser fails.
#[verifier::external_body]
pub(crate) fn read_relocations(
    raw: &[u8],
    offset: usize,
    size: usize,
    is_rela: bool,
    ctx: BinaryCtx,
) -> (relocations: Option<Vec<Relocation>>)
    ensures
        match relocations {
            Some(r) => goblin_relocs(raw@, offset, size, is_rela, ctx) == Some(r@),
            None => goblin_relocs(raw@, offset, size, is_rela, ctx) is None,
        },
{
    let section = RelocSection::parse(raw, offset, size, is_rela, goblin_ctx(ctx)).ok()?;
    Some(section.iter().map(|r| Relocation { symbol: r.r_sym, offset: r.r_offset }).collect())
}

/// Calls `goblin::strtab::Strtab::parse` for the `len` bytes at `offset`, with
/// NUL as the delimiter, and then `Strtab::get` at each of `at`.  `None` comes
/// exactly when the table does not parse; otherwise the `i`-th lookup is what
/// `get` finds at `at[i]`.
#[verifier::external_body]
pub(crate) fn read_names(raw: &[u8], offset: usize, len: usize, at: &Vec<usize>) -> (names: Option<
    Vec<NameLookup>,
>)
    ensures
        names is Some <==> goblin_strtab_parses(raw@, offset, len),
        match names {
            Some(n) => n.len() == at.len() && forall|i: int|
                0 <= i < n.len() ==> (#[trigger] n[i])@ == goblin_strtab_get(
                    raw@,
                    offset,
                    len,
                    at[i],
                ),
            None => true,
        },
{
    let table = Strtab::parse(raw, offset, len, 0).ok()?;
    Some(at.iter().map(|i| name_lookup(table.get(*i))).collect())
}

} // verus!
