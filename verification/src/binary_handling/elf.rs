//! Symbol resolution for ELF images: the global offset table, and the symbol
//! map that unifies static symbols, PLT stubs and GOT slots.

use crate::binary_handling::image::{
    object_view, goblin_relocs, goblin_strtab_get, goblin_strtab_parses, goblin_symtab,
    read_elf, read_names, read_relocations, read_symbols, BinaryCtx, Container, ElfImage,
    ElfView, NameLookup, NameView, ObjectView, Relocation, SectionRef, SectionView,
    SymbolRecord,
};
use crate::binary_handling::laws::{
    closed_under_prefix, lemma_got_prefix, lemma_got_sections_nonzero, lemma_plt_prefix,
    lemma_symbols_nonzero, nonzero, offsets_nonzero, sections_nonzero,
};
use crate::binary_handling::plt::{
    build_plt, outcome_views, plan_of, plan_of_raw, plt_of, stubs_observed, PltConfig,
    StubOutcome,
};
use crate::binary_handling::Binary;
use crate::error::ErrorKind;
use crate::misc::packing::Endian;
use crate::name_map::{has_name, lemma_map_of_dom, upsert, NameMap};
use vstd::prelude::*;
use vstd::string::StringExecFns;

verus! {

/// Program header type of the segment that names the dynamic linker.
pub const PT_INTERP: u32 = 3;

/// Dynamic tag of the address of the global offset table.
pub const DT_PLTGOT: u64 = 3;

/// The section index that stands for "no section".
pub const SHN_UNDEF: u32 = 0;

/// Section type: symbol table.
pub const SHT_SYMTAB: u32 = 2;

/// Section type: relocations with addends.
pub const SHT_RELA: u32 = 4;

/// Section type: relocations without addends.
pub const SHT_REL: u32 = 9;

/// Section type: dynamic symbol table.
pub const SHT_DYNSYM: u32 = 11;

/// Section type: Solaris-style local dynamic symbol table.
pub const SHT_SUNW_LDYNSYM: u32 = 0x6fff_fff3;

/// A map from symbol names to addresses.
pub type SymbolMap = NameMap<u64>;

/// The entries of a symbol map, in insertion order.
pub type Entries = Seq<(Seq<char>, u64)>;

/// A symbol table with the name of each symbol looked up.
pub struct SymbolTable {
    pub symbols: Vec<SymbolRecord>,
    /// `names[i]` is what the string table holds at `symbols[i].name_offset`.
    pub names: Vec<NameLookup>,
}

/// The model of a [`SymbolTable`].
pub struct SymbolTableView {
    pub symbols: Seq<SymbolRecord>,
    pub names: Seq<NameView>,
}

impl View for SymbolTable {
    type V = SymbolTableView;

    open spec fn view(&self) -> SymbolTableView {
        SymbolTableView {
            symbols: self.symbols@,
            names: Seq::new(self.names@.len(), |i: int| self.names@[i]@),
        }
    }
}

impl SymbolTableView {
    /// Each symbol has its name lookup.
    pub open spec fn wf(self) -> bool {
        self.symbols.len() == self.names.len()
    }
}

/// The layout of the tables of an image: 64-bit images have the wide
/// structures, and the byte order is that of the image.
pub open spec fn ctx_of(img: ElfView) -> BinaryCtx {
    BinaryCtx {
        container: if img.is_64 {
            Container::Big
        } else {
            Container::Little
        },
        le: if img.little_endian {
            Endian::Little
        } else {
            Endian::Big
        },
    }
}

/// The layout of the tables of `image`.
pub fn binary_ctx(image: &ElfImage) -> (ctx: BinaryCtx)
    ensures
        ctx == ctx_of(image@),
{
    BinaryCtx {
        container: if image.is_64 {
            Container::Big
        } else {
            Container::Little
        },
        le: if image.little_endian {
            Endian::Little
        } else {
            Endian::Big
        },
    }
}

/// The layout of the tables of the ELF image in `raw_data`.
pub fn get_binary_ctx(raw_data: &[u8]) -> (ctx: Result<BinaryCtx, ErrorKind>)
    ensures
        ctx == match object_view(raw_data@) {
            ObjectView::Elf(img) => Ok::<BinaryCtx, ErrorKind>(ctx_of(img)),
            _ => Err(ErrorKind::UnsupportedFormat),
        },
{
    match read_elf(raw_data) {
        Some(image) => Ok(binary_ctx(&image)),
        None => Err(ErrorKind::UnsupportedFormat),
    }
}

/// An image is dynamically linked when a program header names an interpreter.
pub open spec fn is_dynamic(program_types: Seq<u32>) -> bool {
    exists|i: int| 0 <= i < program_types.len() && program_types[i] == PT_INTERP
}

/// The bytes hold an ELF image that is statically linked.
pub open spec fn statically_linked(raw: Seq<u8>) -> bool {
    match object_view(raw) {
        ObjectView::Elf(img) => !is_dynamic(img.program_types),
        _ => false,
    }
}

/// Whether a program header of type `PT_INTERP` is among `program_types`.
pub fn has_interpreter(program_types: &Vec<u32>) -> (b: bool)
    ensures
        b == is_dynamic(program_types@),
{
    let mut i: usize = 0;
    while i < program_types.len()
        invariant
            i <= program_types.len(),
            forall|j: int| 0 <= j < i ==> program_types[j] != PT_INTERP,
        decreases program_types.len() - i,
    {
        if program_types[i] == PT_INTERP {
            return true;
        }
        i += 1;
    }
    false
}

/// The section that a lookup by `name` finds among `sections` from index
/// `from` on: the first one that carries the name.  Sections whose name lies
/// outside the name table are passed over; one whose name cannot be read,
/// met before any match, fails the lookup.
pub open spec fn find_section(sections: Seq<SectionView>, name: Seq<char>, from: int) -> Result<
    Option<int>,
    ErrorKind,
>
    decreases sections.len() - from,
{
    if from < 0 || from >= sections.len() {
        Ok(None)
    } else {
        match sections[from].name {
            NameView::Invalid => Err(ErrorKind::MalformedElf),
            NameView::Name(n) if n == name => Ok(Some(from)),
            _ => find_section(sections, name, from + 1),
        }
    }
}

/// The index of the first section called `name`.
pub fn section_by_name(sections: &Vec<SectionRef>, name: &str) -> (found: Result<
    Option<usize>,
    ErrorKind,
>)
    ensures
        match found {
            Ok(Some(i)) => i < sections.len() && find_section(
                crate::binary_handling::image::section_views(sections@),
                name@,
                0,
            ) == Ok::<Option<int>, ErrorKind>(Some(i as int)),
            Ok(None) => find_section(
                crate::binary_handling::image::section_views(sections@),
                name@,
                0,
            ) == Ok::<Option<int>, ErrorKind>(None),
            Err(e) => find_section(
                crate::binary_handling::image::section_views(sections@),
                name@,
                0,
            ) == Err::<Option<int>, ErrorKind>(e),
        },
{
    let ghost views = crate::binary_handling::image::section_views(sections@);
    let wanted = name.to_owned();
    let mut i: usize = 0;
    while i < sections.len()
        invariant
            i <= sections.len(),
            wanted@ == name@,
            views == crate::binary_handling::image::section_views(sections@),
            find_section(views, name@, 0) == find_section(views, name@, i as int),
        decreases sections.len() - i,
    {
        match &sections[i].name {
            NameLookup::Invalid => {
                return Err(ErrorKind::MalformedElf);
            },
            NameLookup::Name(n) => {
                if *n == wanted {
                    return Ok(Some(i));
                }
            },
            NameLookup::Missing => {},
        }
        i += 1;
    }
    Ok(None)
}

/// The first section called `name` of the ELF image in `raw_data`.
pub fn get_section_by_name(raw_data: &[u8], name: &str) -> (section: Result<
    Option<SectionRef>,
    ErrorKind,
>)
    ensures
        match object_view(raw_data@) {
            ObjectView::Elf(img) => match section {
                Ok(Some(s)) => exists|i: int|
                    0 <= i < img.sections.len() && find_section(img.sections, name@, 0) == Ok::<
                        Option<int>,
                        ErrorKind,
                    >(Some(i)) && s@ == #[trigger] img.sections[i],
                Ok(None) => find_section(img.sections, name@, 0) == Ok::<Option<int>, ErrorKind>(
                    None,
                ),
                Err(e) => find_section(img.sections, name@, 0) == Err::<Option<int>, ErrorKind>(e),
            },
            _ => section is Err && section->Err_0 == ErrorKind::UnsupportedFormat,
        },
{
    match read_elf(raw_data) {
        None => Err(ErrorKind::UnsupportedFormat),
        Some(image) => {
            let mut sections = image.sections;
            match section_by_name(&sections, name) {
                Err(e) => Err(e),
                Ok(None) => Ok(None),
                Ok(Some(i)) => {
                    let ghost views = crate::binary_handling::image::section_views(sections@);
                    assert(views[i as int] == sections[i as int]@);
                    let section = sections.remove(i);
                    Ok(Some(section))
                },
            }
        },
    }
}

/// `x` as an offset or a size in memory, where it fits.
pub fn to_usize(x: u64) -> (r: Option<usize>)
    ensures
        r == (if x <= usize::MAX {
            Some(x as usize)
        } else {
            None
        }),
{
    if x <= usize::MAX as u64 {
        Some(x as usize)
    } else {
        None
    }
}

/// The symbol table in section `idx` of the image, with the name of each
/// symbol from the string table that the section links to.  `None` where the
/// entry size is zero, an offset or size does not fit in memory, the link
/// names no section, or a table does not parse.
pub open spec fn symbol_table(raw: Seq<u8>, img: ElfView, idx: int) -> Option<SymbolTableView> {
    let section = img.sections[idx];
    if section.entsize == 0 || section.offset > usize::MAX || section.size / section.entsize
        > usize::MAX || section.link >= img.sections.len() {
        None
    } else {
        let strings = img.sections[section.link as int];
        if strings.offset > usize::MAX || strings.size > usize::MAX {
            None
        } else {
            match goblin_symtab(
                raw,
                section.offset as usize,
                (section.size / section.entsize) as usize,
                ctx_of(img),
            ) {
                None => None,
                Some(symbols) => if goblin_strtab_parses(
                    raw,
                    strings.offset as usize,
                    strings.size as usize,
                ) {
                    Some(
                        SymbolTableView {
                            symbols,
                            names: Seq::new(
                                symbols.len(),
                                |i: int|
                                    goblin_strtab_get(
                                        raw,
                                        strings.offset as usize,
                                        strings.size as usize,
                                        symbols[i].name_offset,
                                    ),
                            ),
                        },
                    )
                } else {
                    None
                },
            }
        }
    }
}

/// Reads the symbol table in section `idx` and the names of its symbols.
pub fn read_symbol_table(raw: &[u8], image: &ElfImage, idx: usize) -> (table: Option<SymbolTable>)
    requires
        idx < image.sections.len(),
    ensures
        match table {
            Some(t) => t@.wf() && symbol_table(raw@, image@, idx as int) == Some(t@),
            None => symbol_table(raw@, image@, idx as int) is None,
        },
{
    let section = &image.sections[idx];
    if section.entsize == 0 {
        return None;
    }
    let link = section.link as usize;
    if link >= image.sections.len() {
        return None;
    }
    let strings = &image.sections[link];
    let offset = to_usize(section.offset);
    let count = to_usize(section.size / section.entsize);
    let names_offset = to_usize(strings.offset);
    let names_len = to_usize(strings.size);
    match (offset, count, names_offset, names_len) {
        (Some(offset), Some(count), Some(names_offset), Some(names_len)) => {
            let symbols = match read_symbols(raw, offset, count, binary_ctx(image)) {
                Some(s) => s,
                None => {
                    return None;
                },
            };
            let mut at: Vec<usize> = Vec::new();
            let mut i: usize = 0;
            while i < symbols.len()
                invariant
                    i <= symbols.len(),
                    at.len() == i,
                    forall|j: int| 0 <= j < i ==> at[j] == symbols[j].name_offset,
                decreases symbols.len() - i,
            {
                at.push(symbols[i].name_offset);
                i += 1;
            }
            match read_names(raw, names_offset, names_len, &at) {
                Some(names) => {
                    let table = SymbolTable { symbols, names };
                    assert(table@.names =~= symbol_table(
                        raw@,
                        image@,
                        idx as int,
                    ).unwrap().names);
                    Some(table)
                },
                None => None,
            }
        },
        _ => None,
    }
}

/// A relocation section that points at its symbol table.
pub open spec fn is_reloc_section(s: SectionView) -> bool {
    (s.kind == SHT_REL || s.kind == SHT_RELA) && s.link != SHN_UNDEF
}

/// The relocations of section `idx` and the symbol table that the section
/// links to.  `None` where the link names no section, an offset or size does
/// not fit in memory, or a table does not parse.
pub open spec fn reloc_table(raw: Seq<u8>, img: ElfView, idx: int) -> Option<
    (Seq<Relocation>, SymbolTableView),
> {
    let section = img.sections[idx];
    if section.link >= img.sections.len() || section.offset > usize::MAX || section.size
        > usize::MAX {
        None
    } else {
        match (
            symbol_table(raw, img, section.link as int),
            goblin_relocs(
                raw,
                section.offset as usize,
                section.size as usize,
                section.kind == SHT_RELA,
                ctx_of(img),
            ),
        ) {
            (Some(table), Some(relocations)) => Some((relocations, table)),
            _ => None,
        }
    }
}

/// Reads the relocations of section `idx` and the symbol table it links to.
pub fn read_reloc_table(raw: &[u8], image: &ElfImage, idx: usize) -> (tables: Option<
    (Vec<Relocation>, SymbolTable),
>)
    requires
        idx < image.sections.len(),
    ensures
        match tables {
            Some((relocations, table)) => table@.wf() && reloc_table(raw@, image@, idx as int)
                == Some((relocations@, table@)),
            None => reloc_table(raw@, image@, idx as int) is None,
        },
{
    let section = &image.sections[idx];
    let link = section.link as usize;
    if link >= image.sections.len() {
        return None;
    }
    match (to_usize(section.offset), to_usize(section.size)) {
        (Some(offset), Some(size)) => {
            let table = match read_symbol_table(raw, image, link) {
                Some(t) => t,
                None => {
                    return None;
                },
            };
            match read_relocations(
                raw,
                offset,
                size,
                section.kind == SHT_RELA,
                binary_ctx(image),
            ) {
                Some(relocations) => Some((relocations, table)),
                None => None,
            }
        },
        _ => None,
    }
}

/// What one relocation adds to the GOT map: its symbol's name bound to the
/// relocation's offset.  A relocation without a symbol, or whose symbol lies
/// outside the symbol table, adds nothing; a name that lies outside the
/// string table, or cannot be read, fails the build.
pub open spec fn got_step(got: Entries, reloc: Relocation, table: SymbolTableView) -> Result<
    Entries,
    ErrorKind,
> {
    if reloc.symbol == 0 || reloc.symbol >= table.symbols.len() {
        Ok(got)
    } else {
        match table.names[reloc.symbol as int] {
            NameView::Missing => Err(ErrorKind::MalformedElf),
            NameView::Invalid => Err(ErrorKind::MalformedElf),
            NameView::Name(n) => Ok(upsert(got, n, reloc.offset)),
        }
    }
}

/// The GOT map after the relocations from index `from` on, in order.
pub open spec fn got_fold(
    got: Entries,
    relocations: Seq<Relocation>,
    table: SymbolTableView,
    from: int,
) -> Result<Entries, ErrorKind>
    decreases relocations.len() - from,
{
    if from < 0 || from >= relocations.len() {
        Ok(got)
    } else {
        match got_step(got, relocations[from], table) {
            Ok(next) => got_fold(next, relocations, table, from + 1),
            Err(e) => Err(e),
        }
    }
}

/// Adds to `got` what the relocations of one section contribute.
pub fn ingest_relocations(
    got: &mut SymbolMap,
    relocations: &Vec<Relocation>,
    table: &SymbolTable,
) -> (done: Result<(), ErrorKind>)
    requires
        old(got).wf(),
        table@.wf(),
    ensures
        final(got).wf(),
        match done {
            Ok(()) => got_fold(old(got).entries(), relocations@, table@, 0) == Ok::<
                Entries,
                ErrorKind,
            >(final(got).entries()),
            Err(e) => got_fold(old(got).entries(), relocations@, table@, 0) == Err::<
                Entries,
                ErrorKind,
            >(e),
        },
{
    let mut i: usize = 0;
    while i < relocations.len()
        invariant
            i <= relocations.len(),
            got.wf(),
            table@.wf(),
            got_fold(old(got).entries(), relocations@, table@, 0) == got_fold(
                got.entries(),
                relocations@,
                table@,
                i as int,
            ),
        decreases relocations.len() - i,
    {
        let reloc = relocations[i];
        if reloc.symbol != 0 && reloc.symbol < table.symbols.len() {
            match &table.names[reloc.symbol] {
                NameLookup::Name(n) => {
                    got.insert(n.clone(), reloc.offset);
                },
                _ => {
                    return Err(ErrorKind::MalformedElf);
                },
            }
        }
        i += 1;
    }
    Ok(())
}

/// What section `idx` adds to the GOT map.
pub open spec fn got_section(raw: Seq<u8>, img: ElfView, idx: int, got: Entries) -> Result<
    Entries,
    ErrorKind,
> {
    if !is_reloc_section(img.sections[idx]) {
        Ok(got)
    } else {
        match reloc_table(raw, img, idx) {
            None => Err(ErrorKind::MalformedElf),
            Some((relocations, table)) => got_fold(got, relocations, table, 0),
        }
    }
}

/// The GOT map after the sections from index `from` on, in order.
pub open spec fn got_sections(raw: Seq<u8>, img: ElfView, from: int, got: Entries) -> Result<
    Entries,
    ErrorKind,
>
    decreases img.sections.len() - from,
{
    if from < 0 || from >= img.sections.len() {
        Ok(got)
    } else {
        match got_section(raw, img, from, got) {
            Ok(next) => got_sections(raw, img, from + 1, next),
            Err(e) => Err(e),
        }
    }
}

/// The GOT map of an image: empty for a statically linked one, else what the
/// relocation sections contribute in section order.
pub open spec fn got_of_image(raw: Seq<u8>, img: ElfView) -> Result<Entries, ErrorKind> {
    if !is_dynamic(img.program_types) {
        Ok(Seq::empty())
    } else {
        got_sections(raw, img, 0, Seq::empty())
    }
}

/// The GOT map of the ELF image in `raw`.
pub open spec fn got_of(raw: Seq<u8>) -> Result<Entries, ErrorKind> {
    match object_view(raw) {
        ObjectView::Elf(img) => got_of_image(raw, img),
        _ => Err(ErrorKind::UnsupportedFormat),
    }
}

/// Builds the GOT map of `image`, whose tables lie in `raw`.
pub fn build_got(raw: &[u8], image: &ElfImage) -> (got: Result<SymbolMap, ErrorKind>)
    ensures
        match got {
            Ok(g) => g.wf() && got_of_image(raw@, image@) == Ok::<Entries, ErrorKind>(g.entries()),
            Err(e) => got_of_image(raw@, image@) == Err::<Entries, ErrorKind>(e),
        },
        !is_dynamic(image.program_types@) ==> got is Ok && got.unwrap().entries().len() == 0,
        got is Ok && offsets_nonzero(raw@, image@, 0) ==> nonzero(got.unwrap().entries()),
{
    proof {
        if offsets_nonzero(raw@, image@, 0) {
            lemma_got_sections_nonzero(raw@, image@, 0, Seq::empty());
        }
    }
    let mut got: SymbolMap = NameMap::new();
    if !has_interpreter(&image.program_types) {
        return Ok(got);
    }
    let mut i: usize = 0;
    while i < image.sections.len()
        invariant
            i <= image.sections.len(),
            got.wf(),
            got_of_image(raw@, image@) == got_sections(raw@, image@, i as int, got.entries()),
        decreases image.sections.len() - i,
    {
        let section = &image.sections[i];
        if (section.kind == SHT_REL || section.kind == SHT_RELA) && section.link != SHN_UNDEF {
            match read_reloc_table(raw, image, i) {
                None => {
                    return Err(ErrorKind::MalformedElf);
                },
                Some((relocations, table)) => {
                    match ingest_relocations(&mut got, &relocations, &table) {
                        Ok(()) => {},
                        Err(e) => {
                            return Err(e);
                        },
                    }
                },
            }
        }
        i += 1;
    }
    Ok(got)
}

/// Parses the global offset table of the ELF image in `raw_data`: for each
/// relocation with a symbol, the symbol's name bound to the relocation's
/// offset.  A statically linked image has an empty table.
pub fn parse_got(raw_data: &[u8]) -> (got: Result<SymbolMap, ErrorKind>)
    ensures
        match got {
            Ok(g) => g.wf() && got_of(raw_data@) == Ok::<Entries, ErrorKind>(g.entries()),
            Err(e) => got_of(raw_data@) == Err::<Entries, ErrorKind>(e),
        },
        got is Ok && object_view(raw_data@) is Elf && offsets_nonzero(
            raw_data@,
            object_view(raw_data@)->Elf_0,
            0,
        ) ==> nonzero(got.unwrap().entries()),
        statically_linked(raw_data@) ==> got is Ok && got.unwrap().entries().len() == 0,
{
    match read_elf(raw_data) {
        Some(image) => build_got(raw_data, &image),
        None => Err(ErrorKind::UnsupportedFormat),
    }
}

/// A section that holds a symbol table: static, dynamic, or the local
/// dynamic table of Solaris.
pub open spec fn is_symbol_section(s: SectionView) -> bool {
    s.kind == SHT_SYMTAB || s.kind == SHT_DYNSYM || s.kind == SHT_SUNW_LDYNSYM
}

/// What one symbol adds to the static symbols: its name bound to its value.
/// A symbol whose value is zero adds nothing; otherwise a name that is missing
/// or cannot be read fails the build.
pub open spec fn static_step(symbols: Entries, sym: SymbolRecord, name: NameView) -> Result<
    Entries,
    ErrorKind,
> {
    if sym.value == 0 {
        Ok(symbols)
    } else {
        match name {
            NameView::Name(n) => Ok(upsert(symbols, n, sym.value)),
            _ => Err(ErrorKind::MalformedElf),
        }
    }
}

/// The static symbols after the entries of `table` from index `from` on.
pub open spec fn static_fold(symbols: Entries, table: SymbolTableView, from: int) -> Result<
    Entries,
    ErrorKind,
>
    decreases table.symbols.len() - from,
{
    if from < 0 || from >= table.symbols.len() {
        Ok(symbols)
    } else {
        match static_step(symbols, table.symbols[from], table.names[from]) {
            Ok(next) => static_fold(next, table, from + 1),
            Err(e) => Err(e),
        }
    }
}

/// Adds to `symbols` each entry of `table` whose value is not zero.
pub fn ingest_symbols(symbols: &mut SymbolMap, table: &SymbolTable) -> (done: Result<
    (),
    ErrorKind,
>)
    requires
        old(symbols).wf(),
        table@.wf(),
    ensures
        final(symbols).wf(),
        match done {
            Ok(()) => static_fold(old(symbols).entries(), table@, 0) == Ok::<Entries, ErrorKind>(
                final(symbols).entries(),
            ),
            Err(e) => static_fold(old(symbols).entries(), table@, 0) == Err::<Entries, ErrorKind>(
                e,
            ),
        },
{
    let mut i: usize = 0;
    while i < table.symbols.len()
        invariant
            i <= table.symbols.len(),
            symbols.wf(),
            table@.wf(),
            static_fold(old(symbols).entries(), table@, 0) == static_fold(
                symbols.entries(),
                table@,
                i as int,
            ),
        decreases table.symbols.len() - i,
    {
        let sym = table.symbols[i];
        if sym.value != 0 {
            match &table.names[i] {
                NameLookup::Name(n) => {
                    symbols.insert(n.clone(), sym.value);
                },
                _ => {
                    return Err(ErrorKind::MalformedElf);
                },
            }
        }
        i += 1;
    }
    Ok(())
}

/// What section `idx` adds to the static symbols.
pub open spec fn static_section(raw: Seq<u8>, img: ElfView, idx: int, symbols: Entries) -> Result<
    Entries,
    ErrorKind,
> {
    if !is_symbol_section(img.sections[idx]) {
        Ok(symbols)
    } else {
        match symbol_table(raw, img, idx) {
            None => Err(ErrorKind::MalformedElf),
            Some(table) => static_fold(symbols, table, 0),
        }
    }
}

/// The static symbols after the sections from index `from` on, in order.
pub open spec fn static_sections(raw: Seq<u8>, img: ElfView, from: int, symbols: Entries) -> Result<
    Entries,
    ErrorKind,
>
    decreases img.sections.len() - from,
{
    if from < 0 || from >= img.sections.len() {
        Ok(symbols)
    } else {
        match static_section(raw, img, from, symbols) {
            Ok(next) => static_sections(raw, img, from + 1, next),
            Err(e) => Err(e),
        }
    }
}

/// The static symbols of `image`: every symbol with a value other than zero,
/// from every symbol table section, later ones replacing earlier ones of the
/// same name.
pub fn build_static_symbols(raw: &[u8], image: &ElfImage) -> (symbols: Result<
    SymbolMap,
    ErrorKind,
>)
    ensures
        match symbols {
            Ok(s) => s.wf() && static_sections(raw@, image@, 0, Seq::empty()) == Ok::<
                Entries,
                ErrorKind,
            >(s.entries()),
            Err(e) => static_sections(raw@, image@, 0, Seq::empty()) == Err::<Entries, ErrorKind>(
                e,
            ),
        },
{
    let mut symbols: SymbolMap = NameMap::new();
    let mut i: usize = 0;
    while i < image.sections.len()
        invariant
            i <= image.sections.len(),
            symbols.wf(),
            static_sections(raw@, image@, 0, Seq::empty()) == static_sections(
                raw@,
                image@,
                i as int,
                symbols.entries(),
            ),
        decreases image.sections.len() - i,
    {
        let section = &image.sections[i];
        if section.kind == SHT_SYMTAB || section.kind == SHT_DYNSYM || section.kind
            == SHT_SUNW_LDYNSYM {
            match read_symbol_table(raw, image, i) {
                None => {
                    return Err(ErrorKind::MalformedElf);
                },
                Some(table) => {
                    match ingest_symbols(&mut symbols, &table) {
                        Ok(()) => {},
                        Err(e) => {
                            return Err(e);
                        },
                    }
                },
            }
        }
        i += 1;
    }
    Ok(symbols)
}

/// `prefix` followed by `name`.
pub fn prefixed(prefix: &str, name: &str) -> (key: String)
    ensures
        key@ == prefix@ + name@,
{
    let mut key = prefix.to_owned();
    key.append(name);
    key
}

/// What one dynamic entry adds to the symbols: the prefixed key always, and
/// the bare name only where nothing holds it yet.
pub open spec fn merge_step(symbols: Entries, prefix: Seq<char>, name: Seq<char>, addr: u64) -> Entries {
    let with_prefix = upsert(symbols, prefix + name, addr);
    if has_name(with_prefix, name) {
        with_prefix
    } else {
        upsert(with_prefix, name, addr)
    }
}

/// The symbols after the entries of `table` from index `from` on are merged in.
pub open spec fn merge_fold(symbols: Entries, prefix: Seq<char>, table: Entries, from: int) -> Entries
    decreases table.len() - from,
{
    if from < 0 || from >= table.len() {
        symbols
    } else {
        merge_fold(
            merge_step(symbols, prefix, table[from].0, table[from].1),
            prefix,
            table,
            from + 1,
        )
    }
}

/// Merges `table` into `symbols`: each entry under its prefixed key, and under
/// its bare name unless that name is already bound.
pub fn merge_prefixed(symbols: &mut SymbolMap, prefix: &str, table: &SymbolMap)
    requires
        old(symbols).wf(),
        table.wf(),
    ensures
        final(symbols).wf(),
        final(symbols).entries() == merge_fold(old(symbols).entries(), prefix@, table.entries(), 0),
{
    let mut i: usize = 0;
    while i < table.len()
        invariant
            i <= table.entries().len(),
            symbols.wf(),
            table.wf(),
            merge_fold(old(symbols).entries(), prefix@, table.entries(), 0) == merge_fold(
                symbols.entries(),
                prefix@,
                table.entries(),
                i as int,
            ),
        decreases table.entries().len() - i,
    {
        let name = table.name_at(i);
        let addr = *table.value_at(i);
        symbols.insert(prefixed(prefix, name.as_str()), addr);
        proof {
            lemma_map_of_dom(symbols.entries(), name@);
        }
        if !symbols.contains_key(name.as_str()) {
            symbols.insert(name.clone(), addr);
        }
        i += 1;
    }
}

/// The unified symbols: the static symbols, then the PLT entries under
/// `plt.`, then the GOT entries under `got.`.  On a bare name a static symbol
/// wins over a PLT entry, which wins over a GOT entry.
pub open spec fn aggregate(statics: Entries, plt: Entries, got: Entries) -> Entries {
    merge_fold(merge_fold(statics, "plt."@, plt, 0), "got."@, got, 0)
}

/// The symbols of an image, given its PLT and GOT maps.
pub open spec fn symbols_of_image(raw: Seq<u8>, img: ElfView, plt: Entries, got: Entries) -> Result<
    Entries,
    ErrorKind,
> {
    match static_sections(raw, img, 0, Seq::empty()) {
        Ok(statics) => Ok(aggregate(statics, plt, got)),
        Err(e) => Err(e),
    }
}

/// The symbols of the ELF image in `raw`, given its PLT and GOT maps.
pub open spec fn symbols_of(raw: Seq<u8>, plt: Entries, got: Entries) -> Result<Entries, ErrorKind> {
    match object_view(raw) {
        ObjectView::Elf(img) => symbols_of_image(raw, img, plt, got),
        _ => Err(ErrorKind::UnsupportedFormat),
    }
}

/// Builds the symbol map of `image` from its symbol tables and the two maps.
pub fn build_symbols(raw: &[u8], image: &ElfImage, plt: &SymbolMap, got: &SymbolMap) -> (symbols:
    Result<SymbolMap, ErrorKind>)
    requires
        plt.wf(),
        got.wf(),
    ensures
        match symbols {
            Ok(s) => s.wf() && symbols_of_image(raw@, image@, plt.entries(), got.entries()) == Ok::<
                Entries,
                ErrorKind,
            >(s.entries()),
            Err(e) => symbols_of_image(raw@, image@, plt.entries(), got.entries()) == Err::<
                Entries,
                ErrorKind,
            >(e),
        },
        symbols is Ok ==> closed_under_prefix(symbols.unwrap()@, "plt."@, plt@),
        symbols is Ok ==> closed_under_prefix(symbols.unwrap()@, "got."@, got@),
        symbols is Ok && nonzero(plt.entries()) && nonzero(got.entries()) ==> nonzero(
            symbols.unwrap().entries(),
        ),
{
    proof {
        if nonzero(plt.entries()) && nonzero(got.entries()) {
            lemma_symbols_nonzero(raw@, image@, plt.entries(), got.entries());
        }
    }
    match build_static_symbols(raw, image) {
        Ok(mut symbols) => {
            let ghost statics = symbols.entries();
            proof {
                symbols.lemma_distinct();
                plt.lemma_distinct();
                got.lemma_distinct();
            }
            merge_prefixed(&mut symbols, "plt.", plt);
            merge_prefixed(&mut symbols, "got.", got);
            proof {
                assert forall|n: Seq<char>| #[trigger] plt@.contains_key(n) implies symbols@.contains_key(
                    "plt."@ + n,
                ) && symbols@["plt."@ + n] == plt@[n] by {
                    lemma_plt_prefix(statics, plt.entries(), got.entries(), n);
                }
                assert forall|n: Seq<char>| #[trigger] got@.contains_key(n) implies symbols@.contains_key(
                    "got."@ + n,
                ) && symbols@["got."@ + n] == got@[n] by {
                    lemma_got_prefix(statics, plt.entries(), got.entries(), n);
                }
            }
            Ok(symbols)
        },
        Err(e) => Err(e),
    }
}

/// Parses all symbols of the ELF image in `raw_data` and merges the PLT and
/// GOT maps into them.
pub fn parse_symbols(raw_data: &[u8], plt: &SymbolMap, got: &SymbolMap) -> (symbols: Result<
    SymbolMap,
    ErrorKind,
>)
    requires
        plt.wf(),
        got.wf(),
    ensures
        match symbols {
            Ok(s) => s.wf() && symbols_of(raw_data@, plt.entries(), got.entries()) == Ok::<
                Entries,
                ErrorKind,
            >(s.entries()),
            Err(e) => symbols_of(raw_data@, plt.entries(), got.entries()) == Err::<
                Entries,
                ErrorKind,
            >(e),
        },
        symbols is Ok ==> closed_under_prefix(symbols.unwrap()@, "plt."@, plt@),
        symbols is Ok ==> closed_under_prefix(symbols.unwrap()@, "got."@, got@),
        symbols is Ok && nonzero(plt.entries()) && nonzero(got.entries()) ==> nonzero(
            symbols.unwrap().entries(),
        ),
{
    match read_elf(raw_data) {
        Some(image) => build_symbols(raw_data, &image, plt, got),
        None => Err(ErrorKind::UnsupportedFormat),
    }
}

/// The standard parameters of PLT resolution.
pub open spec fn standard_config() -> PltConfig {
    PltConfig { candidate_stride: 4, per_candidate_timeout_ms: 1000, page_size: 4096 }
}

/// The three maps of the ELF image in `raw`: GOT, PLT and symbols, given how
/// the run of each candidate of its PLT sections ended.
pub open spec fn binary_of(raw: Seq<u8>, outcomes: Seq<Seq<StubOutcome>>) -> Result<
    (Entries, Entries, Entries),
    ErrorKind,
> {
    match got_of(raw) {
        Err(e) => Err(e),
        Ok(got) => match plt_of(raw, standard_config(), got, outcomes) {
            Err(e) => Err(e),
            Ok(plt) => match symbols_of(raw, plt, got) {
                Err(e) => Err(e),
                Ok(symbols) => Ok((got, plt, symbols)),
            },
        },
    }
}

/// No relocation that adds to the GOT map has the offset zero, and no PLT
/// section to resolve lies at the address zero.
pub open spec fn elf_addresses_nonzero(raw: Seq<u8>) -> bool {
    match object_view(raw) {
        ObjectView::Elf(img) => offsets_nonzero(raw, img, 0) && match plan_of(
            raw.len(),
            img,
            standard_config(),
        ) {
            Ok(plan) => sections_nonzero(plan),
            Err(_) => true,
        },
        _ => true,
    }
}

/// A parsed ELF image.
pub struct ELFBinary {
    /// The bytes of the image.
    pub raw_bytes: Vec<u8>,
    /// Global offset table: symbol name to the address of its slot.
    pub got: SymbolMap,
    /// Procedure linkage table: symbol name to the address of its stub.
    pub plt: SymbolMap,
    /// Symbol name to address: static symbols, PLT and GOT combined.
    pub symbols: SymbolMap,
}

impl ELFBinary {
    /// The three maps are well formed.
    pub open spec fn wf(&self) -> bool {
        self.got.wf() && self.plt.wf() && self.symbols.wf()
    }

    /// Parses `raw_bytes` as an ELF image and builds its three maps.  The
    /// candidates of its PLT sections have been run in the emulator:
    /// `outcomes[j][i]` is how candidate `i` of the `j`-th section to resolve
    /// ended.
    pub fn new(raw_bytes: Vec<u8>, outcomes: &Vec<Vec<StubOutcome>>) -> (binary: Result<
        ELFBinary,
        ErrorKind,
    >)
        ensures
            match binary {
                Ok(b) => b.wf() && b.raw_bytes@ == raw_bytes@ && binary_of(
                    raw_bytes@,
                    outcome_views(outcomes@),
                ) == Ok::<(Entries, Entries, Entries), ErrorKind>(
                    (b.got.entries(), b.plt.entries(), b.symbols.entries()),
                ),
                Err(e) => binary_of(raw_bytes@, outcome_views(outcomes@)) == Err::<
                    (Entries, Entries, Entries),
                    ErrorKind,
                >(e),
            },
            binary is Ok ==> closed_under_prefix(
                binary.unwrap().symbols@,
                "plt."@,
                binary.unwrap().plt@,
            ),
            binary is Ok ==> closed_under_prefix(
                binary.unwrap().symbols@,
                "got."@,
                binary.unwrap().got@,
            ),
            binary is Ok ==> plan_of_raw(raw_bytes@, standard_config()) is Ok && stubs_observed(
                binary.unwrap().plt.entries(),
                binary.unwrap().got.entries(),
                plan_of_raw(raw_bytes@, standard_config()).unwrap(),
                outcome_views(outcomes@),
            ),
            binary is Ok && statically_linked(raw_bytes@) ==> binary.unwrap().got.entries().len()
                == 0 && binary.unwrap().plt.entries().len() == 0,
            binary is Ok && elf_addresses_nonzero(raw_bytes@) ==> nonzero(
                binary.unwrap().got.entries(),
            ) && nonzero(binary.unwrap().plt.entries()) && nonzero(
                binary.unwrap().symbols.entries(),
            ),
    {
        let config = PltConfig::standard();
        let image = match read_elf(raw_bytes.as_slice()) {
            Some(image) => image,
            None => {
                return Err(ErrorKind::UnsupportedFormat);
            },
        };
        let got = match build_got(raw_bytes.as_slice(), &image) {
            Ok(got) => got,
            Err(e) => {
                return Err(e);
            },
        };
        let plt = match build_plt(raw_bytes.len(), &image, &config, &got, outcomes) {
            Ok(plt) => plt,
            Err(e) => {
                return Err(e);
            },
        };
        let symbols = match build_symbols(raw_bytes.as_slice(), &image, &plt, &got) {
            Ok(symbols) => symbols,
            Err(e) => {
                return Err(e);
            },
        };
        Ok(ELFBinary { raw_bytes, got, plt, symbols })
    }
}

impl Binary for ELFBinary {
    open spec fn valid(&self) -> bool {
        self.wf()
    }

    open spec fn symbol_view(&self) -> Map<Seq<char>, u64> {
        self.symbols@
    }

    fn get_sym_addr(&self, sym: &str) -> (addr: Result<u64, ErrorKind>) {
        match self.symbols.get(sym) {
            Some(a) => Ok(*a),
            None => Err(ErrorKind::SymbolNotFound),
        }
    }
}

} // verus!
