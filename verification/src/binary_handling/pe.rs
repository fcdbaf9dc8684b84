//! Symbol resolution for PE images: the import and export address tables, and
//! the symbol map that unifies both.

use crate::binary_handling::elf::{merge_fold, merge_prefixed, prefixed, Entries, SymbolMap};
use crate::binary_handling::image::{object_view, read_pe, ExportView, ObjectView, PeImage, PeView};
use crate::binary_handling::laws::{
    closed_under_prefix, lemma_eat_closed, lemma_eat_fold_nonzero, lemma_iat_fold_nonzero,
    lemma_iat_prefix, lemma_pe_aggregate_nonzero, no_name_prefixed, nonzero,
};
use crate::binary_handling::Binary;
use crate::error::ErrorKind;
use crate::name_map::{upsert, NameMap};
use crate::text::{decimal, push_decimal};
use vstd::prelude::*;

verus! {

/// The name made up for an export that has none: `ordinal_` and the ordinal
/// in decimal.
pub open spec fn ordinal_name(ordinal: usize) -> Seq<char> {
    "ordinal_"@ + decimal(ordinal as nat)
}

/// The name made up for an export by ordinal.
pub fn ordinal_key(ordinal: usize) -> (name: String)
    ensures
        name@ == ordinal_name(ordinal),
{
    let mut name = "ordinal_".to_owned();
    push_decimal(&mut name, ordinal);
    name
}

/// The name under which an export is listed: its own, or the one made up from
/// the ordinal it forwards to.  An export with neither has none.
pub open spec fn export_name(export: ExportView) -> Option<Seq<char>> {
    match export.name {
        Some(n) => Some(n),
        None => match export.ordinal {
            Some(k) => Some(ordinal_name(k)),
            None => None,
        },
    }
}

/// The export table after the exports from index `from` on, in order.  An
/// export without a name fails the build.
pub open spec fn eat_fold(eat: Entries, exports: Seq<ExportView>, from: int) -> Result<
    Entries,
    ErrorKind,
>
    decreases exports.len() - from,
{
    if from < 0 || from >= exports.len() {
        Ok(eat)
    } else {
        match export_name(exports[from]) {
            Some(n) => eat_fold(upsert(eat, n, exports[from].rva), exports, from + 1),
            None => Err(ErrorKind::MalformedPe),
        }
    }
}

/// The import table after the imports from index `from` on, in order.
pub open spec fn iat_fold(iat: Entries, imports: Seq<(Seq<char>, u64)>, from: int) -> Entries
    decreases imports.len() - from,
{
    if from < 0 || from >= imports.len() {
        iat
    } else {
        iat_fold(upsert(iat, imports[from].0, imports[from].1), imports, from + 1)
    }
}

/// The import address table of `image`: each import's name bound to the file
/// offset of its thunk.
pub fn build_iat(image: &PeImage) -> (iat: SymbolMap)
    ensures
        iat.wf(),
        iat.entries() == iat_fold(Seq::empty(), image@.imports, 0),
{
    let mut iat: SymbolMap = NameMap::new();
    let mut i: usize = 0;
    while i < image.imports.len()
        invariant
            i <= image.imports.len(),
            iat.wf(),
            image@.imports.len() == image.imports.len(),
            iat_fold(Seq::empty(), image@.imports, 0) == iat_fold(
                iat.entries(),
                image@.imports,
                i as int,
            ),
        decreases image.imports.len() - i,
    {
        let import = &image.imports[i];
        iat.insert(import.name.clone(), import.offset);
        i += 1;
    }
    iat
}

/// The export address table of `image`: each export's name bound to its
/// relative virtual address.
pub fn build_eat(image: &PeImage) -> (eat: Result<SymbolMap, ErrorKind>)
    ensures
        match eat {
            Ok(e) => e.wf() && eat_fold(Seq::empty(), image@.exports, 0) == Ok::<
                Entries,
                ErrorKind,
            >(e.entries()),
            Err(e) => eat_fold(Seq::empty(), image@.exports, 0) == Err::<Entries, ErrorKind>(e),
        },
{
    let mut eat: SymbolMap = NameMap::new();
    let mut i: usize = 0;
    while i < image.exports.len()
        invariant
            i <= image.exports.len(),
            eat.wf(),
            image@.exports.len() == image.exports.len(),
            eat_fold(Seq::empty(), image@.exports, 0) == eat_fold(
                eat.entries(),
                image@.exports,
                i as int,
            ),
        decreases image.exports.len() - i,
    {
        let export = &image.exports[i];
        let name = match &export.name {
            Some(n) => n.clone(),
            None => match export.ordinal {
                Some(k) => ordinal_key(k),
                None => {
                    return Err(ErrorKind::MalformedPe);
                },
            },
        };
        eat.insert(name, export.rva);
        i += 1;
    }
    Ok(eat)
}

/// What one export adds to the symbols: both the prefixed key and the bare
/// name, replacing what either held.
pub open spec fn overwrite_step(symbols: Entries, prefix: Seq<char>, name: Seq<char>, addr: u64) -> Entries {
    upsert(upsert(symbols, prefix + name, addr), name, addr)
}

/// The symbols after the entries of `table` from index `from` on are written in.
pub open spec fn overwrite_fold(symbols: Entries, prefix: Seq<char>, table: Entries, from: int) -> Entries
    decreases table.len() - from,
{
    if from < 0 || from >= table.len() {
        symbols
    } else {
        overwrite_fold(
            overwrite_step(symbols, prefix, table[from].0, table[from].1),
            prefix,
            table,
            from + 1,
        )
    }
}

/// Writes `table` into `symbols`: each entry under its prefixed key and under
/// its bare name.
pub fn write_prefixed(symbols: &mut SymbolMap, prefix: &str, table: &SymbolMap)
    requires
        old(symbols).wf(),
        table.wf(),
    ensures
        final(symbols).wf(),
        final(symbols).entries() == overwrite_fold(
            old(symbols).entries(),
            prefix@,
            table.entries(),
            0,
        ),
{
    let mut i: usize = 0;
    while i < table.len()
        invariant
            i <= table.entries().len(),
            symbols.wf(),
            table.wf(),
            overwrite_fold(old(symbols).entries(), prefix@, table.entries(), 0) == overwrite_fold(
                symbols.entries(),
                prefix@,
                table.entries(),
                i as int,
            ),
        decreases table.entries().len() - i,
    {
        let name = table.name_at(i);
        let addr = *table.value_at(i);
        symbols.insert(prefixed(prefix, name.as_str()), addr);
        symbols.insert(name.clone(), addr);
        i += 1;
    }
}

/// The unified symbols of a PE image: the exports under `eat.` and under
/// their bare names, then the imports under `iat.` and, where the bare name
/// is still free, under it.
pub open spec fn pe_aggregate(eat: Entries, iat: Entries) -> Entries {
    merge_fold(overwrite_fold(Seq::empty(), "eat."@, eat, 0), "iat."@, iat, 0)
}

/// Unifies the two tables of a PE image into one symbol map.
pub fn aggregate_pe(eat: &SymbolMap, iat: &SymbolMap) -> (symbols: SymbolMap)
    requires
        eat.wf(),
        iat.wf(),
    ensures
        symbols.wf(),
        symbols.entries() == pe_aggregate(eat.entries(), iat.entries()),
{
    let mut symbols: SymbolMap = NameMap::new();
    write_prefixed(&mut symbols, "eat.", eat);
    merge_prefixed(&mut symbols, "iat.", iat);
    symbols
}

/// The three tables of a PE image: imports, exports, symbols.
pub open spec fn pe_tables(img: PeView) -> Result<(Entries, Entries, Entries), ErrorKind> {
    match eat_fold(Seq::empty(), img.exports, 0) {
        Ok(eat) => {
            let iat = iat_fold(Seq::empty(), img.imports, 0);
            Ok((iat, eat, pe_aggregate(eat, iat)))
        },
        Err(e) => Err(e),
    }
}

/// The three tables of the PE image in `raw`.
pub open spec fn pe_of(raw: Seq<u8>) -> Result<(Entries, Entries, Entries), ErrorKind> {
    match object_view(raw) {
        ObjectView::Pe(img) => pe_tables(img),
        _ => Err(ErrorKind::UnsupportedFormat),
    }
}

/// No export has the address zero, and no import the offset zero.
pub open spec fn pe_addresses_nonzero(img: PeView) -> bool {
    &&& forall|i: int| 0 <= i < img.exports.len() ==> (#[trigger] img.exports[i]).rva != 0
    &&& forall|i: int| 0 <= i < img.imports.len() ==> (#[trigger] img.imports[i]).1 != 0
}

/// A parsed PE image.
pub struct PEBinary {
    /// The bytes of the image.
    pub raw_bytes: Vec<u8>,
    /// Import address table.
    pub iat: SymbolMap,
    /// Export address table.
    pub eat: SymbolMap,
    /// Symbol name to address: the two tables combined.
    pub symbols: SymbolMap,
}

/// Parses the import address table of the PE image in `raw_data`.
pub fn parse_iat(raw_data: &[u8]) -> (iat: Result<SymbolMap, ErrorKind>)
    ensures
        match object_view(raw_data@) {
            ObjectView::Pe(img) => iat is Ok && iat.unwrap().wf() && iat.unwrap().entries()
                == iat_fold(Seq::empty(), img.imports, 0),
            _ => iat == Err::<SymbolMap, ErrorKind>(ErrorKind::UnsupportedFormat),
        },
{
    match read_pe(raw_data) {
        Some(image) => Ok(build_iat(&image)),
        None => Err(ErrorKind::UnsupportedFormat),
    }
}

/// Parses the export address table of the PE image in `raw_data`.
pub fn parse_eat(raw_data: &[u8]) -> (eat: Result<SymbolMap, ErrorKind>)
    ensures
        match eat {
            Ok(e) => e.wf() && object_view(raw_data@) is Pe && eat_fold(
                Seq::empty(),
                object_view(raw_data@)->Pe_0.exports,
                0,
            ) == Ok::<Entries, ErrorKind>(e.entries()),
            Err(e) => match object_view(raw_data@) {
                ObjectView::Pe(img) => eat_fold(Seq::empty(), img.exports, 0) == Err::<
                    Entries,
                    ErrorKind,
                >(e),
                _ => e == ErrorKind::UnsupportedFormat,
            },
        },
{
    match read_pe(raw_data) {
        Some(image) => build_eat(&image),
        None => Err(ErrorKind::UnsupportedFormat),
    }
}

impl PEBinary {
    /// The three maps are well formed.
    pub open spec fn wf(&self) -> bool {
        self.iat.wf() && self.eat.wf() && self.symbols.wf()
    }

    /// Parses `raw_bytes` as a PE image and builds its tables.
    pub fn new(raw_bytes: Vec<u8>) -> (binary: Result<PEBinary, ErrorKind>)
        ensures
            match binary {
                Ok(b) => b.wf() && b.raw_bytes@ == raw_bytes@ && pe_of(raw_bytes@) == Ok::<
                    (Entries, Entries, Entries),
                    ErrorKind,
                >((b.iat.entries(), b.eat.entries(), b.symbols.entries())),
                Err(e) => pe_of(raw_bytes@) == Err::<(Entries, Entries, Entries), ErrorKind>(e),
            },
            binary is Ok ==> closed_under_prefix(
                binary.unwrap().symbols@,
                "iat."@,
                binary.unwrap().iat@,
            ),
            binary is Ok && no_name_prefixed(binary.unwrap().eat.entries(), "eat."@)
                ==> closed_under_prefix(binary.unwrap().symbols@, "eat."@, binary.unwrap().eat@),
            binary is Ok && object_view(raw_bytes@) is Pe && pe_addresses_nonzero(
                object_view(raw_bytes@)->Pe_0,
            ) ==> nonzero(binary.unwrap().iat.entries()) && nonzero(binary.unwrap().eat.entries())
                && nonzero(binary.unwrap().symbols.entries()),
    {
        let image = match read_pe(raw_bytes.as_slice()) {
            Some(image) => image,
            None => {
                return Err(ErrorKind::UnsupportedFormat);
            },
        };
        let iat = build_iat(&image);
        let eat = match build_eat(&image) {
            Ok(eat) => eat,
            Err(e) => {
                return Err(e);
            },
        };
        let symbols = aggregate_pe(&eat, &iat);
        proof {
            if pe_addresses_nonzero(image@) {
                lemma_iat_fold_nonzero(Seq::empty(), image@.imports, 0);
                lemma_eat_fold_nonzero(Seq::empty(), image@.exports, 0);
                lemma_pe_aggregate_nonzero(eat.entries(), iat.entries());
            }
            eat.lemma_distinct();
            iat.lemma_distinct();
            if no_name_prefixed(eat.entries(), "eat."@) {
                lemma_eat_closed(eat.entries(), iat.entries());
            }
            assert forall|n: Seq<char>| #[trigger] iat@.contains_key(n) implies symbols@.contains_key(
                "iat."@ + n,
            ) && symbols@["iat."@ + n] == iat@[n] by {
                lemma_iat_prefix(eat.entries(), iat.entries(), n);
            }
        }
        Ok(PEBinary { raw_bytes, iat, eat, symbols })
    }
}

impl Binary for PEBinary {
    open spec fn valid(&self) -> bool {
        self.wf()
    }

    open spec fn symbol_view(&self) -> Map<Seq<char>, u64> {
        self.symbols@
    }

    fn get_sym_addr(&self, sym: &str) -> (addr: Result<u64, ErrorKind>) {
        match self.symbols.get(sym) {
            Some(a) => Ok(*a),
            None => Err(ErrorKind::SymbolNotFound),
        }
    }
}

} // verus!
