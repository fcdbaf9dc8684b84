//! What holds of the symbol maps, whatever the image.

use crate::binary_handling::elf::{
    aggregate, got_fold, got_of, got_section, got_sections, got_step, is_dynamic,
    is_reloc_section, merge_fold, merge_step, reloc_table, static_fold, static_section,
    static_sections, static_step, symbol_table, symbols_of_image, Entries, SymbolTableView,
};
use crate::binary_handling::image::{
    object_view, ElfView, ExportView, ObjectView, Relocation,
};
use crate::binary_handling::pe::{
    eat_fold, export_name, iat_fold, ordinal_name, overwrite_fold, overwrite_step, pe_aggregate,
};
use crate::binary_handling::plt::{
    candidate_read, contribution, covered, cross_fold, cross_step, lemma_slot_owner_bound,
    outcomes_of, plan_reads, plt_of, slot_owner, stubs_observed, trace_reads, EmulatorSetup,
    PltConfig, PltSection, StubOutcome,
};
use crate::error::ErrorKind;
use crate::name_map::{
    distinct_names, lemma_map_of_dom, lemma_map_of_entry, lemma_map_of_upsert, map_of,
    upsert,
};
use vstd::prelude::*;

verus! {

/// A prefix can be taken off both sides of an equation.
pub proof fn lemma_prefix_cancel(prefix: Seq<char>, a: Seq<char>, b: Seq<char>)
    requires
        prefix + a == prefix + b,
    ensures
        a == b,
{
    assert((prefix + a).subrange(prefix.len() as int, (prefix + a).len() as int) =~= a);
}

/// Some entry of `table`, from index `from` on, has `key` as its prefixed key.
pub open spec fn prefixed_from(table: Entries, from: int, prefix: Seq<char>, key: Seq<char>) -> bool {
    exists|i: int| from <= i < table.len() && prefix + (#[trigger] table[i]).0 == key
}

/// Some entry of `table`, from index `from` on, has `key` as its name.
pub open spec fn named_from(table: Entries, from: int, key: Seq<char>) -> bool {
    exists|i: int| from <= i < table.len() && (#[trigger] table[i]).0 == key
}

/// One merge step on the map: the prefixed key is written, the bare name only
/// where it is free.
pub open spec fn merge_step_map(
    m: Map<Seq<char>, u64>,
    prefix: Seq<char>,
    name: Seq<char>,
    addr: u64,
) -> Map<Seq<char>, u64> {
    let with_prefix = m.insert(prefix + name, addr);
    if with_prefix.contains_key(name) {
        with_prefix
    } else {
        with_prefix.insert(name, addr)
    }
}

/// A merge step on entries is the merge step on their map.
pub proof fn lemma_merge_step(symbols: Entries, prefix: Seq<char>, name: Seq<char>, addr: u64)
    requires
        distinct_names(symbols),
    ensures
        distinct_names(merge_step(symbols, prefix, name, addr)),
        map_of(merge_step(symbols, prefix, name, addr)) == merge_step_map(
            map_of(symbols),
            prefix,
            name,
            addr,
        ),
{
    lemma_map_of_upsert(symbols, prefix + name, addr);
    let with_prefix = upsert(symbols, prefix + name, addr);
    lemma_map_of_dom(with_prefix, name);
    lemma_map_of_upsert(with_prefix, name, addr);
}

/// Merging keeps names distinct.
pub proof fn lemma_merge_fold_distinct(symbols: Entries, prefix: Seq<char>, table: Entries, from: int)
    requires
        distinct_names(symbols),
        0 <= from <= table.len(),
    ensures
        distinct_names(merge_fold(symbols, prefix, table, from)),
    decreases table.len() - from,
{
    if from < table.len() {
        lemma_merge_step(symbols, prefix, table[from].0, table[from].1);
        lemma_merge_fold_distinct(
            merge_step(symbols, prefix, table[from].0, table[from].1),
            prefix,
            table,
            from + 1,
        );
    }
}

/// What a merge leaves under a key.  A prefixed key of the table holds the
/// entry's value.  Any other key keeps what it held before; if it held
/// nothing and is a bare name of the table, it holds that entry's value; if
/// it is neither, it stays free.
pub proof fn lemma_merge_fold_key(
    symbols: Entries,
    prefix: Seq<char>,
    table: Entries,
    from: int,
    key: Seq<char>,
)
    requires
        distinct_names(symbols),
        distinct_names(table),
        0 <= from <= table.len(),
    ensures
        forall|i: int|
            from <= i < table.len() && prefix + (#[trigger] table[i]).0 == key ==> map_of(
                merge_fold(symbols, prefix, table, from),
            ).contains_key(key) && map_of(merge_fold(symbols, prefix, table, from))[key]
                == table[i].1,
        !prefixed_from(table, from, prefix, key) && map_of(symbols).contains_key(key) ==> map_of(
            merge_fold(symbols, prefix, table, from),
        ).contains_key(key) && map_of(merge_fold(symbols, prefix, table, from))[key] == map_of(
            symbols,
        )[key],
        !prefixed_from(table, from, prefix, key) && !map_of(symbols).contains_key(key) ==> forall|
            i: int,
        |
            from <= i < table.len() && (#[trigger] table[i]).0 == key ==> map_of(
                merge_fold(symbols, prefix, table, from),
            ).contains_key(key) && map_of(merge_fold(symbols, prefix, table, from))[key]
                == table[i].1,
        !prefixed_from(table, from, prefix, key) && !map_of(symbols).contains_key(key)
            && !named_from(table, from, key) ==> !map_of(
            merge_fold(symbols, prefix, table, from),
        ).contains_key(key),
    decreases table.len() - from,
{
    if from < table.len() {
        let name = table[from].0;
        let addr = table[from].1;
        let next = merge_step(symbols, prefix, name, addr);
        lemma_merge_step(symbols, prefix, name, addr);
        lemma_merge_fold_key(next, prefix, table, from + 1, key);
        // No later entry shares the prefixed key of this one.
        if prefix + name == key {
            if prefixed_from(table, from + 1, prefix, key) {
                let j = choose|j: int|
                    from + 1 <= j < table.len() && prefix + (#[trigger] table[j]).0 == key;
                lemma_prefix_cancel(prefix, name, table[j].0);
            }
        }
    }
}

/// The prefixes of the PLT and of the GOT never give the same key.
pub proof fn lemma_plt_got_keys_differ(a: Seq<char>, b: Seq<char>)
    ensures
        "plt."@ + a != "got."@ + b,
{
    reveal_strlit("plt.");
    reveal_strlit("got.");
    assert(("plt."@ + a)[0] == 'p');
}

/// Closure under prefix, GOT: every name of the GOT map is in the symbols
/// under `got.` with the address of its slot.
pub proof fn lemma_got_prefix(statics: Entries, plt: Entries, got: Entries, name: Seq<char>)
    requires
        distinct_names(statics),
        distinct_names(plt),
        distinct_names(got),
        map_of(got).contains_key(name),
    ensures
        map_of(aggregate(statics, plt, got)).contains_key("got."@ + name),
        map_of(aggregate(statics, plt, got))["got."@ + name] == map_of(got)[name],
{
    let mid = merge_fold(statics, "plt."@, plt, 0);
    lemma_merge_fold_distinct(statics, "plt."@, plt, 0);
    lemma_merge_fold_key(mid, "got."@, got, 0, "got."@ + name);
    lemma_map_of_dom(got, name);
    let i = choose|i: int| 0 <= i < got.len() && (#[trigger] got[i]).0 == name;
    crate::name_map::lemma_map_of_entry(got, i);
}

/// Closure under prefix, PLT: every name of the PLT map is in the symbols
/// under `plt.` with the address of its stub.
pub proof fn lemma_plt_prefix(statics: Entries, plt: Entries, got: Entries, name: Seq<char>)
    requires
        distinct_names(statics),
        distinct_names(plt),
        distinct_names(got),
        map_of(plt).contains_key(name),
    ensures
        map_of(aggregate(statics, plt, got)).contains_key("plt."@ + name),
        map_of(aggregate(statics, plt, got))["plt."@ + name] == map_of(plt)[name],
{
    let key = "plt."@ + name;
    let mid = merge_fold(statics, "plt."@, plt, 0);
    lemma_merge_fold_distinct(statics, "plt."@, plt, 0);
    lemma_merge_fold_key(statics, "plt."@, plt, 0, key);
    lemma_map_of_dom(plt, name);
    let i = choose|i: int| 0 <= i < plt.len() && (#[trigger] plt[i]).0 == name;
    crate::name_map::lemma_map_of_entry(plt, i);
    lemma_merge_fold_key(mid, "got."@, got, 0, key);
    assert(!prefixed_from(got, 0, "got."@, key)) by {
        if prefixed_from(got, 0, "got."@, key) {
            let j = choose|j: int| 0 <= j < got.len() && "got."@ + (#[trigger] got[j]).0 == key;
            lemma_plt_got_keys_differ(name, got[j].0);
        }
    }
}

/// Priority of static symbols: a name of the static table resolves to its
/// static value, whatever the PLT and the GOT hold under that name, unless the
/// name is itself the prefixed key of a PLT or GOT entry.
pub proof fn lemma_static_wins(statics: Entries, plt: Entries, got: Entries, name: Seq<char>)
    requires
        distinct_names(statics),
        distinct_names(plt),
        distinct_names(got),
        map_of(statics).contains_key(name),
        !prefixed_from(plt, 0, "plt."@, name),
        !prefixed_from(got, 0, "got."@, name),
    ensures
        map_of(aggregate(statics, plt, got)).contains_key(name),
        map_of(aggregate(statics, plt, got))[name] == map_of(statics)[name],
{
    let mid = merge_fold(statics, "plt."@, plt, 0);
    lemma_merge_fold_distinct(statics, "plt."@, plt, 0);
    lemma_merge_fold_key(statics, "plt."@, plt, 0, name);
    lemma_merge_fold_key(mid, "got."@, got, 0, name);
}

/// Priority of the PLT over the GOT: a name of the PLT map that is no static
/// symbol resolves to the address of its stub, unless the name is itself the
/// prefixed key of a PLT or GOT entry.
pub proof fn lemma_plt_wins(statics: Entries, plt: Entries, got: Entries, name: Seq<char>)
    requires
        distinct_names(statics),
        distinct_names(plt),
        distinct_names(got),
        !map_of(statics).contains_key(name),
        map_of(plt).contains_key(name),
        !prefixed_from(plt, 0, "plt."@, name),
        !prefixed_from(got, 0, "got."@, name),
    ensures
        map_of(aggregate(statics, plt, got)).contains_key(name),
        map_of(aggregate(statics, plt, got))[name] == map_of(plt)[name],
{
    let mid = merge_fold(statics, "plt."@, plt, 0);
    lemma_merge_fold_distinct(statics, "plt."@, plt, 0);
    lemma_merge_fold_key(statics, "plt."@, plt, 0, name);
    lemma_map_of_dom(plt, name);
    let i = choose|i: int| 0 <= i < plt.len() && (#[trigger] plt[i]).0 == name;
    crate::name_map::lemma_map_of_entry(plt, i);
    lemma_merge_fold_key(mid, "got."@, got, 0, name);
}

/// A name that only the GOT holds resolves to the address of its slot, unless
/// the name is itself the prefixed key of a PLT or GOT entry.
pub proof fn lemma_got_last(statics: Entries, plt: Entries, got: Entries, name: Seq<char>)
    requires
        distinct_names(statics),
        distinct_names(plt),
        distinct_names(got),
        !map_of(statics).contains_key(name),
        !map_of(plt).contains_key(name),
        map_of(got).contains_key(name),
        !prefixed_from(plt, 0, "plt."@, name),
        !prefixed_from(got, 0, "got."@, name),
    ensures
        map_of(aggregate(statics, plt, got)).contains_key(name),
        map_of(aggregate(statics, plt, got))[name] == map_of(got)[name],
{
    let mid = merge_fold(statics, "plt."@, plt, 0);
    lemma_merge_fold_distinct(statics, "plt."@, plt, 0);
    lemma_merge_fold_key(statics, "plt."@, plt, 0, name);
    lemma_map_of_dom(plt, name);
    lemma_map_of_dom(got, name);
    let i = choose|i: int| 0 <= i < got.len() && (#[trigger] got[i]).0 == name;
    crate::name_map::lemma_map_of_entry(got, i);
    lemma_merge_fold_key(mid, "got."@, got, 0, name);
}

/// Every name of `table` is in `symbols` under its prefixed key, with the
/// same address.
pub open spec fn closed_under_prefix(
    symbols: Map<Seq<char>, u64>,
    prefix: Seq<char>,
    table: Map<Seq<char>, u64>,
) -> bool {
    forall|n: Seq<char>| #[trigger]
        table.contains_key(n) ==> symbols.contains_key(prefix + n) && symbols[prefix + n]
            == table[n]
}

/// No entry has the address zero.
pub open spec fn nonzero(entries: Entries) -> bool {
    forall|i: int| 0 <= i < entries.len() ==> (#[trigger] entries[i]).1 != 0
}

/// Binding a name to an address other than zero keeps all addresses from zero.
pub proof fn lemma_upsert_nonzero(entries: Entries, name: Seq<char>, addr: u64)
    requires
        nonzero(entries),
        addr != 0,
    ensures
        nonzero(upsert(entries, name, addr)),
{
}

/// Where no entry has the address zero, no name maps to zero.
pub proof fn lemma_nonzero_map(entries: Entries, name: Seq<char>)
    requires
        nonzero(entries),
        map_of(entries).contains_key(name),
    ensures
        map_of(entries)[name] != 0,
    decreases entries.len(),
{
    if entries.len() > 0 {
        let front = entries.drop_last();
        if entries.last().0 != name {
            lemma_nonzero_map(front, name);
        }
    }
}

/// No zero addresses, merging: where neither the symbols nor the table hold
/// the address zero, neither does the merged map.
pub proof fn lemma_merge_fold_nonzero(symbols: Entries, prefix: Seq<char>, table: Entries, from: int)
    requires
        nonzero(symbols),
        nonzero(table),
        0 <= from <= table.len(),
    ensures
        nonzero(merge_fold(symbols, prefix, table, from)),
    decreases table.len() - from,
{
    if from < table.len() {
        let name = table[from].0;
        let addr = table[from].1;
        lemma_upsert_nonzero(symbols, prefix + name, addr);
        lemma_upsert_nonzero(upsert(symbols, prefix + name, addr), name, addr);
        lemma_merge_fold_nonzero(merge_step(symbols, prefix, name, addr), prefix, table, from + 1);
    }
}

/// No zero addresses, static symbols: ingestion drops symbols whose value is
/// zero, so it never adds the address zero.
pub proof fn lemma_static_fold_nonzero(symbols: Entries, table: SymbolTableView, from: int)
    requires
        nonzero(symbols),
        0 <= from,
    ensures
        match static_fold(symbols, table, from) {
            Ok(after) => nonzero(after),
            Err(_) => true,
        },
    decreases table.symbols.len() - from,
{
    if from < table.symbols.len() {
        match static_step(symbols, table.symbols[from], table.names[from]) {
            Ok(next) => {
                if table.symbols[from].value != 0 {
                    lemma_upsert_nonzero(
                        symbols,
                        table.names[from]->Name_0,
                        table.symbols[from].value,
                    );
                }
                lemma_static_fold_nonzero(next, table, from + 1);
            },
            Err(_) => {},
        }
    }
}

/// No zero addresses, GOT: where every relocation that adds to the map has an
/// offset other than zero, the GOT map holds no zero.  (A relocation at offset
/// zero with a named symbol does put a zero into the map.)
pub proof fn lemma_got_fold_nonzero(
    got: Entries,
    relocations: Seq<Relocation>,
    table: SymbolTableView,
    from: int,
)
    requires
        nonzero(got),
        0 <= from,
        forall|i: int|
            from <= i < relocations.len() && contributes(relocations[i], table) ==> (
            #[trigger] relocations[i]).offset != 0,
    ensures
        match got_fold(got, relocations, table, from) {
            Ok(after) => nonzero(after),
            Err(_) => true,
        },
    decreases relocations.len() - from,
{
    if from < relocations.len() {
        let reloc = relocations[from];
        match got_step(got, reloc, table) {
            Ok(next) => {
                if reloc.symbol != 0 && reloc.symbol < table.symbols.len() {
                    if table.names[reloc.symbol as int] is Name {
                        lemma_upsert_nonzero(
                            got,
                            table.names[reloc.symbol as int]->Name_0,
                            reloc.offset,
                        );
                    }
                }
                lemma_got_fold_nonzero(next, relocations, table, from + 1);
            },
            Err(_) => {},
        }
    }
}

/// No zero addresses, PLT: where every recorded stub address is other than
/// zero, the PLT map holds no zero.
pub proof fn lemma_cross_fold_nonzero(plt: Entries, got: Entries, reads: Seq<(u64, u64)>, from: int)
    requires
        nonzero(plt),
        0 <= from,
        forall|i: int| from <= i < reads.len() ==> (#[trigger] reads[i]).0 != 0,
    ensures
        nonzero(cross_fold(plt, got, reads, from)),
    decreases reads.len() - from,
{
    if from < reads.len() {
        let read = reads[from];
        match slot_owner(got, read.1, got.len() as int) {
            Some(i) => {
                lemma_upsert_nonzero(plt, got[i].0, read.0);
            },
            None => {},
        }
        lemma_cross_fold_nonzero(cross_step(plt, got, read), got, reads, from + 1);
    }
}

/// No zero addresses, symbols: where the static symbols, the PLT map and the
/// GOT map hold no zero, neither do the unified symbols.
pub proof fn lemma_aggregate_nonzero(statics: Entries, plt: Entries, got: Entries)
    requires
        nonzero(statics),
        nonzero(plt),
        nonzero(got),
    ensures
        nonzero(aggregate(statics, plt, got)),
{
    lemma_merge_fold_nonzero(statics, "plt."@, plt, 0);
    lemma_merge_fold_nonzero(merge_fold(statics, "plt."@, plt, 0), "got."@, got, 0);
}

/// Every recorded read is what its stub observed: it stems from a candidate
/// whose run ended with that address, other than zero, and it carries that
/// candidate's address.
pub proof fn lemma_trace_reads_observed(
    setup: EmulatorSetup,
    outcomes: Seq<StubOutcome>,
    upto: int,
    j: int,
)
    requires
        0 <= upto <= outcomes.len(),
        0 <= j < trace_reads(setup, outcomes, upto).len(),
    ensures
        trace_reads(setup, outcomes, upto)[j].1 != 0,
        exists|i: int|
            0 <= i < upto && #[trigger] outcomes[i] == StubOutcome::Observed(
                trace_reads(setup, outcomes, upto)[j].1,
            ) && trace_reads(setup, outcomes, upto)[j].0 == setup.candidate_address(i) as u64,
    decreases upto,
{
    if upto > 0 {
        let before = trace_reads(setup, outcomes, upto - 1);
        if j < before.len() {
            lemma_trace_reads_observed(setup, outcomes, upto - 1, j);
        }
    }
}

/// The reads of a pass come in ascending order of stub address.
pub proof fn lemma_trace_reads_ascending(
    setup: EmulatorSetup,
    outcomes: Seq<StubOutcome>,
    upto: int,
)
    requires
        setup.wf(),
        setup.stride > 0,
        0 <= upto <= outcomes.len(),
        upto <= setup.candidates,
    ensures
        forall|a: int, b: int|
            0 <= a < b < trace_reads(setup, outcomes, upto).len() ==> (#[trigger] trace_reads(
                setup,
                outcomes,
                upto,
            )[a]).0 < (#[trigger] trace_reads(setup, outcomes, upto)[b]).0,
        forall|a: int|
            0 <= a < trace_reads(setup, outcomes, upto).len() ==> (#[trigger] trace_reads(
                setup,
                outcomes,
                upto,
            )[a]).0 < setup.candidate_address(upto),
    decreases upto,
{
    if upto > 0 {
        lemma_trace_reads_ascending(setup, outcomes, upto - 1);
        assert(trace_reads(setup, outcomes, upto) == trace_reads(setup, outcomes, upto - 1)
            + contribution(setup, upto - 1, outcomes[upto - 1]));
        assert(setup.stride * (upto - 1) + setup.stride == setup.stride * upto)
            by (nonlinear_arith);
        assert(setup.stride * upto <= setup.stride * setup.candidates) by (nonlinear_arith)
            requires
                upto <= setup.candidates,
                setup.stride > 0,
        ;
    }
}

/// Every name of `plt` is a name of `got`, and some read pairs its stub
/// address with the address of its slot.
pub open spec fn stubs_read_slots(plt: Entries, got: Entries, reads: Seq<(u64, u64)>) -> bool {
    forall|name: Seq<char>| #[trigger]
        map_of(plt).contains_key(name) ==> map_of(got).contains_key(name) && exists|j: int|
            0 <= j < reads.len() && #[trigger] reads[j] == (map_of(plt)[name], map_of(got)[name])
}

/// Cross-referencing keeps the correspondence of stubs and slots.
pub proof fn lemma_cross_fold_reads(plt: Entries, got: Entries, reads: Seq<(u64, u64)>, from: int)
    requires
        distinct_names(plt),
        distinct_names(got),
        0 <= from,
        stubs_read_slots(plt, got, reads),
    ensures
        distinct_names(cross_fold(plt, got, reads, from)),
        stubs_read_slots(cross_fold(plt, got, reads, from), got, reads),
    decreases reads.len() - from,
{
    if from < reads.len() {
        let read = reads[from];
        let next = cross_step(plt, got, read);
        match slot_owner(got, read.1, got.len() as int) {
            Some(i) => {
                lemma_slot_owner_bound(got, read.1, got.len() as int);
                lemma_map_of_upsert(plt, got[i].0, read.0);
                lemma_map_of_entry(got, i);
            },
            None => {},
        }
        lemma_cross_fold_reads(next, got, reads, from + 1);
    }
}

/// PLT/GOT correspondence: every name of the PLT map is a name of the GOT
/// map, and its stub was recorded reading the slot of that name.
pub proof fn lemma_plt_got_correspondence(got: Entries, reads: Seq<(u64, u64)>, name: Seq<char>)
    requires
        distinct_names(got),
        map_of(cross_fold(Seq::empty(), got, reads, 0)).contains_key(name),
    ensures
        map_of(got).contains_key(name),
        exists|j: int|
            0 <= j < reads.len() && #[trigger] reads[j] == (
                map_of(cross_fold(Seq::empty(), got, reads, 0))[name],
                map_of(got)[name],
            ),
{
    let empty: Entries = Seq::empty();
    lemma_cross_fold_reads(empty, got, reads, 0);
}

/// Exports that no later export shares its name with keep their address.
pub proof fn lemma_eat_fold_keeps(eat: Entries, exports: Seq<ExportView>, from: int, key: Seq<char>)
    requires
        distinct_names(eat),
        0 <= from,
        map_of(eat).contains_key(key),
        forall|j: int| from <= j < exports.len() ==> export_name(#[trigger] exports[j]) != Some(key),
    ensures
        match eat_fold(eat, exports, from) {
            Ok(after) => distinct_names(after) && map_of(after).contains_key(key) && map_of(
                after,
            )[key] == map_of(eat)[key],
            Err(_) => true,
        },
    decreases exports.len() - from,
{
    if from < exports.len() {
        match export_name(exports[from]) {
            Some(n) => {
                lemma_map_of_upsert(eat, n, exports[from].rva);
                lemma_eat_fold_keeps(upsert(eat, n, exports[from].rva), exports, from + 1, key);
            },
            None => {},
        }
    }
}

/// The export table binds the name of an export to its address, unless a
/// later export goes by the same name.
pub proof fn lemma_eat_fold_entry(eat: Entries, exports: Seq<ExportView>, from: int, i: int)
    requires
        distinct_names(eat),
        0 <= from <= i < exports.len(),
        export_name(exports[i]) is Some,
        forall|j: int|
            i < j < exports.len() ==> export_name(#[trigger] exports[j]) != export_name(exports[i]),
    ensures
        match eat_fold(eat, exports, from) {
            Ok(after) => map_of(after).contains_key(export_name(exports[i]).unwrap()) && map_of(
                after,
            )[export_name(exports[i]).unwrap()] == exports[i].rva,
            Err(_) => true,
        },
    decreases exports.len() - from,
{
    match export_name(exports[from]) {
        Some(n) => {
            let next = upsert(eat, n, exports[from].rva);
            lemma_map_of_upsert(eat, n, exports[from].rva);
            if from == i {
                lemma_eat_fold_keeps(next, exports, from + 1, n);
            } else {
                lemma_eat_fold_entry(next, exports, from + 1, i);
            }
        },
        None => {},
    }
}

/// Round trip of exports by ordinal: an export without a name that forwards
/// to ordinal `k` is in the export table under `ordinal_<k>` with its
/// address, unless a later export goes by that very name.
pub proof fn lemma_ordinal_round_trip(exports: Seq<ExportView>, i: int, k: usize, eat: Entries)
    requires
        0 <= i < exports.len(),
        exports[i].name is None,
        exports[i].ordinal == Some(k),
        forall|j: int|
            i < j < exports.len() ==> export_name(#[trigger] exports[j]) != Some(ordinal_name(k)),
        eat_fold(Seq::empty(), exports, 0) == Ok::<Entries, ErrorKind>(eat),
    ensures
        map_of(eat).contains_key(ordinal_name(k)),
        map_of(eat)[ordinal_name(k)] == exports[i].rva,
{
    lemma_eat_fold_entry(Seq::empty(), exports, 0, i);
}

/// One overwrite step on the map.
pub proof fn lemma_overwrite_step(symbols: Entries, prefix: Seq<char>, name: Seq<char>, addr: u64)
    requires
        distinct_names(symbols),
    ensures
        distinct_names(overwrite_step(symbols, prefix, name, addr)),
        map_of(overwrite_step(symbols, prefix, name, addr)) == map_of(symbols).insert(
            prefix + name,
            addr,
        ).insert(name, addr),
{
    lemma_map_of_upsert(symbols, prefix + name, addr);
    lemma_map_of_upsert(upsert(symbols, prefix + name, addr), name, addr);
}

/// Writing a table keeps names distinct, and leaves a key alone that is
/// neither a prefixed key nor a bare name of the entries written.
pub proof fn lemma_overwrite_fold_keeps(
    symbols: Entries,
    prefix: Seq<char>,
    table: Entries,
    from: int,
    key: Seq<char>,
)
    requires
        distinct_names(symbols),
        0 <= from,
        map_of(symbols).contains_key(key),
        forall|j: int|
            from <= j < table.len() ==> prefix + (#[trigger] table[j]).0 != key && table[j].0
                != key,
    ensures
        distinct_names(overwrite_fold(symbols, prefix, table, from)),
        map_of(overwrite_fold(symbols, prefix, table, from)).contains_key(key),
        map_of(overwrite_fold(symbols, prefix, table, from))[key] == map_of(symbols)[key],
    decreases table.len() - from,
{
    if from < table.len() {
        let next = overwrite_step(symbols, prefix, table[from].0, table[from].1);
        lemma_overwrite_step(symbols, prefix, table[from].0, table[from].1);
        lemma_overwrite_fold_keeps(next, prefix, table, from + 1, key);
    }
}

/// Writing a table keeps names distinct.
pub proof fn lemma_overwrite_fold_distinct(
    symbols: Entries,
    prefix: Seq<char>,
    table: Entries,
    from: int,
)
    requires
        distinct_names(symbols),
        0 <= from,
    ensures
        distinct_names(overwrite_fold(symbols, prefix, table, from)),
    decreases table.len() - from,
{
    if from < table.len() {
        lemma_overwrite_step(symbols, prefix, table[from].0, table[from].1);
        lemma_overwrite_fold_distinct(
            overwrite_step(symbols, prefix, table[from].0, table[from].1),
            prefix,
            table,
            from + 1,
        );
    }
}

/// After a table is written, the prefixed key of an entry holds the entry's
/// address, unless a later entry has that prefixed key as its bare name.
pub proof fn lemma_overwrite_fold_prefixed(
    symbols: Entries,
    prefix: Seq<char>,
    table: Entries,
    from: int,
    i: int,
)
    requires
        distinct_names(symbols),
        distinct_names(table),
        prefix.len() > 0,
        0 <= from <= i < table.len(),
        forall|j: int| i < j < table.len() ==> (#[trigger] table[j]).0 != prefix + table[i].0,
    ensures
        map_of(overwrite_fold(symbols, prefix, table, from)).contains_key(prefix + table[i].0),
        map_of(overwrite_fold(symbols, prefix, table, from))[prefix + table[i].0] == table[i].1,
    decreases table.len() - from,
{
    let next = overwrite_step(symbols, prefix, table[from].0, table[from].1);
    lemma_overwrite_step(symbols, prefix, table[from].0, table[from].1);
    if from == i {
        let key = prefix + table[i].0;
        assert forall|j: int| from + 1 <= j < table.len() implies prefix + (#[trigger] table[j]).0
            != key && table[j].0 != key by {
            if prefix + table[j].0 == key {
                lemma_prefix_cancel(prefix, table[j].0, table[i].0);
            }
        }
        lemma_overwrite_fold_keeps(next, prefix, table, from + 1, key);
    } else {
        lemma_overwrite_fold_prefixed(next, prefix, table, from + 1, i);
    }
}

/// The prefixes of the import and of the export table never give the same key.
pub proof fn lemma_iat_eat_keys_differ(a: Seq<char>, b: Seq<char>)
    ensures
        "iat."@ + a != "eat."@ + b,
{
    reveal_strlit("iat.");
    reveal_strlit("eat.");
    assert(("iat."@ + a)[0] == 'i');
}

/// Closure under prefix, imports: every name of the import table is in the
/// symbols under `iat.` with its address.
pub proof fn lemma_iat_prefix(eat: Entries, iat: Entries, name: Seq<char>)
    requires
        distinct_names(eat),
        distinct_names(iat),
        map_of(iat).contains_key(name),
    ensures
        map_of(pe_aggregate(eat, iat)).contains_key("iat."@ + name),
        map_of(pe_aggregate(eat, iat))["iat."@ + name] == map_of(iat)[name],
{
    let empty: Entries = Seq::empty();
    let written = overwrite_fold(empty, "eat."@, eat, 0);
    lemma_overwrite_fold_distinct(empty, "eat."@, eat, 0);
    lemma_merge_fold_key(written, "iat."@, iat, 0, "iat."@ + name);
    lemma_map_of_dom(iat, name);
    let i = choose|i: int| 0 <= i < iat.len() && (#[trigger] iat[i]).0 == name;
    lemma_map_of_entry(iat, i);
}

/// Closure under prefix, exports: the `i`-th export is in the symbols under
/// `eat.` with its address, unless a later export has that very key as its
/// name (the exports `foo` and, after it, `eat.foo` are such a pair).
pub proof fn lemma_eat_prefix(eat: Entries, iat: Entries, i: int)
    requires
        distinct_names(eat),
        distinct_names(iat),
        0 <= i < eat.len(),
        forall|j: int| i < j < eat.len() ==> (#[trigger] eat[j]).0 != "eat."@ + eat[i].0,
    ensures
        map_of(pe_aggregate(eat, iat)).contains_key("eat."@ + eat[i].0),
        map_of(pe_aggregate(eat, iat))["eat."@ + eat[i].0] == eat[i].1,
{
    reveal_strlit("eat.");
    let empty: Entries = Seq::empty();
    let key = "eat."@ + eat[i].0;
    let written = overwrite_fold(empty, "eat."@, eat, 0);
    lemma_overwrite_fold_distinct(empty, "eat."@, eat, 0);
    lemma_overwrite_fold_prefixed(empty, "eat."@, eat, 0, i);
    lemma_merge_fold_key(written, "iat."@, iat, 0, key);
    assert(!prefixed_from(iat, 0, "iat."@, key)) by {
        if prefixed_from(iat, 0, "iat."@, key) {
            let j = choose|j: int| 0 <= j < iat.len() && "iat."@ + (#[trigger] iat[j]).0 == key;
            lemma_iat_eat_keys_differ(iat[j].0, eat[i].0);
        }
    }
}

/// No name of the table is the key that an earlier name of it has under
/// `prefix`.
pub open spec fn no_name_prefixed(table: Entries, prefix: Seq<char>) -> bool {
    forall|i: int, j: int|
        0 <= i < j < table.len() ==> (#[trigger] table[j]).0 != prefix + (#[trigger] table[i]).0
}

/// Closure under prefix, the whole export table: where no export is named as
/// the prefixed key of an earlier one, every export is in the symbols under
/// `eat.` with its address.
pub proof fn lemma_eat_closed(eat: Entries, iat: Entries)
    requires
        distinct_names(eat),
        distinct_names(iat),
        no_name_prefixed(eat, "eat."@),
    ensures
        closed_under_prefix(map_of(pe_aggregate(eat, iat)), "eat."@, map_of(eat)),
{
    assert forall|n: Seq<char>| #[trigger] map_of(eat).contains_key(n) implies map_of(
        pe_aggregate(eat, iat),
    ).contains_key("eat."@ + n) && map_of(pe_aggregate(eat, iat))["eat."@ + n] == map_of(eat)[n] by {
        lemma_map_of_dom(eat, n);
        let i = choose|i: int| 0 <= i < eat.len() && (#[trigger] eat[i]).0 == n;
        lemma_map_of_entry(eat, i);
        lemma_eat_prefix(eat, iat, i);
    }
}

/// Priority of exports: a name of the export table resolves to the address of
/// the last export written under it, whatever the import table holds: the
/// `i`-th export wins its bare name unless a later export has that name as its
/// prefixed key, or the name is the prefixed key of an import.
pub proof fn lemma_export_wins(eat: Entries, iat: Entries, i: int)
    requires
        distinct_names(eat),
        distinct_names(iat),
        0 <= i < eat.len(),
        forall|j: int| i < j < eat.len() ==> "eat."@ + (#[trigger] eat[j]).0 != eat[i].0,
        !prefixed_from(iat, 0, "iat."@, eat[i].0),
    ensures
        map_of(pe_aggregate(eat, iat)).contains_key(eat[i].0),
        map_of(pe_aggregate(eat, iat))[eat[i].0] == eat[i].1,
{
    let empty: Entries = Seq::empty();
    let written = overwrite_fold(empty, "eat."@, eat, 0);
    lemma_overwrite_fold_distinct(empty, "eat."@, eat, 0);
    lemma_overwrite_fold_bare(empty, "eat."@, eat, 0, i);
    lemma_merge_fold_key(written, "iat."@, iat, 0, eat[i].0);
}

/// After a table is written, the bare name of an entry holds the entry's
/// address, unless a later entry has that name as its prefixed key.
pub proof fn lemma_overwrite_fold_bare(
    symbols: Entries,
    prefix: Seq<char>,
    table: Entries,
    from: int,
    i: int,
)
    requires
        distinct_names(symbols),
        distinct_names(table),
        0 <= from <= i < table.len(),
        forall|j: int| i < j < table.len() ==> prefix + (#[trigger] table[j]).0 != table[i].0,
    ensures
        map_of(overwrite_fold(symbols, prefix, table, from)).contains_key(table[i].0),
        map_of(overwrite_fold(symbols, prefix, table, from))[table[i].0] == table[i].1,
    decreases table.len() - from,
{
    let next = overwrite_step(symbols, prefix, table[from].0, table[from].1);
    lemma_overwrite_step(symbols, prefix, table[from].0, table[from].1);
    if from == i {
        let key = table[i].0;
        lemma_overwrite_fold_keeps(next, prefix, table, from + 1, key);
    } else {
        lemma_overwrite_fold_bare(next, prefix, table, from + 1, i);
    }
}

/// Statically linked input: for an ELF image without a `PT_INTERP` program
/// header, both the GOT map and the PLT map are empty, whatever its sections
/// hold and whatever outcomes are handed in.
pub proof fn lemma_static_image(
    raw: Seq<u8>,
    img: ElfView,
    config: PltConfig,
    got: Entries,
    outcomes: Seq<Seq<StubOutcome>>,
)
    requires
        object_view(raw) == ObjectView::Elf(img),
        !is_dynamic(img.program_types),
    ensures
        got_of(raw) == Ok::<Entries, ErrorKind>(Seq::empty()),
        plt_of(raw, config, got, outcomes) == Ok::<Entries, ErrorKind>(Seq::empty()),
{
}

/// No zero addresses, static symbols of an image: whatever its symbol tables
/// hold, the static symbols never hold the address zero.
pub proof fn lemma_static_sections_nonzero(raw: Seq<u8>, img: ElfView, from: int, symbols: Entries)
    requires
        nonzero(symbols),
        0 <= from,
    ensures
        match static_sections(raw, img, from, symbols) {
            Ok(after) => nonzero(after),
            Err(_) => true,
        },
    decreases img.sections.len() - from,
{
    if from < img.sections.len() {
        match static_section(raw, img, from, symbols) {
            Ok(next) => {
                if symbol_table(raw, img, from) is Some {
                    lemma_static_fold_nonzero(symbols, symbol_table(raw, img, from).unwrap(), 0);
                }
                lemma_static_sections_nonzero(raw, img, from + 1, next);
            },
            Err(_) => {},
        }
    }
}

/// The relocation adds to the GOT map: it has a symbol, and the symbol has a
/// name that can be read.
pub open spec fn contributes(reloc: Relocation, table: SymbolTableView) -> bool {
    reloc.symbol != 0 && reloc.symbol < table.symbols.len() && table.names[reloc.symbol as int]
        is Name
}

/// Every relocation that adds to the GOT map, of every relocation section of
/// the image from section `from` on, has an offset other than zero.
pub open spec fn offsets_nonzero(raw: Seq<u8>, img: ElfView, from: int) -> bool {
    forall|idx: int, i: int|
        from <= idx < img.sections.len() && is_reloc_section(img.sections[idx]) && reloc_table(
            raw,
            img,
            idx,
        ) is Some && 0 <= i < reloc_table(raw, img, idx).unwrap().0.len() && contributes(
            reloc_table(raw, img, idx).unwrap().0[i],
            reloc_table(raw, img, idx).unwrap().1,
        ) ==> (#[trigger] reloc_table(raw, img, idx).unwrap().0[i]).offset != 0
}

/// No zero addresses, GOT of an image: where no relocation has the offset
/// zero, the GOT map holds no zero.
pub proof fn lemma_got_sections_nonzero(raw: Seq<u8>, img: ElfView, from: int, got: Entries)
    requires
        nonzero(got),
        0 <= from,
        offsets_nonzero(raw, img, from),
    ensures
        match got_sections(raw, img, from, got) {
            Ok(after) => nonzero(after),
            Err(_) => true,
        },
    decreases img.sections.len() - from,
{
    if from < img.sections.len() {
        match got_section(raw, img, from, got) {
            Ok(next) => {
                if is_reloc_section(img.sections[from]) && reloc_table(raw, img, from) is Some {
                    let tables = reloc_table(raw, img, from).unwrap();
                    lemma_got_fold_nonzero(got, tables.0, tables.1, 0);
                }
                lemma_got_sections_nonzero(raw, img, from + 1, next);
            },
            Err(_) => {},
        }
    }
}

/// No zero addresses, symbols of an image: where neither the PLT map nor the
/// GOT map holds the address zero, the symbols hold none.
pub proof fn lemma_symbols_nonzero(raw: Seq<u8>, img: ElfView, plt: Entries, got: Entries)
    requires
        nonzero(plt),
        nonzero(got),
    ensures
        match symbols_of_image(raw, img, plt, got) {
            Ok(symbols) => nonzero(symbols) && forall|name: Seq<char>| #[trigger]
                map_of(symbols).contains_key(name) ==> map_of(symbols)[name] != 0,
            Err(_) => true,
        },
{
    let empty: Entries = Seq::empty();
    lemma_static_sections_nonzero(raw, img, 0, empty);
    match static_sections(raw, img, 0, empty) {
        Ok(statics) => {
            lemma_aggregate_nonzero(statics, plt, got);
            let symbols = aggregate(statics, plt, got);
            assert forall|name: Seq<char>| #[trigger]
                map_of(symbols).contains_key(name) implies map_of(symbols)[name] != 0 by {
                lemma_nonzero_map(symbols, name);
            }
        },
        Err(_) => {},
    }
}

/// No zero addresses, export table: where no export has the address zero,
/// the table holds none.
pub proof fn lemma_eat_fold_nonzero(eat: Entries, exports: Seq<ExportView>, from: int)
    requires
        nonzero(eat),
        0 <= from,
        forall|i: int| from <= i < exports.len() ==> (#[trigger] exports[i]).rva != 0,
    ensures
        match eat_fold(eat, exports, from) {
            Ok(after) => nonzero(after),
            Err(_) => true,
        },
    decreases exports.len() - from,
{
    if from < exports.len() {
        match export_name(exports[from]) {
            Some(n) => {
                lemma_upsert_nonzero(eat, n, exports[from].rva);
                lemma_eat_fold_nonzero(upsert(eat, n, exports[from].rva), exports, from + 1);
            },
            None => {},
        }
    }
}

/// No zero addresses, import table: where no import has the offset zero, the
/// table holds none.
pub proof fn lemma_iat_fold_nonzero(iat: Entries, imports: Seq<(Seq<char>, u64)>, from: int)
    requires
        nonzero(iat),
        0 <= from,
        forall|i: int| from <= i < imports.len() ==> (#[trigger] imports[i]).1 != 0,
    ensures
        nonzero(iat_fold(iat, imports, from)),
    decreases imports.len() - from,
{
    if from < imports.len() {
        lemma_upsert_nonzero(iat, imports[from].0, imports[from].1);
        lemma_iat_fold_nonzero(
            upsert(iat, imports[from].0, imports[from].1),
            imports,
            from + 1,
        );
    }
}

/// No zero addresses, overwriting: where neither the symbols nor the table
/// hold the address zero, neither does the result.
pub proof fn lemma_overwrite_fold_nonzero(
    symbols: Entries,
    prefix: Seq<char>,
    table: Entries,
    from: int,
)
    requires
        nonzero(symbols),
        nonzero(table),
        0 <= from,
    ensures
        nonzero(overwrite_fold(symbols, prefix, table, from)),
    decreases table.len() - from,
{
    if from < table.len() {
        let name = table[from].0;
        let addr = table[from].1;
        lemma_upsert_nonzero(symbols, prefix + name, addr);
        lemma_upsert_nonzero(upsert(symbols, prefix + name, addr), name, addr);
        lemma_overwrite_fold_nonzero(
            overwrite_step(symbols, prefix, name, addr),
            prefix,
            table,
            from + 1,
        );
    }
}

/// No zero addresses, symbols of a PE image: where neither table holds the
/// address zero, the symbols hold none.
pub proof fn lemma_pe_aggregate_nonzero(eat: Entries, iat: Entries)
    requires
        nonzero(eat),
        nonzero(iat),
    ensures
        nonzero(pe_aggregate(eat, iat)),
{
    let empty: Entries = Seq::empty();
    lemma_overwrite_fold_nonzero(empty, "eat."@, eat, 0);
    lemma_merge_fold_nonzero(overwrite_fold(empty, "eat."@, eat, 0), "iat."@, iat, 0);
}

/// Every read of a plan is what a candidate of a planned section observed.
pub proof fn lemma_plan_reads_candidate(
    plan: Seq<PltSection>,
    outcomes: Seq<Seq<StubOutcome>>,
    upto: int,
    k: int,
)
    requires
        0 <= upto <= plan.len(),
        forall|j: int| 0 <= j < plan.len() ==> (#[trigger] plan[j]).setup.wf(),
        0 <= k < plan_reads(plan, outcomes, upto).len(),
    ensures
        exists|j: int, i: int| #[trigger]
            candidate_read(plan, outcomes, j, i, plan_reads(plan, outcomes, upto)[k]),
    decreases upto,
{
    let before = plan_reads(plan, outcomes, upto - 1);
    if k < before.len() {
        lemma_plan_reads_candidate(plan, outcomes, upto - 1, k);
        let (j, i) = choose|j: int, i: int| #[trigger]
            candidate_read(plan, outcomes, j, i, before[k]);
        assert(candidate_read(plan, outcomes, j, i, plan_reads(plan, outcomes, upto)[k]));
    } else {
        let setup = plan[upto - 1].setup;
        let given = outcomes_of(outcomes, upto - 1);
        let count = covered(setup, given);
        let read = trace_reads(setup, given, count)[k - before.len()];
        assert(plan_reads(plan, outcomes, upto)[k] == read);
        lemma_trace_reads_observed(setup, given, count, k - before.len());
        let i = choose|i: int|
            0 <= i < count && #[trigger] given[i] == StubOutcome::Observed(read.1) && read.0
                == setup.candidate_address(i) as u64;
        assert(setup.stride * i <= setup.stride * setup.candidates) by (nonlinear_arith)
            requires
                0 <= i <= setup.candidates,
        ;
        assert(candidate_read(plan, outcomes, upto - 1, i, read));
    }
}

/// PLT/GOT correspondence: every name of the PLT map is a name of the GOT
/// map, and its stub is a candidate of a planned section, a whole number of
/// strides from the section's start, whose run ended with the read of the
/// slot of that name.
pub proof fn lemma_plan_observed(got: Entries, plan: Seq<PltSection>, outcomes: Seq<Seq<StubOutcome>>)
    requires
        distinct_names(got),
        forall|j: int| 0 <= j < plan.len() ==> (#[trigger] plan[j]).setup.wf(),
    ensures
        stubs_observed(
            cross_fold(Seq::empty(), got, plan_reads(plan, outcomes, plan.len() as int), 0),
            got,
            plan,
            outcomes,
        ),
{
    let empty: Entries = Seq::empty();
    let reads = plan_reads(plan, outcomes, plan.len() as int);
    let plt = cross_fold(empty, got, reads, 0);
    lemma_cross_fold_reads(empty, got, reads, 0);
    assert forall|name: Seq<char>| #[trigger] map_of(plt).contains_key(name) implies map_of(
        got,
    ).contains_key(name) && exists|j: int, i: int| #[trigger]
        candidate_read(plan, outcomes, j, i, (map_of(plt)[name], map_of(got)[name])) by {
        let k = choose|k: int|
            0 <= k < reads.len() && #[trigger] reads[k] == (map_of(plt)[name], map_of(got)[name]);
        lemma_plan_reads_candidate(plan, outcomes, plan.len() as int, k);
    }
}

/// No planned section starts at the address zero.
pub open spec fn sections_nonzero(plan: Seq<PltSection>) -> bool {
    forall|j: int| 0 <= j < plan.len() ==> (#[trigger] plan[j]).setup.code_addr != 0
}

/// No zero addresses, PLT: where no PLT section lies at the address zero, the
/// PLT map holds no zero.
pub proof fn lemma_plt_nonzero(
    plt: Entries,
    got: Entries,
    plan: Seq<PltSection>,
    outcomes: Seq<Seq<StubOutcome>>,
)
    requires
        distinct_names(plt),
        stubs_observed(plt, got, plan, outcomes),
        sections_nonzero(plan),
    ensures
        nonzero(plt),
{
    assert forall|k: int| 0 <= k < plt.len() implies (#[trigger] plt[k]).1 != 0 by {
        lemma_map_of_entry(plt, k);
        let name = plt[k].0;
        assert(map_of(plt).contains_key(name));
        let (j, i) = choose|j: int, i: int| #[trigger]
            candidate_read(plan, outcomes, j, i, (map_of(plt)[name], map_of(got)[name]));
        assert(plan[j].setup.stride * i >= 0) by (nonlinear_arith)
            requires
                i >= 0,
                plan[j].setup.stride >= 0,
        ;
    }
}

} // verus!
