use bochumoxide::binary_handling::elf::{
    has_interpreter, ingest_relocations, ingest_symbols, merge_prefixed, prefixed,
    section_by_name, to_usize, SymbolMap, SymbolTable,
};
use bochumoxide::binary_handling::image::{
    DynEntry, ElfImage, ExportEntry, ImportEntry, NameLookup, PeImage, Relocation, SectionRef,
    SymbolRecord,
};
use bochumoxide::binary_handling::pe::{
    aggregate_pe, build_eat, build_iat, ordinal_key, write_prefixed,
};
use bochumoxide::binary_handling::plt::{
    cross_reference, emulate_plt_instructions, emulator_setup, find_pltgot, plan_plt,
    CandidateState, CpuArch, CpuMode, PltConfig, StubOutcome, StubTrace,
};
use bochumoxide::error::ErrorKind;
use bochumoxide::name_map::NameMap;

fn map_of(entries: &[(&str, u64)]) -> SymbolMap {
    let mut map: SymbolMap = NameMap::new();
    for entry in entries {
        map.insert(entry.0.to_string(), entry.1);
    }
    map
}

fn entries(map: &SymbolMap) -> Vec<(String, u64)> {
    (0..map.len()).map(|i| (map.name_at(i).clone(), *map.value_at(i))).collect()
}

fn named(name: &str) -> NameLookup {
    NameLookup::Name(name.to_string())
}

fn section(name: NameLookup, kind: u32) -> SectionRef {
    SectionRef::new(name, kind, 0, 0, 0, 0, 0)
}

fn image(machine: u16, is_64: bool, sections: Vec<SectionRef>) -> ElfImage {
    ElfImage {
        is_64,
        little_endian: true,
        machine,
        program_types: vec![1, 3, 2],
        sections,
        dynamic: Some(vec![DynEntry { tag: 1, val: 9 }, DynEntry { tag: 3, val: 0x4000 }]),
    }
}

#[test]
fn name_map_keeps_first_insertion_order() {
    let mut map = map_of(&[("b", 2), ("a", 1), ("c", 3)]);
    map.insert("a".to_string(), 10);
    assert_eq!(
        entries(&map),
        vec![("b".to_string(), 2), ("a".to_string(), 10), ("c".to_string(), 3)]
    );
    assert_eq!(map.get("a"), Some(&10));
    assert_eq!(map.get("d"), None);
    assert!(map.contains_key("c"));
    assert!(!map.contains_key("C"));
    assert_eq!(map.keys(), vec!["b", "a", "c"]);
    assert!(!map.is_empty());
    let empty: SymbolMap = NameMap::new();
    assert!(empty.is_empty());
    assert_eq!(empty.len(), 0);
}

#[test]
fn interpreter_marks_dynamic_linking() {
    assert!(has_interpreter(&vec![6, 3, 1]));
    assert!(!has_interpreter(&vec![6, 1, 1, 2]));
    assert!(!has_interpreter(&vec![]));
}

#[test]
fn section_lookup_finds_the_first_of_a_name() {
    let sections = vec![
        section(named(""), 0),
        section(NameLookup::Missing, 1),
        section(named(".plt"), 1),
        section(named(".plt.got"), 1),
        section(named(".plt"), 7),
        section(NameLookup::Invalid, 1),
        section(named(".late"), 1),
    ];
    assert_eq!(section_by_name(&sections, ".plt"), Ok(Some(2)));
    assert_eq!(section_by_name(&sections, ".plt.got"), Ok(Some(3)));
    assert_eq!(section_by_name(&sections, ""), Ok(Some(0)));
    // a name that cannot be read fails the lookup of anything behind it
    assert_eq!(section_by_name(&sections, ".late"), Err(ErrorKind::MalformedElf));
    assert_eq!(section_by_name(&sections, ".plt.sec"), Err(ErrorKind::MalformedElf));
    let readable = vec![section(named(".text"), 1), section(NameLookup::Missing, 1)];
    assert_eq!(section_by_name(&readable, ".plt.sec"), Ok(None));
}

#[test]
fn offsets_that_fit_are_kept() {
    assert_eq!(to_usize(0), Some(0));
    assert_eq!(to_usize(0x1234_5678), Some(0x1234_5678));
    if usize::MAX as u64 == u64::MAX {
        assert_eq!(to_usize(u64::MAX), Some(usize::MAX));
    } else {
        assert_eq!(to_usize(u64::MAX), None);
    }
}

fn table() -> SymbolTable {
    SymbolTable {
        symbols: vec![
            SymbolRecord { name_offset: 0, value: 0 },
            SymbolRecord { name_offset: 1, value: 0 },
            SymbolRecord { name_offset: 6, value: 0x1000 },
            SymbolRecord { name_offset: 900, value: 0x2000 },
            SymbolRecord { name_offset: 12, value: 0 },
        ],
        names: vec![
            named(""),
            named("puts"),
            named("main"),
            NameLookup::Missing,
            NameLookup::Invalid,
        ],
    }
}

#[test]
fn relocations_bind_names_to_offsets() {
    let mut got: SymbolMap = NameMap::new();
    let relocations = vec![
        Relocation { symbol: 0, offset: 0x10 },
        Relocation { symbol: 1, offset: 0x20 },
        Relocation { symbol: 77, offset: 0x40 },
        Relocation { symbol: 2, offset: 0x50 },
        Relocation { symbol: 1, offset: 0x60 },
    ];
    assert_eq!(ingest_relocations(&mut got, &relocations, &table()), Ok(()));
    assert_eq!(entries(&got), vec![("puts".to_string(), 0x60), ("main".to_string(), 0x50)]);

    // a name that cannot be read, or lies outside the string table, is fatal
    for symbol in [4, 3] {
        let mut got: SymbolMap = NameMap::new();
        let relocations = vec![Relocation { symbol, offset: 0x10 }];
        assert_eq!(
            ingest_relocations(&mut got, &relocations, &table()),
            Err(ErrorKind::MalformedElf)
        );
    }
}

#[test]
fn static_symbols_need_a_name_unless_their_value_is_zero() {
    let mut symbols: SymbolMap = NameMap::new();
    let mut good = table();
    good.symbols.truncate(3);
    good.names.truncate(3);
    assert_eq!(ingest_symbols(&mut symbols, &good), Ok(()));
    assert_eq!(entries(&symbols), vec![("main".to_string(), 0x1000)]);

    let mut symbols: SymbolMap = NameMap::new();
    assert_eq!(ingest_symbols(&mut symbols, &table()), Err(ErrorKind::MalformedElf));
}

#[test]
fn merging_keeps_what_is_bound_and_always_writes_the_prefixed_key() {
    assert_eq!(prefixed("plt.", "puts"), "plt.puts");
    let mut symbols = map_of(&[("main", 0x1000), ("puts", 0x1111), ("plt.exit", 0x7)]);
    let plt = map_of(&[("puts", 0x510), ("exit", 0x520)]);
    let got = map_of(&[("puts", 0x4018), ("exit", 0x4020), ("stdout", 0x4028)]);
    merge_prefixed(&mut symbols, "plt.", &plt);
    merge_prefixed(&mut symbols, "got.", &got);
    // static wins over PLT, PLT over GOT
    assert_eq!(symbols.get("puts"), Some(&0x1111));
    assert_eq!(symbols.get("exit"), Some(&0x520));
    assert_eq!(symbols.get("stdout"), Some(&0x4028));
    // prefixed keys are always written, over what was there
    assert_eq!(symbols.get("plt.puts"), Some(&0x510));
    assert_eq!(symbols.get("plt.exit"), Some(&0x520));
    assert_eq!(symbols.get("got.puts"), Some(&0x4018));
    assert_eq!(symbols.get("got.exit"), Some(&0x4020));
    assert_eq!(symbols.get("got.stdout"), Some(&0x4028));
    assert_eq!(symbols.get("main"), Some(&0x1000));
    assert_eq!(symbols.len(), 9);
    for i in 0..symbols.len() {
        assert_ne!(*symbols.value_at(i), 0);
    }
}

#[test]
fn emulator_is_set_up_from_the_image() {
    let config = PltConfig::standard();
    assert_eq!(config.candidate_stride, 4);
    assert_eq!(config.per_candidate_timeout_ms, 1000);
    assert_eq!(config.page_size, 4096);

    let setup = emulator_setup(false, true, 3, 0x1fd8, 0x3a0, 0x30, &config).unwrap();
    assert_eq!(setup.arch, CpuArch::X86);
    assert_eq!(setup.mode, CpuMode::Mode32);
    assert_eq!((setup.map_start, setup.map_end), (0, 0x1000));
    assert_eq!(setup.code_addr, 0x3a0);
    assert_eq!(setup.got_base, Some(0x1fd8));
    assert_eq!(setup.timeout_us, 1_000_000);
    assert_eq!(setup.max_instructions, 0x1000);
    assert_eq!((setup.stride, setup.candidates), (4, 12));

    let setup = emulator_setup(true, true, 62, 0x1fd8, 0x211e0, 0x1e25, &config).unwrap();
    assert_eq!(setup.arch, CpuArch::X86);
    assert_eq!(setup.mode, CpuMode::Mode64);
    assert_eq!((setup.map_start, setup.map_end), (0x21000, 0x24000));
    assert_eq!(setup.got_base, None);
    assert_eq!(setup.candidates, 0x789);

    let setup = emulator_setup(false, false, 40, 7, 0x10000, 0x1000, &config).unwrap();
    assert_eq!(setup.arch, CpuArch::Arm);
    assert_eq!(setup.mode, CpuMode::BigEndian);
    assert_eq!((setup.map_start, setup.map_end), (0x10000, 0x11000));
    assert_eq!(setup.got_base, None);

    let setup = emulator_setup(true, true, 183, 7, 0x5c0, 0, &config).unwrap();
    assert_eq!(setup.arch, CpuArch::Arm64);
    assert_eq!(setup.mode, CpuMode::LittleEndian);
    assert_eq!((setup.map_start, setup.map_end), (0, 0x1000));
    assert_eq!(setup.candidates, 0);

    assert_eq!(
        emulator_setup(true, true, 8, 0, 0x1000, 16, &config),
        Err(ErrorKind::UnsupportedArchitecture)
    );
    let top = emulator_setup(true, true, 62, 0, u64::MAX - 0x1fff, 0x1000, &config).unwrap();
    assert_eq!((top.map_start, top.map_end), (u64::MAX - 0x1fff, u64::MAX - 0xfff));
    assert_eq!(
        emulator_setup(true, true, 62, 0, u64::MAX - 0x10, 0x20, &config),
        Err(ErrorKind::EmulatorSetupFailed)
    );
    assert_eq!(
        emulator_setup(true, true, 62, 0, u64::MAX - 0x1ffe, 0x1000, &config),
        Err(ErrorKind::EmulatorSetupFailed)
    );

    let wide = PltConfig { candidate_stride: 16, per_candidate_timeout_ms: u64::MAX, page_size: 0x10000 };
    let setup = emulator_setup(true, true, 62, 0, 0x12345, 0x100, &wide).unwrap();
    assert_eq!((setup.map_start, setup.map_end), (0x10000, 0x20000));
    assert_eq!(setup.candidates, 16);
    assert_eq!(setup.timeout_us, u64::MAX);
}

#[test]
fn candidates_run_one_after_another() {
    let config = PltConfig::standard();
    let setup = emulator_setup(false, true, 3, 0x1fd8, 0x3a0, 0x10, &config).unwrap();
    let mut trace = StubTrace::new(setup);
    assert_eq!(trace.current_state(), CandidateState::Ready);
    assert_eq!(trace.emulator(), setup);

    assert_eq!(trace.begin(), Some(0x3a0));
    assert_eq!(trace.current_state(), CandidateState::Running);
    trace.complete(StubOutcome::Observed(0x1fe4));
    assert_eq!(trace.current_state(), CandidateState::Observed(0x1fe4));

    assert_eq!(trace.begin(), Some(0x3a4));
    trace.complete(StubOutcome::Timeout);
    assert_eq!(trace.current_state(), CandidateState::Timeout);

    assert_eq!(trace.begin(), Some(0x3a8));
    trace.complete(StubOutcome::Observed(0));
    assert_eq!(trace.current_state(), CandidateState::Observed(0));

    assert_eq!(trace.begin(), Some(0x3ac));
    trace.complete(StubOutcome::NoRead);
    assert_eq!(trace.current_state(), CandidateState::NoRead);

    assert_eq!(trace.begin(), None);
    assert_eq!(trace.current_state(), CandidateState::NoRead);
    assert_eq!(trace.finish(), vec![(0x3a0, 0x1fe4)]);
}

#[test]
fn only_observed_reads_other_than_zero_are_recorded() {
    let img = image(62, true, vec![]);
    let outcomes = vec![
        StubOutcome::NoRead,
        StubOutcome::Observed(0x200fd0),
        StubOutcome::Observed(0),
        StubOutcome::Timeout,
        StubOutcome::Observed(0x200fd0),
        StubOutcome::Observed(0x200fd8),
    ];
    let reads =
        emulate_plt_instructions(&img, 0x4000, 0x500, 24, &PltConfig::standard(), &outcomes);
    assert_eq!(reads, Ok(vec![(0x504, 0x200fd0), (0x510, 0x200fd0), (0x514, 0x200fd8)]));
    // a section of ten bytes has two candidates; what else is handed in is not looked at
    let reads =
        emulate_plt_instructions(&img, 0x4000, 0x500, 10, &PltConfig::standard(), &outcomes);
    assert_eq!(reads, Ok(vec![(0x504, 0x200fd0)]));
    let reads = emulate_plt_instructions(&img, 0x4000, 0x500, 24, &PltConfig::standard(), &vec![]);
    assert_eq!(reads, Ok(vec![]));
    let mips = image(8, true, vec![]);
    assert_eq!(
        emulate_plt_instructions(&mips, 0x4000, 0x500, 24, &PltConfig::standard(), &outcomes),
        Err(ErrorKind::UnsupportedArchitecture)
    );
}

#[test]
fn reads_of_slots_name_stubs() {
    let got = map_of(&[("puts", 0x4018), ("exit", 0x4020), ("alias", 0x4018), ("free", 0x4030)]);
    let reads = vec![
        (0x1000, 0x4020),
        (0x1004, 0x4020),
        (0x1010, 0x9999),
        (0x1020, 0x4018),
        (0x2000, 0x4020),
    ];
    let plt = cross_reference(&got, &reads);
    // a later read of a slot replaces an earlier one; of two names for one
    // slot the later one of the table is taken
    assert_eq!(entries(&plt), vec![("exit".to_string(), 0x2000), ("alias".to_string(), 0x1020)]);
    for i in 0..plt.len() {
        let slot = *got.get(plt.name_at(i)).unwrap();
        assert!(reads.contains(&(*plt.value_at(i), slot)));
    }
    assert!(cross_reference(&got, &vec![]).is_empty());
    assert!(cross_reference(&map_of(&[]), &reads).is_empty());
}

#[test]
fn pltgot_is_the_first_entry_of_its_tag() {
    assert_eq!(find_pltgot(&None), None);
    assert_eq!(find_pltgot(&Some(vec![])), None);
    assert_eq!(find_pltgot(&Some(vec![DynEntry { tag: 1, val: 3 }])), None);
    assert_eq!(
        find_pltgot(&Some(vec![
            DynEntry { tag: 1, val: 3 },
            DynEntry { tag: 3, val: 0x4000 },
            DynEntry { tag: 3, val: 0x5000 },
        ])),
        Some(0x4000)
    );
}

#[test]
fn plan_checks_that_sections_lie_in_the_file() {
    let config = PltConfig::standard();
    let plt = SectionRef::new(named(".plt"), 1, 0, 0x1020, 0x100, 0x40, 16);
    let sec = SectionRef::new(named(".plt.sec"), 1, 0, 0x1060, 0x140, 0x20, 16);
    let img = image(62, true, vec![section(named(""), 0), sec, plt]);
    let plan = plan_plt(0x160, &img, &config).unwrap();
    assert_eq!(plan.len(), 2);
    assert_eq!((plan[0].addr, plan[0].offset, plan[0].size), (0x1020, 0x100, 0x40));
    assert_eq!((plan[1].addr, plan[1].offset, plan[1].size), (0x1060, 0x140, 0x20));
    assert_eq!(plan[0].setup.got_base, None);
    assert_eq!(plan_plt(0x15f, &img, &config), Err(ErrorKind::MalformedElf));

    let mut statically_linked = image(62, true, vec![]);
    statically_linked.program_types = vec![1, 1];
    statically_linked.dynamic = None;
    assert_eq!(plan_plt(0, &statically_linked, &config), Ok(vec![]));
}

fn export(name: Option<&str>, ordinal: Option<usize>, rva: u64) -> ExportEntry {
    ExportEntry { name: name.map(|n| n.to_string()), ordinal, rva }
}

#[test]
fn exports_without_a_name_are_named_after_their_ordinal() {
    assert_eq!(ordinal_key(0), "ordinal_0");
    assert_eq!(ordinal_key(7), "ordinal_7");
    assert_eq!(ordinal_key(10), "ordinal_10");
    assert_eq!(ordinal_key(1234567890), "ordinal_1234567890");
    assert_eq!(ordinal_key(usize::MAX), format!("ordinal_{}", usize::MAX));
    let pe = PeImage {
        imports: vec![],
        exports: vec![
            export(Some("CreateFileW"), None, 0x1000),
            export(None, Some(17), 0x2000),
            export(Some("Twice"), Some(3), 0x3000),
            export(None, Some(4), 0x4000),
            export(Some("Twice"), None, 0x5000),
        ],
    };
    let eat = build_eat(&pe).unwrap();
    assert_eq!(
        entries(&eat),
        vec![
            ("CreateFileW".to_string(), 0x1000),
            ("ordinal_17".to_string(), 0x2000),
            ("Twice".to_string(), 0x5000),
            ("ordinal_4".to_string(), 0x4000),
        ]
    );
    let nameless = PeImage { imports: vec![], exports: vec![export(None, None, 0x1000)] };
    assert_eq!(build_eat(&nameless).err(), Some(ErrorKind::MalformedPe));
    assert_eq!(ErrorKind::MalformedPe.message(), "Could not parse export entry");
}

#[test]
fn exports_win_over_imports() {
    let pe = PeImage {
        imports: vec![
            ImportEntry { name: "SearchPathA".to_string(), offset: 0x814c0 },
            ImportEntry { name: "Shared".to_string(), offset: 0x81000 },
        ],
        exports: vec![
            export(Some("Module32NextW"), None, 0x5a8c0),
            export(Some("Shared"), None, 0x1234),
        ],
    };
    let iat = build_iat(&pe);
    let eat = build_eat(&pe).unwrap();
    let symbols = aggregate_pe(&eat, &iat);
    assert_eq!(symbols.get("Module32NextW"), Some(&0x5a8c0));
    assert_eq!(symbols.get("eat.Module32NextW"), Some(&0x5a8c0));
    assert_eq!(symbols.get("iat.SearchPathA"), Some(&0x814c0));
    assert_eq!(symbols.get("SearchPathA"), Some(&0x814c0));
    assert_eq!(symbols.get("Shared"), Some(&0x1234));
    assert_eq!(symbols.get("iat.Shared"), Some(&0x81000));
    assert_eq!(symbols.get("eat.Shared"), Some(&0x1234));
    assert_eq!(symbols.len(), 7);
}

#[test]
fn an_export_named_like_a_prefixed_key_takes_that_key() {
    let mut symbols: SymbolMap = NameMap::new();
    write_prefixed(&mut symbols, "eat.", &map_of(&[("foo", 1), ("eat.foo", 2)]));
    assert_eq!(symbols.get("eat.foo"), Some(&2));
    assert_eq!(symbols.get("foo"), Some(&1));
    assert_eq!(symbols.get("eat.eat.foo"), Some(&2));
    let mut symbols: SymbolMap = NameMap::new();
    write_prefixed(&mut symbols, "eat.", &map_of(&[("eat.foo", 2), ("foo", 1)]));
    assert_eq!(symbols.get("eat.foo"), Some(&1));
}
