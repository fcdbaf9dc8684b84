//! The PLT resolver: which stub of a procedure linkage table belongs to which
//! symbol.
//!
//! A stub is recognised by what it does, not by how it is written: its first
//! effect is to read its slot of the global offset table.  Each candidate
//! address of a PLT section is run in a CPU emulator, and the first address it
//! reads is recorded.  The emulator itself is driven by the caller; this
//! module decides how it is set up, which candidate runs next, what is kept
//! of each run, and which symbol a recorded read names.

use crate::binary_handling::elf::{
    find_section, has_interpreter, is_dynamic, section_by_name, statically_linked, to_usize,
    Entries, SymbolMap, DT_PLTGOT,
};
use crate::binary_handling::image::{
    object_view, read_elf, DynEntry, ElfImage, ElfView, ObjectView, SectionView,
};
use crate::binary_handling::laws::{
    lemma_plan_observed, lemma_plt_nonzero, nonzero, sections_nonzero,
};
use crate::error::ErrorKind;
use crate::name_map::{map_of, upsert, NameMap};
use vstd::hash_map::HashMapWithView;
use vstd::prelude::*;

verus! {

/// `e_machine` of 32-bit x86.
pub const EM_386: u16 = 3;

/// `e_machine` of 32-bit ARM.
pub const EM_ARM: u16 = 40;

/// `e_machine` of x86-64.
pub const EM_X86_64: u16 = 62;

/// `e_machine` of AArch64.
pub const EM_AARCH64: u16 = 183;

/// The parameters of a resolution pass.
#[derive(Clone, Copy, Debug, PartialEq, Eq, Structural)]
pub struct PltConfig {
    /// Distance in bytes between two candidate addresses.
    pub candidate_stride: u64,
    /// Wall-clock budget of one candidate, in milliseconds.
    pub per_candidate_timeout_ms: u64,
    /// Granularity of the emulator's memory mapping, in bytes.
    pub page_size: u64,
}

impl PltConfig {
    /// Stride and page size are not zero.
    pub open spec fn wf(&self) -> bool {
        self.candidate_stride > 0 && self.page_size > 0
    }

    /// The standard parameters: candidates every 4 bytes, one second per
    /// candidate, pages of 4 KiB.
    pub fn standard() -> (config: PltConfig)
        ensures
            config.wf(),
            config.candidate_stride == 4,
            config.per_candidate_timeout_ms == 1000,
            config.page_size == 4096,
    {
        PltConfig { candidate_stride: 4, per_candidate_timeout_ms: 1000, page_size: 4096 }
    }
}

/// The instruction set that the emulator runs.
#[derive(Clone, Copy, Debug, PartialEq, Eq, Structural)]
pub enum CpuArch {
    X86,
    Arm,
    Arm64,
}

/// The mode of the emulated CPU: operand width for x86, byte order for ARM.
#[derive(Clone, Copy, Debug, PartialEq, Eq, Structural)]
pub enum CpuMode {
    Mode32,
    Mode64,
    LittleEndian,
    BigEndian,
}

/// How the emulator is prepared for one PLT section, and how its candidates run.
#[derive(Clone, Copy, Debug, PartialEq, Eq, Structural)]
pub struct EmulatorSetup {
    pub arch: CpuArch,
    pub mode: CpuMode,
    /// Start of the range to map as read and execute.
    pub map_start: u64,
    /// End of that range; execution also stops on reaching it.
    pub map_end: u64,
    /// Where the bytes of the section are written: its virtual address.
    pub code_addr: u64,
    /// The value that the GOT base register holds when a candidate starts,
    /// where the stubs expect one.
    pub got_base: Option<u64>,
    /// Wall-clock budget of one candidate, in microseconds.
    pub timeout_us: u64,
    /// Instruction budget of one candidate.
    pub max_instructions: u64,
    /// Distance in bytes between two candidate addresses.
    pub stride: u64,
    /// Number of candidates.
    pub candidates: u64,
}

impl EmulatorSetup {
    /// Every candidate address fits in 64 bits.
    pub open spec fn wf(&self) -> bool {
        self.code_addr + self.stride * self.candidates <= u64::MAX
    }

    /// The address of candidate `i`.
    pub open spec fn candidate_address(&self, i: int) -> int {
        self.code_addr + self.stride * i
    }
}

/// The machines whose stubs can be emulated.
pub open spec fn supported_machine(machine: u16) -> bool {
    machine == EM_386 || machine == EM_X86_64 || machine == EM_ARM || machine == EM_AARCH64
}

/// Whether the machine is of the ARM family.
pub open spec fn arm_family(machine: u16) -> bool {
    machine == EM_ARM || machine == EM_AARCH64
}

/// The instruction set for an image.
pub open spec fn arch_of(is_64: bool, machine: u16) -> CpuArch {
    if arm_family(machine) {
        if is_64 {
            CpuArch::Arm64
        } else {
            CpuArch::Arm
        }
    } else {
        CpuArch::X86
    }
}

/// The CPU mode for an image.
pub open spec fn mode_of(is_64: bool, little_endian: bool, machine: u16) -> CpuMode {
    if arm_family(machine) {
        if little_endian {
            CpuMode::LittleEndian
        } else {
            CpuMode::BigEndian
        }
    } else {
        if is_64 {
            CpuMode::Mode64
        } else {
            CpuMode::Mode32
        }
    }
}

/// `x` rounded down to a multiple of `page`.
pub open spec fn page_floor(x: int, page: int) -> int {
    x - x % page
}

/// The per-candidate time budget in microseconds, capped at what 64 bits hold.
pub open spec fn timeout_of(ms: u64) -> u64 {
    if ms * 1000 > u64::MAX {
        u64::MAX
    } else {
        (ms * 1000) as u64
    }
}

/// The emulator setup for a PLT section of `len` bytes at virtual address
/// `addr`: the section's pages are mapped, from the page that holds its first
/// byte to the end of the page that holds its last; 32-bit x86 stubs get the
/// GOT base in a register; each candidate may run as many instructions as the
/// mapping has bytes.
pub open spec fn setup_of(
    is_64: bool,
    little_endian: bool,
    machine: u16,
    got: u64,
    addr: u64,
    len: nat,
    config: PltConfig,
) -> Result<EmulatorSetup, ErrorKind> {
    if !supported_machine(machine) {
        Err(ErrorKind::UnsupportedArchitecture)
    } else if addr + len + config.page_size - 1 > u64::MAX {
        Err(ErrorKind::EmulatorSetupFailed)
    } else {
        let start = page_floor(addr as int, config.page_size as int);
        let end = page_floor(addr + len + config.page_size - 1, config.page_size as int);
        Ok(
            EmulatorSetup {
                arch: arch_of(is_64, machine),
                mode: mode_of(is_64, little_endian, machine),
                map_start: start as u64,
                map_end: end as u64,
                code_addr: addr,
                got_base: if !is_64 && !arm_family(machine) {
                    Some(got)
                } else {
                    None
                },
                timeout_us: timeout_of(config.per_candidate_timeout_ms),
                max_instructions: (end - start) as u64,
                stride: config.candidate_stride,
                candidates: (len / config.candidate_stride as nat) as u64,
            },
        )
    }
}

proof fn lemma_candidates_fit(addr: u64, len: nat, stride: u64)
    requires
        stride > 0,
        addr + len <= u64::MAX,
    ensures
        addr + stride * (len / stride as nat) <= u64::MAX,
        len / stride as nat <= len,
{
    let q = len / stride as nat;
    assert(stride * q <= len) by (nonlinear_arith)
        requires
            stride > 0,
            q == len / stride as nat,
    ;
    assert(q <= len) by (nonlinear_arith)
        requires
            stride > 0,
            q == len / stride as nat,
    ;
}

/// Plans the emulator for a PLT section of `len` bytes at `addr`.
pub fn emulator_setup(
    is_64: bool,
    little_endian: bool,
    machine: u16,
    got: u64,
    addr: u64,
    len: usize,
    config: &PltConfig,
) -> (setup: Result<EmulatorSetup, ErrorKind>)
    requires
        config.wf(),
    ensures
        setup == setup_of(is_64, little_endian, machine, got, addr, len as nat, *config),
        setup is Ok ==> setup.unwrap().wf(),
{
    if !(machine == EM_386 || machine == EM_X86_64 || machine == EM_ARM || machine == EM_AARCH64) {
        return Err(ErrorKind::UnsupportedArchitecture);
    }
    let arm = machine == EM_ARM || machine == EM_AARCH64;
    let len64 = len as u64;
    let slack = config.page_size - 1;
    if len64 > u64::MAX - addr || slack > u64::MAX - addr - len64 {
        return Err(ErrorKind::EmulatorSetupFailed);
    }
    let top = addr + len64 + slack;
    assert(addr % config.page_size <= addr && top % config.page_size <= top) by (nonlinear_arith)
        requires
            config.page_size > 0,
    ;
    let start = addr - addr % config.page_size;
    let end = top - top % config.page_size;
    assert(start <= end) by (nonlinear_arith)
        requires
            start == addr - addr % config.page_size,
            end == top - top % config.page_size,
            top == addr + len64 + slack,
            slack == config.page_size - 1,
            config.page_size > 0,
    ;
    proof {
        lemma_candidates_fit(addr, len as nat, config.candidate_stride);
    }
    Ok(
        EmulatorSetup {
            arch: if arm {
                if is_64 {
                    CpuArch::Arm64
                } else {
                    CpuArch::Arm
                }
            } else {
                CpuArch::X86
            },
            mode: if arm {
                if little_endian {
                    CpuMode::LittleEndian
                } else {
                    CpuMode::BigEndian
                }
            } else {
                if is_64 {
                    CpuMode::Mode64
                } else {
                    CpuMode::Mode32
                }
            },
            map_start: start,
            map_end: end,
            code_addr: addr,
            got_base: if !is_64 && !arm {
                Some(got)
            } else {
                None
            },
            timeout_us: if config.per_candidate_timeout_ms > u64::MAX / 1000 {
                u64::MAX
            } else {
                config.per_candidate_timeout_ms * 1000
            },
            max_instructions: end - start,
            stride: config.candidate_stride,
            candidates: len64 / config.candidate_stride,
        },
    )
}

/// How the run of one candidate ended.
#[derive(Clone, Copy, Debug, PartialEq, Eq, Structural)]
pub enum StubOutcome {
    /// The first memory access read this address.
    Observed(u64),
    /// The time or instruction budget ran out before any read.
    Timeout,
    /// The run ended without a read.
    NoRead,
}

/// The state of the candidate that a trace is at.
#[derive(Clone, Copy, Debug, PartialEq, Eq, Structural)]
pub enum CandidateState {
    /// The CPU context is pristine; nothing has run.
    Ready,
    /// The candidate is executing.
    Running,
    /// The candidate read this address.
    Observed(u64),
    /// The candidate ran out of budget.
    Timeout,
    /// The candidate ended without a read.
    NoRead,
}

/// The end state that an outcome leaves a candidate in.
pub open spec fn end_state(outcome: StubOutcome) -> CandidateState {
    match outcome {
        StubOutcome::Observed(a) => CandidateState::Observed(a),
        StubOutcome::Timeout => CandidateState::Timeout,
        StubOutcome::NoRead => CandidateState::NoRead,
    }
}

/// The slot that the memory hooks of a run write, after an access to
/// `address`: an empty slot takes the address, a filled one keeps what it has.
pub open spec fn noted(slot: Option<u64>, address: u64) -> Option<u64> {
    match slot {
        Some(_) => slot,
        None => Some(address),
    }
}

/// The slot after the accesses of a run, noted in their order.
pub open spec fn slot_after(slot: Option<u64>, accesses: Seq<u64>) -> Option<u64>
    decreases accesses.len(),
{
    if accesses.len() == 0 {
        slot
    } else {
        slot_after(noted(slot, accesses[0]), accesses.drop_first())
    }
}

/// How a run ended, from the slot that its hooks wrote and from whether the
/// emulator stopped at its bounds rather than on a fault.
pub open spec fn outcome_of(slot: Option<u64>, stopped: bool) -> StubOutcome {
    match slot {
        Some(address) => StubOutcome::Observed(address),
        None => if stopped {
            StubOutcome::Timeout
        } else {
            StubOutcome::NoRead
        },
    }
}

/// Notes an access of the running candidate in the slot.  The memory hooks
/// call this for every access, on the slot that was cleared before the run.
pub fn note_access(slot: Option<u64>, address: u64) -> (next: Option<u64>)
    ensures
        next == noted(slot, address),
{
    match slot {
        Some(_) => slot,
        None => Some(address),
    }
}

/// Tells how a run ended.
pub fn run_outcome(slot: Option<u64>, stopped: bool) -> (outcome: StubOutcome)
    ensures
        outcome == outcome_of(slot, stopped),
{
    match slot {
        Some(address) => StubOutcome::Observed(address),
        None => if stopped {
            StubOutcome::Timeout
        } else {
            StubOutcome::NoRead
        },
    }
}

/// A filled slot is not written again.
proof fn lemma_slot_kept(address: u64, accesses: Seq<u64>)
    ensures
        slot_after(Some(address), accesses) == Some(address),
    decreases accesses.len(),
{
    if accesses.len() > 0 {
        lemma_slot_kept(address, accesses.drop_first());
    }
}

/// A run is observed at its first memory access: from an empty slot, the
/// hooks leave the first address that the run touched, zero or not, and the
/// run counts as observed exactly when it touched memory.
pub proof fn lemma_first_access_observed(accesses: Seq<u64>, stopped: bool)
    ensures
        accesses.len() > 0 ==> outcome_of(slot_after(None, accesses), stopped)
            == StubOutcome::Observed(accesses[0]),
        accesses.len() == 0 ==> !(outcome_of(slot_after(None, accesses), stopped) is Observed),
{
    if accesses.len() > 0 {
        lemma_slot_kept(accesses[0], accesses.drop_first());
    }
}

/// What candidate `i` adds to the recorded reads: its address and the address
/// it read, if it read one other than zero.
pub open spec fn contribution(setup: EmulatorSetup, i: int, outcome: StubOutcome) -> Seq<
    (u64, u64),
> {
    match outcome {
        StubOutcome::Observed(a) if a != 0 => seq![(setup.candidate_address(i) as u64, a)],
        _ => Seq::empty(),
    }
}

/// The reads recorded for the first `upto` candidates, in ascending order of
/// their addresses.
pub open spec fn trace_reads(setup: EmulatorSetup, outcomes: Seq<StubOutcome>, upto: int) -> Seq<
    (u64, u64),
>
    decreases upto,
{
    if upto <= 0 {
        Seq::empty()
    } else {
        trace_reads(setup, outcomes, upto - 1) + contribution(
            setup,
            upto - 1,
            outcomes[upto - 1],
        )
    }
}

/// One pass over the candidates of a PLT section.
pub struct StubTrace {
    setup: EmulatorSetup,
    next: u64,
    state: CandidateState,
    reads: Vec<(u64, u64)>,
}

impl StubTrace {
    /// The setup that the pass runs under.
    pub closed spec fn setup(&self) -> EmulatorSetup {
        self.setup
    }

    /// The index of the candidate that runs next, or is running.
    pub closed spec fn position(&self) -> int {
        self.next as int
    }

    /// The state of that candidate, or the end state of the one before it.
    pub closed spec fn state(&self) -> CandidateState {
        self.state
    }

    /// The reads recorded so far.
    pub closed spec fn reads(&self) -> Seq<(u64, u64)> {
        self.reads@
    }

    /// The position is within the candidates, and a running candidate exists.
    pub closed spec fn wf(&self) -> bool {
        &&& self.setup.wf()
        &&& self.next <= self.setup.candidates
        &&& self.state is Running ==> self.next < self.setup.candidates
    }

    /// A pass that has run nothing yet.
    pub fn new(setup: EmulatorSetup) -> (trace: StubTrace)
        requires
            setup.wf(),
        ensures
            trace.wf(),
            trace.setup() == setup,
            trace.position() == 0,
            trace.state() == CandidateState::Ready,
            trace.reads() == Seq::<(u64, u64)>::empty(),
    {
        StubTrace { setup, next: 0, state: CandidateState::Ready, reads: Vec::new() }
    }

    /// The state of the current candidate.
    pub fn current_state(&self) -> (state: CandidateState)
        ensures
            state == self.state(),
    {
        self.state
    }

    /// The setup of the pass.
    pub fn emulator(&self) -> (setup: EmulatorSetup)
        ensures
            setup == self.setup(),
    {
        self.setup
    }

    /// Starts the next candidate: the caller restores the pristine CPU
    /// context, clears the observed address, loads the GOT base where the
    /// setup names one, and runs from the address returned.  `None` when every
    /// candidate has run.
    pub fn begin(&mut self) -> (start: Option<u64>)
        requires
            old(self).wf(),
            !(old(self).state() is Running),
        ensures
            final(self).wf(),
            final(self).setup() == old(self).setup(),
            final(self).position() == old(self).position(),
            final(self).reads() == old(self).reads(),
            match start {
                Some(address) => old(self).position() < old(self).setup().candidates
                    && address == old(self).setup().candidate_address(old(self).position())
                    && final(self).state() == CandidateState::Running,
                None => old(self).position() == old(self).setup().candidates
                    && final(self).state() == old(self).state(),
            },
    {
        if self.next < self.setup.candidates {
            assert(self.setup.stride * self.next <= self.setup.stride * self.setup.candidates)
                by (nonlinear_arith)
                requires
                    self.next <= self.setup.candidates,
            ;
            self.state = CandidateState::Running;
            Some(self.setup.code_addr + self.setup.stride * self.next)
        } else {
            None
        }
    }

    /// Ends the running candidate with `outcome`: an observed address other
    /// than zero is recorded with the candidate's address, anything else is
    /// dropped.
    pub fn complete(&mut self, outcome: StubOutcome)
        requires
            old(self).wf(),
            old(self).state() is Running,
        ensures
            final(self).wf(),
            final(self).setup() == old(self).setup(),
            final(self).position() == old(self).position() + 1,
            final(self).state() == end_state(outcome),
            final(self).reads() == old(self).reads() + contribution(
                old(self).setup(),
                old(self).position(),
                outcome,
            ),
    {
        assert(self.setup.stride * self.next <= self.setup.stride * self.setup.candidates)
            by (nonlinear_arith)
            requires
                self.next <= self.setup.candidates,
        ;
        let address = self.setup.code_addr + self.setup.stride * self.next;
        match outcome {
            StubOutcome::Observed(a) => {
                self.state = CandidateState::Observed(a);
                if a != 0 {
                    self.reads.push((address, a));
                }
            },
            StubOutcome::Timeout => {
                self.state = CandidateState::Timeout;
            },
            StubOutcome::NoRead => {
                self.state = CandidateState::NoRead;
            },
        }
        self.next = self.next + 1;
    }

    /// The reads that the pass recorded.
    pub fn finish(self) -> (reads: Vec<(u64, u64)>)
        ensures
            reads@ == self.reads(),
    {
        self.reads
    }
}

/// The number of candidates for which an outcome is at hand.
pub open spec fn covered(setup: EmulatorSetup, outcomes: Seq<StubOutcome>) -> int {
    if outcomes.len() < setup.candidates {
        outcomes.len() as int
    } else {
        setup.candidates as int
    }
}

/// Traces the candidates of a planned section, given how the run of each
/// ended: `outcomes[i]` for candidate `i`.  Outcomes beyond the candidates
/// are not looked at; candidates without an outcome record nothing.
pub fn trace_section(setup: EmulatorSetup, outcomes: &Vec<StubOutcome>) -> (reads: Vec<(u64, u64)>)
    requires
        setup.wf(),
    ensures
        reads@ == trace_reads(setup, outcomes@, covered(setup, outcomes@)),
{
    let mut trace = StubTrace::new(setup);
    let mut i: usize = 0;
    while i < outcomes.len()
        invariant
            i <= outcomes.len(),
            trace.wf(),
            trace.setup() == setup,
            !(trace.state() is Running),
            trace.position() == covered(setup, outcomes@.take(i as int)),
            trace.reads() == trace_reads(setup, outcomes@, trace.position()),
        decreases outcomes.len() - i,
    {
        match trace.begin() {
            Some(_) => {
                trace.complete(outcomes[i]);
            },
            None => {},
        }
        i += 1;
    }
    trace.finish()
}

/// Traces the candidates of a PLT section of `len` bytes at
/// `plt_section_address`, given how the run of each candidate ended:
/// `outcomes[i]` for the candidate at `plt_section_address + stride * i`.  The
/// result holds, in ascending order of stub address, each stub address with
/// the address that the stub read first.
pub fn emulate_plt_instructions(
    image: &ElfImage,
    got: u64,
    plt_section_address: u64,
    len: usize,
    config: &PltConfig,
    outcomes: &Vec<StubOutcome>,
) -> (reads: Result<Vec<(u64, u64)>, ErrorKind>)
    requires
        config.wf(),
    ensures
        match setup_of(
            image.is_64,
            image.little_endian,
            image.machine,
            got,
            plt_section_address,
            len as nat,
            *config,
        ) {
            Ok(setup) => reads is Ok && reads.unwrap()@ == trace_reads(
                setup,
                outcomes@,
                covered(setup, outcomes@),
            ),
            Err(e) => reads == Err::<Vec<(u64, u64)>, ErrorKind>(e),
        },
{
    let setup = match emulator_setup(
        image.is_64,
        image.little_endian,
        image.machine,
        got,
        plt_section_address,
        len,
        config,
    ) {
        Ok(s) => s,
        Err(e) => {
            return Err(e);
        },
    };
    Ok(trace_section(setup, outcomes))
}

/// The GOT entry that an observed address names: the last of the first `upto`
/// entries whose slot lies at `addr`.
pub open spec fn slot_owner(got: Entries, addr: u64, upto: int) -> Option<int>
    decreases upto,
{
    if upto <= 0 {
        None
    } else if got[upto - 1].1 == addr {
        Some(upto - 1)
    } else {
        slot_owner(got, addr, upto - 1)
    }
}

/// What one recorded read adds to the PLT map: where the address read is a
/// GOT slot, the slot's symbol bound to the stub's address.
pub open spec fn cross_step(plt: Entries, got: Entries, read: (u64, u64)) -> Entries {
    match slot_owner(got, read.1, got.len() as int) {
        Some(i) => upsert(plt, got[i].0, read.0),
        None => plt,
    }
}

/// The PLT map after the reads from index `from` on, in order: a later read
/// of the same slot replaces an earlier one.
pub open spec fn cross_fold(plt: Entries, got: Entries, reads: Seq<(u64, u64)>, from: int) -> Entries
    decreases reads.len() - from,
{
    if from < 0 || from >= reads.len() {
        plt
    } else {
        cross_fold(cross_step(plt, got, reads[from]), got, reads, from + 1)
    }
}

/// Names the stubs: each recorded `(stub address, address read)` whose second
/// part is a GOT slot binds the slot's symbol to the stub address.
pub fn cross_reference(got: &SymbolMap, reads: &Vec<(u64, u64)>) -> (plt: SymbolMap)
    requires
        got.wf(),
    ensures
        plt.wf(),
        plt.entries() == cross_fold(Seq::empty(), got.entries(), reads@, 0),
{
    broadcast use vstd::std_specs::hash::group_hash_axioms;

    let mut owners: HashMapWithView<u64, usize> = HashMapWithView::new();
    let mut i: usize = 0;
    while i < got.len()
        invariant
            got.wf(),
            i <= got.entries().len(),
            forall|a: u64|
                match slot_owner(got.entries(), a, i as int) {
                    Some(j) => #[trigger] owners@.contains_key(a) && owners@[a] == j,
                    None => !owners@.contains_key(a),
                },
        decreases got.entries().len() - i,
    {
        owners.insert(*got.value_at(i), i);
        i += 1;
    }
    let mut plt: SymbolMap = NameMap::new();
    let mut k: usize = 0;
    while k < reads.len()
        invariant
            got.wf(),
            plt.wf(),
            k <= reads.len(),
            forall|a: u64|
                match slot_owner(got.entries(), a, got.entries().len() as int) {
                    Some(j) => #[trigger] owners@.contains_key(a) && owners@[a] == j,
                    None => !owners@.contains_key(a),
                },
            cross_fold(Seq::empty(), got.entries(), reads@, 0) == cross_fold(
                plt.entries(),
                got.entries(),
                reads@,
                k as int,
            ),
        decreases reads.len() - k,
    {
        let read = reads[k];
        match owners.get(&read.1) {
            Some(j) => {
                let j: usize = *j;
                proof {
                    lemma_slot_owner_bound(got.entries(), read.1, got.entries().len() as int);
                }
                plt.insert(got.name_at(j).clone(), read.0);
            },
            None => {},
        }
        k += 1;
    }
    plt
}

/// An owner is one of the entries looked at, and its slot lies at the address.
pub proof fn lemma_slot_owner_bound(got: Entries, addr: u64, upto: int)
    requires
        upto <= got.len(),
    ensures
        match slot_owner(got, addr, upto) {
            Some(i) => 0 <= i < upto && got[i].1 == addr,
            None => true,
        },
    decreases upto,
{
    if upto > 0 && got[upto - 1].1 != addr {
        lemma_slot_owner_bound(got, addr, upto - 1);
    }
}

/// The value of the first dynamic entry with `tag`, from index `from` on.
pub open spec fn find_tag(entries: Seq<DynEntry>, tag: u64, from: int) -> Option<u64>
    decreases entries.len() - from,
{
    if from < 0 || from >= entries.len() {
        None
    } else if entries[from].tag == tag {
        Some(entries[from].val)
    } else {
        find_tag(entries, tag, from + 1)
    }
}

/// The address of the GOT base: the value of `DT_PLTGOT`.
pub open spec fn pltgot_of(dynamic: Option<Seq<DynEntry>>) -> Option<u64> {
    match dynamic {
        Some(entries) => find_tag(entries, DT_PLTGOT, 0),
        None => None,
    }
}

/// Looks up `DT_PLTGOT` among the dynamic entries.
pub fn find_pltgot(dynamic: &Option<Vec<DynEntry>>) -> (got: Option<u64>)
    ensures
        got == pltgot_of(
            match *dynamic {
                Some(d) => Some(d@),
                None => None,
            },
        ),
{
    match dynamic {
        None => None,
        Some(entries) => {
            let mut i: usize = 0;
            while i < entries.len()
                invariant
                    i <= entries.len(),
                    *dynamic == Some(*entries),
                    find_tag(entries@, DT_PLTGOT, 0) == find_tag(entries@, DT_PLTGOT, i as int),
                decreases entries.len() - i,
            {
                if entries[i].tag == DT_PLTGOT {
                    return Some(entries[i].val);
                }
                i += 1;
            }
            None
        },
    }
}

/// A PLT section to resolve: where its bytes lie in the file, and how the
/// emulator is set up for it.
#[derive(Clone, Copy, Debug, PartialEq, Eq, Structural)]
pub struct PltSection {
    /// Virtual address of the section.
    pub addr: u64,
    /// File offset of its bytes.
    pub offset: usize,
    /// Number of its bytes.
    pub size: usize,
    pub setup: EmulatorSetup,
}

impl PltSection {
    /// The setup fits the section: its candidates are the addresses of the
    /// section at every stride, and all of them fit in 64 bits.
    pub open spec fn wf(&self, config: PltConfig) -> bool {
        &&& self.setup.wf()
        &&& self.setup.code_addr == self.addr
        &&& self.setup.stride == config.candidate_stride
        &&& self.setup.stride > 0
        &&& self.setup.candidates == self.size as int / self.setup.stride as int
    }

    /// The bytes of the section lie within a file of `raw_len` bytes.
    pub open spec fn in_file(&self, raw_len: nat) -> bool {
        self.offset + self.size <= raw_len
    }
}

/// The plan for the section that a lookup found, if it found one.  The bytes
/// of the section must lie within the `raw_len` bytes of the file.
pub open spec fn plan_section(
    raw_len: nat,
    img: ElfView,
    got_base: u64,
    config: PltConfig,
    found: Option<int>,
) -> Result<Seq<PltSection>, ErrorKind> {
    match found {
        None => Ok(Seq::empty()),
        Some(i) => {
            let section = img.sections[i];
            if section.offset > usize::MAX || section.size > usize::MAX || section.offset
                + section.size > raw_len {
                Err(ErrorKind::MalformedElf)
            } else {
                match setup_of(
                    img.is_64,
                    img.little_endian,
                    img.machine,
                    got_base,
                    section.addr,
                    section.size as nat,
                    config,
                ) {
                    Err(e) => Err(e),
                    Ok(setup) => Ok(
                        seq![
                            PltSection {
                                addr: section.addr,
                                offset: section.offset as usize,
                                size: section.size as usize,
                                setup,
                            },
                        ],
                    ),
                }
            }
        },
    }
}

/// The PLT sections of an image that are to be resolved, in the order `.plt`,
/// `.plt.got`, `.plt.sec`; sections that the image lacks are left out.  A
/// statically linked image has none.  A dynamically linked one must have a
/// `DT_PLTGOT` entry.
pub open spec fn plan_of(raw_len: nat, img: ElfView, config: PltConfig) -> Result<
    Seq<PltSection>,
    ErrorKind,
> {
    if !is_dynamic(img.program_types) {
        Ok(Seq::empty())
    } else {
        match (
            find_section(img.sections, ".plt"@, 0),
            find_section(img.sections, ".plt.got"@, 0),
            find_section(img.sections, ".plt.sec"@, 0),
        ) {
            (Ok(plt), Ok(plt_got), Ok(plt_sec)) => match pltgot_of(img.dynamic) {
                None => Err(ErrorKind::MissingDtPltGot),
                Some(base) => match plan_section(raw_len, img, base, config, plt) {
                    Err(e) => Err(e),
                    Ok(first) => match plan_section(raw_len, img, base, config, plt_got) {
                        Err(e) => Err(e),
                        Ok(second) => match plan_section(raw_len, img, base, config, plt_sec) {
                            Err(e) => Err(e),
                            Ok(third) => Ok(first + second + third),
                        },
                    },
                },
            },
            _ => Err(ErrorKind::MalformedElf),
        }
    }
}

/// The planned section is the section `at` of the image, with a setup that fits it.
pub open spec fn plans(section: PltSection, img: ElfView, at: int, config: PltConfig) -> bool {
    &&& 0 <= at < img.sections.len()
    &&& section.addr == img.sections[at].addr
    &&& section.offset == img.sections[at].offset
    &&& section.size == img.sections[at].size
    &&& section.wf(config)
}

/// Every planned section is the first section of the image that is called
/// `.plt`, `.plt.got` or `.plt.sec`, and its candidates are the addresses of
/// that section at every stride.
pub proof fn lemma_planned_sections(raw_len: nat, img: ElfView, config: PltConfig, j: int)
    requires
        config.wf(),
        plan_of(raw_len, img, config) is Ok,
        0 <= j < plan_of(raw_len, img, config).unwrap().len(),
    ensures
        exists|at: int| #[trigger]
            plans(plan_of(raw_len, img, config).unwrap()[j], img, at, config) && (find_section(
                img.sections,
                ".plt"@,
                0,
            ) == Ok::<Option<int>, ErrorKind>(Some(at)) || find_section(
                img.sections,
                ".plt.got"@,
                0,
            ) == Ok::<Option<int>, ErrorKind>(Some(at)) || find_section(
                img.sections,
                ".plt.sec"@,
                0,
            ) == Ok::<Option<int>, ErrorKind>(Some(at))),
{
    let plan = plan_of(raw_len, img, config).unwrap();
    let base = pltgot_of(img.dynamic).unwrap();
    let plt = find_section(img.sections, ".plt"@, 0).unwrap();
    let plt_got = find_section(img.sections, ".plt.got"@, 0).unwrap();
    let plt_sec = find_section(img.sections, ".plt.sec"@, 0).unwrap();
    lemma_find_section_bound(img.sections, ".plt"@, 0);
    lemma_find_section_bound(img.sections, ".plt.got"@, 0);
    lemma_find_section_bound(img.sections, ".plt.sec"@, 0);
    let first = plan_section(raw_len, img, base, config, plt).unwrap();
    let second = plan_section(raw_len, img, base, config, plt_got).unwrap();
    let third = plan_section(raw_len, img, base, config, plt_sec).unwrap();
    assert(plan == first + second + third);
    let found = if j < first.len() {
        plt
    } else if j < first.len() + second.len() {
        plt_got
    } else {
        plt_sec
    };
    let at = found.unwrap();
    lemma_candidates_fit(
        img.sections[at].addr,
        img.sections[at].size as nat,
        config.candidate_stride,
    );
    assert(plans(plan[j], img, at, config));
}

/// A section that a lookup finds is one of the sections.
proof fn lemma_find_section_bound(sections: Seq<SectionView>, name: Seq<char>, from: int)
    requires
        0 <= from,
    ensures
        match find_section(sections, name, from) {
            Ok(Some(at)) => from <= at < sections.len(),
            _ => true,
        },
    decreases sections.len() - from,
{
    if from < sections.len() {
        lemma_find_section_bound(sections, name, from + 1);
    }
}

fn plan_one(
    raw_len: usize,
    image: &ElfImage,
    got_base: u64,
    config: &PltConfig,
    found: Option<usize>,
    plan: &mut Vec<PltSection>,
) -> (done: Result<(), ErrorKind>)
    requires
        config.wf(),
        found is Some ==> found.unwrap() < image.sections.len(),
        forall|i: int| 0 <= i < old(plan).len() ==> (#[trigger] old(plan)[i]).wf(*config),
        forall|i: int| 0 <= i < old(plan).len() ==> (#[trigger] old(plan)[i]).in_file(raw_len as nat),
    ensures
        forall|i: int| 0 <= i < final(plan).len() ==> (#[trigger] final(plan)[i]).wf(*config),
        forall|i: int|
            0 <= i < final(plan).len() ==> (#[trigger] final(plan)[i]).in_file(raw_len as nat),
        match plan_section(
            raw_len as nat,
            image@,
            got_base,
            *config,
            match found {
                Some(i) => Some(i as int),
                None => None,
            },
        ) {
            Ok(added) => done is Ok && final(plan)@ == old(plan)@ + added,
            Err(e) => done == Err::<(), ErrorKind>(e),
        },
{
    match found {
        None => {
            Ok(())
        },
        Some(i) => {
            let section = &image.sections[i];
            match (to_usize(section.offset), to_usize(section.size)) {
                (Some(offset), Some(size)) => {
                    if size > raw_len || offset > raw_len - size {
                        return Err(ErrorKind::MalformedElf);
                    }
                    match emulator_setup(
                        image.is_64,
                        image.little_endian,
                        image.machine,
                        got_base,
                        section.addr,
                        size,
                        config,
                    ) {
                        Err(e) => Err(e),
                        Ok(setup) => {
                            let planned = PltSection { addr: section.addr, offset, size, setup };
                            plan.push(planned);
                            Ok(())
                        },
                    }
                },
                _ => Err(ErrorKind::MalformedElf),
            }
        },
    }
}

/// Plans the resolution of the PLT sections of `image`, a file of `raw_len` bytes.
pub fn plan_plt(raw_len: usize, image: &ElfImage, config: &PltConfig) -> (plan: Result<
    Vec<PltSection>,
    ErrorKind,
>)
    requires
        config.wf(),
    ensures
        match plan_of(raw_len as nat, image@, *config) {
            Ok(sections) => plan is Ok && plan.unwrap()@ == sections,
            Err(e) => plan == Err::<Vec<PltSection>, ErrorKind>(e),
        },
        plan is Ok ==> forall|i: int|
            0 <= i < plan.unwrap().len() ==> (#[trigger] plan.unwrap()[i]).wf(*config)
                && plan.unwrap()[i].in_file(raw_len as nat),
        !is_dynamic(image.program_types@) ==> plan is Ok && plan.unwrap().len() == 0,
{
    let mut plan: Vec<PltSection> = Vec::new();
    if !has_interpreter(&image.program_types) {
        return Ok(plan);
    }
    let plt = section_by_name(&image.sections, ".plt");
    let plt_got = section_by_name(&image.sections, ".plt.got");
    let plt_sec = section_by_name(&image.sections, ".plt.sec");
    match (plt, plt_got, plt_sec) {
        (Ok(plt), Ok(plt_got), Ok(plt_sec)) => {
            let base = match find_pltgot(&image.dynamic) {
                Some(base) => base,
                None => {
                    return Err(ErrorKind::MissingDtPltGot);
                },
            };
            match plan_one(raw_len, image, base, config, plt, &mut plan) {
                Ok(()) => {},
                Err(e) => {
                    return Err(e);
                },
            }
            match plan_one(raw_len, image, base, config, plt_got, &mut plan) {
                Ok(()) => {},
                Err(e) => {
                    return Err(e);
                },
            }
            match plan_one(raw_len, image, base, config, plt_sec, &mut plan) {
                Ok(()) => {},
                Err(e) => {
                    return Err(e);
                },
            }
            Ok(plan)
        },
        _ => Err(ErrorKind::MalformedElf),
    }
}

/// The PLT sections to resolve in the ELF image in `raw_data`.  The bytes of
/// each lie within `raw_data`.
pub fn plt_sections(raw_data: &[u8], config: &PltConfig) -> (plan: Result<
    Vec<PltSection>,
    ErrorKind,
>)
    requires
        config.wf(),
    ensures
        match object_view(raw_data@) {
            ObjectView::Elf(img) => match plan_of(raw_data@.len(), img, *config) {
                Ok(sections) => plan is Ok && plan.unwrap()@ == sections,
                Err(e) => plan == Err::<Vec<PltSection>, ErrorKind>(e),
            },
            _ => plan == Err::<Vec<PltSection>, ErrorKind>(ErrorKind::UnsupportedFormat),
        },
        plan is Ok ==> forall|i: int|
            0 <= i < plan.unwrap().len() ==> (#[trigger] plan.unwrap()[i]).wf(*config)
                && plan.unwrap()[i].in_file(raw_data@.len()),
{
    match read_elf(raw_data) {
        Some(image) => plan_plt(raw_data.len(), &image, config),
        None => Err(ErrorKind::UnsupportedFormat),
    }
}

/// The outcomes of every traced section, as sequences.
pub open spec fn outcome_views(outcomes: Seq<Vec<StubOutcome>>) -> Seq<Seq<StubOutcome>> {
    outcomes.map_values(|section: Vec<StubOutcome>| section@)
}

/// The outcomes handed in for planned section `j`; none where fewer sections
/// were traced.
pub open spec fn outcomes_of(outcomes: Seq<Seq<StubOutcome>>, j: int) -> Seq<StubOutcome> {
    if 0 <= j < outcomes.len() {
        outcomes[j]
    } else {
        Seq::empty()
    }
}

/// The reads of the first `upto` planned sections, section after section.
pub open spec fn plan_reads(
    plan: Seq<PltSection>,
    outcomes: Seq<Seq<StubOutcome>>,
    upto: int,
) -> Seq<(u64, u64)>
    decreases upto,
{
    if upto <= 0 {
        Seq::empty()
    } else {
        plan_reads(plan, outcomes, upto - 1) + trace_reads(
            plan[upto - 1].setup,
            outcomes_of(outcomes, upto - 1),
            covered(plan[upto - 1].setup, outcomes_of(outcomes, upto - 1)),
        )
    }
}

/// Traces every planned section: `outcomes[j][i]` is how candidate `i` of
/// planned section `j` ended.
pub fn trace_plan(plan: &Vec<PltSection>, outcomes: &Vec<Vec<StubOutcome>>) -> (reads: Vec<
    (u64, u64),
>)
    requires
        forall|i: int| 0 <= i < plan.len() ==> (#[trigger] plan[i]).setup.wf(),
    ensures
        reads@ == plan_reads(plan@, outcome_views(outcomes@), plan.len() as int),
{
    let mut reads: Vec<(u64, u64)> = Vec::new();
    let mut j: usize = 0;
    while j < plan.len()
        invariant
            j <= plan.len(),
            forall|i: int| 0 <= i < plan.len() ==> (#[trigger] plan[i]).setup.wf(),
            reads@ == plan_reads(plan@, outcome_views(outcomes@), j as int),
        decreases plan.len() - j,
    {
        if j < outcomes.len() {
            let mut section = trace_section(plan[j].setup, &outcomes[j]);
            assert(outcomes_of(outcome_views(outcomes@), j as int) == outcomes[j as int]@);
            reads.append(&mut section);
        } else {
            assert(outcomes_of(outcome_views(outcomes@), j as int) == Seq::<StubOutcome>::empty());
            assert(reads@ =~= reads@ + trace_reads(plan[j as int].setup, Seq::empty(), 0));
        }
        j += 1;
    }
    reads
}

/// The read is what candidate `i` of planned section `j` observed: the
/// candidate stands `i` strides into the section, and its run ended with the
/// read of this address, which is not zero.
pub open spec fn candidate_read(
    plan: Seq<PltSection>,
    outcomes: Seq<Seq<StubOutcome>>,
    j: int,
    i: int,
    read: (u64, u64),
) -> bool {
    &&& 0 <= j < plan.len()
    &&& j < outcomes.len()
    &&& 0 <= i < plan[j].setup.candidates
    &&& i < outcomes[j].len()
    &&& read.0 == plan[j].setup.candidate_address(i)
    &&& outcomes[j][i] == StubOutcome::Observed(read.1)
    &&& read.1 != 0
}

/// Every name of `plt` is a name of `got`, and its stub is a candidate of a
/// planned section that was observed reading the slot of that name.
pub open spec fn stubs_observed(
    plt: Entries,
    got: Entries,
    plan: Seq<PltSection>,
    outcomes: Seq<Seq<StubOutcome>>,
) -> bool {
    forall|name: Seq<char>| #[trigger]
        map_of(plt).contains_key(name) ==> map_of(got).contains_key(name) && exists|
            j: int,
            i: int,
        | #[trigger]
            candidate_read(plan, outcomes, j, i, (map_of(plt)[name], map_of(got)[name]))
}

/// The PLT map of an image, given how the run of each candidate of its PLT
/// sections ended: empty for a statically linked image; otherwise the
/// sections must be resolvable, and each read of a GOT slot by a candidate of
/// a planned section names a stub.
pub open spec fn plt_of_image(
    raw_len: nat,
    img: ElfView,
    config: PltConfig,
    got: Entries,
    outcomes: Seq<Seq<StubOutcome>>,
) -> Result<Entries, ErrorKind> {
    if !is_dynamic(img.program_types) {
        Ok(Seq::empty())
    } else {
        match plan_of(raw_len, img, config) {
            Ok(plan) => Ok(
                cross_fold(Seq::empty(), got, plan_reads(plan, outcomes, plan.len() as int), 0),
            ),
            Err(e) => Err(e),
        }
    }
}

/// The PLT map of the ELF image in `raw`.
pub open spec fn plt_of(
    raw: Seq<u8>,
    config: PltConfig,
    got: Entries,
    outcomes: Seq<Seq<StubOutcome>>,
) -> Result<Entries, ErrorKind> {
    match object_view(raw) {
        ObjectView::Elf(img) => plt_of_image(raw.len(), img, config, got, outcomes),
        _ => Err(ErrorKind::UnsupportedFormat),
    }
}

/// The PLT sections to resolve in the ELF image in `raw`.
pub open spec fn plan_of_raw(raw: Seq<u8>, config: PltConfig) -> Result<
    Seq<PltSection>,
    ErrorKind,
> {
    match object_view(raw) {
        ObjectView::Elf(img) => plan_of(raw.len(), img, config),
        _ => Err(ErrorKind::UnsupportedFormat),
    }
}

/// Builds the PLT map of `image` from the outcomes of its candidates.
pub fn build_plt(
    raw_len: usize,
    image: &ElfImage,
    config: &PltConfig,
    got: &SymbolMap,
    outcomes: &Vec<Vec<StubOutcome>>,
) -> (plt: Result<SymbolMap, ErrorKind>)
    requires
        config.wf(),
        got.wf(),
    ensures
        match plt {
            Ok(p) => p.wf() && plt_of_image(
                raw_len as nat,
                image@,
                *config,
                got.entries(),
                outcome_views(outcomes@),
            ) == Ok::<Entries, ErrorKind>(p.entries()),
            Err(e) => plt_of_image(
                raw_len as nat,
                image@,
                *config,
                got.entries(),
                outcome_views(outcomes@),
            ) == Err::<Entries, ErrorKind>(e),
        },
        !is_dynamic(image.program_types@) ==> plt is Ok && plt.unwrap().entries().len() == 0,
        plt is Ok ==> plan_of(raw_len as nat, image@, *config) is Ok && stubs_observed(
            plt.unwrap().entries(),
            got.entries(),
            plan_of(raw_len as nat, image@, *config).unwrap(),
            outcome_views(outcomes@),
        ),
        plt is Ok && sections_nonzero(plan_of(raw_len as nat, image@, *config).unwrap())
            ==> nonzero(plt.unwrap().entries()),
{
    if !has_interpreter(&image.program_types) {
        let plt: SymbolMap = NameMap::new();
        return Ok(plt);
    }
    match plan_plt(raw_len, image, config) {
        Ok(plan) => {
            assert forall|i: int| 0 <= i < plan.len() implies (#[trigger] plan[i]).setup.wf() by {
                assert(plan[i].wf(*config));
            }
            let reads = trace_plan(&plan, outcomes);
            let plt = cross_reference(got, &reads);
            proof {
                got.lemma_distinct();
                lemma_plan_observed(got.entries(), plan@, outcome_views(outcomes@));
                plt.lemma_distinct();
                if sections_nonzero(plan@) {
                    lemma_plt_nonzero(
                        plt.entries(),
                        got.entries(),
                        plan@,
                        outcome_views(outcomes@),
                    );
                }
            }
            Ok(plt)
        },
        Err(e) => Err(e),
    }
}

/// Parses the procedure linkage table of the ELF image in `raw_data`.  The
/// candidates of its PLT sections have been run in the emulator:
/// `outcomes[j][i]` is how candidate `i` of the `j`-th section that the image
/// has of `.plt`, `.plt.got`, `.plt.sec` ended.
pub fn parse_plt(
    raw_data: &[u8],
    got: &SymbolMap,
    outcomes: &Vec<Vec<StubOutcome>>,
    config: &PltConfig,
) -> (plt: Result<SymbolMap, ErrorKind>)
    requires
        config.wf(),
        got.wf(),
    ensures
        match plt {
            Ok(p) => p.wf() && plt_of(
                raw_data@,
                *config,
                got.entries(),
                outcome_views(outcomes@),
            ) == Ok::<Entries, ErrorKind>(p.entries()),
            Err(e) => plt_of(raw_data@, *config, got.entries(), outcome_views(outcomes@)) == Err::<
                Entries,
                ErrorKind,
            >(e),
        },
        statically_linked(raw_data@) ==> plt is Ok && plt.unwrap().entries().len() == 0,
        plt is Ok ==> plan_of_raw(raw_data@, *config) is Ok && stubs_observed(
            plt.unwrap().entries(),
            got.entries(),
            plan_of_raw(raw_data@, *config).unwrap(),
            outcome_views(outcomes@),
        ),
        plt is Ok && sections_nonzero(plan_of_raw(raw_data@, *config).unwrap()) ==> nonzero(
            plt.unwrap().entries(),
        ),
{
    match read_elf(raw_data) {
        Some(image) => build_plt(raw_data.len(), &image, config, got, outcomes),
        None => Err(ErrorKind::UnsupportedFormat),
    }
}

} // verus!
