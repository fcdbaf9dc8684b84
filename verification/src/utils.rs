//! The state of a session: the program under test and the named registers
//! that the steps of a recipe read and write.

use crate::name_map::{upsert, NameMap};
use vstd::prelude::*;

verus! {

/// What a session talks to.
#[derive(Clone, Copy, Debug, PartialEq, Eq, Structural)]
pub enum Target {
    /// A program started on this machine.
    Local,
    /// A service reached over the network.
    Network,
}

/// Named byte strings.
pub struct Registers {
    pub map: NameMap<Vec<u8>>,
}

impl Registers {
    /// The map is well formed.
    pub open spec fn wf(&self) -> bool {
        self.map.wf()
    }

    /// The content of each register.
    pub open spec fn view(&self) -> Map<Seq<char>, Seq<u8>> {
        Map::new(|k: Seq<char>| self.map@.contains_key(k), |k: Seq<char>| self.map@[k]@)
    }

    /// No registers.
    pub fn new() -> (regs: Registers)
        ensures
            regs.wf(),
            regs.map.entries().len() == 0,
            regs@ == Map::<Seq<char>, Seq<u8>>::empty(),
    {
        let regs = Registers { map: NameMap::new() };
        regs
    }

    /// Sets the register `name` to `val`.
    pub fn set(&mut self, name: &str, val: Vec<u8>)
        requires
            old(self).wf(),
        ensures
            final(self).wf(),
            final(self).map.entries() == upsert(old(self).map.entries(), name@, val),
            final(self)@ == old(self)@.insert(name@, val@),
    {
        self.map.insert(name.to_owned(), val);
    }

    /// The content of the register `name`, if it exists.
    pub fn get(&self, name: &str) -> (content: Option<&[u8]>)
        requires
            self.wf(),
        ensures
            match content {
                Some(bytes) => self@.contains_key(name@) && bytes@ == self@[name@],
                None => !self@.contains_key(name@),
            },
    {
        match self.map.get(name) {
            Some(val) => Some(val.as_slice()),
            None => None,
        }
    }

    /// Whether the register `name` exists.
    pub fn contains(&self, name: &str) -> (found: bool)
        requires
            self.wf(),
        ensures
            found == self@.contains_key(name@),
    {
        self.map.contains_key(name)
    }

    /// The names of the registers, in the order in which they were first set.
    pub fn available_registers(&self) -> (names: Vec<String>)
        requires
            self.wf(),
        ensures
            names.len() == self.map.entries().len(),
            forall|i: int|
                0 <= i < names.len() ==> (#[trigger] names[i])@ == self.map.entries()[i].0,
    {
        self.map.keys()
    }
}

/// The state that the steps of a recipe share.
pub struct State {
    /// Path of the program under test.
    pub program_path: String,
    /// Set when the session is to end.
    pub do_exit: bool,
    pub registers: Registers,
    /// What the program has printed so far.
    pub output: String,
}

impl State {
    /// The state at the start of a session with `target`: a local target is
    /// its own program path, a network target has none.
    pub fn new(target_type: Target, target: &str) -> (state: State)
        ensures
            state.registers.wf(),
            state.registers@ == Map::<Seq<char>, Seq<u8>>::empty(),
            !state.do_exit,
            state.output@ == Seq::<char>::empty(),
            state.program_path@ == match target_type {
                Target::Local => target@,
                Target::Network => "No binary path in network mode"@,
            },
    {
        State {
            program_path: match target_type {
                Target::Local => target.to_owned(),
                Target::Network => "No binary path in network mode".to_owned(),
            },
            registers: Registers::new(),
            do_exit: false,
            output: String::new(),
        }
    }
}

} // verus!
