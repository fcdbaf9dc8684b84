//! Symbol resolution for executable images.
//!
//! An image is opened from its bytes as a PE or an ELF image; either answers
//! one query: the address of a symbol, by name.

pub mod elf;
pub mod image;
pub mod laws;
pub mod pe;
pub mod plt;

use crate::binary_handling::elf::{binary_of, standard_config, statically_linked, ELFBinary};
use crate::binary_handling::laws::{closed_under_prefix, no_name_prefixed};
use crate::binary_handling::pe::{pe_of, PEBinary};
use crate::binary_handling::plt::{outcome_views, plan_of_raw, stubs_observed, StubOutcome};
use crate::error::ErrorKind;
use vstd::prelude::*;

verus! {

/// What every kind of binary image offers.
pub trait Binary {
    /// The image is well formed.
    spec fn valid(&self) -> bool;

    /// The symbols of the image: name to address.
    spec fn symbol_view(&self) -> Map<Seq<char>, u64>;

    /// The address of the symbol called `sym`.
    fn get_sym_addr(&self, sym: &str) -> (addr: Result<u64, ErrorKind>)
        requires
            self.valid(),
        ensures
            addr == (if self.symbol_view().contains_key(sym@) {
                Ok::<u64, ErrorKind>(self.symbol_view()[sym@])
            } else {
                Err::<u64, ErrorKind>(ErrorKind::SymbolNotFound)
            }),
    ;
}

/// An opened image of either format.
pub enum BinaryImage {
    Elf(ELFBinary),
    Pe(PEBinary),
}

impl Binary for BinaryImage {
    open spec fn valid(&self) -> bool {
        match self {
            BinaryImage::Elf(elf) => elf.wf(),
            BinaryImage::Pe(pe) => pe.wf(),
        }
    }

    open spec fn symbol_view(&self) -> Map<Seq<char>, u64> {
        match self {
            BinaryImage::Elf(elf) => elf.symbols@,
            BinaryImage::Pe(pe) => pe.symbols@,
        }
    }

    fn get_sym_addr(&self, sym: &str) -> (addr: Result<u64, ErrorKind>) {
        match self {
            BinaryImage::Elf(elf) => elf.get_sym_addr(sym),
            BinaryImage::Pe(pe) => pe.get_sym_addr(sym),
        }
    }
}

impl BinaryImage {
    /// The symbols hold every entry of the image's tables under the table's
    /// prefix: `plt.` and `got.` for an ELF image, `iat.` and `eat.` for a PE
    /// image; the exports where none is named as the prefixed key of an
    /// earlier one.
    pub open spec fn closed(&self) -> bool {
        match self {
            BinaryImage::Elf(elf) => closed_under_prefix(elf.symbols@, "plt."@, elf.plt@)
                && closed_under_prefix(elf.symbols@, "got."@, elf.got@),
            BinaryImage::Pe(pe) => closed_under_prefix(pe.symbols@, "iat."@, pe.iat@) && (
            no_name_prefixed(pe.eat.entries(), "eat."@) ==> closed_under_prefix(
                pe.symbols@,
                "eat."@,
                pe.eat@,
            )),
        }
    }
}

/// Opens the image in `raw_bytes`.  It is taken for a PE image first; where
/// that fails, for an ELF image; `outcomes` tells how the run of each
/// candidate of its PLT sections ended.  Bytes that are neither fail with `UnsupportedFormat`.
pub fn from_bytes(raw_bytes: Vec<u8>, outcomes: &Vec<Vec<StubOutcome>>) -> (binary: Result<
    BinaryImage,
    ErrorKind,
>)
    ensures
        match binary {
            Ok(BinaryImage::Pe(pe)) => pe.wf() && pe.raw_bytes@ == raw_bytes@ && pe_of(raw_bytes@)
                == Ok::<
                (
                    crate::binary_handling::elf::Entries,
                    crate::binary_handling::elf::Entries,
                    crate::binary_handling::elf::Entries,
                ),
                ErrorKind,
            >((pe.iat.entries(), pe.eat.entries(), pe.symbols.entries())),
            Ok(BinaryImage::Elf(elf)) => pe_of(raw_bytes@) is Err && elf.wf() && elf.raw_bytes@
                == raw_bytes@ && binary_of(raw_bytes@, outcome_views(outcomes@)) == Ok::<
                (
                    crate::binary_handling::elf::Entries,
                    crate::binary_handling::elf::Entries,
                    crate::binary_handling::elf::Entries,
                ),
                ErrorKind,
            >((elf.got.entries(), elf.plt.entries(), elf.symbols.entries())),
            Err(e) => pe_of(raw_bytes@) is Err && binary_of(raw_bytes@, outcome_views(outcomes@)) == Err::<
                (
                    crate::binary_handling::elf::Entries,
                    crate::binary_handling::elf::Entries,
                    crate::binary_handling::elf::Entries,
                ),
                ErrorKind,
            >(e),
        },
        binary is Ok ==> binary.unwrap().valid() && binary.unwrap().closed(),
        match binary {
            Ok(BinaryImage::Elf(elf)) => plan_of_raw(raw_bytes@, standard_config()) is Ok
                && stubs_observed(
                elf.plt.entries(),
                elf.got.entries(),
                plan_of_raw(raw_bytes@, standard_config()).unwrap(),
                outcome_views(outcomes@),
            ) && (statically_linked(raw_bytes@) ==> elf.got.entries().len() == 0
                && elf.plt.entries().len() == 0),
            _ => true,
        },
{
    let copy = raw_bytes.clone();
    match PEBinary::new(copy) {
        Ok(pe) => Ok(BinaryImage::Pe(pe)),
        Err(_) => match ELFBinary::new(raw_bytes, outcomes) {
            Ok(elf) => Ok(BinaryImage::Elf(elf)),
            Err(e) => Err(e),
        },
    }
}

} // verus!
