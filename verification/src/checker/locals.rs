//! How basic block instructions touch a local.

use crate::binder::{SymbolKey, SymbolTable};
use crate::cfa::BasicBlockInstr;
use crate::text::string_is;
use vstd::prelude::*;

verus! {

/// How an instruction accesses a local.
#[derive(Clone, Copy, Debug, PartialEq, Eq, Structural)]
pub enum LocalAccess {
    /// `local.get`
    Read,
    /// `local.set` or `local.tee`
    Write,
    /// Any other instruction.
    Other,
}

/// How an instruction accesses a local, by name.
pub open spec fn local_access(name: Seq<char>) -> LocalAccess {
    if name == "local.get"@ {
        LocalAccess::Read
    } else if name == "local.set"@ || name == "local.tee"@ {
        LocalAccess::Write
    } else {
        LocalAccess::Other
    }
}

/// How an instruction accesses a local, by name.
pub fn classify_local_access(name: &String) -> (r: LocalAccess)
    ensures
        r == local_access(name@),
{
    if string_is(name, "local.get") {
        LocalAccess::Read
    } else if string_is(name, "local.set") || string_is(name, "local.tee") {
        LocalAccess::Write
    } else {
        LocalAccess::Other
    }
}

/// The key of the first immediate of an instruction.
pub open spec fn first_immediate_key(instr: BasicBlockInstr) -> SymbolKey {
    SymbolKey(instr.immediates@[0])
}

/// Whether the first immediate of the instruction resolves to the definition `def`.
pub open spec fn targets_local(t: SymbolTable, instr: BasicBlockInstr, def: SymbolKey) -> bool {
    &&& instr.immediates@.len() > 0
    &&& t.def_of(first_immediate_key(instr)) matches Some(s) && s.key == def
}

/// Whether the instruction reads the local `def`.
pub open spec fn is_read(t: SymbolTable, instr: BasicBlockInstr, def: SymbolKey) -> bool {
    local_access(instr.name@) == LocalAccess::Read && targets_local(t, instr, def)
}

/// Whether the instruction writes the local `def`.
pub open spec fn is_write(t: SymbolTable, instr: BasicBlockInstr, def: SymbolKey) -> bool {
    local_access(instr.name@) == LocalAccess::Write && targets_local(t, instr, def)
}

/// Whether the first immediate of the instruction resolves to the definition `def`.
pub fn instr_targets_local(t: &SymbolTable, instr: &BasicBlockInstr, def: SymbolKey) -> (r: bool)
    requires
        t.wf(),
    ensures
        r == targets_local(*t, *instr, def),
{
    if instr.immediates.len() == 0 {
        return false;
    }
    match t.find_def(SymbolKey(instr.immediates[0])) {
        Some(s) => s.key == def,
        None => false,
    }
}

/// Whether one of the first `n` instructions writes the local.
pub open spec fn writes_before(t: SymbolTable, bb: Seq<BasicBlockInstr>, def: SymbolKey, n: int) -> bool {
    exists|j: int| 0 <= j < n && is_write(t, #[trigger] bb[j], def)
}

} // verus!
