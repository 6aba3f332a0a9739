//! The immediates each plain instruction takes, and names that are no
//! instruction.

use super::{after, diag_views, node_diags, plain_diag, push_node_diags, Diagnostic, DiagnosticSeverity, DiagnosticView};
use super::unknown_instr::unknown_instr_diag;
use crate::data_set::instr_meta::{get_instr_op_code, instr_op_code};
use crate::syntax::{child_nodes, child_nodes_of, first_child_kind, SyntaxElement, SyntaxKind, SyntaxNode, SyntaxToken, TextRange};
use crate::text::{decimal, parse_digits, parse_digits_from, push_decimal, str_eq, ParsedUint};
use vstd::prelude::*;
use vstd::utf8::encode_utf8;

verus! {

/// What an immediate is expected to be.
#[derive(Clone, Copy, Debug, PartialEq, Eq, Structural)]
pub enum Expect {
    Index,
    Integer,
    UnsignedInteger,
    Float,
    TypeUse,
    MemArg,
    Shape,
    HeapType,
    RefType,
}

/// Whether an immediate whose first child has this kind is what is expected.
pub open spec fn expect_matches(e: Expect, k: SyntaxKind) -> bool {
    match e {
        Expect::Index => k == SyntaxKind::IDENT || k == SyntaxKind::INT,
        Expect::Integer => k == SyntaxKind::INT,
        Expect::UnsignedInteger => k == SyntaxKind::INT,
        Expect::Float => k == SyntaxKind::FLOAT || k == SyntaxKind::INT,
        Expect::TypeUse => k == SyntaxKind::TYPE_USE,
        Expect::MemArg => k == SyntaxKind::MEM_ARG,
        Expect::Shape => k == SyntaxKind::SHAPE_DESCRIPTOR,
        Expect::HeapType => k == SyntaxKind::HEAP_TYPE || k == SyntaxKind::IDENT || k == SyntaxKind::INT,
        Expect::RefType => k == SyntaxKind::REF_TYPE,
    }
}

/// How an expected immediate is named in messages.
pub open spec fn expect_desc(e: Expect) -> Seq<char> {
    match e {
        Expect::Index => "identifier or unsigned integer"@,
        Expect::Integer => "integer"@,
        Expect::UnsignedInteger => "unsigned integer"@,
        Expect::Float => "floating-point number"@,
        Expect::TypeUse => "type use"@,
        Expect::MemArg => "memory argument"@,
        Expect::Shape => "shape descriptor"@,
        Expect::HeapType => "heap type"@,
        Expect::RefType => "ref type"@,
    }
}

fn matches_kind(e: Expect, k: SyntaxKind) -> (r: bool)
    ensures
        r == expect_matches(e, k),
{
    match e {
        Expect::Index => k == SyntaxKind::IDENT || k == SyntaxKind::INT,
        Expect::Integer => k == SyntaxKind::INT,
        Expect::UnsignedInteger => k == SyntaxKind::INT,
        Expect::Float => k == SyntaxKind::FLOAT || k == SyntaxKind::INT,
        Expect::TypeUse => k == SyntaxKind::TYPE_USE,
        Expect::MemArg => k == SyntaxKind::MEM_ARG,
        Expect::Shape => k == SyntaxKind::SHAPE_DESCRIPTOR,
        Expect::HeapType => k == SyntaxKind::HEAP_TYPE || k == SyntaxKind::IDENT || k == SyntaxKind::INT,
        Expect::RefType => k == SyntaxKind::REF_TYPE,
    }
}

fn desc(e: Expect) -> (r: &'static str)
    ensures
        r@ == expect_desc(e),
{
    match e {
        Expect::Index => "identifier or unsigned integer",
        Expect::Integer => "integer",
        Expect::UnsignedInteger => "unsigned integer",
        Expect::Float => "floating-point number",
        Expect::TypeUse => "type use",
        Expect::MemArg => "memory argument",
        Expect::Shape => "shape descriptor",
        Expect::HeapType => "heap type",
        Expect::RefType => "ref type",
    }
}

/// The forms of immediates the instructions take.
#[derive(Clone, Copy, Debug, PartialEq, Eq, Structural)]
pub enum InstrForm {
    TakesIndex,
    IntConst,
    FloatConst,
    Select,
    BrTable,
    IndirectCall,
    TakesTwoIndices,
    MemoryAccess,
    TakesOptionalIndex,
    Copy,
    Init,
    V128Const,
    LaneAccess,
    Shuffle,
    LaneMemoryAccess,
    RefNull,
    RefTest,
    ArrayNewFixed,
    BrOnCast,
    AtomicMemoryAccess,
    Resume,
    ResumeThrow,
    Other,
}

/// The immediates a form reads first, in order, each with whether it is
/// required.
pub open spec fn form_steps(form: InstrForm) -> Seq<(Expect, bool)> {
    match form {
        InstrForm::TakesIndex => seq![(Expect::Index, true)],
        InstrForm::IntConst => seq![(Expect::Integer, true)],
        InstrForm::FloatConst => seq![(Expect::Float, true)],
        InstrForm::BrTable => seq![(Expect::Index, true)],
        InstrForm::IndirectCall => seq![(Expect::Index, false), (Expect::TypeUse, false)],
        InstrForm::TakesTwoIndices => seq![(Expect::Index, true), (Expect::Index, true)],
        InstrForm::MemoryAccess => seq![(Expect::Index, false), (Expect::MemArg, false)],
        InstrForm::TakesOptionalIndex => seq![(Expect::Index, false)],
        InstrForm::Copy => seq![(Expect::Index, true), (Expect::Index, true)],
        InstrForm::Init => seq![(Expect::Index, true), (Expect::Index, false)],
        InstrForm::V128Const => seq![(Expect::Shape, true)],
        InstrForm::LaneAccess => seq![(Expect::Index, true)],
        InstrForm::LaneMemoryAccess => seq![
            (Expect::Index, false),
            (Expect::MemArg, false),
            (Expect::UnsignedInteger, false),
        ],
        InstrForm::RefNull => seq![(Expect::HeapType, true)],
        InstrForm::RefTest => seq![(Expect::RefType, true)],
        InstrForm::ArrayNewFixed => seq![(Expect::Index, true), (Expect::UnsignedInteger, true)],
        InstrForm::BrOnCast => seq![(Expect::Index, true), (Expect::RefType, true), (Expect::RefType, true)],
        InstrForm::AtomicMemoryAccess => seq![(Expect::MemArg, false)],
        InstrForm::Resume => seq![(Expect::Index, true)],
        InstrForm::ResumeThrow => seq![(Expect::Index, true), (Expect::Index, true)],
        _ => seq![],
    }
}

fn steps_of(form: InstrForm) -> (r: Vec<(Expect, bool)>)
    ensures
        r@ == form_steps(form),
{
    match form {
        InstrForm::TakesIndex => vec![(Expect::Index, true)],
        InstrForm::IntConst => vec![(Expect::Integer, true)],
        InstrForm::FloatConst => vec![(Expect::Float, true)],
        InstrForm::BrTable => vec![(Expect::Index, true)],
        InstrForm::IndirectCall => vec![(Expect::Index, false), (Expect::TypeUse, false)],
        InstrForm::TakesTwoIndices => vec![(Expect::Index, true), (Expect::Index, true)],
        InstrForm::MemoryAccess => vec![(Expect::Index, false), (Expect::MemArg, false)],
        InstrForm::TakesOptionalIndex => vec![(Expect::Index, false)],
        InstrForm::Copy => vec![(Expect::Index, true), (Expect::Index, true)],
        InstrForm::Init => vec![(Expect::Index, true), (Expect::Index, false)],
        InstrForm::V128Const => vec![(Expect::Shape, true)],
        InstrForm::LaneAccess => vec![(Expect::Index, true)],
        InstrForm::LaneMemoryAccess => vec![
            (Expect::Index, false),
            (Expect::MemArg, false),
            (Expect::UnsignedInteger, false),
        ],
        InstrForm::RefNull => vec![(Expect::HeapType, true)],
        InstrForm::RefTest => vec![(Expect::RefType, true)],
        InstrForm::ArrayNewFixed => vec![(Expect::Index, true), (Expect::UnsignedInteger, true)],
        InstrForm::BrOnCast => vec![(Expect::Index, true), (Expect::RefType, true), (Expect::RefType, true)],
        InstrForm::AtomicMemoryAccess => vec![(Expect::MemArg, false)],
        InstrForm::Resume => vec![(Expect::Index, true)],
        InstrForm::ResumeThrow => vec![(Expect::Index, true), (Expect::Index, true)],
        _ => vec![],
    }
}

/// Instructions that take one index.
pub open spec fn is_takes_index(name: Seq<char>) -> bool {
    name == "call"@
        || name == "local.get"@
        || name == "local.set"@
        || name == "local.tee"@
        || name == "global.get"@
        || name == "global.set"@
        || name == "ref.func"@
        || name == "data.drop"@
        || name == "elem.drop"@
        || name == "br"@
        || name == "br_if"@
        || name == "struct.new"@
        || name == "struct.new_default"@
        || name == "array.new"@
        || name == "array.new_default"@
        || name == "array.get"@
        || name == "array.get_u"@
        || name == "array.get_s"@
        || name == "array.set"@
        || name == "array.fill"@
        || name == "br_on_null"@
        || name == "br_on_non_null"@
        || name == "call_ref"@
        || name == "return_call"@
        || name == "return_call_ref"@
        || name == "throw"@
        || name == "cont.new"@
        || name == "suspend"@
}

fn takes_index(name: &str) -> (r: bool)
    ensures
        r == is_takes_index(name@),
{
    if str_eq(name, "call") {
        return true;
    }
    if str_eq(name, "local.get") {
        return true;
    }
    if str_eq(name, "local.set") {
        return true;
    }
    if str_eq(name, "local.tee") {
        return true;
    }
    if str_eq(name, "global.get") {
        return true;
    }
    if str_eq(name, "global.set") {
        return true;
    }
    if str_eq(name, "ref.func") {
        return true;
    }
    if str_eq(name, "data.drop") {
        return true;
    }
    if str_eq(name, "elem.drop") {
        return true;
    }
    if str_eq(name, "br") {
        return true;
    }
    if str_eq(name, "br_if") {
        return true;
    }
    if str_eq(name, "struct.new") {
        return true;
    }
    if str_eq(name, "struct.new_default") {
        return true;
    }
    if str_eq(name, "array.new") {
        return true;
    }
    if str_eq(name, "array.new_default") {
        return true;
    }
    if str_eq(name, "array.get") {
        return true;
    }
    if str_eq(name, "array.get_u") {
        return true;
    }
    if str_eq(name, "array.get_s") {
        return true;
    }
    if str_eq(name, "array.set") {
        return true;
    }
    if str_eq(name, "array.fill") {
        return true;
    }
    if str_eq(name, "br_on_null") {
        return true;
    }
    if str_eq(name, "br_on_non_null") {
        return true;
    }
    if str_eq(name, "call_ref") {
        return true;
    }
    if str_eq(name, "return_call") {
        return true;
    }
    if str_eq(name, "return_call_ref") {
        return true;
    }
    if str_eq(name, "throw") {
        return true;
    }
    if str_eq(name, "cont.new") {
        return true;
    }
    if str_eq(name, "suspend") {
        return true;
    }
    false
}

/// Instructions that take two indices.
pub open spec fn is_takes_two_indices(name: Seq<char>) -> bool {
    name == "struct.get"@
        || name == "struct.get_u"@
        || name == "struct.get_s"@
        || name == "struct.set"@
        || name == "array.new_data"@
        || name == "array.new_elem"@
        || name == "array.copy"@
        || name == "array.init_data"@
        || name == "array.init_elem"@
        || name == "cont.bind"@
        || name == "switch"@
}

fn takes_two_indices(name: &str) -> (r: bool)
    ensures
        r == is_takes_two_indices(name@),
{
    if str_eq(name, "struct.get") {
        return true;
    }
    if str_eq(name, "struct.get_u") {
        return true;
    }
    if str_eq(name, "struct.get_s") {
        return true;
    }
    if str_eq(name, "struct.set") {
        return true;
    }
    if str_eq(name, "array.new_data") {
        return true;
    }
    if str_eq(name, "array.new_elem") {
        return true;
    }
    if str_eq(name, "array.copy") {
        return true;
    }
    if str_eq(name, "array.init_data") {
        return true;
    }
    if str_eq(name, "array.init_elem") {
        return true;
    }
    if str_eq(name, "cont.bind") {
        return true;
    }
    if str_eq(name, "switch") {
        return true;
    }
    false
}

/// Loads and stores of plain memory.
pub open spec fn is_memory_access(name: Seq<char>) -> bool {
    name == "i32.load"@
        || name == "i64.load"@
        || name == "f32.load"@
        || name == "f64.load"@
        || name == "i32.load8_s"@
        || name == "i32.load8_u"@
        || name == "i32.load16_s"@
        || name == "i32.load16_u"@
        || name == "i64.load8_s"@
        || name == "i64.load8_u"@
        || name == "i64.load16_s"@
        || name == "i64.load16_u"@
        || name == "i64.load32_s"@
        || name == "i64.load32_u"@
        || name == "i32.store"@
        || name == "i64.store"@
        || name == "f32.store"@
        || name == "f64.store"@
        || name == "i32.store8"@
        || name == "i32.store16"@
        || name == "i64.store8"@
        || name == "i64.store16"@
        || name == "i64.store32"@
        || name == "v128.load"@
        || name == "v128.load8x8_s"@
        || name == "v128.load8x8_u"@
        || name == "v128.load16x4_s"@
        || name == "v128.load16x4_u"@
        || name == "v128.load32x2_s"@
        || name == "v128.load32x2_u"@
        || name == "v128.load8_splat"@
        || name == "v128.load16_splat"@
        || name == "v128.load32_splat"@
        || name == "v128.load64_splat"@
        || name == "v128.load32_zero"@
        || name == "v128.load64_zero"@
        || name == "v128.store"@
}

pub(crate) fn memory_access(name: &str) -> (r: bool)
    ensures
        r == is_memory_access(name@),
{
    if str_eq(name, "i32.load") {
        return true;
    }
    if str_eq(name, "i64.load") {
        return true;
    }
    if str_eq(name, "f32.load") {
        return true;
    }
    if str_eq(name, "f64.load") {
        return true;
    }
    if str_eq(name, "i32.load8_s") {
        return true;
    }
    if str_eq(name, "i32.load8_u") {
        return true;
    }
    if str_eq(name, "i32.load16_s") {
        return true;
    }
    if str_eq(name, "i32.load16_u") {
        return true;
    }
    if str_eq(name, "i64.load8_s") {
        return true;
    }
    if str_eq(name, "i64.load8_u") {
        return true;
    }
    if str_eq(name, "i64.load16_s") {
        return true;
    }
    if str_eq(name, "i64.load16_u") {
        return true;
    }
    if str_eq(name, "i64.load32_s") {
        return true;
    }
    if str_eq(name, "i64.load32_u") {
        return true;
    }
    if str_eq(name, "i32.store") {
        return true;
    }
    if str_eq(name, "i64.store") {
        return true;
    }
    if str_eq(name, "f32.store") {
        return true;
    }
    if str_eq(name, "f64.store") {
        return true;
    }
    if str_eq(name, "i32.store8") {
        return true;
    }
    if str_eq(name, "i32.store16") {
        return true;
    }
    if str_eq(name, "i64.store8") {
        return true;
    }
    if str_eq(name, "i64.store16") {
        return true;
    }
    if str_eq(name, "i64.store32") {
        return true;
    }
    if str_eq(name, "v128.load") {
        return true;
    }
    if str_eq(name, "v128.load8x8_s") {
        return true;
    }
    if str_eq(name, "v128.load8x8_u") {
        return true;
    }
    if str_eq(name, "v128.load16x4_s") {
        return true;
    }
    if str_eq(name, "v128.load16x4_u") {
        return true;
    }
    if str_eq(name, "v128.load32x2_s") {
        return true;
    }
    if str_eq(name, "v128.load32x2_u") {
        return true;
    }
    if str_eq(name, "v128.load8_splat") {
        return true;
    }
    if str_eq(name, "v128.load16_splat") {
        return true;
    }
    if str_eq(name, "v128.load32_splat") {
        return true;
    }
    if str_eq(name, "v128.load64_splat") {
        return true;
    }
    if str_eq(name, "v128.load32_zero") {
        return true;
    }
    if str_eq(name, "v128.load64_zero") {
        return true;
    }
    if str_eq(name, "v128.store") {
        return true;
    }
    false
}

/// Instructions whose only index may be left out.
pub open spec fn is_takes_optional_index(name: Seq<char>) -> bool {
    name == "memory.size"@
        || name == "memory.grow"@
        || name == "memory.fill"@
        || name == "table.get"@
        || name == "table.set"@
        || name == "table.grow"@
        || name == "table.size"@
        || name == "table.fill"@
}

fn takes_optional_index(name: &str) -> (r: bool)
    ensures
        r == is_takes_optional_index(name@),
{
    if str_eq(name, "memory.size") {
        return true;
    }
    if str_eq(name, "memory.grow") {
        return true;
    }
    if str_eq(name, "memory.fill") {
        return true;
    }
    if str_eq(name, "table.get") {
        return true;
    }
    if str_eq(name, "table.set") {
        return true;
    }
    if str_eq(name, "table.grow") {
        return true;
    }
    if str_eq(name, "table.size") {
        return true;
    }
    if str_eq(name, "table.fill") {
        return true;
    }
    false
}

/// Lane extractions and replacements.
pub open spec fn is_lane_access(name: Seq<char>) -> bool {
    name == "i8x16.extract_lane_s"@
        || name == "i8x16.extract_lane_u"@
        || name == "i8x16.replace_lane"@
        || name == "i16x8.extract_lane_s"@
        || name == "i16x8.extract_lane_u"@
        || name == "i16x8.replace_lane"@
        || name == "i32x4.extract_lane"@
        || name == "i32x4.replace_lane"@
        || name == "i64x2.extract_lane"@
        || name == "i64x2.replace_lane"@
        || name == "f32x4.extract_lane"@
        || name == "f32x4.replace_lane"@
        || name == "f64x2.extract_lane"@
        || name == "f64x2.replace_lane"@
}

fn lane_access(name: &str) -> (r: bool)
    ensures
        r == is_lane_access(name@),
{
    if str_eq(name, "i8x16.extract_lane_s") {
        return true;
    }
    if str_eq(name, "i8x16.extract_lane_u") {
        return true;
    }
    if str_eq(name, "i8x16.replace_lane") {
        return true;
    }
    if str_eq(name, "i16x8.extract_lane_s") {
        return true;
    }
    if str_eq(name, "i16x8.extract_lane_u") {
        return true;
    }
    if str_eq(name, "i16x8.replace_lane") {
        return true;
    }
    if str_eq(name, "i32x4.extract_lane") {
        return true;
    }
    if str_eq(name, "i32x4.replace_lane") {
        return true;
    }
    if str_eq(name, "i64x2.extract_lane") {
        return true;
    }
    if str_eq(name, "i64x2.replace_lane") {
        return true;
    }
    if str_eq(name, "f32x4.extract_lane") {
        return true;
    }
    if str_eq(name, "f32x4.replace_lane") {
        return true;
    }
    if str_eq(name, "f64x2.extract_lane") {
        return true;
    }
    if str_eq(name, "f64x2.replace_lane") {
        return true;
    }
    false
}

/// Loads and stores of one lane.
pub open spec fn is_lane_memory_access(name: Seq<char>) -> bool {
    name == "v128.load8_lane"@
        || name == "v128.load16_lane"@
        || name == "v128.load32_lane"@
        || name == "v128.load64_lane"@
        || name == "v128.store8_lane"@
        || name == "v128.store16_lane"@
        || name == "v128.store32_lane"@
        || name == "v128.store64_lane"@
}

pub(crate) fn lane_memory_access(name: &str) -> (r: bool)
    ensures
        r == is_lane_memory_access(name@),
{
    if str_eq(name, "v128.load8_lane") {
        return true;
    }
    if str_eq(name, "v128.load16_lane") {
        return true;
    }
    if str_eq(name, "v128.load32_lane") {
        return true;
    }
    if str_eq(name, "v128.load64_lane") {
        return true;
    }
    if str_eq(name, "v128.store8_lane") {
        return true;
    }
    if str_eq(name, "v128.store16_lane") {
        return true;
    }
    if str_eq(name, "v128.store32_lane") {
        return true;
    }
    if str_eq(name, "v128.store64_lane") {
        return true;
    }
    false
}

/// Atomic memory accesses.
pub open spec fn is_atomic_memory_access(name: Seq<char>) -> bool {
    name == "memory.atomic.notify"@
        || name == "memory.atomic.wait32"@
        || name == "memory.atomic.wait64"@
        || name == "i32.atomic.load"@
        || name == "i64.atomic.load"@
        || name == "i32.atomic.load8_u"@
        || name == "i32.atomic.load16_u"@
        || name == "i64.atomic.load8_u"@
        || name == "i64.atomic.load16_u"@
        || name == "i64.atomic.load32_u"@
        || name == "i32.atomic.store"@
        || name == "i64.atomic.store"@
        || name == "i32.atomic.store8"@
        || name == "i32.atomic.store16"@
        || name == "i64.atomic.store8"@
        || name == "i64.atomic.store16"@
        || name == "i64.atomic.store32"@
        || name == "i32.atomic.rmw.add"@
        || name == "i64.atomic.rmw.add"@
        || name == "i32.atomic.rmw8.add_u"@
        || name == "i32.atomic.rmw16.add_u"@
        || name == "i64.atomic.rmw8.add_u"@
        || name == "i64.atomic.rmw16.add_u"@
        || name == "i64.atomic.rmw32.add_u"@
        || name == "i32.atomic.rmw.sub"@
        || name == "i64.atomic.rmw.sub"@
        || name == "i32.atomic.rmw8.sub_u"@
        || name == "i32.atomic.rmw16.sub_u"@
        || name == "i64.atomic.rmw8.sub_u"@
        || name == "i64.atomic.rmw16.sub_u"@
        || name == "i64.atomic.rmw32.sub_u"@
        || name == "i32.atomic.rmw.and"@
        || name == "i64.atomic.rmw.and"@
        || name == "i32.atomic.rmw8.and_u"@
        || name == "i32.atomic.rmw16.and_u"@
        || name == "i64.atomic.rmw8.and_u"@
        || name == "i64.atomic.rmw16.and_u"@
        || name == "i64.atomic.rmw32.and_u"@
        || name == "i32.atomic.rmw.or"@
        || name == "i64.atomic.rmw.or"@
        || name == "i32.atomic.rmw8.or_u"@
        || name == "i32.atomic.rmw16.or_u"@
        || name == "i64.atomic.rmw8.or_u"@
        || name == "i64.atomic.rmw16.or_u"@
        || name == "i64.atomic.rmw32.or_u"@
        || name == "i32.atomic.rmw.xor"@
        || name == "i64.atomic.rmw.xor"@
        || name == "i32.atomic.rmw8.xor_u"@
        || name == "i32.atomic.rmw16.xor_u"@
        || name == "i64.atomic.rmw8.xor_u"@
        || name == "i64.atomic.rmw16.xor_u"@
        || name == "i64.atomic.rmw32.xor_u"@
        || name == "i32.atomic.rmw.xchg"@
        || name == "i64.atomic.rmw.xchg"@
        || name == "i32.atomic.rmw8.xchg_u"@
        || name == "i32.atomic.rmw16.xchg_u"@
        || name == "i64.atomic.rmw8.xchg_u"@
        || name == "i64.atomic.rmw16.xchg_u"@
        || name == "i64.atomic.rmw32.xchg_u"@
        || name == "i32.atomic.rmw.cmpxchg"@
        || name == "i64.atomic.rmw.cmpxchg"@
        || name == "i32.atomic.rmw8.cmpxchg_u"@
        || name == "i32.atomic.rmw16.cmpxchg_u"@
        || name == "i64.atomic.rmw8.cmpxchg_u"@
        || name == "i64.atomic.rmw16.cmpxchg_u"@
        || name == "i64.atomic.rmw32.cmpxchg_u"@
}

fn atomic_memory_access(name: &str) -> (r: bool)
    ensures
        r == is_atomic_memory_access(name@),
{
    if str_eq(name, "memory.atomic.notify") {
        return true;
    }
    if str_eq(name, "memory.atomic.wait32") {
        return true;
    }
    if str_eq(name, "memory.atomic.wait64") {
        return true;
    }
    if str_eq(name, "i32.atomic.load") {
        return true;
    }
    if str_eq(name, "i64.atomic.load") {
        return true;
    }
    if str_eq(name, "i32.atomic.load8_u") {
        return true;
    }
    if str_eq(name, "i32.atomic.load16_u") {
        return true;
    }
    if str_eq(name, "i64.atomic.load8_u") {
        return true;
    }
    if str_eq(name, "i64.atomic.load16_u") {
        return true;
    }
    if str_eq(name, "i64.atomic.load32_u") {
        return true;
    }
    if str_eq(name, "i32.atomic.store") {
        return true;
    }
    if str_eq(name, "i64.atomic.store") {
        return true;
    }
    if str_eq(name, "i32.atomic.store8") {
        return true;
    }
    if str_eq(name, "i32.atomic.store16") {
        return true;
    }
    if str_eq(name, "i64.atomic.store8") {
        return true;
    }
    if str_eq(name, "i64.atomic.store16") {
        return true;
    }
    if str_eq(name, "i64.atomic.store32") {
        return true;
    }
    if str_eq(name, "i32.atomic.rmw.add") {
        return true;
    }
    if str_eq(name, "i64.atomic.rmw.add") {
        return true;
    }
    if str_eq(name, "i32.atomic.rmw8.add_u") {
        return true;
    }
    if str_eq(name, "i32.atomic.rmw16.add_u") {
        return true;
    }
    if str_eq(name, "i64.atomic.rmw8.add_u") {
        return true;
    }
    if str_eq(name, "i64.atomic.rmw16.add_u") {
        return true;
    }
    if str_eq(name, "i64.atomic.rmw32.add_u") {
        return true;
    }
    if str_eq(name, "i32.atomic.rmw.sub") {
        return true;
    }
    if str_eq(name, "i64.atomic.rmw.sub") {
        return true;
    }
    if str_eq(name, "i32.atomic.rmw8.sub_u") {
        return true;
    }
    if str_eq(name, "i32.atomic.rmw16.sub_u") {
        return true;
    }
    if str_eq(name, "i64.atomic.rmw8.sub_u") {
        return true;
    }
    if str_eq(name, "i64.atomic.rmw16.sub_u") {
        return true;
    }
    if str_eq(name, "i64.atomic.rmw32.sub_u") {
        return true;
    }
    if str_eq(name, "i32.atomic.rmw.and") {
        return true;
    }
    if str_eq(name, "i64.atomic.rmw.and") {
        return true;
    }
    if str_eq(name, "i32.atomic.rmw8.and_u") {
        return true;
    }
    if str_eq(name, "i32.atomic.rmw16.and_u") {
        return true;
    }
    if str_eq(name, "i64.atomic.rmw8.and_u") {
        return true;
    }
    if str_eq(name, "i64.atomic.rmw16.and_u") {
        return true;
    }
    if str_eq(name, "i64.atomic.rmw32.and_u") {
        return true;
    }
    if str_eq(name, "i32.atomic.rmw.or") {
        return true;
    }
    if str_eq(name, "i64.atomic.rmw.or") {
        return true;
    }
    if str_eq(name, "i32.atomic.rmw8.or_u") {
        return true;
    }
    if str_eq(name, "i32.atomic.rmw16.or_u") {
        return true;
    }
    if str_eq(name, "i64.atomic.rmw8.or_u") {
        return true;
    }
    if str_eq(name, "i64.atomic.rmw16.or_u") {
        return true;
    }
    if str_eq(name, "i64.atomic.rmw32.or_u") {
        return true;
    }
    if str_eq(name, "i32.atomic.rmw.xor") {
        return true;
    }
    if str_eq(name, "i64.atomic.rmw.xor") {
        return true;
    }
    if str_eq(name, "i32.atomic.rmw8.xor_u") {
        return true;
    }
    if str_eq(name, "i32.atomic.rmw16.xor_u") {
        return true;
    }
    if str_eq(name, "i64.atomic.rmw8.xor_u") {
        return true;
    }
    if str_eq(name, "i64.atomic.rmw16.xor_u") {
        return true;
    }
    if str_eq(name, "i64.atomic.rmw32.xor_u") {
        return true;
    }
    if str_eq(name, "i32.atomic.rmw.xchg") {
        return true;
    }
    if str_eq(name, "i64.atomic.rmw.xchg") {
        return true;
    }
    if str_eq(name, "i32.atomic.rmw8.xchg_u") {
        return true;
    }
    if str_eq(name, "i32.atomic.rmw16.xchg_u") {
        return true;
    }
    if str_eq(name, "i64.atomic.rmw8.xchg_u") {
        return true;
    }
    if str_eq(name, "i64.atomic.rmw16.xchg_u") {
        return true;
    }
    if str_eq(name, "i64.atomic.rmw32.xchg_u") {
        return true;
    }
    if str_eq(name, "i32.atomic.rmw.cmpxchg") {
        return true;
    }
    if str_eq(name, "i64.atomic.rmw.cmpxchg") {
        return true;
    }
    if str_eq(name, "i32.atomic.rmw8.cmpxchg_u") {
        return true;
    }
    if str_eq(name, "i32.atomic.rmw16.cmpxchg_u") {
        return true;
    }
    if str_eq(name, "i64.atomic.rmw8.cmpxchg_u") {
        return true;
    }
    if str_eq(name, "i64.atomic.rmw16.cmpxchg_u") {
        return true;
    }
    if str_eq(name, "i64.atomic.rmw32.cmpxchg_u") {
        return true;
    }
    false
}

/// The form of the immediates an instruction takes, by its name.
pub open spec fn instr_form(name: Seq<char>) -> InstrForm {
    if is_takes_index(name) {
        InstrForm::TakesIndex
    } else if name == "i32.const"@ || name == "i64.const"@ {
        InstrForm::IntConst
    } else if name == "f32.const"@ || name == "f64.const"@ {
        InstrForm::FloatConst
    } else if name == "select"@ {
        InstrForm::Select
    } else if name == "br_table"@ {
        InstrForm::BrTable
    } else if name == "call_indirect"@ || name == "return_call_indirect"@ {
        InstrForm::IndirectCall
    } else if is_takes_two_indices(name) {
        InstrForm::TakesTwoIndices
    } else if is_memory_access(name) {
        InstrForm::MemoryAccess
    } else if is_takes_optional_index(name) {
        InstrForm::TakesOptionalIndex
    } else if name == "memory.copy"@ || name == "table.copy"@ {
        InstrForm::Copy
    } else if name == "memory.init"@ || name == "table.init"@ {
        InstrForm::Init
    } else if name == "v128.const"@ {
        InstrForm::V128Const
    } else if is_lane_access(name) {
        InstrForm::LaneAccess
    } else if name == "i8x16.shuffle"@ {
        InstrForm::Shuffle
    } else if is_lane_memory_access(name) {
        InstrForm::LaneMemoryAccess
    } else if name == "ref.null"@ {
        InstrForm::RefNull
    } else if name == "ref.test"@ || name == "ref.cast"@ {
        InstrForm::RefTest
    } else if name == "array.new_fixed"@ {
        InstrForm::ArrayNewFixed
    } else if name == "br_on_cast"@ || name == "br_on_cast_fail"@ {
        InstrForm::BrOnCast
    } else if is_atomic_memory_access(name) {
        InstrForm::AtomicMemoryAccess
    } else if name == "resume"@ || name == "resume_throw_ref"@ {
        InstrForm::Resume
    } else if name == "resume_throw"@ {
        InstrForm::ResumeThrow
    } else {
        InstrForm::Other
    }
}

/// The form of the immediates an instruction takes, by its name.
pub fn form_of(name: &str) -> (r: InstrForm)
    ensures
        r == instr_form(name@),
{
    if takes_index(name) {
        return InstrForm::TakesIndex;
    }
    if str_eq(name, "i32.const") || str_eq(name, "i64.const") {
        return InstrForm::IntConst;
    }
    if str_eq(name, "f32.const") || str_eq(name, "f64.const") {
        return InstrForm::FloatConst;
    }
    if str_eq(name, "select") {
        return InstrForm::Select;
    }
    if str_eq(name, "br_table") {
        return InstrForm::BrTable;
    }
    if str_eq(name, "call_indirect") || str_eq(name, "return_call_indirect") {
        return InstrForm::IndirectCall;
    }
    if takes_two_indices(name) {
        return InstrForm::TakesTwoIndices;
    }
    if memory_access(name) {
        return InstrForm::MemoryAccess;
    }
    if takes_optional_index(name) {
        return InstrForm::TakesOptionalIndex;
    }
    if str_eq(name, "memory.copy") || str_eq(name, "table.copy") {
        return InstrForm::Copy;
    }
    if str_eq(name, "memory.init") || str_eq(name, "table.init") {
        return InstrForm::Init;
    }
    if str_eq(name, "v128.const") {
        return InstrForm::V128Const;
    }
    if lane_access(name) {
        return InstrForm::LaneAccess;
    }
    if str_eq(name, "i8x16.shuffle") {
        return InstrForm::Shuffle;
    }
    if lane_memory_access(name) {
        return InstrForm::LaneMemoryAccess;
    }
    if str_eq(name, "ref.null") {
        return InstrForm::RefNull;
    }
    if str_eq(name, "ref.test") || str_eq(name, "ref.cast") {
        return InstrForm::RefTest;
    }
    if str_eq(name, "array.new_fixed") {
        return InstrForm::ArrayNewFixed;
    }
    if str_eq(name, "br_on_cast") || str_eq(name, "br_on_cast_fail") {
        return InstrForm::BrOnCast;
    }
    if atomic_memory_access(name) {
        return InstrForm::AtomicMemoryAccess;
    }
    if str_eq(name, "resume") || str_eq(name, "resume_throw_ref") {
        return InstrForm::Resume;
    }
    if str_eq(name, "resume_throw") {
        return InstrForm::ResumeThrow;
    }
    InstrForm::Other
}

/// A diagnostic of this check.
pub open spec fn instr_diag(range: TextRange, message: Seq<char>) -> DiagnosticView {
    plain_diag(range, DiagnosticSeverity::Error, "plain-instr"@, message)
}

/// The nodes behind a list of references.
pub open spec fn refs(v: Seq<&SyntaxNode>) -> Seq<SyntaxNode> {
    v.map_values(|n: &SyntaxNode| *n)
}

/// Reading one expected immediate at position `pos`: what is reported and
/// the position after it. A present immediate of the wrong kind is reported
/// and skipped when required, and left for the next reading otherwise; a
/// missing one (or one with no children) is reported at the instruction
/// name when required.
pub open spec fn step(imms: Seq<SyntaxNode>, pos: int, e: Expect, required: bool, at: TextRange) -> (
    Seq<DiagnosticView>,
    int,
) {
    let found = if 0 <= pos < imms.len() {
        first_child_kind(imms[pos])
    } else {
        None
    };
    match found {
        Some(k) => if expect_matches(e, k) {
            (seq![], pos + 1)
        } else if required {
            (seq![instr_diag(imms[pos].range, "expected "@ + expect_desc(e))], pos + 1)
        } else {
            (seq![], pos)
        },
        None => if required {
            (seq![instr_diag(at, "missing "@ + expect_desc(e))], pos)
        } else {
            (seq![], pos)
        },
    }
}

/// Reading the expected immediates of a plan in order from position `pos`.
pub open spec fn run_steps(imms: Seq<SyntaxNode>, pos: int, plan: Seq<(Expect, bool)>, at: TextRange) -> (
    Seq<DiagnosticView>,
    int,
)
    decreases plan.len(),
{
    if plan.len() == 0 {
        (seq![], pos)
    } else {
        let (d, p) = run_steps(imms, pos, plan.drop_last(), at);
        let (d2, p2) = step(imms, p, plan.last().0, plan.last().1, at);
        (d + d2, p2)
    }
}

/// Whether a trailing immediate is a branch label (`on_clause` false) or an
/// `on` handler clause (`on_clause` true).
pub open spec fn rest_ok(on_clause: bool, imm: SyntaxNode) -> bool {
    if on_clause {
        first_child_kind(imm) == Some(SyntaxKind::ON_CLAUSE)
    } else {
        first_child_kind(imm) matches Some(k) && (k == SyntaxKind::IDENT || k == SyntaxKind::INT)
    }
}

/// The message for a trailing immediate that is not what `rest_ok` wants.
pub open spec fn rest_message(on_clause: bool) -> Seq<char> {
    if on_clause {
        "expected `on` handler clause"@
    } else {
        "expected identifier or unsigned integer"@
    }
}

/// A report for each immediate at positions `from..n` that is not what
/// `rest_ok` wants, in order.
pub open spec fn rest_diags(imms: Seq<SyntaxNode>, from: int, on_clause: bool, n: int) -> Seq<DiagnosticView>
    decreases n - from,
{
    if n <= from {
        seq![]
    } else {
        rest_diags(imms, from, on_clause, n - 1) + if rest_ok(on_clause, imms[n - 1]) {
            seq![]
        } else {
            seq![instr_diag(imms[n - 1].range, rest_message(on_clause))]
        }
    }
}

/// What follows the form's own immediates: for an instruction that exists,
/// each immediate left from `from` on is unexpected; any other name is
/// reported as unknown.
pub open spec fn tail_diags(imms: Seq<SyntaxNode>, from: int, name: SyntaxToken) -> Seq<DiagnosticView> {
    if instr_op_code(name.text@) is Some {
        node_diags(after(imms, from), DiagnosticSeverity::Error, "plain-instr"@, "unexpected immediate"@)
    } else {
        seq![instr_diag(name.range, "unknown instruction `"@ + name.text@ + "`"@)]
    }
}

/// The report on the immediate of `select`: it must hold a type use with
/// exactly one result, itself of exactly one type.
pub open spec fn select_diag(imm: SyntaxNode) -> Option<DiagnosticView> {
    let uses = child_nodes_of(imm, SyntaxKind::TYPE_USE);
    if uses.len() == 0 {
        Some(instr_diag(imm.range, "expected result type"@))
    } else {
        let results = child_nodes(uses[0]);
        if results.len() == 1 && results[0].kind == SyntaxKind::RESULT && child_nodes(results[0]).len() == 1 {
            None
        } else {
            Some(instr_diag(imm.range, "there must be exactly one result type"@))
        }
    }
}

/// Position of the first byte `c` among the first `n` bytes.
pub open spec fn first_byte(b: Seq<u8>, c: u8, n: int) -> Option<int>
    decreases n,
{
    if n <= 0 {
        None
    } else {
        match first_byte(b, c, n - 1) {
            Some(i) => Some(i),
            None => if b[n - 1] == c {
                Some(n - 1)
            } else {
                None
            },
        }
    }
}

/// What a shape descriptor such as `f32x4` says of the lanes: whether they
/// are floating-point, and how many there are (the part after the first
/// `x`, read as a `usize`).
pub open spec fn descriptor_lanes(b: Seq<u8>) -> Option<(bool, nat)> {
    match first_byte(b, 0x78, b.len() as int) {
        Some(i) => match parse_digits(b.subrange(i + 1, b.len() as int), 10, usize::MAX as nat) {
            ParsedUint::Value(n) => Some((i > 0 && b[0] == 0x66, n as nat)),
            _ => None,
        },
        None => None,
    }
}

/// The lanes that the shape descriptor of `v128.const` announces, when its
/// first immediate starts with one.
pub open spec fn shape_lanes(imms: Seq<SyntaxNode>) -> Option<(bool, nat)> {
    if imms.len() > 0 && imms[0].children@.len() > 0 {
        match imms[0].children@[0] {
            SyntaxElement::Token(t) => if t.kind == SyntaxKind::SHAPE_DESCRIPTOR {
                descriptor_lanes(encode_utf8(t.text@))
            } else {
                None
            },
            _ => None,
        }
    } else {
        None
    }
}

/// `n` required lane values, floating-point or integer.
pub open spec fn lane_plan(float: bool, n: nat) -> Seq<(Expect, bool)> {
    Seq::new(n, |i: int| (if float { Expect::Float } else { Expect::Integer }, true))
}

/// The reports on `v128.const`: its shape, then as many lane values as the
/// shape announces (their count is reported at the instruction when it
/// differs), then what is left.
pub open spec fn v128_const_diags(node: SyntaxNode, imms: Seq<SyntaxNode>, name: SyntaxToken) -> Seq<DiagnosticView> {
    let (d1, p1) = run_steps(imms, 0, form_steps(InstrForm::V128Const), name.range);
    match shape_lanes(imms) {
        Some((float, expected)) => {
            let actual = (imms.len() - p1) as nat;
            let count = if actual != expected {
                seq![
                    instr_diag(
                        node.range,
                        "expected "@ + decimal(expected) + " "@ + (if float {
                            "floating-point numbers"@
                        } else {
                            "integers"@
                        }) + " in `v128.const`"@,
                    ),
                ]
            } else {
                seq![]
            };
            let (d3, p3) = run_steps(imms, p1, lane_plan(float, actual), name.range);
            d1 + count + d3 + tail_diags(imms, p3, name)
        },
        None => d1 + tail_diags(imms, p1, name),
    }
}

/// The reports on the immediates of a plain instruction named by `name`.
pub open spec fn plain_instr_diags(node: SyntaxNode, name: SyntaxToken) -> Seq<DiagnosticView> {
    let imms = child_nodes_of(node, SyntaxKind::IMMEDIATE);
    let form = instr_form(name.text@);
    let at = name.range;
    match form {
        InstrForm::Select => if imms.len() == 0 {
            tail_diags(imms, 0, name)
        } else {
            (match select_diag(imms[0]) {
                Some(d) => seq![d],
                None => seq![],
            }) + tail_diags(imms, 1, name)
        },
        InstrForm::BrTable => {
            let (d, p) = run_steps(imms, 0, form_steps(form), at);
            d + rest_diags(imms, p, false, imms.len() as int)
        },
        InstrForm::Resume | InstrForm::ResumeThrow => {
            let (d, p) = run_steps(imms, 0, form_steps(form), at);
            d + rest_diags(imms, p, true, imms.len() as int)
        },
        InstrForm::Copy => if imms.len() == 0 {
            tail_diags(imms, 0, name)
        } else {
            let (d, p) = run_steps(imms, 0, form_steps(form), at);
            d + tail_diags(imms, p, name)
        },
        InstrForm::V128Const => v128_const_diags(node, imms, name),
        InstrForm::Shuffle => if imms.len() == 16 {
            seq![]
        } else {
            seq![
                instr_diag(
                    node.range,
                    "expected 16 lane indices in `i8x16.shuffle`, found "@ + decimal(imms.len()),
                ),
            ]
        },
        _ => {
            let (d, p) = run_steps(imms, 0, form_steps(form), at);
            d + tail_diags(imms, p, name)
        },
    }
}

fn push_diag(diagnostics: &mut Vec<Diagnostic>, range: TextRange, message: String)
    ensures
        diag_views(final(diagnostics)@) == diag_views(old(diagnostics)@) + seq![instr_diag(range, message@)],
{
    let ghost before = diagnostics@;
    let d = Diagnostic::plain(range, DiagnosticSeverity::Error, "plain-instr", message);
    diagnostics.push(d);
    assert(diag_views(diagnostics@) =~= diag_views(before) + seq![instr_diag(range, message@)]);
}

fn check_immediate(
    diagnostics: &mut Vec<Diagnostic>,
    imms: &Vec<&SyntaxNode>,
    pos: usize,
    e: Expect,
    required: bool,
    at: TextRange,
) -> (p: usize)
    requires
        pos <= imms@.len(),
    ensures
        diag_views(final(diagnostics)@) == diag_views(old(diagnostics)@) + step(
            refs(imms@),
            pos as int,
            e,
            required,
            at,
        ).0,
        p as int == step(refs(imms@), pos as int, e, required, at).1,
        p <= imms@.len(),
{
    let found = if pos < imms.len() {
        imms[pos].first_kind()
    } else {
        None
    };
    assert(diag_views(old(diagnostics)@) + seq![] =~= diag_views(old(diagnostics)@));
    match found {
        Some(k) => {
            if matches_kind(e, k) {
                pos + 1
            } else if required {
                let mut m = String::from_str("expected ");
                m.append(desc(e));
                push_diag(diagnostics, imms[pos].range, m);
                pos + 1
            } else {
                pos
            }
        },
        None => {
            if required {
                let mut m = String::from_str("missing ");
                m.append(desc(e));
                push_diag(diagnostics, at, m);
            }
            pos
        },
    }
}

fn run_checks(
    diagnostics: &mut Vec<Diagnostic>,
    imms: &Vec<&SyntaxNode>,
    pos: usize,
    plan: &Vec<(Expect, bool)>,
    at: TextRange,
) -> (p: usize)
    requires
        pos <= imms@.len(),
    ensures
        diag_views(final(diagnostics)@) == diag_views(old(diagnostics)@) + run_steps(
            refs(imms@),
            pos as int,
            plan@,
            at,
        ).0,
        p as int == run_steps(refs(imms@), pos as int, plan@, at).1,
        p <= imms@.len(),
{
    let ghost all = refs(imms@);
    let mut p = pos;
    let mut i: usize = 0;
    assert(diag_views(old(diagnostics)@) + seq![] =~= diag_views(old(diagnostics)@));
    assert(plan@.subrange(0, 0).len() == 0);
    while i < plan.len()
        invariant
            all == refs(imms@),
            pos <= imms@.len(),
            p <= imms@.len(),
            i <= plan@.len(),
            diag_views(diagnostics@) == diag_views(old(diagnostics)@) + run_steps(
                all,
                pos as int,
                plan@.subrange(0, i as int),
                at,
            ).0,
            p as int == run_steps(all, pos as int, plan@.subrange(0, i as int), at).1,
        decreases plan@.len() - i,
    {
        let ghost mid = diagnostics@;
        let (e, req) = plan[i];
        p = check_immediate(diagnostics, imms, p, e, req, at);
        proof {
            let pre = plan@.subrange(0, i + 1);
            assert(pre.drop_last() =~= plan@.subrange(0, i as int));
            assert(pre.last() == plan@[i as int]);
            let (d0, p0) = run_steps(all, pos as int, plan@.subrange(0, i as int), at);
            let (d1, p1) = step(all, p0, e, req, at);
            assert(diag_views(diagnostics@) =~= diag_views(old(diagnostics)@) + (d0 + d1));
        }
        i = i + 1;
    }
    assert(plan@.subrange(0, plan@.len() as int) =~= plan@);
    p
}

fn check_rest(diagnostics: &mut Vec<Diagnostic>, imms: &Vec<&SyntaxNode>, from: usize, on_clause: bool)
    ensures
        diag_views(final(diagnostics)@) == diag_views(old(diagnostics)@) + rest_diags(
            refs(imms@),
            from as int,
            on_clause,
            imms@.len() as int,
        ),
{
    let ghost all = refs(imms@);
    if from >= imms.len() {
        assert(diag_views(old(diagnostics)@) + seq![] =~= diag_views(old(diagnostics)@));
        return;
    }
    let mut i = from;
    assert(diag_views(old(diagnostics)@) + seq![] =~= diag_views(old(diagnostics)@));
    while i < imms.len()
        invariant
            all == refs(imms@),
            from <= i <= imms@.len(),
            diag_views(diagnostics@) == diag_views(old(diagnostics)@) + rest_diags(
                all,
                from as int,
                on_clause,
                i as int,
            ),
        decreases imms@.len() - i,
    {
        let ghost mid = diagnostics@;
        let k = imms[i].first_kind();
        let ok = if on_clause {
            k == Some(SyntaxKind::ON_CLAUSE)
        } else {
            match k {
                Some(kind) => kind == SyntaxKind::IDENT || kind == SyntaxKind::INT,
                None => false,
            }
        };
        assert(all[i as int] == *imms@[i as int]);
        if !ok {
            let m = if on_clause {
                String::from_str("expected `on` handler clause")
            } else {
                String::from_str("expected identifier or unsigned integer")
            };
            push_diag(diagnostics, imms[i].range, m);
        }
        assert(diag_views(diagnostics@) =~= diag_views(old(diagnostics)@) + rest_diags(
            all,
            from as int,
            on_clause,
            i + 1,
        ));
        i = i + 1;
    }
}

fn check_tail(diagnostics: &mut Vec<Diagnostic>, imms: &Vec<&SyntaxNode>, from: usize, name: &SyntaxToken)
    ensures
        diag_views(final(diagnostics)@) == diag_views(old(diagnostics)@) + tail_diags(
            refs(imms@),
            from as int,
            *name,
        ),
{
    if get_instr_op_code(name.text.as_str()).is_some() {
        push_node_diags(diagnostics, imms, from, DiagnosticSeverity::Error, "plain-instr", "unexpected immediate");
    } else {
        let mut m = String::from_str("unknown instruction `");
        m.append(name.text.as_str());
        m.append("`");
        push_diag(diagnostics, name.range, m);
    }
}

fn check_select(imm: &SyntaxNode) -> (r: Option<Diagnostic>)
    ensures
        match select_diag(*imm) {
            Some(d) => r matches Some(x) && x@ == d,
            None => r is None,
        },
{
    match imm.child_of_kind(SyntaxKind::TYPE_USE) {
        None => Some(
            Diagnostic::plain(imm.range, DiagnosticSeverity::Error, "plain-instr", String::from_str("expected result type")),
        ),
        Some(type_use) => {
            let results = type_use.nodes();
            if results.len() == 1 && results[0].kind == SyntaxKind::RESULT && results[0].nodes().len() == 1 {
                None
            } else {
                Some(
                    Diagnostic::plain(
                        imm.range,
                        DiagnosticSeverity::Error,
                        "plain-instr",
                        String::from_str("there must be exactly one result type"),
                    ),
                )
            }
        },
    }
}

proof fn lemma_first_byte_stable(b: Seq<u8>, c: u8, a: int, n: int)
    requires
        0 <= a <= n,
        first_byte(b, c, a) is Some,
    ensures
        first_byte(b, c, n) == first_byte(b, c, a),
    decreases n - a,
{
    if n > a {
        lemma_first_byte_stable(b, c, a, n - 1);
    }
}

fn lanes_of(b: &[u8]) -> (r: Option<(bool, usize)>)
    ensures
        match descriptor_lanes(b@) {
            Some((f, n)) => r == Some((f, n as usize)) && n <= usize::MAX,
            None => r is None,
        },
{
    let mut i: usize = 0;
    while i < b.len()
        invariant
            i <= b@.len(),
            first_byte(b@, 0x78, i as int) is None,
        decreases b@.len() - i,
    {
        if b[i] == 0x78 {
            proof {
                lemma_first_byte_stable(b@, 0x78, i + 1, b@.len() as int);
            }
            let float = i > 0 && b[0] == 0x66;
            return match parse_digits_from(b, i + 1, 10, usize::MAX as u64) {
                ParsedUint::Value(n) => Some((float, n as usize)),
                _ => None,
            };
        }
        i = i + 1;
    }
    None
}

fn shape_lanes_of(imms: &Vec<&SyntaxNode>) -> (r: Option<(bool, usize)>)
    ensures
        match shape_lanes(refs(imms@)) {
            Some((f, n)) => r == Some((f, n as usize)) && n <= usize::MAX,
            None => r is None,
        },
{
    if imms.len() == 0 {
        return None;
    }
    assert(refs(imms@)[0] == *imms@[0]);
    let first = imms[0];
    if first.children.len() == 0 {
        return None;
    }
    match &first.children[0] {
        SyntaxElement::Token(t) => {
            if t.kind == SyntaxKind::SHAPE_DESCRIPTOR {
                lanes_of(t.text.as_str().as_bytes())
            } else {
                None
            }
        },
        SyntaxElement::Node(_) => None,
    }
}

fn check_v128_const(diagnostics: &mut Vec<Diagnostic>, node: &SyntaxNode, imms: &Vec<&SyntaxNode>, name: &SyntaxToken)
    requires
        refs(imms@) == child_nodes_of(*node, SyntaxKind::IMMEDIATE),
    ensures
        diag_views(final(diagnostics)@) == diag_views(old(diagnostics)@) + v128_const_diags(
            *node,
            refs(imms@),
            *name,
        ),
{
    let ghost all = refs(imms@);
    let ghost start = diag_views(diagnostics@);
    let plan = steps_of(InstrForm::V128Const);
    let p1 = run_checks(diagnostics, imms, 0, &plan, name.range);
    let ghost after_shape = diag_views(diagnostics@);
    match shape_lanes_of(imms) {
        Some((float, expected)) => {
            let actual = imms.len() - p1;
            if actual != expected {
                let mut m = String::from_str("expected ");
                push_decimal(&mut m, expected as u64);
                m.append(" ");
                if float {
                    m.append("floating-point numbers");
                } else {
                    m.append("integers");
                }
                m.append(" in `v128.const`");
                push_diag(diagnostics, node.range, m);
            } else {
                assert(diag_views(diagnostics@) =~= after_shape + seq![]);
            }
            let ghost after_count = diag_views(diagnostics@);
            let e = if float {
                Expect::Float
            } else {
                Expect::Integer
            };
            let mut lanes: Vec<(Expect, bool)> = Vec::new();
            let mut k: usize = 0;
            while k < actual
                invariant
                    k <= actual,
                    lanes@ =~= lane_plan(float, k as nat),
                    e == (if float { Expect::Float } else { Expect::Integer }),
                decreases actual - k,
            {
                lanes.push((e, true));
                k = k + 1;
            }
            let p3 = run_checks(diagnostics, imms, p1, &lanes, name.range);
            check_tail(diagnostics, imms, p3, name);
            proof {
                let (d1, q1) = run_steps(all, 0, form_steps(InstrForm::V128Const), name.range);
                assert(q1 == p1);
                assert(after_shape == start + d1);
                let count = if (actual as nat) != (expected as nat) {
                    seq![
                        instr_diag(
                            node.range,
                            "expected "@ + decimal(expected as nat) + " "@ + (if float {
                                "floating-point numbers"@
                            } else {
                                "integers"@
                            }) + " in `v128.const`"@,
                        ),
                    ]
                } else {
                    seq![]
                };
                assert(after_count =~= start + d1 + count);
                let (d3, q3) = run_steps(all, q1, lane_plan(float, actual as nat), name.range);
                assert(lanes@ == lane_plan(float, actual as nat));
                assert(q3 == p3);
                assert(diag_views(diagnostics@) =~= start + d1 + count + d3 + tail_diags(all, q3, *name));
                assert(v128_const_diags(*node, all, *name) =~= d1 + count + d3 + tail_diags(all, q3, *name));
            }
        },
        None => {
            check_tail(diagnostics, imms, p1, name);
            assert(diag_views(diagnostics@) =~= start + v128_const_diags(*node, all, *name));
        },
    }
}

/// Checks the immediates of a plain instruction whose name token is
/// `instr_name`: see `plain_instr_diags`.
pub fn check(diagnostics: &mut Vec<Diagnostic>, node: &SyntaxNode, instr_name: &SyntaxToken)
    ensures
        diag_views(final(diagnostics)@) == diag_views(old(diagnostics)@) + plain_instr_diags(*node, *instr_name),
{
    let imms = node.children_of_kind(SyntaxKind::IMMEDIATE);
    let ghost all = refs(imms@);
    let ghost start = diag_views(diagnostics@);
    let form = form_of(instr_name.text.as_str());
    match form {
        InstrForm::Select => {
            if imms.len() == 0 {
                check_tail(diagnostics, &imms, 0, instr_name);
            } else {
                assert(all[0] == *imms@[0]);
                match check_select(imms[0]) {
                    Some(d) => {
                        diagnostics.push(d);
                    },
                    None => {},
                }
                let ghost mid = diag_views(diagnostics@);
                check_tail(diagnostics, &imms, 1, instr_name);
                assert(diag_views(diagnostics@) =~= start + plain_instr_diags(*node, *instr_name));
            }
        },
        InstrForm::BrTable | InstrForm::Resume | InstrForm::ResumeThrow => {
            let plan = steps_of(form);
            let p = run_checks(diagnostics, &imms, 0, &plan, instr_name.range);
            let on_clause = match form {
                InstrForm::BrTable => false,
                _ => true,
            };
            check_rest(diagnostics, &imms, p, on_clause);
            assert(diag_views(diagnostics@) =~= start + plain_instr_diags(*node, *instr_name));
        },
        InstrForm::Copy => {
            if imms.len() == 0 {
                check_tail(diagnostics, &imms, 0, instr_name);
            } else {
                let plan = steps_of(form);
                let p = run_checks(diagnostics, &imms, 0, &plan, instr_name.range);
                check_tail(diagnostics, &imms, p, instr_name);
                assert(diag_views(diagnostics@) =~= start + plain_instr_diags(*node, *instr_name));
            }
        },
        InstrForm::V128Const => {
            check_v128_const(diagnostics, node, &imms, instr_name);
        },
        InstrForm::Shuffle => {
            if imms.len() != 16 {
                let mut m = String::from_str("expected 16 lane indices in `i8x16.shuffle`, found ");
                push_decimal(&mut m, imms.len() as u64);
                push_diag(diagnostics, node.range, m);
            } else {
                assert(diag_views(diagnostics@) =~= start + seq![]);
            }
        },
        _ => {
            let plan = steps_of(form);
            let p = run_checks(diagnostics, &imms, 0, &plan, instr_name.range);
            check_tail(diagnostics, &imms, p, instr_name);
            assert(diag_views(diagnostics@) =~= start + plain_instr_diags(*node, *instr_name));
        },
    }
}

/// For an instruction with no immediates of its own, the immediate check
/// agrees with the name check: a name that is no instruction gets exactly
/// the report of the name check (under this check's code), and any other
/// name gets only reports of unexpected immediates.
pub proof fn law_unknown_names_agree(node: SyntaxNode, name: SyntaxToken)
    requires
        instr_form(name.text@) == InstrForm::Other,
    ensures
        match unknown_instr_diag(name) {
            Some(u) => plain_instr_diags(node, name) == seq![DiagnosticView { code: "plain-instr"@, ..u }],
            None => forall|i: int|
                0 <= i < plain_instr_diags(node, name).len() ==> (#[trigger] plain_instr_diags(node, name)[i]).message
                    == "unexpected immediate"@,
        },
{
    let imms = child_nodes_of(node, SyntaxKind::IMMEDIATE);
    assert(form_steps(InstrForm::Other).len() == 0);
    assert(run_steps(imms, 0, form_steps(InstrForm::Other), name.range) == (Seq::<DiagnosticView>::empty(), 0int));
    match unknown_instr_diag(name) {
        Some(u) => {
            assert(plain_instr_diags(node, name) =~= seq![DiagnosticView { code: "plain-instr"@, ..u }]);
        },
        None => {
            assert(plain_instr_diags(node, name) =~= node_diags(
                after(imms, 0),
                DiagnosticSeverity::Error,
                "plain-instr"@,
                "unexpected immediate"@,
            ));
        },
    }
}

} // verus!
