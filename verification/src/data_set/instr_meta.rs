//! The binary opcode of each instruction name of the text format.

use crate::text::str_eq;
use vstd::prelude::*;

verus! {

/// Opcodes of the instructions from `unreachable` to `i32.store16`, in the order of the table.
pub open spec fn op_codes_0(name: Seq<char>) -> Option<u32> {
    if name == "unreachable"@ {
        Some(0x00u32)
    } else if name == "nop"@ {
        Some(0x01u32)
    } else if name == "block"@ {
        Some(0x02u32)
    } else if name == "loop"@ {
        Some(0x03u32)
    } else if name == "if"@ {
        Some(0x04u32)
    } else if name == "else"@ {
        Some(0x05u32)
    } else if name == "throw"@ {
        Some(0x08u32)
    } else if name == "throw_ref"@ {
        Some(0x0Au32)
    } else if name == "end"@ {
        Some(0x0Bu32)
    } else if name == "br"@ {
        Some(0x0Cu32)
    } else if name == "br_if"@ {
        Some(0x0Du32)
    } else if name == "br_table"@ {
        Some(0x0Eu32)
    } else if name == "return"@ {
        Some(0x0Fu32)
    } else if name == "call"@ {
        Some(0x10u32)
    } else if name == "call_indirect"@ {
        Some(0x11u32)
    } else if name == "return_call"@ {
        Some(0x12u32)
    } else if name == "return_call_indirect"@ {
        Some(0x13u32)
    } else if name == "call_ref"@ {
        Some(0x14u32)
    } else if name == "return_call_ref"@ {
        Some(0x15u32)
    } else if name == "drop"@ {
        Some(0x1Au32)
    } else if name == "select"@ {
        Some(0x1Bu32)
    } else if name == "select."@ {
        Some(0x1Cu32)
    } else if name == "try_table"@ {
        Some(0x1Fu32)
    } else if name == "local.get"@ {
        Some(0x20u32)
    } else if name == "local.set"@ {
        Some(0x21u32)
    } else if name == "local.tee"@ {
        Some(0x22u32)
    } else if name == "global.get"@ {
        Some(0x23u32)
    } else if name == "global.set"@ {
        Some(0x24u32)
    } else if name == "table.get"@ {
        Some(0x25u32)
    } else if name == "table.set"@ {
        Some(0x26u32)
    } else if name == "i32.load"@ {
        Some(0x28u32)
    } else if name == "i64.load"@ {
        Some(0x29u32)
    } else if name == "f32.load"@ {
        Some(0x2Au32)
    } else if name == "f64.load"@ {
        Some(0x2Bu32)
    } else if name == "i32.load8_s"@ {
        Some(0x2Cu32)
    } else if name == "i32.load8_u"@ {
        Some(0x2Du32)
    } else if name == "i32.load16_s"@ {
        Some(0x2Eu32)
    } else if name == "i32.load16_u"@ {
        Some(0x2Fu32)
    } else if name == "i64.load8_s"@ {
        Some(0x30u32)
    } else if name == "i64.load8_u"@ {
        Some(0x31u32)
    } else if name == "i64.load16_s"@ {
        Some(0x32u32)
    } else if name == "i64.load16_u"@ {
        Some(0x33u32)
    } else if name == "i64.load32_s"@ {
        Some(0x34u32)
    } else if name == "i64.load32_u"@ {
        Some(0x35u32)
    } else if name == "i32.store"@ {
        Some(0x36u32)
    } else if name == "i64.store"@ {
        Some(0x37u32)
    } else if name == "f32.store"@ {
        Some(0x38u32)
    } else if name == "f64.store"@ {
        Some(0x39u32)
    } else if name == "i32.store8"@ {
        Some(0x3Au32)
    } else if name == "i32.store16"@ {
        Some(0x3Bu32)
    } else {
        None
    }
}

fn find_op_code_0(name: &str) -> (r: Option<u32>)
    ensures
        r == op_codes_0(name@),
{
    if str_eq(name, "unreachable") {
        return Some(0x00);
    }
    if str_eq(name, "nop") {
        return Some(0x01);
    }
    if str_eq(name, "block") {
        return Some(0x02);
    }
    if str_eq(name, "loop") {
        return Some(0x03);
    }
    if str_eq(name, "if") {
        return Some(0x04);
    }
    if str_eq(name, "else") {
        return Some(0x05);
    }
    if str_eq(name, "throw") {
        return Some(0x08);
    }
    if str_eq(name, "throw_ref") {
        return Some(0x0A);
    }
    if str_eq(name, "end") {
        return Some(0x0B);
    }
    if str_eq(name, "br") {
        return Some(0x0C);
    }
    if str_eq(name, "br_if") {
        return Some(0x0D);
    }
    if str_eq(name, "br_table") {
        return Some(0x0E);
    }
    if str_eq(name, "return") {
        return Some(0x0F);
    }
    if str_eq(name, "call") {
        return Some(0x10);
    }
    if str_eq(name, "call_indirect") {
        return Some(0x11);
    }
    if str_eq(name, "return_call") {
        return Some(0x12);
    }
    if str_eq(name, "return_call_indirect") {
        return Some(0x13);
    }
    if str_eq(name, "call_ref") {
        return Some(0x14);
    }
    if str_eq(name, "return_call_ref") {
        return Some(0x15);
    }
    if str_eq(name, "drop") {
        return Some(0x1A);
    }
    if str_eq(name, "select") {
        return Some(0x1B);
    }
    if str_eq(name, "select.") {
        return Some(0x1C);
    }
    if str_eq(name, "try_table") {
        return Some(0x1F);
    }
    if str_eq(name, "local.get") {
        return Some(0x20);
    }
    if str_eq(name, "local.set") {
        return Some(0x21);
    }
    if str_eq(name, "local.tee") {
        return Some(0x22);
    }
    if str_eq(name, "global.get") {
        return Some(0x23);
    }
    if str_eq(name, "global.set") {
        return Some(0x24);
    }
    if str_eq(name, "table.get") {
        return Some(0x25);
    }
    if str_eq(name, "table.set") {
        return Some(0x26);
    }
    if str_eq(name, "i32.load") {
        return Some(0x28);
    }
    if str_eq(name, "i64.load") {
        return Some(0x29);
    }
    if str_eq(name, "f32.load") {
        return Some(0x2A);
    }
    if str_eq(name, "f64.load") {
        return Some(0x2B);
    }
    if str_eq(name, "i32.load8_s") {
        return Some(0x2C);
    }
    if str_eq(name, "i32.load8_u") {
        return Some(0x2D);
    }
    if str_eq(name, "i32.load16_s") {
        return Some(0x2E);
    }
    if str_eq(name, "i32.load16_u") {
        return Some(0x2F);
    }
    if str_eq(name, "i64.load8_s") {
        return Some(0x30);
    }
    if str_eq(name, "i64.load8_u") {
        return Some(0x31);
    }
    if str_eq(name, "i64.load16_s") {
        return Some(0x32);
    }
    if str_eq(name, "i64.load16_u") {
        return Some(0x33);
    }
    if str_eq(name, "i64.load32_s") {
        return Some(0x34);
    }
    if str_eq(name, "i64.load32_u") {
        return Some(0x35);
    }
    if str_eq(name, "i32.store") {
        return Some(0x36);
    }
    if str_eq(name, "i64.store") {
        return Some(0x37);
    }
    if str_eq(name, "f32.store") {
        return Some(0x38);
    }
    if str_eq(name, "f64.store") {
        return Some(0x39);
    }
    if str_eq(name, "i32.store8") {
        return Some(0x3A);
    }
    if str_eq(name, "i32.store16") {
        return Some(0x3B);
    }
    None
}

/// Opcodes of the instructions from `i64.store8` to `i32.div_s`, in the order of the table.
pub open spec fn op_codes_1(name: Seq<char>) -> Option<u32> {
    if name == "i64.store8"@ {
        Some(0x3Cu32)
    } else if name == "i64.store16"@ {
        Some(0x3Du32)
    } else if name == "i64.store32"@ {
        Some(0x3Eu32)
    } else if name == "memory.size"@ {
        Some(0x3Fu32)
    } else if name == "memory.grow"@ {
        Some(0x40u32)
    } else if name == "i32.const"@ {
        Some(0x41u32)
    } else if name == "i64.const"@ {
        Some(0x42u32)
    } else if name == "f32.const"@ {
        Some(0x43u32)
    } else if name == "f64.const"@ {
        Some(0x44u32)
    } else if name == "i32.eqz"@ {
        Some(0x45u32)
    } else if name == "i32.eq"@ {
        Some(0x46u32)
    } else if name == "i32.ne"@ {
        Some(0x47u32)
    } else if name == "i32.lt_s"@ {
        Some(0x48u32)
    } else if name == "i32.lt_u"@ {
        Some(0x49u32)
    } else if name == "i32.gt_s"@ {
        Some(0x4Au32)
    } else if name == "i32.gt_u"@ {
        Some(0x4Bu32)
    } else if name == "i32.le_s"@ {
        Some(0x4Cu32)
    } else if name == "i32.le_u"@ {
        Some(0x4Du32)
    } else if name == "i32.ge_s"@ {
        Some(0x4Eu32)
    } else if name == "i32.ge_u"@ {
        Some(0x4Fu32)
    } else if name == "i64.eqz"@ {
        Some(0x50u32)
    } else if name == "i64.eq"@ {
        Some(0x51u32)
    } else if name == "i64.ne"@ {
        Some(0x52u32)
    } else if name == "i64.lt_s"@ {
        Some(0x53u32)
    } else if name == "i64.lt_u"@ {
        Some(0x54u32)
    } else if name == "i64.gt_s"@ {
        Some(0x55u32)
    } else if name == "i64.gt_u"@ {
        Some(0x56u32)
    } else if name == "i64.le_s"@ {
        Some(0x57u32)
    } else if name == "i64.le_u"@ {
        Some(0x58u32)
    } else if name == "i64.ge_s"@ {
        Some(0x59u32)
    } else if name == "i64.ge_u"@ {
        Some(0x5Au32)
    } else if name == "f32.eq"@ {
        Some(0x5Bu32)
    } else if name == "f32.ne"@ {
        Some(0x5Cu32)
    } else if name == "f32.lt"@ {
        Some(0x5Du32)
    } else if name == "f32.gt"@ {
        Some(0x5Eu32)
    } else if name == "f32.le"@ {
        Some(0x5Fu32)
    } else if name == "f32.ge"@ {
        Some(0x60u32)
    } else if name == "f64.eq"@ {
        Some(0x61u32)
    } else if name == "f64.ne"@ {
        Some(0x62u32)
    } else if name == "f64.lt"@ {
        Some(0x63u32)
    } else if name == "f64.gt"@ {
        Some(0x64u32)
    } else if name == "f64.le"@ {
        Some(0x65u32)
    } else if name == "f64.ge"@ {
        Some(0x66u32)
    } else if name == "i32.clz"@ {
        Some(0x67u32)
    } else if name == "i32.ctz"@ {
        Some(0x68u32)
    } else if name == "i32.popcnt"@ {
        Some(0x69u32)
    } else if name == "i32.add"@ {
        Some(0x6Au32)
    } else if name == "i32.sub"@ {
        Some(0x6Bu32)
    } else if name == "i32.mul"@ {
        Some(0x6Cu32)
    } else if name == "i32.div_s"@ {
        Some(0x6Du32)
    } else {
        None
    }
}

fn find_op_code_1(name: &str) -> (r: Option<u32>)
    ensures
        r == op_codes_1(name@),
{
    if str_eq(name, "i64.store8") {
        return Some(0x3C);
    }
    if str_eq(name, "i64.store16") {
        return Some(0x3D);
    }
    if str_eq(name, "i64.store32") {
        return Some(0x3E);
    }
    if str_eq(name, "memory.size") {
        return Some(0x3F);
    }
    if str_eq(name, "memory.grow") {
        return Some(0x40);
    }
    if str_eq(name, "i32.const") {
        return Some(0x41);
    }
    if str_eq(name, "i64.const") {
        return Some(0x42);
    }
    if str_eq(name, "f32.const") {
        return Some(0x43);
    }
    if str_eq(name, "f64.const") {
        return Some(0x44);
    }
    if str_eq(name, "i32.eqz") {
        return Some(0x45);
    }
    if str_eq(name, "i32.eq") {
        return Some(0x46);
    }
    if str_eq(name, "i32.ne") {
        return Some(0x47);
    }
    if str_eq(name, "i32.lt_s") {
        return Some(0x48);
    }
    if str_eq(name, "i32.lt_u") {
        return Some(0x49);
    }
    if str_eq(name, "i32.gt_s") {
        return Some(0x4A);
    }
    if str_eq(name, "i32.gt_u") {
        return Some(0x4B);
    }
    if str_eq(name, "i32.le_s") {
        return Some(0x4C);
    }
    if str_eq(name, "i32.le_u") {
        return Some(0x4D);
    }
    if str_eq(name, "i32.ge_s") {
        return Some(0x4E);
    }
    if str_eq(name, "i32.ge_u") {
        return Some(0x4F);
    }
    if str_eq(name, "i64.eqz") {
        return Some(0x50);
    }
    if str_eq(name, "i64.eq") {
        return Some(0x51);
    }
    if str_eq(name, "i64.ne") {
        return Some(0x52);
    }
    if str_eq(name, "i64.lt_s") {
        return Some(0x53);
    }
    if str_eq(name, "i64.lt_u") {
        return Some(0x54);
    }
    if str_eq(name, "i64.gt_s") {
        return Some(0x55);
    }
    if str_eq(name, "i64.gt_u") {
        return Some(0x56);
    }
    if str_eq(name, "i64.le_s") {
        return Some(0x57);
    }
    if str_eq(name, "i64.le_u") {
        return Some(0x58);
    }
    if str_eq(name, "i64.ge_s") {
        return Some(0x59);
    }
    if str_eq(name, "i64.ge_u") {
        return Some(0x5A);
    }
    if str_eq(name, "f32.eq") {
        return Some(0x5B);
    }
    if str_eq(name, "f32.ne") {
        return Some(0x5C);
    }
    if str_eq(name, "f32.lt") {
        return Some(0x5D);
    }
    if str_eq(name, "f32.gt") {
        return Some(0x5E);
    }
    if str_eq(name, "f32.le") {
        return Some(0x5F);
    }
    if str_eq(name, "f32.ge") {
        return Some(0x60);
    }
    if str_eq(name, "f64.eq") {
        return Some(0x61);
    }
    if str_eq(name, "f64.ne") {
        return Some(0x62);
    }
    if str_eq(name, "f64.lt") {
        return Some(0x63);
    }
    if str_eq(name, "f64.gt") {
        return Some(0x64);
    }
    if str_eq(name, "f64.le") {
        return Some(0x65);
    }
    if str_eq(name, "f64.ge") {
        return Some(0x66);
    }
    if str_eq(name, "i32.clz") {
        return Some(0x67);
    }
    if str_eq(name, "i32.ctz") {
        return Some(0x68);
    }
    if str_eq(name, "i32.popcnt") {
        return Some(0x69);
    }
    if str_eq(name, "i32.add") {
        return Some(0x6A);
    }
    if str_eq(name, "i32.sub") {
        return Some(0x6B);
    }
    if str_eq(name, "i32.mul") {
        return Some(0x6C);
    }
    if str_eq(name, "i32.div_s") {
        return Some(0x6D);
    }
    None
}

/// Opcodes of the instructions from `i32.div_u` to `f64.sqrt`, in the order of the table.
pub open spec fn op_codes_2(name: Seq<char>) -> Option<u32> {
    if name == "i32.div_u"@ {
        Some(0x6Eu32)
    } else if name == "i32.rem_s"@ {
        Some(0x6Fu32)
    } else if name == "i32.rem_u"@ {
        Some(0x70u32)
    } else if name == "i32.and"@ {
        Some(0x71u32)
    } else if name == "i32.or"@ {
        Some(0x72u32)
    } else if name == "i32.xor"@ {
        Some(0x73u32)
    } else if name == "i32.shl"@ {
        Some(0x74u32)
    } else if name == "i32.shr_s"@ {
        Some(0x75u32)
    } else if name == "i32.shr_u"@ {
        Some(0x76u32)
    } else if name == "i32.rotl"@ {
        Some(0x77u32)
    } else if name == "i32.rotr"@ {
        Some(0x78u32)
    } else if name == "i64.clz"@ {
        Some(0x79u32)
    } else if name == "i64.ctz"@ {
        Some(0x7Au32)
    } else if name == "i64.popcnt"@ {
        Some(0x7Bu32)
    } else if name == "i64.add"@ {
        Some(0x7Cu32)
    } else if name == "i64.sub"@ {
        Some(0x7Du32)
    } else if name == "i64.mul"@ {
        Some(0x7Eu32)
    } else if name == "i64.div_s"@ {
        Some(0x7Fu32)
    } else if name == "i64.div_u"@ {
        Some(0x80u32)
    } else if name == "i64.rem_s"@ {
        Some(0x81u32)
    } else if name == "i64.rem_u"@ {
        Some(0x82u32)
    } else if name == "i64.and"@ {
        Some(0x83u32)
    } else if name == "i64.or"@ {
        Some(0x84u32)
    } else if name == "i64.xor"@ {
        Some(0x85u32)
    } else if name == "i64.shl"@ {
        Some(0x86u32)
    } else if name == "i64.shr_s"@ {
        Some(0x87u32)
    } else if name == "i64.shr_u"@ {
        Some(0x88u32)
    } else if name == "i64.rotl"@ {
        Some(0x89u32)
    } else if name == "i64.rotr"@ {
        Some(0x8Au32)
    } else if name == "f32.abs"@ {
        Some(0x8Bu32)
    } else if name == "f32.neg"@ {
        Some(0x8Cu32)
    } else if name == "f32.ceil"@ {
        Some(0x8Du32)
    } else if name == "f32.floor"@ {
        Some(0x8Eu32)
    } else if name == "f32.trunc"@ {
        Some(0x8Fu32)
    } else if name == "f32.nearest"@ {
        Some(0x90u32)
    } else if name == "f32.sqrt"@ {
        Some(0x91u32)
    } else if name == "f32.add"@ {
        Some(0x92u32)
    } else if name == "f32.sub"@ {
        Some(0x93u32)
    } else if name == "f32.mul"@ {
        Some(0x94u32)
    } else if name == "f32.div"@ {
        Some(0x95u32)
    } else if name == "f32.min"@ {
        Some(0x96u32)
    } else if name == "f32.max"@ {
        Some(0x97u32)
    } else if name == "f32.copysign"@ {
        Some(0x98u32)
    } else if name == "f64.abs"@ {
        Some(0x99u32)
    } else if name == "f64.neg"@ {
        Some(0x9Au32)
    } else if name == "f64.ceil"@ {
        Some(0x9Bu32)
    } else if name == "f64.floor"@ {
        Some(0x9Cu32)
    } else if name == "f64.trunc"@ {
        Some(0x9Du32)
    } else if name == "f64.nearest"@ {
        Some(0x9Eu32)
    } else if name == "f64.sqrt"@ {
        Some(0x9Fu32)
    } else {
        None
    }
}

fn find_op_code_2(name: &str) -> (r: Option<u32>)
    ensures
        r == op_codes_2(name@),
{
    if str_eq(name, "i32.div_u") {
        return Some(0x6E);
    }
    if str_eq(name, "i32.rem_s") {
        return Some(0x6F);
    }
    if str_eq(name, "i32.rem_u") {
        return Some(0x70);
    }
    if str_eq(name, "i32.and") {
        return Some(0x71);
    }
    if str_eq(name, "i32.or") {
        return Some(0x72);
    }
    if str_eq(name, "i32.xor") {
        return Some(0x73);
    }
    if str_eq(name, "i32.shl") {
        return Some(0x74);
    }
    if str_eq(name, "i32.shr_s") {
        return Some(0x75);
    }
    if str_eq(name, "i32.shr_u") {
        return Some(0x76);
    }
    if str_eq(name, "i32.rotl") {
        return Some(0x77);
    }
    if str_eq(name, "i32.rotr") {
        return Some(0x78);
    }
    if str_eq(name, "i64.clz") {
        return Some(0x79);
    }
    if str_eq(name, "i64.ctz") {
        return Some(0x7A);
    }
    if str_eq(name, "i64.popcnt") {
        return Some(0x7B);
    }
    if str_eq(name, "i64.add") {
        return Some(0x7C);
    }
    if str_eq(name, "i64.sub") {
        return Some(0x7D);
    }
    if str_eq(name, "i64.mul") {
        return Some(0x7E);
    }
    if str_eq(name, "i64.div_s") {
        return Some(0x7F);
    }
    if str_eq(name, "i64.div_u") {
        return Some(0x80);
    }
    if str_eq(name, "i64.rem_s") {
        return Some(0x81);
    }
    if str_eq(name, "i64.rem_u") {
        return Some(0x82);
    }
    if str_eq(name, "i64.and") {
        return Some(0x83);
    }
    if str_eq(name, "i64.or") {
        return Some(0x84);
    }
    if str_eq(name, "i64.xor") {
        return Some(0x85);
    }
    if str_eq(name, "i64.shl") {
        return Some(0x86);
    }
    if str_eq(name, "i64.shr_s") {
        return Some(0x87);
    }
    if str_eq(name, "i64.shr_u") {
        return Some(0x88);
    }
    if str_eq(name, "i64.rotl") {
        return Some(0x89);
    }
    if str_eq(name, "i64.rotr") {
        return Some(0x8A);
    }
    if str_eq(name, "f32.abs") {
        return Some(0x8B);
    }
    if str_eq(name, "f32.neg") {
        return Some(0x8C);
    }
    if str_eq(name, "f32.ceil") {
        return Some(0x8D);
    }
    if str_eq(name, "f32.floor") {
        return Some(0x8E);
    }
    if str_eq(name, "f32.trunc") {
        return Some(0x8F);
    }
    if str_eq(name, "f32.nearest") {
        return Some(0x90);
    }
    if str_eq(name, "f32.sqrt") {
        return Some(0x91);
    }
    if str_eq(name, "f32.add") {
        return Some(0x92);
    }
    if str_eq(name, "f32.sub") {
        return Some(0x93);
    }
    if str_eq(name, "f32.mul") {
        return Some(0x94);
    }
    if str_eq(name, "f32.div") {
        return Some(0x95);
    }
    if str_eq(name, "f32.min") {
        return Some(0x96);
    }
    if str_eq(name, "f32.max") {
        return Some(0x97);
    }
    if str_eq(name, "f32.copysign") {
        return Some(0x98);
    }
    if str_eq(name, "f64.abs") {
        return Some(0x99);
    }
    if str_eq(name, "f64.neg") {
        return Some(0x9A);
    }
    if str_eq(name, "f64.ceil") {
        return Some(0x9B);
    }
    if str_eq(name, "f64.floor") {
        return Some(0x9C);
    }
    if str_eq(name, "f64.trunc") {
        return Some(0x9D);
    }
    if str_eq(name, "f64.nearest") {
        return Some(0x9E);
    }
    if str_eq(name, "f64.sqrt") {
        return Some(0x9F);
    }
    None
}

/// Opcodes of the instructions from `f64.add` to `struct.set`, in the order of the table.
pub open spec fn op_codes_3(name: Seq<char>) -> Option<u32> {
    if name == "f64.add"@ {
        Some(0xA0u32)
    } else if name == "f64.sub"@ {
        Some(0xA1u32)
    } else if name == "f64.mul"@ {
        Some(0xA2u32)
    } else if name == "f64.div"@ {
        Some(0xA3u32)
    } else if name == "f64.min"@ {
        Some(0xA4u32)
    } else if name == "f64.max"@ {
        Some(0xA5u32)
    } else if name == "f64.copysign"@ {
        Some(0xA6u32)
    } else if name == "i32.wrap_i64"@ {
        Some(0xA7u32)
    } else if name == "i32.trunc_f32_s"@ {
        Some(0xA8u32)
    } else if name == "i32.trunc_f32_u"@ {
        Some(0xA9u32)
    } else if name == "i32.trunc_f64_s"@ {
        Some(0xAAu32)
    } else if name == "i32.trunc_f64_u"@ {
        Some(0xABu32)
    } else if name == "i64.extend_i32_s"@ {
        Some(0xACu32)
    } else if name == "i64.extend_i32_u"@ {
        Some(0xADu32)
    } else if name == "i64.trunc_f32_s"@ {
        Some(0xAEu32)
    } else if name == "i64.trunc_f32_u"@ {
        Some(0xAFu32)
    } else if name == "i64.trunc_f64_s"@ {
        Some(0xB0u32)
    } else if name == "i64.trunc_f64_u"@ {
        Some(0xB1u32)
    } else if name == "f32.convert_i32_s"@ {
        Some(0xB2u32)
    } else if name == "f32.convert_i32_u"@ {
        Some(0xB3u32)
    } else if name == "f32.convert_i64_s"@ {
        Some(0xB4u32)
    } else if name == "f32.convert_i64_u"@ {
        Some(0xB5u32)
    } else if name == "f32.demote_f64"@ {
        Some(0xB6u32)
    } else if name == "f64.convert_i32_s"@ {
        Some(0xB7u32)
    } else if name == "f64.convert_i32_u"@ {
        Some(0xB8u32)
    } else if name == "f64.convert_i64_s"@ {
        Some(0xB9u32)
    } else if name == "f64.convert_i64_u"@ {
        Some(0xBAu32)
    } else if name == "f64.promote_f32"@ {
        Some(0xBBu32)
    } else if name == "i32.reinterpret_f32"@ {
        Some(0xBCu32)
    } else if name == "i64.reinterpret_f64"@ {
        Some(0xBDu32)
    } else if name == "f32.reinterpret_i32"@ {
        Some(0xBEu32)
    } else if name == "f64.reinterpret_i64"@ {
        Some(0xBFu32)
    } else if name == "i32.extend8_s"@ {
        Some(0xC0u32)
    } else if name == "i32.extend16_s"@ {
        Some(0xC1u32)
    } else if name == "i64.extend8_s"@ {
        Some(0xC2u32)
    } else if name == "i64.extend16_s"@ {
        Some(0xC3u32)
    } else if name == "i64.extend32_s"@ {
        Some(0xC4u32)
    } else if name == "ref.null"@ {
        Some(0xD0u32)
    } else if name == "ref.is_null"@ {
        Some(0xD1u32)
    } else if name == "ref.func"@ {
        Some(0xD2u32)
    } else if name == "ref.eq"@ {
        Some(0xD3u32)
    } else if name == "ref.as_non_null"@ {
        Some(0xD4u32)
    } else if name == "br_on_null"@ {
        Some(0xD5u32)
    } else if name == "br_on_non_null"@ {
        Some(0xD6u32)
    } else if name == "struct.new"@ {
        Some(0xFB00u32)
    } else if name == "struct.new_default"@ {
        Some(0xFB01u32)
    } else if name == "struct.get"@ {
        Some(0xFB02u32)
    } else if name == "struct.get_s"@ {
        Some(0xFB03u32)
    } else if name == "struct.get_u"@ {
        Some(0xFB04u32)
    } else if name == "struct.set"@ {
        Some(0xFB05u32)
    } else {
        None
    }
}

fn find_op_code_3(name: &str) -> (r: Option<u32>)
    ensures
        r == op_codes_3(name@),
{
    if str_eq(name, "f64.add") {
        return Some(0xA0);
    }
    if str_eq(name, "f64.sub") {
        return Some(0xA1);
    }
    if str_eq(name, "f64.mul") {
        return Some(0xA2);
    }
    if str_eq(name, "f64.div") {
        return Some(0xA3);
    }
    if str_eq(name, "f64.min") {
        return Some(0xA4);
    }
    if str_eq(name, "f64.max") {
        return Some(0xA5);
    }
    if str_eq(name, "f64.copysign") {
        return Some(0xA6);
    }
    if str_eq(name, "i32.wrap_i64") {
        return Some(0xA7);
    }
    if str_eq(name, "i32.trunc_f32_s") {
        return Some(0xA8);
    }
    if str_eq(name, "i32.trunc_f32_u") {
        return Some(0xA9);
    }
    if str_eq(name, "i32.trunc_f64_s") {
        return Some(0xAA);
    }
    if str_eq(name, "i32.trunc_f64_u") {
        return Some(0xAB);
    }
    if str_eq(name, "i64.extend_i32_s") {
        return Some(0xAC);
    }
    if str_eq(name, "i64.extend_i32_u") {
        return Some(0xAD);
    }
    if str_eq(name, "i64.trunc_f32_s") {
        return Some(0xAE);
    }
    if str_eq(name, "i64.trunc_f32_u") {
        return Some(0xAF);
    }
    if str_eq(name, "i64.trunc_f64_s") {
        return Some(0xB0);
    }
    if str_eq(name, "i64.trunc_f64_u") {
        return Some(0xB1);
    }
    if str_eq(name, "f32.convert_i32_s") {
        return Some(0xB2);
    }
    if str_eq(name, "f32.convert_i32_u") {
        return Some(0xB3);
    }
    if str_eq(name, "f32.convert_i64_s") {
        return Some(0xB4);
    }
    if str_eq(name, "f32.convert_i64_u") {
        return Some(0xB5);
    }
    if str_eq(name, "f32.demote_f64") {
        return Some(0xB6);
    }
    if str_eq(name, "f64.convert_i32_s") {
        return Some(0xB7);
    }
    if str_eq(name, "f64.convert_i32_u") {
        return Some(0xB8);
    }
    if str_eq(name, "f64.convert_i64_s") {
        return Some(0xB9);
    }
    if str_eq(name, "f64.convert_i64_u") {
        return Some(0xBA);
    }
    if str_eq(name, "f64.promote_f32") {
        return Some(0xBB);
    }
    if str_eq(name, "i32.reinterpret_f32") {
        return Some(0xBC);
    }
    if str_eq(name, "i64.reinterpret_f64") {
        return Some(0xBD);
    }
    if str_eq(name, "f32.reinterpret_i32") {
        return Some(0xBE);
    }
    if str_eq(name, "f64.reinterpret_i64") {
        return Some(0xBF);
    }
    if str_eq(name, "i32.extend8_s") {
        return Some(0xC0);
    }
    if str_eq(name, "i32.extend16_s") {
        return Some(0xC1);
    }
    if str_eq(name, "i64.extend8_s") {
        return Some(0xC2);
    }
    if str_eq(name, "i64.extend16_s") {
        return Some(0xC3);
    }
    if str_eq(name, "i64.extend32_s") {
        return Some(0xC4);
    }
    if str_eq(name, "ref.null") {
        return Some(0xD0);
    }
    if str_eq(name, "ref.is_null") {
        return Some(0xD1);
    }
    if str_eq(name, "ref.func") {
        return Some(0xD2);
    }
    if str_eq(name, "ref.eq") {
        return Some(0xD3);
    }
    if str_eq(name, "ref.as_non_null") {
        return Some(0xD4);
    }
    if str_eq(name, "br_on_null") {
        return Some(0xD5);
    }
    if str_eq(name, "br_on_non_null") {
        return Some(0xD6);
    }
    if str_eq(name, "struct.new") {
        return Some(0xFB00);
    }
    if str_eq(name, "struct.new_default") {
        return Some(0xFB01);
    }
    if str_eq(name, "struct.get") {
        return Some(0xFB02);
    }
    if str_eq(name, "struct.get_s") {
        return Some(0xFB03);
    }
    if str_eq(name, "struct.get_u") {
        return Some(0xFB04);
    }
    if str_eq(name, "struct.set") {
        return Some(0xFB05);
    }
    None
}

/// Opcodes of the instructions from `array.new` to `v128.load32x2_u`, in the order of the table.
pub open spec fn op_codes_4(name: Seq<char>) -> Option<u32> {
    if name == "array.new"@ {
        Some(0xFB06u32)
    } else if name == "array.new_default"@ {
        Some(0xFB07u32)
    } else if name == "array.new_fixed"@ {
        Some(0xFB08u32)
    } else if name == "array.new_data"@ {
        Some(0xFB09u32)
    } else if name == "array.new_elem"@ {
        Some(0xFB0Au32)
    } else if name == "array.get"@ {
        Some(0xFB0Bu32)
    } else if name == "array.get_s"@ {
        Some(0xFB0Cu32)
    } else if name == "array.get_u"@ {
        Some(0xFB0Du32)
    } else if name == "array.set"@ {
        Some(0xFB0Eu32)
    } else if name == "array.len"@ {
        Some(0xFB0Fu32)
    } else if name == "array.fill"@ {
        Some(0xFB10u32)
    } else if name == "array.copy"@ {
        Some(0xFB11u32)
    } else if name == "array.init_data"@ {
        Some(0xFB12u32)
    } else if name == "array.init_elem"@ {
        Some(0xFB13u32)
    } else if name == "ref.test"@ {
        Some(0xFB14u32)
    } else if name == "ref.test."@ {
        Some(0xFB15u32)
    } else if name == "ref.cast"@ {
        Some(0xFB16u32)
    } else if name == "ref.cast."@ {
        Some(0xFB17u32)
    } else if name == "br_on_cast"@ {
        Some(0xFB18u32)
    } else if name == "br_on_cast_fail"@ {
        Some(0xFB19u32)
    } else if name == "any.convert_extern"@ {
        Some(0xFB1Au32)
    } else if name == "extern.convert_any"@ {
        Some(0xFB1Bu32)
    } else if name == "ref.i31"@ {
        Some(0xFB1Cu32)
    } else if name == "i31.get_s"@ {
        Some(0xFB1Du32)
    } else if name == "i31.get_u"@ {
        Some(0xFB1Eu32)
    } else if name == "i32.trunc_sat_f32_s"@ {
        Some(0xFC00u32)
    } else if name == "i32.trunc_sat_f32_u"@ {
        Some(0xFC01u32)
    } else if name == "i32.trunc_sat_f64_s"@ {
        Some(0xFC02u32)
    } else if name == "i32.trunc_sat_f64_u"@ {
        Some(0xFC03u32)
    } else if name == "i64.trunc_sat_f32_s"@ {
        Some(0xFC04u32)
    } else if name == "i64.trunc_sat_f32_u"@ {
        Some(0xFC05u32)
    } else if name == "i64.trunc_sat_f64_s"@ {
        Some(0xFC06u32)
    } else if name == "i64.trunc_sat_f64_u"@ {
        Some(0xFC07u32)
    } else if name == "memory.init"@ {
        Some(0xFC08u32)
    } else if name == "data.drop"@ {
        Some(0xFC09u32)
    } else if name == "memory.copy"@ {
        Some(0xFC0Au32)
    } else if name == "memory.fill"@ {
        Some(0xFC0Bu32)
    } else if name == "table.init"@ {
        Some(0xFC0Cu32)
    } else if name == "elem.drop"@ {
        Some(0xFC0Du32)
    } else if name == "table.copy"@ {
        Some(0xFC0Eu32)
    } else if name == "table.grow"@ {
        Some(0xFC0Fu32)
    } else if name == "table.size"@ {
        Some(0xFC10u32)
    } else if name == "table.fill"@ {
        Some(0xFC11u32)
    } else if name == "v128.load"@ {
        Some(0xFD00u32)
    } else if name == "v128.load8x8_s"@ {
        Some(0xFD01u32)
    } else if name == "v128.load8x8_u"@ {
        Some(0xFD02u32)
    } else if name == "v128.load16x4_s"@ {
        Some(0xFD03u32)
    } else if name == "v128.load16x4_u"@ {
        Some(0xFD04u32)
    } else if name == "v128.load32x2_s"@ {
        Some(0xFD05u32)
    } else if name == "v128.load32x2_u"@ {
        Some(0xFD06u32)
    } else {
        None
    }
}

fn find_op_code_4(name: &str) -> (r: Option<u32>)
    ensures
        r == op_codes_4(name@),
{
    if str_eq(name, "array.new") {
        return Some(0xFB06);
    }
    if str_eq(name, "array.new_default") {
        return Some(0xFB07);
    }
    if str_eq(name, "array.new_fixed") {
        return Some(0xFB08);
    }
    if str_eq(name, "array.new_data") {
        return Some(0xFB09);
    }
    if str_eq(name, "array.new_elem") {
        return Some(0xFB0A);
    }
    if str_eq(name, "array.get") {
        return Some(0xFB0B);
    }
    if str_eq(name, "array.get_s") {
        return Some(0xFB0C);
    }
    if str_eq(name, "array.get_u") {
        return Some(0xFB0D);
    }
    if str_eq(name, "array.set") {
        return Some(0xFB0E);
    }
    if str_eq(name, "array.len") {
        return Some(0xFB0F);
    }
    if str_eq(name, "array.fill") {
        return Some(0xFB10);
    }
    if str_eq(name, "array.copy") {
        return Some(0xFB11);
    }
    if str_eq(name, "array.init_data") {
        return Some(0xFB12);
    }
    if str_eq(name, "array.init_elem") {
        return Some(0xFB13);
    }
    if str_eq(name, "ref.test") {
        return Some(0xFB14);
    }
    if str_eq(name, "ref.test.") {
        return Some(0xFB15);
    }
    if str_eq(name, "ref.cast") {
        return Some(0xFB16);
    }
    if str_eq(name, "ref.cast.") {
        return Some(0xFB17);
    }
    if str_eq(name, "br_on_cast") {
        return Some(0xFB18);
    }
    if str_eq(name, "br_on_cast_fail") {
        return Some(0xFB19);
    }
    if str_eq(name, "any.convert_extern") {
        return Some(0xFB1A);
    }
    if str_eq(name, "extern.convert_any") {
        return Some(0xFB1B);
    }
    if str_eq(name, "ref.i31") {
        return Some(0xFB1C);
    }
    if str_eq(name, "i31.get_s") {
        return Some(0xFB1D);
    }
    if str_eq(name, "i31.get_u") {
        return Some(0xFB1E);
    }
    if str_eq(name, "i32.trunc_sat_f32_s") {
        return Some(0xFC00);
    }
    if str_eq(name, "i32.trunc_sat_f32_u") {
        return Some(0xFC01);
    }
    if str_eq(name, "i32.trunc_sat_f64_s") {
        return Some(0xFC02);
    }
    if str_eq(name, "i32.trunc_sat_f64_u") {
        return Some(0xFC03);
    }
    if str_eq(name, "i64.trunc_sat_f32_s") {
        return Some(0xFC04);
    }
    if str_eq(name, "i64.trunc_sat_f32_u") {
        return Some(0xFC05);
    }
    if str_eq(name, "i64.trunc_sat_f64_s") {
        return Some(0xFC06);
    }
    if str_eq(name, "i64.trunc_sat_f64_u") {
        return Some(0xFC07);
    }
    if str_eq(name, "memory.init") {
        return Some(0xFC08);
    }
    if str_eq(name, "data.drop") {
        return Some(0xFC09);
    }
    if str_eq(name, "memory.copy") {
        return Some(0xFC0A);
    }
    if str_eq(name, "memory.fill") {
        return Some(0xFC0B);
    }
    if str_eq(name, "table.init") {
        return Some(0xFC0C);
    }
    if str_eq(name, "elem.drop") {
        return Some(0xFC0D);
    }
    if str_eq(name, "table.copy") {
        return Some(0xFC0E);
    }
    if str_eq(name, "table.grow") {
        return Some(0xFC0F);
    }
    if str_eq(name, "table.size") {
        return Some(0xFC10);
    }
    if str_eq(name, "table.fill") {
        return Some(0xFC11);
    }
    if str_eq(name, "v128.load") {
        return Some(0xFD00);
    }
    if str_eq(name, "v128.load8x8_s") {
        return Some(0xFD01);
    }
    if str_eq(name, "v128.load8x8_u") {
        return Some(0xFD02);
    }
    if str_eq(name, "v128.load16x4_s") {
        return Some(0xFD03);
    }
    if str_eq(name, "v128.load16x4_u") {
        return Some(0xFD04);
    }
    if str_eq(name, "v128.load32x2_s") {
        return Some(0xFD05);
    }
    if str_eq(name, "v128.load32x2_u") {
        return Some(0xFD06);
    }
    None
}

/// Opcodes of the instructions from `v128.load8_splat` to `i32x4.ne`, in the order of the table.
pub open spec fn op_codes_5(name: Seq<char>) -> Option<u32> {
    if name == "v128.load8_splat"@ {
        Some(0xFD07u32)
    } else if name == "v128.load16_splat"@ {
        Some(0xFD08u32)
    } else if name == "v128.load32_splat"@ {
        Some(0xFD09u32)
    } else if name == "v128.load64_splat"@ {
        Some(0xFD0Au32)
    } else if name == "v128.store"@ {
        Some(0xFD0Bu32)
    } else if name == "v128.const"@ {
        Some(0xFD0Cu32)
    } else if name == "i8x16.shuffle"@ {
        Some(0xFD0Du32)
    } else if name == "i8x16.swizzle"@ {
        Some(0xFD0Eu32)
    } else if name == "i8x16.splat"@ {
        Some(0xFD0Fu32)
    } else if name == "i16x8.splat"@ {
        Some(0xFD10u32)
    } else if name == "i32x4.splat"@ {
        Some(0xFD11u32)
    } else if name == "i64x2.splat"@ {
        Some(0xFD12u32)
    } else if name == "f32x4.splat"@ {
        Some(0xFD13u32)
    } else if name == "f64x2.splat"@ {
        Some(0xFD14u32)
    } else if name == "i8x16.extract_lane_s"@ {
        Some(0xFD15u32)
    } else if name == "i8x16.extract_lane_u"@ {
        Some(0xFD16u32)
    } else if name == "i8x16.replace_lane"@ {
        Some(0xFD17u32)
    } else if name == "i16x8.extract_lane_s"@ {
        Some(0xFD18u32)
    } else if name == "i16x8.extract_lane_u"@ {
        Some(0xFD19u32)
    } else if name == "i16x8.replace_lane"@ {
        Some(0xFD1Au32)
    } else if name == "i32x4.extract_lane"@ {
        Some(0xFD1Bu32)
    } else if name == "i32x4.replace_lane"@ {
        Some(0xFD1Cu32)
    } else if name == "i64x2.extract_lane"@ {
        Some(0xFD1Du32)
    } else if name == "i64x2.replace_lane"@ {
        Some(0xFD1Eu32)
    } else if name == "f32x4.extract_lane"@ {
        Some(0xFD1Fu32)
    } else if name == "f32x4.replace_lane"@ {
        Some(0xFD20u32)
    } else if name == "f64x2.extract_lane"@ {
        Some(0xFD21u32)
    } else if name == "f64x2.replace_lane"@ {
        Some(0xFD22u32)
    } else if name == "i8x16.eq"@ {
        Some(0xFD23u32)
    } else if name == "i8x16.ne"@ {
        Some(0xFD24u32)
    } else if name == "i8x16.lt_s"@ {
        Some(0xFD25u32)
    } else if name == "i8x16.lt_u"@ {
        Some(0xFD26u32)
    } else if name == "i8x16.gt_s"@ {
        Some(0xFD27u32)
    } else if name == "i8x16.gt_u"@ {
        Some(0xFD28u32)
    } else if name == "i8x16.le_s"@ {
        Some(0xFD29u32)
    } else if name == "i8x16.le_u"@ {
        Some(0xFD2Au32)
    } else if name == "i8x16.ge_s"@ {
        Some(0xFD2Bu32)
    } else if name == "i8x16.ge_u"@ {
        Some(0xFD2Cu32)
    } else if name == "i16x8.eq"@ {
        Some(0xFD2Du32)
    } else if name == "i16x8.ne"@ {
        Some(0xFD2Eu32)
    } else if name == "i16x8.lt_s"@ {
        Some(0xFD2Fu32)
    } else if name == "i16x8.lt_u"@ {
        Some(0xFD30u32)
    } else if name == "i16x8.gt_s"@ {
        Some(0xFD31u32)
    } else if name == "i16x8.gt_u"@ {
        Some(0xFD32u32)
    } else if name == "i16x8.le_s"@ {
        Some(0xFD33u32)
    } else if name == "i16x8.le_u"@ {
        Some(0xFD34u32)
    } else if name == "i16x8.ge_s"@ {
        Some(0xFD35u32)
    } else if name == "i16x8.ge_u"@ {
        Some(0xFD36u32)
    } else if name == "i32x4.eq"@ {
        Some(0xFD37u32)
    } else if name == "i32x4.ne"@ {
        Some(0xFD38u32)
    } else {
        None
    }
}

fn find_op_code_5(name: &str) -> (r: Option<u32>)
    ensures
        r == op_codes_5(name@),
{
    if str_eq(name, "v128.load8_splat") {
        return Some(0xFD07);
    }
    if str_eq(name, "v128.load16_splat") {
        return Some(0xFD08);
    }
    if str_eq(name, "v128.load32_splat") {
        return Some(0xFD09);
    }
    if str_eq(name, "v128.load64_splat") {
        return Some(0xFD0A);
    }
    if str_eq(name, "v128.store") {
        return Some(0xFD0B);
    }
    if str_eq(name, "v128.const") {
        return Some(0xFD0C);
    }
    if str_eq(name, "i8x16.shuffle") {
        return Some(0xFD0D);
    }
    if str_eq(name, "i8x16.swizzle") {
        return Some(0xFD0E);
    }
    if str_eq(name, "i8x16.splat") {
        return Some(0xFD0F);
    }
    if str_eq(name, "i16x8.splat") {
        return Some(0xFD10);
    }
    if str_eq(name, "i32x4.splat") {
        return Some(0xFD11);
    }
    if str_eq(name, "i64x2.splat") {
        return Some(0xFD12);
    }
    if str_eq(name, "f32x4.splat") {
        return Some(0xFD13);
    }
    if str_eq(name, "f64x2.splat") {
        return Some(0xFD14);
    }
    if str_eq(name, "i8x16.extract_lane_s") {
        return Some(0xFD15);
    }
    if str_eq(name, "i8x16.extract_lane_u") {
        return Some(0xFD16);
    }
    if str_eq(name, "i8x16.replace_lane") {
        return Some(0xFD17);
    }
    if str_eq(name, "i16x8.extract_lane_s") {
        return Some(0xFD18);
    }
    if str_eq(name, "i16x8.extract_lane_u") {
        return Some(0xFD19);
    }
    if str_eq(name, "i16x8.replace_lane") {
        return Some(0xFD1A);
    }
    if str_eq(name, "i32x4.extract_lane") {
        return Some(0xFD1B);
    }
    if str_eq(name, "i32x4.replace_lane") {
        return Some(0xFD1C);
    }
    if str_eq(name, "i64x2.extract_lane") {
        return Some(0xFD1D);
    }
    if str_eq(name, "i64x2.replace_lane") {
        return Some(0xFD1E);
    }
    if str_eq(name, "f32x4.extract_lane") {
        return Some(0xFD1F);
    }
    if str_eq(name, "f32x4.replace_lane") {
        return Some(0xFD20);
    }
    if str_eq(name, "f64x2.extract_lane") {
        return Some(0xFD21);
    }
    if str_eq(name, "f64x2.replace_lane") {
        return Some(0xFD22);
    }
    if str_eq(name, "i8x16.eq") {
        return Some(0xFD23);
    }
    if str_eq(name, "i8x16.ne") {
        return Some(0xFD24);
    }
    if str_eq(name, "i8x16.lt_s") {
        return Some(0xFD25);
    }
    if str_eq(name, "i8x16.lt_u") {
        return Some(0xFD26);
    }
    if str_eq(name, "i8x16.gt_s") {
        return Some(0xFD27);
    }
    if str_eq(name, "i8x16.gt_u") {
        return Some(0xFD28);
    }
    if str_eq(name, "i8x16.le_s") {
        return Some(0xFD29);
    }
    if str_eq(name, "i8x16.le_u") {
        return Some(0xFD2A);
    }
    if str_eq(name, "i8x16.ge_s") {
        return Some(0xFD2B);
    }
    if str_eq(name, "i8x16.ge_u") {
        return Some(0xFD2C);
    }
    if str_eq(name, "i16x8.eq") {
        return Some(0xFD2D);
    }
    if str_eq(name, "i16x8.ne") {
        return Some(0xFD2E);
    }
    if str_eq(name, "i16x8.lt_s") {
        return Some(0xFD2F);
    }
    if str_eq(name, "i16x8.lt_u") {
        return Some(0xFD30);
    }
    if str_eq(name, "i16x8.gt_s") {
        return Some(0xFD31);
    }
    if str_eq(name, "i16x8.gt_u") {
        return Some(0xFD32);
    }
    if str_eq(name, "i16x8.le_s") {
        return Some(0xFD33);
    }
    if str_eq(name, "i16x8.le_u") {
        return Some(0xFD34);
    }
    if str_eq(name, "i16x8.ge_s") {
        return Some(0xFD35);
    }
    if str_eq(name, "i16x8.ge_u") {
        return Some(0xFD36);
    }
    if str_eq(name, "i32x4.eq") {
        return Some(0xFD37);
    }
    if str_eq(name, "i32x4.ne") {
        return Some(0xFD38);
    }
    None
}

/// Opcodes of the instructions from `i32x4.lt_s` to `f32x4.nearest`, in the order of the table.
pub open spec fn op_codes_6(name: Seq<char>) -> Option<u32> {
    if name == "i32x4.lt_s"@ {
        Some(0xFD39u32)
    } else if name == "i32x4.lt_u"@ {
        Some(0xFD3Au32)
    } else if name == "i32x4.gt_s"@ {
        Some(0xFD3Bu32)
    } else if name == "i32x4.gt_u"@ {
        Some(0xFD3Cu32)
    } else if name == "i32x4.le_s"@ {
        Some(0xFD3Du32)
    } else if name == "i32x4.le_u"@ {
        Some(0xFD3Eu32)
    } else if name == "i32x4.ge_s"@ {
        Some(0xFD3Fu32)
    } else if name == "i32x4.ge_u"@ {
        Some(0xFD40u32)
    } else if name == "f32x4.eq"@ {
        Some(0xFD41u32)
    } else if name == "f32x4.ne"@ {
        Some(0xFD42u32)
    } else if name == "f32x4.lt"@ {
        Some(0xFD43u32)
    } else if name == "f32x4.gt"@ {
        Some(0xFD44u32)
    } else if name == "f32x4.le"@ {
        Some(0xFD45u32)
    } else if name == "f32x4.ge"@ {
        Some(0xFD46u32)
    } else if name == "f64x2.eq"@ {
        Some(0xFD47u32)
    } else if name == "f64x2.ne"@ {
        Some(0xFD48u32)
    } else if name == "f64x2.lt"@ {
        Some(0xFD49u32)
    } else if name == "f64x2.gt"@ {
        Some(0xFD4Au32)
    } else if name == "f64x2.le"@ {
        Some(0xFD4Bu32)
    } else if name == "f64x2.ge"@ {
        Some(0xFD4Cu32)
    } else if name == "v128.not"@ {
        Some(0xFD4Du32)
    } else if name == "v128.and"@ {
        Some(0xFD4Eu32)
    } else if name == "v128.andnot"@ {
        Some(0xFD4Fu32)
    } else if name == "v128.or"@ {
        Some(0xFD50u32)
    } else if name == "v128.xor"@ {
        Some(0xFD51u32)
    } else if name == "v128.bitselect"@ {
        Some(0xFD52u32)
    } else if name == "v128.any_true"@ {
        Some(0xFD53u32)
    } else if name == "v128.load8_lane"@ {
        Some(0xFD54u32)
    } else if name == "v128.load16_lane"@ {
        Some(0xFD55u32)
    } else if name == "v128.load32_lane"@ {
        Some(0xFD56u32)
    } else if name == "v128.load64_lane"@ {
        Some(0xFD57u32)
    } else if name == "v128.store8_lane"@ {
        Some(0xFD58u32)
    } else if name == "v128.store16_lane"@ {
        Some(0xFD59u32)
    } else if name == "v128.store32_lane"@ {
        Some(0xFD5Au32)
    } else if name == "v128.store64_lane"@ {
        Some(0xFD5Bu32)
    } else if name == "v128.load32_zero"@ {
        Some(0xFD5Cu32)
    } else if name == "v128.load64_zero"@ {
        Some(0xFD5Du32)
    } else if name == "f32x4.demote_f64x2_zero"@ {
        Some(0xFD5Eu32)
    } else if name == "f64x2.promote_low_f32x4"@ {
        Some(0xFD5Fu32)
    } else if name == "i8x16.abs"@ {
        Some(0xFD60u32)
    } else if name == "i8x16.neg"@ {
        Some(0xFD61u32)
    } else if name == "i8x16.popcnt"@ {
        Some(0xFD62u32)
    } else if name == "i8x16.all_true"@ {
        Some(0xFD63u32)
    } else if name == "i8x16.bitmask"@ {
        Some(0xFD64u32)
    } else if name == "i8x16.narrow_i16x8_s"@ {
        Some(0xFD65u32)
    } else if name == "i8x16.narrow_i16x8_u"@ {
        Some(0xFD66u32)
    } else if name == "f32x4.ceil"@ {
        Some(0xFD67u32)
    } else if name == "f32x4.floor"@ {
        Some(0xFD68u32)
    } else if name == "f32x4.trunc"@ {
        Some(0xFD69u32)
    } else if name == "f32x4.nearest"@ {
        Some(0xFD6Au32)
    } else {
        None
    }
}

fn find_op_code_6(name: &str) -> (r: Option<u32>)
    ensures
        r == op_codes_6(name@),
{
    if str_eq(name, "i32x4.lt_s") {
        return Some(0xFD39);
    }
    if str_eq(name, "i32x4.lt_u") {
        return Some(0xFD3A);
    }
    if str_eq(name, "i32x4.gt_s") {
        return Some(0xFD3B);
    }
    if str_eq(name, "i32x4.gt_u") {
        return Some(0xFD3C);
    }
    if str_eq(name, "i32x4.le_s") {
        return Some(0xFD3D);
    }
    if str_eq(name, "i32x4.le_u") {
        return Some(0xFD3E);
    }
    if str_eq(name, "i32x4.ge_s") {
        return Some(0xFD3F);
    }
    if str_eq(name, "i32x4.ge_u") {
        return Some(0xFD40);
    }
    if str_eq(name, "f32x4.eq") {
        return Some(0xFD41);
    }
    if str_eq(name, "f32x4.ne") {
        return Some(0xFD42);
    }
    if str_eq(name, "f32x4.lt") {
        return Some(0xFD43);
    }
    if str_eq(name, "f32x4.gt") {
        return Some(0xFD44);
    }
    if str_eq(name, "f32x4.le") {
        return Some(0xFD45);
    }
    if str_eq(name, "f32x4.ge") {
        return Some(0xFD46);
    }
    if str_eq(name, "f64x2.eq") {
        return Some(0xFD47);
    }
    if str_eq(name, "f64x2.ne") {
        return Some(0xFD48);
    }
    if str_eq(name, "f64x2.lt") {
        return Some(0xFD49);
    }
    if str_eq(name, "f64x2.gt") {
        return Some(0xFD4A);
    }
    if str_eq(name, "f64x2.le") {
        return Some(0xFD4B);
    }
    if str_eq(name, "f64x2.ge") {
        return Some(0xFD4C);
    }
    if str_eq(name, "v128.not") {
        return Some(0xFD4D);
    }
    if str_eq(name, "v128.and") {
        return Some(0xFD4E);
    }
    if str_eq(name, "v128.andnot") {
        return Some(0xFD4F);
    }
    if str_eq(name, "v128.or") {
        return Some(0xFD50);
    }
    if str_eq(name, "v128.xor") {
        return Some(0xFD51);
    }
    if str_eq(name, "v128.bitselect") {
        return Some(0xFD52);
    }
    if str_eq(name, "v128.any_true") {
        return Some(0xFD53);
    }
    if str_eq(name, "v128.load8_lane") {
        return Some(0xFD54);
    }
    if str_eq(name, "v128.load16_lane") {
        return Some(0xFD55);
    }
    if str_eq(name, "v128.load32_lane") {
        return Some(0xFD56);
    }
    if str_eq(name, "v128.load64_lane") {
        return Some(0xFD57);
    }
    if str_eq(name, "v128.store8_lane") {
        return Some(0xFD58);
    }
    if str_eq(name, "v128.store16_lane") {
        return Some(0xFD59);
    }
    if str_eq(name, "v128.store32_lane") {
        return Some(0xFD5A);
    }
    if str_eq(name, "v128.store64_lane") {
        return Some(0xFD5B);
    }
    if str_eq(name, "v128.load32_zero") {
        return Some(0xFD5C);
    }
    if str_eq(name, "v128.load64_zero") {
        return Some(0xFD5D);
    }
    if str_eq(name, "f32x4.demote_f64x2_zero") {
        return Some(0xFD5E);
    }
    if str_eq(name, "f64x2.promote_low_f32x4") {
        return Some(0xFD5F);
    }
    if str_eq(name, "i8x16.abs") {
        return Some(0xFD60);
    }
    if str_eq(name, "i8x16.neg") {
        return Some(0xFD61);
    }
    if str_eq(name, "i8x16.popcnt") {
        return Some(0xFD62);
    }
    if str_eq(name, "i8x16.all_true") {
        return Some(0xFD63);
    }
    if str_eq(name, "i8x16.bitmask") {
        return Some(0xFD64);
    }
    if str_eq(name, "i8x16.narrow_i16x8_s") {
        return Some(0xFD65);
    }
    if str_eq(name, "i8x16.narrow_i16x8_u") {
        return Some(0xFD66);
    }
    if str_eq(name, "f32x4.ceil") {
        return Some(0xFD67);
    }
    if str_eq(name, "f32x4.floor") {
        return Some(0xFD68);
    }
    if str_eq(name, "f32x4.trunc") {
        return Some(0xFD69);
    }
    if str_eq(name, "f32x4.nearest") {
        return Some(0xFD6A);
    }
    None
}

/// Opcodes of the instructions from `i8x16.shl` to `i16x8.extmul_high_i8x16_s`, in the order of the table.
pub open spec fn op_codes_7(name: Seq<char>) -> Option<u32> {
    if name == "i8x16.shl"@ {
        Some(0xFD6Bu32)
    } else if name == "i8x16.shr_s"@ {
        Some(0xFD6Cu32)
    } else if name == "i8x16.shr_u"@ {
        Some(0xFD6Du32)
    } else if name == "i8x16.add"@ {
        Some(0xFD6Eu32)
    } else if name == "i8x16.add_sat_s"@ {
        Some(0xFD6Fu32)
    } else if name == "i8x16.add_sat_u"@ {
        Some(0xFD70u32)
    } else if name == "i8x16.sub"@ {
        Some(0xFD71u32)
    } else if name == "i8x16.sub_sat_s"@ {
        Some(0xFD72u32)
    } else if name == "i8x16.sub_sat_u"@ {
        Some(0xFD73u32)
    } else if name == "f64x2.ceil"@ {
        Some(0xFD74u32)
    } else if name == "f64x2.floor"@ {
        Some(0xFD75u32)
    } else if name == "i8x16.min_s"@ {
        Some(0xFD76u32)
    } else if name == "i8x16.min_u"@ {
        Some(0xFD77u32)
    } else if name == "i8x16.max_s"@ {
        Some(0xFD78u32)
    } else if name == "i8x16.max_u"@ {
        Some(0xFD79u32)
    } else if name == "f64x2.trunc"@ {
        Some(0xFD7Au32)
    } else if name == "i8x16.avgr_u"@ {
        Some(0xFD7Bu32)
    } else if name == "i16x8.extadd_pairwise_i8x16_s"@ {
        Some(0xFD7Cu32)
    } else if name == "i16x8.extadd_pairwise_i8x16_u"@ {
        Some(0xFD7Du32)
    } else if name == "i32x4.extadd_pairwise_i16x8_s"@ {
        Some(0xFD7Eu32)
    } else if name == "i32x4.extadd_pairwise_i16x8_u"@ {
        Some(0xFD7Fu32)
    } else if name == "i16x8.abs"@ {
        Some(0xFD8001u32)
    } else if name == "i16x8.neg"@ {
        Some(0xFD8101u32)
    } else if name == "i16x8.q15mulr_sat_s"@ {
        Some(0xFD8201u32)
    } else if name == "i16x8.all_true"@ {
        Some(0xFD8301u32)
    } else if name == "i16x8.bitmask"@ {
        Some(0xFD8401u32)
    } else if name == "i16x8.narrow_i32x4_s"@ {
        Some(0xFD8501u32)
    } else if name == "i16x8.narrow_i32x4_u"@ {
        Some(0xFD8601u32)
    } else if name == "i16x8.extend_low_i8x16_s"@ {
        Some(0xFD8701u32)
    } else if name == "i16x8.extend_high_i8x16_s"@ {
        Some(0xFD8801u32)
    } else if name == "i16x8.extend_low_i8x16_u"@ {
        Some(0xFD8901u32)
    } else if name == "i16x8.extend_high_i8x16_u"@ {
        Some(0xFD8A01u32)
    } else if name == "i16x8.shl"@ {
        Some(0xFD8B01u32)
    } else if name == "i16x8.shr_s"@ {
        Some(0xFD8C01u32)
    } else if name == "i16x8.shr_u"@ {
        Some(0xFD8D01u32)
    } else if name == "i16x8.add"@ {
        Some(0xFD8E01u32)
    } else if name == "i16x8.add_sat_s"@ {
        Some(0xFD8F01u32)
    } else if name == "i16x8.add_sat_u"@ {
        Some(0xFD9001u32)
    } else if name == "i16x8.sub"@ {
        Some(0xFD9101u32)
    } else if name == "i16x8.sub_sat_s"@ {
        Some(0xFD9201u32)
    } else if name == "i16x8.sub_sat_u"@ {
        Some(0xFD9301u32)
    } else if name == "f64x2.nearest"@ {
        Some(0xFD9401u32)
    } else if name == "i16x8.mul"@ {
        Some(0xFD9501u32)
    } else if name == "i16x8.min_s"@ {
        Some(0xFD9601u32)
    } else if name == "i16x8.min_u"@ {
        Some(0xFD9701u32)
    } else if name == "i16x8.max_s"@ {
        Some(0xFD9801u32)
    } else if name == "i16x8.max_u"@ {
        Some(0xFD9901u32)
    } else if name == "i16x8.avgr_u"@ {
        Some(0xFD9B01u32)
    } else if name == "i16x8.extmul_low_i8x16_s"@ {
        Some(0xFD9C01u32)
    } else if name == "i16x8.extmul_high_i8x16_s"@ {
        Some(0xFD9D01u32)
    } else {
        None
    }
}

fn find_op_code_7(name: &str) -> (r: Option<u32>)
    ensures
        r == op_codes_7(name@),
{
    if str_eq(name, "i8x16.shl") {
        return Some(0xFD6B);
    }
    if str_eq(name, "i8x16.shr_s") {
        return Some(0xFD6C);
    }
    if str_eq(name, "i8x16.shr_u") {
        return Some(0xFD6D);
    }
    if str_eq(name, "i8x16.add") {
        return Some(0xFD6E);
    }
    if str_eq(name, "i8x16.add_sat_s") {
        return Some(0xFD6F);
    }
    if str_eq(name, "i8x16.add_sat_u") {
        return Some(0xFD70);
    }
    if str_eq(name, "i8x16.sub") {
        return Some(0xFD71);
    }
    if str_eq(name, "i8x16.sub_sat_s") {
        return Some(0xFD72);
    }
    if str_eq(name, "i8x16.sub_sat_u") {
        return Some(0xFD73);
    }
    if str_eq(name, "f64x2.ceil") {
        return Some(0xFD74);
    }
    if str_eq(name, "f64x2.floor") {
        return Some(0xFD75);
    }
    if str_eq(name, "i8x16.min_s") {
        return Some(0xFD76);
    }
    if str_eq(name, "i8x16.min_u") {
        return Some(0xFD77);
    }
    if str_eq(name, "i8x16.max_s") {
        return Some(0xFD78);
    }
    if str_eq(name, "i8x16.max_u") {
        return Some(0xFD79);
    }
    if str_eq(name, "f64x2.trunc") {
        return Some(0xFD7A);
    }
    if str_eq(name, "i8x16.avgr_u") {
        return Some(0xFD7B);
    }
    if str_eq(name, "i16x8.extadd_pairwise_i8x16_s") {
        return Some(0xFD7C);
    }
    if str_eq(name, "i16x8.extadd_pairwise_i8x16_u") {
        return Some(0xFD7D);
    }
    if str_eq(name, "i32x4.extadd_pairwise_i16x8_s") {
        return Some(0xFD7E);
    }
    if str_eq(name, "i32x4.extadd_pairwise_i16x8_u") {
        return Some(0xFD7F);
    }
    if str_eq(name, "i16x8.abs") {
        return Some(0xFD8001);
    }
    if str_eq(name, "i16x8.neg") {
        return Some(0xFD8101);
    }
    if str_eq(name, "i16x8.q15mulr_sat_s") {
        return Some(0xFD8201);
    }
    if str_eq(name, "i16x8.all_true") {
        return Some(0xFD8301);
    }
    if str_eq(name, "i16x8.bitmask") {
        return Some(0xFD8401);
    }
    if str_eq(name, "i16x8.narrow_i32x4_s") {
        return Some(0xFD8501);
    }
    if str_eq(name, "i16x8.narrow_i32x4_u") {
        return Some(0xFD8601);
    }
    if str_eq(name, "i16x8.extend_low_i8x16_s") {
        return Some(0xFD8701);
    }
    if str_eq(name, "i16x8.extend_high_i8x16_s") {
        return Some(0xFD8801);
    }
    if str_eq(name, "i16x8.extend_low_i8x16_u") {
        return Some(0xFD8901);
    }
    if str_eq(name, "i16x8.extend_high_i8x16_u") {
        return Some(0xFD8A01);
    }
    if str_eq(name, "i16x8.shl") {
        return Some(0xFD8B01);
    }
    if str_eq(name, "i16x8.shr_s") {
        return Some(0xFD8C01);
    }
    if str_eq(name, "i16x8.shr_u") {
        return Some(0xFD8D01);
    }
    if str_eq(name, "i16x8.add") {
        return Some(0xFD8E01);
    }
    if str_eq(name, "i16x8.add_sat_s") {
        return Some(0xFD8F01);
    }
    if str_eq(name, "i16x8.add_sat_u") {
        return Some(0xFD9001);
    }
    if str_eq(name, "i16x8.sub") {
        return Some(0xFD9101);
    }
    if str_eq(name, "i16x8.sub_sat_s") {
        return Some(0xFD9201);
    }
    if str_eq(name, "i16x8.sub_sat_u") {
        return Some(0xFD9301);
    }
    if str_eq(name, "f64x2.nearest") {
        return Some(0xFD9401);
    }
    if str_eq(name, "i16x8.mul") {
        return Some(0xFD9501);
    }
    if str_eq(name, "i16x8.min_s") {
        return Some(0xFD9601);
    }
    if str_eq(name, "i16x8.min_u") {
        return Some(0xFD9701);
    }
    if str_eq(name, "i16x8.max_s") {
        return Some(0xFD9801);
    }
    if str_eq(name, "i16x8.max_u") {
        return Some(0xFD9901);
    }
    if str_eq(name, "i16x8.avgr_u") {
        return Some(0xFD9B01);
    }
    if str_eq(name, "i16x8.extmul_low_i8x16_s") {
        return Some(0xFD9C01);
    }
    if str_eq(name, "i16x8.extmul_high_i8x16_s") {
        return Some(0xFD9D01);
    }
    None
}

/// Opcodes of the instructions from `i16x8.extmul_low_i8x16_u` to `f32x4.abs`, in the order of the table.
pub open spec fn op_codes_8(name: Seq<char>) -> Option<u32> {
    if name == "i16x8.extmul_low_i8x16_u"@ {
        Some(0xFD9E01u32)
    } else if name == "i16x8.extmul_high_i8x16_u"@ {
        Some(0xFD9F01u32)
    } else if name == "i32x4.abs"@ {
        Some(0xFDA001u32)
    } else if name == "i32x4.neg"@ {
        Some(0xFDA101u32)
    } else if name == "i32x4.all_true"@ {
        Some(0xFDA301u32)
    } else if name == "i32x4.bitmask"@ {
        Some(0xFDA401u32)
    } else if name == "i32x4.extend_low_i16x8_s"@ {
        Some(0xFDA701u32)
    } else if name == "i32x4.extend_high_i16x8_s"@ {
        Some(0xFDA801u32)
    } else if name == "i32x4.extend_low_i16x8_u"@ {
        Some(0xFDA901u32)
    } else if name == "i32x4.extend_high_i16x8_u"@ {
        Some(0xFDAA01u32)
    } else if name == "i32x4.shl"@ {
        Some(0xFDAB01u32)
    } else if name == "i32x4.shr_s"@ {
        Some(0xFDAC01u32)
    } else if name == "i32x4.shr_u"@ {
        Some(0xFDAD01u32)
    } else if name == "i32x4.add"@ {
        Some(0xFDAE01u32)
    } else if name == "i32x4.sub"@ {
        Some(0xFDB101u32)
    } else if name == "i32x4.mul"@ {
        Some(0xFDB501u32)
    } else if name == "i32x4.min_s"@ {
        Some(0xFDB601u32)
    } else if name == "i32x4.min_u"@ {
        Some(0xFDB701u32)
    } else if name == "i32x4.max_s"@ {
        Some(0xFDB801u32)
    } else if name == "i32x4.max_u"@ {
        Some(0xFDB901u32)
    } else if name == "i32x4.dot_i16x8_s"@ {
        Some(0xFDBA01u32)
    } else if name == "i32x4.extmul_low_i16x8_s"@ {
        Some(0xFDBC01u32)
    } else if name == "i32x4.extmul_high_i16x8_s"@ {
        Some(0xFDBD01u32)
    } else if name == "i32x4.extmul_low_i16x8_u"@ {
        Some(0xFDBE01u32)
    } else if name == "i32x4.extmul_high_i16x8_u"@ {
        Some(0xFDBF01u32)
    } else if name == "i64x2.abs"@ {
        Some(0xFDC001u32)
    } else if name == "i64x2.neg"@ {
        Some(0xFDC101u32)
    } else if name == "i64x2.all_true"@ {
        Some(0xFDC301u32)
    } else if name == "i64x2.bitmask"@ {
        Some(0xFDC401u32)
    } else if name == "i64x2.extend_low_i32x4_s"@ {
        Some(0xFDC701u32)
    } else if name == "i64x2.extend_high_i32x4_s"@ {
        Some(0xFDC801u32)
    } else if name == "i64x2.extend_low_i32x4_u"@ {
        Some(0xFDC901u32)
    } else if name == "i64x2.extend_high_i32x4_u"@ {
        Some(0xFDCA01u32)
    } else if name == "i64x2.shl"@ {
        Some(0xFDCB01u32)
    } else if name == "i64x2.shr_s"@ {
        Some(0xFDCC01u32)
    } else if name == "i64x2.shr_u"@ {
        Some(0xFDCD01u32)
    } else if name == "i64x2.add"@ {
        Some(0xFDCE01u32)
    } else if name == "i64x2.sub"@ {
        Some(0xFDD101u32)
    } else if name == "i64x2.mul"@ {
        Some(0xFDD501u32)
    } else if name == "i64x2.eq"@ {
        Some(0xFDD601u32)
    } else if name == "i64x2.ne"@ {
        Some(0xFDD701u32)
    } else if name == "i64x2.lt_s"@ {
        Some(0xFDD801u32)
    } else if name == "i64x2.gt_s"@ {
        Some(0xFDD901u32)
    } else if name == "i64x2.le_s"@ {
        Some(0xFDDA01u32)
    } else if name == "i64x2.ge_s"@ {
        Some(0xFDDB01u32)
    } else if name == "i64x2.extmul_low_i32x4_s"@ {
        Some(0xFDDC01u32)
    } else if name == "i64x2.extmul_high_i32x4_s"@ {
        Some(0xFDDD01u32)
    } else if name == "i64x2.extmul_low_i32x4_u"@ {
        Some(0xFDDE01u32)
    } else if name == "i64x2.extmul_high_i32x4_u"@ {
        Some(0xFDDF01u32)
    } else if name == "f32x4.abs"@ {
        Some(0xFDE001u32)
    } else {
        None
    }
}

fn find_op_code_8(name: &str) -> (r: Option<u32>)
    ensures
        r == op_codes_8(name@),
{
    if str_eq(name, "i16x8.extmul_low_i8x16_u") {
        return Some(0xFD9E01);
    }
    if str_eq(name, "i16x8.extmul_high_i8x16_u") {
        return Some(0xFD9F01);
    }
    if str_eq(name, "i32x4.abs") {
        return Some(0xFDA001);
    }
    if str_eq(name, "i32x4.neg") {
        return Some(0xFDA101);
    }
    if str_eq(name, "i32x4.all_true") {
        return Some(0xFDA301);
    }
    if str_eq(name, "i32x4.bitmask") {
        return Some(0xFDA401);
    }
    if str_eq(name, "i32x4.extend_low_i16x8_s") {
        return Some(0xFDA701);
    }
    if str_eq(name, "i32x4.extend_high_i16x8_s") {
        return Some(0xFDA801);
    }
    if str_eq(name, "i32x4.extend_low_i16x8_u") {
        return Some(0xFDA901);
    }
    if str_eq(name, "i32x4.extend_high_i16x8_u") {
        return Some(0xFDAA01);
    }
    if str_eq(name, "i32x4.shl") {
        return Some(0xFDAB01);
    }
    if str_eq(name, "i32x4.shr_s") {
        return Some(0xFDAC01);
    }
    if str_eq(name, "i32x4.shr_u") {
        return Some(0xFDAD01);
    }
    if str_eq(name, "i32x4.add") {
        return Some(0xFDAE01);
    }
    if str_eq(name, "i32x4.sub") {
        return Some(0xFDB101);
    }
    if str_eq(name, "i32x4.mul") {
        return Some(0xFDB501);
    }
    if str_eq(name, "i32x4.min_s") {
        return Some(0xFDB601);
    }
    if str_eq(name, "i32x4.min_u") {
        return Some(0xFDB701);
    }
    if str_eq(name, "i32x4.max_s") {
        return Some(0xFDB801);
    }
    if str_eq(name, "i32x4.max_u") {
        return Some(0xFDB901);
    }
    if str_eq(name, "i32x4.dot_i16x8_s") {
        return Some(0xFDBA01);
    }
    if str_eq(name, "i32x4.extmul_low_i16x8_s") {
        return Some(0xFDBC01);
    }
    if str_eq(name, "i32x4.extmul_high_i16x8_s") {
        return Some(0xFDBD01);
    }
    if str_eq(name, "i32x4.extmul_low_i16x8_u") {
        return Some(0xFDBE01);
    }
    if str_eq(name, "i32x4.extmul_high_i16x8_u") {
        return Some(0xFDBF01);
    }
    if str_eq(name, "i64x2.abs") {
        return Some(0xFDC001);
    }
    if str_eq(name, "i64x2.neg") {
        return Some(0xFDC101);
    }
    if str_eq(name, "i64x2.all_true") {
        return Some(0xFDC301);
    }
    if str_eq(name, "i64x2.bitmask") {
        return Some(0xFDC401);
    }
    if str_eq(name, "i64x2.extend_low_i32x4_s") {
        return Some(0xFDC701);
    }
    if str_eq(name, "i64x2.extend_high_i32x4_s") {
        return Some(0xFDC801);
    }
    if str_eq(name, "i64x2.extend_low_i32x4_u") {
        return Some(0xFDC901);
    }
    if str_eq(name, "i64x2.extend_high_i32x4_u") {
        return Some(0xFDCA01);
    }
    if str_eq(name, "i64x2.shl") {
        return Some(0xFDCB01);
    }
    if str_eq(name, "i64x2.shr_s") {
        return Some(0xFDCC01);
    }
    if str_eq(name, "i64x2.shr_u") {
        return Some(0xFDCD01);
    }
    if str_eq(name, "i64x2.add") {
        return Some(0xFDCE01);
    }
    if str_eq(name, "i64x2.sub") {
        return Some(0xFDD101);
    }
    if str_eq(name, "i64x2.mul") {
        return Some(0xFDD501);
    }
    if str_eq(name, "i64x2.eq") {
        return Some(0xFDD601);
    }
    if str_eq(name, "i64x2.ne") {
        return Some(0xFDD701);
    }
    if str_eq(name, "i64x2.lt_s") {
        return Some(0xFDD801);
    }
    if str_eq(name, "i64x2.gt_s") {
        return Some(0xFDD901);
    }
    if str_eq(name, "i64x2.le_s") {
        return Some(0xFDDA01);
    }
    if str_eq(name, "i64x2.ge_s") {
        return Some(0xFDDB01);
    }
    if str_eq(name, "i64x2.extmul_low_i32x4_s") {
        return Some(0xFDDC01);
    }
    if str_eq(name, "i64x2.extmul_high_i32x4_s") {
        return Some(0xFDDD01);
    }
    if str_eq(name, "i64x2.extmul_low_i32x4_u") {
        return Some(0xFDDE01);
    }
    if str_eq(name, "i64x2.extmul_high_i32x4_u") {
        return Some(0xFDDF01);
    }
    if str_eq(name, "f32x4.abs") {
        return Some(0xFDE001);
    }
    None
}

/// Opcodes of the instructions from `f32x4.neg` to `i32x4.relaxed_dot_i8x16_i7x16_add_s`, in the order of the table.
pub open spec fn op_codes_9(name: Seq<char>) -> Option<u32> {
    if name == "f32x4.neg"@ {
        Some(0xFDE101u32)
    } else if name == "f32x4.sqrt"@ {
        Some(0xFDE301u32)
    } else if name == "f32x4.add"@ {
        Some(0xFDE401u32)
    } else if name == "f32x4.sub"@ {
        Some(0xFDE501u32)
    } else if name == "f32x4.mul"@ {
        Some(0xFDE601u32)
    } else if name == "f32x4.div"@ {
        Some(0xFDE701u32)
    } else if name == "f32x4.min"@ {
        Some(0xFDE801u32)
    } else if name == "f32x4.max"@ {
        Some(0xFDE901u32)
    } else if name == "f32x4.pmin"@ {
        Some(0xFDEA01u32)
    } else if name == "f32x4.pmax"@ {
        Some(0xFDEB01u32)
    } else if name == "f64x2.abs"@ {
        Some(0xFDEC01u32)
    } else if name == "f64x2.neg"@ {
        Some(0xFDED01u32)
    } else if name == "f64x2.sqrt"@ {
        Some(0xFDEF01u32)
    } else if name == "f64x2.add"@ {
        Some(0xFDF001u32)
    } else if name == "f64x2.sub"@ {
        Some(0xFDF101u32)
    } else if name == "f64x2.mul"@ {
        Some(0xFDF201u32)
    } else if name == "f64x2.div"@ {
        Some(0xFDF301u32)
    } else if name == "f64x2.min"@ {
        Some(0xFDF401u32)
    } else if name == "f64x2.max"@ {
        Some(0xFDF501u32)
    } else if name == "f64x2.pmin"@ {
        Some(0xFDF601u32)
    } else if name == "f64x2.pmax"@ {
        Some(0xFDF701u32)
    } else if name == "i32x4.trunc_sat_f32x4_s"@ {
        Some(0xFDF801u32)
    } else if name == "i32x4.trunc_sat_f32x4_u"@ {
        Some(0xFDF901u32)
    } else if name == "f32x4.convert_i32x4_s"@ {
        Some(0xFDFA01u32)
    } else if name == "f32x4.convert_i32x4_u"@ {
        Some(0xFDFB01u32)
    } else if name == "i32x4.trunc_sat_f64x2_s_zero"@ {
        Some(0xFDFC01u32)
    } else if name == "i32x4.trunc_sat_f64x2_u_zero"@ {
        Some(0xFDFD01u32)
    } else if name == "f64x2.convert_low_i32x4_s"@ {
        Some(0xFDFE01u32)
    } else if name == "f64x2.convert_low_i32x4_u"@ {
        Some(0xFDFF01u32)
    } else if name == "i8x16.relaxed_swizzle"@ {
        Some(0xFD8002u32)
    } else if name == "i32x4.relaxed_trunc_f32x4_s"@ {
        Some(0xFD8102u32)
    } else if name == "i32x4.relaxed_trunc_f32x4_u"@ {
        Some(0xFD8202u32)
    } else if name == "i32x4.relaxed_trunc_f64x2_s"@ {
        Some(0xFD8302u32)
    } else if name == "i32x4.relaxed_trunc_f64x2_u"@ {
        Some(0xFD8402u32)
    } else if name == "f32x4.relaxed_madd"@ {
        Some(0xFD8502u32)
    } else if name == "f32x4.relaxed_nmadd"@ {
        Some(0xFD8602u32)
    } else if name == "f64x2.relaxed_madd"@ {
        Some(0xFD8702u32)
    } else if name == "f64x2.relaxed_nmadd"@ {
        Some(0xFD8802u32)
    } else if name == "i8x16.relaxed_laneselect"@ {
        Some(0xFD8902u32)
    } else if name == "i16x8.relaxed_laneselect"@ {
        Some(0xFD8A02u32)
    } else if name == "i32x4.relaxed_laneselect"@ {
        Some(0xFD8B02u32)
    } else if name == "i64x2.relaxed_laneselect"@ {
        Some(0xFD8C02u32)
    } else if name == "f32x4.relaxed_min"@ {
        Some(0xFD8D02u32)
    } else if name == "f32x4.relaxed_max"@ {
        Some(0xFD8E02u32)
    } else if name == "f64x2.relaxed_min"@ {
        Some(0xFD8F02u32)
    } else if name == "f64x2.relaxed_max"@ {
        Some(0xFD9002u32)
    } else if name == "i16x8.relaxed_q15mulr_s"@ {
        Some(0xFD9102u32)
    } else if name == "i16x8.relaxed_dot_i8x16_i7x16_s"@ {
        Some(0xFD9202u32)
    } else if name == "i32x4.relaxed_dot_i8x16_i7x16_add_s"@ {
        Some(0xFD9302u32)
    } else {
        None
    }
}

fn find_op_code_9(name: &str) -> (r: Option<u32>)
    ensures
        r == op_codes_9(name@),
{
    if str_eq(name, "f32x4.neg") {
        return Some(0xFDE101);
    }
    if str_eq(name, "f32x4.sqrt") {
        return Some(0xFDE301);
    }
    if str_eq(name, "f32x4.add") {
        return Some(0xFDE401);
    }
    if str_eq(name, "f32x4.sub") {
        return Some(0xFDE501);
    }
    if str_eq(name, "f32x4.mul") {
        return Some(0xFDE601);
    }
    if str_eq(name, "f32x4.div") {
        return Some(0xFDE701);
    }
    if str_eq(name, "f32x4.min") {
        return Some(0xFDE801);
    }
    if str_eq(name, "f32x4.max") {
        return Some(0xFDE901);
    }
    if str_eq(name, "f32x4.pmin") {
        return Some(0xFDEA01);
    }
    if str_eq(name, "f32x4.pmax") {
        return Some(0xFDEB01);
    }
    if str_eq(name, "f64x2.abs") {
        return Some(0xFDEC01);
    }
    if str_eq(name, "f64x2.neg") {
        return Some(0xFDED01);
    }
    if str_eq(name, "f64x2.sqrt") {
        return Some(0xFDEF01);
    }
    if str_eq(name, "f64x2.add") {
        return Some(0xFDF001);
    }
    if str_eq(name, "f64x2.sub") {
        return Some(0xFDF101);
    }
    if str_eq(name, "f64x2.mul") {
        return Some(0xFDF201);
    }
    if str_eq(name, "f64x2.div") {
        return Some(0xFDF301);
    }
    if str_eq(name, "f64x2.min") {
        return Some(0xFDF401);
    }
    if str_eq(name, "f64x2.max") {
        return Some(0xFDF501);
    }
    if str_eq(name, "f64x2.pmin") {
        return Some(0xFDF601);
    }
    if str_eq(name, "f64x2.pmax") {
        return Some(0xFDF701);
    }
    if str_eq(name, "i32x4.trunc_sat_f32x4_s") {
        return Some(0xFDF801);
    }
    if str_eq(name, "i32x4.trunc_sat_f32x4_u") {
        return Some(0xFDF901);
    }
    if str_eq(name, "f32x4.convert_i32x4_s") {
        return Some(0xFDFA01);
    }
    if str_eq(name, "f32x4.convert_i32x4_u") {
        return Some(0xFDFB01);
    }
    if str_eq(name, "i32x4.trunc_sat_f64x2_s_zero") {
        return Some(0xFDFC01);
    }
    if str_eq(name, "i32x4.trunc_sat_f64x2_u_zero") {
        return Some(0xFDFD01);
    }
    if str_eq(name, "f64x2.convert_low_i32x4_s") {
        return Some(0xFDFE01);
    }
    if str_eq(name, "f64x2.convert_low_i32x4_u") {
        return Some(0xFDFF01);
    }
    if str_eq(name, "i8x16.relaxed_swizzle") {
        return Some(0xFD8002);
    }
    if str_eq(name, "i32x4.relaxed_trunc_f32x4_s") {
        return Some(0xFD8102);
    }
    if str_eq(name, "i32x4.relaxed_trunc_f32x4_u") {
        return Some(0xFD8202);
    }
    if str_eq(name, "i32x4.relaxed_trunc_f64x2_s") {
        return Some(0xFD8302);
    }
    if str_eq(name, "i32x4.relaxed_trunc_f64x2_u") {
        return Some(0xFD8402);
    }
    if str_eq(name, "f32x4.relaxed_madd") {
        return Some(0xFD8502);
    }
    if str_eq(name, "f32x4.relaxed_nmadd") {
        return Some(0xFD8602);
    }
    if str_eq(name, "f64x2.relaxed_madd") {
        return Some(0xFD8702);
    }
    if str_eq(name, "f64x2.relaxed_nmadd") {
        return Some(0xFD8802);
    }
    if str_eq(name, "i8x16.relaxed_laneselect") {
        return Some(0xFD8902);
    }
    if str_eq(name, "i16x8.relaxed_laneselect") {
        return Some(0xFD8A02);
    }
    if str_eq(name, "i32x4.relaxed_laneselect") {
        return Some(0xFD8B02);
    }
    if str_eq(name, "i64x2.relaxed_laneselect") {
        return Some(0xFD8C02);
    }
    if str_eq(name, "f32x4.relaxed_min") {
        return Some(0xFD8D02);
    }
    if str_eq(name, "f32x4.relaxed_max") {
        return Some(0xFD8E02);
    }
    if str_eq(name, "f64x2.relaxed_min") {
        return Some(0xFD8F02);
    }
    if str_eq(name, "f64x2.relaxed_max") {
        return Some(0xFD9002);
    }
    if str_eq(name, "i16x8.relaxed_q15mulr_s") {
        return Some(0xFD9102);
    }
    if str_eq(name, "i16x8.relaxed_dot_i8x16_i7x16_s") {
        return Some(0xFD9202);
    }
    if str_eq(name, "i32x4.relaxed_dot_i8x16_i7x16_add_s") {
        return Some(0xFD9302);
    }
    None
}

/// The opcode of an instruction name; `None` for a name that is no instruction.
pub open spec fn instr_op_code(name: Seq<char>) -> Option<u32> {
    if op_codes_0(name) is Some {
        op_codes_0(name)
    } else if op_codes_1(name) is Some {
        op_codes_1(name)
    } else if op_codes_2(name) is Some {
        op_codes_2(name)
    } else if op_codes_3(name) is Some {
        op_codes_3(name)
    } else if op_codes_4(name) is Some {
        op_codes_4(name)
    } else if op_codes_5(name) is Some {
        op_codes_5(name)
    } else if op_codes_6(name) is Some {
        op_codes_6(name)
    } else if op_codes_7(name) is Some {
        op_codes_7(name)
    } else if op_codes_8(name) is Some {
        op_codes_8(name)
    } else if op_codes_9(name) is Some {
        op_codes_9(name)
    } else {
        None
    }
}

/// Looks up the opcode of an instruction name.
pub fn get_instr_op_code(name: &str) -> (r: Option<u32>)
    ensures
        r == instr_op_code(name@),
{
    let c = find_op_code_0(name);
    if c.is_some() {
        return c;
    }
    let c = find_op_code_1(name);
    if c.is_some() {
        return c;
    }
    let c = find_op_code_2(name);
    if c.is_some() {
        return c;
    }
    let c = find_op_code_3(name);
    if c.is_some() {
        return c;
    }
    let c = find_op_code_4(name);
    if c.is_some() {
        return c;
    }
    let c = find_op_code_5(name);
    if c.is_some() {
        return c;
    }
    let c = find_op_code_6(name);
    if c.is_some() {
        return c;
    }
    let c = find_op_code_7(name);
    if c.is_some() {
        return c;
    }
    let c = find_op_code_8(name);
    if c.is_some() {
        return c;
    }
    let c = find_op_code_9(name);
    if c.is_some() {
        return c;
    }
    None
}

} // verus!
