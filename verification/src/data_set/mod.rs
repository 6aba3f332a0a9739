use crate::text::str_eq;

pub mod instr_meta;
use vstd::prelude::*;

verus! {

/// The documentation shown for a value type name: one sentence for each of
/// the seven value types, nothing for any other name.
pub open spec fn value_type_description_spec(value_type: Seq<char>) -> Option<Seq<char>> {
    if value_type == "i32"@ {
        Some("The type `i32` classifies 32 bit integers."@)
    } else if value_type == "i64"@ {
        Some("The type `i64` classifies 64 bit integers."@)
    } else if value_type == "f32"@ {
        Some("The type `f32` classifies 32 bit floating-point data."@)
    } else if value_type == "f64"@ {
        Some("The type `f64` classifies 64 bit floating-point data."@)
    } else if value_type == "v128"@ {
        Some(
            "The type `v128` corresponds to a 128 bit vector of packed integer or floating-point data."@,
        )
    } else if value_type == "funcref"@ {
        Some(
            "The type [`funcref`](https://webassembly.github.io/spec/core/syntax/types.html#syntax-reftype) denotes the infinite union of all references to [functions](https://webassembly.github.io/spec/core/syntax/modules.html#syntax-func), regardless of their [function types](https://webassembly.github.io/spec/core/syntax/types.html#syntax-functype)."@,
        )
    } else if value_type == "externref"@ {
        Some(
            "The type [`externref`](https://webassembly.github.io/spec/core/syntax/types.html#syntax-reftype) denotes the infinite union of all references to objects owned by the [embedder](https://webassembly.github.io/spec/core/intro/overview.html#embedder) and that can be passed into WebAssembly under this type."@,
        )
    } else {
        None
    }
}

/// Returns the hover documentation of a value type name.
pub fn get_value_type_description(value_type: &str) -> (r: Option<&'static str>)
    ensures
        r matches Some(d) ==> value_type_description_spec(value_type@) == Some(d@),
        r is None <==> value_type_description_spec(value_type@) is None,
{
    if str_eq(value_type, "i32") {
        Some("The type `i32` classifies 32 bit integers.")
    } else if str_eq(value_type, "i64") {
        Some("The type `i64` classifies 64 bit integers.")
    } else if str_eq(value_type, "f32") {
        Some("The type `f32` classifies 32 bit floating-point data.")
    } else if str_eq(value_type, "f64") {
        Some("The type `f64` classifies 64 bit floating-point data.")
    } else if str_eq(value_type, "v128") {
        Some(
            "The type `v128` corresponds to a 128 bit vector of packed integer or floating-point data.",
        )
    } else if str_eq(value_type, "funcref") {
        Some(
            "The type [`funcref`](https://webassembly.github.io/spec/core/syntax/types.html#syntax-reftype) denotes the infinite union of all references to [functions](https://webassembly.github.io/spec/core/syntax/modules.html#syntax-func), regardless of their [function types](https://webassembly.github.io/spec/core/syntax/types.html#syntax-functype).",
        )
    } else if str_eq(value_type, "externref") {
        Some(
            "The type [`externref`](https://webassembly.github.io/spec/core/syntax/types.html#syntax-reftype) denotes the infinite union of all references to objects owned by the [embedder](https://webassembly.github.io/spec/core/intro/overview.html#embedder) and that can be passed into WebAssembly under this type.",
        )
    } else {
        None
    }
}

} // verus!
