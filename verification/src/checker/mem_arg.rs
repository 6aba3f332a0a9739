//! Memory arguments of loads and stores: `align=` and `offset=`.

use super::import_occur::contains_key;
use super::lane::{strip_prefix, strip_prefix_exec};
use super::{diag_views, plain_diag, Diagnostic, DiagnosticSeverity, DiagnosticView, RelatedInformation};
use crate::binder::{deref_opt, key_list_as_slice, key_list_items, symbol_of_key, Symbol, SymbolKey, SymbolTable};
use crate::idx::{ident_texts, render_idx};
use crate::syntax::{child_nodes_of, child_token_of, SyntaxKind, SyntaxNode, SyntaxNodePtr, SyntaxToken, TextRange};
use crate::text::{decimal, parse_uint, parse_uint_spec, push_decimal, str_eq, ParsedUint};
use vstd::prelude::*;
use vstd::utf8::encode_utf8;

verus! {

/// Position of the first `c` among the first `n` characters.
pub open spec fn first_of(s: Seq<char>, c: char, n: int) -> Option<int>
    decreases n,
{
    if n <= 0 {
        None
    } else {
        match first_of(s, c, n - 1) {
            Some(i) => Some(i),
            None => if s[n - 1] == c {
                Some(n - 1)
            } else {
                None
            },
        }
    }
}

pub(crate) proof fn lemma_first_of_range(s: Seq<char>, c: char, n: int)
    ensures
        first_of(s, c, n) matches Some(i) ==> 0 <= i < n && s[i] == c,
    decreases n,
{
    if n > 0 {
        lemma_first_of_range(s, c, n - 1);
    }
}

proof fn lemma_first_of_stable(s: Seq<char>, c: char, a: int, n: int)
    requires
        0 <= a <= n,
        first_of(s, c, a) is Some,
    ensures
        first_of(s, c, n) == first_of(s, c, a),
    decreases n - a,
{
    if n > a {
        lemma_first_of_stable(s, c, a, n - 1);
    }
}

/// Position of the first `c` in `s`.
pub(crate) fn find_char(s: &str, c: char) -> (r: Option<usize>)
    ensures
        match first_of(s@, c, s@.len() as int) {
            Some(i) => r == Some(i as usize),
            None => r is None,
        },
{
    let n = s.unicode_len();
    let mut i: usize = 0;
    while i < n
        invariant
            n == s@.len(),
            i <= n,
            first_of(s@, c, i as int) is None,
        decreases n - i,
    {
        if s.get_char(i) == c {
            proof {
                lemma_first_of_stable(s@, c, i + 1, n as int);
            }
            return Some(i);
        }
        i = i + 1;
    }
    None
}

/// Whether a character is an ASCII digit.
pub open spec fn is_ascii_digit(c: char) -> bool {
    '0' <= c && c <= '9'
}

/// The number type and the text after `load` or `store` of a load or store
/// instruction name, such as `("i64", "32_u")` for `i64.load32_u`; `None`
/// for other instructions.
pub open spec fn access_shape(name: Seq<char>) -> Option<(Seq<char>, Seq<char>)> {
    match first_of(name, '.', name.len() as int) {
        None => None,
        Some(i) => {
            let nt = name.subrange(0, i);
            let action = name.subrange(i + 1, name.len() as int);
            let rest = match strip_prefix(action, "store"@) {
                Some(r) => Some(r),
                None => strip_prefix(action, "load"@),
            };
            match rest {
                Some(r) => if r.len() == 0 || is_ascii_digit(r[0]) {
                    Some((nt, r))
                } else {
                    None
                },
                None => None,
            }
        },
    }
}

/// The width in bytes of what a load or store moves: from the digits after
/// `load` or `store` up to the first `_`, or from the number type when there
/// are none.
pub open spec fn access_size(nt: Seq<char>, rest: Seq<char>) -> Option<u32> {
    let head = match first_of(rest, '_', rest.len() as int) {
        Some(k) => rest.subrange(0, k),
        None => rest,
    };
    if head == "8"@ {
        Some(1)
    } else if head == "16"@ {
        Some(2)
    } else if head == "32"@ {
        Some(4)
    } else if head == "64"@ || head == "8x8"@ || head == "16x4"@ || head == "32x2"@ {
        Some(8)
    } else if head.len() == 0 {
        if nt == "i32"@ || nt == "f32"@ {
            Some(4)
        } else if nt == "i64"@ || nt == "f64"@ {
            Some(8)
        } else if nt == "v128"@ {
            Some(16)
        } else {
            None
        }
    } else {
        None
    }
}

/// Whether `n` is a power of two.
pub open spec fn is_power_of_two(n: nat) -> bool
    decreases n,
{
    if n == 0 {
        false
    } else if n == 1 {
        true
    } else {
        n % 2 == 0 && is_power_of_two(n / 2)
    }
}

/// Whether an immediate names a memory: it holds an identifier or a number.
pub open spec fn names_index(immediate: SyntaxNode) -> bool {
    child_token_of(immediate, SyntaxKind::IDENT) is Some || child_token_of(immediate, SyntaxKind::INT) is Some
        || child_token_of(immediate, SyntaxKind::UNSIGNED_INT) is Some
}

/// The key of the symbol at a node.
pub open spec fn node_key(node: SyntaxNode) -> SymbolKey {
    SymbolKey(SyntaxNodePtr { kind: node.kind, range: node.range })
}

/// The memory an instruction accesses, with the number of immediates that
/// name it: the definition of the first immediate when that names a memory,
/// else the first memory of the module; `None` when the module has no entry
/// in the table.
pub open spec fn accessed_memory(table: SymbolTable, module: SymbolKey, node: SyntaxNode) -> Option<
    (int, Option<Symbol>),
> {
    let imms = child_nodes_of(node, SyntaxKind::IMMEDIATE);
    if imms.len() > 0 && names_index(imms[0]) {
        Some((1, table.def_of(node_key(imms[0]))))
    } else {
        match table.module_defs(module) {
            None => None,
            Some(m) => Some(
                (
                    0,
                    if key_list_items(m.memories).len() > 0 {
                        symbol_of_key(table.symbols@, key_list_items(m.memories)[0])
                    } else {
                        None
                    },
                ),
            ),
        }
    }
}

/// The report of an error of a memory argument.
pub open spec fn mem_arg_diag(range: TextRange, message: Seq<char>) -> DiagnosticView {
    plain_diag(range, DiagnosticSeverity::Error, "mem-arg"@, message)
}

/// The reports on the value of an `align=` argument: not a power of two, or
/// above the width of the access. Values that do not read as a `u32` are
/// left alone.
pub open spec fn align_value_diags(mem_arg: SyntaxNode, size: Option<u32>) -> Seq<DiagnosticView> {
    match size {
        None => Seq::empty(),
        Some(sz) => match child_token_of(mem_arg, SyntaxKind::UNSIGNED_INT) {
            None => Seq::empty(),
            Some(t) => match parse_uint_spec(encode_utf8(t.text@), u32::MAX as nat) {
                ParsedUint::Value(a) => if !is_power_of_two(a as nat) {
                    seq![mem_arg_diag(mem_arg.range, "alignment must be power-of-two"@)]
                } else if a > sz {
                    seq![
                        mem_arg_diag(
                            mem_arg.range,
                            "alignment must be between 1 and "@ + decimal(sz as nat) + " inclusively"@,
                        ),
                    ]
                } else {
                    Seq::empty()
                },
                _ => Seq::empty(),
            },
        },
    }
}

/// The report on an offset that does not fit the `i32` addresses of the
/// memory, pointing at the memory's definition.
pub open spec fn offset_range_diag(range: TextRange, mem: Symbol, idents: Seq<Seq<char>>) -> DiagnosticView {
    DiagnosticView {
        range,
        severity: DiagnosticSeverity::Error,
        code: "mem-arg"@,
        message: "offset is out of range"@,
        tags: None,
        data: None,
        related_information: Some(
            seq![
                (
                    mem.key.0.range,
                    "memory `"@ + render_idx(mem.idx, idents) + "` defined here uses `i32` address type"@,
                ),
            ],
        ),
    }
}

/// The report on the value of an `offset=` argument: one that does not fit
/// in a `u32` while the memory has `i32` addresses.
pub open spec fn offset_value_diags(
    mem_arg: SyntaxNode,
    mem: Option<Symbol>,
    i32_memories: Seq<SymbolKey>,
    idents: Seq<Seq<char>>,
) -> Seq<DiagnosticView> {
    match mem {
        Some(def) => if i32_memories.contains(def.key) && (child_token_of(mem_arg, SyntaxKind::UNSIGNED_INT) matches Some(
            t,
        ) && parse_uint_spec(encode_utf8(t.text@), u32::MAX as nat) is Overflow) {
            seq![offset_range_diag(mem_arg.range, def, idents)]
        } else {
            Seq::empty()
        },
        None => Seq::empty(),
    }
}

/// One memory argument: whether an alignment and an offset have been seen
/// after it, and its reports, given whether they had been seen before it.
pub open spec fn mem_arg_step(
    seen_align: bool,
    seen_offset: bool,
    mem_arg: SyntaxNode,
    size: Option<u32>,
    mem: Option<Symbol>,
    i32_memories: Seq<SymbolKey>,
    idents: Seq<Seq<char>>,
) -> (bool, bool, Seq<DiagnosticView>) {
    match child_token_of(mem_arg, SyntaxKind::MEM_ARG_KEYWORD) {
        Some(k) => if k.text@ == "align"@ {
            (
                true,
                seen_offset,
                (if seen_align {
                    seq![mem_arg_diag(mem_arg.range, "multiple alignments are not allowed"@)]
                } else {
                    Seq::empty()
                }) + align_value_diags(mem_arg, size),
            )
        } else if k.text@ == "offset"@ {
            (
                seen_align,
                true,
                (if seen_offset {
                    seq![mem_arg_diag(mem_arg.range, "multiple offsets are not allowed"@)]
                } else {
                    Seq::empty()
                }) + offset_value_diags(mem_arg, mem, i32_memories, idents),
            )
        } else {
            (seen_align, seen_offset, Seq::empty())
        },
        None => (seen_align, seen_offset, Seq::empty()),
    }
}

/// The first memory argument in an immediate.
pub open spec fn first_mem_arg(immediate: SyntaxNode) -> Option<SyntaxNode> {
    let m = child_nodes_of(immediate, SyntaxKind::MEM_ARG);
    if m.len() > 0 {
        Some(m[0])
    } else {
        None
    }
}

/// The memory arguments of the immediates from `start` up to `n`, in order.
pub open spec fn mem_args_diags(
    imms: Seq<SyntaxNode>,
    start: int,
    n: int,
    size: Option<u32>,
    mem: Option<Symbol>,
    i32_memories: Seq<SymbolKey>,
    idents: Seq<Seq<char>>,
) -> (bool, bool, Seq<DiagnosticView>)
    decreases n - start,
{
    if n <= start {
        (false, false, Seq::empty())
    } else {
        let (a, o, d) = mem_args_diags(imms, start, n - 1, size, mem, i32_memories, idents);
        match first_mem_arg(imms[n - 1]) {
            None => (a, o, d),
            Some(m) => {
                let (a2, o2, d2) = mem_arg_step(a, o, m, size, mem, i32_memories, idents);
                (a2, o2, d + d2)
            },
        }
    }
}

/// The reports on the memory arguments of a load or store instruction with
/// the given name. `i32_memories` are the keys of the memories whose
/// addresses are `i32`.
pub open spec fn mem_arg_diags(
    table: SymbolTable,
    idents: Seq<Seq<char>>,
    module: SymbolKey,
    i32_memories: Seq<SymbolKey>,
    node: SyntaxNode,
    name: Seq<char>,
) -> Seq<DiagnosticView> {
    match access_shape(name) {
        None => Seq::empty(),
        Some((nt, rest)) => match accessed_memory(table, module, node) {
            None => Seq::empty(),
            Some((start, mem)) => {
                let imms = child_nodes_of(node, SyntaxKind::IMMEDIATE);
                mem_args_diags(imms, start, imms.len() as int, access_size(nt, rest), mem, i32_memories, idents).2
            },
        },
    }
}

fn access_shape_exec(name: &str) -> (r: Option<(&str, &str)>)
    ensures
        match access_shape(name@) {
            Some((nt, rest)) => r matches Some((a, b)) && a@ == nt && b@ == rest,
            None => r is None,
        },
{
    let i = match find_char(name, '.') {
        Some(i) => i,
        None => return None,
    };
    let n = name.unicode_len();
    proof {
        lemma_first_of_range(name@, '.', n as int);
    }
    let nt = name.substring_char(0, i);
    let action = name.substring_char(i + 1, n);
    let rest = match strip_prefix_exec(action, "store") {
        Some(r) => r,
        None => match strip_prefix_exec(action, "load") {
            Some(r) => r,
            None => return None,
        },
    };
    if rest.unicode_len() == 0 {
        Some((nt, rest))
    } else {
        let c = rest.get_char(0);
        if '0' <= c && c <= '9' {
            Some((nt, rest))
        } else {
            None
        }
    }
}

fn access_size_exec(nt: &str, rest: &str) -> (r: Option<u32>)
    ensures
        r == access_size(nt@, rest@),
{
    let n = rest.unicode_len();
    let head = match find_char(rest, '_') {
        Some(k) => {
            proof {
                lemma_first_of_range(rest@, '_', n as int);
            }
            rest.substring_char(0, k)
        },
        None => rest,
    };
    if str_eq(head, "8") {
        Some(1)
    } else if str_eq(head, "16") {
        Some(2)
    } else if str_eq(head, "32") {
        Some(4)
    } else if str_eq(head, "64") || str_eq(head, "8x8") || str_eq(head, "16x4") || str_eq(head, "32x2") {
        Some(8)
    } else if head.unicode_len() == 0 {
        if str_eq(nt, "i32") || str_eq(nt, "f32") {
            Some(4)
        } else if str_eq(nt, "i64") || str_eq(nt, "f64") {
            Some(8)
        } else if str_eq(nt, "v128") {
            Some(16)
        } else {
            None
        }
    } else {
        None
    }
}

/// Whether `a` is a power of two.
pub fn power_of_two(a: u64) -> (r: bool)
    ensures
        r == is_power_of_two(a as nat),
{
    if a == 0 {
        return false;
    }
    let mut m = a;
    while m % 2 == 0
        invariant
            m >= 1,
            is_power_of_two(m as nat) == is_power_of_two(a as nat),
        decreases m,
    {
        m = m / 2;
    }
    m == 1
}

fn accessed_memory_exec<'a>(
    table: &'a SymbolTable,
    module: SymbolKey,
    node: &SyntaxNode,
    imms: &Vec<&SyntaxNode>,
) -> (r: Option<(usize, Option<&'a Symbol>)>)
    requires
        table.wf(),
        imms@.map_values(|n: &SyntaxNode| *n) == child_nodes_of(*node, SyntaxKind::IMMEDIATE),
    ensures
        match accessed_memory(*table, module, *node) {
            Some((start, mem)) => r matches Some((a, b)) && a as int == start && deref_opt(b) == mem,
            None => r is None,
        },
{
    let ghost all = child_nodes_of(*node, SyntaxKind::IMMEDIATE);
    assert(imms@.len() == all.len());
    if imms.len() > 0 {
        let first = imms[0];
        assert(*first == all[0]);
        if first.token_of_kind(SyntaxKind::IDENT).is_some() || first.token_of_kind(SyntaxKind::INT).is_some()
            || first.token_of_kind(SyntaxKind::UNSIGNED_INT).is_some() {
            return Some((1, table.find_def(SymbolKey(first.to_ptr()))));
        }
    }
    match table.find_module_defs(module) {
        None => None,
        Some(m) => {
            let keys = key_list_as_slice(&m.memories);
            if keys.len() > 0 {
                Some((0, table.symbols.get(keys[0])))
            } else {
                Some((0, None))
            }
        },
    }
}

fn mem_arg_error(range: TextRange, message: &str) -> (r: Diagnostic)
    ensures
        r@ == mem_arg_diag(range, message@),
{
    Diagnostic::plain(range, DiagnosticSeverity::Error, "mem-arg", String::from_str(message))
}

fn align_value(mem_arg: &SyntaxNode, size: Option<u32>) -> (r: Option<Diagnostic>)
    ensures
        match r {
            Some(d) => align_value_diags(*mem_arg, size) == seq![d@],
            None => align_value_diags(*mem_arg, size) == Seq::<DiagnosticView>::empty(),
        },
{
    let sz = match size {
        Some(sz) => sz,
        None => return None,
    };
    let token = match mem_arg.token_of_kind(SyntaxKind::UNSIGNED_INT) {
        Some(t) => t,
        None => return None,
    };
    match parse_uint(token.text.as_str(), 0xffff_ffffu64) {
        ParsedUint::Value(a) => {
            if !power_of_two(a) {
                Some(mem_arg_error(mem_arg.range, "alignment must be power-of-two"))
            } else if a > sz as u64 {
                let mut message = String::from_str("alignment must be between 1 and ");
                push_decimal(&mut message, sz as u64);
                message.append(" inclusively");
                Some(Diagnostic::plain(mem_arg.range, DiagnosticSeverity::Error, "mem-arg", message))
            } else {
                None
            }
        },
        _ => None,
    }
}

fn offset_value(
    mem_arg: &SyntaxNode,
    mem: Option<&Symbol>,
    i32_memories: &Vec<SymbolKey>,
    idents: &Vec<String>,
) -> (r: Option<Diagnostic>)
    ensures
        match r {
            Some(d) => offset_value_diags(*mem_arg, deref_opt(mem), i32_memories@, ident_texts(idents@)) == seq![d@],
            None => offset_value_diags(*mem_arg, deref_opt(mem), i32_memories@, ident_texts(idents@)) == Seq::<
                DiagnosticView,
            >::empty(),
        },
{
    let def = match mem {
        Some(d) => d,
        None => return None,
    };
    if !contains_key(i32_memories, def.key) {
        return None;
    }
    let token = match mem_arg.token_of_kind(SyntaxKind::UNSIGNED_INT) {
        Some(t) => t,
        None => return None,
    };
    match parse_uint(token.text.as_str(), 0xffff_ffffu64) {
        ParsedUint::Overflow => {
            let mut note = String::from_str("memory `");
            let name = def.idx.render(idents);
            note.append(name.as_str());
            note.append("` defined here uses `i32` address type");
            let related = vec![RelatedInformation { range: def.key.0.range, message: note }];
            let d = Diagnostic {
                range: mem_arg.range,
                severity: DiagnosticSeverity::Error,
                code: String::from_str("mem-arg"),
                message: String::from_str("offset is out of range"),
                tags: None,
                data: None,
                related_information: Some(related),
            };
            assert(related@.map_values(|x: RelatedInformation| x@) =~= seq![
                (def.key.0.range, "memory `"@ + render_idx(def.idx, ident_texts(idents@)) + "` defined here uses `i32` address type"@),
            ]);
            Some(d)
        },
        _ => None,
    }
}

fn push_opt(diagnostics: &mut Vec<Diagnostic>, d: Option<Diagnostic>, ghost_view: Ghost<Seq<DiagnosticView>>)
    requires
        match d {
            Some(x) => ghost_view@ == seq![x@],
            None => ghost_view@ == Seq::<DiagnosticView>::empty(),
        },
    ensures
        diag_views(final(diagnostics)@) == diag_views(old(diagnostics)@) + ghost_view@,
{
    let ghost before = diagnostics@;
    match d {
        Some(x) => {
            diagnostics.push(x);
            assert(diag_views(diagnostics@) =~= diag_views(before) + seq![x@]);
        },
        None => {
            assert(diag_views(before) + Seq::<DiagnosticView>::empty() =~= diag_views(before));
        },
    }
}

fn push_mem_arg_step(
    diagnostics: &mut Vec<Diagnostic>,
    seen_align: &mut bool,
    seen_offset: &mut bool,
    mem_arg: &SyntaxNode,
    size: Option<u32>,
    mem: Option<&Symbol>,
    i32_memories: &Vec<SymbolKey>,
    idents: &Vec<String>,
)
    ensures
        ({
            let step = mem_arg_step(
                *old(seen_align),
                *old(seen_offset),
                *mem_arg,
                size,
                deref_opt(mem),
                i32_memories@,
                ident_texts(idents@),
            );
            &&& *final(seen_align) == step.0
            &&& *final(seen_offset) == step.1
            &&& diag_views(final(diagnostics)@) == diag_views(old(diagnostics)@) + step.2
        }),
{
    let ghost before = diag_views(diagnostics@);
    let keyword = match mem_arg.token_of_kind(SyntaxKind::MEM_ARG_KEYWORD) {
        Some(k) => k,
        None => {
            assert(before + Seq::<DiagnosticView>::empty() =~= before);
            return;
        },
    };
    if str_eq(keyword.text.as_str(), "align") {
        if *seen_align {
            diagnostics.push(mem_arg_error(mem_arg.range, "multiple alignments are not allowed"));
        }
        let ghost mid = diag_views(diagnostics@);
        *seen_align = true;
        let d = align_value(mem_arg, size);
        push_opt(diagnostics, d, Ghost(align_value_diags(*mem_arg, size)));
        proof {
            let dup = if *old(seen_align) {
                seq![mem_arg_diag(mem_arg.range, "multiple alignments are not allowed"@)]
            } else {
                Seq::<DiagnosticView>::empty()
            };
            assert(mid =~= before + dup);
            assert((before + dup) + align_value_diags(*mem_arg, size) =~= before + (dup + align_value_diags(*mem_arg, size)));
        }
    } else if str_eq(keyword.text.as_str(), "offset") {
        if *seen_offset {
            diagnostics.push(mem_arg_error(mem_arg.range, "multiple offsets are not allowed"));
        }
        let ghost mid = diag_views(diagnostics@);
        *seen_offset = true;
        let d = offset_value(mem_arg, mem, i32_memories, idents);
        push_opt(diagnostics, d, Ghost(offset_value_diags(*mem_arg, deref_opt(mem), i32_memories@, ident_texts(idents@))));
        proof {
            let dup = if *old(seen_offset) {
                seq![mem_arg_diag(mem_arg.range, "multiple offsets are not allowed"@)]
            } else {
                Seq::<DiagnosticView>::empty()
            };
            let v = offset_value_diags(*mem_arg, deref_opt(mem), i32_memories@, ident_texts(idents@));
            assert(mid =~= before + dup);
            assert((before + dup) + v =~= before + (dup + v));
        }
    } else {
        assert(before + Seq::<DiagnosticView>::empty() =~= before);
    }
}

/// Checks the memory arguments of a load or store instruction: at most one
/// alignment, a power of two no wider than the access; at most one offset,
/// within `u32` when the memory has `i32` addresses. `i32_memories` holds
/// the keys of the memories whose addresses are `i32`.
pub fn check(
    diagnostics: &mut Vec<Diagnostic>,
    symbol_table: &SymbolTable,
    idents: &Vec<String>,
    module: SymbolKey,
    i32_memories: &Vec<SymbolKey>,
    node: &SyntaxNode,
    instr_name: &SyntaxToken,
)
    requires
        symbol_table.wf(),
    ensures
        diag_views(final(diagnostics)@) == diag_views(old(diagnostics)@) + mem_arg_diags(
            *symbol_table,
            ident_texts(idents@),
            module,
            i32_memories@,
            *node,
            instr_name.text@,
        ),
{
    let ghost before = diag_views(diagnostics@);
    let (nt, rest) = match access_shape_exec(instr_name.text.as_str()) {
        Some(p) => p,
        None => {
            assert(before + Seq::<DiagnosticView>::empty() =~= before);
            return;
        },
    };
    let imms = node.children_of_kind(SyntaxKind::IMMEDIATE);
    let ghost all = child_nodes_of(*node, SyntaxKind::IMMEDIATE);
    let (start, mem) = match accessed_memory_exec(symbol_table, module, node, &imms) {
        Some(p) => p,
        None => {
            assert(before + Seq::<DiagnosticView>::empty() =~= before);
            return;
        },
    };
    let size = access_size_exec(nt, rest);
    assert(imms@.len() == all.len());
    assert(start <= imms.len());
    let mut seen_align = false;
    let mut seen_offset = false;
    let mut i = start;
    assert(before + Seq::<DiagnosticView>::empty() =~= before);
    while i < imms.len()
        invariant
            start <= i <= imms@.len(),
            imms@.map_values(|n: &SyntaxNode| *n) == all,
            ({
                let st = mem_args_diags(
                    all,
                    start as int,
                    i as int,
                    size,
                    deref_opt(mem),
                    i32_memories@,
                    ident_texts(idents@),
                );
                &&& seen_align == st.0
                &&& seen_offset == st.1
                &&& diag_views(diagnostics@) == before + st.2
            }),
        decreases imms@.len() - i,
    {
        let ghost st = mem_args_diags(all, start as int, i as int, size, deref_opt(mem), i32_memories@, ident_texts(idents@));
        assert(*imms@[i as int] == all[i as int]);
        match imms[i].child_of_kind(SyntaxKind::MEM_ARG) {
            Some(m) => {
                let ghost mid = diag_views(diagnostics@);
                push_mem_arg_step(diagnostics, &mut seen_align, &mut seen_offset, m, size, mem, i32_memories, idents);
                proof {
                    let step = mem_arg_step(st.0, st.1, *m, size, deref_opt(mem), i32_memories@, ident_texts(idents@));
                    assert((before + st.2) + step.2 =~= before + (st.2 + step.2));
                }
            },
            None => {},
        }
        i = i + 1;
    }
}

} // verus!
