//! Laws of the checkers that name the instructions and the kinds of
//! symbols they are about.

use super::dup_names::{dup_symbol_diag, dup_symbol_diags, group_positions, same_name_group};
use super::locals::{first_immediate_key, is_read, is_write, local_access, targets_local, writes_before, LocalAccess};
use super::plain_diag;
use super::undef::{undef_diags, undef_message};
use super::unused::{has_export, is_prefixed_with_underscore, is_used, unused_diag, unused_diags, used_upto};
use super::uninit::uninit_reads;
use super::{DiagnosticSeverity, DiagnosticView};
use crate::binder::{idx_kind_of, Symbol, SymbolKey, SymbolKind, SymbolTable};
use crate::cfa::BasicBlockInstr;
use crate::idx::render_idx;
use crate::syntax::{SyntaxNode, TextRange};
use vstd::prelude::*;

verus! {

// ---------------------------------------------------------------------------
// Reads of locals before they are written.

/// Whether an instruction is `local.set` or `local.tee` of the local `def`.
pub open spec fn sets_local(t: SymbolTable, instr: BasicBlockInstr, def: SymbolKey) -> bool {
    (instr.name@ == "local.set"@ || instr.name@ == "local.tee"@) && targets_local(t, instr, def)
}

/// Whether an instruction is `local.get` of the local `def`.
pub open spec fn gets_local(t: SymbolTable, instr: BasicBlockInstr, def: SymbolKey) -> bool {
    instr.name@ == "local.get"@ && targets_local(t, instr, def)
}

proof fn lemma_local_names()
    ensures
        local_access("local.get"@) == LocalAccess::Read,
        local_access("local.set"@) == LocalAccess::Write,
        local_access("local.tee"@) == LocalAccess::Write,
{
    reveal_strlit("local.get");
    reveal_strlit("local.set");
    reveal_strlit("local.tee");
    assert("local.get"@[6] == 'g' && "local.set"@[6] == 's' && "local.tee"@[6] == 't');
}

proof fn lemma_sets_is_write(t: SymbolTable, instr: BasicBlockInstr, def: SymbolKey)
    ensures
        sets_local(t, instr, def) ==> is_write(t, instr, def),
        gets_local(t, instr, def) ==> is_read(t, instr, def),
        is_write(t, instr, def) ==> !is_read(t, instr, def),
{
    lemma_local_names();
}

/// The reads reported among the first `n` instructions come first among
/// those reported among the first `m`.
proof fn lemma_uninit_prefix(t: SymbolTable, bb: Seq<BasicBlockInstr>, def: SymbolKey, ik: bool, n: int, m: int)
    requires
        0 <= n <= m,
    ensures
        uninit_reads(t, bb, def, ik, n).len() <= uninit_reads(t, bb, def, ik, m).len(),
        uninit_reads(t, bb, def, ik, m).take(uninit_reads(t, bb, def, ik, n).len() as int) == uninit_reads(
            t,
            bb,
            def,
            ik,
            n,
        ),
    decreases m - n,
{
    if m > n {
        lemma_uninit_prefix(t, bb, def, ik, n, m - 1);
        let a = uninit_reads(t, bb, def, ik, n);
        let b = uninit_reads(t, bb, def, ik, m - 1);
        let c = uninit_reads(t, bb, def, ik, m);
        assert(c.take(a.len() as int) =~= b.take(a.len() as int));
    } else {
        let a = uninit_reads(t, bb, def, ik, n);
        assert(a.take(a.len() as int) =~= a);
    }
}

/// Once an instruction of a block has set the local, no later read in the
/// block is reported: the reports among the first `k` instructions are
/// those among the instructions up to the write.
pub proof fn law_uninit_read_after_write_is_quiet(
    t: SymbolTable,
    bb: Seq<BasicBlockInstr>,
    def: SymbolKey,
    in_kill: bool,
    j: int,
    k: int,
)
    requires
        0 <= j < k <= bb.len(),
        sets_local(t, bb[j], def),
    ensures
        uninit_reads(t, bb, def, in_kill, k) == uninit_reads(t, bb, def, in_kill, j + 1),
    decreases k - j,
{
    lemma_sets_is_write(t, bb[j], def);
    if k > j + 1 {
        law_uninit_read_after_write_is_quiet(t, bb, def, in_kill, j, k - 1);
        assert(writes_before(t, bb, def, k - 1));
    }
}

/// A `local.get` of the local that no earlier `local.set` or `local.tee`
/// of it in the block precedes, in a block entered with the local possibly
/// unwritten, is reported: its key is among the reported reads.
pub proof fn law_uninit_read_before_write_is_reported(
    t: SymbolTable,
    bb: Seq<BasicBlockInstr>,
    def: SymbolKey,
    k: int,
)
    requires
        0 <= k < bb.len(),
        gets_local(t, bb[k], def),
        forall|j: int| 0 <= j < k ==> !sets_local(t, #[trigger] bb[j], def),
    ensures
        uninit_reads(t, bb, def, false, bb.len() as int).contains(first_immediate_key(bb[k])),
{
    lemma_local_names();
    lemma_sets_is_write(t, bb[k], def);
    assert(!writes_before(t, bb, def, k)) by {
        if writes_before(t, bb, def, k) {
            let j = choose|j: int| 0 <= j < k && is_write(t, #[trigger] bb[j], def);
            assert(local_access(bb[j].name@) == LocalAccess::Write);
            assert(!sets_local(t, bb[j], def));
        }
    }
    let before = uninit_reads(t, bb, def, false, k);
    assert(uninit_reads(t, bb, def, false, k + 1) == before.push(first_immediate_key(bb[k])));
    lemma_uninit_prefix(t, bb, def, false, k + 1, bb.len() as int);
    let all = uninit_reads(t, bb, def, false, bb.len() as int);
    assert(all[before.len() as int] == all.take(before.len() as int + 1)[before.len() as int]);
}

/// A block entered with the local written everywhere reports no read.
pub proof fn law_uninit_written_on_entry_is_quiet(t: SymbolTable, bb: Seq<BasicBlockInstr>, def: SymbolKey, n: int)
    ensures
        uninit_reads(t, bb, def, true, n) == Seq::<SymbolKey>::empty(),
    decreases n,
{
    if n > 0 {
        law_uninit_written_on_entry_is_quiet(t, bb, def, n - 1);
    }
}


/// Every reported read is a `local.get` of the local in a block entered
/// with the local possibly unwritten, with no `local.set` or `local.tee` of
/// it earlier in the block.
pub proof fn law_uninit_reports_only_unwritten_reads(
    t: SymbolTable,
    bb: Seq<BasicBlockInstr>,
    def: SymbolKey,
    in_kill: bool,
    n: int,
)
    requires
        0 <= n <= bb.len(),
    ensures
        forall|x: int|
            0 <= x < uninit_reads(t, bb, def, in_kill, n).len() ==> exists|k: int|
                0 <= k < n && !in_kill && gets_local(t, bb[k], def) && (forall|j: int|
                    0 <= j < k ==> !sets_local(t, #[trigger] bb[j], def)) && #[trigger] uninit_reads(
                    t,
                    bb,
                    def,
                    in_kill,
                    n,
                )[x] == first_immediate_key(bb[k]),
    decreases n,
{
    lemma_local_names();
    if n > 0 {
        law_uninit_reports_only_unwritten_reads(t, bb, def, in_kill, n - 1);
        let prev = uninit_reads(t, bb, def, in_kill, n - 1);
        let cur = uninit_reads(t, bb, def, in_kill, n);
        assert forall|x: int| 0 <= x < cur.len() implies exists|k: int|
            0 <= k < n && !in_kill && gets_local(t, bb[k], def) && (forall|j: int|
                0 <= j < k ==> !sets_local(t, #[trigger] bb[j], def)) && #[trigger] cur[x] == first_immediate_key(
                bb[k],
            ) by {
            if x < prev.len() {
                assert(cur[x] == prev[x]);
                let k = choose|k: int|
                    0 <= k < n - 1 && !in_kill && gets_local(t, bb[k], def) && (forall|j: int|
                        0 <= j < k ==> !sets_local(t, #[trigger] bb[j], def)) && #[trigger] prev[x]
                        == first_immediate_key(bb[k]);
            } else {
                let k = n - 1;
                assert(is_read(t, bb[k], def) && !writes_before(t, bb, def, k));
                assert(local_access(bb[k].name@) == LocalAccess::Read);
                assert(gets_local(t, bb[k], def));
                assert forall|j: int| 0 <= j < k implies !sets_local(t, #[trigger] bb[j], def) by {
                    lemma_sets_is_write(t, bb[j], def);
                    if sets_local(t, bb[j], def) {
                        assert(is_write(t, bb[j], def));
                        assert(writes_before(t, bb, def, k));
                    }
                }
            }
        }
    }
}

// ---------------------------------------------------------------------------
// Definitions that nothing uses.

/// The kinds of definitions that are reported when nothing uses them.
pub open spec fn unused_reportable(kind: SymbolKind) -> bool {
    kind == SymbolKind::Func || kind == SymbolKind::Local || kind == SymbolKind::Type || kind == SymbolKind::GlobalDef
        || kind == SymbolKind::MemoryDef || kind == SymbolKind::TableDef || kind == SymbolKind::FieldDef || kind
        == SymbolKind::TagDef || kind == SymbolKind::DataDef || kind == SymbolKind::ElemDef
}

/// Whether no resolution names the symbol at `i`.
pub open spec fn nothing_refers(resolved: Seq<Option<u32>>, i: int) -> bool {
    forall|k: int| 0 <= k < resolved.len() ==> !(#[trigger] resolved[k] matches Some(d) && d as int == i)
}

proof fn lemma_not_used(resolved: Seq<Option<u32>>, i: int, k: int)
    requires
        0 <= k <= resolved.len(),
        nothing_refers(resolved, i),
    ensures
        !used_upto(resolved, i, k),
    decreases k,
{
    if k > 0 {
        lemma_not_used(resolved, i, k - 1);
        assert(!(resolved[k - 1] matches Some(d) && d as int == i));
    }
}

proof fn lemma_unused_prefix(
    severity: DiagnosticSeverity,
    symbols: Seq<Symbol>,
    resolved: Seq<Option<u32>>,
    imports: Seq<SymbolKey>,
    idents: Seq<Seq<char>>,
    root: SyntaxNode,
    def_poi: Seq<TextRange>,
    n: int,
    m: int,
)
    requires
        0 <= n <= m,
    ensures
        ({
            let a = unused_diags(severity, symbols, resolved, imports, idents, root, def_poi, n);
            let b = unused_diags(severity, symbols, resolved, imports, idents, root, def_poi, m);
            a.len() <= b.len() && b.take(a.len() as int) == a
        }),
    decreases m - n,
{
    let a = unused_diags(severity, symbols, resolved, imports, idents, root, def_poi, n);
    if m > n {
        lemma_unused_prefix(severity, symbols, resolved, imports, idents, root, def_poi, n, m - 1);
        let b = unused_diags(severity, symbols, resolved, imports, idents, root, def_poi, m - 1);
        let c = unused_diags(severity, symbols, resolved, imports, idents, root, def_poi, m);
        assert(c.take(a.len() as int) =~= b.take(a.len() as int));
    } else {
        assert(a.take(a.len() as int) =~= a);
    }
}

/// A function, local, type, global, memory, table, field, tag, data or
/// element definition that no reference resolves to, that has no inline
/// export and whose name does not start with `$_` is reported as unused.
pub proof fn law_unreferenced_definition_is_reported(
    severity: DiagnosticSeverity,
    symbols: Seq<Symbol>,
    resolved: Seq<Option<u32>>,
    imports: Seq<SymbolKey>,
    idents: Seq<Seq<char>>,
    root: SyntaxNode,
    def_poi: Seq<TextRange>,
    i: int,
)
    requires
        0 <= i < symbols.len(),
        unused_reportable(symbols[i].kind),
        nothing_refers(resolved, i),
        !has_export(root, symbols[i].key),
        !is_prefixed_with_underscore(symbols[i].idx, idents),
    ensures
        unused_diags(severity, symbols, resolved, imports, idents, root, def_poi, symbols.len() as int).contains(
            unused_diag(def_poi[i], severity, symbols[i], idents),
        ),
{
    lemma_not_used(resolved, i, resolved.len() as int);
    assert(!is_used(resolved, i));
    let d = unused_diag(def_poi[i], severity, symbols[i], idents);
    let before = unused_diags(severity, symbols, resolved, imports, idents, root, def_poi, i);
    assert(unused_diags(severity, symbols, resolved, imports, idents, root, def_poi, i + 1) == before.push(d));
    lemma_unused_prefix(severity, symbols, resolved, imports, idents, root, def_poi, i + 1, symbols.len() as int);
    let all = unused_diags(severity, symbols, resolved, imports, idents, root, def_poi, symbols.len() as int);
    assert(all[before.len() as int] == all.take(before.len() as int + 1)[before.len() as int]);
}

/// Whether an index's identifier starts with `$_`.
pub open spec fn named_with_underscore(idx: crate::idx::Idx, idents: Seq<Seq<char>>) -> bool {
    idx.name matches Some(n) && (n.0 as int) < idents.len() && idents[n.0 as int].len() >= 2 && idents[n.0
        as int][0] == '$' && idents[n.0 as int][1] == '_'
}

/// Whether a report is the unused report on a definition of a reported
/// kind without an inline export, or on a parameter, among the first `n`
/// symbols, that no reference resolves to and whose name does not start
/// with `$_`.
pub open spec fn justified_unused(
    severity: DiagnosticSeverity,
    symbols: Seq<Symbol>,
    resolved: Seq<Option<u32>>,
    idents: Seq<Seq<char>>,
    root: SyntaxNode,
    def_poi: Seq<TextRange>,
    n: int,
    d: DiagnosticView,
) -> bool {
    exists|k: int|
        0 <= k < n && nothing_refers(resolved, k) && !named_with_underscore(symbols[k].idx, idents) && ((
        unused_reportable(symbols[k].kind) && !has_export(root, symbols[k].key)) || symbols[k].kind
        == SymbolKind::Param) && d == #[trigger] unused_diag(def_poi[k], severity, symbols[k], idents)
}

/// Every unused report is about a definition of a reported kind without
/// an inline export, or a parameter, that no reference resolves to and
/// whose name does not start with `$_`.
pub proof fn law_unused_reports_only_unreferenced(
    severity: DiagnosticSeverity,
    symbols: Seq<Symbol>,
    resolved: Seq<Option<u32>>,
    imports: Seq<SymbolKey>,
    idents: Seq<Seq<char>>,
    root: SyntaxNode,
    def_poi: Seq<TextRange>,
    n: int,
)
    requires
        0 <= n <= symbols.len(),
    ensures
        forall|x: int|
            0 <= x < unused_diags(severity, symbols, resolved, imports, idents, root, def_poi, n).len()
                ==> justified_unused(
                severity,
                symbols,
                resolved,
                idents,
                root,
                def_poi,
                n,
                #[trigger] unused_diags(severity, symbols, resolved, imports, idents, root, def_poi, n)[x],
            ),
    decreases n,
{
    if n > 0 {
        law_unused_reports_only_unreferenced(severity, symbols, resolved, imports, idents, root, def_poi, n - 1);
        let prev = unused_diags(severity, symbols, resolved, imports, idents, root, def_poi, n - 1);
        let cur = unused_diags(severity, symbols, resolved, imports, idents, root, def_poi, n);
        assert forall|x: int| 0 <= x < cur.len() implies justified_unused(
            severity,
            symbols,
            resolved,
            idents,
            root,
            def_poi,
            n,
            #[trigger] cur[x],
        ) by {
            if x < prev.len() {
                assert(cur[x] == prev[x]);
                assert(justified_unused(severity, symbols, resolved, idents, root, def_poi, n - 1, prev[x]));
                let k = choose|k: int|
                    0 <= k < n - 1 && nothing_refers(resolved, k) && !named_with_underscore(symbols[k].idx, idents)
                        && ((unused_reportable(symbols[k].kind) && !has_export(root, symbols[k].key))
                        || symbols[k].kind == SymbolKind::Param) && prev[x] == #[trigger] unused_diag(
                        def_poi[k],
                        severity,
                        symbols[k],
                        idents,
                    );
                assert(0 <= k < n);
            } else {
                let k = n - 1;
                assert(!is_used(resolved, k));
                assert forall|q: int| 0 <= q < resolved.len() implies !(#[trigger] resolved[q] matches Some(d) && d
                    as int == k) by {
                    if resolved[q] matches Some(d) && d as int == k {
                        lemma_used_upto_has(resolved, k, q, resolved.len() as int);
                    }
                }
                assert(cur[x] == unused_diag(def_poi[k], severity, symbols[k], idents));
            }
        }
    }
}

proof fn lemma_used_upto_has(resolved: Seq<Option<u32>>, i: int, q: int, k: int)
    requires
        0 <= q < k <= resolved.len(),
        resolved[q] matches Some(d) && d as int == i,
    ensures
        used_upto(resolved, i, k),
    decreases k,
{
    if q < k - 1 {
        lemma_used_upto_has(resolved, i, q, k - 1);
    }
}

// ---------------------------------------------------------------------------
// Names declared twice.

/// The kinds of definitions whose names must be unique in their scope and
/// index space.
pub open spec fn name_checked(kind: SymbolKind) -> bool {
    kind == SymbolKind::Func || kind == SymbolKind::Param || kind == SymbolKind::Local || kind == SymbolKind::Type
        || kind == SymbolKind::GlobalDef || kind == SymbolKind::MemoryDef || kind == SymbolKind::TableDef || kind
        == SymbolKind::FieldDef || kind == SymbolKind::TagDef
}

proof fn lemma_group_has(symbols: Seq<Symbol>, i: int, k: int, n: int)
    requires
        0 <= k < n <= symbols.len(),
        same_name_group(symbols[i], symbols[k]),
    ensures
        group_positions(symbols, i, false, n).contains(k),
    decreases n,
{
    if k < n - 1 {
        lemma_group_has(symbols, i, k, n - 1);
        let g = group_positions(symbols, i, false, n - 1);
        let j = choose|j: int| 0 <= j < g.len() && g[j] == k;
        assert(group_positions(symbols, i, false, n)[j] == k);
    } else {
        let g = group_positions(symbols, i, false, n - 1);
        assert(group_positions(symbols, i, false, n)[g.len() as int] == k);
    }
}

proof fn lemma_dup_prefix(symbols: Seq<Symbol>, idents: Seq<Seq<char>>, def_poi: Seq<TextRange>, n: int, m: int)
    requires
        0 <= n <= m,
    ensures
        dup_symbol_diags(symbols, idents, def_poi, n).len() <= dup_symbol_diags(symbols, idents, def_poi, m).len(),
        dup_symbol_diags(symbols, idents, def_poi, m).take(dup_symbol_diags(symbols, idents, def_poi, n).len() as int)
            == dup_symbol_diags(symbols, idents, def_poi, n),
    decreases m - n,
{
    let a = dup_symbol_diags(symbols, idents, def_poi, n);
    if m > n {
        lemma_dup_prefix(symbols, idents, def_poi, n, m - 1);
        let b = dup_symbol_diags(symbols, idents, def_poi, m - 1);
        let c = dup_symbol_diags(symbols, idents, def_poi, m);
        assert(c.take(a.len() as int) =~= b.take(a.len() as int));
    } else {
        assert(a.take(a.len() as int) =~= a);
    }
}

/// Two definitions of a checked kind (function, param, local, type, global,
/// memory, table, field, tag) with the same name, region and index space
/// are both reported as duplicated.
pub proof fn law_same_name_twice_is_reported(
    symbols: Seq<Symbol>,
    idents: Seq<Seq<char>>,
    def_poi: Seq<TextRange>,
    i: int,
    j: int,
)
    requires
        0 <= i < symbols.len(),
        0 <= j < symbols.len(),
        i != j,
        name_checked(symbols[i].kind),
        name_checked(symbols[j].kind),
        symbols[i].idx.name is Some,
        symbols[i].idx.name == symbols[j].idx.name,
        symbols[i].region == symbols[j].region,
        idx_kind_of(symbols[i].kind) == idx_kind_of(symbols[j].kind),
    ensures
        dup_symbol_diag(symbols, i, idents, def_poi) is Some,
        dup_symbol_diag(symbols, j, idents, def_poi) is Some,
        dup_symbol_diags(symbols, idents, def_poi, symbols.len() as int).contains(
            dup_symbol_diag(symbols, i, idents, def_poi).unwrap(),
        ),
        dup_symbol_diags(symbols, idents, def_poi, symbols.len() as int).contains(
            dup_symbol_diag(symbols, j, idents, def_poi).unwrap(),
        ),
{
    lemma_reported_twice(symbols, idents, def_poi, i, j);
    lemma_reported_twice(symbols, idents, def_poi, j, i);
}

proof fn lemma_reported_twice(symbols: Seq<Symbol>, idents: Seq<Seq<char>>, def_poi: Seq<TextRange>, i: int, j: int)
    requires
        0 <= i < symbols.len(),
        0 <= j < symbols.len(),
        i != j,
        name_checked(symbols[i].kind),
        name_checked(symbols[j].kind),
        symbols[i].idx.name is Some,
        symbols[i].idx.name == symbols[j].idx.name,
        symbols[i].region == symbols[j].region,
        idx_kind_of(symbols[i].kind) == idx_kind_of(symbols[j].kind),
    ensures
        dup_symbol_diag(symbols, i, idents, def_poi) is Some,
        dup_symbol_diags(symbols, idents, def_poi, symbols.len() as int).contains(
            dup_symbol_diag(symbols, i, idents, def_poi).unwrap(),
        ),
{
    let n = symbols.len() as int;
    assert(same_name_group(symbols[i], symbols[i]));
    assert(same_name_group(symbols[i], symbols[j]));
    lemma_group_has(symbols, i, i, n);
    lemma_group_has(symbols, i, j, n);
    let g = group_positions(symbols, i, false, n);
    let a = choose|a: int| 0 <= a < g.len() && g[a] == i;
    let b = choose|b: int| 0 <= b < g.len() && g[b] == j;
    assert(a != b);
    assert(g.len() > 1);
    let d = dup_symbol_diag(symbols, i, idents, def_poi).unwrap();
    let before = dup_symbol_diags(symbols, idents, def_poi, i);
    assert(dup_symbol_diags(symbols, idents, def_poi, i + 1) == before.push(d));
    lemma_dup_prefix(symbols, idents, def_poi, i + 1, n);
    let all = dup_symbol_diags(symbols, idents, def_poi, n);
    assert(all[before.len() as int] == all.take(before.len() as int + 1)[before.len() as int]);
}

/// Every duplicated-name report is about a definition of a checked kind
/// that another definition, at another position, shares its name, region
/// and index space with.
pub proof fn law_dup_reports_only_shared_names(
    symbols: Seq<Symbol>,
    idents: Seq<Seq<char>>,
    def_poi: Seq<TextRange>,
    i: int,
)
    requires
        0 <= i < symbols.len(),
        dup_symbol_diag(symbols, i, idents, def_poi) is Some,
    ensures
        name_checked(symbols[i].kind),
        exists|j: int|
            0 <= j < symbols.len() && j != i && name_checked(symbols[j].kind) && symbols[j].idx.name
                == symbols[i].idx.name && symbols[i].idx.name is Some && symbols[j].region == symbols[i].region
                && idx_kind_of(symbols[j].kind) == idx_kind_of(symbols[i].kind),
{
    let n = symbols.len() as int;
    let g = group_positions(symbols, i, false, n);
    assert(g.len() > 1);
    lemma_group_members(symbols, i, n);
    let j = if g[0] != i {
        g[0]
    } else {
        g[1]
    };
    if g[0] == i {
        lemma_group_increasing(symbols, i, n);
        assert(g[0] < g[1]);
    }
    assert(same_name_group(symbols[i], symbols[j]));
}

proof fn lemma_group_members(symbols: Seq<Symbol>, i: int, n: int)
    requires
        0 <= n <= symbols.len(),
    ensures
        forall|x: int|
            0 <= x < group_positions(symbols, i, false, n).len() ==> 0 <= #[trigger] group_positions(
                symbols,
                i,
                false,
                n,
            )[x] < n && same_name_group(symbols[i], symbols[group_positions(symbols, i, false, n)[x]]),
    decreases n,
{
    if n > 0 {
        lemma_group_members(symbols, i, n - 1);
        let prev = group_positions(symbols, i, false, n - 1);
        let cur = group_positions(symbols, i, false, n);
        assert forall|x: int| 0 <= x < cur.len() implies 0 <= #[trigger] cur[x] < n && same_name_group(
            symbols[i],
            symbols[cur[x]],
        ) by {
            if x < prev.len() {
                assert(cur[x] == prev[x]);
            }
        }
    }
}

proof fn lemma_group_increasing(symbols: Seq<Symbol>, i: int, n: int)
    requires
        0 <= n <= symbols.len(),
    ensures
        forall|x: int, y: int|
            0 <= x < y < group_positions(symbols, i, false, n).len() ==> #[trigger] group_positions(
                symbols,
                i,
                false,
                n,
            )[x] < #[trigger] group_positions(symbols, i, false, n)[y],
    decreases n,
{
    if n > 0 {
        lemma_group_increasing(symbols, i, n - 1);
        lemma_group_members(symbols, i, n - 1);
        let prev = group_positions(symbols, i, false, n - 1);
        let cur = group_positions(symbols, i, false, n);
        assert forall|x: int, y: int| 0 <= x < y < cur.len() implies #[trigger] cur[x] < #[trigger] cur[y] by {
            assert(cur[x] == prev[x]);
            if y < prev.len() {
                assert(cur[y] == prev[y]);
            } else {
                assert(cur[y] == n - 1);
                assert(prev[x] < n - 1);
            }
        }
    }
}

// ---------------------------------------------------------------------------
// References that resolve to nothing.

/// The kinds of references: calls, local, type, global, memory, table,
/// field, label, tag, data and element references.
pub open spec fn reference_kinds(kind: SymbolKind) -> bool {
    kind == SymbolKind::Call || kind == SymbolKind::LocalRef || kind == SymbolKind::TypeUse || kind
        == SymbolKind::GlobalRef || kind == SymbolKind::MemoryRef || kind == SymbolKind::TableRef || kind
        == SymbolKind::FieldRef || kind == SymbolKind::BlockRef || kind == SymbolKind::TagRef || kind
        == SymbolKind::DataRef || kind == SymbolKind::ElemRef
}

/// The report on an unresolved reference.
pub open spec fn undef_report(s: Symbol, idents: Seq<Seq<char>>) -> DiagnosticView {
    plain_diag(s.key.0.range, DiagnosticSeverity::Error, "undef"@, undef_message(s.kind, render_idx(s.idx, idents)))
}

proof fn lemma_undef_prefix(symbols: Seq<Symbol>, resolved: Seq<Option<u32>>, idents: Seq<Seq<char>>, n: int, m: int)
    requires
        0 <= n <= m,
    ensures
        undef_diags(symbols, resolved, idents, n).len() <= undef_diags(symbols, resolved, idents, m).len(),
        undef_diags(symbols, resolved, idents, m).take(undef_diags(symbols, resolved, idents, n).len() as int)
            == undef_diags(symbols, resolved, idents, n),
    decreases m - n,
{
    let a = undef_diags(symbols, resolved, idents, n);
    if m > n {
        lemma_undef_prefix(symbols, resolved, idents, n, m - 1);
        let b = undef_diags(symbols, resolved, idents, m - 1);
        let c = undef_diags(symbols, resolved, idents, m);
        assert(c.take(a.len() as int) =~= b.take(a.len() as int));
    } else {
        assert(a.take(a.len() as int) =~= a);
    }
}

/// Every reference, of whatever kind, that resolves to no definition is
/// reported as undefined.
pub proof fn law_unresolved_reference_is_reported(
    symbols: Seq<Symbol>,
    resolved: Seq<Option<u32>>,
    idents: Seq<Seq<char>>,
    i: int,
)
    requires
        0 <= i < symbols.len(),
        i < resolved.len(),
        reference_kinds(symbols[i].kind),
        resolved[i] is None,
    ensures
        undef_diags(symbols, resolved, idents, symbols.len() as int).contains(undef_report(symbols[i], idents)),
{
    let before = undef_diags(symbols, resolved, idents, i);
    assert(undef_diags(symbols, resolved, idents, i + 1) == before.push(undef_report(symbols[i], idents)));
    lemma_undef_prefix(symbols, resolved, idents, i + 1, symbols.len() as int);
    let all = undef_diags(symbols, resolved, idents, symbols.len() as int);
    assert(all[before.len() as int] == all.take(before.len() as int + 1)[before.len() as int]);
}

/// Every undefined report is about a reference that resolves to nothing:
/// definitions and resolved references are never reported.
pub proof fn law_undef_reports_only_unresolved_references(
    symbols: Seq<Symbol>,
    resolved: Seq<Option<u32>>,
    idents: Seq<Seq<char>>,
    n: int,
)
    requires
        0 <= n <= symbols.len(),
        n <= resolved.len(),
    ensures
        forall|x: int|
            0 <= x < undef_diags(symbols, resolved, idents, n).len() ==> exists|k: int|
                0 <= k < n && reference_kinds(symbols[k].kind) && resolved[k] is None && #[trigger] undef_diags(
                    symbols,
                    resolved,
                    idents,
                    n,
                )[x] == undef_report(symbols[k], idents),
    decreases n,
{
    if n > 0 {
        law_undef_reports_only_unresolved_references(symbols, resolved, idents, n - 1);
        let prev = undef_diags(symbols, resolved, idents, n - 1);
        let cur = undef_diags(symbols, resolved, idents, n);
        assert forall|x: int| 0 <= x < cur.len() implies exists|k: int|
            0 <= k < n && reference_kinds(symbols[k].kind) && resolved[k] is None && #[trigger] cur[x]
                == undef_report(symbols[k], idents) by {
            if x < prev.len() {
                assert(cur[x] == prev[x]);
                let k = choose|k: int|
                    0 <= k < n - 1 && reference_kinds(symbols[k].kind) && resolved[k] is None && #[trigger] prev[x]
                        == undef_report(symbols[k], idents);
            } else {
                assert(cur[x] == undef_report(symbols[n - 1], idents));
            }
        }
    }
}

} // verus!
