//! Building the symbol table of a document from its syntax tree: the
//! definitions of each module, the references found in its fields and
//! instructions, and what each reference resolves to.

use crate::binder::{
    declared_keys, has_key, index_of_key, key_list_from_vec, symbol_of_key, ModuleDefSymbols, Symbol,
    SymbolKey, SymbolKind, SymbolTable, Symbols,
};
use crate::idx::{Idx, InternIdent};
use crate::checker::omitted_idx::{memory_before_arg, takes_memory_before_arg};
use crate::syntax::{
    child_nodes, child_nodes_of, child_token_of, SyntaxElement, SyntaxKind, SyntaxNode, SyntaxNodePtr, SyntaxToken,
};
use crate::text::{parse_uint, parse_uint_spec, str_eq, ParsedUint};
use vstd::utf8::encode_utf8;
use vstd::prelude::*;

verus! {

/// A definition of an index space: its key, its identifier, and its
/// position among the symbols.
pub type Def = (SymbolKey, Option<InternIdent>, u32);

/// The index spaces that definitions are counted in.
#[derive(Clone, Copy, Debug, PartialEq, Eq, Structural)]
pub enum Space {
    Func,
    Local,
    Type,
    Global,
    Memory,
    Table,
    Field,
    Tag,
    Data,
    Elem,
}

/// The next index of each space.
#[derive(Clone, Copy, Debug, PartialEq, Eq, Structural)]
pub struct Counters {
    pub func: u32,
    pub local: u32,
    pub ty: u32,
    pub global: u32,
    pub memory: u32,
    pub table: u32,
    pub field: u32,
    pub tag: u32,
    pub data: u32,
    pub elem: u32,
}

/// The next index of a space.
pub open spec fn counter(c: Counters, space: Space) -> u32 {
    match space {
        Space::Func => c.func,
        Space::Local => c.local,
        Space::Type => c.ty,
        Space::Global => c.global,
        Space::Memory => c.memory,
        Space::Table => c.table,
        Space::Field => c.field,
        Space::Tag => c.tag,
        Space::Data => c.data,
        Space::Elem => c.elem,
    }
}

/// The counters with the one of a space set.
pub open spec fn set_counter(c: Counters, space: Space, v: u32) -> Counters {
    match space {
        Space::Func => Counters { func: v, ..c },
        Space::Local => Counters { local: v, ..c },
        Space::Type => Counters { ty: v, ..c },
        Space::Global => Counters { global: v, ..c },
        Space::Memory => Counters { memory: v, ..c },
        Space::Table => Counters { table: v, ..c },
        Space::Field => Counters { field: v, ..c },
        Space::Tag => Counters { tag: v, ..c },
        Space::Data => Counters { data: v, ..c },
        Space::Elem => Counters { elem: v, ..c },
    }
}

/// All counters at zero.
pub open spec fn zero_counters() -> Counters {
    Counters { func: 0, local: 0, ty: 0, global: 0, memory: 0, table: 0, field: 0, tag: 0, data: 0, elem: 0 }
}

/// What building a symbol table has gathered so far.
pub struct BindView {
    /// Symbols of all modules so far, in the order they were found.
    pub symbols: Seq<Symbol>,
    /// The identifier table.
    pub idents: Seq<Seq<char>>,
    /// Definitions of the current module, by index space.
    pub funcs: Seq<Def>,
    pub locals: Seq<Def>,
    pub types: Seq<Def>,
    pub globals: Seq<Def>,
    pub memories: Seq<Def>,
    pub tables: Seq<Def>,
    pub tags: Seq<Def>,
    pub datas: Seq<Def>,
    pub elems: Seq<Def>,
    /// Fields of the struct type definitions of the current module, each
    /// with the key of its type definition, in the order they were found.
    pub fields: Seq<(SymbolKey, Def)>,
    /// Local references by number that may name a parameter of the
    /// function's type: the key of the type's index, the reference's
    /// position, and the number.
    pub indirect: Seq<(SymbolKey, u32, u32)>,
    /// Positions of references already resolved while walking, with the key
    /// of their definition.
    pub pre_resolved: Seq<(u32, SymbolKey)>,
    pub counters: Counters,
    /// Whether a position or an index would have left `u32`.
    pub full: bool,
}

/// The definitions of a space.
pub open spec fn defs_of(st: BindView, space: Space) -> Seq<Def> {
    match space {
        Space::Func => st.funcs,
        Space::Local => st.locals,
        Space::Type => st.types,
        Space::Global => st.globals,
        Space::Memory => st.memories,
        Space::Table => st.tables,
        Space::Tag => st.tags,
        Space::Data => st.datas,
        Space::Elem => st.elems,
        Space::Field => seq![],
    }
}

/// The state with a definition added to a space (fields are kept apart).
pub open spec fn push_def(st: BindView, space: Space, d: Def) -> BindView {
    match space {
        Space::Func => BindView { funcs: st.funcs.push(d), ..st },
        Space::Local => BindView { locals: st.locals.push(d), ..st },
        Space::Type => BindView { types: st.types.push(d), ..st },
        Space::Global => BindView { globals: st.globals.push(d), ..st },
        Space::Memory => BindView { memories: st.memories.push(d), ..st },
        Space::Table => BindView { tables: st.tables.push(d), ..st },
        Space::Tag => BindView { tags: st.tags.push(d), ..st },
        Space::Data => BindView { datas: st.datas.push(d), ..st },
        Space::Elem => BindView { elems: st.elems.push(d), ..st },
        Space::Field => st,
    }
}

/// Takes the next index of a space; the state turns full when it would
/// leave `u32`.
pub open spec fn take_index(st: BindView, space: Space) -> (BindView, u32) {
    let v = counter(st.counters, space);
    if v == u32::MAX {
        (BindView { full: true, ..st }, 0)
    } else {
        (BindView { counters: set_counter(st.counters, space, (v + 1) as u32), ..st }, v)
    }
}

/// Adds a symbol whose key is new; a taken key adds nothing, and the state
/// turns full when positions would leave `u32`. Also says whether it was
/// added.
pub open spec fn add_symbol(st: BindView, s: Symbol) -> (BindView, bool) {
    if st.full {
        (st, false)
    } else if st.symbols.len() + 2 >= u32::MAX {
        (BindView { full: true, ..st }, false)
    } else if has_key(st.symbols, s.key) {
        (st, false)
    } else {
        (BindView { symbols: st.symbols.push(s), ..st }, true)
    }
}

/// Position of the first of the first `n` texts equal to `text`.
pub open spec fn find_text(idents: Seq<Seq<char>>, text: Seq<char>, n: int) -> Option<int>
    decreases n,
{
    if n <= 0 {
        None
    } else {
        match find_text(idents, text, n - 1) {
            Some(i) => Some(i),
            None => if idents[n - 1] == text {
                Some(n - 1)
            } else {
                None
            },
        }
    }
}

/// The interned identifier of a text: where it already stands in the
/// table, else a new entry; the state turns full when the table would
/// leave `u32`.
pub open spec fn intern_text(st: BindView, text: Seq<char>) -> (BindView, InternIdent) {
    match find_text(st.idents, text, st.idents.len() as int) {
        Some(i) => (st, InternIdent(i as u32)),
        None => if st.idents.len() + 1 >= u32::MAX {
            (BindView { full: true, ..st }, InternIdent(0))
        } else {
            (BindView { idents: st.idents.push(text), ..st }, InternIdent(st.idents.len() as u32))
        },
    }
}

/// Whether a state keeps the symbols of another, in their places, and
/// stays full once it is.
pub open spec fn grows(a: BindView, b: BindView) -> bool {
    &&& a.symbols.len() <= b.symbols.len()
    &&& forall|i: int| 0 <= i < a.symbols.len() ==> #[trigger] b.symbols[i] == a.symbols[i]
    &&& (a.full ==> b.full)
}

/// Whether a state keeps the keys and kinds of the symbols of another, in
/// their places, and stays full once it is.
pub open spec fn keeps(a: BindView, b: BindView) -> bool {
    &&& a.symbols.len() <= b.symbols.len()
    &&& forall|i: int|
        0 <= i < a.symbols.len() ==> (#[trigger] b.symbols[i]).key == a.symbols[i].key && b.symbols[i].kind
            == a.symbols[i].kind
    &&& (a.full ==> b.full)
}

/// Kinds of the symbols that refer to a definition.
pub open spec fn is_reference(kind: SymbolKind) -> bool {
    kind == SymbolKind::Call || kind == SymbolKind::LocalRef || kind == SymbolKind::TypeUse || kind
        == SymbolKind::GlobalRef || kind == SymbolKind::MemoryRef || kind == SymbolKind::TableRef || kind
        == SymbolKind::BlockRef || kind == SymbolKind::FieldRef || kind == SymbolKind::TagRef || kind
        == SymbolKind::DataRef || kind == SymbolKind::ElemRef
}

/// Whether only references are resolved.
pub open spec fn refs_only(resolved: Seq<Option<u32>>, symbols: Seq<Symbol>) -> bool {
    forall|i: int|
        0 <= i < resolved.len() && (#[trigger] resolved[i]) is Some ==> i < symbols.len() && is_reference(
            symbols[i].kind,
        )
}

/// Whether every pending binding of a local reference by number points at
/// a local reference.
pub open spec fn indirect_ok(st: BindView) -> bool {
    forall|k: int|
        0 <= k < st.indirect.len() ==> (#[trigger] st.indirect[k]).1 < st.symbols.len() && st.symbols[st.indirect[k].1 as int].kind
            == SymbolKind::LocalRef
}

/// The key of a node.
pub open spec fn node_key(node: SyntaxNode) -> SymbolKey {
    SymbolKey(SyntaxNodePtr { kind: node.kind, range: node.range })
}

/// A builder of symbol tables.
pub struct Binder {
    pub symbols: Symbols,
    pub idents: Vec<String>,
    pub funcs: Vec<Def>,
    pub locals: Vec<Def>,
    pub types: Vec<Def>,
    pub globals: Vec<Def>,
    pub memories: Vec<Def>,
    pub tables: Vec<Def>,
    pub tags: Vec<Def>,
    pub datas: Vec<Def>,
    pub elems: Vec<Def>,
    pub fields: Vec<(SymbolKey, Def)>,
    pub indirect: Vec<(SymbolKey, u32, u32)>,
    pub pre_resolved: Vec<(u32, SymbolKey)>,
    pub counters: Counters,
    pub full: bool,
}

impl View for Binder {
    type V = BindView;

    open spec fn view(&self) -> BindView {
        BindView {
            symbols: self.symbols@,
            idents: self.idents@.map_values(|s: String| s@),
            funcs: self.funcs@,
            locals: self.locals@,
            types: self.types@,
            globals: self.globals@,
            memories: self.memories@,
            tables: self.tables@,
            tags: self.tags@,
            datas: self.datas@,
            elems: self.elems@,
            fields: self.fields@,
            indirect: self.indirect@,
            pre_resolved: self.pre_resolved@,
            counters: self.counters,
            full: self.full,
        }
    }
}

impl Binder {
    /// The symbol collection is well formed.
    pub open spec fn inv(&self) -> bool {
        &&& self.symbols.wf()
        &&& indirect_ok(self@)
    }

    fn take_index(&mut self, space: Space) -> (r: u32)
        ensures
            (final(self)@, r) == take_index(old(self)@, space),
            final(self).symbols == old(self).symbols,
    {
        let v = match space {
            Space::Func => self.counters.func,
            Space::Local => self.counters.local,
            Space::Type => self.counters.ty,
            Space::Global => self.counters.global,
            Space::Memory => self.counters.memory,
            Space::Table => self.counters.table,
            Space::Field => self.counters.field,
            Space::Tag => self.counters.tag,
            Space::Data => self.counters.data,
            Space::Elem => self.counters.elem,
        };
        if v == u32::MAX {
            self.full = true;
            return 0;
        }
        let n = v + 1;
        match space {
            Space::Func => self.counters.func = n,
            Space::Local => self.counters.local = n,
            Space::Type => self.counters.ty = n,
            Space::Global => self.counters.global = n,
            Space::Memory => self.counters.memory = n,
            Space::Table => self.counters.table = n,
            Space::Field => self.counters.field = n,
            Space::Tag => self.counters.tag = n,
            Space::Data => self.counters.data = n,
            Space::Elem => self.counters.elem = n,
        }
        v
    }

    fn reset(&mut self, space: Space)
        ensures
            final(self)@ == (BindView { counters: set_counter(old(self)@.counters, space, 0), ..old(self)@ }),
            final(self).symbols == old(self).symbols,
    {
        match space {
            Space::Func => self.counters.func = 0,
            Space::Local => self.counters.local = 0,
            Space::Type => self.counters.ty = 0,
            Space::Global => self.counters.global = 0,
            Space::Memory => self.counters.memory = 0,
            Space::Table => self.counters.table = 0,
            Space::Field => self.counters.field = 0,
            Space::Tag => self.counters.tag = 0,
            Space::Data => self.counters.data = 0,
            Space::Elem => self.counters.elem = 0,
        }
    }

    fn push_def(&mut self, space: Space, d: Def)
        ensures
            final(self)@ == push_def(old(self)@, space, d),
            final(self).symbols == old(self).symbols,
    {
        match space {
            Space::Func => self.funcs.push(d),
            Space::Local => self.locals.push(d),
            Space::Type => self.types.push(d),
            Space::Global => self.globals.push(d),
            Space::Memory => self.memories.push(d),
            Space::Table => self.tables.push(d),
            Space::Tag => self.tags.push(d),
            Space::Data => self.datas.push(d),
            Space::Elem => self.elems.push(d),
            Space::Field => {},
        }
    }

    fn add_symbol(&mut self, s: Symbol) -> (r: bool)
        requires
            old(self).inv(),
        ensures
            final(self).inv(),
            grows(old(self)@, final(self)@),
            (final(self)@, r) == add_symbol(old(self)@, s),
    {
        if self.full {
            return false;
        }
        if self.symbols.len() >= 0xffff_fffdusize {
            self.full = true;
            return false;
        }
        match self.symbols.get_index_of(s.key) {
            Some(_) => false,
            None => {
                self.symbols.insert(s);
                true
            },
        }
    }

    fn intern(&mut self, text: &str) -> (r: InternIdent)
        ensures
            (final(self)@, r) == intern_text(old(self)@, text@),
            final(self).symbols == old(self).symbols,
    {
        let ghost texts = self.idents@.map_values(|s: String| s@);
        let mut i: usize = 0;
        while i < self.idents.len()
            invariant
                i <= self.idents@.len(),
                texts == self.idents@.map_values(|s: String| s@),
                find_text(texts, text@, i as int) is None,
            decreases self.idents@.len() - i,
        {
            if str_eq(self.idents[i].as_str(), text) {
                proof {
                    lemma_find_text_stable(texts, text@, i + 1, texts.len() as int);
                }
                return InternIdent(i as u32);
            }
            i = i + 1;
        }
        if self.idents.len() >= 0xffff_fffeusize {
            self.full = true;
            return InternIdent(0);
        }
        let n = self.idents.len() as u32;
        self.idents.push(String::from_str(text));
        assert(self.idents@.map_values(|s: String| s@) =~= texts.push(text@));
        InternIdent(n)
    }
}

proof fn lemma_find_text_stable(idents: Seq<Seq<char>>, text: Seq<char>, a: int, n: int)
    requires
        0 <= a <= n,
        find_text(idents, text, a) is Some,
    ensures
        find_text(idents, text, n) == find_text(idents, text, a),
    decreases n - a,
{
    if n > a {
        lemma_find_text_stable(idents, text, a, n - 1);
    }
}

/// The number a token of digits denotes, when it fits in `u32`.
pub open spec fn token_number(t: SyntaxToken) -> Option<u32> {
    match parse_uint_spec(encode_utf8(t.text@), u32::MAX as nat) {
        ParsedUint::Value(v) => Some(v as u32),
        _ => None,
    }
}

/// Whether a child can name what a reference refers to: an identifier
/// token, or an integer token whose number fits in `u32`.
pub open spec fn names_ref(e: SyntaxElement) -> bool {
    match e {
        SyntaxElement::Token(t) => t.kind == SyntaxKind::IDENT || ((t.kind == SyntaxKind::UNSIGNED_INT || t.kind
            == SyntaxKind::INT) && token_number(t) is Some),
        _ => false,
    }
}

/// The first of the first `n` children that names a reference.
pub open spec fn first_ref_token(children: Seq<SyntaxElement>, n: int) -> Option<SyntaxToken>
    decreases n,
{
    if n <= 0 {
        None
    } else {
        match first_ref_token(children, n - 1) {
            Some(t) => Some(t),
            None => match children[n - 1] {
                SyntaxElement::Token(t) => if names_ref(children[n - 1]) {
                    Some(t)
                } else {
                    None
                },
                _ => None,
            },
        }
    }
}

/// The symbol of a definition keyed by `node`, numbered `id`, named by the
/// first identifier of `name_node`.
pub open spec fn named_def(
    st: BindView,
    node: SyntaxNode,
    id: u32,
    kind: SymbolKind,
    region: SymbolKey,
    name_node: SyntaxNode,
) -> (BindView, Symbol) {
    match child_token_of(name_node, SyntaxKind::IDENT) {
        Some(t) => {
            let (st1, n) = intern_text(st, t.text@);
            (st1, Symbol { key: node_key(node), region, kind, idx: Idx { num: Some(id), name: Some(n) } })
        },
        None => (st, Symbol { key: node_key(node), region, kind, idx: Idx { num: Some(id), name: None } }),
    }
}

/// The reference that `node` makes through its first token naming one: by
/// identifier or by number; none when no token names one.
pub open spec fn ref_symbol(st: BindView, node: SyntaxNode, region: SymbolKey, kind: SymbolKind) -> (
    BindView,
    Option<Symbol>,
) {
    match first_ref_token(node.children@, node.children@.len() as int) {
        Some(t) => if t.kind == SyntaxKind::IDENT {
            let (st1, n) = intern_text(st, t.text@);
            (st1, Some(Symbol { key: node_key(node), region, kind, idx: Idx { num: None, name: Some(n) } }))
        } else {
            (
                st,
                Some(
                    Symbol {
                        key: node_key(node),
                        region,
                        kind,
                        idx: Idx { num: Some(token_number(t).unwrap()), name: None },
                    },
                ),
            )
        },
        None => (st, None),
    }
}

/// The reference of an optional node, or else one to index 0 keyed by
/// `fallback`.
pub open spec fn optional_ref(
    st: BindView,
    node: Option<SyntaxNode>,
    fallback: SyntaxNode,
    region: SymbolKey,
    kind: SymbolKind,
) -> (BindView, Symbol) {
    let (st1, r) = match node {
        Some(n) => ref_symbol(st, n, region, kind),
        None => (st, None),
    };
    match r {
        Some(s) => (st1, s),
        None => (st1, Symbol { key: node_key(fallback), region, kind, idx: Idx { num: Some(0), name: None } }),
    }
}

/// Adds the reference that `node` makes, if any.
pub open spec fn add_ref(st: BindView, node: SyntaxNode, region: SymbolKey, kind: SymbolKind) -> BindView {
    let (st1, r) = ref_symbol(st, node, region, kind);
    match r {
        Some(s) => add_symbol(st1, s).0,
        None => st1,
    }
}

proof fn lemma_first_ref_token_stable(children: Seq<SyntaxElement>, a: int, n: int)
    requires
        0 <= a <= n,
        first_ref_token(children, a) is Some,
    ensures
        first_ref_token(children, n) == first_ref_token(children, a),
    decreases n - a,
{
    if n > a {
        lemma_first_ref_token_stable(children, a, n - 1);
    }
}

proof fn lemma_first_ref_token_names(children: Seq<SyntaxElement>, n: int)
    requires
        n <= children.len(),
    ensures
        first_ref_token(children, n) matches Some(t) ==> t.kind == SyntaxKind::IDENT || token_number(t) is Some,
    decreases n,
{
    if n > 0 {
        lemma_first_ref_token_names(children, n - 1);
    }
}

fn number_of(t: &SyntaxToken) -> (r: Option<u32>)
    ensures
        r == token_number(*t),
{
    match parse_uint(t.text.as_str(), 0xffff_ffffu64) {
        ParsedUint::Value(v) => Some(v as u32),
        _ => None,
    }
}

fn find_ref_token(node: &SyntaxNode) -> (r: Option<(&SyntaxToken, Option<u32>)>)
    ensures
        match first_ref_token(node.children@, node.children@.len() as int) {
            Some(t) => r matches Some((x, n)) && *x == t && n == (if t.kind == SyntaxKind::IDENT {
                None
            } else {
                token_number(t)
            }),
            None => r is None,
        },
{
    let mut i: usize = 0;
    while i < node.children.len()
        invariant
            i <= node.children@.len(),
            first_ref_token(node.children@, i as int) is None,
        decreases node.children@.len() - i,
    {
        match &node.children[i] {
            SyntaxElement::Token(t) => {
                if t.kind == SyntaxKind::IDENT {
                    proof {
                        lemma_first_ref_token_stable(node.children@, i + 1, node.children@.len() as int);
                    }
                    return Some((t, None));
                }
                if t.kind == SyntaxKind::UNSIGNED_INT || t.kind == SyntaxKind::INT {
                    let n = number_of(t);
                    if n.is_some() {
                        proof {
                            lemma_first_ref_token_stable(node.children@, i + 1, node.children@.len() as int);
                        }
                        return Some((t, n));
                    }
                }
            },
            SyntaxElement::Node(_) => {},
        }
        i = i + 1;
    }
    None
}

impl Binder {
    fn named_def(
        &mut self,
        node: &SyntaxNode,
        id: u32,
        kind: SymbolKind,
        region: SymbolKey,
        name_node: &SyntaxNode,
    ) -> (r: Symbol)
        ensures
            (final(self)@, r) == named_def(old(self)@, *node, id, kind, region, *name_node),
            final(self).symbols == old(self).symbols,
    {
        let key = SymbolKey(node.to_ptr());
        match name_node.token_of_kind(SyntaxKind::IDENT) {
            Some(t) => {
                let n = self.intern(t.text.as_str());
                Symbol { key, region, kind, idx: Idx { num: Some(id), name: Some(n) } }
            },
            None => Symbol { key, region, kind, idx: Idx { num: Some(id), name: None } },
        }
    }

    fn ref_symbol(&mut self, node: &SyntaxNode, region: SymbolKey, kind: SymbolKind) -> (r: Option<Symbol>)
        ensures
            (final(self)@, r) == ref_symbol(old(self)@, *node, region, kind),
            final(self).symbols == old(self).symbols,
    {
        let key = SymbolKey(node.to_ptr());
        proof {
            lemma_first_ref_token_names(node.children@, node.children@.len() as int);
        }
        match find_ref_token(node) {
            Some((t, n)) => {
                if t.kind == SyntaxKind::IDENT {
                    let name = self.intern(t.text.as_str());
                    Some(Symbol { key, region, kind, idx: Idx { num: None, name: Some(name) } })
                } else {
                    Some(Symbol { key, region, kind, idx: Idx { num: n, name: None } })
                }
            },
            None => None,
        }
    }

    fn optional_ref(
        &mut self,
        node: Option<&SyntaxNode>,
        fallback: &SyntaxNode,
        region: SymbolKey,
        kind: SymbolKind,
    ) -> (r: Symbol)
        ensures
            (final(self)@, r) == optional_ref(
                old(self)@,
                match node {
                    Some(n) => Some(*n),
                    None => None,
                },
                *fallback,
                region,
                kind,
            ),
            final(self).symbols == old(self).symbols,
    {
        let r = match node {
            Some(n) => self.ref_symbol(n, region, kind),
            None => None,
        };
        match r {
            Some(s) => s,
            None => Symbol {
                key: SymbolKey(fallback.to_ptr()),
                region,
                kind,
                idx: Idx { num: Some(0), name: None },
            },
        }
    }

    fn add_ref(&mut self, node: &SyntaxNode, region: SymbolKey, kind: SymbolKind)
        requires
            old(self).inv(),
        ensures
            final(self).inv(),
            grows(old(self)@, final(self)@),
            final(self)@ == add_ref(old(self)@, *node, region, kind),
    {
        match self.ref_symbol(node, region, kind) {
            Some(s) => {
                self.add_symbol(s);
            },
            None => {},
        }
    }
}

/// Kinds of the structured blocks.
pub open spec fn is_block(kind: SyntaxKind) -> bool {
    kind == SyntaxKind::BLOCK_BLOCK || kind == SyntaxKind::BLOCK_LOOP || kind == SyntaxKind::BLOCK_IF || kind
        == SyntaxKind::BLOCK_TRY_TABLE
}

/// Kinds that a branch label can name: the blocks and the function.
pub open spec fn is_label_scope(kind: SyntaxKind) -> bool {
    is_block(kind) || kind == SyntaxKind::MODULE_FIELD_FUNC
}

/// The label scopes among the first `n` ancestors, innermost first.
pub open spec fn up_blocks(stack: Seq<SyntaxNode>, n: int) -> Seq<SyntaxNode>
    decreases n,
{
    if n <= 0 {
        seq![]
    } else if is_label_scope(stack[n - 1].kind) {
        seq![stack[n - 1]] + up_blocks(stack, n - 1)
    } else {
        up_blocks(stack, n - 1)
    }
}

/// The label scopes of the ancestors, innermost first.
pub open spec fn scopes(stack: Seq<SyntaxNode>) -> Seq<SyntaxNode> {
    up_blocks(stack, stack.len() as int)
}

/// A sequence without its first element, if it has one.
pub open spec fn skip_first<T>(s: Seq<T>) -> Seq<T> {
    if s.len() > 0 {
        s.drop_first()
    } else {
        s
    }
}

/// The first of the first `n` scopes that is a block whose symbol carries
/// the identifier.
pub open spec fn first_named_block(blocks: Seq<SyntaxNode>, symbols: Seq<Symbol>, name: InternIdent, n: int) -> Option<
    SyntaxNode,
>
    decreases n,
{
    if n <= 0 {
        None
    } else {
        match first_named_block(blocks, symbols, name, n - 1) {
            Some(b) => Some(b),
            None => {
                let b = blocks[n - 1];
                if is_block(b.kind) && (symbol_of_key(symbols, node_key(b)) matches Some(s) && s.idx.name == Some(
                    name,
                )) {
                    Some(b)
                } else {
                    None
                }
            },
        }
    }
}

/// The block a branch label refers to: by depth among the enclosing scopes
/// (the innermost left out when `skip_current`), or by the identifier of a
/// block.
pub open spec fn resolve_block(symbol: Symbol, symbols: Seq<Symbol>, stack: Seq<SyntaxNode>, skip_current: bool) -> Option<
    SymbolKey,
> {
    let blocks = if skip_current {
        skip_first(scopes(stack))
    } else {
        scopes(stack)
    };
    match symbol.idx.num {
        Some(n) => if (n as int) < blocks.len() {
            Some(node_key(blocks[n as int]))
        } else {
            None
        },
        None => match symbol.idx.name {
            Some(name) => match first_named_block(blocks, symbols, name, blocks.len() as int) {
                Some(b) => Some(node_key(b)),
                None => None,
            },
            None => None,
        },
    }
}

/// The first of the first `n` definitions with the identifier.
pub open spec fn first_named_def(defs: Seq<Def>, name: InternIdent, n: int) -> Option<Def>
    decreases n,
{
    if n <= 0 {
        None
    } else {
        match first_named_def(defs, name, n - 1) {
            Some(d) => Some(d),
            None => if defs[n - 1].1 == Some(name) {
                Some(defs[n - 1])
            } else {
                None
            },
        }
    }
}

/// The definition an index names: by number when it is in range, else by
/// identifier.
pub open spec fn search_def(defs: Seq<Def>, idx: Idx) -> Option<Def> {
    match idx.num {
        Some(n) if (n as int) < defs.len() => Some(defs[n as int]),
        _ => match idx.name {
            Some(name) => first_named_def(defs, name, defs.len() as int),
            None => None,
        },
    }
}

/// The nodes of a stack of references.
pub open spec fn stack_nodes(stack: Seq<&SyntaxNode>) -> Seq<SyntaxNode> {
    stack.map_values(|n: &SyntaxNode| *n)
}

proof fn lemma_first_named_def_stable(defs: Seq<Def>, name: InternIdent, a: int, n: int)
    requires
        0 <= a <= n,
        first_named_def(defs, name, a) is Some,
    ensures
        first_named_def(defs, name, n) == first_named_def(defs, name, a),
    decreases n - a,
{
    if n > a {
        lemma_first_named_def_stable(defs, name, a, n - 1);
    }
}

proof fn lemma_first_named_block_stable(
    blocks: Seq<SyntaxNode>,
    symbols: Seq<Symbol>,
    name: InternIdent,
    a: int,
    n: int,
)
    requires
        0 <= a <= n,
        first_named_block(blocks, symbols, name, a) is Some,
    ensures
        first_named_block(blocks, symbols, name, n) == first_named_block(blocks, symbols, name, a),
    decreases n - a,
{
    if n > a {
        lemma_first_named_block_stable(blocks, symbols, name, a, n - 1);
    }
}

/// Looks up the definition an index names: see `search_def`.
pub fn find_def_of(defs: &Vec<Def>, idx: Idx) -> (r: Option<Def>)
    ensures
        r == search_def(defs@, idx),
{
    match idx.num {
        Some(n) => {
            if (n as usize) < defs.len() {
                return Some(defs[n as usize]);
            }
        },
        None => {},
    }
    match idx.name {
        Some(name) => {
            let mut i: usize = 0;
            while i < defs.len()
                invariant
                    i <= defs@.len(),
                    first_named_def(defs@, name, i as int) is None,
                    !(idx.num matches Some(n) && (n as int) < defs@.len()),
                    idx.name == Some(name),
                decreases defs@.len() - i,
            {
                let matches = match defs[i].1 {
                    Some(m) => m == name,
                    None => false,
                };
                if matches {
                    proof {
                        lemma_first_named_def_stable(defs@, name, i + 1, defs@.len() as int);
                    }
                    return Some(defs[i]);
                }
                i = i + 1;
            }
            None
        },
        None => None,
    }
}

/// The label scopes of the ancestors, innermost first.
fn scope_list<'a>(stack: &Vec<&'a SyntaxNode>) -> (r: Vec<&'a SyntaxNode>)
    ensures
        stack_nodes(r@) == scopes(stack_nodes(stack@)),
{
    let ghost all = stack_nodes(stack@);
    let mut r: Vec<&'a SyntaxNode> = Vec::new();
    let mut k = stack.len();
    while k > 0
        invariant
            k <= stack@.len(),
            all == stack_nodes(stack@),
            stack_nodes(r@) + up_blocks(all, k as int) == up_blocks(all, all.len() as int),
        decreases k,
    {
        let n = stack[k - 1];
        assert(all[k - 1] == *n);
        if n.kind == SyntaxKind::BLOCK_BLOCK || n.kind == SyntaxKind::BLOCK_LOOP || n.kind == SyntaxKind::BLOCK_IF
            || n.kind == SyntaxKind::BLOCK_TRY_TABLE || n.kind == SyntaxKind::MODULE_FIELD_FUNC {
            let ghost before = stack_nodes(r@);
            r.push(n);
            assert(stack_nodes(r@) =~= before.push(*n));
            assert(stack_nodes(r@) + up_blocks(all, k - 1) =~= before + (seq![*n] + up_blocks(all, k - 1)));
        }
        k = k - 1;
    }
    assert(stack_nodes(r@) + up_blocks(all, 0) =~= stack_nodes(r@));
    r
}

/// Finds the block a branch label refers to: see `resolve_block`.
fn resolve_block_def(symbol: &Symbol, symbols: &Symbols, stack: &Vec<&SyntaxNode>, skip_current: bool) -> (r: Option<
    SymbolKey,
>)
    requires
        symbols.wf(),
    ensures
        r == resolve_block(*symbol, symbols@, stack_nodes(stack@), skip_current),
{
    let all = scope_list(stack);
    let ghost full = stack_nodes(all@);
    let start: usize = if skip_current && all.len() > 0 {
        1
    } else {
        0
    };
    let ghost blocks = full.subrange(start as int, full.len() as int);
    proof {
        if skip_current && full.len() > 0 {
            assert(blocks =~= skip_first(full));
        } else {
            assert(blocks =~= full);
        }
    }
    match symbol.idx.num {
        Some(n) => {
            if (n as usize) < all.len() - start {
                let b = all[start + n as usize];
                assert(blocks[n as int] == *b);
                return Some(SymbolKey(b.to_ptr()));
            }
            return None;
        },
        None => {},
    }
    match symbol.idx.name {
        Some(name) => {
            let mut i: usize = start;
            while i < all.len()
                invariant
                    start <= i <= all@.len(),
                    full == stack_nodes(all@),
                    blocks == full.subrange(start as int, full.len() as int),
                    symbols.wf(),
                    first_named_block(blocks, symbols@, name, i - start) is None,
                    symbol.idx.num is None,
                    symbol.idx.name == Some(name),
                    blocks == (if skip_current {
                        skip_first(scopes(stack_nodes(stack@)))
                    } else {
                        scopes(stack_nodes(stack@))
                    }),
                decreases all@.len() - i,
            {
                let b = all[i];
                assert(blocks[i - start] == *b);
                if b.kind == SyntaxKind::BLOCK_BLOCK || b.kind == SyntaxKind::BLOCK_LOOP || b.kind
                    == SyntaxKind::BLOCK_IF || b.kind == SyntaxKind::BLOCK_TRY_TABLE {
                    match symbols.get(SymbolKey(b.to_ptr())) {
                        Some(s) => {
                            let matches = match s.idx.name {
                                Some(m) => m == name,
                                None => false,
                            };
                            if matches {
                                proof {
                                    lemma_first_named_block_stable(
                                        blocks,
                                        symbols@,
                                        name,
                                        i - start + 1,
                                        blocks.len() as int,
                                    );
                                }
                                return Some(SymbolKey(b.to_ptr()));
                            }
                        },
                        None => {},
                    }
                }
                i = i + 1;
            }
            None
        },
        None => None,
    }
}

/// Adds a definition keyed by `node` to a space: it takes the next index of
/// the space and is named by `name_node`'s first identifier.
pub open spec fn add_def(
    st: BindView,
    node: SyntaxNode,
    space: Space,
    kind: SymbolKind,
    region: SymbolKey,
    name_node: SyntaxNode,
) -> BindView {
    let (st1, id) = take_index(st, space);
    let (st2, sym) = named_def(st1, node, id, kind, region, name_node);
    let pos = st2.symbols.len();
    let (st3, added) = add_symbol(st2, sym);
    if added {
        push_def(st3, space, (sym.key, sym.idx.name, pos as u32))
    } else {
        st3
    }
}

/// Adds a parameter or local without identifier for each value type among
/// the first `n` nodes.
pub open spec fn add_unnamed(
    st: BindView,
    nodes: Seq<SyntaxNode>,
    region: SymbolKey,
    kind: SymbolKind,
    n: int,
) -> BindView
    decreases n,
{
    if n <= 0 {
        st
    } else {
        let st0 = add_unnamed(st, nodes, region, kind, n - 1);
        let c = nodes[n - 1];
        if is_value_type(c.kind) {
            let pos = st0.symbols.len();
            let (st1, id) = take_index(st0, Space::Local);
            let sym = Symbol { key: node_key(c), region, kind, idx: Idx { num: Some(id), name: None } };
            let (st2, added) = add_symbol(st1, sym);
            if added {
                push_def(st2, Space::Local, (sym.key, None, pos as u32))
            } else {
                st2
            }
        } else {
            st0
        }
    }
}

/// Kinds of value types.
pub open spec fn is_value_type(kind: SyntaxKind) -> bool {
    kind == SyntaxKind::NUM_TYPE || kind == SyntaxKind::VEC_TYPE || kind == SyntaxKind::REF_TYPE
}

/// Adds a parameter or a local: one symbol named by the identifier, or one
/// per value type when there is none. A named parameter of a type
/// definition carries no identifier in its index.
pub open spec fn add_local(st: BindView, node: SyntaxNode, region_node: SyntaxNode, kind: SymbolKind) -> BindView {
    let region = node_key(region_node);
    match child_token_of(node, SyntaxKind::IDENT) {
        Some(t) => {
            let (st1, id) = take_index(st, Space::Local);
            let (st2, name) = intern_text(st1, t.text@);
            let pos = st2.symbols.len();
            let sym = Symbol {
                key: node_key(node),
                region,
                kind,
                idx: Idx {
                    num: Some(id),
                    name: if kind == SymbolKind::Param && region_node.kind == SyntaxKind::TYPE_DEF {
                        None
                    } else {
                        Some(name)
                    },
                },
            };
            let (st3, added) = add_symbol(st2, sym);
            if added {
                push_def(st3, Space::Local, (sym.key, Some(name), pos as u32))
            } else {
                st3
            }
        },
        None => {
            let nodes = child_nodes(node);
            add_unnamed(st, nodes, region, kind, nodes.len() as int)
        },
    }
}

/// The node a parameter belongs to: the function two levels up, or the
/// node above a sub type two levels up.
pub open spec fn param_region(stack: Seq<SyntaxNode>) -> Option<SyntaxNode> {
    let n = stack.len();
    if n >= 2 && stack[n - 2].kind == SyntaxKind::MODULE_FIELD_FUNC {
        Some(stack[n - 2])
    } else if n >= 3 && stack[n - 2].kind == SyntaxKind::SUB_TYPE {
        Some(stack[n - 3])
    } else {
        None
    }
}

/// The first of the first `n` ancestors of a kind, outermost first.
pub open spec fn first_of_kind(stack: Seq<SyntaxNode>, kind: SyntaxKind, n: int) -> Option<SyntaxNode>
    decreases n,
{
    if n <= 0 {
        None
    } else {
        match first_of_kind(stack, kind, n - 1) {
            Some(a) => Some(a),
            None => if stack[n - 1].kind == kind {
                Some(stack[n - 1])
            } else {
                None
            },
        }
    }
}

/// The fields of a struct type among the first `n` recorded fields, in order.
pub open spec fn fields_of(fields: Seq<(SymbolKey, Def)>, key: SymbolKey, n: int) -> Seq<Def>
    decreases n,
{
    if n <= 0 {
        seq![]
    } else if fields[n - 1].0 == key {
        fields_of(fields, key, n - 1).push(fields[n - 1].1)
    } else {
        fields_of(fields, key, n - 1)
    }
}

/// The state with a field definition of a struct type recorded.
pub open spec fn push_field(st: BindView, key: SymbolKey, d: Def) -> BindView {
    BindView { fields: st.fields.push((key, d)), ..st }
}

/// Adds an unnamed field for each field type among the first `n` nodes.
pub open spec fn add_unnamed_fields(st: BindView, nodes: Seq<SyntaxNode>, region: SymbolKey, n: int) -> BindView
    decreases n,
{
    if n <= 0 {
        st
    } else {
        let st0 = add_unnamed_fields(st, nodes, region, n - 1);
        let c = nodes[n - 1];
        let pos = st0.symbols.len();
        let (st1, id) = take_index(st0, Space::Field);
        let sym = Symbol {
            key: node_key(c),
            region,
            kind: SymbolKind::FieldDef,
            idx: Idx { num: Some(id), name: None },
        };
        let (st2, added) = add_symbol(st1, sym);
        if added {
            push_field(st2, region, (sym.key, None, pos as u32))
        } else {
            st2
        }
    }
}

/// Adds the fields of a `field` node of the outermost type definition
/// above it.
pub open spec fn enter_field(st: BindView, node: SyntaxNode, stack: Seq<SyntaxNode>) -> BindView {
    match first_of_kind(stack, SyntaxKind::TYPE_DEF, stack.len() as int) {
        None => st,
        Some(td) => {
            let region = node_key(td);
            match child_token_of(node, SyntaxKind::IDENT) {
                Some(t) => {
                    let (st1, id) = take_index(st, Space::Field);
                    let (st2, name) = intern_text(st1, t.text@);
                    let pos = st2.symbols.len();
                    let sym = Symbol {
                        key: node_key(node),
                        region,
                        kind: SymbolKind::FieldDef,
                        idx: Idx { num: Some(id), name: Some(name) },
                    };
                    let (st3, added) = add_symbol(st2, sym);
                    if added {
                        push_field(st3, region, (sym.key, Some(name), pos as u32))
                    } else {
                        st3
                    }
                },
                None => {
                    let types = child_nodes_of(node, SyntaxKind::FIELD_TYPE);
                    add_unnamed_fields(st, types, region, types.len() as int)
                },
            }
        },
    }
}

/// Adds the references that the first `n` nodes make.
pub open spec fn add_refs(st: BindView, nodes: Seq<SyntaxNode>, region: SymbolKey, kind: SymbolKind, n: int) -> BindView
    decreases n,
{
    if n <= 0 {
        st
    } else {
        add_ref(add_refs(st, nodes, region, kind, n - 1), nodes[n - 1], region, kind)
    }
}

/// Adds the reference of the first node, if there is one.
pub open spec fn add_first_ref(st: BindView, nodes: Seq<SyntaxNode>, region: SymbolKey, kind: SymbolKind) -> BindView {
    if nodes.len() > 0 {
        add_ref(st, nodes[0], region, kind)
    } else {
        st
    }
}

/// Adds the reference of an optional node, or one to index 0 keyed by
/// `fallback`.
pub open spec fn add_optional_ref(
    st: BindView,
    node: Option<SyntaxNode>,
    fallback: SyntaxNode,
    region: SymbolKey,
    kind: SymbolKind,
) -> BindView {
    let (st1, sym) = optional_ref(st, node, fallback, region, kind);
    add_symbol(st1, sym).0
}

/// The node at a position, if there is one.
pub open spec fn nth_node(nodes: Seq<SyntaxNode>, i: int) -> Option<SyntaxNode> {
    if 0 <= i < nodes.len() {
        Some(nodes[i])
    } else {
        None
    }
}

/// Adds a branch label reference, recording the block it resolves to.
pub open spec fn add_block_ref(
    st: BindView,
    node: SyntaxNode,
    region: SymbolKey,
    stack: Seq<SyntaxNode>,
    skip_current: bool,
) -> BindView {
    let (st1, r) = ref_symbol(st, node, region, SymbolKind::BlockRef);
    match r {
        Some(sym) => {
            let def = resolve_block(sym, st1.symbols, stack, skip_current);
            let pos = st1.symbols.len();
            let (st2, added) = add_symbol(st1, sym);
            match def {
                Some(d) => if added {
                    BindView { pre_resolved: st2.pre_resolved.push((pos as u32, d)), ..st2 }
                } else {
                    st2
                },
                None => st2,
            }
        },
        None => st1,
    }
}

/// Adds the branch label references of the first `n` nodes.
pub open spec fn add_block_refs(
    st: BindView,
    nodes: Seq<SyntaxNode>,
    region: SymbolKey,
    stack: Seq<SyntaxNode>,
    n: int,
) -> BindView
    decreases n,
{
    if n <= 0 {
        st
    } else {
        add_block_ref(add_block_refs(st, nodes, region, stack, n - 1), nodes[n - 1], region, stack, false)
    }
}

/// The index inside the type use of a function, which its parameters may
/// come from.
pub open spec fn func_type_index(func: SyntaxNode) -> Option<SyntaxNode> {
    let uses = child_nodes_of(func, SyntaxKind::TYPE_USE);
    if uses.len() > 0 {
        let indices = child_nodes_of(uses[0], SyntaxKind::INDEX);
        if indices.len() > 0 {
            Some(indices[0])
        } else {
            None
        }
    } else {
        None
    }
}

/// Adds a local reference: resolved at once against the locals so far, or,
/// by number, left to the parameters of the function's type.
pub open spec fn add_local_ref(st: BindView, node: SyntaxNode, func: SyntaxNode) -> BindView {
    let (st1, r) = ref_symbol(st, node, node_key(func), SymbolKind::LocalRef);
    match r {
        Some(sym) => {
            let pos = st1.symbols.len();
            let (st2, added) = add_symbol(st1, sym);
            if !added {
                st2
            } else {
                match search_def(st1.locals, sym.idx) {
                    Some(d) => BindView { pre_resolved: st2.pre_resolved.push((pos as u32, d.0)), ..st2 },
                    None => match (sym.idx.num, func_type_index(func)) {
                        (Some(num), Some(ix)) => BindView {
                            indirect: st2.indirect.push((node_key(ix), pos as u32, num)),
                            ..st2
                        },
                        _ => st2,
                    },
                }
            }
        },
        None => st1,
    }
}

/// Adds the local references of the first `n` nodes.
pub open spec fn add_local_refs(st: BindView, nodes: Seq<SyntaxNode>, func: SyntaxNode, n: int) -> BindView
    decreases n,
{
    if n <= 0 {
        st
    } else {
        add_local_ref(add_local_refs(st, nodes, func, n - 1), nodes[n - 1], func)
    }
}

/// Instructions whose immediates name functions.
pub open spec fn refers_to_funcs(name: Seq<char>) -> bool {
    name == "call"@ || name == "ref.func"@ || name == "return_call"@
}

/// Instructions whose immediates name locals.
pub open spec fn refers_to_locals(name: Seq<char>) -> bool {
    name == "local.get"@ || name == "local.set"@ || name == "local.tee"@
}

/// Instructions whose immediates name globals.
pub open spec fn refers_to_globals(name: Seq<char>) -> bool {
    name == "global.get"@ || name == "global.set"@
}

/// Instructions whose immediates name branch labels.
pub open spec fn is_branch(name: Seq<char>) -> bool {
    name == "br"@ || name == "br_if"@ || name == "br_table"@ || name == "br_on_null"@ || name == "br_on_non_null"@
        || name == "br_on_cast"@ || name == "br_on_cast_fail"@
}

/// Instructions whose optional first immediate names a table.
pub open spec fn refers_to_table(name: Seq<char>) -> bool {
    name == "call_indirect"@ || name == "return_call_indirect"@ || name == "table.get"@ || name == "table.set"@
        || name == "table.size"@ || name == "table.grow"@ || name == "table.fill"@
}

/// Instructions whose first immediate names a type.
pub open spec fn refers_to_type(name: Seq<char>) -> bool {
    name == "struct.new"@ || name == "struct.new_default"@ || name == "array.new"@ || name == "array.new_default"@
        || name == "array.new_fixed"@ || name == "array.get"@ || name == "array.get_u"@ || name == "array.get_s"@
        || name == "array.set"@ || name == "array.fill"@ || name == "call_ref"@ || name == "return_call_ref"@ || name
        == "ref.null"@ || name == "cont.new"@ || name == "resume"@ || name == "resume_throw_ref"@
}

/// Instructions whose immediates all name types.
pub open spec fn refers_to_types(name: Seq<char>) -> bool {
    name == "array.copy"@ || name == "cont.bind"@
}

/// Instructions that name a struct type and one of its fields.
pub open spec fn refers_to_field(name: Seq<char>) -> bool {
    name == "struct.get"@ || name == "struct.get_s"@ || name == "struct.get_u"@ || name == "struct.set"@
}

/// Adds the references of a `*.init` instruction: its segment (the second
/// immediate, or the only one) and its optional memory or table.
pub open spec fn add_init_refs(
    st: BindView,
    node: SyntaxNode,
    imms: Seq<SyntaxNode>,
    region: SymbolKey,
    segment: SymbolKind,
    target: SymbolKind,
) -> BindView {
    let (segment_node, first) = if imms.len() >= 2 {
        (Some(imms[1]), Some(imms[0]))
    } else if imms.len() == 1 {
        (Some(imms[0]), None)
    } else {
        (None, None)
    };
    let st1 = match segment_node {
        Some(n) => add_ref(st, n, region, segment),
        None => st,
    };
    add_optional_ref(st1, first, node, region, target)
}

/// Adds the references of a `struct.get` or `struct.set`: the struct type,
/// then the field, whose region is (for now) the key of the type reference.
pub open spec fn add_field_refs(st: BindView, nodes: Seq<SyntaxNode>, region: SymbolKey) -> BindView {
    if nodes.len() == 0 {
        st
    } else {
        let (st1, r) = ref_symbol(st, nodes[0], region, SymbolKind::TypeUse);
        match r {
            Some(ty) => {
                let st2 = add_symbol(st1, ty).0;
                if nodes.len() >= 2 {
                    add_ref(st2, nodes[1], ty.key, SymbolKind::FieldRef)
                } else {
                    st2
                }
            },
            None => st1,
        }
    }
}

/// Adds the references a plain instruction makes, by its name.
pub open spec fn enter_instr(st: BindView, node: SyntaxNode, stack: Seq<SyntaxNode>, module: SymbolKey) -> BindView {
    let imms = child_nodes_of(node, SyntaxKind::IMMEDIATE);
    let nodes = child_nodes(node);
    match child_token_of(node, SyntaxKind::INSTR_NAME) {
        None => st,
        Some(t) => {
            let name = t.text@;
            if refers_to_funcs(name) {
                add_refs(st, nodes, module, SymbolKind::Call, nodes.len() as int)
            } else if refers_to_locals(name) {
                if stack.len() > 1 && stack[1].kind == SyntaxKind::MODULE_FIELD_FUNC {
                    add_local_refs(st, nodes, stack[1], nodes.len() as int)
                } else {
                    st
                }
            } else if refers_to_globals(name) {
                add_refs(st, nodes, module, SymbolKind::GlobalRef, nodes.len() as int)
            } else if is_branch(name) {
                let blocks = scopes(stack);
                if blocks.len() > 0 {
                    add_block_refs(st, nodes, node_key(blocks[0]), stack, nodes.len() as int)
                } else {
                    st
                }
            } else if refers_to_table(name) {
                add_optional_ref(st, nth_node(imms, 0), node, module, SymbolKind::TableRef)
            } else if name == "table.copy"@ {
                let st1 = add_optional_ref(st, nth_node(imms, 0), node, module, SymbolKind::TableRef);
                add_optional_ref(st1, nth_node(imms, 1), node, module, SymbolKind::TableRef)
            } else if name == "table.init"@ {
                add_init_refs(st, node, imms, module, SymbolKind::ElemRef, SymbolKind::TableRef)
            } else if name == "elem.drop"@ {
                add_first_ref(st, imms, module, SymbolKind::ElemRef)
            } else if takes_memory_before_arg(name) {
                add_optional_ref(st, nth_node(imms, 0), node, module, SymbolKind::MemoryRef)
            } else if name == "memory.init"@ {
                add_init_refs(st, node, imms, module, SymbolKind::DataRef, SymbolKind::MemoryRef)
            } else if name == "memory.copy"@ {
                let st1 = add_optional_ref(st, nth_node(imms, 0), node, module, SymbolKind::MemoryRef);
                add_optional_ref(st1, nth_node(imms, 1), node, module, SymbolKind::MemoryRef)
            } else if name == "data.drop"@ {
                add_first_ref(st, imms, module, SymbolKind::DataRef)
            } else if refers_to_type(name) {
                add_first_ref(st, imms, module, SymbolKind::TypeUse)
            } else if refers_to_types(name) {
                add_refs(st, nodes, module, SymbolKind::TypeUse, nodes.len() as int)
            } else if name == "array.new_data"@ || name == "array.init_data"@ {
                let st1 = add_first_ref(st, imms, module, SymbolKind::TypeUse);
                if imms.len() >= 2 {
                    add_ref(st1, imms[1], module, SymbolKind::DataRef)
                } else {
                    st1
                }
            } else if name == "array.new_elem"@ || name == "array.init_elem"@ {
                let st1 = add_first_ref(st, imms, module, SymbolKind::TypeUse);
                if imms.len() >= 2 {
                    add_ref(st1, imms[1], module, SymbolKind::ElemRef)
                } else {
                    st1
                }
            } else if refers_to_field(name) {
                add_field_refs(st, nodes, module)
            } else if name == "throw"@ || name == "suspend"@ {
                add_first_ref(st, imms, module, SymbolKind::TagRef)
            } else if name == "resume_throw"@ || name == "switch"@ {
                let st1 = add_first_ref(st, imms, module, SymbolKind::TypeUse);
                if imms.len() >= 2 {
                    add_ref(st1, imms[1], module, SymbolKind::TagRef)
                } else {
                    st1
                }
            } else {
                st
            }
        },
    }
}

/// Adds the definition of a block, labeled by its first identifier, in the
/// innermost scope above it.
pub open spec fn enter_block(st: BindView, node: SyntaxNode, stack: Seq<SyntaxNode>) -> BindView {
    let blocks = scopes(stack);
    if blocks.len() == 0 {
        st
    } else {
        let (st1, name) = match child_token_of(node, SyntaxKind::IDENT) {
            Some(t) => {
                let (s1, n) = intern_text(st, t.text@);
                (s1, Some(n))
            },
            None => (st, None),
        };
        add_symbol(
            st1,
            Symbol {
                key: node_key(node),
                region: node_key(blocks[0]),
                kind: SymbolKind::BlockDef,
                idx: Idx { num: Some(0), name },
            },
        ).0
    }
}

/// Kinds of the external types of imports.
pub open spec fn is_extern_type(kind: SyntaxKind) -> bool {
    kind == SyntaxKind::EXTERN_TYPE_FUNC || kind == SyntaxKind::EXTERN_TYPE_GLOBAL || kind
        == SyntaxKind::EXTERN_TYPE_MEMORY || kind == SyntaxKind::EXTERN_TYPE_TABLE || kind
        == SyntaxKind::EXTERN_TYPE_TAG
}

/// The first of the first `n` nodes that is an external type.
pub open spec fn first_extern_type(nodes: Seq<SyntaxNode>, n: int) -> Option<SyntaxNode>
    decreases n,
{
    if n <= 0 {
        None
    } else {
        match first_extern_type(nodes, n - 1) {
            Some(t) => Some(t),
            None => if is_extern_type(nodes[n - 1].kind) {
                Some(nodes[n - 1])
            } else {
                None
            },
        }
    }
}

/// The external type of a node among its children.
pub open spec fn extern_type_of(node: SyntaxNode) -> Option<SyntaxNode> {
    first_extern_type(child_nodes(node), child_nodes(node).len() as int)
}

/// The index space and symbol kind that an external type defines in.
pub open spec fn extern_space(kind: SyntaxKind) -> Option<(Space, SymbolKind)> {
    if kind == SyntaxKind::EXTERN_TYPE_FUNC {
        Some((Space::Func, SymbolKind::Func))
    } else if kind == SyntaxKind::EXTERN_TYPE_GLOBAL {
        Some((Space::Global, SymbolKind::GlobalDef))
    } else if kind == SyntaxKind::EXTERN_TYPE_MEMORY {
        Some((Space::Memory, SymbolKind::MemoryDef))
    } else if kind == SyntaxKind::EXTERN_TYPE_TABLE {
        Some((Space::Table, SymbolKind::TableDef))
    } else if kind == SyntaxKind::EXTERN_TYPE_TAG {
        Some((Space::Tag, SymbolKind::TagDef))
    } else {
        None
    }
}

/// Adds the definition that one imported item makes: of the space of its
/// own external type, or else of the import's.
pub open spec fn add_import_item(st: BindView, item: SyntaxNode, field_type: Option<SyntaxNode>, module: SymbolKey) -> BindView {
    let ty = match extern_type_of(item) {
        Some(t) => Some(t),
        None => field_type,
    };
    match ty {
        Some(t) => match extern_space(t.kind) {
            Some((space, kind)) => add_def(st, item, space, kind, module, t),
            None => st,
        },
        None => st,
    }
}

/// Adds the definitions of the first `n` imported items.
pub open spec fn add_import_items(
    st: BindView,
    items: Seq<SyntaxNode>,
    field_type: Option<SyntaxNode>,
    module: SymbolKey,
    n: int,
) -> BindView
    decreases n,
{
    if n <= 0 {
        st
    } else {
        add_import_item(add_import_items(st, items, field_type, module, n - 1), items[n - 1], field_type, module)
    }
}

/// The items an import defines: its `item` parts, then the import itself
/// when it has a name.
pub open spec fn import_items(node: SyntaxNode) -> Seq<SyntaxNode> {
    child_nodes_of(node, SyntaxKind::IMPORT_ITEM) + if child_nodes_of(node, SyntaxKind::NAME).len() > 0 {
        seq![node]
    } else {
        seq![]
    }
}

/// Adds the definitions of an import field.
pub open spec fn enter_import(st: BindView, node: SyntaxNode, module: SymbolKey) -> BindView {
    let items = import_items(node);
    add_import_items(st, items, extern_type_of(node), module, items.len() as int)
}

/// Adds the references of a `catch` clause: its tag, then its label,
/// counted from outside the `try_table` it belongs to.
pub open spec fn enter_catch(st: BindView, node: SyntaxNode, stack: Seq<SyntaxNode>, module: SymbolKey) -> BindView {
    let nodes = child_nodes(node);
    let st1 = add_first_ref(st, nodes, module, SymbolKind::TagRef);
    let blocks = scopes(stack);
    if blocks.len() >= 2 && nodes.len() >= 2 {
        add_block_ref(st1, nodes[1], node_key(blocks[1]), stack, true)
    } else {
        st1
    }
}

/// Adds the label reference of a `catch_all` clause.
pub open spec fn enter_catch_all(st: BindView, node: SyntaxNode, stack: Seq<SyntaxNode>) -> BindView {
    let indices = child_nodes_of(node, SyntaxKind::INDEX);
    let blocks = scopes(stack);
    if blocks.len() >= 2 && indices.len() >= 1 {
        add_block_ref(st, indices[0], node_key(blocks[1]), stack, true)
    } else {
        st
    }
}

/// Adds the references of an `on` handler clause: its tag and its label.
pub open spec fn enter_on_clause(st: BindView, node: SyntaxNode, stack: Seq<SyntaxNode>, module: SymbolKey) -> BindView {
    let indices = child_nodes_of(node, SyntaxKind::INDEX);
    let st1 = add_first_ref(st, indices, module, SymbolKind::TagRef);
    let blocks = scopes(stack);
    if indices.len() >= 2 && blocks.len() >= 1 {
        add_block_ref(st1, indices[1], node_key(blocks[0]), stack, false)
    } else {
        st1
    }
}

/// The state with the locals forgotten and their counter at zero.
pub open spec fn clear_locals(st: BindView) -> BindView {
    BindView { locals: seq![], counters: set_counter(st.counters, Space::Local, 0), ..st }
}

/// What a node adds when the walk reaches it, below the ancestors `stack`
/// (the module first), in the module with key `module`.
pub open spec fn enter(st: BindView, node: SyntaxNode, stack: Seq<SyntaxNode>, module: SymbolKey) -> BindView {
    let k = node.kind;
    let first_index = child_nodes_of(node, SyntaxKind::INDEX);
    if k == SyntaxKind::MODULE_FIELD_FUNC {
        clear_locals(add_def(st, node, Space::Func, SymbolKind::Func, module, node))
    } else if k == SyntaxKind::PARAM {
        match param_region(stack) {
            Some(r) => add_local(st, node, r, SymbolKind::Param),
            None => st,
        }
    } else if k == SyntaxKind::LOCAL {
        if stack.len() > 0 {
            add_local(st, node, stack.last(), SymbolKind::Local)
        } else {
            st
        }
    } else if k == SyntaxKind::TYPE_DEF {
        add_def(st, node, Space::Type, SymbolKind::Type, module, node)
    } else if k == SyntaxKind::FUNC_TYPE {
        clear_locals(st)
    } else if k == SyntaxKind::STRUCT_TYPE {
        BindView { counters: set_counter(st.counters, Space::Field, 0), ..st }
    } else if k == SyntaxKind::FIELD {
        enter_field(st, node, stack)
    } else if k == SyntaxKind::MODULE_FIELD_GLOBAL {
        add_def(st, node, Space::Global, SymbolKind::GlobalDef, module, node)
    } else if k == SyntaxKind::PLAIN_INSTR {
        enter_instr(st, node, stack, module)
    } else if is_block(k) {
        enter_block(st, node, stack)
    } else if k == SyntaxKind::MODULE_FIELD_START || k == SyntaxKind::EXTERN_IDX_FUNC {
        add_first_ref(st, first_index, module, SymbolKind::Call)
    } else if k == SyntaxKind::TYPE_USE || k == SyntaxKind::HEAP_TYPE || k == SyntaxKind::SUB_TYPE || k
        == SyntaxKind::CONT_TYPE {
        add_first_ref(st, first_index, module, SymbolKind::TypeUse)
    } else if k == SyntaxKind::MODULE_FIELD_MEMORY {
        add_def(st, node, Space::Memory, SymbolKind::MemoryDef, module, node)
    } else if k == SyntaxKind::MODULE_FIELD_TABLE {
        add_def(st, node, Space::Table, SymbolKind::TableDef, module, node)
    } else if k == SyntaxKind::MODULE_FIELD_TAG {
        add_def(st, node, Space::Tag, SymbolKind::TagDef, module, node)
    } else if k == SyntaxKind::EXTERN_IDX_GLOBAL {
        add_first_ref(st, first_index, module, SymbolKind::GlobalRef)
    } else if k == SyntaxKind::EXTERN_IDX_MEMORY || k == SyntaxKind::MEM_USE {
        add_first_ref(st, first_index, module, SymbolKind::MemoryRef)
    } else if k == SyntaxKind::EXTERN_IDX_TABLE || k == SyntaxKind::TABLE_USE {
        add_first_ref(st, first_index, module, SymbolKind::TableRef)
    } else if k == SyntaxKind::EXTERN_IDX_TAG {
        add_first_ref(st, first_index, module, SymbolKind::TagRef)
    } else if k == SyntaxKind::MODULE_FIELD_IMPORT {
        enter_import(st, node, module)
    } else if k == SyntaxKind::MODULE_FIELD_DATA {
        add_def(st, node, Space::Data, SymbolKind::DataDef, module, node)
    } else if k == SyntaxKind::MODULE_FIELD_ELEM {
        if child_token_of(node, SyntaxKind::MODIFIER_KEYWORD) is None {
            add_def(st, node, Space::Elem, SymbolKind::ElemDef, module, node)
        } else {
            st
        }
    } else if k == SyntaxKind::ELEM_LIST {
        add_refs(st, first_index, module, SymbolKind::Call, first_index.len() as int)
    } else if k == SyntaxKind::CATCH {
        enter_catch(st, node, stack, module)
    } else if k == SyntaxKind::CATCH_ALL {
        enter_catch_all(st, node, stack)
    } else if k == SyntaxKind::ON_CLAUSE {
        enter_on_clause(st, node, stack, module)
    } else {
        st
    }
}

/// The walk below a node: the node itself, then its child nodes in order,
/// each with the node on top of the ancestors.
pub open spec fn visit(st: BindView, node: SyntaxNode, stack: Seq<SyntaxNode>, module: SymbolKey) -> BindView
    decreases node, 1int,
{
    let st1 = enter(st, node, stack, module);
    visit_children(st1, node.children@, stack.push(node), module, node.children@.len() as int)
}

/// The walk below the first `n` children, with the ancestors `stack`.
pub open spec fn visit_children(
    st: BindView,
    children: Seq<SyntaxElement>,
    stack: Seq<SyntaxNode>,
    module: SymbolKey,
    n: int,
) -> BindView
    decreases children, n,
{
    if n <= 0 || n > children.len() {
        st
    } else {
        let st1 = visit_children(st, children, stack, module, n - 1);
        match children[n - 1] {
            SyntaxElement::Node(c) => visit(st1, c, stack, module),
            _ => st1,
        }
    }
}

impl Binder {
    fn add_def(&mut self, node: &SyntaxNode, space: Space, kind: SymbolKind, region: SymbolKey, name_node: &SyntaxNode)
        requires
            old(self).inv(),
        ensures
            final(self).inv(),
            grows(old(self)@, final(self)@),
            final(self)@ == add_def(old(self)@, *node, space, kind, region, *name_node),
    {
        let id = self.take_index(space);
        let sym = self.named_def(node, id, kind, region, name_node);
        let pos = self.symbols.len();
        if self.add_symbol(sym) {
            self.push_def(space, (sym.key, sym.idx.name, pos as u32));
        }
    }

    fn add_unnamed(&mut self, node: &SyntaxNode, region: SymbolKey, kind: SymbolKind)
        requires
            old(self).inv(),
        ensures
            final(self).inv(),
            grows(old(self)@, final(self)@),
            final(self)@ == add_unnamed(old(self)@, child_nodes(*node), region, kind, child_nodes(*node).len() as int),
    {
        let nodes = node.nodes();
        let ghost all = nodes@.map_values(|n: &SyntaxNode| *n);
        let mut i: usize = 0;
        while i < nodes.len()
            invariant
                self.inv(),
                grows(old(self)@, self@),
                i <= nodes@.len(),
                all == nodes@.map_values(|n: &SyntaxNode| *n),
                all == child_nodes(*node),
                self@ == add_unnamed(old(self)@, all, region, kind, i as int),
            decreases nodes@.len() - i,
        {
            let c = nodes[i];
            assert(all[i as int] == *c);
            if c.kind == SyntaxKind::NUM_TYPE || c.kind == SyntaxKind::VEC_TYPE || c.kind == SyntaxKind::REF_TYPE {
                let pos = self.symbols.len();
                let id = self.take_index(Space::Local);
                let sym = Symbol { key: SymbolKey(c.to_ptr()), region, kind, idx: Idx { num: Some(id), name: None } };
                if self.add_symbol(sym) {
                    self.push_def(Space::Local, (sym.key, None, pos as u32));
                }
            }
            i = i + 1;
        }
    }

    fn add_local(&mut self, node: &SyntaxNode, region_node: &SyntaxNode, kind: SymbolKind)
        requires
            old(self).inv(),
        ensures
            final(self).inv(),
            grows(old(self)@, final(self)@),
            final(self)@ == add_local(old(self)@, *node, *region_node, kind),
    {
        let region = SymbolKey(region_node.to_ptr());
        match node.token_of_kind(SyntaxKind::IDENT) {
            Some(t) => {
                let id = self.take_index(Space::Local);
                let name = self.intern(t.text.as_str());
                let pos = self.symbols.len();
                let plain = match kind {
                    SymbolKind::Param => match region_node.kind {
                        SyntaxKind::TYPE_DEF => true,
                        _ => false,
                    },
                    _ => false,
                };
                let sym = Symbol {
                    key: SymbolKey(node.to_ptr()),
                    region,
                    kind,
                    idx: Idx {
                        num: Some(id),
                        name: if plain {
                            None
                        } else {
                            Some(name)
                        },
                    },
                };
                if self.add_symbol(sym) {
                    self.push_def(Space::Local, (sym.key, Some(name), pos as u32));
                }
            },
            None => self.add_unnamed(node, region, kind),
        }
    }

    fn add_field(&mut self, node: &SyntaxNode, stack: &Vec<&SyntaxNode>)
        requires
            old(self).inv(),
        ensures
            final(self).inv(),
            grows(old(self)@, final(self)@),
            final(self)@ == enter_field(old(self)@, *node, stack_nodes(stack@)),
    {
        let td = match find_first_of_kind(stack, SyntaxKind::TYPE_DEF) {
            Some(t) => t,
            None => return ,
        };
        let region = SymbolKey(td.to_ptr());
        match node.token_of_kind(SyntaxKind::IDENT) {
            Some(t) => {
                let id = self.take_index(Space::Field);
                let name = self.intern(t.text.as_str());
                let pos = self.symbols.len();
                let sym = Symbol {
                    key: SymbolKey(node.to_ptr()),
                    region,
                    kind: SymbolKind::FieldDef,
                    idx: Idx { num: Some(id), name: Some(name) },
                };
                if self.add_symbol(sym) {
                    self.fields.push((region, (sym.key, Some(name), pos as u32)));
                }
            },
            None => {
                let types = node.children_of_kind(SyntaxKind::FIELD_TYPE);
                let ghost all = types@.map_values(|n: &SyntaxNode| *n);
                let mut i: usize = 0;
                while i < types.len()
                    invariant
                        self.inv(),
                        grows(old(self)@, self@),
                        i <= types@.len(),
                        all == types@.map_values(|n: &SyntaxNode| *n),
                        all == child_nodes_of(*node, SyntaxKind::FIELD_TYPE),
                        self@ == add_unnamed_fields(old(self)@, all, region, i as int),
                    decreases types@.len() - i,
                {
                    let c = types[i];
                    assert(all[i as int] == *c);
                    let pos = self.symbols.len();
                    let id = self.take_index(Space::Field);
                    let sym = Symbol {
                        key: SymbolKey(c.to_ptr()),
                        region,
                        kind: SymbolKind::FieldDef,
                        idx: Idx { num: Some(id), name: None },
                    };
                    if self.add_symbol(sym) {
                        self.fields.push((region, (sym.key, None, pos as u32)));
                    }
                    i = i + 1;
                }
            },
        }
    }
}

proof fn lemma_first_of_kind_stable(stack: Seq<SyntaxNode>, kind: SyntaxKind, a: int, n: int)
    requires
        0 <= a <= n,
        first_of_kind(stack, kind, a) is Some,
    ensures
        first_of_kind(stack, kind, n) == first_of_kind(stack, kind, a),
    decreases n - a,
{
    if n > a {
        lemma_first_of_kind_stable(stack, kind, a, n - 1);
    }
}

/// The outermost ancestor of a kind.
fn find_first_of_kind<'a>(stack: &Vec<&'a SyntaxNode>, kind: SyntaxKind) -> (r: Option<&'a SyntaxNode>)
    ensures
        match first_of_kind(stack_nodes(stack@), kind, stack@.len() as int) {
            Some(a) => r matches Some(x) && *x == a,
            None => r is None,
        },
{
    let ghost anc = stack_nodes(stack@);
    let mut k: usize = 0;
    while k < stack.len()
        invariant
            k <= stack@.len(),
            anc == stack_nodes(stack@),
            first_of_kind(anc, kind, k as int) is None,
        decreases stack@.len() - k,
    {
        assert(anc[k as int] == *stack@[k as int]);
        if stack[k].kind == kind {
            proof {
                lemma_first_of_kind_stable(anc, kind, k + 1, anc.len() as int);
            }
            return Some(stack[k]);
        }
        k = k + 1;
    }
    None
}

/// The index inside the type use of a function: see `func_type_index`.
fn find_func_type_index(func: &SyntaxNode) -> (r: Option<&SyntaxNode>)
    ensures
        match func_type_index(*func) {
            Some(n) => r matches Some(x) && *x == n,
            None => r is None,
        },
{
    match func.child_of_kind(SyntaxKind::TYPE_USE) {
        Some(u) => u.child_of_kind(SyntaxKind::INDEX),
        None => None,
    }
}

/// The node at a position of a list of references.
fn nth<'a>(nodes: &Vec<&'a SyntaxNode>, i: usize) -> (r: Option<&'a SyntaxNode>)
    ensures
        match nth_node(stack_nodes(nodes@), i as int) {
            Some(n) => r matches Some(x) && *x == n,
            None => r is None,
        },
{
    if i < nodes.len() {
        Some(nodes[i])
    } else {
        None
    }
}

impl Binder {
    fn add_refs(&mut self, nodes: &Vec<&SyntaxNode>, region: SymbolKey, kind: SymbolKind)
        requires
            old(self).inv(),
        ensures
            final(self).inv(),
            grows(old(self)@, final(self)@),
            final(self)@ == add_refs(old(self)@, stack_nodes(nodes@), region, kind, nodes@.len() as int),
    {
        let ghost all = stack_nodes(nodes@);
        let mut i: usize = 0;
        while i < nodes.len()
            invariant
                self.inv(),
                grows(old(self)@, self@),
                i <= nodes@.len(),
                all == stack_nodes(nodes@),
                self@ == add_refs(old(self)@, all, region, kind, i as int),
            decreases nodes@.len() - i,
        {
            assert(all[i as int] == *nodes@[i as int]);
            self.add_ref(nodes[i], region, kind);
            i = i + 1;
        }
    }

    fn add_first_ref(&mut self, nodes: &Vec<&SyntaxNode>, region: SymbolKey, kind: SymbolKind)
        requires
            old(self).inv(),
        ensures
            final(self).inv(),
            grows(old(self)@, final(self)@),
            final(self)@ == add_first_ref(old(self)@, stack_nodes(nodes@), region, kind),
    {
        if nodes.len() > 0 {
            assert(stack_nodes(nodes@)[0] == *nodes@[0]);
            self.add_ref(nodes[0], region, kind);
        }
    }

    fn add_optional_ref(
        &mut self,
        node: Option<&SyntaxNode>,
        fallback: &SyntaxNode,
        region: SymbolKey,
        kind: SymbolKind,
    )
        requires
            old(self).inv(),
        ensures
            final(self).inv(),
            grows(old(self)@, final(self)@),
            final(self)@ == add_optional_ref(
                old(self)@,
                match node {
                    Some(n) => Some(*n),
                    None => None,
                },
                *fallback,
                region,
                kind,
            ),
    {
        let sym = self.optional_ref(node, fallback, region, kind);
        self.add_symbol(sym);
    }

    fn add_block_ref(
        &mut self,
        node: &SyntaxNode,
        region: SymbolKey,
        stack: &Vec<&SyntaxNode>,
        skip_current: bool,
    )
        requires
            old(self).inv(),
        ensures
            final(self).inv(),
            grows(old(self)@, final(self)@),
            final(self)@ == add_block_ref(old(self)@, *node, region, stack_nodes(stack@), skip_current),
    {
        match self.ref_symbol(node, region, SymbolKind::BlockRef) {
            Some(sym) => {
                let def = resolve_block_def(&sym, &self.symbols, stack, skip_current);
                let pos = self.symbols.len();
                let added = self.add_symbol(sym);
                match def {
                    Some(d) => {
                        if added {
                            self.pre_resolved.push((pos as u32, d));
                        }
                    },
                    None => {},
                }
            },
            None => {},
        }
    }

    fn add_block_refs(&mut self, nodes: &Vec<&SyntaxNode>, region: SymbolKey, stack: &Vec<&SyntaxNode>)
        requires
            old(self).inv(),
        ensures
            final(self).inv(),
            grows(old(self)@, final(self)@),
            final(self)@ == add_block_refs(
                old(self)@,
                stack_nodes(nodes@),
                region,
                stack_nodes(stack@),
                nodes@.len() as int,
            ),
    {
        let ghost all = stack_nodes(nodes@);
        let mut i: usize = 0;
        while i < nodes.len()
            invariant
                self.inv(),
                grows(old(self)@, self@),
                i <= nodes@.len(),
                all == stack_nodes(nodes@),
                self@ == add_block_refs(old(self)@, all, region, stack_nodes(stack@), i as int),
            decreases nodes@.len() - i,
        {
            assert(all[i as int] == *nodes@[i as int]);
            self.add_block_ref(nodes[i], region, stack, false);
            i = i + 1;
        }
    }

    fn add_local_ref(&mut self, node: &SyntaxNode, func: &SyntaxNode)
        requires
            old(self).inv(),
        ensures
            final(self).inv(),
            grows(old(self)@, final(self)@),
            final(self)@ == add_local_ref(old(self)@, *node, *func),
    {
        match self.ref_symbol(node, SymbolKey(func.to_ptr()), SymbolKind::LocalRef) {
            Some(sym) => {
                let def = find_def_of(&self.locals, sym.idx);
                let pos = self.symbols.len();
                if !self.add_symbol(sym) {
                    return ;
                }
                match def {
                    Some(d) => {
                        self.pre_resolved.push((pos as u32, d.0));
                    },
                    None => match (sym.idx.num, find_func_type_index(func)) {
                        (Some(num), Some(ix)) => {
                            self.indirect.push((SymbolKey(ix.to_ptr()), pos as u32, num));
                        },
                        _ => {},
                    },
                }
            },
            None => {},
        }
    }

    fn add_local_refs(&mut self, nodes: &Vec<&SyntaxNode>, func: &SyntaxNode)
        requires
            old(self).inv(),
        ensures
            final(self).inv(),
            grows(old(self)@, final(self)@),
            final(self)@ == add_local_refs(old(self)@, stack_nodes(nodes@), *func, nodes@.len() as int),
    {
        let ghost all = stack_nodes(nodes@);
        let mut i: usize = 0;
        while i < nodes.len()
            invariant
                self.inv(),
                grows(old(self)@, self@),
                i <= nodes@.len(),
                all == stack_nodes(nodes@),
                self@ == add_local_refs(old(self)@, all, *func, i as int),
            decreases nodes@.len() - i,
        {
            assert(all[i as int] == *nodes@[i as int]);
            self.add_local_ref(nodes[i], func);
            i = i + 1;
        }
    }

    fn add_init_refs(
        &mut self,
        node: &SyntaxNode,
        imms: &Vec<&SyntaxNode>,
        region: SymbolKey,
        segment: SymbolKind,
        target: SymbolKind,
    )
        requires
            old(self).inv(),
        ensures
            final(self).inv(),
            grows(old(self)@, final(self)@),
            final(self)@ == add_init_refs(old(self)@, *node, stack_nodes(imms@), region, segment, target),
    {
        let ghost all = stack_nodes(imms@);
        let (segment_node, first) = if imms.len() >= 2 {
            (Some(imms[1]), Some(imms[0]))
        } else if imms.len() == 1 {
            (Some(imms[0]), None)
        } else {
            (None, None)
        };
        proof {
            if imms@.len() >= 1 {
                assert(all[0] == *imms@[0]);
            }
            if imms@.len() >= 2 {
                assert(all[1] == *imms@[1]);
            }
        }
        match segment_node {
            Some(n) => self.add_ref(n, region, segment),
            None => {},
        }
        self.add_optional_ref(first, node, region, target);
    }

    fn add_field_refs(&mut self, nodes: &Vec<&SyntaxNode>, region: SymbolKey)
        requires
            old(self).inv(),
        ensures
            final(self).inv(),
            grows(old(self)@, final(self)@),
            final(self)@ == add_field_refs(old(self)@, stack_nodes(nodes@), region),
    {
        let ghost all = stack_nodes(nodes@);
        if nodes.len() == 0 {
            return ;
        }
        assert(all[0] == *nodes@[0]);
        match self.ref_symbol(nodes[0], region, SymbolKind::TypeUse) {
            Some(ty) => {
                self.add_symbol(ty);
                if nodes.len() >= 2 {
                    assert(all[1] == *nodes@[1]);
                    self.add_ref(nodes[1], ty.key, SymbolKind::FieldRef);
                }
            },
            None => {},
        }
    }
}

fn refers_to_funcs_name(name: &str) -> (r: bool)
    ensures
        r == refers_to_funcs(name@),
{
    if str_eq(name, "call") {
        return true;
    }
    if str_eq(name, "ref.func") {
        return true;
    }
    if str_eq(name, "return_call") {
        return true;
    }
    false
}

fn refers_to_locals_name(name: &str) -> (r: bool)
    ensures
        r == refers_to_locals(name@),
{
    if str_eq(name, "local.get") {
        return true;
    }
    if str_eq(name, "local.set") {
        return true;
    }
    if str_eq(name, "local.tee") {
        return true;
    }
    false
}

fn refers_to_globals_name(name: &str) -> (r: bool)
    ensures
        r == refers_to_globals(name@),
{
    if str_eq(name, "global.get") {
        return true;
    }
    if str_eq(name, "global.set") {
        return true;
    }
    false
}

fn is_branch_name(name: &str) -> (r: bool)
    ensures
        r == is_branch(name@),
{
    if str_eq(name, "br") {
        return true;
    }
    if str_eq(name, "br_if") {
        return true;
    }
    if str_eq(name, "br_table") {
        return true;
    }
    if str_eq(name, "br_on_null") {
        return true;
    }
    if str_eq(name, "br_on_non_null") {
        return true;
    }
    if str_eq(name, "br_on_cast") {
        return true;
    }
    if str_eq(name, "br_on_cast_fail") {
        return true;
    }
    false
}

fn refers_to_table_name(name: &str) -> (r: bool)
    ensures
        r == refers_to_table(name@),
{
    if str_eq(name, "call_indirect") {
        return true;
    }
    if str_eq(name, "return_call_indirect") {
        return true;
    }
    if str_eq(name, "table.get") {
        return true;
    }
    if str_eq(name, "table.set") {
        return true;
    }
    if str_eq(name, "table.size") {
        return true;
    }
    if str_eq(name, "table.grow") {
        return true;
    }
    if str_eq(name, "table.fill") {
        return true;
    }
    false
}

fn refers_to_type_name(name: &str) -> (r: bool)
    ensures
        r == refers_to_type(name@),
{
    if str_eq(name, "struct.new") {
        return true;
    }
    if str_eq(name, "struct.new_default") {
        return true;
    }
    if str_eq(name, "array.new") {
        return true;
    }
    if str_eq(name, "array.new_default") {
        return true;
    }
    if str_eq(name, "array.new_fixed") {
        return true;
    }
    if str_eq(name, "array.get") {
        return true;
    }
    if str_eq(name, "array.get_u") {
        return true;
    }
    if str_eq(name, "array.get_s") {
        return true;
    }
    if str_eq(name, "array.set") {
        return true;
    }
    if str_eq(name, "array.fill") {
        return true;
    }
    if str_eq(name, "call_ref") {
        return true;
    }
    if str_eq(name, "return_call_ref") {
        return true;
    }
    if str_eq(name, "ref.null") {
        return true;
    }
    if str_eq(name, "cont.new") {
        return true;
    }
    if str_eq(name, "resume") {
        return true;
    }
    if str_eq(name, "resume_throw_ref") {
        return true;
    }
    false
}

fn refers_to_types_name(name: &str) -> (r: bool)
    ensures
        r == refers_to_types(name@),
{
    if str_eq(name, "array.copy") {
        return true;
    }
    if str_eq(name, "cont.bind") {
        return true;
    }
    false
}

fn refers_to_field_name(name: &str) -> (r: bool)
    ensures
        r == refers_to_field(name@),
{
    if str_eq(name, "struct.get") {
        return true;
    }
    if str_eq(name, "struct.get_s") {
        return true;
    }
    if str_eq(name, "struct.get_u") {
        return true;
    }
    if str_eq(name, "struct.set") {
        return true;
    }
    false
}

impl Binder {
    fn enter_instr(&mut self, node: &SyntaxNode, stack: &Vec<&SyntaxNode>, module: SymbolKey)
        requires
            old(self).inv(),
        ensures
            final(self).inv(),
            grows(old(self)@, final(self)@),
            final(self)@ == enter_instr(old(self)@, *node, stack_nodes(stack@), module),
    {
        let name = match node.token_of_kind(SyntaxKind::INSTR_NAME) {
            Some(t) => t.text.as_str(),
            None => return ,
        };
        let imms = node.children_of_kind(SyntaxKind::IMMEDIATE);
        let nodes = node.nodes();
        let ghost anc = stack_nodes(stack@);
        if refers_to_funcs_name(name) {
            self.add_refs(&nodes, module, SymbolKind::Call);
        } else if refers_to_locals_name(name) {
            if stack.len() > 1 && stack[1].kind == SyntaxKind::MODULE_FIELD_FUNC {
                assert(anc[1] == *stack@[1]);
                self.add_local_refs(&nodes, stack[1]);
            }
        } else if refers_to_globals_name(name) {
            self.add_refs(&nodes, module, SymbolKind::GlobalRef);
        } else if is_branch_name(name) {
            let blocks = scope_list(stack);
            if blocks.len() > 0 {
                assert(stack_nodes(blocks@)[0] == *blocks@[0]);
                self.add_block_refs(&nodes, SymbolKey(blocks[0].to_ptr()), stack);
            }
        } else if refers_to_table_name(name) {
            self.add_optional_ref(nth(&imms, 0), node, module, SymbolKind::TableRef);
        } else if str_eq(name, "table.copy") {
            self.add_optional_ref(nth(&imms, 0), node, module, SymbolKind::TableRef);
            self.add_optional_ref(nth(&imms, 1), node, module, SymbolKind::TableRef);
        } else if str_eq(name, "table.init") {
            self.add_init_refs(node, &imms, module, SymbolKind::ElemRef, SymbolKind::TableRef);
        } else if str_eq(name, "elem.drop") {
            self.add_first_ref(&imms, module, SymbolKind::ElemRef);
        } else if memory_before_arg(name) {
            self.add_optional_ref(nth(&imms, 0), node, module, SymbolKind::MemoryRef);
        } else if str_eq(name, "memory.init") {
            self.add_init_refs(node, &imms, module, SymbolKind::DataRef, SymbolKind::MemoryRef);
        } else if str_eq(name, "memory.copy") {
            self.add_optional_ref(nth(&imms, 0), node, module, SymbolKind::MemoryRef);
            self.add_optional_ref(nth(&imms, 1), node, module, SymbolKind::MemoryRef);
        } else if str_eq(name, "data.drop") {
            self.add_first_ref(&imms, module, SymbolKind::DataRef);
        } else if refers_to_type_name(name) {
            self.add_first_ref(&imms, module, SymbolKind::TypeUse);
        } else if refers_to_types_name(name) {
            self.add_refs(&nodes, module, SymbolKind::TypeUse);
        } else if str_eq(name, "array.new_data") || str_eq(name, "array.init_data") {
            self.add_first_ref(&imms, module, SymbolKind::TypeUse);
            if imms.len() >= 2 {
                assert(stack_nodes(imms@)[1] == *imms@[1]);
                self.add_ref(imms[1], module, SymbolKind::DataRef);
            }
        } else if str_eq(name, "array.new_elem") || str_eq(name, "array.init_elem") {
            self.add_first_ref(&imms, module, SymbolKind::TypeUse);
            if imms.len() >= 2 {
                assert(stack_nodes(imms@)[1] == *imms@[1]);
                self.add_ref(imms[1], module, SymbolKind::ElemRef);
            }
        } else if refers_to_field_name(name) {
            self.add_field_refs(&nodes, module);
        } else if str_eq(name, "throw") || str_eq(name, "suspend") {
            self.add_first_ref(&imms, module, SymbolKind::TagRef);
        } else if str_eq(name, "resume_throw") || str_eq(name, "switch") {
            self.add_first_ref(&imms, module, SymbolKind::TypeUse);
            if imms.len() >= 2 {
                assert(stack_nodes(imms@)[1] == *imms@[1]);
                self.add_ref(imms[1], module, SymbolKind::TagRef);
            }
        }
    }
}

proof fn lemma_first_extern_type_stable(nodes: Seq<SyntaxNode>, a: int, n: int)
    requires
        0 <= a <= n,
        first_extern_type(nodes, a) is Some,
    ensures
        first_extern_type(nodes, n) == first_extern_type(nodes, a),
    decreases n - a,
{
    if n > a {
        lemma_first_extern_type_stable(nodes, a, n - 1);
    }
}

/// The external type among a node's children: see `extern_type_of`.
fn find_extern_type(node: &SyntaxNode) -> (r: Option<&SyntaxNode>)
    ensures
        match extern_type_of(*node) {
            Some(t) => r matches Some(x) && *x == t,
            None => r is None,
        },
{
    let nodes = node.nodes();
    let ghost all = stack_nodes(nodes@);
    let mut i: usize = 0;
    while i < nodes.len()
        invariant
            i <= nodes@.len(),
            all == stack_nodes(nodes@),
            all == child_nodes(*node),
            first_extern_type(all, i as int) is None,
        decreases nodes@.len() - i,
    {
        let c = nodes[i];
        assert(all[i as int] == *c);
        if c.kind == SyntaxKind::EXTERN_TYPE_FUNC || c.kind == SyntaxKind::EXTERN_TYPE_GLOBAL || c.kind
            == SyntaxKind::EXTERN_TYPE_MEMORY || c.kind == SyntaxKind::EXTERN_TYPE_TABLE || c.kind
            == SyntaxKind::EXTERN_TYPE_TAG {
            proof {
                lemma_first_extern_type_stable(all, i + 1, all.len() as int);
            }
            return Some(c);
        }
        i = i + 1;
    }
    None
}

impl Binder {
    fn enter_block(&mut self, node: &SyntaxNode, stack: &Vec<&SyntaxNode>)
        requires
            old(self).inv(),
        ensures
            final(self).inv(),
            grows(old(self)@, final(self)@),
            final(self)@ == enter_block(old(self)@, *node, stack_nodes(stack@)),
    {
        let blocks = scope_list(stack);
        if blocks.len() == 0 {
            return ;
        }
        assert(stack_nodes(blocks@)[0] == *blocks@[0]);
        let name = match node.token_of_kind(SyntaxKind::IDENT) {
            Some(t) => Some(self.intern(t.text.as_str())),
            None => None,
        };
        self.add_symbol(
            Symbol {
                key: SymbolKey(node.to_ptr()),
                region: SymbolKey(blocks[0].to_ptr()),
                kind: SymbolKind::BlockDef,
                idx: Idx { num: Some(0), name },
            },
        );
    }

    fn add_import_item(&mut self, item: &SyntaxNode, field_type: Option<&SyntaxNode>, module: SymbolKey)
        requires
            old(self).inv(),
        ensures
            final(self).inv(),
            grows(old(self)@, final(self)@),
            final(self)@ == add_import_item(
                old(self)@,
                *item,
                match field_type {
                    Some(t) => Some(*t),
                    None => None,
                },
                module,
            ),
    {
        let ty = match find_extern_type(item) {
            Some(t) => Some(t),
            None => field_type,
        };
        match ty {
            Some(t) => {
                let target = match t.kind {
                    SyntaxKind::EXTERN_TYPE_FUNC => Some((Space::Func, SymbolKind::Func)),
                    SyntaxKind::EXTERN_TYPE_GLOBAL => Some((Space::Global, SymbolKind::GlobalDef)),
                    SyntaxKind::EXTERN_TYPE_MEMORY => Some((Space::Memory, SymbolKind::MemoryDef)),
                    SyntaxKind::EXTERN_TYPE_TABLE => Some((Space::Table, SymbolKind::TableDef)),
                    SyntaxKind::EXTERN_TYPE_TAG => Some((Space::Tag, SymbolKind::TagDef)),
                    _ => None,
                };
                match target {
                    Some((space, kind)) => self.add_def(item, space, kind, module, t),
                    None => {},
                }
            },
            None => {},
        }
    }

    fn enter_import(&mut self, node: &SyntaxNode, module: SymbolKey)
        requires
            old(self).inv(),
        ensures
            final(self).inv(),
            grows(old(self)@, final(self)@),
            final(self)@ == enter_import(old(self)@, *node, module),
    {
        let field_type = find_extern_type(node);
        let ghost ft = match field_type {
            Some(t) => Some(*t),
            None => None,
        };
        let mut items = node.children_of_kind(SyntaxKind::IMPORT_ITEM);
        let ghost item_nodes = stack_nodes(items@);
        if node.child_of_kind(SyntaxKind::NAME).is_some() {
            items.push(node);
            assert(stack_nodes(items@) =~= item_nodes.push(*node));
        }
        assert(stack_nodes(items@) =~= import_items(*node));
        let ghost all = stack_nodes(items@);
        let mut i: usize = 0;
        while i < items.len()
            invariant
                self.inv(),
                grows(old(self)@, self@),
                i <= items@.len(),
                all == stack_nodes(items@),
                self@ == add_import_items(old(self)@, all, ft, module, i as int),
                ft == match field_type {
                    Some(t) => Some(*t),
                    None => None,
                },
            decreases items@.len() - i,
        {
            assert(all[i as int] == *items@[i as int]);
            self.add_import_item(items[i], field_type, module);
            i = i + 1;
        }
    }

    fn enter_catch(&mut self, node: &SyntaxNode, stack: &Vec<&SyntaxNode>, module: SymbolKey)
        requires
            old(self).inv(),
        ensures
            final(self).inv(),
            grows(old(self)@, final(self)@),
            final(self)@ == enter_catch(old(self)@, *node, stack_nodes(stack@), module),
    {
        let nodes = node.nodes();
        self.add_first_ref(&nodes, module, SymbolKind::TagRef);
        let blocks = scope_list(stack);
        if blocks.len() >= 2 && nodes.len() >= 2 {
            assert(stack_nodes(blocks@)[1] == *blocks@[1]);
            assert(stack_nodes(nodes@)[1] == *nodes@[1]);
            self.add_block_ref(nodes[1], SymbolKey(blocks[1].to_ptr()), stack, true);
        }
    }

    fn enter_catch_all(&mut self, node: &SyntaxNode, stack: &Vec<&SyntaxNode>)
        requires
            old(self).inv(),
        ensures
            final(self).inv(),
            grows(old(self)@, final(self)@),
            final(self)@ == enter_catch_all(old(self)@, *node, stack_nodes(stack@)),
    {
        let indices = node.children_of_kind(SyntaxKind::INDEX);
        let blocks = scope_list(stack);
        if blocks.len() >= 2 && indices.len() >= 1 {
            assert(stack_nodes(blocks@)[1] == *blocks@[1]);
            assert(stack_nodes(indices@)[0] == *indices@[0]);
            self.add_block_ref(indices[0], SymbolKey(blocks[1].to_ptr()), stack, true);
        }
    }

    fn enter_on_clause(&mut self, node: &SyntaxNode, stack: &Vec<&SyntaxNode>, module: SymbolKey)
        requires
            old(self).inv(),
        ensures
            final(self).inv(),
            grows(old(self)@, final(self)@),
            final(self)@ == enter_on_clause(old(self)@, *node, stack_nodes(stack@), module),
    {
        let indices = node.children_of_kind(SyntaxKind::INDEX);
        self.add_first_ref(&indices, module, SymbolKind::TagRef);
        let blocks = scope_list(stack);
        if indices.len() >= 2 && blocks.len() >= 1 {
            assert(stack_nodes(blocks@)[0] == *blocks@[0]);
            assert(stack_nodes(indices@)[1] == *indices@[1]);
            self.add_block_ref(indices[1], SymbolKey(blocks[0].to_ptr()), stack, false);
        }
    }

    fn clear_locals(&mut self)
        ensures
            final(self)@ == clear_locals(old(self)@),
            final(self).symbols == old(self).symbols,
    {
        self.locals = Vec::new();
        self.reset(Space::Local);
    }

    fn enter(&mut self, node: &SyntaxNode, stack: &Vec<&SyntaxNode>, module: SymbolKey)
        requires
            old(self).inv(),
        ensures
            final(self).inv(),
            grows(old(self)@, final(self)@),
            final(self)@ == enter(old(self)@, *node, stack_nodes(stack@), module),
    {
        let ghost anc = stack_nodes(stack@);
        let k = node.kind;
        if k == SyntaxKind::MODULE_FIELD_FUNC {
            self.add_def(node, Space::Func, SymbolKind::Func, module, node);
            self.clear_locals();
        } else if k == SyntaxKind::PARAM {
            let n = stack.len();
            let region = if n >= 2 && stack[n - 2].kind == SyntaxKind::MODULE_FIELD_FUNC {
                Some(stack[n - 2])
            } else if n >= 3 && stack[n - 2].kind == SyntaxKind::SUB_TYPE {
                Some(stack[n - 3])
            } else {
                None
            };
            proof {
                if n >= 2 {
                    assert(anc[n - 2] == *stack@[n - 2]);
                }
                if n >= 3 {
                    assert(anc[n - 3] == *stack@[n - 3]);
                }
            }
            match region {
                Some(r) => self.add_local(node, r, SymbolKind::Param),
                None => {},
            }
        } else if k == SyntaxKind::LOCAL {
            if stack.len() > 0 {
                assert(anc.last() == *stack@[stack@.len() - 1]);
                self.add_local(node, stack[stack.len() - 1], SymbolKind::Local);
            }
        } else if k == SyntaxKind::TYPE_DEF {
            self.add_def(node, Space::Type, SymbolKind::Type, module, node);
        } else if k == SyntaxKind::FUNC_TYPE {
            self.clear_locals();
        } else if k == SyntaxKind::STRUCT_TYPE {
            self.reset(Space::Field);
        } else if k == SyntaxKind::FIELD {
            self.add_field(node, stack);
        } else if k == SyntaxKind::MODULE_FIELD_GLOBAL {
            self.add_def(node, Space::Global, SymbolKind::GlobalDef, module, node);
        } else if k == SyntaxKind::PLAIN_INSTR {
            self.enter_instr(node, stack, module);
        } else if k == SyntaxKind::BLOCK_BLOCK || k == SyntaxKind::BLOCK_LOOP || k == SyntaxKind::BLOCK_IF || k
            == SyntaxKind::BLOCK_TRY_TABLE {
            self.enter_block(node, stack);
        } else if k == SyntaxKind::MODULE_FIELD_START || k == SyntaxKind::EXTERN_IDX_FUNC {
            let indices = node.children_of_kind(SyntaxKind::INDEX);
            self.add_first_ref(&indices, module, SymbolKind::Call);
        } else if k == SyntaxKind::TYPE_USE || k == SyntaxKind::HEAP_TYPE || k == SyntaxKind::SUB_TYPE || k
            == SyntaxKind::CONT_TYPE {
            let indices = node.children_of_kind(SyntaxKind::INDEX);
            self.add_first_ref(&indices, module, SymbolKind::TypeUse);
        } else if k == SyntaxKind::MODULE_FIELD_MEMORY {
            self.add_def(node, Space::Memory, SymbolKind::MemoryDef, module, node);
        } else if k == SyntaxKind::MODULE_FIELD_TABLE {
            self.add_def(node, Space::Table, SymbolKind::TableDef, module, node);
        } else if k == SyntaxKind::MODULE_FIELD_TAG {
            self.add_def(node, Space::Tag, SymbolKind::TagDef, module, node);
        } else if k == SyntaxKind::EXTERN_IDX_GLOBAL {
            let indices = node.children_of_kind(SyntaxKind::INDEX);
            self.add_first_ref(&indices, module, SymbolKind::GlobalRef);
        } else if k == SyntaxKind::EXTERN_IDX_MEMORY || k == SyntaxKind::MEM_USE {
            let indices = node.children_of_kind(SyntaxKind::INDEX);
            self.add_first_ref(&indices, module, SymbolKind::MemoryRef);
        } else if k == SyntaxKind::EXTERN_IDX_TABLE || k == SyntaxKind::TABLE_USE {
            let indices = node.children_of_kind(SyntaxKind::INDEX);
            self.add_first_ref(&indices, module, SymbolKind::TableRef);
        } else if k == SyntaxKind::EXTERN_IDX_TAG {
            let indices = node.children_of_kind(SyntaxKind::INDEX);
            self.add_first_ref(&indices, module, SymbolKind::TagRef);
        } else if k == SyntaxKind::MODULE_FIELD_IMPORT {
            self.enter_import(node, module);
        } else if k == SyntaxKind::MODULE_FIELD_DATA {
            self.add_def(node, Space::Data, SymbolKind::DataDef, module, node);
        } else if k == SyntaxKind::MODULE_FIELD_ELEM {
            if node.token_of_kind(SyntaxKind::MODIFIER_KEYWORD).is_none() {
                self.add_def(node, Space::Elem, SymbolKind::ElemDef, module, node);
            }
        } else if k == SyntaxKind::ELEM_LIST {
            let indices = node.children_of_kind(SyntaxKind::INDEX);
            self.add_refs(&indices, module, SymbolKind::Call);
        } else if k == SyntaxKind::CATCH {
            self.enter_catch(node, stack, module);
        } else if k == SyntaxKind::CATCH_ALL {
            self.enter_catch_all(node, stack);
        } else if k == SyntaxKind::ON_CLAUSE {
            self.enter_on_clause(node, stack, module);
        }
    }

    /// Walks a node and the nodes below it: see `visit`.
    fn visit<'a>(&mut self, node: &'a SyntaxNode, stack: &mut Vec<&'a SyntaxNode>, module: SymbolKey)
        requires
            old(self).inv(),
        ensures
            final(self).inv(),
            grows(old(self)@, final(self)@),
            final(self)@ == visit(old(self)@, *node, stack_nodes(old(stack)@), module),
            final(stack)@ == old(stack)@,
        decreases node,
    {
        self.enter(node, stack, module);
        let ghost entered = self@;
        let ghost below = stack_nodes(stack@).push(*node);
        stack.push(node);
        assert(stack_nodes(stack@) =~= below);
        let mut i: usize = 0;
        while i < node.children.len()
            invariant
                self.inv(),
                grows(old(self)@, self@),
                i <= node.children@.len(),
                stack@ == old(stack)@.push(node),
                stack_nodes(stack@) == below,
                below == stack_nodes(old(stack)@).push(*node),
                self@ == visit_children(entered, node.children@, below, module, i as int),
            decreases node.children@.len() - i,
        {
            match &node.children[i] {
                SyntaxElement::Node(c) => {
                    self.visit(c, stack, module);
                },
                SyntaxElement::Token(_) => {},
            }
            i = i + 1;
        }
        stack.pop();
        assert(stack@ =~= old(stack)@);
    }
}

/// The position a definition stands at, unless it is the first one or
/// beyond the symbols.
pub open spec fn def_position(d: Option<Def>, len: int) -> Option<u32> {
    match d {
        Some(x) => if x.2 != 0 && (x.2 as int) < len {
            Some(x.2)
        } else {
            None
        },
        None => None,
    }
}

/// The definition key recorded for a position, the first among the first `n`.
pub open spec fn pre_lookup(pre: Seq<(u32, SymbolKey)>, pos: u32, n: int) -> Option<SymbolKey>
    decreases n,
{
    if n <= 0 {
        None
    } else {
        match pre_lookup(pre, pos, n - 1) {
            Some(k) => Some(k),
            None => if pre[n - 1].0 == pos {
                Some(pre[n - 1].1)
            } else {
                None
            },
        }
    }
}

/// What a symbol of the module just walked resolves to: a definition of its
/// space by index, the definition recorded while walking for locals and
/// labels, and for a field the field of the struct type its type reference
/// names. Definitions resolve to nothing.
pub open spec fn resolve_symbol(st: BindView, s: Symbol) -> Option<u32> {
    let len = st.symbols.len() as int;
    match s.kind {
        SymbolKind::Call => def_position(search_def(st.funcs, s.idx), len),
        SymbolKind::LocalRef | SymbolKind::BlockRef => match index_of_key(st.symbols, s.key) {
            Some(j) => match pre_lookup(st.pre_resolved, j as u32, st.pre_resolved.len() as int) {
                Some(k) => match index_of_key(st.symbols, k) {
                    Some(d) => if d != 0 {
                        Some(d as u32)
                    } else {
                        None
                    },
                    None => None,
                },
                None => None,
            },
            None => None,
        },
        SymbolKind::TypeUse => def_position(search_def(st.types, s.idx), len),
        SymbolKind::GlobalRef => def_position(search_def(st.globals, s.idx), len),
        SymbolKind::MemoryRef => def_position(search_def(st.memories, s.idx), len),
        SymbolKind::TableRef => def_position(search_def(st.tables, s.idx), len),
        SymbolKind::FieldRef => match symbol_of_key(st.symbols, s.region) {
            Some(tu) => match search_def(st.types, tu.idx) {
                Some(sd) => def_position(search_def(fields_of(st.fields, sd.0, st.fields.len() as int), s.idx), len),
                None => None,
            },
            None => None,
        },
        SymbolKind::TagRef => def_position(search_def(st.tags, s.idx), len),
        SymbolKind::DataRef => def_position(search_def(st.datas, s.idx), len),
        SymbolKind::ElemRef => def_position(search_def(st.elems, s.idx), len),
        _ => None,
    }
}

/// The new region of a field reference: the struct type definition that
/// its type reference resolves to.
pub open spec fn region_fix(symbols: Seq<Symbol>, resolved: Seq<Option<u32>>, i: int) -> Option<SymbolKey> {
    if symbols[i].kind == SymbolKind::FieldRef {
        match index_of_key(symbols, symbols[i].region) {
            Some(ri) => if ri < resolved.len() {
                match resolved[ri] {
                    Some(d) => if (d as int) < symbols.len() {
                        Some(symbols[d as int].key)
                    } else {
                        None
                    },
                    None => None,
                }
            } else {
                None
            },
            None => None,
        }
    } else {
        None
    }
}

/// The symbols with the regions of field references fixed.
pub open spec fn fixed_symbols(symbols: Seq<Symbol>, resolved: Seq<Option<u32>>) -> Seq<Symbol> {
    Seq::new(
        symbols.len(),
        |i: int|
            match region_fix(symbols, resolved, i) {
                Some(k) => Symbol { region: k, ..symbols[i] },
                None => symbols[i],
            },
    )
}

/// Whether a symbol is a parameter of the definition with the key.
pub open spec fn is_param_of(s: Symbol, key: SymbolKey) -> bool {
    s.kind == SymbolKind::Param && s.region == key
}

/// How many of the first `n` symbols are parameters of the definition.
pub open spec fn count_params(symbols: Seq<Symbol>, key: SymbolKey, n: int) -> nat
    decreases n,
{
    if n <= 0 {
        0
    } else {
        count_params(symbols, key, n - 1) + if is_param_of(symbols[n - 1], key) {
            1nat
        } else {
            0nat
        }
    }
}

/// Position of the parameter numbered `k` of the definition, among the
/// first `n` symbols.
pub open spec fn nth_param(symbols: Seq<Symbol>, key: SymbolKey, k: u32, n: int) -> Option<int>
    decreases n,
{
    if n <= 0 {
        None
    } else {
        match nth_param(symbols, key, k, n - 1) {
            Some(p) => Some(p),
            None => if is_param_of(symbols[n - 1], key) && count_params(symbols, key, n - 1) == k {
                Some(n - 1)
            } else {
                None
            },
        }
    }
}

/// A local reference by number bound to the parameter of that number of
/// the type its function uses.
pub open spec fn bind_indirect(symbols: Seq<Symbol>, resolved: Seq<Option<u32>>, e: (SymbolKey, u32, u32)) -> Seq<
    Option<u32>,
> {
    match index_of_key(symbols, e.0) {
        Some(ti) => if ti < resolved.len() {
            match resolved[ti] {
                Some(d) => if (d as int) < symbols.len() {
                    match nth_param(symbols, symbols[d as int].key, e.2, symbols.len() as int) {
                        Some(p) => if (e.1 as int) < resolved.len() {
                            resolved.update(
                                e.1 as int,
                                if p == 0 {
                                    None
                                } else {
                                    Some(p as u32)
                                },
                            )
                        } else {
                            resolved
                        },
                        None => resolved,
                    }
                } else {
                    resolved
                },
                None => resolved,
            }
        } else {
            resolved
        },
        None => resolved,
    }
}

/// The resolutions after binding the first `n` local references by number.
pub open spec fn bind_indirects(
    symbols: Seq<Symbol>,
    resolved: Seq<Option<u32>>,
    entries: Seq<(SymbolKey, u32, u32)>,
    n: int,
) -> Seq<Option<u32>>
    decreases n,
{
    if n <= 0 {
        resolved
    } else {
        bind_indirect(symbols, bind_indirects(symbols, resolved, entries, n - 1), entries[n - 1])
    }
}

proof fn lemma_pre_lookup_stable(pre: Seq<(u32, SymbolKey)>, pos: u32, a: int, n: int)
    requires
        0 <= a <= n,
        pre_lookup(pre, pos, a) is Some,
    ensures
        pre_lookup(pre, pos, n) == pre_lookup(pre, pos, a),
    decreases n - a,
{
    if n > a {
        lemma_pre_lookup_stable(pre, pos, a, n - 1);
    }
}

fn find_pre(pre: &Vec<(u32, SymbolKey)>, pos: u32) -> (r: Option<SymbolKey>)
    ensures
        r == pre_lookup(pre@, pos, pre@.len() as int),
{
    let mut i: usize = 0;
    while i < pre.len()
        invariant
            i <= pre@.len(),
            pre_lookup(pre@, pos, i as int) is None,
        decreases pre@.len() - i,
    {
        if pre[i].0 == pos {
            proof {
                lemma_pre_lookup_stable(pre@, pos, i + 1, pre@.len() as int);
            }
            return Some(pre[i].1);
        }
        i = i + 1;
    }
    None
}

fn collect_fields(fields: &Vec<(SymbolKey, Def)>, key: SymbolKey) -> (r: Vec<Def>)
    ensures
        r@ == fields_of(fields@, key, fields@.len() as int),
{
    let mut r: Vec<Def> = Vec::new();
    let mut i: usize = 0;
    while i < fields.len()
        invariant
            i <= fields@.len(),
            r@ == fields_of(fields@, key, i as int),
        decreases fields@.len() - i,
    {
        if fields[i].0 == key {
            r.push(fields[i].1);
        }
        i = i + 1;
    }
    r
}

fn position_of(d: Option<Def>, len: usize) -> (r: Option<u32>)
    ensures
        r == def_position(d, len as int),
{
    match d {
        Some(x) => if x.2 != 0 && (x.2 as usize) < len {
            Some(x.2)
        } else {
            None
        },
        None => None,
    }
}

impl Binder {
    fn resolve_symbol(&self, s: &Symbol) -> (r: Option<u32>)
        requires
            self.inv(),
        ensures
            r == resolve_symbol(self@, *s),
    {
        let len = self.symbols.len();
        match s.kind {
            SymbolKind::Call => position_of(find_def_of(&self.funcs, s.idx), len),
            SymbolKind::LocalRef | SymbolKind::BlockRef => match self.symbols.get_index_of(s.key) {
                Some(j) => match find_pre(&self.pre_resolved, j) {
                    Some(k) => match self.symbols.get_index_of(k) {
                        Some(d) => if d != 0 {
                            Some(d)
                        } else {
                            None
                        },
                        None => None,
                    },
                    None => None,
                },
                None => None,
            },
            SymbolKind::TypeUse => position_of(find_def_of(&self.types, s.idx), len),
            SymbolKind::GlobalRef => position_of(find_def_of(&self.globals, s.idx), len),
            SymbolKind::MemoryRef => position_of(find_def_of(&self.memories, s.idx), len),
            SymbolKind::TableRef => position_of(find_def_of(&self.tables, s.idx), len),
            SymbolKind::FieldRef => match self.symbols.get(s.region) {
                Some(tu) => match find_def_of(&self.types, tu.idx) {
                    Some(sd) => {
                        let fields = collect_fields(&self.fields, sd.0);
                        position_of(find_def_of(&fields, s.idx), len)
                    },
                    None => None,
                },
                None => None,
            },
            SymbolKind::TagRef => position_of(find_def_of(&self.tags, s.idx), len),
            SymbolKind::DataRef => position_of(find_def_of(&self.datas, s.idx), len),
            SymbolKind::ElemRef => position_of(find_def_of(&self.elems, s.idx), len),
            _ => None,
        }
    }
}

/// The keys of definitions.
pub open spec fn def_keys(d: Seq<Def>) -> Seq<SymbolKey> {
    d.map_values(|x: Def| x.0)
}

/// The definitions of a module, by index space.
pub struct ModuleView {
    pub key: SymbolKey,
    pub funcs: Seq<SymbolKey>,
    pub types: Seq<SymbolKey>,
    pub globals: Seq<SymbolKey>,
    pub memories: Seq<SymbolKey>,
    pub tables: Seq<SymbolKey>,
    pub tags: Seq<SymbolKey>,
    pub datas: Seq<SymbolKey>,
    pub elems: Seq<SymbolKey>,
}

/// The definitions that the walk of a module gathered.
pub open spec fn module_view(st: BindView, key: SymbolKey) -> ModuleView {
    ModuleView {
        key,
        funcs: def_keys(st.funcs),
        types: def_keys(st.types),
        globals: def_keys(st.globals),
        memories: def_keys(st.memories),
        tables: def_keys(st.tables),
        tags: def_keys(st.tags),
        datas: def_keys(st.datas),
        elems: def_keys(st.elems),
    }
}

/// What a module entry of a symbol table holds.
pub open spec fn module_entry_view(e: (SymbolKey, ModuleDefSymbols)) -> ModuleView {
    ModuleView {
        key: e.0,
        funcs: declared_keys(e.1, SymbolKind::Func),
        types: declared_keys(e.1, SymbolKind::Type),
        globals: declared_keys(e.1, SymbolKind::GlobalDef),
        memories: declared_keys(e.1, SymbolKind::MemoryDef),
        tables: declared_keys(e.1, SymbolKind::TableDef),
        tags: declared_keys(e.1, SymbolKind::TagDef),
        datas: declared_keys(e.1, SymbolKind::DataDef),
        elems: declared_keys(e.1, SymbolKind::ElemDef),
    }
}

/// What building a symbol table has produced so far: the walk's state, the
/// resolution of each symbol, and the definitions of each module.
pub struct BuildView {
    pub st: BindView,
    pub resolved: Seq<Option<u32>>,
    pub modules: Seq<ModuleView>,
}

/// The state at the start of a module: no definitions, every counter at zero.
pub open spec fn fresh_module(st: BindView) -> BindView {
    BindView {
        funcs: seq![],
        locals: seq![],
        types: seq![],
        globals: seq![],
        memories: seq![],
        tables: seq![],
        tags: seq![],
        datas: seq![],
        elems: seq![],
        fields: seq![],
        indirect: seq![],
        counters: zero_counters(),
        ..st
    }
}

/// Building the part of a symbol table for the module numbered `id`: its
/// own symbol, the walk below it, the resolution of its symbols, the
/// regions of field references, and the local references bound to the
/// parameters of a function's type.
pub open spec fn bind_module(b: BuildView, root: SyntaxNode, module: SyntaxNode, id: u32) -> BuildView {
    let key = node_key(module);
    let st0 = fresh_module(b.st);
    let start = st0.symbols.len();
    let (st1, name) = match child_token_of(module, SyntaxKind::IDENT) {
        Some(t) => {
            let (s1, n) = intern_text(st0, t.text@);
            (s1, Some(n))
        },
        None => (st0, None),
    };
    let st2 = add_symbol(
        st1,
        Symbol { key, region: node_key(root), kind: SymbolKind::Module, idx: Idx { num: Some(id), name } },
    ).0;
    let st3 = visit_children(st2, module.children@, seq![module], key, module.children@.len() as int);
    let resolved1 = b.resolved + Seq::new(
        (st3.symbols.len() - start) as nat,
        |j: int| resolve_symbol(st3, st3.symbols[start + j]),
    );
    let symbols = fixed_symbols(st3.symbols, resolved1);
    let resolved2 = bind_indirects(symbols, resolved1, st3.indirect, st3.indirect.len() as int);
    BuildView {
        st: BindView { symbols, ..st3 },
        resolved: resolved2,
        modules: b.modules.push(module_view(st3, key)),
    }
}

/// Building the parts for the first `n` modules.
pub open spec fn bind_modules(b: BuildView, root: SyntaxNode, modules: Seq<SyntaxNode>, n: int) -> BuildView
    decreases n,
{
    if n <= 0 {
        b
    } else {
        bind_module(bind_modules(b, root, modules, n - 1), root, modules[n - 1], (n - 1) as u32)
    }
}

/// Nothing built yet, with an identifier table.
pub open spec fn initial_build(idents: Seq<Seq<char>>) -> BuildView {
    BuildView {
        st: BindView {
            symbols: seq![],
            idents,
            funcs: seq![],
            locals: seq![],
            types: seq![],
            globals: seq![],
            memories: seq![],
            tables: seq![],
            tags: seq![],
            datas: seq![],
            elems: seq![],
            fields: seq![],
            indirect: seq![],
            pre_resolved: seq![],
            counters: zero_counters(),
            full: false,
        },
        resolved: seq![],
        modules: seq![],
    }
}

/// The symbol table of a document: the modules are the child nodes of the
/// root, taken in order.
pub open spec fn symbol_table_of(root: SyntaxNode, idents: Seq<Seq<char>>) -> BuildView {
    bind_modules(initial_build(idents), root, child_nodes(root), child_nodes(root).len() as int)
}

/// Whether every resolution names a symbol after the first one.
pub open spec fn resolutions_in_range(resolved: Seq<Option<u32>>, len: int) -> bool {
    forall|i: int| 0 <= i < resolved.len() ==> (#[trigger] resolved[i] matches Some(d) ==> 0 < d && (d as int) < len)
}

proof fn lemma_index_of_key_bound(values: Seq<Symbol>, key: SymbolKey)
    ensures
        index_of_key(values, key) matches Some(i) ==> 0 <= i < values.len() && values[i].key == key,
{
}

proof fn lemma_resolve_in_range(st: BindView, s: Symbol)
    requires
        st.symbols.len() < u32::MAX,
    ensures
        resolve_symbol(st, s) matches Some(d) ==> 0 < d && (d as int) < st.symbols.len(),
{
    lemma_index_of_key_bound(st.symbols, s.key);
    match s.kind {
        SymbolKind::LocalRef | SymbolKind::BlockRef => {
            match index_of_key(st.symbols, s.key) {
                Some(j) => match pre_lookup(st.pre_resolved, j as u32, st.pre_resolved.len() as int) {
                    Some(k) => {
                        lemma_index_of_key_bound(st.symbols, k);
                    },
                    None => {},
                },
                None => {},
            }
        },
        _ => {},
    }
}

proof fn lemma_nth_param_bound(symbols: Seq<Symbol>, key: SymbolKey, k: u32, n: int)
    requires
        n <= symbols.len(),
    ensures
        nth_param(symbols, key, k, n) matches Some(p) ==> 0 <= p < n,
    decreases n,
{
    if n > 0 {
        lemma_nth_param_bound(symbols, key, k, n - 1);
    }
}

proof fn lemma_resolve_reference(st: BindView, s: Symbol)
    ensures
        resolve_symbol(st, s) is Some ==> is_reference(s.kind),
{
}

proof fn lemma_bind_indirects_refs(
    symbols: Seq<Symbol>,
    resolved: Seq<Option<u32>>,
    entries: Seq<(SymbolKey, u32, u32)>,
    n: int,
)
    requires
        n <= entries.len(),
        refs_only(resolved, symbols),
        forall|k: int|
            0 <= k < entries.len() ==> (#[trigger] entries[k]).1 < symbols.len() && symbols[entries[k].1 as int].kind
                == SymbolKind::LocalRef,
    ensures
        refs_only(bind_indirects(symbols, resolved, entries, n), symbols),
    decreases n,
{
    if n > 0 {
        lemma_bind_indirects_refs(symbols, resolved, entries, n - 1);
        let e = entries[n - 1];
        assert(e.1 < symbols.len() && symbols[e.1 as int].kind == SymbolKind::LocalRef);
    }
}

proof fn lemma_bind_indirects_in_range(
    symbols: Seq<Symbol>,
    resolved: Seq<Option<u32>>,
    entries: Seq<(SymbolKey, u32, u32)>,
    n: int,
)
    requires
        n <= entries.len(),
        symbols.len() < u32::MAX,
        resolutions_in_range(resolved, symbols.len() as int),
    ensures
        resolutions_in_range(bind_indirects(symbols, resolved, entries, n), symbols.len() as int),
        bind_indirects(symbols, resolved, entries, n).len() == resolved.len(),
    decreases n,
{
    if n > 0 {
        lemma_bind_indirects_in_range(symbols, resolved, entries, n - 1);
        lemma_nth_param_bound(symbols, symbols[0].key, 0, 0);
        let r = bind_indirects(symbols, resolved, entries, n - 1);
        let e = entries[n - 1];
        match index_of_key(symbols, e.0) {
            Some(ti) => if ti < r.len() {
                match r[ti] {
                    Some(d) => if (d as int) < symbols.len() {
                        lemma_nth_param_bound(symbols, symbols[d as int].key, e.2, symbols.len() as int);
                    },
                    None => {},
                }
            },
            None => {},
        }
    }
}

fn keys_of(defs: &Vec<Def>) -> (r: Vec<SymbolKey>)
    ensures
        r@ == def_keys(defs@),
{
    let mut r: Vec<SymbolKey> = Vec::new();
    let mut i: usize = 0;
    while i < defs.len()
        invariant
            i <= defs@.len(),
            r@ == def_keys(defs@.take(i as int)),
        decreases defs@.len() - i,
    {
        r.push(defs[i].0);
        assert(def_keys(defs@.take(i + 1)) =~= def_keys(defs@.take(i as int)).push(defs@[i as int].0));
        i = i + 1;
    }
    assert(defs@.take(defs@.len() as int) =~= defs@);
    r
}

fn region_fix_at(symbols: &Symbols, resolved: &Vec<Option<u32>>, i: usize) -> (r: Option<SymbolKey>)
    requires
        symbols.wf(),
        i < symbols@.len(),
    ensures
        r == region_fix(symbols@, resolved@, i as int),
{
    proof {
        symbols.lemma_len();
    }
    let s = match symbols.get_index(i as u32) {
        Some(s) => *s,
        None => return None,
    };
    if s.kind != SymbolKind::FieldRef {
        return None;
    }
    match symbols.get_index_of(s.region) {
        Some(ri) => {
            if (ri as usize) < resolved.len() {
                match resolved[ri as usize] {
                    Some(d) => match symbols.get_index(d) {
                        Some(def) => Some(def.key),
                        None => None,
                    },
                    None => None,
                }
            } else {
                None
            }
        },
        None => None,
    }
}

fn find_nth_param(symbols: &Symbols, key: SymbolKey, k: u32) -> (r: Option<usize>)
    requires
        symbols.wf(),
    ensures
        match nth_param(symbols@, key, k, symbols@.len() as int) {
            Some(p) => r == Some(p as usize),
            None => r is None,
        },
{
    proof {
        symbols.lemma_len();
    }
    let all = symbols.iter();
    let mut count: u64 = 0;
    let mut i: usize = 0;
    while i < all.len()
        invariant
            all@ == symbols@,
            i <= all@.len(),
            all@.len() < u32::MAX,
            count == count_params(symbols@, key, i as int),
            count <= i,
            nth_param(symbols@, key, k, i as int) is None,
        decreases all@.len() - i,
    {
        let s = all[i];
        if s.kind == SymbolKind::Param && s.region == key {
            if count == k as u64 {
                proof {
                    lemma_nth_param_stable(symbols@, key, k, i + 1, symbols@.len() as int);
                }
                return Some(i);
            }
            count = count + 1;
        }
        i = i + 1;
    }
    None
}

proof fn lemma_nth_param_stable(symbols: Seq<Symbol>, key: SymbolKey, k: u32, a: int, n: int)
    requires
        0 <= a <= n,
        nth_param(symbols, key, k, a) is Some,
    ensures
        nth_param(symbols, key, k, n) == nth_param(symbols, key, k, a),
    decreases n - a,
{
    if n > a {
        lemma_nth_param_stable(symbols, key, k, a, n - 1);
    }
}

fn bind_indirect_at(symbols: &Symbols, resolved: &mut Vec<Option<u32>>, e: (SymbolKey, u32, u32))
    requires
        symbols.wf(),
    ensures
        final(resolved)@ == bind_indirect(symbols@, old(resolved)@, e),
{
    proof {
        symbols.lemma_len();
    }
    let ti = match symbols.get_index_of(e.0) {
        Some(t) => t,
        None => return ,
    };
    if (ti as usize) >= resolved.len() {
        return ;
    }
    let d = match resolved[ti as usize] {
        Some(d) => d,
        None => return ,
    };
    let def = match symbols.get_index(d) {
        Some(s) => *s,
        None => return ,
    };
    proof {
        lemma_nth_param_bound(symbols@, def.key, e.2, symbols@.len() as int);
    }
    match find_nth_param(symbols, def.key, e.2) {
        Some(p) => {
            if (e.1 as usize) < resolved.len() {
                let v = if p == 0 {
                    None
                } else {
                    Some(p as u32)
                };
                resolved.set(e.1 as usize, v);
            }
        },
        None => {},
    }
}

impl Binder {
    fn fresh_module(&mut self)
        ensures
            final(self)@ == fresh_module(old(self)@),
            final(self).symbols == old(self).symbols,
    {
        self.funcs = Vec::new();
        self.locals = Vec::new();
        self.types = Vec::new();
        self.globals = Vec::new();
        self.memories = Vec::new();
        self.tables = Vec::new();
        self.tags = Vec::new();
        self.datas = Vec::new();
        self.elems = Vec::new();
        self.fields = Vec::new();
        self.indirect = Vec::new();
        self.counters = Counters {
            func: 0,
            local: 0,
            ty: 0,
            global: 0,
            memory: 0,
            table: 0,
            field: 0,
            tag: 0,
            data: 0,
            elem: 0,
        };
    }

    fn resolve_from(&self, start: usize, resolved: &mut Vec<Option<u32>>)
        requires
            self.inv(),
            start == old(resolved)@.len(),
            start <= self@.symbols.len(),
            resolutions_in_range(old(resolved)@, self@.symbols.len() as int),
            refs_only(old(resolved)@, self@.symbols),
        ensures
            final(resolved)@ == old(resolved)@ + Seq::new(
                (self@.symbols.len() - start) as nat,
                |j: int| resolve_symbol(self@, self@.symbols[start + j]),
            ),
            resolutions_in_range(final(resolved)@, self@.symbols.len() as int),
            refs_only(final(resolved)@, self@.symbols),
    {
        let ghost st = self@;
        let n = self.symbols.len();
        proof {
            self.symbols.lemma_len();
        }
        let mut k = start;
        assert(old(resolved)@ + Seq::new(0nat, |j: int| resolve_symbol(st, st.symbols[start + j])) =~= old(
            resolved,
        )@);
        while k < n
            invariant
                self.inv(),
                self@ == st,
                n == st.symbols.len(),
                n < u32::MAX,
                start <= k <= n,
                start == old(resolved)@.len(),
                resolved@ == old(resolved)@ + Seq::new(
                    (k - start) as nat,
                    |j: int| resolve_symbol(st, st.symbols[start + j]),
                ),
                resolutions_in_range(resolved@, n as int),
                refs_only(resolved@, st.symbols),
            decreases n - k,
        {
            let s = match self.symbols.get_index(k as u32) {
                Some(s) => *s,
                None => {
                    assert(false);
                    return ;
                },
            };
            let r = self.resolve_symbol(&s);
            proof {
                lemma_resolve_in_range(st, s);
                lemma_resolve_reference(st, s);
            }
            let ghost before = resolved@;
            resolved.push(r);
            proof {
                assert(s == st.symbols[k as int]);
                assert(resolved@ =~= old(resolved)@ + Seq::new(
                    (k + 1 - start) as nat,
                    |j: int| resolve_symbol(st, st.symbols[start + j]),
                ));
                assert forall|x: int| 0 <= x < resolved@.len() implies (#[trigger] resolved@[x] matches Some(d) ==> 0
                    < d && (d as int) < n) by {
                    if x < before.len() {
                        assert(resolved@[x] == before[x]);
                    }
                }
                assert forall|x: int|
                    0 <= x < resolved@.len() && (#[trigger] resolved@[x]) is Some implies x < st.symbols.len()
                    && is_reference(st.symbols[x].kind) by {
                    if x < before.len() {
                        assert(resolved@[x] == before[x]);
                    }
                }
            }
            k = k + 1;
        }
    }

    fn fix_regions(&mut self, resolved: &Vec<Option<u32>>)
        requires
            old(self).inv(),
        ensures
            final(self).inv(),
            final(self)@ == (BindView { symbols: fixed_symbols(old(self)@.symbols, resolved@), ..old(self)@ }),
    {
        let ghost st = self@;
        let ghost fixed = fixed_symbols(st.symbols, resolved@);
        let n = self.symbols.len();
        let mut fixes: Vec<Option<SymbolKey>> = Vec::new();
        let mut j: usize = 0;
        while j < n
            invariant
                self.inv(),
                self@ == st,
                n == st.symbols.len(),
                j <= n,
                fixes@.len() == j,
                forall|x: int| 0 <= x < j ==> #[trigger] fixes@[x] == region_fix(st.symbols, resolved@, x),
            decreases n - j,
        {
            let f = region_fix_at(&self.symbols, resolved, j);
            fixes.push(f);
            j = j + 1;
        }
        let mut j: usize = 0;
        while j < n
            invariant
                self.symbols.wf(),
                n == st.symbols.len(),
                self@ == (BindView { symbols: self@.symbols, ..st }),
                self@.symbols.len() == n,
                j <= n,
                fixes@.len() == n,
                forall|x: int| 0 <= x < n ==> #[trigger] fixes@[x] == region_fix(st.symbols, resolved@, x),
                fixed == fixed_symbols(st.symbols, resolved@),
                forall|x: int| 0 <= x < j ==> #[trigger] self@.symbols[x] == fixed[x],
                forall|x: int| j <= x < n ==> #[trigger] self@.symbols[x] == st.symbols[x],
            decreases n - j,
        {
            let ghost pre = self@.symbols;
            match fixes[j] {
                Some(r) => {
                    self.symbols.set_region(j, r);
                },
                None => {},
            }
            proof {
                assert(fixed[j as int] == match region_fix(st.symbols, resolved@, j as int) {
                    Some(k) => Symbol { region: k, ..st.symbols[j as int] },
                    None => st.symbols[j as int],
                });
                assert forall|x: int| 0 <= x < j + 1 implies #[trigger] self@.symbols[x] == fixed[x] by {
                    if x < j {
                        assert(self@.symbols[x] == pre[x]);
                    }
                }
                assert forall|x: int| j + 1 <= x < n implies #[trigger] self@.symbols[x] == st.symbols[x] by {
                    assert(self@.symbols[x] == pre[x]);
                }
            }
            j = j + 1;
        }
        assert(self@.symbols =~= fixed);
        assert forall|x: int| 0 <= x < st.indirect.len() implies (#[trigger] st.indirect[x]).1 < fixed.len()
            && fixed[st.indirect[x].1 as int].kind == SymbolKind::LocalRef by {
            assert(fixed[st.indirect[x].1 as int].kind == st.symbols[st.indirect[x].1 as int].kind);
        }
    }

    fn bind_pending(&self, resolved: &mut Vec<Option<u32>>)
        requires
            self.inv(),
        ensures
            final(resolved)@ == bind_indirects(self@.symbols, old(resolved)@, self@.indirect, self@.indirect.len() as int),
    {
        let mut e: usize = 0;
        while e < self.indirect.len()
            invariant
                self.inv(),
                e <= self@.indirect.len(),
                resolved@ == bind_indirects(self@.symbols, old(resolved)@, self@.indirect, e as int),
            decreases self@.indirect.len() - e,
        {
            bind_indirect_at(&self.symbols, resolved, self.indirect[e]);
            e = e + 1;
        }
    }

    fn bind_module(
        &mut self,
        root: &SyntaxNode,
        module: &SyntaxNode,
        id: u32,
        resolved: &mut Vec<Option<u32>>,
        modules: &mut Vec<(SymbolKey, ModuleDefSymbols)>,
    )
        requires
            old(self).inv(),
            old(resolved)@.len() == old(self)@.symbols.len(),
            resolutions_in_range(old(resolved)@, old(self)@.symbols.len() as int),
            refs_only(old(resolved)@, old(self)@.symbols),
        ensures
            refs_only(final(resolved)@, final(self)@.symbols),
            old(self)@.symbols.len() == 0 && !final(self)@.full ==> final(self)@.symbols.len() > 0
                && final(self)@.symbols[0].kind == SymbolKind::Module && final(self)@.symbols[0].key == node_key(
                *module,
            ),
            final(self).inv(),
            keeps(old(self)@, final(self)@),
            final(resolved)@.len() == final(self)@.symbols.len(),
            resolutions_in_range(final(resolved)@, final(self)@.symbols.len() as int),
            ({
                let b = bind_module(
                    BuildView {
                        st: old(self)@,
                        resolved: old(resolved)@,
                        modules: old(modules)@.map_values(|e: (SymbolKey, ModuleDefSymbols)| module_entry_view(e)),
                    },
                    *root,
                    *module,
                    id,
                );
                &&& final(self)@ == b.st
                &&& final(resolved)@ == b.resolved
                &&& final(modules)@.map_values(|e: (SymbolKey, ModuleDefSymbols)| module_entry_view(e)) == b.modules
            }),
    {
        let key = SymbolKey(module.to_ptr());
        self.fresh_module();
        let start = self.symbols.len();
        let name = match module.token_of_kind(SyntaxKind::IDENT) {
            Some(t) => Some(self.intern(t.text.as_str())),
            None => None,
        };
        let ghost st1 = self@;
        self.add_symbol(
            Symbol {
                key,
                region: SymbolKey(root.to_ptr()),
                kind: SymbolKind::Module,
                idx: Idx { num: Some(id), name },
            },
        );
        let ghost st2 = self@;
        proof {
            if st1.symbols.len() == 0 && !st2.full {
                assert(!has_key(st1.symbols, key));
                assert(st2.symbols.len() == 1);
            }
        }
        let mut stack: Vec<&SyntaxNode> = Vec::new();
        stack.push(module);
        assert(stack_nodes(stack@) =~= seq![*module]);
        let mut i: usize = 0;
        while i < module.children.len()
            invariant
                self.inv(),
                grows(old(self)@, self@),
                grows(st2, self@),
                i <= module.children@.len(),
                stack@ == seq![module],
                stack_nodes(stack@) == seq![*module],
                self@ == visit_children(st2, module.children@, seq![*module], key, i as int),
            decreases module.children@.len() - i,
        {
            match &module.children[i] {
                SyntaxElement::Node(c) => {
                    self.visit(c, &mut stack, key);
                },
                SyntaxElement::Token(_) => {},
            }
            i = i + 1;
        }
        let ghost st3 = self@;
        proof {
            self.symbols.lemma_len();
            assert forall|x: int| 0 <= x < old(resolved)@.len() implies (#[trigger] old(resolved)@[x] matches Some(
                d,
            ) ==> 0 < d && (d as int) < st3.symbols.len()) by {}
            assert forall|x: int|
                0 <= x < old(resolved)@.len() && (#[trigger] old(resolved)@[x]) is Some implies x < st3.symbols.len()
                && is_reference(st3.symbols[x].kind) by {
                assert(st3.symbols[x] == old(self)@.symbols[x]);
            }
        }
        self.resolve_from(start, resolved);
        let ghost resolved1 = resolved@;
        self.fix_regions(resolved);
        let ghost fixed = fixed_symbols(st3.symbols, resolved1);
        proof {
            assert forall|x: int|
                0 <= x < resolved1.len() && (#[trigger] resolved1[x]) is Some implies x < fixed.len() && is_reference(
                fixed[x].kind,
            ) by {
                assert(fixed[x].kind == st3.symbols[x].kind);
            }
            lemma_bind_indirects_refs(fixed, resolved1, st3.indirect, st3.indirect.len() as int);
            lemma_bind_indirects_in_range(fixed, resolved1, st3.indirect, st3.indirect.len() as int);
        }
        self.bind_pending(resolved);
        let entry = ModuleDefSymbols {
            funcs: keys_of(&self.funcs),
            types: keys_of(&self.types),
            globals: keys_of(&self.globals),
            memories: key_list_from_vec(keys_of(&self.memories)),
            tables: key_list_from_vec(keys_of(&self.tables)),
            tags: keys_of(&self.tags),
            datas: keys_of(&self.datas),
            elems: keys_of(&self.elems),
        };
        let ghost before_modules = modules@;
        modules.push((key, entry));
        assert(modules@.map_values(|e: (SymbolKey, ModuleDefSymbols)| module_entry_view(e)) =~= before_modules.map_values(
            |e: (SymbolKey, ModuleDefSymbols)| module_entry_view(e),
        ).push(module_view(st3, key)));
    }
}

/// Builds the symbol table of a document whose syntax tree is `root`,
/// interning identifiers into `idents`: see `symbol_table_of`. `None` when
/// positions or indices would leave `u32`.
pub fn create_symbol_table(root: &SyntaxNode, idents: &mut Vec<String>) -> (r: Option<SymbolTable>)
    ensures
        ({
            let b = symbol_table_of(*root, old(idents)@.map_values(|s: String| s@));
            &&& final(idents)@.map_values(|s: String| s@) == b.st.idents
            &&& match r {
                Some(t) => {
                    &&& !b.st.full
                    &&& t.wf()
                    &&& t.symbols@ == b.st.symbols
                    &&& t.resolved@ == b.resolved
                    &&& t.modules@.map_values(|e: (SymbolKey, ModuleDefSymbols)| module_entry_view(e)) == b.modules
                    &&& refs_only(t.resolved@, t.symbols@)
                    &&& child_nodes(*root).len() > 0 ==> t.symbols@[0].kind == SymbolKind::Module && t.symbols@[0].key
                        == node_key(child_nodes(*root)[0])
                },
                None => b.st.full,
            }
        }),
{
    let mut b = Binder {
        symbols: Symbols::new(),
        idents: Vec::new(),
        funcs: Vec::new(),
        locals: Vec::new(),
        types: Vec::new(),
        globals: Vec::new(),
        memories: Vec::new(),
        tables: Vec::new(),
        tags: Vec::new(),
        datas: Vec::new(),
        elems: Vec::new(),
        fields: Vec::new(),
        indirect: Vec::new(),
        pre_resolved: Vec::new(),
        counters: Counters {
            func: 0,
            local: 0,
            ty: 0,
            global: 0,
            memory: 0,
            table: 0,
            field: 0,
            tag: 0,
            data: 0,
            elem: 0,
        },
        full: false,
    };
    std::mem::swap(&mut b.idents, idents);
    let mut resolved: Vec<Option<u32>> = Vec::new();
    let mut modules: Vec<(SymbolKey, ModuleDefSymbols)> = Vec::new();
    let nodes = root.nodes();
    let ghost all = stack_nodes(nodes@);
    let ghost start = initial_build(old(idents)@.map_values(|s: String| s@));
    assert(b@ == start.st);
    assert(modules@.map_values(|e: (SymbolKey, ModuleDefSymbols)| module_entry_view(e)) =~= start.modules);
    let mut i: usize = 0;
    while i < nodes.len()
        invariant
            b.inv(),
            i <= nodes@.len(),
            all == stack_nodes(nodes@),
            all == child_nodes(*root),
            resolved@.len() == b@.symbols.len(),
            resolutions_in_range(resolved@, b@.symbols.len() as int),
            refs_only(resolved@, b@.symbols),
            i == 0 ==> b@.symbols.len() == 0,
            i > 0 && !b@.full ==> b@.symbols.len() > 0 && b@.symbols[0].kind == SymbolKind::Module
                && b@.symbols[0].key == node_key(all[0]),
            ({
                let bv = bind_modules(start, *root, all, i as int);
                &&& b@ == bv.st
                &&& resolved@ == bv.resolved
                &&& modules@.map_values(|e: (SymbolKey, ModuleDefSymbols)| module_entry_view(e)) == bv.modules
            }),
        decreases nodes@.len() - i,
    {
        assert(all[i as int] == *nodes@[i as int]);
        let ghost before = b@;
        b.bind_module(root, nodes[i], i as u32, &mut resolved, &mut modules);
        proof {
            if i > 0 && !b@.full {
                assert(!before.full);
                assert(b@.symbols[0].key == before.symbols[0].key && b@.symbols[0].kind == before.symbols[0].kind);
            }
        }
        i = i + 1;
    }
    std::mem::swap(&mut b.idents, idents);
    if b.full {
        return None;
    }
    Some(SymbolTable { symbols: b.symbols, resolved, modules })
}

} // verus!
