//! Symbols of a document and the table that resolves uses to definitions.

use crate::idx::{Idx, InternIdent};
use crate::syntax::SyntaxNodePtr;
use hashbrown::HashTable;
use rustc_hash::FxBuildHasher;
use smallvec::SmallVec;
use std::hash::BuildHasher;
use vstd::multiset::Multiset;
use vstd::prelude::*;

verus! {

/// Key of a symbol: the pointer to the syntax node that declares or uses it.
#[derive(Clone, Copy, Debug, PartialEq, Eq, Hash, Structural)]
pub struct SymbolKey(pub SyntaxNodePtr);

/// Kinds of symbols: definitions and the references to them.
#[derive(Clone, Copy, Debug, PartialEq, Eq, Hash, Structural)]
pub enum SymbolKind {
    Module,
    Func,
    Param,
    Local,
    Call,
    LocalRef,
    Type,
    TypeUse,
    GlobalDef,
    GlobalRef,
    MemoryDef,
    MemoryRef,
    TableDef,
    TableRef,
    BlockDef,
    BlockRef,
    FieldDef,
    FieldRef,
    TagDef,
    TagRef,
    DataDef,
    DataRef,
    ElemDef,
    ElemRef,
}

/// The word shown to users for a symbol kind.
pub open spec fn symbol_kind_text(kind: SymbolKind) -> Seq<char> {
    match kind {
        SymbolKind::Module => "module"@,
        SymbolKind::Func | SymbolKind::Call => "func"@,
        SymbolKind::Param => "param"@,
        SymbolKind::Local => "local"@,
        SymbolKind::LocalRef => "param or local"@,
        SymbolKind::Type | SymbolKind::TypeUse => "type"@,
        SymbolKind::GlobalDef | SymbolKind::GlobalRef => "global"@,
        SymbolKind::MemoryDef | SymbolKind::MemoryRef => "memory"@,
        SymbolKind::TableDef | SymbolKind::TableRef => "table"@,
        SymbolKind::BlockDef | SymbolKind::BlockRef => "label"@,
        SymbolKind::FieldDef | SymbolKind::FieldRef => "field"@,
        SymbolKind::TagDef | SymbolKind::TagRef => "tag"@,
        SymbolKind::DataDef | SymbolKind::DataRef => "data segment"@,
        SymbolKind::ElemDef | SymbolKind::ElemRef => "elem segment"@,
    }
}

impl SymbolKind {
    /// The text that displays this kind in messages.
    pub fn text(&self) -> (r: &'static str)
        ensures
            r@ == symbol_kind_text(*self),
    {
        match self {
            SymbolKind::Module => "module",
            SymbolKind::Func | SymbolKind::Call => "func",
            SymbolKind::Param => "param",
            SymbolKind::Local => "local",
            SymbolKind::LocalRef => "param or local",
            SymbolKind::Type | SymbolKind::TypeUse => "type",
            SymbolKind::GlobalDef | SymbolKind::GlobalRef => "global",
            SymbolKind::MemoryDef | SymbolKind::MemoryRef => "memory",
            SymbolKind::TableDef | SymbolKind::TableRef => "table",
            SymbolKind::BlockDef | SymbolKind::BlockRef => "label",
            SymbolKind::FieldDef | SymbolKind::FieldRef => "field",
            SymbolKind::TagDef | SymbolKind::TagRef => "tag",
            SymbolKind::DataDef | SymbolKind::DataRef => "data segment",
            SymbolKind::ElemDef | SymbolKind::ElemRef => "elem segment",
        }
    }
}

/// Kinds of index spaces.
#[derive(Clone, Copy, Debug, PartialEq, Eq, Hash, Structural)]
pub enum IdxKind {
    Module,
    Func,
    Local,
    Type,
    Global,
    Memory,
    Table,
    Block,
    Field,
    Tag,
    Data,
    Elem,
}

/// The index space that a symbol of the given kind lives in.
pub open spec fn idx_kind_of(kind: SymbolKind) -> IdxKind {
    match kind {
        SymbolKind::Module => IdxKind::Module,
        SymbolKind::Func | SymbolKind::Call => IdxKind::Func,
        SymbolKind::Param | SymbolKind::Local | SymbolKind::LocalRef => IdxKind::Local,
        SymbolKind::Type | SymbolKind::TypeUse => IdxKind::Type,
        SymbolKind::GlobalDef | SymbolKind::GlobalRef => IdxKind::Global,
        SymbolKind::MemoryDef | SymbolKind::MemoryRef => IdxKind::Memory,
        SymbolKind::TableDef | SymbolKind::TableRef => IdxKind::Table,
        SymbolKind::BlockDef | SymbolKind::BlockRef => IdxKind::Block,
        SymbolKind::FieldDef | SymbolKind::FieldRef => IdxKind::Field,
        SymbolKind::TagDef | SymbolKind::TagRef => IdxKind::Tag,
        SymbolKind::DataDef | SymbolKind::DataRef => IdxKind::Data,
        SymbolKind::ElemDef | SymbolKind::ElemRef => IdxKind::Elem,
    }
}

impl From<SymbolKind> for IdxKind {
    fn from(value: SymbolKind) -> (r: IdxKind) {
        match value {
            SymbolKind::Module => IdxKind::Module,
            SymbolKind::Func | SymbolKind::Call => IdxKind::Func,
            SymbolKind::Param | SymbolKind::Local | SymbolKind::LocalRef => IdxKind::Local,
            SymbolKind::Type | SymbolKind::TypeUse => IdxKind::Type,
            SymbolKind::GlobalDef | SymbolKind::GlobalRef => IdxKind::Global,
            SymbolKind::MemoryDef | SymbolKind::MemoryRef => IdxKind::Memory,
            SymbolKind::TableDef | SymbolKind::TableRef => IdxKind::Table,
            SymbolKind::BlockDef | SymbolKind::BlockRef => IdxKind::Block,
            SymbolKind::FieldDef | SymbolKind::FieldRef => IdxKind::Field,
            SymbolKind::TagDef | SymbolKind::TagRef => IdxKind::Tag,
            SymbolKind::DataDef | SymbolKind::DataRef => IdxKind::Data,
            SymbolKind::ElemDef | SymbolKind::ElemRef => IdxKind::Elem,
        }
    }
}

impl vstd::std_specs::convert::FromSpecImpl<SymbolKind> for IdxKind {
    open spec fn obeys_from_spec() -> bool {
        true
    }

    open spec fn from_spec(value: SymbolKind) -> IdxKind {
        idx_kind_of(value)
    }
}

/// The word shown to users for an index space.
pub open spec fn idx_kind_text(kind: IdxKind) -> Seq<char> {
    match kind {
        IdxKind::Module => "module"@,
        IdxKind::Func => "func"@,
        IdxKind::Local => "param or local"@,
        IdxKind::Type => "type"@,
        IdxKind::Global => "global"@,
        IdxKind::Memory => "memory"@,
        IdxKind::Table => "table"@,
        IdxKind::Block => "label"@,
        IdxKind::Field => "field"@,
        IdxKind::Tag => "tag"@,
        IdxKind::Data => "data segment"@,
        IdxKind::Elem => "elem segment"@,
    }
}

impl IdxKind {
    /// The text that displays this index space in messages.
    pub fn text(&self) -> (r: &'static str)
        ensures
            r@ == idx_kind_text(*self),
    {
        match self {
            IdxKind::Module => "module",
            IdxKind::Func => "func",
            IdxKind::Local => "param or local",
            IdxKind::Type => "type",
            IdxKind::Global => "global",
            IdxKind::Memory => "memory",
            IdxKind::Table => "table",
            IdxKind::Block => "label",
            IdxKind::Field => "field",
            IdxKind::Tag => "tag",
            IdxKind::Data => "data segment",
            IdxKind::Elem => "elem segment",
        }
    }
}

/// A symbol: a definition or a reference found in the document.
#[derive(Clone, Copy, Debug)]
pub struct Symbol {
    pub key: SymbolKey,
    /// The key of the enclosing module or function.
    pub region: SymbolKey,
    pub kind: SymbolKind,
    pub idx: Idx,
}

impl PartialEq for Symbol {
    fn eq(&self, other: &Self) -> (r: bool) {
        self.key == other.key
    }
}

impl vstd::std_specs::cmp::PartialEqSpecImpl for Symbol {
    open spec fn obeys_eq_spec() -> bool {
        true
    }

    open spec fn eq_spec(&self, other: &Self) -> bool {
        self.key == other.key
    }
}

/// A hash table of `u32` positions, each stored with the hash it was inserted with.
#[verifier::external_body]
pub struct IndexTable {
    table: HashTable<u32>,
}

/// The entries of an index table: each position with the hash it was inserted with.
pub uninterp spec fn index_table_entries(t: IndexTable) -> Multiset<(u32, u64)>;

#[verifier::external_type_specification]
#[verifier::external_body]
pub struct ExFxBuildHasher(FxBuildHasher);

/// The hash that `rustc_hash`'s `FxBuildHasher` gives a symbol key on a target
/// whose words have `word_bits` bits.
pub uninterp spec fn fx_hash_of_key(key: SymbolKey, word_bits: u32) -> u64;

/// Calls `hashbrown::HashTable::new`: the table starts with no entries.
#[verifier::external_body]
fn index_table_new() -> (t: IndexTable)
    ensures
        index_table_entries(t) =~= Multiset::empty(),
{
    IndexTable { table: HashTable::new() }
}

/// Whether position `i` holds a symbol with key `key`.
pub open spec fn key_at(values: Seq<Symbol>, i: u32, key: SymbolKey) -> bool {
    (i as int) < values.len() && values[i as int].key == key
}

fn symbol_has_key(values: &Vec<Symbol>, i: u32, key: SymbolKey) -> (r: bool)
    ensures
        r == key_at(values@, i, key),
{
    (i as usize) < values.len() && values[i as usize].key == key
}

/// The hash that an index table stores for position `i`.
pub open spec fn hash_at(values: Seq<Symbol>, i: u32) -> u64 {
    if (i as int) < values.len() {
        fx_hash_of_key(values[i as int].key, usize::BITS)
    } else {
        0
    }
}

fn key_hash_at(values: &Vec<Symbol>, build_hasher: &FxBuildHasher, i: u32) -> (r: u64)
    ensures
        r == hash_at(values@, i),
{
    if (i as usize) < values.len() {
        fx_hash_key(build_hasher, &values[i as usize].key)
    } else {
        0
    }
}

/// Calls `hashbrown::HashTable::find` with an equality test that compares the
/// key of the symbol at a position. By hashbrown's documentation, the test is
/// called for every entry stored with `hash`, and an entry is returned only when
/// the test holds for it.
#[verifier::external_body]
fn index_table_find(t: &IndexTable, hash: u64, values: &Vec<Symbol>, key: SymbolKey) -> (r: Option<
    u32,
>)
    ensures
        r matches Some(i) ==> key_at(values@, i, key) && exists|h: u64|
            #[trigger] index_table_entries(*t).count((i, h)) > 0,
        r is None ==> forall|i: u32|
            #[trigger] index_table_entries(*t).count((i, hash)) > 0 ==> !key_at(values@, i, key),
{
    t.table.find(hash, |i| symbol_has_key(values, *i, key)).copied()
}

/// Calls `hashbrown::HashTable::insert_unique`: the position is added with the
/// given hash. The re-hashing function handed to it gives every stored entry
/// the hash it was inserted with, as hashbrown demands.
#[verifier::external_body]
fn index_table_insert_unique(
    t: &mut IndexTable,
    hash: u64,
    value: u32,
    values: &Vec<Symbol>,
    build_hasher: &FxBuildHasher,
)
    requires
        forall|v: u32, h: u64|
            #[trigger] index_table_entries(*old(t)).count((v, h)) > 0 ==> h == hash_at(values@, v),
    ensures
        index_table_entries(*final(t)) == index_table_entries(*old(t)).insert((value, hash)),
{
    t.table.insert_unique(hash, value, |i| key_hash_at(values, build_hasher, *i));
}

/// Creates `rustc_hash::FxBuildHasher`, which carries no state.
#[verifier::external_body]
fn fx_build_hasher() -> FxBuildHasher {
    FxBuildHasher
}

/// Calls `BuildHasher::hash_one` of `rustc_hash::FxBuildHasher` on a key. The
/// Fx hash has no seed: it is a function of the key and of the target's word size.
#[verifier::external_body]
fn fx_hash_key(build_hasher: &FxBuildHasher, key: &SymbolKey) -> (h: u64)
    ensures
        h == fx_hash_of_key(*key, usize::BITS),
{
    build_hasher.hash_one(key)
}

/// Whether no two symbols share a key.
pub open spec fn keys_unique(values: Seq<Symbol>) -> bool {
    forall|i: int, j: int|
        0 <= i < values.len() && 0 <= j < values.len() && i != j ==> values[i].key != values[j].key
}

/// Whether some symbol has the key.
pub open spec fn has_key(values: Seq<Symbol>, key: SymbolKey) -> bool {
    exists|i: int| 0 <= i < values.len() && values[i].key == key
}

/// The position of the symbol with the key, if any.
pub open spec fn index_of_key(values: Seq<Symbol>, key: SymbolKey) -> Option<int> {
    if has_key(values, key) {
        Some(choose|i: int| 0 <= i < values.len() && values[i].key == key)
    } else {
        None
    }
}

/// Symbols in insertion order, indexed by key.
pub struct Symbols {
    values: Vec<Symbol>,
    indices: IndexTable,
    build_hasher: FxBuildHasher,
}

impl View for Symbols {
    type V = Seq<Symbol>;

    closed spec fn view(&self) -> Seq<Symbol> {
        self.values@
    }
}

impl Symbols {
    /// The index table holds exactly one entry for each position, with the
    /// hash of the key there; keys are distinct.
    pub closed spec fn wf(&self) -> bool {
        &&& self.values@.len() < u32::MAX
        &&& keys_unique(self.values@)
        &&& forall|v: u32, h: u64|
            #[trigger] index_table_entries(self.indices).count((v, h)) > 0 <==> ((v as int)
                < self.values@.len() && h == hash_at(self.values@, v))
    }

    /// Creates an empty collection.
    pub fn new() -> (r: Symbols)
        ensures
            r.wf(),
            r@ == Seq::<Symbol>::empty(),
    {
        Symbols { values: Vec::new(), indices: index_table_new(), build_hasher: fx_build_hasher() }
    }

    /// Number of symbols.
    pub fn len(&self) -> (r: usize)
        ensures
            r == self@.len(),
    {
        self.values.len()
    }

    /// Position of the symbol with the key.
    pub fn get_index_of(&self, key: SymbolKey) -> (r: Option<u32>)
        requires
            self.wf(),
        ensures
            r matches Some(i) ==> index_of_key(self@, key) == Some(i as int),
            r is None <==> index_of_key(self@, key) is None,
    {
        let hash = fx_hash_key(&self.build_hasher, &key);
        let r = index_table_find(&self.indices, hash, &self.values, key);
        proof {
            match r {
                Some(i) => {
                    assert(has_key(self@, key));
                    let j = choose|j: int| 0 <= j < self@.len() && self@[j].key == key;
                    assert(j == i as int);
                },
                None => {
                    if has_key(self@, key) {
                        let j = choose|j: int| 0 <= j < self@.len() && self@[j].key == key;
                        assert(index_table_entries(self.indices).count((j as u32, hash)) > 0);
                    }
                },
            }
        }
        r
    }

    /// The symbol with the key.
    pub fn get(&self, key: SymbolKey) -> (r: Option<&Symbol>)
        requires
            self.wf(),
        ensures
            r matches Some(s) ==> index_of_key(self@, key) matches Some(i) && *s == self@[i],
            r is None <==> !has_key(self@, key),
    {
        match self.get_index_of(key) {
            Some(i) => self.values.get(i as usize),
            None => None,
        }
    }

    /// The symbol at a position.
    pub fn get_index(&self, index: u32) -> (r: Option<&Symbol>)
        ensures
            r matches Some(s) ==> (index as int) < self@.len() && *s == self@[index as int],
            r is None <==> (index as int) >= self@.len(),
    {
        self.values.get(index as usize)
    }

    /// All symbols in insertion order.
    pub fn iter(&self) -> (r: &[Symbol])
        ensures
            r@ == self@,
    {
        self.values.as_slice()
    }

    /// A well-formed collection has fewer than `u32::MAX` symbols.
    pub proof fn lemma_len(&self)
        requires
            self.wf(),
        ensures
            self@.len() < u32::MAX,
    {
    }

    /// Changes the region of the symbol at a position; keys stay as they are.
    pub fn set_region(&mut self, i: usize, region: SymbolKey)
        requires
            old(self).wf(),
            i < old(self)@.len(),
        ensures
            final(self).wf(),
            final(self)@ == old(self)@.update(i as int, Symbol { region, ..old(self)@[i as int] }),
    {
        let mut s = self.values[i];
        s.region = region;
        self.values.set(i, s);
        proof {
            assert forall|v: u32| hash_at(self.values@, v) == hash_at(old(self)@, v) by {
                if (v as int) < self.values@.len() {
                    assert(self.values@[v as int].key == old(self)@[v as int].key);
                }
            }
            assert forall|a: int, b: int|
                0 <= a < self.values@.len() && 0 <= b < self.values@.len() && a != b implies self.values@[a].key
                != self.values@[b].key by {
                assert(self.values@[a].key == old(self)@[a].key);
                assert(self.values@[b].key == old(self)@[b].key);
            }
        }
    }

    /// Appends a symbol whose key is not yet present.
    pub fn insert(&mut self, symbol: Symbol)
        requires
            old(self).wf(),
            old(self)@.len() + 1 < u32::MAX,
            !has_key(old(self)@, symbol.key),
        ensures
            final(self).wf(),
            final(self)@ == old(self)@.push(symbol),
    {
        let i = self.values.len() as u32;
        let key = symbol.key;
        self.values.push(symbol);
        let hash = fx_hash_key(&self.build_hasher, &key);
        proof {
            assert forall|v: u32, h: u64|
                #[trigger] index_table_entries(self.indices).count((v, h)) > 0 implies h == hash_at(
                self.values@,
                v,
            ) by {
                assert((v as int) < old(self)@.len());
                assert(self.values@[v as int] == old(self)@[v as int]);
            }
        }
        index_table_insert_unique(&mut self.indices, hash, i, &self.values, &self.build_hasher);
        proof {
            assert forall|v: u32, h: u64|
                #[trigger] index_table_entries(self.indices).count((v, h)) > 0 <==> ((v as int)
                    < self.values@.len() && h == hash_at(self.values@, v)) by {
                if (v as int) < old(self)@.len() {
                    assert(self.values@[v as int] == old(self)@[v as int]);
                }
            }
            assert forall|a: int, b: int|
                0 <= a < self.values@.len() && 0 <= b < self.values@.len() && a != b implies self.values@[a].key
                != self.values@[b].key by {
                if a == i as int {
                    assert(old(self)@[b].key == self.values@[b].key);
                } else if b == i as int {
                    assert(old(self)@[a].key == self.values@[a].key);
                }
            }
        }
    }

    /// Appends symbols whose keys are distinct and not yet present, in order.
    pub fn extend(&mut self, symbols: Vec<Symbol>)
        requires
            old(self).wf(),
            old(self)@.len() + symbols@.len() + 1 < u32::MAX,
            keys_unique(old(self)@ + symbols@),
        ensures
            final(self).wf(),
            final(self)@ == old(self)@ + symbols@,
    {
        let mut k: usize = 0;
        while k < symbols.len()
            invariant
                self.wf(),
                k <= symbols@.len(),
                self@ == old(self)@ + symbols@.take(k as int),
                old(self)@.len() + symbols@.len() + 1 < u32::MAX,
                keys_unique(old(self)@ + symbols@),
            decreases symbols@.len() - k,
        {
            let s = symbols[k];
            proof {
                let all = old(self)@ + symbols@;
                assert(all[old(self)@.len() + k] == s);
                if has_key(self@, s.key) {
                    let j = choose|j: int| 0 <= j < self@.len() && self@[j].key == s.key;
                    assert(self@[j] == all[j]);
                }
            }
            self.insert(s);
            k = k + 1;
            assert(symbols@.take(k as int) =~= symbols@.take(k - 1).push(s));
        }
        assert(symbols@.take(k as int) =~= symbols@);
    }
}

/// Keys of definitions held in a small inline buffer.
#[verifier::external_body]
pub struct KeyList {
    keys: SmallVec<[SymbolKey; 1]>,
}

/// The keys a key list holds, in order.
pub uninterp spec fn key_list_items(l: KeyList) -> Seq<SymbolKey>;

/// Collects the keys into `smallvec::SmallVec` with `SmallVec::from_vec`,
/// which keeps them in order.
#[verifier::external_body]
pub fn key_list_from_vec(keys: Vec<SymbolKey>) -> (l: KeyList)
    ensures
        key_list_items(l) == keys@,
{
    KeyList { keys: SmallVec::from_vec(keys) }
}

/// Borrows the keys of a key list with `SmallVec::as_slice`.
#[verifier::external_body]
pub fn key_list_as_slice(l: &KeyList) -> (r: &[SymbolKey])
    ensures
        r@ == key_list_items(*l),
{
    l.keys.as_slice()
}


/// Definition keys of one module, by index space, each in declaration order.
pub struct ModuleDefSymbols {
    pub funcs: Vec<SymbolKey>,
    pub types: Vec<SymbolKey>,
    pub globals: Vec<SymbolKey>,
    pub memories: KeyList,
    pub tables: KeyList,
    pub tags: Vec<SymbolKey>,
    pub datas: Vec<SymbolKey>,
    pub elems: Vec<SymbolKey>,
}

/// The keys a module declares for the index space of a definition kind;
/// nothing for kinds that are not definitions of a module field.
pub open spec fn declared_keys(m: ModuleDefSymbols, kind: SymbolKind) -> Seq<SymbolKey> {
    match kind {
        SymbolKind::Func => m.funcs@,
        SymbolKind::Type => m.types@,
        SymbolKind::GlobalDef => m.globals@,
        SymbolKind::MemoryDef => key_list_items(m.memories),
        SymbolKind::TableDef => key_list_items(m.tables),
        SymbolKind::TagDef => m.tags@,
        SymbolKind::DataDef => m.datas@,
        SymbolKind::ElemDef => m.elems@,
        _ => Seq::empty(),
    }
}

fn declared_slice(m: &ModuleDefSymbols, kind: SymbolKind) -> (r: &[SymbolKey])
    ensures
        r@ == declared_keys(*m, kind),
{
    match kind {
        SymbolKind::Func => m.funcs.as_slice(),
        SymbolKind::Type => m.types.as_slice(),
        SymbolKind::GlobalDef => m.globals.as_slice(),
        SymbolKind::MemoryDef => key_list_as_slice(&m.memories),
        SymbolKind::TableDef => key_list_as_slice(&m.tables),
        SymbolKind::TagDef => m.tags.as_slice(),
        SymbolKind::DataDef => m.datas.as_slice(),
        SymbolKind::ElemDef => m.elems.as_slice(),
        _ => &[],
    }
}

/// The symbols behind a sequence of references.
pub open spec fn derefs(s: Seq<&Symbol>) -> Seq<Symbol> {
    s.map_values(|x: &Symbol| *x)
}

/// The symbol behind an optional reference.
pub open spec fn deref_opt(r: Option<&Symbol>) -> Option<Symbol> {
    match r {
        Some(s) => Some(*s),
        None => None,
    }
}

/// The symbol with the key, if any.
pub open spec fn symbol_of_key(values: Seq<Symbol>, key: SymbolKey) -> Option<Symbol> {
    match index_of_key(values, key) {
        Some(i) => Some(values[i]),
        None => None,
    }
}

/// The symbols of the keys, in order, skipping keys that have no symbol.
pub open spec fn symbols_of_keys(values: Seq<Symbol>, keys: Seq<SymbolKey>) -> Seq<Symbol>
    decreases keys.len(),
{
    if keys.len() == 0 {
        Seq::empty()
    } else {
        let rest = symbols_of_keys(values, keys.drop_last());
        match symbol_of_key(values, keys.last()) {
            Some(s) => rest.push(s),
            None => rest,
        }
    }
}

/// The first symbol among the keys that carries the identifier.
pub open spec fn first_named(values: Seq<Symbol>, keys: Seq<SymbolKey>, name: InternIdent) -> Option<
    Symbol,
>
    decreases keys.len(),
{
    if keys.len() == 0 {
        None
    } else {
        match symbol_of_key(values, keys[0]) {
            Some(s) if s.idx.name == Some(name) => Some(s),
            _ => first_named(values, keys.drop_first(), name),
        }
    }
}

/// Whether position `i` is listed for the definition at `def`: the definition
/// itself when declarations are wanted, or a use resolved to it.
pub open spec fn is_listed(resolved: Seq<Option<u32>>, def: u32, with_decl: bool, i: int) -> bool {
    (with_decl && i == def as int) || resolved[i] == Some(def)
}

/// Positions `0..n` that are listed for the definition at `def`, ascending.
pub open spec fn listed_positions(resolved: Seq<Option<u32>>, def: u32, with_decl: bool, n: int) -> Seq<
    int,
>
    decreases n,
{
    if n <= 0 {
        Seq::empty()
    } else {
        let rest = listed_positions(resolved, def, with_decl, n - 1);
        if is_listed(resolved, def, with_decl, n - 1) {
            rest.push(n - 1)
        } else {
            rest
        }
    }
}

/// Pairs `(use, definition)` among positions `0..n`, ascending by use.
pub open spec fn resolved_pairs(resolved: Seq<Option<u32>>, n: int) -> Seq<(u32, u32)>
    decreases n,
{
    if n <= 0 {
        Seq::empty()
    } else {
        let rest = resolved_pairs(resolved, n - 1);
        match resolved[n - 1] {
            Some(d) => rest.push(((n - 1) as u32, d)),
            None => rest,
        }
    }
}

/// The symbol table of a document: its symbols, and for each symbol the
/// position of the definition it resolves to (`None` for definitions and for
/// undefined uses).
pub struct SymbolTable {
    pub symbols: Symbols,
    pub resolved: Vec<Option<u32>>,
    pub modules: Vec<(SymbolKey, ModuleDefSymbols)>,
}

impl SymbolTable {
    /// Resolution of each symbol, position by position.
    pub open spec fn resolved_view(&self) -> Seq<Option<u32>> {
        self.resolved@
    }

    /// One resolution per symbol; every resolution names a symbol other than
    /// the first one, which is always the first module.
    pub open spec fn wf(&self) -> bool {
        &&& self.symbols.wf()
        &&& self.resolved_view().len() == self.symbols@.len()
        &&& forall|i: int|
            0 <= i < self.resolved_view().len() ==> (#[trigger] self.resolved_view()[i] matches Some(
                d,
            ) ==> 0 < d && (d as int) < self.symbols@.len())
    }

    /// The definition that the symbol with the key resolves to.
    pub open spec fn def_of(&self, key: SymbolKey) -> Option<Symbol> {
        match index_of_key(self.symbols@, key) {
            Some(i) => match self.resolved_view()[i] {
                Some(d) => Some(self.symbols@[d as int]),
                None => None,
            },
            None => None,
        }
    }

    /// The declarations of the first module entry with the key.
    pub open spec fn module_defs(&self, module: SymbolKey) -> Option<ModuleDefSymbols> {
        if exists|i: int| 0 <= i < self.modules@.len() && self.modules@[i].0 == module {
            let i = choose|i: int|
                0 <= i < self.modules@.len() && self.modules@[i].0 == module && forall|j: int|
                    0 <= j < i ==> self.modules@[j].0 != module;
            Some(self.modules@[i].1)
        } else {
            None
        }
    }

    /// Builds a table from its parts: `None` when two symbols share a key,
    /// when the resolutions are not one per symbol, or when one of them does
    /// not name a symbol after the first.
    pub fn from_parts(
        symbols: Vec<Symbol>,
        resolved: Vec<Option<u32>>,
        modules: Vec<(SymbolKey, ModuleDefSymbols)>,
    ) -> (r: Option<SymbolTable>)
        ensures
            r matches Some(t) ==> {
                &&& t.wf()
                &&& t.symbols@ == symbols@
                &&& t.resolved_view() == resolved@
                &&& t.modules@ == modules@
            },
            r is None <==> !{
                &&& symbols@.len() + 1 < u32::MAX
                &&& keys_unique(symbols@)
                &&& resolved@.len() == symbols@.len()
                &&& forall|i: int|
                    0 <= i < resolved@.len() ==> (#[trigger] resolved@[i] matches Some(d) ==> 0 < d
                        && (d as int) < symbols@.len())
            },
    {
        if symbols.len() >= u32::MAX as usize - 1 || resolved.len() != symbols.len() {
            return None;
        }
        let mut table = Symbols::new();
        let mut k: usize = 0;
        while k < symbols.len()
            invariant
                table.wf(),
                k <= symbols@.len(),
                symbols@.len() + 1 < u32::MAX,
                table@ == symbols@.take(k as int),
                keys_unique(symbols@.take(k as int)),
            decreases symbols@.len() - k,
        {
            let s = symbols[k];
            if table.get_index_of(s.key).is_some() {
                proof {
                    let j = choose|j: int| 0 <= j < table@.len() && table@[j].key == s.key;
                    assert(symbols@[j] == table@[j]);
                    assert(symbols@[k as int] == s);
                }
                return None;
            }
            table.insert(s);
            k = k + 1;
            assert(symbols@.take(k as int) =~= symbols@.take(k - 1).push(s));
        }
        assert(symbols@.take(k as int) =~= symbols@);
        let mut i: usize = 0;
        while i < resolved.len()
            invariant
                i <= resolved@.len(),
                resolved@.len() == symbols@.len(),
                forall|j: int|
                    0 <= j < i ==> (#[trigger] resolved@[j] matches Some(d) ==> 0 < d && (d as int)
                        < symbols@.len()),
            decreases resolved@.len() - i,
        {
            if let Some(d) = resolved[i] {
                if d == 0 || d as usize >= symbols.len() {
                    return None;
                }
            }
            i = i + 1;
        }
        Some(SymbolTable { symbols: table, resolved, modules })
    }

    /// The definition that the symbol with the key resolves to.
    pub fn find_def(&self, key: SymbolKey) -> (r: Option<&Symbol>)
        requires
            self.wf(),
        ensures
            r matches Some(s) ==> self.def_of(key) == Some(*s),
            r is None <==> self.def_of(key) is None,
    {
        match self.symbols.get_index_of(key) {
            Some(index) => match self.find_def_index(index as usize) {
                Some(d) => self.symbols.get_index(d),
                None => None,
            },
            None => None,
        }
    }

    /// Position of the definition that the symbol at `ref_index` resolves to.
    fn find_def_index(&self, ref_index: usize) -> (r: Option<u32>)
        requires
            self.wf(),
        ensures
            r == (if (ref_index as int) < self.resolved_view().len() {
                self.resolved_view()[ref_index as int]
            } else {
                None
            }),
    {
        if ref_index < self.resolved.len() {
            self.resolved[ref_index]
        } else {
            None
        }
    }

    pub(crate) fn find_module_defs(&self, module: SymbolKey) -> (r: Option<&ModuleDefSymbols>)
        ensures
            r matches Some(m) ==> self.module_defs(module) == Some(*m),
            r is None <==> self.module_defs(module) is None,
    {
        let mut i: usize = 0;
        while i < self.modules.len()
            invariant
                i <= self.modules@.len(),
                forall|j: int| 0 <= j < i ==> self.modules@[j].0 != module,
            decreases self.modules@.len() - i,
        {
            if self.modules[i].0 == module {
                proof {
                    let c = choose|c: int|
                        0 <= c < self.modules@.len() && self.modules@[c].0 == module && forall|j: int|
                            0 <= j < c ==> self.modules@[j].0 != module;
                    assert(c == i as int);
                }
                return Some(&self.modules[i].1);
            }
            i = i + 1;
        }
        None
    }

    /// The function or type that an index refers to in a module: by position
    /// among the module's declarations, or else by identifier.
    pub fn find_def_by_idx(&self, idx: Idx, kind: SymbolKind, module: SymbolKey) -> (r: Option<
        &Symbol,
    >)
        requires
            self.wf(),
            kind == SymbolKind::Type || kind == SymbolKind::Func,
        ensures
            deref_opt(r) == match self.module_defs(module) {
                Some(m) => {
                    let declared = declared_keys(m, kind);
                    match idx.num {
                        Some(n) => if (n as int) < declared.len() {
                            symbol_of_key(self.symbols@, declared[n as int])
                        } else {
                            None
                        },
                        None => match idx.name {
                            Some(name) => first_named(self.symbols@, declared, name),
                            None => None,
                        },
                    }
                },
                None => None,
            },
    {
        let m = match self.find_module_defs(module) {
            Some(m) => m,
            None => return None,
        };
        let declared = declared_slice(m, kind);
        if let Some(num) = idx.num {
            if (num as usize) < declared.len() {
                self.symbols.get(declared[num as usize])
            } else {
                None
            }
        } else if let Some(name) = idx.name {
            let mut i: usize = 0;
            assert(declared@.skip(0) =~= declared@);
            while i < declared.len()
                invariant
                    self.wf(),
                    i <= declared@.len(),
                    declared@ == declared_keys(*m, kind),
                    self.module_defs(module) == Some(*m),
                    idx.num is None,
                    idx.name == Some(name),
                    first_named(self.symbols@, declared@, name) == first_named(
                        self.symbols@,
                        declared@.skip(i as int),
                        name,
                    ),
                decreases declared@.len() - i,
            {
                let ghost rest = declared@.skip(i as int);
                assert(rest[0] == declared@[i as int]);
                assert(rest.drop_first() =~= declared@.skip(i + 1));
                if let Some(s) = self.symbols.get(declared[i]) {
                    assert(symbol_of_key(self.symbols@, rest[0]) == Some(*s));
                    if s.idx.name == Some(name) {
                        assert(first_named(self.symbols@, rest, name) == Some(*s));
                        return Some(s);
                    }
                }
                i = i + 1;
            }
            assert(declared@.skip(i as int).len() == 0);
            None
        } else {
            None
        }
    }

    /// The symbols that a module declares for the index space of a definition kind.
    pub fn get_declared(&self, module: SymbolKey, kind: SymbolKind) -> (r: Vec<&Symbol>)
        requires
            self.wf(),
        ensures
            derefs(r@) == match self.module_defs(module) {
                Some(m) => symbols_of_keys(self.symbols@, declared_keys(m, kind)),
                None => Seq::empty(),
            },
    {
        let mut r: Vec<&Symbol> = Vec::new();
        let m = match self.find_module_defs(module) {
            Some(m) => m,
            None => return r,
        };
        let declared = declared_slice(m, kind);
        let mut i: usize = 0;
        while i < declared.len()
            invariant
                self.wf(),
                i <= declared@.len(),
                derefs(r@) == symbols_of_keys(self.symbols@, declared@.take(i as int)),
            decreases declared@.len() - i,
        {
            assert(declared@.take(i + 1).drop_last() =~= declared@.take(i as int));
            let ghost old_r = r@;
            if let Some(s) = self.symbols.get(declared[i]) {
                r.push(s);
                assert(derefs(r@) =~= derefs(old_r).push(*s));
            }
            i = i + 1;
        }
        assert(declared@.take(i as int) =~= declared@);
        r
    }

    /// Symbols listed for the definition at `def_index`, in table order: the
    /// definition itself when `with_decl`, and every use resolved to it.
    fn find_references(&self, def_index: Option<u32>, with_decl: bool) -> (r: Vec<&Symbol>)
        requires
            self.wf(),
        ensures
            derefs(r@) == match def_index {
                Some(d) => listed_positions(
                    self.resolved_view(),
                    d,
                    with_decl,
                    self.resolved_view().len() as int,
                ).map_values(|k: int| self.symbols@[k]),
                None => Seq::empty(),
            },
    {
        let mut r: Vec<&Symbol> = Vec::new();
        let d = match def_index {
            Some(d) => d,
            None => return r,
        };
        let values = self.symbols.iter();
        let mut i: usize = 0;
        while i < self.resolved.len()
            invariant
                self.wf(),
                values@ == self.symbols@,
                i <= self.resolved@.len(),
                derefs(r@) == listed_positions(self.resolved@, d, with_decl, i as int).map_values(
                    |k: int| self.symbols@[k],
                ),
            decreases self.resolved@.len() - i,
        {
            let is_def = with_decl && i == d as usize;
            let is_ref = match self.resolved[i] {
                Some(x) => x == d,
                None => false,
            };
            let ghost old_r = r@;
            if is_def || is_ref {
                r.push(&values[i]);
            }
            proof {
                let prev = listed_positions(self.resolved@, d, with_decl, i as int);
                if is_def || is_ref {
                    assert(listed_positions(self.resolved@, d, with_decl, i + 1) == prev.push(
                        i as int,
                    ));
                    assert(prev.push(i as int).map_values(|k: int| self.symbols@[k])
                        =~= prev.map_values(|k: int| self.symbols@[k]).push(self.symbols@[i as int]));
                    assert(derefs(r@) =~= derefs(old_r).push(self.symbols@[i as int]));
                }
            }
            i = i + 1;
        }
        r
    }

    /// Symbols listed for a definition: itself when `with_decl`, and its uses.
    pub fn find_references_on_def(&self, def_symbol: &Symbol, with_decl: bool) -> (r: Vec<&Symbol>)
        requires
            self.wf(),
        ensures
            derefs(r@) == match index_of_key(self.symbols@, def_symbol.key) {
                Some(d) => listed_positions(
                    self.resolved_view(),
                    d as u32,
                    with_decl,
                    self.resolved_view().len() as int,
                ).map_values(|k: int| self.symbols@[k]),
                None => Seq::empty(),
            },
    {
        let d = self.symbols.get_index_of(def_symbol.key);
        self.find_references(d, with_decl)
    }

    /// Symbols listed for the definition that a use resolves to: the definition
    /// when `with_decl`, and its uses; a use of a local or parameter is listed
    /// only when it lies in the same function as the given use.
    pub fn find_references_on_ref(&self, ref_symbol: &Symbol, with_decl: bool) -> (r: Vec<&Symbol>)
        requires
            self.wf(),
        ensures
            derefs(r@) == match self.ref_def_index(ref_symbol.key) {
                Some(d) => listed_positions(
                    self.resolved_view(),
                    d,
                    with_decl,
                    self.resolved_view().len() as int,
                ).map_values(|k: int| self.symbols@[k]).filter(
                    |s: Symbol| s.kind == SymbolKind::LocalRef ==> s.region == ref_symbol.region,
                ),
                None => Seq::empty(),
            },
    {
        let def_index = match self.symbols.get_index_of(ref_symbol.key) {
            Some(i) => self.find_def_index(i as usize),
            None => None,
        };
        let all = self.find_references(def_index, with_decl);
        let mut r: Vec<&Symbol> = Vec::new();
        let mut i: usize = 0;
        while i < all.len()
            invariant
                i <= all@.len(),
                derefs(r@) == derefs(all@).take(i as int).filter(
                    |s: Symbol| s.kind == SymbolKind::LocalRef ==> s.region == ref_symbol.region,
                ),
            decreases all@.len() - i,
        {
            let s = all[i];
            reveal_with_fuel(Seq::filter, 1);
            assert(derefs(all@).take(i + 1).drop_last() =~= derefs(all@).take(i as int));
            assert(derefs(r@.push(s)) =~= derefs(r@).push(*s));
            if s.kind != SymbolKind::LocalRef || s.region == ref_symbol.region {
                r.push(s);
            }
            i = i + 1;
        }
        assert(derefs(all@).take(i as int) =~= derefs(all@));
        r
    }

    /// Position of the definition that the symbol with the key resolves to.
    pub open spec fn ref_def_index(&self, key: SymbolKey) -> Option<u32> {
        match index_of_key(self.symbols@, key) {
            Some(i) => self.resolved_view()[i],
            None => None,
        }
    }

    /// The module symbol with the given position in the document.
    pub fn find_module(&self, module_id: u32) -> (r: Option<&Symbol>)
        ensures
            r matches Some(s) ==> exists|i: int|
                0 <= i < self.symbols@.len() && self.symbols@[i] == *s && s.kind == SymbolKind::Module
                    && s.idx.num == Some(module_id) && forall|j: int|
                    0 <= j < i ==> !(self.symbols@[j].kind == SymbolKind::Module
                        && self.symbols@[j].idx.num == Some(module_id)),
            r is None <==> forall|j: int|
                0 <= j < self.symbols@.len() ==> !(self.symbols@[j].kind == SymbolKind::Module
                    && self.symbols@[j].idx.num == Some(module_id)),
    {
        let values = self.symbols.iter();
        let mut i: usize = 0;
        while i < values.len()
            invariant
                values@ == self.symbols@,
                i <= values@.len(),
                forall|j: int|
                    0 <= j < i ==> !(self.symbols@[j].kind == SymbolKind::Module
                        && self.symbols@[j].idx.num == Some(module_id)),
            decreases values@.len() - i,
        {
            if values[i].kind == SymbolKind::Module && values[i].idx.num == Some(module_id) {
                return Some(&values[i]);
            }
            i = i + 1;
        }
        None
    }

    /// The resolution of every symbol, position by position.
    pub fn iter_may_resolved(&self) -> (r: &[Option<u32>])
        ensures
            r@ == self.resolved_view(),
    {
        self.resolved.as_slice()
    }

    /// Pairs `(use, definition)` of positions, for every resolved use, in order.
    pub fn iter_resolved(&self) -> (r: Vec<(u32, u32)>)
        requires
            self.wf(),
        ensures
            r@ == resolved_pairs(self.resolved_view(), self.resolved_view().len() as int),
    {
        let mut r: Vec<(u32, u32)> = Vec::new();
        let mut i: usize = 0;
        while i < self.resolved.len()
            invariant
                self.wf(),
                i <= self.resolved@.len(),
                r@ == resolved_pairs(self.resolved@, i as int),
            decreases self.resolved@.len() - i,
        {
            if let Some(d) = self.resolved[i] {
                r.push((i as u32, d));
            }
            i = i + 1;
        }
        r
    }
}

/// A symbol inserted under a new key is found at the end, and every other
/// key is found where it was before.
pub proof fn law_insert_then_find(old: Seq<Symbol>, symbol: Symbol, other: SymbolKey)
    requires
        keys_unique(old),
        !has_key(old, symbol.key),
        other != symbol.key,
    ensures
        index_of_key(old.push(symbol), symbol.key) == Some(old.len() as int),
        index_of_key(old.push(symbol), other) == index_of_key(old, other),
{
    let new = old.push(symbol);
    assert(new[old.len() as int].key == symbol.key);
    let i = choose|i: int| 0 <= i < new.len() && new[i].key == symbol.key;
    if i < old.len() {
        assert(old[i].key == symbol.key);
    }
    if has_key(old, other) {
        let j = choose|j: int| 0 <= j < old.len() && old[j].key == other;
        assert(new[j].key == other);
        let k = choose|k: int| 0 <= k < new.len() && new[k].key == other;
        assert(k < old.len());
        assert(old[k].key == other);
    } else {
        if has_key(new, other) {
            let k = choose|k: int| 0 <= k < new.len() && new[k].key == other;
            assert(k < old.len());
            assert(old[k].key == other);
        }
    }
}

/// The positions listed for a definition are exactly the definition itself
/// (when declarations are wanted) and the uses that resolve to it, in
/// ascending order.
pub proof fn law_listed_exactly(resolved: Seq<Option<u32>>, def: u32, with_decl: bool, n: int, i: int)
    requires
        0 <= i < n,
    ensures
        listed_positions(resolved, def, with_decl, n).contains(i) <==> is_listed(resolved, def, with_decl, i),
    decreases n,
{
    lemma_listed_below(resolved, def, with_decl, n - 1);
    if i < n - 1 {
        law_listed_exactly(resolved, def, with_decl, n - 1, i);
        let rest = listed_positions(resolved, def, with_decl, n - 1);
        if is_listed(resolved, def, with_decl, n - 1) {
            assert(rest.push(n - 1).contains(i) <==> rest.contains(i)) by {
                let grown = rest.push(n - 1);
                if grown.contains(i) {
                    let t = choose|t: int| 0 <= t < grown.len() && grown[t] == i;
                    assert(t < rest.len());
                    assert(rest[t] == i);
                }
                if rest.contains(i) {
                    let t = choose|t: int| 0 <= t < rest.len() && rest[t] == i;
                    assert(rest.push(n - 1)[t] == i);
                }
            }
        }
    } else {
        let rest = listed_positions(resolved, def, with_decl, n - 1);
        if is_listed(resolved, def, with_decl, n - 1) {
            assert(rest.push(n - 1)[rest.len() as int] == n - 1);
        } else {
            if rest.contains(n - 1) {
                let t = choose|t: int| 0 <= t < rest.len() && rest[t] == n - 1;
            }
        }
    }
}

proof fn lemma_listed_below(resolved: Seq<Option<u32>>, def: u32, with_decl: bool, n: int)
    ensures
        forall|t: int|
            0 <= t < listed_positions(resolved, def, with_decl, n).len() ==> #[trigger] listed_positions(
                resolved,
                def,
                with_decl,
                n,
            )[t] < n,
    decreases n,
{
    if n > 0 {
        lemma_listed_below(resolved, def, with_decl, n - 1);
        let rest = listed_positions(resolved, def, with_decl, n - 1);
        let all = listed_positions(resolved, def, with_decl, n);
        assert forall|t: int| 0 <= t < all.len() implies #[trigger] all[t] < n by {
            if t < rest.len() {
                assert(all[t] == rest[t]);
            }
        }
    }
}

} // verus!

