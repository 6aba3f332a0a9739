//! The plain-value model of the syntax tree that the analyses read:
//! byte ranges, node kinds and node pointers.

use vstd::prelude::*;

verus! {

/// A range of byte offsets in the source text, `start..end`.
#[derive(Clone, Copy, Debug, PartialEq, Eq, Hash, Structural)]
pub struct TextRange {
    pub start: u32,
    pub end: u32,
}

impl TextRange {
    /// A range is well formed when it does not end before it starts.
    pub open spec fn wf(self) -> bool {
        self.start <= self.end
    }

    /// Creates the range `start..end`.
    pub fn new(start: u32, end: u32) -> (r: TextRange)
        requires
            start <= end,
        ensures
            r.start == start,
            r.end == end,
    {
        TextRange { start, end }
    }

    /// Number of bytes the range spans.
    pub fn len(&self) -> (r: u32)
        requires
            self.wf(),
        ensures
            r == self.end - self.start,
    {
        self.end - self.start
    }

    /// Whether `offset` lies in `start..end` (end excluded).
    pub fn contains(&self, offset: u32) -> (r: bool)
        ensures
            r == (self.start <= offset && offset < self.end),
    {
        self.start <= offset && offset < self.end
    }

    /// Whether `other` lies entirely inside this range.
    pub fn contains_range(&self, other: &TextRange) -> (r: bool)
        ensures
            r == (self.start <= other.start && other.end <= self.end),
    {
        self.start <= other.start && other.end <= self.end
    }

    /// The smallest range that covers both ranges.
    pub fn cover(&self, other: &TextRange) -> (r: TextRange)
        ensures
            r.start == (if self.start <= other.start { self.start } else { other.start }),
            r.end == (if self.end >= other.end { self.end } else { other.end }),
    {
        TextRange {
            start: if self.start <= other.start { self.start } else { other.start },
            end: if self.end >= other.end { self.end } else { other.end },
        }
    }
}

/// Kinds of syntax nodes and tokens.
#[allow(non_camel_case_types)]
#[derive(Clone, Copy, Debug, PartialEq, Eq, Hash, Structural)]
pub enum SyntaxKind {
    ROOT,
    MODULE,
    MODULE_NAME,
    NAME,
    NUM_TYPE,
    VEC_TYPE,
    REF_TYPE,
    HEAP_TYPE,
    FIELD_TYPE,
    STRUCT_TYPE,
    ARRAY_TYPE,
    FUNC_TYPE,
    CONT_TYPE,
    PARAM,
    RESULT,
    FIELD,
    SUB_TYPE,
    TABLE_TYPE,
    MEM_TYPE,
    ADDR_TYPE,
    GLOBAL_TYPE,
    PLAIN_INSTR,
    OPERAND,
    BLOCK_BLOCK,
    BLOCK_LOOP,
    BLOCK_IF,
    BLOCK_IF_THEN,
    BLOCK_IF_ELSE,
    BLOCK_TRY_TABLE,
    CATCH,
    CATCH_ALL,
    MEM_ARG,
    ON_CLAUSE,
    IMMEDIATE,
    TYPE_USE,
    LIMITS,
    EXTERN_IDX_FUNC,
    EXTERN_IDX_TABLE,
    EXTERN_IDX_MEMORY,
    EXTERN_IDX_GLOBAL,
    EXTERN_IDX_TAG,
    EXTERN_TYPE_FUNC,
    EXTERN_TYPE_GLOBAL,
    EXTERN_TYPE_MEMORY,
    EXTERN_TYPE_TABLE,
    EXTERN_TYPE_TAG,
    INDEX,
    LOCAL,
    MEM_PAGE_SIZE,
    MEM_USE,
    OFFSET,
    ELEM,
    ELEM_LIST,
    ELEM_EXPR,
    TABLE_USE,
    DATA,
    IMPORT,
    EXPORT,
    MODULE_FIELD_DATA,
    MODULE_FIELD_ELEM,
    MODULE_FIELD_EXPORT,
    MODULE_FIELD_FUNC,
    MODULE_FIELD_GLOBAL,
    MODULE_FIELD_IMPORT,
    MODULE_FIELD_MEMORY,
    MODULE_FIELD_START,
    MODULE_FIELD_TABLE,
    MODULE_FIELD_TAG,
    TYPE_DEF,
    REC_TYPE,
    END_DELIM,
    IMPORT_ITEM,
    ERROR,
    L_PAREN,
    R_PAREN,
    KEYWORD,
    MODIFIER_KEYWORD,
    MEM_ARG_KEYWORD,
    INSTR_NAME,
    IDENT,
    INT,
    UNSIGNED_INT,
    FLOAT,
    STRING,
    SHAPE_DESCRIPTOR,
    WHITESPACE,
    LINE_COMMENT,
    BLOCK_COMMENT,
    ANNOT_START,
    ANNOT_ELEM,
    ANNOT_END,
}

/// The name of a kind, as it is written in the source of the enum.
pub open spec fn syntax_kind_name(kind: SyntaxKind) -> Seq<char> {
    match kind {
        SyntaxKind::ROOT => "ROOT"@,
        SyntaxKind::MODULE => "MODULE"@,
        SyntaxKind::MODULE_NAME => "MODULE_NAME"@,
        SyntaxKind::NAME => "NAME"@,
        SyntaxKind::NUM_TYPE => "NUM_TYPE"@,
        SyntaxKind::VEC_TYPE => "VEC_TYPE"@,
        SyntaxKind::REF_TYPE => "REF_TYPE"@,
        SyntaxKind::HEAP_TYPE => "HEAP_TYPE"@,
        SyntaxKind::FIELD_TYPE => "FIELD_TYPE"@,
        SyntaxKind::STRUCT_TYPE => "STRUCT_TYPE"@,
        SyntaxKind::ARRAY_TYPE => "ARRAY_TYPE"@,
        SyntaxKind::FUNC_TYPE => "FUNC_TYPE"@,
        SyntaxKind::CONT_TYPE => "CONT_TYPE"@,
        SyntaxKind::PARAM => "PARAM"@,
        SyntaxKind::RESULT => "RESULT"@,
        SyntaxKind::FIELD => "FIELD"@,
        SyntaxKind::SUB_TYPE => "SUB_TYPE"@,
        SyntaxKind::TABLE_TYPE => "TABLE_TYPE"@,
        SyntaxKind::MEM_TYPE => "MEM_TYPE"@,
        SyntaxKind::ADDR_TYPE => "ADDR_TYPE"@,
        SyntaxKind::GLOBAL_TYPE => "GLOBAL_TYPE"@,
        SyntaxKind::PLAIN_INSTR => "PLAIN_INSTR"@,
        SyntaxKind::OPERAND => "OPERAND"@,
        SyntaxKind::BLOCK_BLOCK => "BLOCK_BLOCK"@,
        SyntaxKind::BLOCK_LOOP => "BLOCK_LOOP"@,
        SyntaxKind::BLOCK_IF => "BLOCK_IF"@,
        SyntaxKind::BLOCK_IF_THEN => "BLOCK_IF_THEN"@,
        SyntaxKind::BLOCK_IF_ELSE => "BLOCK_IF_ELSE"@,
        SyntaxKind::BLOCK_TRY_TABLE => "BLOCK_TRY_TABLE"@,
        SyntaxKind::CATCH => "CATCH"@,
        SyntaxKind::CATCH_ALL => "CATCH_ALL"@,
        SyntaxKind::MEM_ARG => "MEM_ARG"@,
        SyntaxKind::ON_CLAUSE => "ON_CLAUSE"@,
        SyntaxKind::IMMEDIATE => "IMMEDIATE"@,
        SyntaxKind::TYPE_USE => "TYPE_USE"@,
        SyntaxKind::LIMITS => "LIMITS"@,
        SyntaxKind::EXTERN_IDX_FUNC => "EXTERN_IDX_FUNC"@,
        SyntaxKind::EXTERN_IDX_TABLE => "EXTERN_IDX_TABLE"@,
        SyntaxKind::EXTERN_IDX_MEMORY => "EXTERN_IDX_MEMORY"@,
        SyntaxKind::EXTERN_IDX_GLOBAL => "EXTERN_IDX_GLOBAL"@,
        SyntaxKind::EXTERN_IDX_TAG => "EXTERN_IDX_TAG"@,
        SyntaxKind::EXTERN_TYPE_FUNC => "EXTERN_TYPE_FUNC"@,
        SyntaxKind::EXTERN_TYPE_GLOBAL => "EXTERN_TYPE_GLOBAL"@,
        SyntaxKind::EXTERN_TYPE_MEMORY => "EXTERN_TYPE_MEMORY"@,
        SyntaxKind::EXTERN_TYPE_TABLE => "EXTERN_TYPE_TABLE"@,
        SyntaxKind::EXTERN_TYPE_TAG => "EXTERN_TYPE_TAG"@,
        SyntaxKind::INDEX => "INDEX"@,
        SyntaxKind::LOCAL => "LOCAL"@,
        SyntaxKind::MEM_PAGE_SIZE => "MEM_PAGE_SIZE"@,
        SyntaxKind::MEM_USE => "MEM_USE"@,
        SyntaxKind::OFFSET => "OFFSET"@,
        SyntaxKind::ELEM => "ELEM"@,
        SyntaxKind::ELEM_LIST => "ELEM_LIST"@,
        SyntaxKind::ELEM_EXPR => "ELEM_EXPR"@,
        SyntaxKind::TABLE_USE => "TABLE_USE"@,
        SyntaxKind::DATA => "DATA"@,
        SyntaxKind::IMPORT => "IMPORT"@,
        SyntaxKind::EXPORT => "EXPORT"@,
        SyntaxKind::MODULE_FIELD_DATA => "MODULE_FIELD_DATA"@,
        SyntaxKind::MODULE_FIELD_ELEM => "MODULE_FIELD_ELEM"@,
        SyntaxKind::MODULE_FIELD_EXPORT => "MODULE_FIELD_EXPORT"@,
        SyntaxKind::MODULE_FIELD_FUNC => "MODULE_FIELD_FUNC"@,
        SyntaxKind::MODULE_FIELD_GLOBAL => "MODULE_FIELD_GLOBAL"@,
        SyntaxKind::MODULE_FIELD_IMPORT => "MODULE_FIELD_IMPORT"@,
        SyntaxKind::MODULE_FIELD_MEMORY => "MODULE_FIELD_MEMORY"@,
        SyntaxKind::MODULE_FIELD_START => "MODULE_FIELD_START"@,
        SyntaxKind::MODULE_FIELD_TABLE => "MODULE_FIELD_TABLE"@,
        SyntaxKind::MODULE_FIELD_TAG => "MODULE_FIELD_TAG"@,
        SyntaxKind::TYPE_DEF => "TYPE_DEF"@,
        SyntaxKind::REC_TYPE => "REC_TYPE"@,
        SyntaxKind::END_DELIM => "END_DELIM"@,
        SyntaxKind::IMPORT_ITEM => "IMPORT_ITEM"@,
        SyntaxKind::ERROR => "ERROR"@,
        SyntaxKind::L_PAREN => "L_PAREN"@,
        SyntaxKind::R_PAREN => "R_PAREN"@,
        SyntaxKind::KEYWORD => "KEYWORD"@,
        SyntaxKind::MODIFIER_KEYWORD => "MODIFIER_KEYWORD"@,
        SyntaxKind::MEM_ARG_KEYWORD => "MEM_ARG_KEYWORD"@,
        SyntaxKind::INSTR_NAME => "INSTR_NAME"@,
        SyntaxKind::IDENT => "IDENT"@,
        SyntaxKind::INT => "INT"@,
        SyntaxKind::UNSIGNED_INT => "UNSIGNED_INT"@,
        SyntaxKind::FLOAT => "FLOAT"@,
        SyntaxKind::STRING => "STRING"@,
        SyntaxKind::SHAPE_DESCRIPTOR => "SHAPE_DESCRIPTOR"@,
        SyntaxKind::WHITESPACE => "WHITESPACE"@,
        SyntaxKind::LINE_COMMENT => "LINE_COMMENT"@,
        SyntaxKind::BLOCK_COMMENT => "BLOCK_COMMENT"@,
        SyntaxKind::ANNOT_START => "ANNOT_START"@,
        SyntaxKind::ANNOT_ELEM => "ANNOT_ELEM"@,
        SyntaxKind::ANNOT_END => "ANNOT_END"@,
    }
}

impl SyntaxKind {
    /// The name of the kind, as it is written in the source of the enum.
    pub fn name(&self) -> (r: &'static str)
        ensures
            r@ == syntax_kind_name(*self),
    {
        match self {
            SyntaxKind::ROOT => "ROOT",
            SyntaxKind::MODULE => "MODULE",
            SyntaxKind::MODULE_NAME => "MODULE_NAME",
            SyntaxKind::NAME => "NAME",
            SyntaxKind::NUM_TYPE => "NUM_TYPE",
            SyntaxKind::VEC_TYPE => "VEC_TYPE",
            SyntaxKind::REF_TYPE => "REF_TYPE",
            SyntaxKind::HEAP_TYPE => "HEAP_TYPE",
            SyntaxKind::FIELD_TYPE => "FIELD_TYPE",
            SyntaxKind::STRUCT_TYPE => "STRUCT_TYPE",
            SyntaxKind::ARRAY_TYPE => "ARRAY_TYPE",
            SyntaxKind::FUNC_TYPE => "FUNC_TYPE",
            SyntaxKind::CONT_TYPE => "CONT_TYPE",
            SyntaxKind::PARAM => "PARAM",
            SyntaxKind::RESULT => "RESULT",
            SyntaxKind::FIELD => "FIELD",
            SyntaxKind::SUB_TYPE => "SUB_TYPE",
            SyntaxKind::TABLE_TYPE => "TABLE_TYPE",
            SyntaxKind::MEM_TYPE => "MEM_TYPE",
            SyntaxKind::ADDR_TYPE => "ADDR_TYPE",
            SyntaxKind::GLOBAL_TYPE => "GLOBAL_TYPE",
            SyntaxKind::PLAIN_INSTR => "PLAIN_INSTR",
            SyntaxKind::OPERAND => "OPERAND",
            SyntaxKind::BLOCK_BLOCK => "BLOCK_BLOCK",
            SyntaxKind::BLOCK_LOOP => "BLOCK_LOOP",
            SyntaxKind::BLOCK_IF => "BLOCK_IF",
            SyntaxKind::BLOCK_IF_THEN => "BLOCK_IF_THEN",
            SyntaxKind::BLOCK_IF_ELSE => "BLOCK_IF_ELSE",
            SyntaxKind::BLOCK_TRY_TABLE => "BLOCK_TRY_TABLE",
            SyntaxKind::CATCH => "CATCH",
            SyntaxKind::CATCH_ALL => "CATCH_ALL",
            SyntaxKind::MEM_ARG => "MEM_ARG",
            SyntaxKind::ON_CLAUSE => "ON_CLAUSE",
            SyntaxKind::IMMEDIATE => "IMMEDIATE",
            SyntaxKind::TYPE_USE => "TYPE_USE",
            SyntaxKind::LIMITS => "LIMITS",
            SyntaxKind::EXTERN_IDX_FUNC => "EXTERN_IDX_FUNC",
            SyntaxKind::EXTERN_IDX_TABLE => "EXTERN_IDX_TABLE",
            SyntaxKind::EXTERN_IDX_MEMORY => "EXTERN_IDX_MEMORY",
            SyntaxKind::EXTERN_IDX_GLOBAL => "EXTERN_IDX_GLOBAL",
            SyntaxKind::EXTERN_IDX_TAG => "EXTERN_IDX_TAG",
            SyntaxKind::EXTERN_TYPE_FUNC => "EXTERN_TYPE_FUNC",
            SyntaxKind::EXTERN_TYPE_GLOBAL => "EXTERN_TYPE_GLOBAL",
            SyntaxKind::EXTERN_TYPE_MEMORY => "EXTERN_TYPE_MEMORY",
            SyntaxKind::EXTERN_TYPE_TABLE => "EXTERN_TYPE_TABLE",
            SyntaxKind::EXTERN_TYPE_TAG => "EXTERN_TYPE_TAG",
            SyntaxKind::INDEX => "INDEX",
            SyntaxKind::LOCAL => "LOCAL",
            SyntaxKind::MEM_PAGE_SIZE => "MEM_PAGE_SIZE",
            SyntaxKind::MEM_USE => "MEM_USE",
            SyntaxKind::OFFSET => "OFFSET",
            SyntaxKind::ELEM => "ELEM",
            SyntaxKind::ELEM_LIST => "ELEM_LIST",
            SyntaxKind::ELEM_EXPR => "ELEM_EXPR",
            SyntaxKind::TABLE_USE => "TABLE_USE",
            SyntaxKind::DATA => "DATA",
            SyntaxKind::IMPORT => "IMPORT",
            SyntaxKind::EXPORT => "EXPORT",
            SyntaxKind::MODULE_FIELD_DATA => "MODULE_FIELD_DATA",
            SyntaxKind::MODULE_FIELD_ELEM => "MODULE_FIELD_ELEM",
            SyntaxKind::MODULE_FIELD_EXPORT => "MODULE_FIELD_EXPORT",
            SyntaxKind::MODULE_FIELD_FUNC => "MODULE_FIELD_FUNC",
            SyntaxKind::MODULE_FIELD_GLOBAL => "MODULE_FIELD_GLOBAL",
            SyntaxKind::MODULE_FIELD_IMPORT => "MODULE_FIELD_IMPORT",
            SyntaxKind::MODULE_FIELD_MEMORY => "MODULE_FIELD_MEMORY",
            SyntaxKind::MODULE_FIELD_START => "MODULE_FIELD_START",
            SyntaxKind::MODULE_FIELD_TABLE => "MODULE_FIELD_TABLE",
            SyntaxKind::MODULE_FIELD_TAG => "MODULE_FIELD_TAG",
            SyntaxKind::TYPE_DEF => "TYPE_DEF",
            SyntaxKind::REC_TYPE => "REC_TYPE",
            SyntaxKind::END_DELIM => "END_DELIM",
            SyntaxKind::IMPORT_ITEM => "IMPORT_ITEM",
            SyntaxKind::ERROR => "ERROR",
            SyntaxKind::L_PAREN => "L_PAREN",
            SyntaxKind::R_PAREN => "R_PAREN",
            SyntaxKind::KEYWORD => "KEYWORD",
            SyntaxKind::MODIFIER_KEYWORD => "MODIFIER_KEYWORD",
            SyntaxKind::MEM_ARG_KEYWORD => "MEM_ARG_KEYWORD",
            SyntaxKind::INSTR_NAME => "INSTR_NAME",
            SyntaxKind::IDENT => "IDENT",
            SyntaxKind::INT => "INT",
            SyntaxKind::UNSIGNED_INT => "UNSIGNED_INT",
            SyntaxKind::FLOAT => "FLOAT",
            SyntaxKind::STRING => "STRING",
            SyntaxKind::SHAPE_DESCRIPTOR => "SHAPE_DESCRIPTOR",
            SyntaxKind::WHITESPACE => "WHITESPACE",
            SyntaxKind::LINE_COMMENT => "LINE_COMMENT",
            SyntaxKind::BLOCK_COMMENT => "BLOCK_COMMENT",
            SyntaxKind::ANNOT_START => "ANNOT_START",
            SyntaxKind::ANNOT_ELEM => "ANNOT_ELEM",
            SyntaxKind::ANNOT_END => "ANNOT_END",
        }
    }

    /// Whether tokens of this kind carry no meaning for the grammar:
    /// whitespace, comments, annotations and error tokens.
    pub open spec fn is_trivia_spec(self) -> bool {
        match self {
            SyntaxKind::WHITESPACE | SyntaxKind::LINE_COMMENT | SyntaxKind::BLOCK_COMMENT
            | SyntaxKind::ANNOT_START | SyntaxKind::ANNOT_ELEM | SyntaxKind::ANNOT_END
            | SyntaxKind::ERROR => true,
            _ => false,
        }
    }

    /// Whether tokens of this kind carry no meaning for the grammar:
    /// whitespace, comments, annotations and error tokens.
    pub fn is_trivia(&self) -> (r: bool)
        ensures
            r == self.is_trivia_spec(),
    {
        match self {
            SyntaxKind::WHITESPACE | SyntaxKind::LINE_COMMENT | SyntaxKind::BLOCK_COMMENT
            | SyntaxKind::ANNOT_START | SyntaxKind::ANNOT_ELEM | SyntaxKind::ANNOT_END
            | SyntaxKind::ERROR => true,
            _ => false,
        }
    }
}

/// A pointer to a syntax node: its kind and its range in the text.
#[derive(Clone, Copy, Debug, PartialEq, Eq, Hash, Structural)]
pub struct SyntaxNodePtr {
    pub kind: SyntaxKind,
    pub range: TextRange,
}

/// A token: a leaf of the syntax tree with its text.
pub struct SyntaxToken {
    pub kind: SyntaxKind,
    pub range: TextRange,
    pub text: String,
}

/// A child of a syntax node.
pub enum SyntaxElement {
    Node(SyntaxNode),
    Token(SyntaxToken),
}

/// A syntax node with its children in source order.
pub struct SyntaxNode {
    pub kind: SyntaxKind,
    pub range: TextRange,
    pub children: Vec<SyntaxElement>,
}

impl SyntaxNode {
    /// A pointer to this node.
    pub fn to_ptr(&self) -> (r: SyntaxNodePtr)
        ensures
            r == (SyntaxNodePtr { kind: self.kind, range: self.range }),
    {
        SyntaxNodePtr { kind: self.kind, range: self.range }
    }
}

/// Whether `outer` covers `inner`.
pub open spec fn range_covers(outer: TextRange, inner: TextRange) -> bool {
    outer.start <= inner.start && inner.end <= outer.end
}

/// Position of the first child node, among the first `n` children, whose
/// range covers `range`.
pub open spec fn first_child_at(children: Seq<SyntaxElement>, range: TextRange, n: int) -> Option<int>
    decreases n,
{
    if n <= 0 {
        None
    } else {
        match first_child_at(children, range, n - 1) {
            Some(i) => Some(i),
            None => match children[n - 1] {
                SyntaxElement::Node(c) => if range_covers(c.range, range) {
                    Some(n - 1)
                } else {
                    None
                },
                _ => None,
            },
        }
    }
}

impl SyntaxNode {
    /// Position of the first child node whose range covers `range`.
    pub fn child_at_range(&self, range: TextRange) -> (r: Option<usize>)
        ensures
            r matches Some(i) ==> first_child_at(self.children@, range, self.children@.len() as int)
                == Some(i as int) && (i as int) < self.children@.len() && self.children@[i as int] is Node,
            r is None ==> first_child_at(self.children@, range, self.children@.len() as int) is None,
    {
        let mut i: usize = 0;
        while i < self.children.len()
            invariant
                i <= self.children@.len(),
                first_child_at(self.children@, range, i as int) is None,
            decreases self.children@.len() - i,
        {
            match &self.children[i] {
                SyntaxElement::Node(c) => {
                    if c.range.start <= range.start && range.end <= c.range.end {
                        proof {
                            assert(first_child_at(self.children@, range, i + 1) == Some(i as int));
                            lemma_first_child_at_stable(self.children@, range, i + 1, self.children@.len() as int);
                        }
                        return Some(i);
                    }
                },
                SyntaxElement::Token(_) => {},
            }
            i = i + 1;
        }
        None
    }
}

proof fn lemma_first_child_at_stable(children: Seq<SyntaxElement>, range: TextRange, a: int, n: int)
    requires
        0 <= a <= n,
        first_child_at(children, range, a) is Some,
    ensures
        first_child_at(children, range, n) == first_child_at(children, range, a),
    decreases n - a,
{
    if n > a {
        lemma_first_child_at_stable(children, range, a, n - 1);
    }
}

/// The child nodes of the first `n` children whose kind satisfies `pred`, in order.
pub open spec fn nodes_where(children: Seq<SyntaxElement>, pred: spec_fn(SyntaxKind) -> bool, n: int) -> Seq<
    SyntaxNode,
>
    decreases n,
{
    if n <= 0 {
        Seq::empty()
    } else {
        let rest = nodes_where(children, pred, n - 1);
        match children[n - 1] {
            SyntaxElement::Node(c) => if pred(c.kind) {
                rest.push(c)
            } else {
                rest
            },
            _ => rest,
        }
    }
}

/// The child nodes of a node whose kind satisfies `pred`, in order.
pub open spec fn child_nodes_where(node: SyntaxNode, pred: spec_fn(SyntaxKind) -> bool) -> Seq<SyntaxNode> {
    nodes_where(node.children@, pred, node.children@.len() as int)
}

/// The child nodes of the given kind among the first `n` children, in order.
pub open spec fn nodes_of(children: Seq<SyntaxElement>, kind: SyntaxKind, n: int) -> Seq<SyntaxNode>
    decreases n,
{
    if n <= 0 {
        Seq::empty()
    } else {
        let rest = nodes_of(children, kind, n - 1);
        match children[n - 1] {
            SyntaxElement::Node(c) => if c.kind == kind {
                rest.push(c)
            } else {
                rest
            },
            _ => rest,
        }
    }
}

/// The child nodes of a node of the given kind, in order.
pub open spec fn child_nodes_of(node: SyntaxNode, kind: SyntaxKind) -> Seq<SyntaxNode> {
    nodes_of(node.children@, kind, node.children@.len() as int)
}

/// The first child token of the given kind among the first `n` children.
pub open spec fn first_token_of(children: Seq<SyntaxElement>, kind: SyntaxKind, n: int) -> Option<SyntaxToken>
    decreases n,
{
    if n <= 0 {
        None
    } else {
        match first_token_of(children, kind, n - 1) {
            Some(t) => Some(t),
            None => match children[n - 1] {
                SyntaxElement::Token(t) => if t.kind == kind {
                    Some(t)
                } else {
                    None
                },
                _ => None,
            },
        }
    }
}

/// The first child token of a node of the given kind.
pub open spec fn child_token_of(node: SyntaxNode, kind: SyntaxKind) -> Option<SyntaxToken> {
    first_token_of(node.children@, kind, node.children@.len() as int)
}

proof fn lemma_first_token_of_stable(children: Seq<SyntaxElement>, kind: SyntaxKind, a: int, n: int)
    requires
        0 <= a <= n,
        first_token_of(children, kind, a) is Some,
    ensures
        first_token_of(children, kind, n) == first_token_of(children, kind, a),
    decreases n - a,
{
    if n > a {
        lemma_first_token_of_stable(children, kind, a, n - 1);
    }
}

impl SyntaxNode {
    /// The child nodes of the given kind, in order.
    pub fn children_of_kind(&self, kind: SyntaxKind) -> (r: Vec<&SyntaxNode>)
        ensures
            r@.map_values(|n: &SyntaxNode| *n) == child_nodes_of(*self, kind),
    {
        let mut r: Vec<&SyntaxNode> = Vec::new();
        let mut i: usize = 0;
        while i < self.children.len()
            invariant
                i <= self.children@.len(),
                r@.map_values(|n: &SyntaxNode| *n) == nodes_of(self.children@, kind, i as int),
            decreases self.children@.len() - i,
        {
            let ghost before = r@;
            match &self.children[i] {
                SyntaxElement::Node(c) => {
                    if c.kind == kind {
                        r.push(c);
                        proof {
                            assert(r@.map_values(|n: &SyntaxNode| *n) =~= before.map_values(|n: &SyntaxNode| *n).push(*c));
                        }
                    }
                },
                SyntaxElement::Token(_) => {},
            }
            i = i + 1;
        }
        r
    }

    /// The first child token of the given kind.
    pub fn token_of_kind(&self, kind: SyntaxKind) -> (r: Option<&SyntaxToken>)
        ensures
            match child_token_of(*self, kind) {
                Some(t) => r matches Some(x) && *x == t,
                None => r is None,
            },
    {
        let mut i: usize = 0;
        while i < self.children.len()
            invariant
                i <= self.children@.len(),
                first_token_of(self.children@, kind, i as int) is None,
            decreases self.children@.len() - i,
        {
            match &self.children[i] {
                SyntaxElement::Token(t) => {
                    if t.kind == kind {
                        proof {
                            lemma_first_token_of_stable(self.children@, kind, i + 1, self.children@.len() as int);
                        }
                        return Some(t);
                    }
                },
                SyntaxElement::Node(_) => {},
            }
            i = i + 1;
        }
        None
    }
}

/// The child tokens of the given kind among the first `n` children, in order.
pub open spec fn tokens_of(children: Seq<SyntaxElement>, kind: SyntaxKind, n: int) -> Seq<SyntaxToken>
    decreases n,
{
    if n <= 0 {
        Seq::empty()
    } else {
        let rest = tokens_of(children, kind, n - 1);
        match children[n - 1] {
            SyntaxElement::Token(t) => if t.kind == kind {
                rest.push(t)
            } else {
                rest
            },
            _ => rest,
        }
    }
}

/// The child tokens of a node of the given kind, in order.
pub open spec fn child_tokens_of(node: SyntaxNode, kind: SyntaxKind) -> Seq<SyntaxToken> {
    tokens_of(node.children@, kind, node.children@.len() as int)
}

impl SyntaxNode {
    /// The child tokens of the given kind, in order.
    pub fn tokens_of_kind(&self, kind: SyntaxKind) -> (r: Vec<&SyntaxToken>)
        ensures
            r@.map_values(|t: &SyntaxToken| *t) == child_tokens_of(*self, kind),
    {
        let mut r: Vec<&SyntaxToken> = Vec::new();
        let mut i: usize = 0;
        while i < self.children.len()
            invariant
                i <= self.children@.len(),
                r@.map_values(|t: &SyntaxToken| *t) == tokens_of(self.children@, kind, i as int),
            decreases self.children@.len() - i,
        {
            let ghost before = r@;
            match &self.children[i] {
                SyntaxElement::Token(t) => {
                    if t.kind == kind {
                        r.push(t);
                        proof {
                            assert(r@.map_values(|t: &SyntaxToken| *t) =~= before.map_values(|t: &SyntaxToken| *t).push(*t));
                        }
                    }
                },
                SyntaxElement::Node(_) => {},
            }
            i = i + 1;
        }
        r
    }

    /// The first child node of the given kind.
    pub fn child_of_kind(&self, kind: SyntaxKind) -> (r: Option<&SyntaxNode>)
        ensures
            child_nodes_of(*self, kind).len() == 0 ==> r is None,
            child_nodes_of(*self, kind).len() > 0 ==> (r matches Some(n) && *n == child_nodes_of(
                *self,
                kind,
            )[0]),
    {
        let all = self.children_of_kind(kind);
        if all.len() == 0 {
            None
        } else {
            Some(all[0])
        }
    }
}

/// The kind of a child, node or token.
pub open spec fn element_kind(e: SyntaxElement) -> SyntaxKind {
    match e {
        SyntaxElement::Node(n) => n.kind,
        SyntaxElement::Token(t) => t.kind,
    }
}

/// The kind of the first child of a node, node or token.
pub open spec fn first_child_kind(node: SyntaxNode) -> Option<SyntaxKind> {
    if node.children@.len() > 0 {
        Some(element_kind(node.children@[0]))
    } else {
        None
    }
}

/// The child nodes among the first `n` children, in order.
pub open spec fn all_nodes(children: Seq<SyntaxElement>, n: int) -> Seq<SyntaxNode>
    decreases n,
{
    if n <= 0 {
        Seq::empty()
    } else {
        let rest = all_nodes(children, n - 1);
        match children[n - 1] {
            SyntaxElement::Node(c) => rest.push(c),
            _ => rest,
        }
    }
}

/// The child nodes of a node, whatever their kind, in order.
pub open spec fn child_nodes(node: SyntaxNode) -> Seq<SyntaxNode> {
    all_nodes(node.children@, node.children@.len() as int)
}

impl SyntaxNode {
    /// The kind of the first child, node or token.
    pub fn first_kind(&self) -> (r: Option<SyntaxKind>)
        ensures
            r == first_child_kind(*self),
    {
        if self.children.len() == 0 {
            None
        } else {
            match &self.children[0] {
                SyntaxElement::Node(n) => Some(n.kind),
                SyntaxElement::Token(t) => Some(t.kind),
            }
        }
    }

    /// The child nodes, whatever their kind, in order.
    pub fn nodes(&self) -> (r: Vec<&SyntaxNode>)
        ensures
            r@.map_values(|n: &SyntaxNode| *n) == child_nodes(*self),
    {
        let mut r: Vec<&SyntaxNode> = Vec::new();
        let mut i: usize = 0;
        while i < self.children.len()
            invariant
                i <= self.children@.len(),
                r@.map_values(|n: &SyntaxNode| *n) == all_nodes(self.children@, i as int),
            decreases self.children@.len() - i,
        {
            let ghost before = r@;
            match &self.children[i] {
                SyntaxElement::Node(c) => {
                    r.push(c);
                    proof {
                        assert(r@.map_values(|n: &SyntaxNode| *n) =~= before.map_values(|n: &SyntaxNode| *n).push(*c));
                    }
                },
                SyntaxElement::Token(_) => {},
            }
            i = i + 1;
        }
        r
    }
}

/// Where the node that a pointer names stands below `node`: its parent and
/// its position among the parent's children. The search descends through
/// the first child node that covers the pointer's range, as far as a node
/// of the pointer's kind and range.
pub open spec fn locate(node: SyntaxNode, ptr: SyntaxNodePtr) -> Option<(SyntaxNode, int)>
    decreases node,
{
    match first_child_at(node.children@, ptr.range, node.children@.len() as int) {
        Some(i) => if 0 <= i < node.children@.len() {
            match node.children@[i] {
                SyntaxElement::Node(c) => if c.kind == ptr.kind && c.range == ptr.range {
                    Some((node, i))
                } else {
                    locate(c, ptr)
                },
                _ => None,
            }
        } else {
            None
        },
        None => None,
    }
}

/// Finds the parent of the node that a pointer names, and its position
/// among the parent's children: see `locate`.
pub fn locate_node<'a>(node: &'a SyntaxNode, ptr: SyntaxNodePtr) -> (r: Option<(&'a SyntaxNode, usize)>)
    ensures
        match locate(*node, ptr) {
            Some((p, i)) => r matches Some((q, j)) && *q == p && j as int == i && i < p.children@.len(),
            None => r is None,
        },
    decreases node,
{
    match node.child_at_range(ptr.range) {
        Some(i) => match &node.children[i] {
            SyntaxElement::Node(c) => {
                if c.kind == ptr.kind && c.range.start == ptr.range.start && c.range.end == ptr.range.end {
                    Some((node, i))
                } else {
                    locate_node(c, ptr)
                }
            },
            SyntaxElement::Token(_) => None,
        },
        None => None,
    }
}

/// The last child node among the first `n` children.
pub open spec fn last_node_before(children: Seq<SyntaxElement>, n: int) -> Option<SyntaxNode>
    decreases n,
{
    if n <= 0 {
        None
    } else {
        match children[n - 1] {
            SyntaxElement::Node(c) => Some(c),
            _ => last_node_before(children, n - 1),
        }
    }
}

/// The last child node before position `i`: the previous sibling of the child there.
pub fn prev_node(parent: &SyntaxNode, i: usize) -> (r: Option<&SyntaxNode>)
    requires
        i <= parent.children@.len(),
    ensures
        match last_node_before(parent.children@, i as int) {
            Some(n) => r matches Some(m) && *m == n,
            None => r is None,
        },
{
    let mut k = i;
    while k > 0
        invariant
            k <= i <= parent.children@.len(),
            last_node_before(parent.children@, i as int) == last_node_before(parent.children@, k as int),
        decreases k,
    {
        match &parent.children[k - 1] {
            SyntaxElement::Node(c) => {
                return Some(c);
            },
            SyntaxElement::Token(_) => {},
        }
        k = k - 1;
    }
    None
}

/// The text of a node: the texts of its tokens, in order.
pub open spec fn node_text(node: SyntaxNode) -> Seq<char>
    decreases node, 1int,
{
    children_text(node.children@, node.children@.len() as int)
}

/// The text of the first `n` children.
pub open spec fn children_text(children: Seq<SyntaxElement>, n: int) -> Seq<char>
    decreases children, n,
{
    if n <= 0 || n > children.len() {
        Seq::empty()
    } else {
        children_text(children, n - 1) + match children[n - 1] {
            SyntaxElement::Token(t) => t.text@,
            SyntaxElement::Node(c) => node_text(c),
        }
    }
}

/// Appends the text of a node.
pub fn push_node_text(out: &mut String, node: &SyntaxNode)
    ensures
        final(out)@ == old(out)@ + node_text(*node),
    decreases node, 1int,
{
    let mut i: usize = 0;
    while i < node.children.len()
        invariant
            i <= node.children@.len(),
            out@ == old(out)@ + children_text(node.children@, i as int),
        decreases node.children@.len() - i,
    {
        let ghost before = out@;
        match &node.children[i] {
            SyntaxElement::Token(t) => out.append(t.text.as_str()),
            SyntaxElement::Node(c) => push_node_text(out, c),
        }
        assert(out@ =~= old(out)@ + children_text(node.children@, i + 1));
        i = i + 1;
    }
}

/// The range of a child, node or token.
pub open spec fn element_span(e: SyntaxElement) -> TextRange {
    match e {
        SyntaxElement::Node(n) => n.range,
        SyntaxElement::Token(t) => t.range,
    }
}

/// Whether every child of a node lies inside the node's range.
pub open spec fn children_inside(node: SyntaxNode) -> bool {
    forall|i: int| 0 <= i < node.children@.len() ==> range_covers(node.range, #[trigger] element_span(node.children@[i]))
}

/// Whether the children of a node come in text order, none overlapping the next.
pub open spec fn children_ordered(node: SyntaxNode) -> bool {
    forall|i: int, j: int|
        0 <= i < j < node.children@.len() ==> #[trigger] element_span(node.children@[i]).end <= #[trigger] element_span(
            node.children@[j],
        ).start
}

/// Whether a tree is well formed: each node's children lie inside it, in
/// text order, and the child nodes are well formed too.
pub open spec fn tree_wf(node: SyntaxNode) -> bool
    decreases node, 1int,
{
    &&& node.range.start <= node.range.end
    &&& children_inside(node)
    &&& children_ordered(node)
    &&& children_wf(node.children@, node.children@.len() as int)
}

/// Whether the child nodes among the first `n` children are well formed.
pub open spec fn children_wf(children: Seq<SyntaxElement>, n: int) -> bool
    decreases children, n,
{
    if n <= 0 || n > children.len() {
        true
    } else {
        children_wf(children, n - 1) && match children[n - 1] {
            SyntaxElement::Node(c) => tree_wf(c),
            SyntaxElement::Token(_) => true,
        }
    }
}

/// The child nodes of a kind are children of the node.
pub proof fn lemma_nodes_of_are_children(children: Seq<SyntaxElement>, kind: SyntaxKind, n: int, j: int)
    requires
        0 <= n <= children.len(),
        0 <= j < nodes_of(children, kind, n).len(),
    ensures
        exists|i: int| 0 <= i < n && children[i] == SyntaxElement::Node(nodes_of(children, kind, n)[j]),
    decreases n,
{
    if n > 0 {
        let rest = nodes_of(children, kind, n - 1);
        if j < rest.len() {
            lemma_nodes_of_are_children(children, kind, n - 1, j);
            let i = choose|i: int| 0 <= i < n - 1 && children[i] == SyntaxElement::Node(rest[j]);
            match children[n - 1] {
                SyntaxElement::Node(c) => if c.kind == kind {
                    assert(nodes_of(children, kind, n)[j] == rest[j]);
                },
                _ => {},
            }
            assert(0 <= i < n && children[i] == SyntaxElement::Node(nodes_of(children, kind, n)[j]));
        } else {
            assert(children[n - 1] == SyntaxElement::Node(nodes_of(children, kind, n)[j]));
        }
    }
}

/// The first child token of a kind is a child of the node.
pub proof fn lemma_first_token_is_child(children: Seq<SyntaxElement>, kind: SyntaxKind, n: int)
    requires
        0 <= n <= children.len(),
        first_token_of(children, kind, n) is Some,
    ensures
        exists|i: int| 0 <= i < n && children[i] == SyntaxElement::Token(first_token_of(children, kind, n).unwrap()),
    decreases n,
{
    if n > 0 {
        if first_token_of(children, kind, n - 1) is Some {
            lemma_first_token_is_child(children, kind, n - 1);
        } else {
            assert(children[n - 1] == SyntaxElement::Token(first_token_of(children, kind, n).unwrap()));
        }
    }
}

} // verus!

