//! Open documents: incremental edits, reparse planning and the document store.

use crate::syntax::{first_child_at, range_covers, SyntaxElement, SyntaxKind, SyntaxNode, TextRange};
use line_index::{LineIndex, WideEncoding, WideLineCol};
use vstd::prelude::*;
use vstd::utf8::{decode_utf8, encode_utf8, is_char_boundary, valid_utf8};

verus! {

broadcast use vstd::utf8::group_utf8_lib;

/// Whether a byte may take part in an edit that is reparsed in place:
/// identifier characters, whitespace, punctuation other than quotes,
/// separators and brackets, and any non-ASCII byte.
pub open spec fn safe_for_incremental(b: u8) -> bool {
    let alnum = (0x30 <= b <= 0x39) || (0x41 <= b <= 0x5a) || (0x61 <= b <= 0x7a);
    let space = b == 0x20 || b == 0x09 || b == 0x0a || b == 0x0c || b == 0x0d;
    let punct = (0x21 <= b <= 0x2f) || (0x3a <= b <= 0x40) || (0x5b <= b <= 0x60) || (0x7b <= b
        <= 0x7e);
    let excluded = b == 0x22 || b == 0x2c || b == 0x3b || b == 0x28 || b == 0x29 || b == 0x5b || b
        == 0x5d || b == 0x7b || b == 0x7d;
    alnum || space || (punct && !excluded) || b >= 0x80
}

/// Whether a byte may take part in an edit that is reparsed in place.
pub fn is_safe_for_incremental(b: u8) -> (r: bool)
    ensures
        r == safe_for_incremental(b),
{
    let alnum = (0x30 <= b && b <= 0x39) || (0x41 <= b && b <= 0x5a) || (0x61 <= b && b <= 0x7a);
    let space = b == 0x20 || b == 0x09 || b == 0x0a || b == 0x0c || b == 0x0d;
    let punct = (0x21 <= b && b <= 0x2f) || (0x3a <= b && b <= 0x40) || (0x5b <= b && b <= 0x60) || (
    0x7b <= b && b <= 0x7e);
    let excluded = b == 0x22 || b == 0x2c || b == 0x3b || b == 0x28 || b == 0x29 || b == 0x5b || b
        == 0x5d || b == 0x7b || b == 0x7d;
    alnum || space || (punct && !excluded) || b >= 0x80
}

/// Whether every byte of a sequence is safe for in-place reparsing.
pub open spec fn all_safe(bytes: Seq<u8>) -> bool {
    forall|i: int| 0 <= i < bytes.len() ==> safe_for_incremental(#[trigger] bytes[i])
}

/// Whether every byte of a slice is safe for in-place reparsing.
pub fn bytes_all_safe(bytes: &[u8]) -> (r: bool)
    ensures
        r == all_safe(bytes@),
{
    let mut i: usize = 0;
    while i < bytes.len()
        invariant
            i <= bytes@.len(),
            forall|j: int| 0 <= j < i ==> safe_for_incremental(#[trigger] bytes@[j]),
        decreases bytes@.len() - i,
    {
        if !is_safe_for_incremental(bytes[i]) {
            return false;
        }
        i = i + 1;
    }
    true
}

/// Kinds of nodes that the parser can parse on their own.
pub open spec fn is_parseable(kind: SyntaxKind) -> bool {
    match kind {
        SyntaxKind::MODULE_NAME | SyntaxKind::NAME | SyntaxKind::REF_TYPE | SyntaxKind::FIELD_TYPE
        | SyntaxKind::STRUCT_TYPE | SyntaxKind::ARRAY_TYPE | SyntaxKind::FUNC_TYPE
        | SyntaxKind::CONT_TYPE | SyntaxKind::PARAM | SyntaxKind::RESULT | SyntaxKind::FIELD
        | SyntaxKind::SUB_TYPE | SyntaxKind::TABLE_TYPE | SyntaxKind::MEM_TYPE
        | SyntaxKind::ADDR_TYPE | SyntaxKind::GLOBAL_TYPE | SyntaxKind::PLAIN_INSTR
        | SyntaxKind::BLOCK_BLOCK | SyntaxKind::BLOCK_LOOP | SyntaxKind::BLOCK_IF
        | SyntaxKind::BLOCK_TRY_TABLE | SyntaxKind::CATCH | SyntaxKind::CATCH_ALL
        | SyntaxKind::MEM_ARG | SyntaxKind::ON_CLAUSE | SyntaxKind::IMMEDIATE
        | SyntaxKind::TYPE_USE | SyntaxKind::LIMITS | SyntaxKind::EXTERN_IDX_FUNC
        | SyntaxKind::EXTERN_IDX_TABLE | SyntaxKind::EXTERN_IDX_MEMORY
        | SyntaxKind::EXTERN_IDX_GLOBAL | SyntaxKind::EXTERN_IDX_TAG | SyntaxKind::INDEX
        | SyntaxKind::LOCAL | SyntaxKind::MEM_PAGE_SIZE | SyntaxKind::MEM_USE | SyntaxKind::OFFSET
        | SyntaxKind::ELEM | SyntaxKind::ELEM_LIST | SyntaxKind::ELEM_EXPR | SyntaxKind::TABLE_USE
        | SyntaxKind::DATA | SyntaxKind::MODULE | SyntaxKind::MODULE_FIELD_DATA
        | SyntaxKind::MODULE_FIELD_ELEM | SyntaxKind::MODULE_FIELD_EXPORT
        | SyntaxKind::MODULE_FIELD_FUNC | SyntaxKind::MODULE_FIELD_GLOBAL
        | SyntaxKind::MODULE_FIELD_IMPORT | SyntaxKind::MODULE_FIELD_MEMORY
        | SyntaxKind::MODULE_FIELD_START | SyntaxKind::MODULE_FIELD_TABLE
        | SyntaxKind::MODULE_FIELD_TAG | SyntaxKind::TYPE_DEF | SyntaxKind::REC_TYPE
        | SyntaxKind::ROOT => true,
        _ => false,
    }
}

/// Kinds of nodes that the parser can parse on their own.
pub fn parseable(kind: SyntaxKind) -> (r: bool)
    ensures
        r == is_parseable(kind),
{
    match kind {
        SyntaxKind::MODULE_NAME | SyntaxKind::NAME | SyntaxKind::REF_TYPE | SyntaxKind::FIELD_TYPE
        | SyntaxKind::STRUCT_TYPE | SyntaxKind::ARRAY_TYPE | SyntaxKind::FUNC_TYPE
        | SyntaxKind::CONT_TYPE | SyntaxKind::PARAM | SyntaxKind::RESULT | SyntaxKind::FIELD
        | SyntaxKind::SUB_TYPE | SyntaxKind::TABLE_TYPE | SyntaxKind::MEM_TYPE
        | SyntaxKind::ADDR_TYPE | SyntaxKind::GLOBAL_TYPE | SyntaxKind::PLAIN_INSTR
        | SyntaxKind::BLOCK_BLOCK | SyntaxKind::BLOCK_LOOP | SyntaxKind::BLOCK_IF
        | SyntaxKind::BLOCK_TRY_TABLE | SyntaxKind::CATCH | SyntaxKind::CATCH_ALL
        | SyntaxKind::MEM_ARG | SyntaxKind::ON_CLAUSE | SyntaxKind::IMMEDIATE
        | SyntaxKind::TYPE_USE | SyntaxKind::LIMITS | SyntaxKind::EXTERN_IDX_FUNC
        | SyntaxKind::EXTERN_IDX_TABLE | SyntaxKind::EXTERN_IDX_MEMORY
        | SyntaxKind::EXTERN_IDX_GLOBAL | SyntaxKind::EXTERN_IDX_TAG | SyntaxKind::INDEX
        | SyntaxKind::LOCAL | SyntaxKind::MEM_PAGE_SIZE | SyntaxKind::MEM_USE | SyntaxKind::OFFSET
        | SyntaxKind::ELEM | SyntaxKind::ELEM_LIST | SyntaxKind::ELEM_EXPR | SyntaxKind::TABLE_USE
        | SyntaxKind::DATA | SyntaxKind::MODULE | SyntaxKind::MODULE_FIELD_DATA
        | SyntaxKind::MODULE_FIELD_ELEM | SyntaxKind::MODULE_FIELD_EXPORT
        | SyntaxKind::MODULE_FIELD_FUNC | SyntaxKind::MODULE_FIELD_GLOBAL
        | SyntaxKind::MODULE_FIELD_IMPORT | SyntaxKind::MODULE_FIELD_MEMORY
        | SyntaxKind::MODULE_FIELD_START | SyntaxKind::MODULE_FIELD_TABLE
        | SyntaxKind::MODULE_FIELD_TAG | SyntaxKind::TYPE_DEF | SyntaxKind::REC_TYPE
        | SyntaxKind::ROOT => true,
        _ => false,
    }
}

/// Descends from `node` through the first child node covering `range` at
/// each level, and gives the last parseable node met on the way (`last` if
/// there is none below `node`).
pub open spec fn deepest_parseable(last: SyntaxNode, node: SyntaxNode, range: TextRange) -> SyntaxNode
    decreases node,
{
    match first_child_at(node.children@, range, node.children@.len() as int) {
        Some(i) => if 0 <= i < node.children@.len() {
            match node.children@[i] {
                SyntaxElement::Node(c) => deepest_parseable(
                    if is_parseable(c.kind) {
                        c
                    } else {
                        last
                    },
                    c,
                    range,
                ),
                _ => last,
            }
        } else {
            last
        },
        None => last,
    }
}

fn deepest_from<'a>(last: &'a SyntaxNode, node: &'a SyntaxNode, range: TextRange) -> (r: &'a SyntaxNode)
    ensures
        *r == deepest_parseable(*last, *node, range),
    decreases node,
{
    match node.child_at_range(range) {
        Some(i) => match &node.children[i] {
            SyntaxElement::Node(c) => {
                let next = if parseable(c.kind) {
                    c
                } else {
                    last
                };
                deepest_from(next, c, range)
            },
            SyntaxElement::Token(_) => last,
        },
        None => last,
    }
}

/// The deepest node that covers `range` and that the parser can parse on its
/// own: the search descends from the root through the first child node that
/// covers the range, and the root itself is the answer when no node below it
/// qualifies.
pub fn find_deepest_parseable_node<'a>(root: &'a SyntaxNode, range: TextRange) -> (r: &'a SyntaxNode)
    ensures
        *r == deepest_parseable(*root, *root, range),
{
    deepest_from(root, root, range)
}

/// A position as an editor gives it: zero-based line, and column in UTF-16
/// code units.
#[derive(Clone, Copy, Debug, PartialEq, Eq, Structural)]
pub struct Position {
    pub line: u32,
    pub character: u32,
}

/// A range between two editor positions.
#[derive(Clone, Copy, Debug, PartialEq, Eq, Structural)]
pub struct LspRange {
    pub start: Position,
    pub end: Position,
}

/// The byte offset that `line_index` gives to an editor position in `text`.
pub uninterp spec fn utf16_position_offset(text: Seq<char>, line: u32, character: u32) -> Option<u32>;

/// The byte offset of an editor position: `LineIndex::new` over the text,
/// then `LineIndex::to_utf8` with UTF-16 columns and `LineIndex::offset`.
/// The result is named; nothing more of it is claimed. `LineIndex::new`
/// asserts that the text is shorter than `u32::MAX` bytes. `LineIndex::offset`
/// adds the converted column to the line's start with `u32` addition; the
/// start is at most the text's length, and `to_utf8` grows the column by at
/// most that length too, so the bound on the column rules out an overflow.
#[verifier::external_body]
fn position_offset(text: &str, position: Position) -> (r: Option<u32>)
    requires
        encode_utf8(text@).len() < u32::MAX,
        position_bounded(text@, position),
    ensures
        r == utf16_position_offset(text@, position.line, position.character),
{
    let index = LineIndex::new(text);
    let wide = WideLineCol { line: position.line, col: position.character };
    index.to_utf8(WideEncoding::Utf16, wide).and_then(|line_col| index.offset(line_col)).map(u32::from)
}

/// Whether the column of a position is small enough for the line index to
/// add it to a line start without overflowing `u32`.
pub open spec fn position_bounded(text: Seq<char>, p: Position) -> bool {
    p.character + 2 * encode_utf8(text).len() < u32::MAX
}

/// Whether converting a range would overflow the line index: the start's
/// column is too large, or the start converts and the end's column is too
/// large. The conversion is refused on such ranges.
pub open spec fn range_refused(text: Seq<char>, range: LspRange) -> bool {
    !position_bounded(text, range.start) || (utf16_position_offset(
        text,
        range.start.line,
        range.start.character,
    ) is Some && !position_bounded(text, range.end))
}

/// Whether the column of a position is small enough for the line index.
pub fn position_in_bounds(text: &str, p: Position) -> (r: bool)
    requires
        encode_utf8(text@).len() < u32::MAX,
    ensures
        r == position_bounded(text@, p),
{
    (p.character as u64) + 2 * (text.as_bytes().len() as u64) < 0xffff_ffffu64
}

/// The byte range of an editor range in `text`: both ends converted, and the
/// start not after the end; nothing where the conversion is refused.
pub open spec fn convert_range_spec(text: Seq<char>, range: LspRange) -> Option<TextRange> {
    if range_refused(text, range) {
        None
    } else {
        convert_bounded_range(text, range)
    }
}

/// The byte range of an editor range whose conversion is not refused.
pub open spec fn convert_bounded_range(text: Seq<char>, range: LspRange) -> Option<TextRange> {
    match (
        utf16_position_offset(text, range.start.line, range.start.character),
        utf16_position_offset(text, range.end.line, range.end.character),
    ) {
        (Some(start), Some(end)) => if start <= end {
            Some(TextRange { start, end })
        } else {
            None
        },
        _ => None,
    }
}

/// The byte range of an editor range in `text`.
pub fn convert_range(text: &str, range: LspRange) -> (r: Option<TextRange>)
    requires
        encode_utf8(text@).len() < u32::MAX,
    ensures
        r == convert_range_spec(text@, range),
{
    if !position_in_bounds(text, range.start) {
        return None;
    }
    let start = match position_offset(text, range.start) {
        Some(o) => o,
        None => return None,
    };
    if !position_in_bounds(text, range.end) {
        return None;
    }
    let end = match position_offset(text, range.end) {
        Some(o) => o,
        None => return None,
    };
    if start <= end {
        Some(TextRange { start, end })
    } else {
        None
    }
}

/// Whether the byte range `start..end` of a text lies on character boundaries.
pub open spec fn splittable(text: Seq<char>, start: int, end: int) -> bool {
    &&& start <= end
    &&& is_char_boundary(encode_utf8(text), start)
    &&& is_char_boundary(encode_utf8(text), end)
}

/// The text with bytes `start..end` replaced by `insert`.
pub open spec fn splice_text(text: Seq<char>, start: int, end: int, insert: Seq<char>) -> Seq<char> {
    let bytes = encode_utf8(text);
    decode_utf8(bytes.subrange(0, start)) + insert + decode_utf8(bytes.subrange(end, bytes.len() as int))
}

/// The characters of the bytes `start..end` of a text.
pub open spec fn slice_text(text: Seq<char>, start: int, end: int) -> Seq<char> {
    decode_utf8(encode_utf8(text).subrange(start, end))
}

/// Replaces the bytes `start..end` of a text, which lie on character boundaries.
pub fn splice(text: &str, start: usize, end: usize, insert: &str) -> (r: String)
    requires
        splittable(text@, start as int, end as int),
    ensures
        r@ == splice_text(text@, start as int, end as int, insert@),
{
    let (head, _) = text.split_at(start);
    let (_, tail) = text.split_at(end);
    let mut r = String::from_str(head);
    r.append(insert);
    r.append(tail);
    proof {
        assert(decode_utf8(encode_utf8(head@)) == head@);
        assert(decode_utf8(encode_utf8(tail@)) == tail@);
    }
    r
}

/// The characters of bytes `start..end` of a text, when both ends are
/// character boundaries.
pub fn slice(text: &str, start: usize, end: usize) -> (r: Option<String>)
    ensures
        r is Some <==> splittable(text@, start as int, end as int),
        r matches Some(s) ==> s@ == slice_text(text@, start as int, end as int),
{
    if start <= end && text.is_char_boundary(start) && text.is_char_boundary(end) {
        let (head, _) = text.split_at(end);
        proof {
            assert(encode_utf8(head@) == encode_utf8(text@).subrange(0, end as int));
            assert(is_char_boundary(encode_utf8(head@), start as int)) by {
                lemma_boundary_prefix(encode_utf8(text@), end as int, start as int);
            }
        }
        let (_, mid) = head.split_at(start);
        proof {
            assert(encode_utf8(text@).subrange(0, end as int).subrange(start as int, end as int)
                =~= encode_utf8(text@).subrange(start as int, end as int));
            assert(decode_utf8(encode_utf8(mid@)) == mid@);
        }
        Some(String::from_str(mid))
    } else {
        None
    }
}

/// A character boundary before a boundary `end` is one of the prefix that ends there too.
proof fn lemma_boundary_prefix(bytes: Seq<u8>, end: int, start: int)
    requires
        valid_utf8(bytes),
        is_char_boundary(bytes, end),
        is_char_boundary(bytes, start),
        0 <= start <= end,
    ensures
        is_char_boundary(bytes.subrange(0, end), start),
{
    assert(end <= bytes.len());
    let p = bytes.subrange(0, end);
    vstd::utf8::valid_utf8_split(bytes, end);
    assert(valid_utf8(p));
    vstd::utf8::is_char_boundary_start_end_of_seq(p);
    if start == end {
        assert(p.len() == end);
    } else if start > 0 {
        assert(p[start] == bytes[start]);
        vstd::utf8::is_char_boundary_iff_not_is_continuation_byte(bytes, start);
        vstd::utf8::is_char_boundary_iff_not_is_continuation_byte(p, start);
    }
}

/// A change an editor reports: a range replaced by a text, or the whole new text.
pub enum ContentChange {
    Partial { range: LspRange, text: String },
    WholeDocument { text: String },
}

/// Whether a text is short enough for a line index (under `u32::MAX` bytes).
pub open spec fn indexable(text: Seq<char>) -> bool {
    encode_utf8(text).len() < u32::MAX
}

/// Whether a text is short enough for a line index.
pub fn text_indexable(text: &str) -> (r: bool)
    ensures
        r == indexable(text@),
{
    text.as_bytes().len() < 0xffff_ffffusize
}

/// The text after one change, or `None` where applying it fails: a partial
/// change whose range conversion is refused (see `range_refused`) or whose
/// converted range does not lie on character boundaries, or a text too long
/// for a line index. A partial change whose range does not convert is skipped.
pub open spec fn apply_change_spec(text: Seq<char>, change: ContentChange) -> Option<Seq<char>> {
    match change {
        ContentChange::Partial { range, text: insert } => if range_refused(text, range) {
            None
        } else {
            match convert_range_spec(text, range) {
            Some(r) => if splittable(text, r.start as int, r.end as int) {
                let t = splice_text(text, r.start as int, r.end as int, insert@);
                if indexable(t) {
                    Some(t)
                } else {
                    None
                }
            } else {
                None
            },
            None => Some(text),
        }
        },
        ContentChange::WholeDocument { text: whole } => if indexable(whole@) {
            Some(whole@)
        } else {
            None
        },
    }
}

/// The text after the first `n` changes, applied in order.
pub open spec fn apply_changes_spec(text: Seq<char>, changes: Seq<ContentChange>, n: int) -> Option<Seq<char>>
    decreases n,
{
    if n <= 0 {
        Some(text)
    } else {
        match apply_changes_spec(text, changes, n - 1) {
            Some(t) => apply_change_spec(t, changes[n - 1]),
            None => None,
        }
    }
}

proof fn lemma_apply_changes_none(text: Seq<char>, changes: Seq<ContentChange>, k: int, n: int)
    requires
        0 <= k <= n,
        apply_changes_spec(text, changes, k) is None,
    ensures
        apply_changes_spec(text, changes, n) is None,
    decreases n - k,
{
    if n > k {
        lemma_apply_changes_none(text, changes, k, n - 1);
    }
}

/// Applies the changes in order to a text: each partial change is converted
/// against the text as it stands after the previous ones. `None` where a
/// change cannot be applied (see `apply_change_spec`).
pub fn apply_changes(text: &String, changes: &Vec<ContentChange>) -> (r: Option<String>)
    requires
        indexable(text@),
    ensures
        match apply_changes_spec(text@, changes@, changes@.len() as int) {
            Some(t) => r matches Some(s) && s@ == t,
            None => r is None,
        },
{
    let mut current = text.clone();
    let mut i: usize = 0;
    while i < changes.len()
        invariant
            i <= changes@.len(),
            apply_changes_spec(text@, changes@, i as int) == Some(current@),
            indexable(current@),
        decreases changes@.len() - i,
    {
        match &changes[i] {
            ContentChange::Partial { range, text: insert } => {
                let refused = !position_in_bounds(current.as_str(), range.start) || (position_offset(
                    current.as_str(),
                    range.start,
                ).is_some() && !position_in_bounds(current.as_str(), range.end));
                if refused {
                    proof {
                        lemma_apply_changes_none(text@, changes@, i + 1, changes@.len() as int);
                    }
                    return None;
                }
                match convert_range(current.as_str(), *range) {
                    Some(r) => {
                        let start = r.start as usize;
                        let end = r.end as usize;
                        let str_ref = current.as_str();
                        if start <= end && str_ref.is_char_boundary(start) && str_ref.is_char_boundary(end) {
                            let next = splice(str_ref, start, end, insert.as_str());
                            if !text_indexable(next.as_str()) {
                                proof {
                                    lemma_apply_changes_none(text@, changes@, i + 1, changes@.len() as int);
                                }
                                return None;
                            }
                            current = next;
                        } else {
                            proof {
                                lemma_apply_changes_none(text@, changes@, i + 1, changes@.len() as int);
                            }
                            return None;
                        }
                    },
                    None => {},
                }
            },
            ContentChange::WholeDocument { text: whole } => {
                if !text_indexable(whole.as_str()) {
                    proof {
                        lemma_apply_changes_none(text@, changes@, i + 1, changes@.len() as int);
                    }
                    return None;
                }
                current = whole.clone();
            },
        }
        i = i + 1;
    }
    Some(current)
}

/// A syntax error the parser reported, with its range in the text.
pub struct SyntaxError {
    pub range: TextRange,
    /// The message as the parser displays it.
    pub message: String,
    /// The name of the expected construct, when the parser reports one.
    pub name: Option<String>,
}

impl View for SyntaxError {
    type V = (TextRange, Seq<char>, Option<Seq<char>>);

    open spec fn view(&self) -> (TextRange, Seq<char>, Option<Seq<char>>) {
        (
            self.range,
            self.message@,
            match self.name {
                Some(n) => Some(n@),
                None => None,
            },
        )
    }
}

/// The views of a list of syntax errors.
pub open spec fn error_views(s: Seq<SyntaxError>) -> Seq<(TextRange, Seq<char>, Option<Seq<char>>)> {
    s.map_values(|e: SyntaxError| e@)
}

/// Where an error lands after an edit reparsed the node at `node_range`,
/// replacing `removed` bytes with `inserted` ones: errors inside the node
/// are dropped (the reparse reports afresh), errors that start in the node
/// but end after it move by the change of length, and the others stay.
/// `Some(None)` drops the error; `None` marks a range that would leave
/// `u32`.
pub open spec fn moved_error(err: (TextRange, Seq<char>, Option<Seq<char>>), node_range: TextRange, removed: u32, inserted: u32) -> Option<
    Option<(TextRange, Seq<char>, Option<Seq<char>>)>,
> {
    let r = err.0;
    if node_range.start <= r.start && r.end <= node_range.end {
        Some(None)
    } else if node_range.start <= r.start {
        let start = r.start + inserted - removed;
        let end = r.end + inserted - removed;
        if r.start + inserted <= u32::MAX && r.end + inserted <= u32::MAX && 0 <= start && 0 <= end {
            Some(Some((TextRange { start: start as u32, end: end as u32 }, err.1, err.2)))
        } else {
            None
        }
    } else {
        Some(Some(err))
    }
}

/// The old errors kept or moved, in order, for the first `n` of them.
pub open spec fn kept_errors(
    errs: Seq<(TextRange, Seq<char>, Option<Seq<char>>)>,
    node_range: TextRange,
    removed: u32,
    inserted: u32,
    n: int,
) -> Option<Seq<(TextRange, Seq<char>, Option<Seq<char>>)>>
    decreases n,
{
    if n <= 0 {
        Some(Seq::empty())
    } else {
        match (kept_errors(errs, node_range, removed, inserted, n - 1), moved_error(errs[n - 1], node_range, removed, inserted)) {
            (Some(rest), Some(Some(e))) => Some(rest.push(e)),
            (Some(rest), Some(None)) => Some(rest),
            _ => None,
        }
    }
}

/// The errors of the reparsed node, moved from the node's own offsets to
/// the document's, for the first `n` of them.
pub open spec fn shifted_errors(errs: Seq<(TextRange, Seq<char>, Option<Seq<char>>)>, offset: u32, n: int) -> Option<Seq<(TextRange, Seq<char>, Option<Seq<char>>)>>
    decreases n,
{
    if n <= 0 {
        Some(Seq::empty())
    } else {
        match shifted_errors(errs, offset, n - 1) {
            Some(rest) => {
                let r = errs[n - 1].0;
                if r.start + offset <= u32::MAX && r.end + offset <= u32::MAX {
                    Some(rest.push((TextRange { start: (r.start + offset) as u32, end: (r.end + offset) as u32 }, errs[n - 1].1, errs[n - 1].2)))
                } else {
                    None
                }
            },
            None => None,
        }
    }
}

/// The errors of a document after the node at `node_range` was reparsed:
/// the old ones kept or moved, then the new ones moved to document offsets;
/// `None` where a range would leave `u32`.
pub open spec fn merged_errors(
    old: Seq<(TextRange, Seq<char>, Option<Seq<char>>)>,
    node_range: TextRange,
    removed: u32,
    inserted: u32,
    fresh: Seq<(TextRange, Seq<char>, Option<Seq<char>>)>,
) -> Option<Seq<(TextRange, Seq<char>, Option<Seq<char>>)>> {
    match (
        kept_errors(old, node_range, removed, inserted, old.len() as int),
        shifted_errors(fresh, node_range.start, fresh.len() as int),
    ) {
        (Some(a), Some(b)) => Some(a + b),
        _ => None,
    }
}

proof fn lemma_kept_errors_none(errs: Seq<(TextRange, Seq<char>, Option<Seq<char>>)>, node_range: TextRange, removed: u32, inserted: u32, k: int, n: int)
    requires
        0 <= k <= n,
        kept_errors(errs, node_range, removed, inserted, k) is None,
    ensures
        kept_errors(errs, node_range, removed, inserted, n) is None,
    decreases n - k,
{
    if n > k {
        lemma_kept_errors_none(errs, node_range, removed, inserted, k, n - 1);
    }
}

proof fn lemma_shifted_errors_none(errs: Seq<(TextRange, Seq<char>, Option<Seq<char>>)>, offset: u32, k: int, n: int)
    requires
        0 <= k <= n,
        shifted_errors(errs, offset, k) is None,
    ensures
        shifted_errors(errs, offset, n) is None,
    decreases n - k,
{
    if n > k {
        lemma_shifted_errors_none(errs, offset, k, n - 1);
    }
}

fn clone_name(name: &Option<String>) -> (r: Option<String>)
    ensures
        match *name {
            Some(n) => r matches Some(x) && x@ == n@,
            None => r is None,
        },
{
    match name {
        Some(n) => Some(n.clone()),
        None => None,
    }
}

/// The errors of a document after the node at `node_range` was reparsed,
/// `removed` bytes having been replaced with `inserted` ones: see
/// `merged_errors`. `None` where a moved range would leave `u32`.
pub fn merge_syntax_errors(
    old: &Vec<SyntaxError>,
    node_range: TextRange,
    removed: u32,
    inserted: u32,
    fresh: Vec<SyntaxError>,
) -> (r: Option<Vec<SyntaxError>>)
    ensures
        match merged_errors(error_views(old@), node_range, removed, inserted, error_views(fresh@)) {
            Some(m) => r matches Some(v) && error_views(v@) == m,
            None => r is None,
        },
{
    let ghost olds = error_views(old@);
    let ghost freshs = error_views(fresh@);
    let mut out: Vec<SyntaxError> = Vec::new();
    let mut i: usize = 0;
    while i < old.len()
        invariant
            olds == error_views(old@),
            i <= old@.len(),
            kept_errors(olds, node_range, removed, inserted, i as int) == Some(error_views(out@)),
        decreases old@.len() - i,
    {
        let e = &old[i];
        let r = e.range;
        let ghost before = out@;
        assert(olds[i as int] == e@);
        if node_range.start <= r.start && r.end <= node_range.end {
        } else if node_range.start <= r.start {
            if r.start as u64 + inserted as u64 <= 0xffff_ffffu64 && r.end as u64 + inserted as u64
                <= 0xffff_ffffu64 && r.start as u64 + inserted as u64 >= removed as u64 && r.end as u64
                + inserted as u64 >= removed as u64 {
                let start = (r.start as u64 + inserted as u64 - removed as u64) as u32;
                let end = (r.end as u64 + inserted as u64 - removed as u64) as u32;
                out.push(SyntaxError { range: TextRange { start, end }, message: e.message.clone(), name: clone_name(&e.name) });
                proof {
                    assert(error_views(out@) =~= error_views(before).push(out@[out@.len() - 1]@));
                }
            } else {
                proof {
                    lemma_kept_errors_none(olds, node_range, removed, inserted, i + 1, old@.len() as int);
                }
                return None;
            }
        } else {
            out.push(SyntaxError { range: r, message: e.message.clone(), name: clone_name(&e.name) });
            proof {
                assert(error_views(out@) =~= error_views(before).push(out@[out@.len() - 1]@));
            }
        }
        i = i + 1;
    }
    let ghost kept = error_views(out@);
    let mut j: usize = 0;
    while j < fresh.len()
        invariant
            freshs == error_views(fresh@),
            j <= fresh@.len(),
            kept_errors(olds, node_range, removed, inserted, olds.len() as int) == Some(kept),
            shifted_errors(freshs, node_range.start, j as int) matches Some(sh) && error_views(out@) == kept + sh,
        decreases fresh@.len() - j,
    {
        let e = &fresh[j];
        let r = e.range;
        let ghost before = out@;
        let ghost sh = shifted_errors(freshs, node_range.start, j as int).unwrap();
        assert(freshs[j as int] == e@);
        if r.start as u64 + node_range.start as u64 <= 0xffff_ffffu64 && r.end as u64
            + node_range.start as u64 <= 0xffff_ffffu64 {
            out.push(
                SyntaxError {
                    range: TextRange { start: r.start + node_range.start, end: r.end + node_range.start },
                    message: e.message.clone(),
                    name: clone_name(&e.name),
                },
            );
            proof {
                assert(error_views(out@) =~= error_views(before).push(out@[out@.len() - 1]@));
                assert(shifted_errors(freshs, node_range.start, j + 1) == Some(sh.push(out@[out@.len() - 1]@)));
                assert(kept + sh.push(out@[out@.len() - 1]@) =~= (kept + sh).push(out@[out@.len() - 1]@));
            }
        } else {
            proof {
                lemma_shifted_errors_none(freshs, node_range.start, j + 1, fresh@.len() as int);
            }
            return None;
        }
        j = j + 1;
    }
    Some(out)
}

/// An open document: its URI, its text, the parse of the text and the
/// syntax errors found in it.
pub struct Document {
    pub uri: String,
    pub text: String,
    pub root: SyntaxNode,
    pub syntax_errors: Vec<SyntaxError>,
}

/// An edit that can be reparsed in place: the byte range it replaced, the
/// node around it that is reparsed, the new text, the text the node is
/// reparsed from, and the number of bytes inserted.
pub struct IncrementalChange {
    pub range: TextRange,
    pub node_kind: SyntaxKind,
    pub node_range: TextRange,
    pub text: String,
    pub source: String,
    pub inserted: u32,
}

/// What an incremental change holds, as plain values.
pub struct IncrementalChangeView {
    pub range: TextRange,
    pub node_kind: SyntaxKind,
    pub node_range: TextRange,
    pub text: Seq<char>,
    pub source: Seq<char>,
    pub inserted: u32,
}

impl View for IncrementalChange {
    type V = IncrementalChangeView;

    open spec fn view(&self) -> IncrementalChangeView {
        IncrementalChangeView {
            range: self.range,
            node_kind: self.node_kind,
            node_range: self.node_range,
            text: self.text@,
            source: self.source@,
            inserted: self.inserted,
        }
    }
}

/// The in-place reparse that a list of changes allows on a document with
/// `text` parsed as `root`: only a single partial change whose inserted and
/// replaced bytes are all safe (see `safe_for_incremental`) and whose range
/// converts qualifies. The node reparsed is the deepest parseable node that
/// covers the replaced range, and it is reparsed from the new text's bytes
/// that start where the replaced range started and run for as many bytes
/// as were inserted. `None` also where the replaced range or that slice is
/// not on character boundaries, or where the inserted or the new text is
/// too long for `u32` offsets.
pub open spec fn incremental_plan(text: Seq<char>, root: SyntaxNode, changes: Seq<ContentChange>) -> Option<
    IncrementalChangeView,
> {
    if changes.len() != 1 {
        None
    } else {
        match changes[0] {
            ContentChange::Partial { range, text: insert } => {
                let ins = encode_utf8(insert@);
                let bytes = encode_utf8(text);
                if !all_safe(ins) {
                    None
                } else {
                    match convert_range_spec(text, range) {
                        None => None,
                        Some(r) => {
                            if !(r.end <= bytes.len() && all_safe(
                                bytes.subrange(r.start as int, r.end as int),
                            )) {
                                None
                            } else if !splittable(text, r.start as int, r.end as int) || ins.len()
                                >= u32::MAX || r.end + ins.len() > usize::MAX {
                                None
                            } else {
                                let node = deepest_parseable(root, root, r);
                                let t = splice_text(text, r.start as int, r.end as int, insert@);
                                let source_end = r.end + ins.len() - (r.end - r.start);
                                if !splittable(t, r.start as int, source_end) || !indexable(t) {
                                    None
                                } else {
                                    Some(
                                        IncrementalChangeView {
                                            range: r,
                                            node_kind: node.kind,
                                            node_range: node.range,
                                            text: t,
                                            source: slice_text(t, r.start as int, source_end),
                                            inserted: ins.len() as u32,
                                        },
                                    )
                                }
                            }
                        },
                    }
                }
            },
            ContentChange::WholeDocument { .. } => None,
        }
    }
}

/// The in-place reparse that the changes allow on a document: see
/// `incremental_plan`.
pub fn plan_incremental(text: &String, root: &SyntaxNode, changes: &Vec<ContentChange>) -> (r: Option<
    IncrementalChange,
>)
    requires
        indexable(text@),
    ensures
        match incremental_plan(text@, *root, changes@) {
            Some(p) => r matches Some(c) && c@ == p,
            None => r is None,
        },
{
    if changes.len() != 1 {
        return None;
    }
    let (range, insert) = match &changes[0] {
        ContentChange::Partial { range, text } => (*range, text),
        ContentChange::WholeDocument { .. } => return None,
    };
    let ins = insert.as_str().as_bytes();
    if !bytes_all_safe(ins) {
        return None;
    }
    let r = match convert_range(text.as_str(), range) {
        Some(r) => r,
        None => return None,
    };
    let bytes = text.as_str().as_bytes();
    let start = r.start as usize;
    let end = r.end as usize;
    if end > bytes.len() {
        return None;
    }
    let replaced = slice_bytes(bytes, start, end);
    if !bytes_all_safe(replaced.as_slice()) {
        return None;
    }
    let str_ref = text.as_str();
    if !(str_ref.is_char_boundary(start) && str_ref.is_char_boundary(end)) || ins.len() >= 0xffff_ffffusize {
        return None;
    }
    let grown = match end.checked_add(ins.len()) {
        Some(g) => g,
        None => return None,
    };
    let node = find_deepest_parseable_node(root, r);
    let new_text = splice(str_ref, start, end, insert.as_str());
    let source_end = grown - (end - start);
    let source = match slice(new_text.as_str(), start, source_end) {
        Some(s) => s,
        None => return None,
    };
    if !text_indexable(new_text.as_str()) {
        return None;
    }
    Some(
        IncrementalChange {
            range: r,
            node_kind: node.kind,
            node_range: node.range,
            text: new_text,
            source,
            inserted: ins.len() as u32,
        },
    )
}

/// The bytes `start..end` of a slice.
fn slice_bytes(bytes: &[u8], start: usize, end: usize) -> (r: Vec<u8>)
    requires
        start <= end <= bytes@.len(),
    ensures
        r@ == bytes@.subrange(start as int, end as int),
{
    let mut r: Vec<u8> = Vec::new();
    let mut i = start;
    while i < end
        invariant
            start <= i <= end,
            end <= bytes@.len(),
            r@ == bytes@.subrange(start as int, i as int),
        decreases end - i,
    {
        r.push(bytes[i]);
        proof {
            assert(bytes@.subrange(start as int, i + 1) =~= bytes@.subrange(start as int, i as int).push(bytes@[i as int]));
        }
        i = i + 1;
    }
    r
}

/// Reparsing in place never changes what text a document ends up with: when
/// the changes allow an in-place reparse, its new text is the text that
/// applying the changes in full gives.
pub proof fn law_incremental_text_agrees(text: Seq<char>, root: SyntaxNode, changes: Seq<ContentChange>)
    requires
        incremental_plan(text, root, changes) is Some,
    ensures
        apply_changes_spec(text, changes, changes.len() as int) == Some(
            incremental_plan(text, root, changes).unwrap().text,
        ),
{
    assert(changes.len() == 1);
    assert(apply_changes_spec(text, changes, 0) == Some(text));
}

/// A whole-document change decides the text, whatever came before it.
pub proof fn law_whole_document_wins(text: Seq<char>, changes: Seq<ContentChange>, whole: String)
    requires
        apply_changes_spec(text, changes, changes.len() as int) is Some,
        indexable(whole@),
    ensures
        apply_changes_spec(
            text,
            changes.push(ContentChange::WholeDocument { text: whole }),
            changes.len() + 1int,
        ) == Some(whole@),
{
    let all = changes.push(ContentChange::WholeDocument { text: whole });
    lemma_apply_changes_prefix(text, changes, all, changes.len() as int);
}

proof fn lemma_apply_changes_prefix(text: Seq<char>, a: Seq<ContentChange>, b: Seq<ContentChange>, n: int)
    requires
        0 <= n <= a.len(),
        n <= b.len(),
        forall|i: int| 0 <= i < n ==> a[i] == b[i],
    ensures
        apply_changes_spec(text, b, n) == apply_changes_spec(text, a, n),
    decreases n,
{
    if n > 0 {
        lemma_apply_changes_prefix(text, a, b, n - 1);
    }
}

/// The node chosen for reparsing covers the changed range, and is either
/// the root or a node the parser can parse on its own.
pub proof fn law_deepest_parseable_covers(root: SyntaxNode, range: TextRange)
    requires
        range_covers(root.range, range),
    ensures
        deepest_parseable(root, root, range) == root || is_parseable(deepest_parseable(root, root, range).kind),
        range_covers(deepest_parseable(root, root, range).range, range),
{
    lemma_deepest(root, root, range);
}

proof fn lemma_deepest(last: SyntaxNode, node: SyntaxNode, range: TextRange)
    requires
        range_covers(last.range, range),
    ensures
        deepest_parseable(last, node, range) == last || is_parseable(deepest_parseable(last, node, range).kind),
        range_covers(deepest_parseable(last, node, range).range, range),
    decreases node,
{
    lemma_first_child_covers(node.children@, range, node.children@.len() as int);
    match first_child_at(node.children@, range, node.children@.len() as int) {
        Some(i) => if 0 <= i < node.children@.len() {
            match node.children@[i] {
                SyntaxElement::Node(c) => {
                    let next = if is_parseable(c.kind) {
                        c
                    } else {
                        last
                    };
                    lemma_deepest(next, c, range);
                },
                _ => {},
            }
        },
        None => {},
    }
}

proof fn lemma_first_child_covers(children: Seq<SyntaxElement>, range: TextRange, n: int)
    ensures
        first_child_at(children, range, n) matches Some(i) ==> (children[i] matches SyntaxElement::Node(c)
            && range_covers(c.range, range)),
    decreases n,
{
    if n > 0 {
        lemma_first_child_covers(children, range, n - 1);
    }
}

} // verus!

