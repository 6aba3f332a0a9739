//! References by number or by identifier.

use crate::text::{decimal, push_decimal};
use vstd::prelude::*;

verus! {

/// An interned identifier: the position of its text in the identifier
/// table, so equal ids denote equal identifier texts.
#[derive(Clone, Copy, Debug, PartialEq, Eq, Hash, Structural)]
pub struct InternIdent(pub u32);

/// An index as written in the source: a number, an identifier, or both
/// (a definition has its position as number and possibly a name).
#[derive(Clone, Copy, Debug, PartialEq, Eq, Structural)]
pub struct Idx {
    pub num: Option<u32>,
    pub name: Option<InternIdent>,
}

/// The texts of an identifier table.
pub open spec fn ident_texts(idents: Seq<String>) -> Seq<Seq<char>> {
    idents.map_values(|s: String| s@)
}

/// How an index reads in messages: its identifier when it has one, else its
/// number, else nothing.
pub open spec fn render_idx(idx: Idx, idents: Seq<Seq<char>>) -> Seq<char> {
    match idx.name {
        Some(name) if (name.0 as int) < idents.len() => idents[name.0 as int],
        _ => match idx.num {
            Some(num) => decimal(num as nat),
            None => Seq::empty(),
        },
    }
}

impl Idx {
    /// How the index reads in messages, with identifier texts from `idents`.
    pub fn render(&self, idents: &Vec<String>) -> (r: String)
        ensures
            r@ == render_idx(*self, ident_texts(idents@)),
    {
        match self.name {
            Some(name) if (name.0 as usize) < idents.len() => idents[name.0 as usize].clone(),
            _ => {
                let mut s = String::new();
                match self.num {
                    Some(num) => push_decimal(&mut s, num as u64),
                    None => {},
                }
                s
            },
        }
    }
}

} // verus!
