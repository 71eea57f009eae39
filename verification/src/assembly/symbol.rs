//! Labels and the byte offsets they stand for.

use crate::assembly::token::{Token, TokenView};
use vstd::prelude::*;

verus! {

/// A label with the offset of the byte it marks in the image. The token's
/// lexeme is the label's name, without the colon that ends its definition.
#[derive(Debug)]
pub struct Symbol {
    pub token: Token,
    pub offset: usize,
}

/// The mathematical content of a [`Symbol`].
pub struct SymbolView {
    pub token: TokenView,
    pub offset: usize,
}

impl View for Symbol {
    type V = SymbolView;

    open spec fn view(&self) -> SymbolView {
        SymbolView { token: self.token@, offset: self.offset }
    }
}

impl Clone for Symbol {
    fn clone(&self) -> (copy: Self)
        ensures
            copy == *self,
    {
        Symbol { token: self.token.clone(), offset: self.offset }
    }
}

impl Symbol {
    /// A symbol for a label and the offset it marks.
    pub fn new(token: Token, offset: usize) -> (symbol: Self)
        ensures
            symbol.token == token,
            symbol.offset == offset,
    {
        Self { token, offset }
    }
}

} // verus!
