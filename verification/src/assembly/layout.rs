//! Facts about the layout that the first pass computes.

use crate::assembly::directive::quoted_content;
use crate::assembly::grammar::{
    defines,
    first_instruction_from,
    is_instruction,
    layout_failure,
    layout_fails_at,
    max_offset,
    next_statement,
    offset_at,
    redefines,
    starts_statement,
    statement_size,
    symbols_upto,
};
use crate::assembly::token::TokenView;
use vstd::prelude::*;
use vstd::utf8::encode_utf8;

verus! {

/// The UTF-8 bytes of two texts in a row are the bytes of the first followed
/// by the bytes of the second.
pub proof fn lemma_encode_utf8_concat(a: Seq<char>, b: Seq<char>)
    ensures
        encode_utf8(a + b) == encode_utf8(a) + encode_utf8(b),
    decreases a.len(),
{
    if a.len() == 0 {
        assert(a + b =~= b);
        assert(encode_utf8(a) + encode_utf8(b) =~= encode_utf8(b));
    } else {
        assert((a + b).drop_first() =~= a.drop_first() + b);
        assert((a + b)[0] == a[0]);
        lemma_encode_utf8_concat(a.drop_first(), b);
        assert(encode_utf8(a + b) =~= encode_utf8(a) + encode_utf8(b));
    }
}

/// A text between two single-byte quotes takes two bytes less than the
/// quoted lexeme.
pub proof fn lemma_quoted_size(lexeme: Seq<char>, quote: char)
    requires
        quoted_content(lexeme, quote) is Some,
        (quote as u32) < 0x80,
    ensures
        encode_utf8(lexeme).len() == encode_utf8(quoted_content(lexeme, quote).unwrap()).len() + 2,
{
    let content = quoted_content(lexeme, quote).unwrap();
    let q = seq![quote];
    assert(lexeme =~= q + content + q);
    lemma_encode_utf8_concat(q + content, q);
    lemma_encode_utf8_concat(q, content);
    assert(q.drop_first() =~= Seq::<char>::empty());
    assert(encode_utf8(q.drop_first()) =~= Seq::<u8>::empty());
    assert(encode_utf8(q).len() == 1);
}

/// The tokens between a keyword and the next statement are operands: they
/// take no room, define no label and begin no instruction.
pub proof fn lemma_operands_change_nothing(tokens: Seq<TokenView>, from: int, to: int)
    requires
        0 <= from <= tokens.len(),
        to == next_statement(tokens, from),
    ensures
        from <= to <= tokens.len(),
        offset_at(tokens, to) == offset_at(tokens, from),
        symbols_upto(tokens, to) == symbols_upto(tokens, from),
        first_instruction_from(tokens, to) == first_instruction_from(tokens, from),
        layout_failure(tokens, from) is None && offset_at(tokens, from) <= max_offset()
            ==> layout_failure(tokens, to) is None,
    decreases tokens.len() - from,
{
    if from < tokens.len() && !starts_statement(tokens[from].token_type) {
        lemma_operands_change_nothing(tokens, from + 1, to);
        assert(statement_size(tokens, from) == 0);
        assert(offset_at(tokens, from + 1) == offset_at(tokens, from));
        assert(symbols_upto(tokens, from + 1) == symbols_upto(tokens, from));
        assert(!redefines(tokens, from));
        assert(layout_failure(tokens, from) is None && offset_at(tokens, from) <= max_offset()
            ==> layout_failure(tokens, from + 1) is None);
    }
}

/// The table built from the first `n` tokens knows a name exactly if one of
/// them defines it.
pub proof fn lemma_symbols_domain(tokens: Seq<TokenView>, n: int, name: Seq<char>)
    requires
        0 <= n <= tokens.len(),
    ensures
        symbols_upto(tokens, n).contains_key(name) <==> exists|i: int|
            0 <= i < n && #[trigger] defines(tokens, i, name),
    decreases n,
{
    if n > 0 {
        lemma_symbols_domain(tokens, n - 1, name);
        if exists|i: int| 0 <= i < n && #[trigger] defines(tokens, i, name) {
            let i = choose|i: int| 0 <= i < n && #[trigger] defines(tokens, i, name);
            if i < n - 1 {
                assert(defines(tokens, i, name));
            }
        }
        if symbols_upto(tokens, n).contains_key(name) {
            if symbols_upto(tokens, n - 1).contains_key(name) {
                let i = choose|i: int| 0 <= i < n - 1 && #[trigger] defines(tokens, i, name);
                assert(defines(tokens, i, name));
            } else {
                assert(defines(tokens, n - 1, name));
            }
        }
    }
}

/// Once the first pass has stopped at a position, reading on changes
/// nothing.
pub proof fn lemma_layout_failure_stays(tokens: Seq<TokenView>, i: int, n: int)
    requires
        0 <= i < n,
        layout_failure(tokens, i) is None,
        layout_fails_at(tokens, i),
    ensures
        layout_failure(tokens, n) == Some(i),
    decreases n - i,
{
    if n > i + 1 {
        lemma_layout_failure_stays(tokens, i, n - 1);
    }
}

/// Where no mnemonic stands before a position, the first mnemonic of the
/// stream is the first one from that position on.
pub proof fn lemma_first_instruction_step(tokens: Seq<TokenView>, i: int)
    requires
        0 <= i < tokens.len(),
        !is_instruction(tokens[i].token_type),
    ensures
        first_instruction_from(tokens, i) == first_instruction_from(tokens, i + 1),
{
}

} // verus!
