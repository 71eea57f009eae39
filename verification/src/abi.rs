//! The agreement between the assembler and the machine: what the one writes
//! into an image is what the other finds there.

use crate::assembly::grammar::{
    assemble,
    code_start,
    instruction_at,
    offset_at,
    symbols_of,
};
use crate::assembly::image::{
    begins_statement,
    code_position,
    lemma_directives_layout,
    lemma_image_layout,
    lemma_instruction_lies_at_its_offset,
    lemma_instruction_record,
};
use crate::assembly::token::TokenView;
use crate::util::endianness::lemma_i32_le_round_trip;
use crate::vm::instruction::lemma_encode_decode_round_trip;
use crate::vm::memory::{image_byte, image_header, loaded, MEM_CAPACITY};
use crate::vm::semantics::CpuView;
use vstd::prelude::*;

verus! {

/// The machine finds the code segment where the assembler has put it: the
/// header of an assembled image, read as the machine reads it, is the offset
/// of the first instruction, and the code segment of the loaded image runs
/// from there to the end of the image.
pub proof fn lemma_machine_finds_the_code(tokens: Seq<TokenView>)
    requires
        assemble(tokens) is Ok,
    ensures
        image_header(assemble(tokens)->Ok_0) == code_start(tokens),
        loaded(assemble(tokens)->Ok_0).code_seg_start == code_start(tokens),
        loaded(assemble(tokens)->Ok_0).heap_start == offset_at(tokens, tokens.len() as int),
{
    let image = assemble(tokens)->Ok_0;
    lemma_image_layout(tokens);
    lemma_i32_le_round_trip(code_start(tokens) as i32);
    assert(Seq::new(4, |i: int| image_byte(image, i)) =~= image.subrange(
        0,
        4,
    ));
}

/// The machine decodes what the assembler has encoded. With an assembled
/// image loaded, and however its data may have changed since, a machine whose
/// program counter stands at the offset of a statement finds there the
/// instruction that the statement denotes.
pub proof fn lemma_machine_decodes_what_was_assembled(
    tokens: Seq<TokenView>,
    i: int,
    cpu: CpuView,
)
    requires
        assemble(tokens) is Ok,
        assemble(tokens)->Ok_0.len() <= MEM_CAPACITY,
        begins_statement(tokens, code_position(tokens), i, symbols_of(tokens)),
        loaded(assemble(tokens)->Ok_0).same_code(cpu.memory),
        cpu.pc() == offset_at(tokens, i),
    ensures
        instruction_at(tokens, i, symbols_of(tokens)) is Ok,
        cpu.next_instruction() == Some(instruction_at(tokens, i, symbols_of(tokens))->Ok_0.0),
{
    let image = assemble(tokens)->Ok_0;
    let instruction = instruction_at(tokens, i, symbols_of(tokens))->Ok_0.0;
    let at = offset_at(tokens, i) as int;
    lemma_machine_finds_the_code(tokens);
    lemma_image_layout(tokens);
    lemma_instruction_lies_at_its_offset(tokens, i);
    lemma_directives_layout(tokens, 0);
    lemma_instruction_record(tokens, code_position(tokens), i, symbols_of(tokens));
    lemma_encode_decode_round_trip(instruction);
    let record = image.subrange(at, at + 12);
    let memory = loaded(image);
    assert forall|a: int| at <= a < at + 12 implies cpu.memory.bytes[a] == image[a] by {
        assert(memory.in_code_seg(a) && memory.in_bounds(a));
        assert(memory.bytes[a] == image[a]);
    }
    assert(cpu.memory.bytes.subrange(at, at + 4) =~= record.subrange(0, 4));
    assert(cpu.memory.bytes.subrange(at + 4, at + 8) =~= record.subrange(4, 8));
    assert(cpu.memory.bytes.subrange(at + 8, at + 12) =~= record.subrange(8, 12));
}

} // verus!
