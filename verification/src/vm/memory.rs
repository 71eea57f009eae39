//! The machine's memory: a fixed byte arena split into header, data segment,
//! code segment, heap and stack, with checked accessors.
//!
//! Bytes 0 to 3 hold the header, the address at which the code segment
//! starts. The data segment follows the header, from address 4 on, and ends
//! where the code segment starts; the code segment ends where the loaded
//! image ends. The heap grows upward from there, the stack downward from the
//! end of the arena. The code segment is write-protected.

use crate::util::endianness::{as_i32_le, i32_bytes_le, spec_i32_bytes_le, spec_i32_le};
use vstd::prelude::*;

verus! {

/// Number of bytes in the arena.
pub const MEM_CAPACITY: usize = 102400;

/// Number of bytes in the header, and so the address at which the data
/// segment starts.
pub const HEADER_SIZE: usize = 4;

/// The ways in which a memory access fails, each with the address asked for.
#[derive(Debug, Clone, Copy, PartialEq, Eq, Structural)]
pub enum MemoryErr {
    /// The access leaves the arena.
    OutOfMemoryBounds(usize),
    /// A read of the data segment reaches the code segment or leaves the
    /// arena.
    OutOfDataSegBounds(usize),
    /// A read of the code segment leaves it.
    OutOfCodeSegBounds(usize),
    /// A store would change the code segment.
    SetInsideCodeSegBounds(usize),
    /// The stack would grow into the heap. No instruction moves the stack
    /// yet.
    StackOverflow(usize),
    /// More would be taken from the stack than it holds.
    StackUnderflow(usize),
    /// The heap would grow into the stack. No instruction moves the heap
    /// yet.
    HeapOverflow(usize),
    /// More would be given back to the heap than it holds.
    HeapUnderflow(usize),
}

/// The arena with its segment boundaries.
pub struct Memory {
    bytes: [u8; MEM_CAPACITY],
    code_seg_start: usize,
    heap_start: usize,
    heap_size: usize,
    stack_size: usize,
}

/// The mathematical content of a [`Memory`].
pub struct MemoryView {
    /// The arena, `MEM_CAPACITY` bytes long.
    pub bytes: Seq<u8>,
    /// First address of the code segment.
    pub code_seg_start: nat,
    /// First address after the code segment.
    pub heap_start: nat,
    pub heap_size: nat,
    pub stack_size: nat,
}

/// The address that a word stands for, be it an operand, the value of a
/// register or the header of an image: the value itself, or for a negative
/// one the address that the same bits denote as an unsigned machine word,
/// which lies beyond every segment.
pub open spec fn address_of(value: i32) -> usize {
    if value >= 0 {
        value as usize
    } else {
        (usize::MAX + 1 + value) as usize
    }
}

/// The address that a word stands for.
pub fn to_address(value: i32) -> (address: usize)
    ensures
        address == address_of(value),
        value >= 0 ==> address == value,
        value < 0 ==> address >= 0x8000_0000,
{
    if value >= 0 {
        value as usize
    } else {
        usize::MAX - ((-(value + 1)) as usize)
    }
}

/// The header of an image: its first four bytes, read as a little-endian
/// signed integer, with zeros in place of bytes that the image lacks.
pub open spec fn image_header(image: Seq<u8>) -> int {
    spec_i32_le(Seq::new(4, |i: int| image_byte(image, i)))
}

/// The byte that an image puts at an address of the arena: its own byte
/// where it has one, zero elsewhere.
pub open spec fn image_byte(image: Seq<u8>, i: int) -> u8 {
    if 0 <= i < image.len() {
        image[i]
    } else {
        0u8
    }
}

/// The memory that loading an image gives: the image at the start of the
/// arena, zeros after it; the code segment from the address that the header
/// stands for to the end of the image; empty heap and stack. A negative
/// header stands for an address beyond every segment, so that the image has
/// no code segment.
pub open spec fn loaded(image: Seq<u8>) -> MemoryView {
    MemoryView {
        bytes: Seq::new(MEM_CAPACITY as nat, |i: int| image_byte(image, i)),
        code_seg_start: address_of(image_header(image) as i32) as nat,
        heap_start: image.len(),
        heap_size: 0,
        stack_size: 0,
    }
}

impl MemoryView {
    /// Whether an address lies in the arena.
    pub open spec fn in_bounds(self, idx: int) -> bool {
        0 <= idx < self.bytes.len()
    }

    /// Whether an address lies in the data segment: after the header and
    /// before the code segment.
    pub open spec fn in_data_seg(self, idx: int) -> bool {
        HEADER_SIZE <= idx < self.code_seg_start
    }

    /// Whether an address lies in the code segment.
    pub open spec fn in_code_seg(self, idx: int) -> bool {
        self.code_seg_start <= idx < self.heap_start
    }

    /// Whether some address of `idx .. idx + len` lies in the code segment.
    pub open spec fn overlaps_code_seg(self, idx: int, len: int) -> bool {
        exists|a: int| idx <= a < idx + len && #[trigger] self.in_code_seg(a)
    }

    /// First address after the heap.
    pub open spec fn next_heap_idx(self) -> int {
        (self.heap_start + self.heap_size) as int
    }

    /// Address that the next byte pushed on the stack will take.
    pub open spec fn next_stack_idx(self) -> int {
        self.bytes.len() - 1 - self.stack_size
    }

    /// Whether an address lies in the heap.
    pub open spec fn in_heap(self, idx: int) -> bool {
        self.heap_start <= idx < self.next_heap_idx()
    }

    /// Whether an address lies in the stack.
    pub open spec fn in_stack(self, idx: int) -> bool {
        self.next_stack_idx() < idx < self.bytes.len()
    }

    /// Whether an address lies between the heap and the stack.
    pub open spec fn in_free_memory(self, idx: int) -> bool {
        self.next_heap_idx() <= idx <= self.next_stack_idx()
    }

    /// The word stored in the four bytes from `idx`.
    pub open spec fn word_at(self, idx: int) -> int
        recommends
            0 <= idx,
            idx + 4 <= self.bytes.len(),
    {
        spec_i32_le(self.bytes.subrange(idx, idx + 4))
    }

    /// The memory after one byte has been stored.
    pub open spec fn with_byte(self, idx: int, byte: u8) -> MemoryView {
        MemoryView { bytes: self.bytes.update(idx, byte), ..self }
    }

    /// The memory after a word has been stored in the four bytes from `idx`.
    pub open spec fn with_word(self, idx: int, word: i32) -> MemoryView {
        let encoded = spec_i32_bytes_le(word);
        MemoryView {
            bytes: self.bytes.update(idx, encoded[0]).update(idx + 1, encoded[1]).update(
                idx + 2,
                encoded[2],
            ).update(idx + 3, encoded[3]),
            ..self
        }
    }

    /// What reading a word anywhere in the arena gives.
    pub open spec fn read_any_i32(self, idx: int) -> Result<i32, MemoryErr> {
        if self.in_bounds(idx) && self.in_bounds(idx + 3) {
            Ok(self.word_at(idx) as i32)
        } else {
            Err(MemoryErr::OutOfMemoryBounds(idx as usize))
        }
    }

    /// What reading a byte anywhere in the arena gives.
    pub open spec fn read_any_u8(self, idx: int) -> Result<u8, MemoryErr> {
        if self.in_bounds(idx) {
            Ok(self.bytes[idx])
        } else {
            Err(MemoryErr::OutOfMemoryBounds(idx as usize))
        }
    }

    /// What reading a byte of the data segment gives.
    pub open spec fn read_data_seg_u8(self, idx: int) -> Result<u8, MemoryErr> {
        if self.in_data_seg(idx) && self.in_bounds(idx) {
            Ok(self.bytes[idx])
        } else {
            Err(MemoryErr::OutOfDataSegBounds(idx as usize))
        }
    }

    /// What reading a word of the data segment gives: all four bytes must lie
    /// in it.
    pub open spec fn read_data_seg_i32(self, idx: int) -> Result<i32, MemoryErr> {
        if self.in_data_seg(idx) && self.in_data_seg(idx + 3) && self.in_bounds(idx + 3) {
            Ok(self.word_at(idx) as i32)
        } else {
            Err(MemoryErr::OutOfDataSegBounds(idx as usize))
        }
    }

    /// What reading a word of the code segment gives.
    pub open spec fn read_code_seg_i32(self, idx: int) -> Result<i32, MemoryErr> {
        if self.in_code_seg(idx) && self.in_code_seg(idx + 3) && self.in_bounds(idx + 3) {
            Ok(self.word_at(idx) as i32)
        } else {
            Err(MemoryErr::OutOfCodeSegBounds(idx as usize))
        }
    }

    /// What storing a word does: refused where any of its four bytes would
    /// fall into the code segment, then where it would leave the arena.
    pub open spec fn write_i32(self, idx: int, word: i32) -> Result<MemoryView, MemoryErr> {
        if self.overlaps_code_seg(idx, 4) {
            Err(MemoryErr::SetInsideCodeSegBounds(idx as usize))
        } else if !(self.in_bounds(idx) && self.in_bounds(idx + 3)) {
            Err(MemoryErr::OutOfMemoryBounds(idx as usize))
        } else {
            Ok(self.with_word(idx, word))
        }
    }

    /// What storing a byte does: refused in the code segment, then outside
    /// the arena.
    pub open spec fn write_u8(self, idx: int, byte: u8) -> Result<MemoryView, MemoryErr> {
        if self.in_code_seg(idx) {
            Err(MemoryErr::SetInsideCodeSegBounds(idx as usize))
        } else if !self.in_bounds(idx) {
            Err(MemoryErr::OutOfMemoryBounds(idx as usize))
        } else {
            Ok(self.with_byte(idx, byte))
        }
    }
}

impl MemoryView {
    /// Whether two memories have the same code segment: the same bounds and
    /// the same bytes between them.
    pub open spec fn same_code(self, other: MemoryView) -> bool {
        &&& self.code_seg_start == other.code_seg_start
        &&& self.heap_start == other.heap_start
        &&& self.bytes.len() == other.bytes.len()
        &&& forall|a: int|
            self.in_code_seg(a) && self.in_bounds(a) ==> self.bytes[a] == #[trigger] other.bytes[a]
    }

    /// A store that succeeds leaves the code segment as it was.
    pub proof fn lemma_stores_keep_code(self, idx: int, word: i32, byte: u8)
        ensures
            self.write_i32(idx, word) matches Ok(after) ==> self.same_code(after),
            self.write_u8(idx, byte) matches Ok(after) ==> self.same_code(after),
    {
        if self.write_i32(idx, word) is Ok {
            assert(!self.in_code_seg(idx));
            assert(!self.in_code_seg(idx + 1));
            assert(!self.in_code_seg(idx + 2));
            assert(!self.in_code_seg(idx + 3));
        }
    }

    /// No store reaches the code segment: a byte at an address of the code
    /// segment, and a word of which any byte lies at one, are refused with the
    /// error of a write into the code segment.
    pub proof fn lemma_code_segment_is_write_protected(self, a: int, idx: int, word: i32, byte: u8)
        requires
            self.in_code_seg(a),
            idx <= a < idx + 4,
        ensures
            self.write_u8(a, byte) == Err::<MemoryView, MemoryErr>(
                MemoryErr::SetInsideCodeSegBounds(a as usize),
            ),
            self.write_i32(idx, word) == Err::<MemoryView, MemoryErr>(
                MemoryErr::SetInsideCodeSegBounds(idx as usize),
            ),
    {
    }
}

impl View for Memory {
    type V = MemoryView;

    closed spec fn view(&self) -> MemoryView {
        MemoryView {
            bytes: self.bytes@,
            code_seg_start: self.code_seg_start as nat,
            heap_start: self.heap_start as nat,
            heap_size: self.heap_size as nat,
            stack_size: self.stack_size as nat,
        }
    }
}

impl Memory {
    #[verifier::type_invariant]
    spec fn layout_fits(&self) -> bool {
        &&& self.heap_start + self.heap_size <= usize::MAX
        &&& self.stack_size < MEM_CAPACITY
    }

    /// Loads a binary image into a fresh arena.
    pub fn new(image: &[u8]) -> (memory: Self)
        ensures
            memory@ == loaded(image@),
    {
        let mut bytes = [0u8; MEM_CAPACITY];
        let count = if image.len() < MEM_CAPACITY {
            image.len()
        } else {
            MEM_CAPACITY
        };
        let mut i: usize = 0;
        while i < count
            invariant
                i <= count <= MEM_CAPACITY,
                count <= image@.len(),
                forall|j: int| 0 <= j < i ==> bytes@[j] == image@[j],
                forall|j: int| i <= j < MEM_CAPACITY ==> bytes@[j] == 0,
            decreases count - i,
        {
            bytes[i] = image[i];
            i += 1;
        }
        let header = [bytes[0], bytes[1], bytes[2], bytes[3]];
        let init_pc = as_i32_le(&header);
        proof {
            assert(header@ =~= Seq::new(4, |i: int| image_byte(image@, i)));
            assert(bytes@ =~= loaded(image@).bytes);
        }
        Self {
            bytes,
            code_seg_start: to_address(init_pc),
            heap_start: image.len(),
            heap_size: 0,
            stack_size: 0,
        }
    }

    /// Number of bytes in the arena.
    pub fn capacity() -> (bytes: usize)
        ensures
            bytes == MEM_CAPACITY,
    {
        MEM_CAPACITY
    }

    /// The arena always holds `MEM_CAPACITY` bytes.
    pub proof fn lemma_arena_size(&self)
        ensures
            self@.bytes.len() == MEM_CAPACITY,
    {
    }

    /// The first address after the data segment: the start of the code
    /// segment, or the end of the arena if that comes first.
    pub fn data_end(&self) -> (end: usize)
        ensures
            end == if self@.code_seg_start < self@.bytes.len() {
                self@.code_seg_start
            } else {
                self@.bytes.len()
            },
    {
        if self.code_seg_start < MEM_CAPACITY {
            self.code_seg_start
        } else {
            MEM_CAPACITY
        }
    }

    /// Whether an address lies in the data segment: after the header and
    /// before the code segment.
    pub fn in_data_seg(&self, idx: usize) -> (inside: bool)
        ensures
            inside == self@.in_data_seg(idx as int),
    {
        idx >= HEADER_SIZE && idx < self.code_seg_start
    }

    /// Whether an address lies in the code segment.
    pub fn in_code_seg(&self, idx: usize) -> (inside: bool)
        ensures
            inside == self@.in_code_seg(idx as int),
    {
        idx >= self.code_seg_start && idx < self.heap_start
    }

    /// Whether an address lies between the heap and the stack.
    pub fn in_free_memory(&self, idx: usize) -> (inside: bool)
        ensures
            inside == self@.in_free_memory(idx as int),
    {
        idx >= self.next_heap_idx() && idx <= self.next_stack_idx()
    }

    /// Whether an address lies in the heap.
    pub fn in_heap(&self, idx: usize) -> (inside: bool)
        ensures
            inside == self@.in_heap(idx as int),
    {
        idx >= self.heap_start && idx < self.next_heap_idx()
    }

    /// Whether an address lies in the stack.
    pub fn in_stack(&self, idx: usize) -> (inside: bool)
        ensures
            inside == self@.in_stack(idx as int),
    {
        idx > self.next_stack_idx() && idx < MEM_CAPACITY
    }

    /// Whether an address lies in the arena.
    pub fn in_bounds(&self, idx: usize) -> (inside: bool)
        ensures
            inside == self@.in_bounds(idx as int),
    {
        idx < MEM_CAPACITY
    }

    /// First address after the heap.
    pub fn next_heap_idx(&self) -> (idx: usize)
        ensures
            idx == self@.next_heap_idx(),
    {
        proof {
            use_type_invariant(self);
        }
        self.heap_start + self.heap_size
    }

    /// Address that the next byte pushed on the stack will take.
    pub fn next_stack_idx(&self) -> (idx: usize)
        ensures
            idx == self@.next_stack_idx(),
    {
        proof {
            use_type_invariant(self);
        }
        MEM_CAPACITY - 1 - self.stack_size
    }

    /// Whether some byte of the `len` bytes from `idx` lies in the code
    /// segment.
    fn overlaps_code_seg(&self, idx: usize, len: usize) -> (overlaps: bool)
        requires
            0 < len <= 4,
        ensures
            overlaps == self@.overlaps_code_seg(idx as int, len as int),
    {
        let first = if idx < self.code_seg_start {
            self.code_seg_start
        } else {
            idx
        };
        let overlaps = first < self.heap_start && first - idx < len;
        proof {
            if overlaps {
                assert(self@.in_code_seg(first as int));
            }
        }
        overlaps
    }

    fn get_u8(&self, idx: usize) -> (byte: u8)
        requires
            idx < MEM_CAPACITY,
        ensures
            byte == self@.bytes[idx as int],
    {
        self.bytes[idx]
    }

    fn get_i32(&self, idx: usize) -> (word: i32)
        requires
            idx + 3 < MEM_CAPACITY,
        ensures
            word == self@.word_at(idx as int),
    {
        let bytes = [self.bytes[idx], self.bytes[idx + 1], self.bytes[idx + 2], self.bytes[idx + 3]];
        assert(bytes@ =~= self@.bytes.subrange(idx as int, idx + 4));
        as_i32_le(&bytes)
    }

    /// Stores a word, least significant byte first. Fails, leaving the memory
    /// as it was, if any of the four bytes would fall into the code segment
    /// or outside the arena.
    pub fn set_i32(&mut self, idx: usize, word: i32) -> (stored: Result<(), MemoryErr>)
        ensures
            match old(self)@.write_i32(idx as int, word) {
                Ok(after) => stored is Ok && final(self)@ == after,
                Err(e) => stored == Err::<(), MemoryErr>(e) && final(self)@ == old(self)@,
            },
    {
        proof {
            use_type_invariant(&*self);
        }
        if self.overlaps_code_seg(idx, 4) {
            return Err(MemoryErr::SetInsideCodeSegBounds(idx));
        }
        if idx >= MEM_CAPACITY || MEM_CAPACITY - idx <= 3 {
            return Err(MemoryErr::OutOfMemoryBounds(idx));
        }
        let bytes = i32_bytes_le(word);
        self.bytes[idx] = bytes[0];
        self.bytes[idx + 1] = bytes[1];
        self.bytes[idx + 2] = bytes[2];
        self.bytes[idx + 3] = bytes[3];
        Ok(())
    }

    /// Stores a byte. Fails, leaving the memory as it was, if the address
    /// lies in the code segment or outside the arena.
    pub fn set_u8(&mut self, idx: usize, byte: u8) -> (stored: Result<(), MemoryErr>)
        ensures
            match old(self)@.write_u8(idx as int, byte) {
                Ok(after) => stored is Ok && final(self)@ == after,
                Err(e) => stored == Err::<(), MemoryErr>(e) && final(self)@ == old(self)@,
            },
    {
        proof {
            use_type_invariant(&*self);
        }
        if self.in_code_seg(idx) {
            return Err(MemoryErr::SetInsideCodeSegBounds(idx));
        }
        if idx >= MEM_CAPACITY {
            return Err(MemoryErr::OutOfMemoryBounds(idx));
        }
        self.bytes[idx] = byte;
        Ok(())
    }

    /// Reads a word anywhere in the arena.
    pub fn get_any_i32(&self, idx: usize) -> (word: Result<i32, MemoryErr>)
        ensures
            word == self@.read_any_i32(idx as int),
    {
        if idx >= MEM_CAPACITY || MEM_CAPACITY - idx <= 3 {
            return Err(MemoryErr::OutOfMemoryBounds(idx));
        }
        Ok(self.get_i32(idx))
    }

    /// Reads a byte anywhere in the arena.
    pub fn get_any_u8(&self, idx: usize) -> (byte: Result<u8, MemoryErr>)
        ensures
            byte == self@.read_any_u8(idx as int),
    {
        if !self.in_bounds(idx) {
            return Err(MemoryErr::OutOfMemoryBounds(idx));
        }
        Ok(self.get_u8(idx))
    }

    /// Reads a byte of the data segment.
    pub fn get_data_seg_u8(&self, idx: usize) -> (byte: Result<u8, MemoryErr>)
        ensures
            byte == self@.read_data_seg_u8(idx as int),
    {
        if !self.in_data_seg(idx) || !self.in_bounds(idx) {
            return Err(MemoryErr::OutOfDataSegBounds(idx));
        }
        Ok(self.get_u8(idx))
    }

    /// Reads a word of the data segment.
    pub fn get_data_seg_i32(&self, idx: usize) -> (word: Result<i32, MemoryErr>)
        ensures
            word == self@.read_data_seg_i32(idx as int),
    {
        if idx >= MEM_CAPACITY || MEM_CAPACITY - idx <= 3 {
            return Err(MemoryErr::OutOfDataSegBounds(idx));
        }
        if !self.in_data_seg(idx) || !self.in_data_seg(idx + 3) {
            return Err(MemoryErr::OutOfDataSegBounds(idx));
        }
        Ok(self.get_i32(idx))
    }

    /// Reads a word that lies in the code segment.
    pub fn get_code_seg_i32(&self, idx: usize) -> (word: Result<i32, MemoryErr>)
        ensures
            word == self@.read_code_seg_i32(idx as int),
    {
        if idx >= MEM_CAPACITY || MEM_CAPACITY - idx <= 3 {
            return Err(MemoryErr::OutOfCodeSegBounds(idx));
        }
        if !self.in_code_seg(idx) || !self.in_code_seg(idx + 3) {
            return Err(MemoryErr::OutOfCodeSegBounds(idx));
        }
        Ok(self.get_i32(idx))
    }
}

impl Default for Memory {
    /// A memory with nothing loaded: an arena of zeros with an empty data
    /// segment and an empty code segment at address 4.
    fn default() -> (memory: Self)
        ensures
            memory@ == (MemoryView {
                bytes: Seq::new(MEM_CAPACITY as nat, |i: int| 0u8),
                code_seg_start: 4,
                heap_start: 4,
                heap_size: 0,
                stack_size: 0,
            }),
    {
        let bytes = [0u8; MEM_CAPACITY];
        assert(bytes@ =~= Seq::new(MEM_CAPACITY as nat, |i: int| 0u8));
        Self {
            bytes,
            code_seg_start: 4,
            heap_start: 4,
            stack_size: 0,
            heap_size: 0,
        }
    }
}

} // verus!
