//! Packed block identifiers.
use vstd::prelude::*;

verus! {

/// The integer type a block identifier is packed into.
pub type BlockSize = u16;

/// Number of distinct block identifiers: every value of `BlockSize`.
pub const MAX_BLOCK_ID: usize = 65536;

/// Mask selecting the block type (upper twelve bits).
pub const BLOCK_TYPE_MASK: u16 = 0xFFF0;

/// Mask selecting the subtype (lower four bits).
pub const SUBTYPE_MASK: u16 = 0x000F;

/// A packed block identifier: the upper twelve bits name the block type,
/// the lower four bits its subtype. Identifier 0 is empty space (air).
#[derive(Copy, Clone, Debug, PartialEq, Eq, Structural, PartialOrd, Ord)]
pub struct Block(BlockSize);

/// Identifier of the empty (air) block.
pub const EMPTY_BLOCK_ID: BlockSize = 0;

impl View for Block {
    type V = u16;

    closed spec fn view(&self) -> u16 {
        self.0
    }
}

impl Block {
    /// Wraps a raw identifier without any check; every `u16` is a valid block.
    pub fn hard_create(block: u16) -> (r: Block)
        ensures
            r@ == block,
    {
        Block(block)
    }

    /// The empty (air) block.
    pub fn empty() -> (r: Block)
        ensures
            r@ == EMPTY_BLOCK_ID,
    {
        Block(EMPTY_BLOCK_ID)
    }

    /// The raw identifier.
    pub fn id(&self) -> (r: u16)
        ensures
            r == self@,
    {
        self.0
    }

    /// The block type: the identifier with its subtype bits cleared.
    pub fn blocktype(&self) -> (r: u16)
        ensures
            r == self@ & BLOCK_TYPE_MASK,
            r == self@ - self@ % 16,
    {
        let v = self.0;
        assert(v & 0xFFF0u16 == v - v % 16) by (bit_vector);
        v & BLOCK_TYPE_MASK
    }

    /// The subtype: the lower four bits of the identifier.
    pub fn subtype(&self) -> (r: u8)
        ensures
            r == self@ & SUBTYPE_MASK,
            r == self@ % 16,
    {
        let v = self.0;
        assert(v & 0x000Fu16 == v % 16) by (bit_vector);
        (v & SUBTYPE_MASK) as u8
    }
}

} // verus!
