use vstd::prelude::*;

verus! {

/// Size in bytes of one block of the device.
pub const BLOCK_SZ: usize = 512;

/// Block device trait.
///
/// Implemented by the users of the file system (a virtio disk, a RAM disk).
/// The two spec functions let contracts name what passed through the device.
/// By default they hold of every call; an implementation may define them
/// more narrowly. Their bodies are closed, so code outside this file learns
/// them only from the `ensures` of `read_block` and `write_block`: proving one
/// of them shows that the call was made with those bytes.
pub trait BlockDevice: Send + Sync {
    /// `read_block(block_id, buf)` may turn the contents `before` of `buf`
    /// into `after`.
    closed spec fn read_gives(&self, block_id: usize, before: Seq<u8>, after: Seq<u8>) -> bool {
        true
    }

    /// `write_block(block_id, buf)` was called with `buf` holding `bytes`.
    closed spec fn was_written(&self, block_id: usize, bytes: Seq<u8>) -> bool {
        true
    }

    /// Read a block into `buf`.
    fn read_block(&self, block_id: usize, buf: &mut [u8])
        ensures
            final(buf)@.len() == old(buf)@.len(),
            self.read_gives(block_id, old(buf)@, final(buf)@),
    ;

    /// Write a block from `buf`.
    fn write_block(&self, block_id: usize, buf: &[u8])
        ensures
            self.was_written(block_id, buf@),
    ;
}

} // verus!
