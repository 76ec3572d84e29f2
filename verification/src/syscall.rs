use vstd::prelude::*;
use vstd::string::StringExecFns;
use vstd::utf8::{decode_utf8, valid_utf8};

verus! {

/// The file descriptor of standard output.
pub const FD_STDOUT: usize = 1;

/// Calls `core::str::from_utf8`: the text that `bytes` encode when they are
/// valid UTF-8, `None` otherwise.
#[verifier::external_body]
fn str_from_utf8(bytes: &[u8]) -> (r: Option<&str>)
    ensures
        r is None <==> !valid_utf8(bytes@),
        r matches Some(s) ==> s@ == decode_utf8(bytes@),
{
    core::str::from_utf8(bytes).ok()
}

/// The bytes of `buffers`, one buffer after the other.
pub open spec fn joined(buffers: Seq<Seq<u8>>) -> Seq<u8>
    decreases buffers.len(),
{
    if buffers.len() == 0 {
        Seq::empty()
    } else {
        joined(buffers.drop_last()) + buffers.last()
    }
}

/// The bytes of a write are all the bytes of its buffers, in order: joining
/// the buffers is flattening them, so buffer `k` follows buffers `0..k`
/// whole and the length is the sum of the buffer lengths.
pub proof fn lemma_joined_is_flatten(buffers: Seq<Seq<u8>>)
    ensures
        joined(buffers) == buffers.flatten(),
        buffers.len() > 0 ==> joined(buffers) == buffers[0] + joined(buffers.drop_first()),
        joined(buffers).len() == buffers.fold_left(0int, |n: int, b: Seq<u8>| n + b.len()),
    decreases buffers.len(),
{
    if buffers.len() == 0 {
        assert(buffers.flatten() =~= Seq::<u8>::empty());
    } else {
        lemma_joined_is_flatten(buffers.drop_last());
        buffers.drop_last().lemma_flatten_push(buffers.last());
        assert(buffers.drop_last().push(buffers.last()) =~= buffers);
        assert(joined(buffers) == buffers.flatten());
        buffers.lemma_flatten_and_flatten_alt_are_equivalent();
        assert(buffers.flatten() == buffers[0] + buffers.drop_first().flatten());
        lemma_joined_is_flatten(buffers.drop_first());
    }
}

/// The views of the buffers of a write.
pub open spec fn buffer_views(buffers: Seq<Vec<u8>>) -> Seq<Seq<u8>> {
    buffers.map_values(|b: Vec<u8>| b@)
}

/// What the kernel does about a `write` system call.
pub enum WriteAction {
    /// Print `text` and return `ret`, the length written.
    Print { text: String, ret: isize },
    /// The bytes are not valid UTF-8: the kernel stops.
    InvalidUtf8,
    /// Unsupported file descriptor: print `message`, end the program and
    /// return `ret` (-1).
    Reject { message: &'static str, ret: isize },
}

/// The bytes of `buffers`, one buffer after the other.
pub fn join_buffers(buffers: &Vec<Vec<u8>>) -> (r: Vec<u8>)
    ensures
        r@ == joined(buffer_views(buffers@)),
{
    let mut bytes: Vec<u8> = Vec::new();
    let mut i: usize = 0;
    while i < buffers.len()
        invariant
            i <= buffers@.len(),
            bytes@ == joined(buffer_views(buffers@).take(i as int)),
        decreases buffers@.len() - i,
    {
        let buffer = &buffers[i];
        let ghost start = bytes@;
        let mut j: usize = 0;
        while j < buffer.len()
            invariant
                j <= buffer@.len(),
                bytes@ == start + buffer@.take(j as int),
            decreases buffer@.len() - j,
        {
            bytes.push(buffer[j]);
            assert(buffer@.take(j + 1) =~= buffer@.take(j as int).push(buffer@[j as int]));
            j = j + 1;
        }
        assert(buffer@.take(j as int) =~= buffer@);
        assert(buffer_views(buffers@).take(i + 1).drop_last() =~= buffer_views(buffers@).take(i as int));
        i = i + 1;
    }
    assert(buffer_views(buffers@).take(i as int) =~= buffer_views(buffers@));
    bytes
}

/// Decides a `write` of `len` bytes, held in `buffers` (the pages of the
/// user buffer, in order), to file descriptor `fd`: only standard output is
/// supported, and the bytes of all buffers together are decoded as UTF-8, so
/// a character may span two buffers.
pub fn sys_write(fd: usize, buffers: &Vec<Vec<u8>>, len: usize) -> (r: WriteAction)
    ensures
        fd != FD_STDOUT ==> (r matches WriteAction::Reject { message, ret } && message@
            == "[kernel] Unsupported fd in sys_write!"@ && ret == -1),
        fd == FD_STDOUT && valid_utf8(joined(buffer_views(buffers@))) ==> (r matches WriteAction::Print {
            text,
            ret,
        } && text@ == decode_utf8(joined(buffer_views(buffers@))) && ret == len as isize),
        fd == FD_STDOUT && !valid_utf8(joined(buffer_views(buffers@))) ==> r is InvalidUtf8,
{
    if fd != FD_STDOUT {
        return WriteAction::Reject { message: "[kernel] Unsupported fd in sys_write!", ret: -1 };
    }
    let bytes = join_buffers(buffers);
    match str_from_utf8(bytes.as_slice()) {
        Some(text) => WriteAction::Print { text: String::from_str(text), ret: len as isize },
        None => WriteAction::InvalidUtf8,
    }
}

} // verus!
