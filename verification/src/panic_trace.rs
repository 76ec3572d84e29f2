use vstd::prelude::*;

verus! {

/// One call in the chain of `slip` and `slap` calls, with its argument.
#[derive(Clone, Copy, Debug, PartialEq, Eq, Structural)]
pub enum Frame {
    Slip(i16),
    Slap(i16),
}

/// The argument of a frame.
pub open spec fn frame_arg(f: Frame) -> int {
    match f {
        Frame::Slip(n) => n as int,
        Frame::Slap(n) => n as int,
    }
}

/// The frame `n / 2` goes on to: `slip` when its bit 0 (bit 1 of `n`) is set.
pub open spec fn next_frames(n: int) -> Seq<Frame>
    recommends
        n > 0,
    decreases n, 0int,
{
    if n <= 0 {
        seq![]
    } else if (n / 2) % 2 == 1 {
        slip_frames(n / 2)
    } else {
        slap_frames(n / 2)
    }
}

/// The calls made from `slip(n)` on, down to the call with 0 that panics.
pub open spec fn slip_frames(n: int) -> Seq<Frame>
    decreases n, 1int,
{
    if n < 0 || n > i16::MAX {
        seq![]
    } else {
        seq![Frame::Slip(n as i16)] + next_frames(n)
    }
}

/// The calls made from `slap(n)` on, down to the call with 0 that panics.
pub open spec fn slap_frames(n: int) -> Seq<Frame>
    decreases n, 1int,
{
    if n < 0 || n > i16::MAX {
        seq![]
    } else {
        seq![Frame::Slap(n as i16)] + next_frames(n)
    }
}

/// The chain from `n` halves its argument at each call and ends with the
/// one call that receives 0, where the program panics.
pub open spec fn halving_chain(t: Seq<Frame>, n: int) -> bool {
    &&& t.len() > 0
    &&& frame_arg(t[0]) == n
    &&& frame_arg(t.last()) == 0
    &&& forall|i: int| 0 <= i < t.len() - 1 ==> frame_arg(#[trigger] t[i]) > 0
        && frame_arg(t[i + 1]) == frame_arg(t[i]) / 2
}

/// Every call of `slip` or `slap` with a non-negative argument reaches the
/// panic: each call halves the argument, and the last call receives 0.
pub proof fn lemma_chain_reaches_panic(n: int)
    requires
        0 <= n <= i16::MAX,
    ensures
        halving_chain(slip_frames(n), n),
        halving_chain(slap_frames(n), n),
    decreases n,
{
    if n > 0 {
        lemma_chain_reaches_panic(n / 2);
        let rest = next_frames(n);
        assert(halving_chain(rest, n / 2));
        let t1 = slip_frames(n);
        let t2 = slap_frames(n);
        assert(t1 =~= seq![Frame::Slip(n as i16)] + rest);
        assert(t2 =~= seq![Frame::Slap(n as i16)] + rest);
        assert forall|i: int| 0 <= i < t1.len() - 1 implies frame_arg(#[trigger] t1[i]) > 0
            && frame_arg(t1[i + 1]) == frame_arg(t1[i]) / 2 by {
            if i > 0 {
                assert(t1[i] == rest[i - 1]);
            }
        }
        assert forall|i: int| 0 <= i < t2.len() - 1 implies frame_arg(#[trigger] t2[i]) > 0
            && frame_arg(t2[i + 1]) == frame_arg(t2[i]) / 2 by {
            if i > 0 {
                assert(t2[i] == rest[i - 1]);
            }
        }
    }
}

/// `slip` and `slap` differ only in their own frame: for the same argument
/// they make the same nested call and end in the same chain.
pub proof fn lemma_slip_slap_same_chain(n: int)
    requires
        0 <= n <= i16::MAX,
    ensures
        slip_frames(n).drop_first() == next_frames(n),
        slap_frames(n).drop_first() == next_frames(n),
        slip_frames(n)[0] == Frame::Slip(n as i16),
        slap_frames(n)[0] == Frame::Slap(n as i16),
{
    assert(slip_frames(n).drop_first() =~= next_frames(n));
    assert(slap_frames(n).drop_first() =~= next_frames(n));
}

proof fn lemma_shift(n: i16)
    requires
        n > 0,
    ensures
        (n >> 1) as int == n / 2,
        ((n >> 1) & 1 == 1) == ((n / 2) % 2 == 1),
{
    assert((n >> 1) == n / 2) by (bit_vector)
        requires
            n > 0,
    ;
    assert(((n >> 1) & 1 == 1) == ((n / 2) % 2 == 1)) by (bit_vector)
        requires
            n > 0,
    ;
}

/// How a call of `slip` or `slap` ends: the chain of calls it made, the
/// last of which panics, and the panic message.
pub struct Unwind {
    pub frames: Vec<Frame>,
    pub message: &'static str,
}

/// `slip(n)`: panics with "ahh" when `n` is 0, otherwise calls `slip` on
/// `n >> 1` when bit 1 of `n` is set and `slap` on it when not. Returns the
/// chain of calls down to the one that panics, and the message.
pub fn slip(n: i16) -> (r: Unwind)
    requires
        n >= 0,
    ensures
        r.frames@ == slip_frames(n as int),
        r.message@ == "ahh"@,
    decreases n, 1int,
{
    let mut frames: Vec<Frame> = vec![Frame::Slip(n)];
    if n == 0 {
        assert(frames@ =~= slip_frames(0));
        return Unwind { frames, message: "ahh" };
    }
    proof {
        lemma_shift(n);
    }
    let mut inner = if n >> 1 & 1 == 1 {
        slip(n >> 1)
    } else {
        slap(n >> 1)
    };
    frames.append(&mut inner.frames);
    assert(frames@ =~= slip_frames(n as int));
    Unwind { frames, message: inner.message }
}

/// `slap(n)`: the same as `slip`, recorded as `slap`.
pub fn slap(n: i16) -> (r: Unwind)
    requires
        n >= 0,
    ensures
        r.frames@ == slap_frames(n as int),
        r.message@ == "ahh"@,
    decreases n, 1int,
{
    let mut frames: Vec<Frame> = vec![Frame::Slap(n)];
    if n == 0 {
        assert(frames@ =~= slap_frames(0));
        return Unwind { frames, message: "ahh" };
    }
    proof {
        lemma_shift(n);
    }
    let mut inner = if n >> 1 & 1 == 1 {
        slip(n >> 1)
    } else {
        slap(n >> 1)
    };
    frames.append(&mut inner.frames);
    assert(frames@ =~= slap_frames(n as int));
    Unwind { frames, message: inner.message }
}

} // verus!
