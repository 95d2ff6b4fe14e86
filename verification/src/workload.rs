use vstd::prelude::*;

verus! {

/// Bytes a single frame may add around its payload: a two-byte base
/// header, an eight-byte extended length and a four-byte mask key.
pub const FRAME_OVERHEAD: usize = 14;

/// The number of bytes a stream is sized for when `iter` messages of
/// `msg_len` bytes are sent, each with its worst-case frame header.
pub open spec fn spec_capacity(msg_len: int, iter: int) -> int {
    (msg_len + FRAME_OVERHEAD) * iter
}

/// The payload used for the larger workloads: `size` copies of `'x'`.
pub open spec fn spec_payload(size: nat) -> Seq<char> {
    Seq::new(size, |_i: int| 'x')
}

/// The payload of `size` holds exactly `size` characters, every one `'x'`.
pub proof fn law_payload_is_size_x(size: nat)
    ensures
        spec_payload(size).len() == size,
        forall|i: int| 0 <= i < size ==> #[trigger] spec_payload(size)[i] == 'x',
{
}

/// Buffer capacity for a run that sends `iter` messages of `msg_len` bytes.
pub fn capacity(msg_len: usize, iter: usize) -> (cap: usize)
    requires
        msg_len + FRAME_OVERHEAD <= usize::MAX,
        spec_capacity(msg_len as int, iter as int) <= usize::MAX,
    ensures
        cap == spec_capacity(msg_len as int, iter as int),
{
    (msg_len + FRAME_OVERHEAD) * iter
}

/// A text payload of `size` bytes, every one of them `'x'`.
pub fn make_payload(size: usize) -> (s: String)
    ensures
        s@ == spec_payload(size as nat),
        s@.len() == size,
        forall|i: int| 0 <= i < size ==> s@[i] == 'x',
{
    let mut s = String::new();
    let mut i: usize = 0;
    while i < size
        invariant
            i <= size,
            s@ == spec_payload(i as nat),
        decreases size - i,
    {
        proof {
            reveal_strlit("x");
        }
        s.append("x");
        i = i + 1;
        assert(s@ =~= spec_payload(i as nat));
    }
    s
}

} // verus!
