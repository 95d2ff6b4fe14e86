use vstd::prelude::*;

verus! {

/// The kind of a WebSocket frame or message, as the libraries report it.
#[derive(Clone, Copy, Debug, PartialEq, Eq, Structural)]
pub enum FrameKind {
    Continuation,
    Text,
    Binary,
    Close,
    Ping,
    Pong,
}

/// A frame as the protocol sees it: its FIN bit, its kind and its payload.
pub ghost struct FrameSpec {
    pub fin: bool,
    pub kind: FrameKind,
    pub payload: Seq<u8>,
}

// ---------------------------------------------------------------------------
// Send phase: the client sends `iter` text messages, then a close frame.

/// What the client sends next, having sent `sent` frames so far.
#[derive(Clone, Copy, Debug, PartialEq, Eq, Structural)]
pub enum SendStep {
    /// Send the benchmark message again.
    Message,
    /// Every message is out: send the close frame.
    Close,
    /// The close frame is out: the send phase is over.
    Done,
}

pub open spec fn spec_send_step(sent: nat, iter: nat) -> SendStep {
    if sent < iter {
        SendStep::Message
    } else if sent == iter {
        SendStep::Close
    } else {
        SendStep::Done
    }
}

/// The next step of the send phase of a run of `iter` messages.
pub fn send_step(sent: usize, iter: usize) -> (step: SendStep)
    ensures
        step == spec_send_step(sent as nat, iter as nat),
        step == SendStep::Message <==> sent < iter,
        step == SendStep::Close <==> sent == iter,
        step == SendStep::Done <==> sent > iter,
{
    if sent < iter {
        SendStep::Message
    } else if sent == iter {
        SendStep::Close
    } else {
        SendStep::Done
    }
}

/// The frame the client sends for a step: the message as one final text
/// frame, or an empty close frame.
pub open spec fn spec_client_frame(step: SendStep, msg: Seq<u8>) -> FrameSpec {
    match step {
        SendStep::Message => FrameSpec { fin: true, kind: FrameKind::Text, payload: msg },
        _ => FrameSpec { fin: true, kind: FrameKind::Close, payload: Seq::empty() },
    }
}

/// Every frame the client sends in a run, in order: the frames of the
/// steps taken before the plan says `Done`.
pub open spec fn client_script(msg: Seq<u8>, iter: nat) -> Seq<FrameSpec> {
    Seq::new(iter + 1, |k: int| spec_client_frame(spec_send_step(k as nat, iter), msg))
}

// ---------------------------------------------------------------------------
// Echo phase: the server sends data messages back and stops at the close.

/// What the echo server does with a frame it received.
#[derive(Clone, Copy, Debug, PartialEq, Eq, Structural)]
pub enum EchoAction {
    /// Send the frame back unchanged.
    Echo,
    /// Drop the frame (control frames are answered by the library itself).
    Ignore,
    /// The peer is closing: the echo phase is over.
    Finish,
}

pub open spec fn spec_echo_action(kind: FrameKind) -> EchoAction {
    match kind {
        FrameKind::Text | FrameKind::Binary => EchoAction::Echo,
        FrameKind::Close => EchoAction::Finish,
        _ => EchoAction::Ignore,
    }
}

/// How the echo server treats a received frame of kind `kind`.
pub fn echo_action(kind: FrameKind) -> (action: EchoAction)
    ensures
        action == spec_echo_action(kind),
        action == EchoAction::Echo <==> (kind == FrameKind::Text || kind == FrameKind::Binary),
        action == EchoAction::Finish <==> kind == FrameKind::Close,
{
    match kind {
        FrameKind::Text | FrameKind::Binary => EchoAction::Echo,
        FrameKind::Close => EchoAction::Finish,
        _ => EchoAction::Ignore,
    }
}

/// The frames the echo server sends back for the frames it receives, up to
/// the first close frame.
pub open spec fn echo_transcript(frames: Seq<FrameSpec>) -> Seq<FrameSpec>
    decreases frames.len(),
{
    if frames.len() == 0 {
        Seq::empty()
    } else {
        match spec_echo_action(frames[0].kind) {
            EchoAction::Echo => seq![frames[0]] + echo_transcript(frames.drop_first()),
            EchoAction::Ignore => echo_transcript(frames.drop_first()),
            EchoAction::Finish => Seq::empty(),
        }
    }
}

// ---------------------------------------------------------------------------
// Receive phase: the client checks every echo, then the server's close.

/// Why a frame received by the client is not the one it expects.
#[derive(Clone, Copy, Debug, PartialEq, Eq, Structural)]
pub enum RecvError {
    /// A message frame without its FIN bit.
    NotFinal,
    /// A frame of another kind where a text message was expected.
    UnexpectedKind(FrameKind),
    /// A text message whose payload is not the message sent.
    PayloadMismatch,
    /// A frame of another kind where the closing frame was expected.
    MissingClose(FrameKind),
}

/// A received frame is the echo of the benchmark message `msg`.
pub open spec fn echo_ok(f: FrameSpec, msg: Seq<u8>) -> bool {
    &&& f.fin
    &&& f.kind == FrameKind::Text
    &&& f.payload == msg
}

/// The client's whole receive phase passes: `iter` echoes of `msg`, then a
/// close frame.
pub open spec fn recv_accepts(msg: Seq<u8>, iter: nat, received: Seq<FrameSpec>) -> bool {
    &&& received.len() == iter + 1
    &&& forall|i: int| 0 <= i < iter ==> echo_ok(#[trigger] received[i], msg)
    &&& received[iter as int].kind == FrameKind::Close
}

/// Whether two byte strings are equal.
pub fn bytes_equal(a: &[u8], b: &[u8]) -> (eq: bool)
    ensures
        eq == (a@ == b@),
{
    if a.len() != b.len() {
        return false;
    }
    let mut i: usize = 0;
    while i < a.len()
        invariant
            a@.len() == b@.len(),
            i <= a@.len(),
            forall|k: int| 0 <= k < i ==> a@[k] == b@[k],
        decreases a@.len() - i,
    {
        if a[i] != b[i] {
            return false;
        }
        i = i + 1;
    }
    assert(a@ =~= b@);
    true
}

/// Checks one frame of the receive phase against the message `expected`:
/// it must be final, be text, and carry exactly the message, checked in
/// that order.
pub fn check_message(fin: bool, kind: FrameKind, payload: &[u8], expected: &[u8]) -> (r: Result<
    (),
    RecvError,
>)
    ensures
        r is Ok <==> echo_ok(FrameSpec { fin, kind, payload: payload@ }, expected@),
        !fin ==> r == Err::<(), RecvError>(RecvError::NotFinal),
        fin && kind != FrameKind::Text ==> r == Err::<(), RecvError>(RecvError::UnexpectedKind(kind)),
        fin && kind == FrameKind::Text && payload@ != expected@ ==> r == Err::<(), RecvError>(
            RecvError::PayloadMismatch,
        ),
{
    if !fin {
        Err(RecvError::NotFinal)
    } else if kind != FrameKind::Text {
        Err(RecvError::UnexpectedKind(kind))
    } else if !bytes_equal(payload, expected) {
        Err(RecvError::PayloadMismatch)
    } else {
        Ok(())
    }
}

/// Checks the frame that ends the receive phase: it must be a close frame.
pub fn check_close(kind: FrameKind) -> (r: Result<(), RecvError>)
    ensures
        r is Ok <==> kind == FrameKind::Close,
        kind != FrameKind::Close ==> r == Err::<(), RecvError>(RecvError::MissingClose(kind)),
{
    if kind == FrameKind::Close {
        Ok(())
    } else {
        Err(RecvError::MissingClose(kind))
    }
}

// ---------------------------------------------------------------------------
// Laws of a run.

proof fn lemma_echo_of_messages(t: FrameSpec, n: nat, tail: Seq<FrameSpec>)
    requires
        t.kind == FrameKind::Text,
        tail.len() > 0,
        tail[0].kind == FrameKind::Close,
    ensures
        echo_transcript(Seq::new(n, |_k: int| t) + tail) == Seq::new(n, |_k: int| t),
    decreases n,
{
    let frames = Seq::new(n, |_k: int| t) + tail;
    if n == 0 {
        assert(frames[0] == tail[0]);
        assert(echo_transcript(frames) =~= Seq::new(n, |_k: int| t));
    } else {
        let m: nat = (n - 1) as nat;
        lemma_echo_of_messages(t, m, tail);
        assert(frames.drop_first() =~= Seq::new(m, |_k: int| t) + tail);
        assert(frames[0] == t);
        assert(echo_transcript(frames) =~= seq![t] + Seq::new(m, |_k: int| t));
        assert(seq![t] + Seq::new(m, |_k: int| t) =~= Seq::new(n, |_k: int| t));
    }
}

/// A run checks out: when the server echoes what the client's send plan
/// sends and then closes, the client's receive checks all pass.
pub proof fn law_round_trip(msg: Seq<u8>, iter: nat, closing: FrameSpec)
    requires
        closing.kind == FrameKind::Close,
    ensures
        recv_accepts(msg, iter, echo_transcript(client_script(msg, iter)).push(closing)),
{
    let t = FrameSpec { fin: true, kind: FrameKind::Text, payload: msg };
    let c = FrameSpec { fin: true, kind: FrameKind::Close, payload: Seq::empty() };
    assert(client_script(msg, iter) =~= Seq::new(iter, |_k: int| t) + seq![c]);
    lemma_echo_of_messages(t, iter, seq![c]);
    let received = echo_transcript(client_script(msg, iter)).push(closing);
    assert forall|i: int| 0 <= i < iter implies echo_ok(#[trigger] received[i], msg) by {
        assert(received[i] == t);
    }
}

/// The echo server only ever sends data messages, and never more frames
/// than it received.
pub proof fn law_echo_sends_only_data(frames: Seq<FrameSpec>)
    ensures
        echo_transcript(frames).len() <= frames.len(),
        forall|i: int|
            0 <= i < echo_transcript(frames).len() ==> (#[trigger] echo_transcript(frames)[i].kind
                == FrameKind::Text || echo_transcript(frames)[i].kind == FrameKind::Binary),
    decreases frames.len(),
{
    if frames.len() > 0 {
        law_echo_sends_only_data(frames.drop_first());
    }
}

/// Nothing the peer sends after its close frame is echoed.
pub proof fn law_echo_stops_at_close(before: Seq<FrameSpec>, closing: FrameSpec, after: Seq<FrameSpec>)
    requires
        closing.kind == FrameKind::Close,
        forall|i: int| 0 <= i < before.len() ==> (#[trigger] before[i]).kind != FrameKind::Close,
    ensures
        echo_transcript(before + seq![closing] + after) == echo_transcript(before),
    decreases before.len(),
{
    let all = before + seq![closing] + after;
    if before.len() == 0 {
        assert(all[0] == closing);
        assert(echo_transcript(all) =~= Seq::<FrameSpec>::empty());
    } else {
        let rest = before.drop_first();
        assert forall|i: int| 0 <= i < rest.len() implies (#[trigger] rest[i]).kind != FrameKind::Close by {
            assert(rest[i] == before[i + 1]);
        }
        law_echo_stops_at_close(rest, closing, after);
        assert(all.drop_first() =~= rest + seq![closing] + after);
        assert(all[0] == before[0]);
    }
}

} // verus!
