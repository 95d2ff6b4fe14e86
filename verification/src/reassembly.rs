use vstd::prelude::*;

verus! {

/// The type of a data message.
#[derive(Clone, Copy, Debug, PartialEq, Eq, Structural)]
pub enum MessageType {
    Text,
    Binary,
}

/// What an echo server that sees message fragments receives.
pub enum WsEvent {
    /// A piece of a fragmented message; `end` holds the message's type on
    /// its last piece.
    Fragment { data: Vec<u8>, end: Option<MessageType> },
    /// A whole message in one frame.
    Complete { data: Vec<u8>, ty: MessageType },
    Ping(Vec<u8>),
    Pong,
    Close,
    Error,
}

/// What the echo server does in answer.
pub enum WsAction {
    Nothing,
    /// Send a whole message of type `ty`.
    Send { ty: MessageType, data: Vec<u8> },
    /// Send a ping carrying these bytes.
    Ping(Vec<u8>),
    /// Close the connection; the echo phase is over.
    CloseAndStop,
}

pub ghost enum WsEventView {
    Fragment { data: Seq<u8>, end: Option<MessageType> },
    Complete { data: Seq<u8>, ty: MessageType },
    Ping(Seq<u8>),
    Pong,
    Close,
    Error,
}

pub ghost enum WsActionView {
    Nothing,
    Send { ty: MessageType, data: Seq<u8> },
    Ping(Seq<u8>),
    CloseAndStop,
}

impl View for WsEvent {
    type V = WsEventView;

    open spec fn view(&self) -> WsEventView {
        match self {
            WsEvent::Fragment { data, end } => WsEventView::Fragment { data: data@, end: *end },
            WsEvent::Complete { data, ty } => WsEventView::Complete { data: data@, ty: *ty },
            WsEvent::Ping(data) => WsEventView::Ping(data@),
            WsEvent::Pong => WsEventView::Pong,
            WsEvent::Close => WsEventView::Close,
            WsEvent::Error => WsEventView::Error,
        }
    }
}

impl View for WsAction {
    type V = WsActionView;

    open spec fn view(&self) -> WsActionView {
        match self {
            WsAction::Nothing => WsActionView::Nothing,
            WsAction::Send { ty, data } => WsActionView::Send { ty: *ty, data: data@ },
            WsAction::Ping(data) => WsActionView::Ping(data@),
            WsAction::CloseAndStop => WsActionView::CloseAndStop,
        }
    }
}

/// One step of the echo server: from the bytes pending of a fragmented
/// message and an event, the new pending bytes and the answer.
/// Fragments are collected; the last one sends the collected message and
/// empties the collection. Whole messages are sent back at once and leave
/// the collection alone. A ping is answered with a ping of the same
/// bytes; a close or an error closes the connection.
pub open spec fn spec_step(pending: Seq<u8>, ev: WsEventView) -> (Seq<u8>, WsActionView) {
    match ev {
        WsEventView::Fragment { data, end } => match end {
            None => (pending + data, WsActionView::Nothing),
            Some(ty) => (Seq::empty(), WsActionView::Send { ty, data: pending + data }),
        },
        WsEventView::Complete { data, ty } => (pending, WsActionView::Send { ty, data }),
        WsEventView::Ping(data) => (pending, WsActionView::Ping(data)),
        WsEventView::Pong => (pending, WsActionView::Nothing),
        WsEventView::Close | WsEventView::Error => (pending, WsActionView::CloseAndStop),
    }
}

/// The pending bytes and answers after a sequence of events.
pub open spec fn spec_run(pending: Seq<u8>, evs: Seq<WsEventView>) -> (Seq<u8>, Seq<WsActionView>)
    decreases evs.len(),
{
    if evs.len() == 0 {
        (pending, Seq::empty())
    } else {
        let (p1, a1) = spec_step(pending, evs[0]);
        let (p2, rest) = spec_run(p1, evs.drop_first());
        (p2, seq![a1] + rest)
    }
}

/// All the parts, one after the other.
pub open spec fn concat_parts(parts: Seq<Seq<u8>>) -> Seq<u8>
    decreases parts.len(),
{
    if parts.len() == 0 {
        Seq::empty()
    } else {
        parts[0] + concat_parts(parts.drop_first())
    }
}

/// The events of a message sent in pieces: every part but the last as an
/// unfinished fragment, then the last part, which ends the message.
pub open spec fn fragmented(parts: Seq<Seq<u8>>, last: Seq<u8>, ty: MessageType) -> Seq<WsEventView> {
    Seq::new(parts.len(), |i: int| WsEventView::Fragment { data: parts[i], end: None }).push(
        WsEventView::Fragment { data: last, end: Some(ty) },
    )
}

/// A fragmented message is sent back whole, once, after its last piece:
/// its bytes are whatever was pending, then every piece in order.
pub proof fn law_fragments_reassemble(
    pending: Seq<u8>,
    parts: Seq<Seq<u8>>,
    last: Seq<u8>,
    ty: MessageType,
)
    ensures
        spec_run(pending, fragmented(parts, last, ty)) == (
            Seq::<u8>::empty(),
            Seq::new(parts.len(), |_i: int| WsActionView::Nothing).push(
                WsActionView::Send { ty, data: pending + concat_parts(parts) + last },
            ),
        ),
    decreases parts.len(),
{
    let evs = fragmented(parts, last, ty);
    if parts.len() == 0 {
        assert(evs.drop_first() =~= Seq::<WsEventView>::empty());
        assert(evs[0] == WsEventView::Fragment { data: last, end: Some(ty) });
        assert(spec_run(Seq::<u8>::empty(), evs.drop_first()) == (
            Seq::<u8>::empty(),
            Seq::<WsActionView>::empty(),
        ));
        assert(concat_parts(parts) =~= Seq::<u8>::empty());
        assert(pending + concat_parts(parts) + last =~= pending + last);
        assert(spec_run(pending, evs).1 =~= Seq::new(parts.len(), |_i: int| WsActionView::Nothing).push(
            WsActionView::Send { ty, data: pending + concat_parts(parts) + last },
        ));
    } else {
        let rest = parts.drop_first();
        let p1 = pending + parts[0];
        law_fragments_reassemble(p1, rest, last, ty);
        assert(evs.drop_first() =~= fragmented(rest, last, ty));
        assert(evs[0] == WsEventView::Fragment { data: parts[0], end: None });
        assert(p1 + concat_parts(rest) + last =~= pending + concat_parts(parts) + last);
        assert(spec_run(pending, evs).1 =~= Seq::new(parts.len(), |_i: int| WsActionView::Nothing).push(
            WsActionView::Send { ty, data: pending + concat_parts(parts) + last },
        ));
    }
}

/// A ping is answered with a ping of the same bytes and leaves whatever was
/// collected of a fragmented message untouched.
pub proof fn law_ping_keeps_pending(pending: Seq<u8>, data: Seq<u8>)
    ensures
        spec_step(pending, WsEventView::Ping(data)).0 == pending,
        spec_step(pending, WsEventView::Ping(data)).1 == WsActionView::Ping(data),
{
}

/// A pong is ignored and leaves whatever was collected untouched.
pub proof fn law_pong_keeps_pending(pending: Seq<u8>)
    ensures
        spec_step(pending, WsEventView::Pong) == (pending, WsActionView::Nothing),
{
}

/// A ping arriving before any events changes nothing of what those events
/// lead to: it only adds its own ping answer in front. So a ping before or
/// between the pieces of a fragmented message leaves the message sent back
/// as it would be without the ping.
pub proof fn law_ping_does_not_disturb(pending: Seq<u8>, data: Seq<u8>, evs: Seq<WsEventView>)
    ensures
        spec_run(pending, seq![WsEventView::Ping(data)] + evs).0 == spec_run(pending, evs).0,
        spec_run(pending, seq![WsEventView::Ping(data)] + evs).1 == seq![WsActionView::Ping(data)]
            + spec_run(pending, evs).1,
{
    let all = seq![WsEventView::Ping(data)] + evs;
    assert(all[0] == WsEventView::Ping(data));
    assert(all.drop_first() =~= evs);
}

/// A fragmented message with a ping between its first pieces and the rest
/// is sent back exactly as without the ping: the bytes pending, then every
/// piece in order; the ping is answered with its own bytes.
pub proof fn law_ping_inside_fragmented_message(
    pending: Seq<u8>,
    parts: Seq<Seq<u8>>,
    data: Seq<u8>,
    last: Seq<u8>,
    ty: MessageType,
)
    requires
        parts.len() > 0,
    ensures
        ({
            let evs = seq![WsEventView::Fragment { data: parts[0], end: None }, WsEventView::Ping(data)]
                + fragmented(parts.drop_first(), last, ty);
            spec_run(pending, evs).1.last() == WsActionView::Send {
                ty,
                data: pending + concat_parts(parts) + last,
            } && spec_run(pending, evs).1[1] == WsActionView::Ping(data)
        }),
{
    let rest = parts.drop_first();
    let tail = fragmented(rest, last, ty);
    let evs = seq![WsEventView::Fragment { data: parts[0], end: None }, WsEventView::Ping(data)] + tail;
    let p1 = pending + parts[0];
    assert(evs[0] == WsEventView::Fragment { data: parts[0], end: None });
    assert(evs.drop_first() =~= seq![WsEventView::Ping(data)] + tail);
    law_ping_does_not_disturb(p1, data, tail);
    law_fragments_reassemble(p1, rest, last, ty);
    assert(p1 + concat_parts(rest) + last =~= pending + concat_parts(parts) + last);
    let r1 = spec_run(p1, seq![WsEventView::Ping(data)] + tail).1;
    assert(spec_run(pending, evs).1 == seq![WsActionView::Nothing] + r1);
    assert(r1 == seq![WsActionView::Ping(data)] + spec_run(p1, tail).1);
}

/// A whole message arriving between the pieces of a fragmented one is sent
/// back as it is and does not disturb the pieces collected so far.
pub proof fn law_complete_keeps_pending(pending: Seq<u8>, data: Seq<u8>, ty: MessageType)
    ensures
        spec_step(pending, WsEventView::Complete { data, ty }) == (
            pending,
            WsActionView::Send { ty, data },
        ),
{
}

/// Collects the pieces of fragmented messages for an echo server.
pub struct Reassembler {
    buf: Vec<u8>,
}

impl View for Reassembler {
    type V = Seq<u8>;

    /// The bytes of the fragmented message collected so far.
    closed spec fn view(&self) -> Seq<u8> {
        self.buf@
    }
}

impl Reassembler {
    /// Nothing collected yet.
    pub fn new() -> (r: Reassembler)
        ensures
            r@ == Seq::<u8>::empty(),
    {
        Reassembler { buf: Vec::new() }
    }

    /// The answer to one event.
    pub fn on_event(&mut self, ev: WsEvent) -> (action: WsAction)
        ensures
            (final(self)@, action@) == spec_step(old(self)@, ev@),
    {
        match ev {
            WsEvent::Fragment { data, end } => {
                self.buf.extend_from_slice(data.as_slice());
                assert(self.buf@ =~= old(self)@ + data@);
                match end {
                    None => WsAction::Nothing,
                    Some(ty) => {
                        let mut message: Vec<u8> = Vec::new();
                        std::mem::swap(&mut message, &mut self.buf);
                        WsAction::Send { ty, data: message }
                    },
                }
            },
            WsEvent::Complete { data, ty } => WsAction::Send { ty, data },
            WsEvent::Ping(data) => WsAction::Ping(data),
            WsEvent::Pong => WsAction::Nothing,
            WsEvent::Close | WsEvent::Error => WsAction::CloseAndStop,
        }
    }
}

} // verus!
