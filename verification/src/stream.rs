use vstd::prelude::*;

verus! {

/// Which end of the connection is currently using the stream.
#[derive(Clone, Copy, Debug, PartialEq, Eq, Structural)]
pub enum Role {
    Client,
    Server,
}

/// An in-memory loopback connection between a client and a server that
/// take turns on one thread: bytes written by one end are queued for the
/// other end, in order, and read back from that queue.
pub struct Stream {
    to_server: Vec<u8>,
    server_read: usize,
    to_client: Vec<u8>,
    client_read: usize,
    role: Role,
}

/// The abstract state of a [`Stream`]: both queues with what has already
/// been consumed from each.
pub ghost struct StreamView {
    pub role: Role,
    pub to_server: Seq<u8>,
    pub server_read: nat,
    pub to_client: Seq<u8>,
    pub client_read: nat,
}

impl StreamView {
    pub open spec fn wf(self) -> bool {
        &&& self.server_read <= self.to_server.len()
        &&& self.client_read <= self.to_client.len()
    }

    /// The bytes queued for the current role and not yet read.
    pub open spec fn unread(self) -> Seq<u8> {
        match self.role {
            Role::Client => self.to_client.subrange(self.client_read as int, self.to_client.len() as int),
            Role::Server => self.to_server.subrange(self.server_read as int, self.to_server.len() as int),
        }
    }
}

/// The state after the current role writes `bytes`: they join the queue
/// of the other end.
pub open spec fn spec_write(s: StreamView, bytes: Seq<u8>) -> StreamView {
    match s.role {
        Role::Client => StreamView { to_server: s.to_server + bytes, ..s },
        Role::Server => StreamView { to_client: s.to_client + bytes, ..s },
    }
}

/// How many bytes a read of at most `max` bytes takes.
pub open spec fn spec_read_len(s: StreamView, max: nat) -> nat {
    if max <= s.unread().len() { max } else { s.unread().len() }
}

/// The bytes a read of at most `max` bytes returns.
pub open spec fn spec_read_bytes(s: StreamView, max: nat) -> Seq<u8> {
    s.unread().take(spec_read_len(s, max) as int)
}

/// The state after a read of at most `max` bytes.
pub open spec fn spec_after_read(s: StreamView, max: nat) -> StreamView {
    match s.role {
        Role::Client => StreamView { client_read: s.client_read + spec_read_len(s, max), ..s },
        Role::Server => StreamView { server_read: s.server_read + spec_read_len(s, max), ..s },
    }
}

/// The state after the stream is handed to `role`.
pub open spec fn spec_with_role(s: StreamView, role: Role) -> StreamView {
    StreamView { role, ..s }
}

/// What one end writes reaches the other end after everything already
/// queued for it, in order, with nothing lost or added.
pub proof fn law_write_reaches_peer(s: StreamView, bytes: Seq<u8>)
    requires
        s.wf(),
    ensures
        spec_with_role(spec_write(s, bytes), Role::Server).unread()
            == spec_with_role(s, Role::Server).unread() + (if s.role == Role::Client { bytes } else { Seq::empty() }),
        spec_with_role(spec_write(s, bytes), Role::Client).unread()
            == spec_with_role(s, Role::Client).unread() + (if s.role == Role::Server { bytes } else { Seq::empty() }),
{
    let w = spec_write(s, bytes);
    assert(spec_with_role(w, Role::Server).unread() =~= spec_with_role(s, Role::Server).unread() + (if s.role == Role::Client { bytes } else { Seq::empty() }));
    assert(spec_with_role(w, Role::Client).unread() =~= spec_with_role(s, Role::Client).unread() + (if s.role == Role::Server { bytes } else { Seq::empty() }));
}

/// An end never reads back what it wrote itself.
pub proof fn law_own_writes_not_read(s: StreamView, bytes: Seq<u8>)
    requires
        s.wf(),
    ensures
        spec_write(s, bytes).unread() == s.unread(),
{
    assert(spec_write(s, bytes).unread() =~= s.unread());
}

/// Reading `a` bytes and then `b` bytes takes the same bytes, and leaves the
/// same state, as reading `a + b` bytes at once.
pub proof fn law_reads_concatenate(s: StreamView, a: nat, b: nat)
    requires
        s.wf(),
    ensures
        spec_read_bytes(s, a) + spec_read_bytes(spec_after_read(s, a), b) == spec_read_bytes(s, a + b),
        spec_after_read(spec_after_read(s, a), b) == spec_after_read(s, a + b),
{
    let s1 = spec_after_read(s, a);
    let u = s.unread();
    let la: nat = spec_read_len(s, a);
    assert(s1.unread() =~= u.skip(la as int));
    assert(spec_read_bytes(s, a) + spec_read_bytes(s1, b) =~= spec_read_bytes(s, a + b));
}

/// A handed-over stream gives the reader, in one read large enough, exactly
/// the bytes the writer wrote since the reader last emptied its queue.
pub proof fn law_handover_round_trip(s: StreamView, bytes: Seq<u8>, max: nat)
    requires
        s.wf(),
        s.role == Role::Client,
        spec_with_role(s, Role::Server).unread().len() == 0,
        bytes.len() <= max,
    ensures
        spec_read_bytes(spec_with_role(spec_write(s, bytes), Role::Server), max) == bytes,
        spec_after_read(spec_with_role(spec_write(s, bytes), Role::Server), max).unread().len() == 0,
{
    law_write_reaches_peer(s, bytes);
    let t = spec_with_role(spec_write(s, bytes), Role::Server);
    assert(t.unread() =~= bytes);
    assert(spec_read_bytes(t, max) =~= bytes);
}

/// A read takes at most `max` bytes, takes them from the front of what is
/// unread, in order, stops short of `max` only when nothing is left, and
/// leaves exactly the rest unread; the other queue and the role stay as they
/// were.
pub proof fn law_read_takes_a_prefix_of_at_most_max(s: StreamView, max: nat)
    requires
        s.wf(),
    ensures
        spec_read_bytes(s, max).len() <= max,
        spec_read_bytes(s, max).len() <= s.unread().len(),
        spec_read_bytes(s, max).len() == max || spec_read_bytes(s, max).len() == s.unread().len(),
        spec_read_bytes(s, max) == s.unread().subrange(0, spec_read_bytes(s, max).len() as int),
        spec_after_read(s, max).wf(),
        spec_after_read(s, max).unread() == s.unread().skip(spec_read_bytes(s, max).len() as int),
        spec_after_read(s, max).role == s.role,
        spec_after_read(s, max).to_server == s.to_server,
        spec_after_read(s, max).to_client == s.to_client,
        s.role == Role::Client ==> spec_after_read(s, max).server_read == s.server_read,
        s.role == Role::Server ==> spec_after_read(s, max).client_read == s.client_read,
{
    let t = spec_after_read(s, max);
    assert(t.unread() =~= s.unread().skip(spec_read_bytes(s, max).len() as int));
    assert(spec_read_bytes(s, max) =~= s.unread().subrange(0, spec_read_bytes(s, max).len() as int));
}

/// Handing the stream to an end changes nothing but the role: both queues
/// and both read positions stay, so what each end has yet to read stays.
pub proof fn law_handover_changes_only_the_role(s: StreamView, role: Role, other: Role)
    requires
        s.wf(),
    ensures
        spec_with_role(s, role).role == role,
        spec_with_role(s, role).to_server == s.to_server,
        spec_with_role(s, role).to_client == s.to_client,
        spec_with_role(s, role).server_read == s.server_read,
        spec_with_role(s, role).client_read == s.client_read,
        spec_with_role(s, role).wf(),
        spec_with_role(spec_with_role(s, role), other).unread() == spec_with_role(s, other).unread(),
{
}

impl View for Stream {
    type V = StreamView;

    closed spec fn view(&self) -> StreamView {
        StreamView {
            role: self.role,
            to_server: self.to_server@,
            server_read: self.server_read as nat,
            to_client: self.to_client@,
            client_read: self.client_read as nat,
        }
    }
}

impl Stream {
    /// A fresh connection with room for `cap` bytes in each direction,
    /// nothing queued, used by the client.
    pub fn new(cap: usize) -> (s: Stream)
        ensures
            s@.role == Role::Client,
            s@.to_server == Seq::<u8>::empty(),
            s@.to_client == Seq::<u8>::empty(),
            s@.server_read == 0,
            s@.client_read == 0,
            s@.wf(),
    {
        Stream {
            to_server: Vec::with_capacity(cap),
            server_read: 0,
            to_client: Vec::with_capacity(cap),
            client_read: 0,
            role: Role::Client,
        }
    }

    /// The end that is using the stream.
    pub fn role(&self) -> (r: Role)
        ensures
            r == self@.role,
    {
        self.role
    }

    /// Hands the stream to the client.
    pub fn role_client(&mut self)
        requires
            old(self)@.wf(),
        ensures
            final(self)@.wf(),
            final(self)@ == spec_with_role(old(self)@, Role::Client),
            final(self)@.role == Role::Client,
            final(self)@.to_server == old(self)@.to_server,
            final(self)@.to_client == old(self)@.to_client,
            final(self)@.server_read == old(self)@.server_read,
            final(self)@.client_read == old(self)@.client_read,
    {
        self.role = Role::Client;
    }

    /// Hands the stream to the server.
    pub fn role_server(&mut self)
        requires
            old(self)@.wf(),
        ensures
            final(self)@.wf(),
            final(self)@ == spec_with_role(old(self)@, Role::Server),
            final(self)@.role == Role::Server,
            final(self)@.to_server == old(self)@.to_server,
            final(self)@.to_client == old(self)@.to_client,
            final(self)@.server_read == old(self)@.server_read,
            final(self)@.client_read == old(self)@.client_read,
    {
        self.role = Role::Server;
    }

    /// Queues all of `bytes` for the other end; returns how many were taken.
    pub fn write(&mut self, bytes: &[u8]) -> (n: usize)
        requires
            old(self)@.wf(),
        ensures
            final(self)@.wf(),
            final(self)@ == spec_write(old(self)@, bytes@),
            n == bytes@.len(),
    {
        match self.role {
            Role::Client => self.to_server.extend_from_slice(bytes),
            Role::Server => self.to_client.extend_from_slice(bytes),
        }
        proof {
            assert(self.to_server@ =~= spec_write(old(self)@, bytes@).to_server);
            assert(self.to_client@ =~= spec_write(old(self)@, bytes@).to_client);
        }
        bytes.len()
    }

    /// Takes up to `max` of the bytes queued for the current role, oldest first.
    pub fn read(&mut self, max: usize) -> (out: Vec<u8>)
        requires
            old(self)@.wf(),
        ensures
            final(self)@.wf(),
            out@ == spec_read_bytes(old(self)@, max as nat),
            final(self)@ == spec_after_read(old(self)@, max as nat),
            out@.len() <= max,
            out@ == old(self)@.unread().subrange(0, out@.len() as int),
            out@.len() == max || out@.len() == old(self)@.unread().len(),
            final(self)@.unread() == old(self)@.unread().skip(out@.len() as int),
    {
        let ghost s0 = self@;
        let (queue, start) = match self.role {
            Role::Client => (&self.to_client, self.client_read),
            Role::Server => (&self.to_server, self.server_read),
        };
        let available: usize = queue.len() - start;
        let take: usize = if max <= available { max } else { available };
        let mut out: Vec<u8> = Vec::with_capacity(take);
        let mut k: usize = 0;
        while k < take
            invariant
                k <= take,
                start + take <= queue.len(),
                s0.unread() =~= queue@.subrange(start as int, queue@.len() as int),
                out@ =~= queue@.subrange(start as int, start + k),
            decreases take - k,
        {
            out.push(queue[start + k]);
            k = k + 1;
        }
        match self.role {
            Role::Client => self.client_read = start + take,
            Role::Server => self.server_read = start + take,
        }
        out
    }
}

} // verus!
