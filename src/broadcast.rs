//! The set of connected clients of a shared terminal, and what each of them
//! has been handed since it connected.
use vstd::prelude::*;

verus! {

/// The items of `s` whose flag, at the same position, is set; in order.
pub open spec fn keep<A>(s: Seq<A>, flags: Seq<bool>) -> Seq<A>
    decreases s.len(),
{
    if s.len() == 0 {
        s
    } else {
        let n = s.len() - 1;
        let front = keep(s.subrange(0, n), flags);
        if flags[n] {
            front.push(s[n])
        } else {
            front
        }
    }
}

/// Each client's record extended by `chunk`.
pub open spec fn append_all(logs: Seq<Seq<u8>>, chunk: Seq<u8>) -> Seq<Seq<u8>> {
    logs.map_values(|l: Seq<u8>| l + chunk)
}

/// Connected clients, in the order they connected, with the bytes written to
/// each of them since it connected.
pub struct ClientSet<T> {
    conns: Vec<T>,
    sent: Ghost<Seq<Seq<u8>>>,
}

impl<T> ClientSet<T> {
    /// The connections, in the order they were admitted.
    pub closed spec fn clients(&self) -> Seq<T> {
        self.conns@
    }

    /// What was written to each connection since it was admitted, by position.
    pub closed spec fn received(&self) -> Seq<Seq<u8>> {
        self.sent@
    }

    pub open spec fn wf(&self) -> bool {
        self.clients().len() == self.received().len()
    }

    pub fn new() -> (r: Self)
        ensures
            r.wf(),
            r.clients() == Seq::<T>::empty(),
            r.received() == Seq::<Seq<u8>>::empty(),
    {
        ClientSet { conns: Vec::new(), sent: Ghost(Seq::empty()) }
    }

    pub fn len(&self) -> (n: usize)
        ensures
            n == self.clients().len(),
    {
        self.conns.len()
    }

    /// Admits a new connection; it has been handed nothing yet.
    pub fn join(&mut self, conn: T)
        requires
            old(self).wf(),
        ensures
            final(self).wf(),
            final(self).clients() == old(self).clients().push(conn),
            final(self).received() == old(self).received().push(Seq::<u8>::empty()),
    {
        self.conns.push(conn);
        self.sent = Ghost(self.sent@.push(Seq::empty()));
    }

    /// The connection at position `i`, for reading from it or writing to it.
    pub fn connection(&mut self, i: usize) -> (c: &mut T)
        requires
            old(self).wf(),
            i < old(self).clients().len(),
        ensures
            *c == old(self).clients()[i as int],
            final(self).clients() == old(self).clients().update(i as int, *final(c)),
            final(self).received() == old(self).received(),
    {
        &mut self.conns[i]
    }

    fn retain_flagged(&mut self, flags: &Vec<bool>)
        requires
            old(self).wf(),
            flags@.len() == old(self).clients().len(),
        ensures
            final(self).clients() == keep(old(self).clients(), flags@),
            final(self).received() == old(self).received(),
    {
        let mut rest: Vec<T> = Vec::new();
        core::mem::swap(&mut rest, &mut self.conns);
        let ghost orig = rest@;
        let n = rest.len();
        let mut i: usize = 0;
        while i < n
            invariant
                n == orig.len(),
                n == flags@.len(),
                i <= n,
                rest@ == orig.subrange(i as int, n as int),
                self.conns@ == keep(orig.subrange(0, i as int), flags@),
                self.sent == old(self).sent,
            decreases n - i,
        {
            let c = rest.remove(0);
            assert(orig.subrange(0, i + 1).subrange(0, i as int) =~= orig.subrange(0, i as int));
            if flags[i] {
                self.conns.push(c);
            }
            i = i + 1;
            assert(rest@ =~= orig.subrange(i as int, n as int));
        }
        assert(orig.subrange(0, n as int) =~= orig);
    }

    /// Records one chunk of terminal output written to every client in turn:
    /// `write_ok[i]` tells whether the write to client `i` succeeded. Clients
    /// whose write failed are dropped; every other client stays, in its
    /// place, having received the chunk after all it received before.
    pub fn deliver(&mut self, chunk: &[u8], write_ok: &Vec<bool>)
        requires
            old(self).wf(),
            write_ok@.len() == old(self).clients().len(),
        ensures
            final(self).wf(),
            final(self).clients() == keep(old(self).clients(), write_ok@),
            final(self).received() == keep(append_all(old(self).received(), chunk@), write_ok@),
    {
        self.retain_flagged(write_ok);
        let ghost all = append_all(self.sent@, chunk@);
        proof {
            lemma_keep_len(old(self).clients(), write_ok@);
            lemma_keep_len(all, write_ok@);
        }
        self.sent = Ghost(keep(all, write_ok@));
    }

    /// Drops the clients that closed their end or failed on read:
    /// `open[i]` tells whether client `i` is still healthy.
    pub fn drop_closed(&mut self, open: &Vec<bool>)
        requires
            old(self).wf(),
            open@.len() == old(self).clients().len(),
        ensures
            final(self).wf(),
            final(self).clients() == keep(old(self).clients(), open@),
            final(self).received() == keep(old(self).received(), open@),
    {
        self.retain_flagged(open);
        let ghost logs = self.sent@;
        proof {
            lemma_keep_len(old(self).clients(), open@);
            lemma_keep_len(logs, open@);
        }
        self.sent = Ghost(keep(logs, open@));
    }
}

/// How many flags among the first `n` are set.
pub open spec fn count_set(flags: Seq<bool>, n: int) -> nat
    decreases n,
{
    if n <= 0 {
        0
    } else {
        count_set(flags, n - 1) + if flags[n - 1] {
            1nat
        } else {
            0nat
        }
    }
}

pub proof fn lemma_keep_len<A>(s: Seq<A>, flags: Seq<bool>)
    ensures
        keep(s, flags).len() == count_set(flags, s.len() as int),
    decreases s.len(),
{
    if s.len() > 0 {
        lemma_keep_len(s.subrange(0, s.len() - 1), flags);
    }
}

proof fn lemma_keep_index<A>(s: Seq<A>, flags: Seq<bool>, i: int)
    requires
        0 <= i < s.len(),
        flags[i],
    ensures
        count_set(flags, i) < keep(s, flags).len(),
        keep(s, flags)[count_set(flags, i) as int] == s[i],
    decreases s.len(),
{
    let n = s.len() - 1;
    let front = s.subrange(0, n);
    lemma_keep_len(front, flags);
    if i < n {
        lemma_keep_index(front, flags, i);
    }
}

proof fn lemma_keep_all<A>(s: Seq<A>, flags: Seq<bool>)
    requires
        forall|i: int| 0 <= i < s.len() ==> flags[i],
    ensures
        keep(s, flags) == s,
    decreases s.len(),
{
    if s.len() > 0 {
        let n = s.len() - 1;
        lemma_keep_all(s.subrange(0, n), flags);
        assert(s.subrange(0, n).push(s[n]) =~= s);
    }
}

/// Fan-out keeps every healthy client whole: whatever the number of
/// connected clients, each one whose write succeeded stays connected and has
/// received the chunk, in order, right after everything it received before;
/// when every write succeeds, every client does.
pub proof fn law_fan_out<T>(
    clients: Seq<T>,
    received: Seq<Seq<u8>>,
    chunk: Seq<u8>,
    write_ok: Seq<bool>,
)
    requires
        clients.len() == received.len(),
        write_ok.len() == clients.len(),
    ensures
        forall|i: int|
            0 <= i < clients.len() && write_ok[i] ==> {
                let j = count_set(write_ok, i) as int;
                &&& j < keep(clients, write_ok).len()
                &&& keep(clients, write_ok)[j] == clients[i]
                &&& keep(append_all(received, chunk), write_ok)[j] == received[i] + chunk
            },
        (forall|i: int| 0 <= i < clients.len() ==> write_ok[i]) ==> {
            &&& keep(clients, write_ok) == clients
            &&& keep(append_all(received, chunk), write_ok) == append_all(received, chunk)
        },
{
    let all = append_all(received, chunk);
    assert forall|i: int| 0 <= i < clients.len() && write_ok[i] implies {
        let j = count_set(write_ok, i) as int;
        &&& j < keep(clients, write_ok).len()
        &&& keep(clients, write_ok)[j] == clients[i]
        &&& keep(all, write_ok)[j] == received[i] + chunk
    } by {
        lemma_keep_index(clients, write_ok, i);
        lemma_keep_index(all, write_ok, i);
    }
    if forall|i: int| 0 <= i < clients.len() ==> write_ok[i] {
        lemma_keep_all(clients, write_ok);
        lemma_keep_all(all, write_ok);
    }
}

} // verus!
