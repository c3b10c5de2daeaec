//! dApp signing approvals: a request waits until the user approves or rejects it,
//! the waiter is replaced or cleared, or the caller gives up (timeout).
//!
//! Each submission gets a ticket that stands for its waiting receiver. Resolving a
//! request moves the decision from the request's current waiter into that ticket's
//! inbox slot; a waiter whose ticket has neither a waiter entry nor a delivered
//! decision has been disconnected (its request was submitted again or cleared).

use std::collections::HashMap;
use vstd::prelude::*;

verus! {

broadcast use vstd::std_specs::hash::group_hash_axioms;

/// The user's answer to a signing request.
#[derive(Clone, Copy, Debug, PartialEq, Eq, Structural)]
pub enum ApprovalDecision {
    Approve,
    Reject,
}

/// What a waiting receiver observes.
#[derive(Clone, Copy, Debug, PartialEq, Eq, Structural)]
pub enum WaitState {
    /// A decision was delivered for this ticket.
    Decided(ApprovalDecision),
    /// No decision yet and the request still waits on this ticket.
    Waiting,
    /// No decision and no longer registered: nothing will ever arrive.
    Disconnected,
}

/// Payloads that can be copied with a proved-equal result.
pub trait Duplicate: Sized {
    fn duplicate(&self) -> (r: Self)
        ensures
            r == *self,
    ;
}

fn dup_opt_string(s: &Option<String>) -> (r: Option<String>)
    ensures
        r == *s,
{
    match s {
        Some(v) => Some(v.clone()),
        None => None,
    }
}

/// A dApp `personal_sign`-style request.
#[derive(Clone, Debug, PartialEq, Eq)]
pub struct SignMessagePayload {
    pub address: String,
    pub message: String,
    pub chain_id: u64,
}

impl Duplicate for SignMessagePayload {
    fn duplicate(&self) -> (r: Self) {
        SignMessagePayload {
            address: self.address.clone(),
            message: self.message.clone(),
            chain_id: self.chain_id,
        }
    }
}

/// A dApp transaction-signing request.
#[derive(Clone, Debug, PartialEq, Eq)]
pub struct SignTxPayload {
    pub from: String,
    pub to: String,
    pub value: String,
    pub data: Option<String>,
    pub gas_limit: Option<String>,
    pub gas_price: Option<String>,
    pub max_fee_per_gas: Option<String>,
    pub max_priority_fee_per_gas: Option<String>,
    pub nonce: Option<String>,
    pub chain_id: u64,
}

impl Duplicate for SignTxPayload {
    fn duplicate(&self) -> (r: Self) {
        SignTxPayload {
            from: self.from.clone(),
            to: self.to.clone(),
            value: self.value.clone(),
            data: dup_opt_string(&self.data),
            gas_limit: dup_opt_string(&self.gas_limit),
            gas_price: dup_opt_string(&self.gas_price),
            max_fee_per_gas: dup_opt_string(&self.max_fee_per_gas),
            max_priority_fee_per_gas: dup_opt_string(&self.max_priority_fee_per_gas),
            nonce: dup_opt_string(&self.nonce),
            chain_id: self.chain_id,
        }
    }
}

/// The request currently shown to the user.
#[derive(Clone, Debug, PartialEq, Eq)]
pub struct PendingRequest<P> {
    pub request_id: u64,
    pub payload: P,
}

/// The pending message-signing request.
pub type PendingSignMessage = PendingRequest<SignMessagePayload>;

/// The pending transaction-signing request.
pub type PendingSignTransaction = PendingRequest<SignTxPayload>;

/// Abstract state of one approval queue.
pub struct ApprovalState<P> {
    /// The request shown for approval, if any: its id and payload.
    pub pending: Option<(u64, P)>,
    /// Request id -> ticket of the receiver waiting for that request.
    pub waiters: Map<u64, u64>,
    /// Ticket -> decision delivered to that receiver and not yet taken.
    pub delivered: Map<u64, ApprovalDecision>,
    /// The ticket the next submission receives.
    pub next_ticket: nat,
}

/// Tickets are issued in order, each is held by at most one waiter, and a delivered
/// ticket no longer waits.
pub open spec fn state_wf<P>(s: ApprovalState<P>) -> bool {
    &&& forall|id: u64| #[trigger] s.waiters.contains_key(id) ==> s.waiters[id] < s.next_ticket
    &&& forall|t: u64| #[trigger] s.delivered.contains_key(t) ==> t < s.next_ticket
    &&& forall|a: u64, b: u64|
        s.waiters.contains_key(a) && s.waiters.contains_key(b) && a != b ==> #[trigger] s.waiters[a]
            != #[trigger] s.waiters[b]
    &&& forall|id: u64| #[trigger] s.waiters.contains_key(id) ==> !s.delivered.contains_key(s.waiters[id])
}

/// Some request currently waits on ticket `t`.
pub open spec fn ticket_waiting<P>(s: ApprovalState<P>, t: u64) -> bool {
    exists|id: u64| #[trigger] s.waiters.contains_key(id) && s.waiters[id] == t
}

/// Registering a request: it becomes pending and waits on a fresh ticket,
/// replacing any earlier waiter for the same id.
pub open spec fn submit_spec<P>(s: ApprovalState<P>, id: u64, payload: P) -> ApprovalState<P> {
    ApprovalState {
        pending: Some((id, payload)),
        waiters: s.waiters.insert(id, s.next_ticket as u64),
        delivered: s.delivered,
        next_ticket: s.next_ticket + 1,
    }
}

/// Answering a request: its waiter, if any, receives `d`; reports whether one did.
pub open spec fn resolve_spec<P>(s: ApprovalState<P>, id: u64, d: ApprovalDecision) -> (ApprovalState<P>, bool) {
    if s.waiters.contains_key(id) {
        (
            ApprovalState {
                pending: s.pending,
                waiters: s.waiters.remove(id),
                delivered: s.delivered.insert(s.waiters[id], d),
                next_ticket: s.next_ticket,
            },
            true,
        )
    } else {
        (s, false)
    }
}

/// What the receiver holding ticket `t` observes.
pub open spec fn poll_spec<P>(s: ApprovalState<P>, t: u64) -> WaitState {
    if s.delivered.contains_key(t) {
        WaitState::Decided(s.delivered[t])
    } else if ticket_waiting(s, t) {
        WaitState::Waiting
    } else {
        WaitState::Disconnected
    }
}

/// Ending a wait: the delivered decision, or `Reject` when none arrived; the
/// request's waiter is dropped and its pending entry cleared if still shown.
pub open spec fn finish_spec<P>(s: ApprovalState<P>, id: u64, t: u64) -> (ApprovalState<P>, ApprovalDecision) {
    let d = match poll_spec(s, t) {
        WaitState::Decided(d) => d,
        _ => ApprovalDecision::Reject,
    };
    let pending = match s.pending {
        Some((pid, p)) => if pid == id { None } else { s.pending },
        None => None,
    };
    (
        ApprovalState {
            pending,
            waiters: s.waiters.remove(id),
            delivered: s.delivered.remove(t),
            next_ticket: s.next_ticket,
        },
        d,
    )
}

/// One approval queue (message signing or transaction signing).
pub struct ApprovalQueue<P> {
    pending: Option<PendingRequest<P>>,
    ticket_of: HashMap<u64, u64>,
    owner_of: HashMap<u64, u64>,
    inbox: HashMap<u64, ApprovalDecision>,
    next_ticket: u64,
}

impl<P> ApprovalQueue<P> {
    pub closed spec fn state(&self) -> ApprovalState<P> {
        ApprovalState {
            pending: match self.pending {
                Some(p) => Some((p.request_id, p.payload)),
                None => None,
            },
            waiters: self.ticket_of@,
            delivered: self.inbox@,
            next_ticket: self.next_ticket as nat,
        }
    }

    /// Internal consistency: the abstract invariant, plus the ticket-to-request
    /// index agreeing with the request-to-ticket table.
    pub closed spec fn wf(&self) -> bool {
        &&& state_wf(self.state())
        &&& forall|t: u64| #[trigger] self.owner_of@.contains_key(t) ==> self.ticket_of@.contains_key(self.owner_of@[t])
            && self.ticket_of@[self.owner_of@[t]] == t
        &&& forall|id: u64| #[trigger] self.ticket_of@.contains_key(id) ==> self.owner_of@.contains_key(self.ticket_of@[id])
            && self.owner_of@[self.ticket_of@[id]] == id
    }

    /// A well-formed queue satisfies the abstract queue invariant.
    pub proof fn lemma_wf_gives_state_wf(&self)
        requires
            self.wf(),
        ensures
            state_wf(self.state()),
    {
    }

    /// An empty queue.
    pub fn new() -> (q: Self)
        ensures
            q.wf(),
            q.state().pending.is_none(),
            q.state().waiters == Map::<u64, u64>::empty(),
            q.state().delivered == Map::<u64, ApprovalDecision>::empty(),
            q.state().next_ticket == 0,
    {
        ApprovalQueue {
            pending: None,
            ticket_of: HashMap::new(),
            owner_of: HashMap::new(),
            inbox: HashMap::new(),
            next_ticket: 0,
        }
    }

    /// Whether another request can still be given a fresh ticket.
    pub fn can_submit(&self) -> (b: bool)
        ensures
            b == (self.state().next_ticket < u64::MAX),
    {
        self.next_ticket < u64::MAX
    }

    /// Registers a request: it becomes the pending one and waits on the returned ticket.
    pub fn submit(&mut self, request_id: u64, payload: P) -> (ticket: u64)
        requires
            old(self).wf(),
            old(self).state().next_ticket < u64::MAX,
        ensures
            final(self).wf(),
            ticket == old(self).state().next_ticket,
            final(self).state() == submit_spec(old(self).state(), request_id, payload),
    {
        let t = self.next_ticket;
        let prev = self.ticket_of.insert(request_id, t);
        match prev {
            Some(old_t) => {
                self.owner_of.remove(&old_t);
            },
            None => {},
        }
        self.owner_of.insert(t, request_id);
        self.next_ticket = t + 1;
        self.pending = Some(PendingRequest { request_id, payload });
        proof {
            let s = self.state();
            assert(s.waiters =~= old(self).state().waiters.insert(request_id, t));
            assert forall|a: u64, b: u64|
                s.waiters.contains_key(a) && s.waiters.contains_key(b) && a != b implies #[trigger] s.waiters[a]
                != #[trigger] s.waiters[b] by {
                if a != request_id && b != request_id {
                    assert(old(self).state().waiters[a] != old(self).state().waiters[b]);
                }
            }
        }
        t
    }

    /// Delivers `d` to the request's waiter; `false` when nobody waits for `request_id`.
    pub fn resolve(&mut self, request_id: u64, d: ApprovalDecision) -> (ok: bool)
        requires
            old(self).wf(),
        ensures
            final(self).wf(),
            (final(self).state(), ok) == resolve_spec(old(self).state(), request_id, d),
    {
        let removed = self.ticket_of.remove(&request_id);
        match removed {
            Some(t) => {
                self.owner_of.remove(&t);
                self.inbox.insert(t, d);
                proof {
                    let s = self.state();
                    let o = old(self).state();
                    assert(t == o.waiters[request_id]);
                    assert(s.waiters =~= o.waiters.remove(request_id));
                    assert(s.delivered =~= o.delivered.insert(t, d));
                    assert(s.pending == o.pending);
                    assert forall|id: u64| #[trigger] self.ticket_of@.contains_key(id) implies self.owner_of@.contains_key(
                        self.ticket_of@[id],
                    ) && self.owner_of@[self.ticket_of@[id]] == id by {
                        assert(o.waiters[id] != o.waiters[request_id]);
                    }
                    assert forall|id: u64| #[trigger] s.waiters.contains_key(id) implies !s.delivered.contains_key(
                        s.waiters[id],
                    ) by {
                        assert(o.waiters[id] != o.waiters[request_id]);
                    }
                    assert forall|a: u64, b: u64|
                        s.waiters.contains_key(a) && s.waiters.contains_key(b) && a != b implies #[trigger] s.waiters[a]
                        != #[trigger] s.waiters[b] by {
                        assert(o.waiters[a] != o.waiters[b]);
                    }
                    assert forall|tt: u64| #[trigger] self.owner_of@.contains_key(tt) implies self.ticket_of@.contains_key(
                        self.owner_of@[tt],
                    ) && self.ticket_of@[self.owner_of@[tt]] == tt by {
                        assert(old(self).owner_of@.contains_key(tt));
                    }
                }
                true
            },
            None => {
                assert(self.ticket_of@ =~= old(self).ticket_of@);
                false
            },
        }
    }

    /// What the receiver holding `ticket` observes now.
    pub fn poll(&self, ticket: u64) -> (w: WaitState)
        requires
            self.wf(),
        ensures
            w == poll_spec(self.state(), ticket),
    {
        match self.inbox.get(&ticket) {
            Some(d) => WaitState::Decided(*d),
            None => {
                if self.owner_of.contains_key(&ticket) {
                    proof {
                        let id = self.owner_of@[ticket];
                        assert(self.state().waiters.contains_key(id));
                    }
                    WaitState::Waiting
                } else {
                    proof {
                        assert forall|id: u64| #[trigger] self.state().waiters.contains_key(id) implies self.state().waiters[id]
                            != ticket by {}
                    }
                    WaitState::Disconnected
                }
            },
        }
    }

    /// Ends the wait of `ticket` for `request_id` and returns the decision it gets.
    pub fn finish(&mut self, request_id: u64, ticket: u64) -> (d: ApprovalDecision)
        requires
            old(self).wf(),
        ensures
            final(self).wf(),
            (final(self).state(), d) == finish_spec(old(self).state(), request_id, ticket),
    {
        let w = self.poll(ticket);
        let d = match w {
            WaitState::Decided(d) => d,
            _ => ApprovalDecision::Reject,
        };
        self.inbox.remove(&ticket);
        let removed = self.ticket_of.remove(&request_id);
        match removed {
            Some(t) => {
                self.owner_of.remove(&t);
            },
            None => {},
        }
        let clear = match &self.pending {
            Some(p) => p.request_id == request_id,
            None => false,
        };
        if clear {
            self.pending = None;
        }
        proof {
            let s = self.state();
            let o = old(self).state();
            assert forall|a: u64, b: u64|
                s.waiters.contains_key(a) && s.waiters.contains_key(b) && a != b implies #[trigger] s.waiters[a]
                != #[trigger] s.waiters[b] by {
                assert(o.waiters[a] != o.waiters[b]);
            }
            assert forall|tt: u64| #[trigger] self.owner_of@.contains_key(tt) implies self.ticket_of@.contains_key(
                self.owner_of@[tt],
            ) && self.ticket_of@[self.owner_of@[tt]] == tt by {
                assert(old(self).owner_of@.contains_key(tt));
            }
            assert(s.pending == finish_spec(o, request_id, ticket).0.pending);
        }
        d
    }
}

impl<P: Duplicate> ApprovalQueue<P> {
    /// A copy of the request currently shown for approval.
    pub fn pending(&self) -> (r: Option<PendingRequest<P>>)
        ensures
            match r {
                Some(p) => self.state().pending == Some((p.request_id, p.payload)),
                None => self.state().pending.is_none(),
            },
    {
        match &self.pending {
            Some(p) => Some(PendingRequest { request_id: p.request_id, payload: p.payload.duplicate() }),
            None => None,
        }
    }
}

/// The message-signing and transaction-signing approval queues of the wallet.
pub struct DappApprovalBroker {
    messages: ApprovalQueue<SignMessagePayload>,
    transactions: ApprovalQueue<SignTxPayload>,
}

impl DappApprovalBroker {
    pub closed spec fn wf(&self) -> bool {
        self.messages.wf() && self.transactions.wf()
    }

    /// State of the message-signing queue.
    pub closed spec fn messages(&self) -> ApprovalState<SignMessagePayload> {
        self.messages.state()
    }

    /// State of the transaction-signing queue.
    pub closed spec fn transactions(&self) -> ApprovalState<SignTxPayload> {
        self.transactions.state()
    }

    /// A well-formed broker's two queues each satisfy the abstract queue invariant.
    pub proof fn lemma_wf_gives_state_wf(&self)
        requires
            self.wf(),
        ensures
            state_wf(self.messages()),
            state_wf(self.transactions()),
    {
        self.messages.lemma_wf_gives_state_wf();
        self.transactions.lemma_wf_gives_state_wf();
    }

    /// A broker with nothing pending.
    pub fn new() -> (b: Self)
        ensures
            b.wf(),
            b.messages().pending.is_none(),
            b.messages().waiters == Map::<u64, u64>::empty(),
            b.messages().delivered == Map::<u64, ApprovalDecision>::empty(),
            b.transactions().pending.is_none(),
            b.transactions().waiters == Map::<u64, u64>::empty(),
            b.transactions().delivered == Map::<u64, ApprovalDecision>::empty(),
    {
        DappApprovalBroker { messages: ApprovalQueue::new(), transactions: ApprovalQueue::new() }
    }

    /// Whether a message request can still get a fresh ticket.
    pub fn can_submit_sign_message(&self) -> (b: bool)
        ensures
            b == (self.messages().next_ticket < u64::MAX),
    {
        self.messages.can_submit()
    }

    /// Whether a transaction request can still get a fresh ticket.
    pub fn can_submit_sign_transaction(&self) -> (b: bool)
        ensures
            b == (self.transactions().next_ticket < u64::MAX),
    {
        self.transactions.can_submit()
    }

    /// Shows a message request for approval; its receiver waits on the returned ticket.
    pub fn submit_sign_message(&mut self, request_id: u64, payload: SignMessagePayload) -> (ticket: u64)
        requires
            old(self).wf(),
            old(self).messages().next_ticket < u64::MAX,
        ensures
            final(self).wf(),
            ticket == old(self).messages().next_ticket,
            final(self).messages() == submit_spec(old(self).messages(), request_id, payload),
            final(self).transactions() == old(self).transactions(),
    {
        self.messages.submit(request_id, payload)
    }

    /// Shows a transaction request for approval; its receiver waits on the returned ticket.
    pub fn submit_sign_transaction(&mut self, request_id: u64, payload: SignTxPayload) -> (ticket: u64)
        requires
            old(self).wf(),
            old(self).transactions().next_ticket < u64::MAX,
        ensures
            final(self).wf(),
            ticket == old(self).transactions().next_ticket,
            final(self).transactions() == submit_spec(old(self).transactions(), request_id, payload),
            final(self).messages() == old(self).messages(),
    {
        self.transactions.submit(request_id, payload)
    }

    /// The message request shown for approval.
    pub fn pending_sign_message(&self) -> (r: Option<PendingSignMessage>)
        ensures
            match r {
                Some(p) => self.messages().pending == Some((p.request_id, p.payload)),
                None => self.messages().pending.is_none(),
            },
    {
        self.messages.pending()
    }

    /// The transaction request shown for approval.
    pub fn pending_sign_transaction(&self) -> (r: Option<PendingSignTransaction>)
        ensures
            match r {
                Some(p) => self.transactions().pending == Some((p.request_id, p.payload)),
                None => self.transactions().pending.is_none(),
            },
    {
        self.transactions.pending()
    }

    /// What the message receiver holding `ticket` observes.
    pub fn poll_sign_message(&self, ticket: u64) -> (w: WaitState)
        requires
            self.wf(),
        ensures
            w == poll_spec(self.messages(), ticket),
    {
        self.messages.poll(ticket)
    }

    /// What the transaction receiver holding `ticket` observes.
    pub fn poll_sign_transaction(&self, ticket: u64) -> (w: WaitState)
        requires
            self.wf(),
        ensures
            w == poll_spec(self.transactions(), ticket),
    {
        self.transactions.poll(ticket)
    }

    /// Ends a message wait (decision arrived, receiver disconnected, or timed out).
    pub fn finish_sign_message(&mut self, request_id: u64, ticket: u64) -> (d: ApprovalDecision)
        requires
            old(self).wf(),
        ensures
            final(self).wf(),
            (final(self).messages(), d) == finish_spec(old(self).messages(), request_id, ticket),
            final(self).transactions() == old(self).transactions(),
    {
        self.messages.finish(request_id, ticket)
    }

    /// Ends a transaction wait (decision arrived, receiver disconnected, or timed out).
    pub fn finish_sign_transaction(&mut self, request_id: u64, ticket: u64) -> (d: ApprovalDecision)
        requires
            old(self).wf(),
        ensures
            final(self).wf(),
            (final(self).transactions(), d) == finish_spec(old(self).transactions(), request_id, ticket),
            final(self).messages() == old(self).messages(),
    {
        self.transactions.finish(request_id, ticket)
    }

    /// Approves a message request; `false` when nothing waits for it.
    pub fn approve_sign_message(&mut self, request_id: u64) -> (ok: bool)
        requires
            old(self).wf(),
        ensures
            final(self).wf(),
            (final(self).messages(), ok) == resolve_spec(old(self).messages(), request_id, ApprovalDecision::Approve),
            final(self).transactions() == old(self).transactions(),
    {
        self.messages.resolve(request_id, ApprovalDecision::Approve)
    }

    /// Rejects a message request; `false` when nothing waits for it.
    pub fn reject_sign_message(&mut self, request_id: u64) -> (ok: bool)
        requires
            old(self).wf(),
        ensures
            final(self).wf(),
            (final(self).messages(), ok) == resolve_spec(old(self).messages(), request_id, ApprovalDecision::Reject),
            final(self).transactions() == old(self).transactions(),
    {
        self.messages.resolve(request_id, ApprovalDecision::Reject)
    }

    /// Approves a transaction request; `false` when nothing waits for it.
    pub fn approve_sign_transaction(&mut self, request_id: u64) -> (ok: bool)
        requires
            old(self).wf(),
        ensures
            final(self).wf(),
            (final(self).transactions(), ok) == resolve_spec(old(self).transactions(), request_id, ApprovalDecision::Approve),
            final(self).messages() == old(self).messages(),
    {
        self.transactions.resolve(request_id, ApprovalDecision::Approve)
    }

    /// Rejects a transaction request; `false` when nothing waits for it.
    pub fn reject_sign_transaction(&mut self, request_id: u64) -> (ok: bool)
        requires
            old(self).wf(),
        ensures
            final(self).wf(),
            (final(self).transactions(), ok) == resolve_spec(old(self).transactions(), request_id, ApprovalDecision::Reject),
            final(self).messages() == old(self).messages(),
    {
        self.transactions.resolve(request_id, ApprovalDecision::Reject)
    }
}

/// Every transition keeps the queue invariant.
pub proof fn law_transitions_preserve_wf<P>(s: ApprovalState<P>, id: u64, p: P, d: ApprovalDecision, t: u64)
    requires
        state_wf(s),
        s.next_ticket < u64::MAX,
    ensures
        state_wf(submit_spec(s, id, p)),
        state_wf(resolve_spec(s, id, d).0),
        state_wf(finish_spec(s, id, t).0),
{
    let s1 = submit_spec(s, id, p);
    assert forall|a: u64, b: u64|
        s1.waiters.contains_key(a) && s1.waiters.contains_key(b) && a != b implies #[trigger] s1.waiters[a]
        != #[trigger] s1.waiters[b] by {
        if a != id && b != id {
            assert(s.waiters[a] != s.waiters[b]);
        }
    }
    if s.waiters.contains_key(id) {
        let s2 = resolve_spec(s, id, d).0;
        assert forall|x: u64| #[trigger] s2.waiters.contains_key(x) implies !s2.delivered.contains_key(s2.waiters[x]) by {
            assert(s.waiters[x] != s.waiters[id]);
        }
        assert forall|a: u64, b: u64|
            s2.waiters.contains_key(a) && s2.waiters.contains_key(b) && a != b implies #[trigger] s2.waiters[a]
            != #[trigger] s2.waiters[b] by {
            assert(s.waiters[a] != s.waiters[b]);
        }
    }
    let s3 = finish_spec(s, id, t).0;
    assert forall|a: u64, b: u64|
        s3.waiters.contains_key(a) && s3.waiters.contains_key(b) && a != b implies #[trigger] s3.waiters[a]
        != #[trigger] s3.waiters[b] by {
        assert(s.waiters[a] != s.waiters[b]);
    }
}

/// A decision given while a request waits reaches that request's receiver, and is
/// what the request's wait ends with.
pub proof fn law_decision_reaches_waiter<P>(s: ApprovalState<P>, id: u64, p: P, d: ApprovalDecision)
    requires
        s.next_ticket < u64::MAX,
    ensures
        ({
            let t = s.next_ticket as u64;
            let s1 = submit_spec(s, id, p);
            let (s2, ok) = resolve_spec(s1, id, d);
            &&& ok
            &&& poll_spec(s2, t) == WaitState::Decided(d)
            &&& finish_spec(s2, id, t).1 == d
        }),
{
}

/// A request is answered at most once: a second answer for the same id is refused
/// and changes nothing.
pub proof fn law_resolve_at_most_once<P>(s: ApprovalState<P>, id: u64, d1: ApprovalDecision, d2: ApprovalDecision)
    ensures
        ({
            let s1 = resolve_spec(s, id, d1).0;
            let (s2, ok) = resolve_spec(s1, id, d2);
            !ok && s2 == s1
        }),
{
}

/// A wait with no answer ends in `Reject`, and leaves neither the waiter nor the
/// pending request behind.
pub proof fn law_unanswered_wait_rejects<P>(s: ApprovalState<P>, id: u64, p: P)
    requires
        state_wf(s),
        s.next_ticket < u64::MAX,
    ensures
        ({
            let t = s.next_ticket as u64;
            let s1 = submit_spec(s, id, p);
            let (s2, d) = finish_spec(s1, id, t);
            &&& poll_spec(s1, t) == WaitState::Waiting
            &&& d == ApprovalDecision::Reject
            &&& !s2.waiters.contains_key(id)
            &&& s2.pending.is_none()
            &&& poll_spec(s2, t) == WaitState::Disconnected
        }),
{
    let t = s.next_ticket as u64;
    let s1 = submit_spec(s, id, p);
    assert(s1.waiters.contains_key(id) && s1.waiters[id] == t);
    let s2 = finish_spec(s1, id, t).0;
    assert forall|x: u64| #[trigger] s2.waiters.contains_key(x) implies s2.waiters[x] != t by {
        assert(s.waiters.contains_key(x));
    }
}

/// Submitting a request again disconnects the receiver of the earlier submission.
pub proof fn law_resubmit_disconnects_previous<P>(s: ApprovalState<P>, id: u64, p1: P, p2: P)
    requires
        state_wf(s),
        s.next_ticket + 1 < u64::MAX,
    ensures
        poll_spec(submit_spec(submit_spec(s, id, p1), id, p2), s.next_ticket as u64) == WaitState::Disconnected,
{
    let t = s.next_ticket as u64;
    let s2 = submit_spec(submit_spec(s, id, p1), id, p2);
    assert forall|x: u64| #[trigger] s2.waiters.contains_key(x) implies s2.waiters[x] != t by {
        if x != id {
            assert(s.waiters.contains_key(x));
        }
    }
}

/// Ending a wait clears the shown request only when it is the request that waited.
pub proof fn law_finish_keeps_other_pending<P>(s: ApprovalState<P>, id: u64, t: u64)
    requires
        s.pending matches Some((pid, _)) && pid != id,
    ensures
        finish_spec(s, id, t).0.pending == s.pending,
{
}


// ---------------------------------------------------------------------------
// Interleaved requests
// ---------------------------------------------------------------------------

/// One call on an approval queue: a submission, an answer by the user, or the end
/// of a wait (request id and ticket).
pub enum QueueOp<P> {
    Submit(u64, P),
    Resolve(u64, ApprovalDecision),
    Finish(u64, u64),
}

/// The queue after one call.
pub open spec fn apply_op<P>(s: ApprovalState<P>, op: QueueOp<P>) -> ApprovalState<P> {
    match op {
        QueueOp::Submit(id, p) => submit_spec(s, id, p),
        QueueOp::Resolve(id, d) => resolve_spec(s, id, d).0,
        QueueOp::Finish(id, t) => finish_spec(s, id, t).0,
    }
}

/// The queue after a sequence of calls, in order.
pub open spec fn apply_ops<P>(s: ApprovalState<P>, ops: Seq<QueueOp<P>>) -> ApprovalState<P>
    decreases ops.len(),
{
    if ops.len() == 0 {
        s
    } else {
        apply_ops(apply_op(s, ops[0]), ops.drop_first())
    }
}

/// The call concerns request `id` or the wait on ticket `t`.
pub open spec fn op_touches<P>(op: QueueOp<P>, id: u64, t: u64) -> bool {
    match op {
        QueueOp::Submit(i, _) => i == id,
        QueueOp::Resolve(i, _) => i == id,
        QueueOp::Finish(i, tt) => i == id || tt == t,
    }
}

/// No call of `ops` concerns request `id` or ticket `t`.
pub open spec fn untouched<P>(ops: Seq<QueueOp<P>>, id: u64, t: u64) -> bool {
    forall|i: int| 0 <= i < ops.len() ==> !op_touches(#[trigger] ops[i], id, t)
}

proof fn lemma_untouched_tail<P>(ops: Seq<QueueOp<P>>, id: u64, t: u64)
    requires
        ops.len() > 0,
        untouched(ops, id, t),
    ensures
        !op_touches(ops[0], id, t),
        untouched(ops.drop_first(), id, t),
{
    assert forall|i: int| 0 <= i < ops.drop_first().len() implies !op_touches(#[trigger] ops.drop_first()[i], id, t) by {
        assert(ops.drop_first()[i] == ops[i + 1]);
    }
}

proof fn lemma_one_op_keeps_wf<P>(s: ApprovalState<P>, op: QueueOp<P>)
    requires
        state_wf(s),
        s.next_ticket < u64::MAX,
    ensures
        state_wf(apply_op(s, op)),
        apply_op(s, op).next_ticket <= s.next_ticket + 1,
        apply_op(s, op).next_ticket >= s.next_ticket,
{
    match op {
        QueueOp::Submit(id, p) => law_transitions_preserve_wf(s, id, p, ApprovalDecision::Reject, 0),
        QueueOp::Resolve(id, d) => law_transitions_preserve_wf(s, id, vstd::pervasive::arbitrary::<P>(), d, 0),
        QueueOp::Finish(id, t) => law_transitions_preserve_wf(s, id, vstd::pervasive::arbitrary::<P>(), ApprovalDecision::Reject, t),
    }
}

proof fn lemma_waiter_persists<P>(s: ApprovalState<P>, id: u64, t: u64, ops: Seq<QueueOp<P>>)
    requires
        state_wf(s),
        s.waiters.contains_key(id),
        s.waiters[id] == t,
        s.next_ticket + ops.len() < u64::MAX,
        untouched(ops, id, t),
    ensures
        state_wf(apply_ops(s, ops)),
        apply_ops(s, ops).waiters.contains_key(id),
        apply_ops(s, ops).waiters[id] == t,
    decreases ops.len(),
{
    if ops.len() > 0 {
        lemma_untouched_tail(ops, id, t);
        lemma_one_op_keeps_wf(s, ops[0]);
        let s1 = apply_op(s, ops[0]);
        match ops[0] {
            QueueOp::Resolve(i, d) => {
                if s.waiters.contains_key(i) {
                    assert(s.waiters[i] != s.waiters[id]);
                }
            },
            _ => {},
        }
        assert(s1.waiters.contains_key(id) && s1.waiters[id] == t);
        lemma_waiter_persists(s1, id, t, ops.drop_first());
    }
}

/// A request that waits keeps waiting while the queue serves other requests: after
/// any calls for other request ids (and other tickets), its receiver still observes
/// `Waiting`; when its wait then ends without an answer the result is `Reject`, its
/// waiter is gone, its receiver is disconnected, and it is no longer the request
/// shown.
pub proof fn law_unanswered_wait_rejects_amid_others<P>(s: ApprovalState<P>, id: u64, p: P, ops: Seq<QueueOp<P>>)
    requires
        state_wf(s),
        s.next_ticket + 1 + ops.len() < u64::MAX,
        untouched(ops, id, s.next_ticket as u64),
    ensures
        ({
            let t = s.next_ticket as u64;
            let s2 = apply_ops(submit_spec(s, id, p), ops);
            let (s3, d) = finish_spec(s2, id, t);
            &&& poll_spec(s2, t) == WaitState::Waiting
            &&& d == ApprovalDecision::Reject
            &&& !s3.waiters.contains_key(id)
            &&& poll_spec(s3, t) == WaitState::Disconnected
            &&& !(s3.pending matches Some((pid, _)) && pid == id)
        }),
{
    let t = s.next_ticket as u64;
    let s1 = submit_spec(s, id, p);
    law_transitions_preserve_wf(s, id, p, ApprovalDecision::Reject, t);
    lemma_waiter_persists(s1, id, t, ops);
    let s2 = apply_ops(s1, ops);
    assert(ticket_waiting(s2, t));
    let s3 = finish_spec(s2, id, t).0;
    assert forall|x: u64| #[trigger] s3.waiters.contains_key(x) implies s3.waiters[x] != t by {
        assert(s2.waiters[x] != s2.waiters[id]);
    }
}

proof fn lemma_decision_persists<P>(s: ApprovalState<P>, id: u64, t: u64, d: ApprovalDecision, ops: Seq<QueueOp<P>>)
    requires
        state_wf(s),
        s.delivered.contains_key(t),
        s.delivered[t] == d,
        !s.waiters.contains_key(id),
        s.next_ticket + ops.len() < u64::MAX,
        untouched(ops, id, t),
    ensures
        state_wf(apply_ops(s, ops)),
        apply_ops(s, ops).delivered.contains_key(t),
        apply_ops(s, ops).delivered[t] == d,
        !apply_ops(s, ops).waiters.contains_key(id),
    decreases ops.len(),
{
    if ops.len() > 0 {
        lemma_untouched_tail(ops, id, t);
        lemma_one_op_keeps_wf(s, ops[0]);
        let s1 = apply_op(s, ops[0]);
        match ops[0] {
            QueueOp::Resolve(i, e) => {
                if s.waiters.contains_key(i) {
                    assert(s.waiters[i] != t);
                }
            },
            _ => {},
        }
        assert(s1.delivered.contains_key(t) && s1.delivered[t] == d);
        lemma_decision_persists(s1, id, t, d, ops.drop_first());
    }
}

/// A decision given while a request waits reaches its receiver even when calls
/// for other requests come in between: the receiver observes the decision, its
/// wait ends with it, and a later answer for the same id is refused.
pub proof fn law_decision_reaches_waiter_amid_others<P>(
    s: ApprovalState<P>,
    id: u64,
    p: P,
    d: ApprovalDecision,
    ops: Seq<QueueOp<P>>,
    later: ApprovalDecision,
)
    requires
        state_wf(s),
        s.next_ticket + 1 + ops.len() < u64::MAX,
        untouched(ops, id, s.next_ticket as u64),
    ensures
        ({
            let t = s.next_ticket as u64;
            let (s2, ok) = resolve_spec(submit_spec(s, id, p), id, d);
            let s3 = apply_ops(s2, ops);
            let (s4, got) = finish_spec(s3, id, t);
            &&& ok
            &&& poll_spec(s3, t) == WaitState::Decided(d)
            &&& got == d
            &&& !resolve_spec(s4, id, later).1
        }),
{
    let t = s.next_ticket as u64;
    let s1 = submit_spec(s, id, p);
    law_transitions_preserve_wf(s, id, p, d, t);
    law_transitions_preserve_wf(s1, id, p, d, t);
    let s2 = resolve_spec(s1, id, d).0;
    assert(s2.delivered.contains_key(t) && s2.delivered[t] == d);
    lemma_decision_persists(s2, id, t, d, ops);
}

/// Whether a call submits a request, or ends the wait of request `id`.
pub open spec fn replaces_shown<P>(op: QueueOp<P>, id: u64) -> bool {
    match op {
        QueueOp::Submit(_, _) => true,
        QueueOp::Resolve(_, _) => false,
        QueueOp::Finish(i, _) => i == id,
    }
}

/// The request shown for approval stays the last one submitted: answers, and the
/// ends of other requests' waits, leave it in place.
pub proof fn law_shown_request_stays<P>(s: ApprovalState<P>, id: u64, p: P, ops: Seq<QueueOp<P>>)
    requires
        forall|i: int| 0 <= i < ops.len() ==> !replaces_shown(#[trigger] ops[i], id),
    ensures
        apply_ops(submit_spec(s, id, p), ops).pending == Some((id, p)),
{
    lemma_shown_stays(submit_spec(s, id, p), id, p, ops);
}

proof fn lemma_shown_stays<P>(s: ApprovalState<P>, id: u64, p: P, ops: Seq<QueueOp<P>>)
    requires
        s.pending == Some((id, p)),
        forall|i: int| 0 <= i < ops.len() ==> !replaces_shown(#[trigger] ops[i], id),
    ensures
        apply_ops(s, ops).pending == Some((id, p)),
    decreases ops.len(),
{
    if ops.len() > 0 {
        assert(!replaces_shown(ops[0], id));
        let s1 = apply_op(s, ops[0]);
        assert(s1.pending == Some((id, p)));
        assert forall|i: int| 0 <= i < ops.drop_first().len() implies !replaces_shown(#[trigger] ops.drop_first()[i], id) by {
            assert(ops.drop_first()[i] == ops[i + 1]);
        }
        lemma_shown_stays(s1, id, p, ops.drop_first());
    }
}

} // verus!
