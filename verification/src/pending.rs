//! The queue of sent transactions shown under the Send form: at most twenty entries,
//! one per hash, whose status moves from `Pending` through refreshes to a final
//! state or `Replaced` when a speed-up or cancel goes out.

use vstd::prelude::*;
use crate::errors::{WalletError, WalletErrorView};
use crate::send_form::{opt_view, replacement_fees, replacement_fees_spec};
use crate::text::{chars_of, push_chars_range, push_str, str_eq, to_owned_string};

verus! {

broadcast use vstd::string::group_string_axioms;

/// The queue keeps the most recent twenty transactions.
pub const MAX_PENDING_TXS: usize = 20;

/// A transaction sent from the Send form, with what a replacement needs.
#[derive(Clone, Debug, PartialEq, Eq)]
pub struct PendingTxContext {
    pub tx_hash: String,
    pub nonce: u64,
    pub to: String,
    pub value_wei: String,
    pub data: Option<String>,
    pub max_fee_per_gas: Option<String>,
    pub max_priority_fee_per_gas: Option<String>,
    pub status: String,
}

/// The abstract value of a queue entry.
pub struct PendingTxView {
    pub tx_hash: Seq<char>,
    pub nonce: u64,
    pub to: Seq<char>,
    pub value_wei: Seq<char>,
    pub data: Option<Seq<char>>,
    pub max_fee_per_gas: Option<Seq<char>>,
    pub max_priority_fee_per_gas: Option<Seq<char>>,
    pub status: Seq<char>,
}

impl View for PendingTxContext {
    type V = PendingTxView;

    open spec fn view(&self) -> PendingTxView {
        PendingTxView {
            tx_hash: self.tx_hash@,
            nonce: self.nonce,
            to: self.to@,
            value_wei: self.value_wei@,
            data: opt_view(self.data),
            max_fee_per_gas: opt_view(self.max_fee_per_gas),
            max_priority_fee_per_gas: opt_view(self.max_priority_fee_per_gas),
            status: self.status@,
        }
    }
}

/// The abstract value of a queue.
pub open spec fn queue_view(l: Seq<PendingTxContext>) -> Seq<PendingTxView> {
    l.map_values(|e: PendingTxContext| e@)
}

/// Position of the first entry with hash `h`, or `q.len()` when there is none.
pub open spec fn hash_index(q: Seq<PendingTxView>, h: Seq<char>) -> int
    decreases q.len(),
{
    if q.len() == 0 {
        0
    } else if q[0].tx_hash == h {
        0
    } else {
        1 + hash_index(q.drop_first(), h)
    }
}

/// The last `n` entries of `q` (all of them when there are fewer).
pub open spec fn keep_last<A>(q: Seq<A>, n: nat) -> Seq<A> {
    if q.len() > n {
        q.skip(q.len() - n)
    } else {
        q
    }
}

/// Inserting an entry: it replaces the first entry with its hash, or goes at the
/// end; then only the newest twenty are kept.
pub open spec fn upsert_spec(q: Seq<PendingTxView>, e: PendingTxView) -> Seq<PendingTxView> {
    let i = hash_index(q, e.tx_hash);
    let q1 = if i < q.len() {
        q.update(i, e)
    } else {
        q.push(e)
    };
    keep_last(q1, MAX_PENDING_TXS as nat)
}

/// Setting the status of the first entry with hash `h`; no change when none has it.
pub open spec fn set_status_spec(q: Seq<PendingTxView>, h: Seq<char>, status: Seq<char>) -> Seq<PendingTxView> {
    let i = hash_index(q, h);
    if i < q.len() {
        q.update(i, PendingTxView { status: status, ..q[i] })
    } else {
        q
    }
}

/// Hashes in the queue are pairwise different.
pub open spec fn distinct_hashes(q: Seq<PendingTxView>) -> bool {
    forall|i: int, j: int| 0 <= i < j < q.len() ==> q[i].tx_hash != q[j].tx_hash
}

/// `hash_index` is the first position holding `h`.
pub proof fn lemma_hash_index(q: Seq<PendingTxView>, h: Seq<char>, k: int)
    requires
        0 <= k <= q.len(),
        forall|i: int| 0 <= i < k ==> #[trigger] q[i].tx_hash != h,
        k == q.len() || q[k].tx_hash == h,
    ensures
        hash_index(q, h) == k,
    decreases k,
{
    if k > 0 {
        let t = q.drop_first();
        assert forall|i: int| 0 <= i < k - 1 implies #[trigger] t[i].tx_hash != h by {
            assert(t[i] == q[i + 1]);
        }
        lemma_hash_index(t, h, k - 1);
    }
}

/// `hash_index` lies in `0..=q.len()`, and a position below `q.len()` holds `h`
/// with no earlier one holding it.
pub proof fn lemma_hash_index_bounds(q: Seq<PendingTxView>, h: Seq<char>)
    ensures
        0 <= hash_index(q, h) <= q.len(),
        hash_index(q, h) < q.len() ==> q[hash_index(q, h)].tx_hash == h,
        forall|i: int| 0 <= i < hash_index(q, h) ==> #[trigger] q[i].tx_hash != h,
    decreases q.len(),
{
    if q.len() > 0 && q[0].tx_hash != h {
        let t = q.drop_first();
        lemma_hash_index_bounds(t, h);
        assert forall|i: int| 0 <= i < hash_index(q, h) implies #[trigger] q[i].tx_hash != h by {
            if i > 0 {
                assert(q[i] == t[i - 1]);
            }
        }
    }
}

fn copy_opt_string(s: &Option<String>) -> (r: Option<String>)
    ensures
        r == *s,
{
    match s {
        Some(v) => Some(v.clone()),
        None => None,
    }
}

impl PendingTxContext {
    /// A field-by-field copy.
    pub fn duplicate(&self) -> (r: PendingTxContext)
        ensures
            r@ == self@,
    {
        PendingTxContext {
            tx_hash: self.tx_hash.clone(),
            nonce: self.nonce,
            to: self.to.clone(),
            value_wei: self.value_wei.clone(),
            data: copy_opt_string(&self.data),
            max_fee_per_gas: copy_opt_string(&self.max_fee_per_gas),
            max_priority_fee_per_gas: copy_opt_string(&self.max_priority_fee_per_gas),
            status: self.status.clone(),
        }
    }
}

/// Position of the first entry with the given hash, or `list.len()`.
pub fn find_pending_index(list: &Vec<PendingTxContext>, tx_hash: &str) -> (r: usize)
    ensures
        r as int == hash_index(queue_view(list@), tx_hash@),
        r <= list.len(),
{
    let ghost q = queue_view(list@);
    let mut i: usize = 0;
    while i < list.len()
        invariant
            i <= list.len(),
            q == queue_view(list@),
            forall|j: int| 0 <= j < i ==> #[trigger] q[j].tx_hash != tx_hash@,
        decreases list.len() - i,
    {
        if str_eq(list[i].tx_hash.as_str(), tx_hash) {
            proof {
                lemma_hash_index(q, tx_hash@, i as int);
            }
            return i;
        }
        i += 1;
    }
    proof {
        lemma_hash_index(q, tx_hash@, i as int);
    }
    i
}

/// Records a transaction: it replaces the entry with the same hash or joins the end,
/// and the queue is cut to its newest twenty entries.
pub fn upsert_pending(list: &mut Vec<PendingTxContext>, entry: PendingTxContext)
    ensures
        queue_view(final(list)@) == upsert_spec(queue_view(old(list)@), entry@),
{
    let ghost q = queue_view(list@);
    let ghost e = entry@;
    let i = find_pending_index(list, entry.tx_hash.as_str());
    if i < list.len() {
        list[i] = entry;
        assert(queue_view(list@) =~= q.update(i as int, e));
    } else {
        list.push(entry);
        assert(queue_view(list@) =~= q.push(e));
    }
    if list.len() > MAX_PENDING_TXS {
        let drain = list.len() - MAX_PENDING_TXS;
        let ghost before = list@;
        let kept = list.split_off(drain);
        *list = kept;
        assert(queue_view(list@) =~= queue_view(before).skip(drain as int));
    }
}

/// Sets the status of the entry with the given hash, if there is one.
pub fn set_pending_status(list: &mut Vec<PendingTxContext>, tx_hash: &str, status: &str)
    ensures
        queue_view(final(list)@) == set_status_spec(queue_view(old(list)@), tx_hash@, status@),
{
    let ghost q = queue_view(list@);
    let i = find_pending_index(list, tx_hash);
    if i < list.len() {
        let mut e = list[i].duplicate();
        e.status = to_owned_string(status);
        list[i] = e;
        assert(queue_view(list@) =~= set_status_spec(q, tx_hash@, status@));
    }
}

/// The status shown for a confirmed on-chain lookup.
#[derive(Clone, Copy, Debug, PartialEq, Eq, Structural)]
pub enum TxStatus {
    Pending,
    Confirmed,
    Failed,
}

/// Label of an on-chain status.
pub open spec fn tx_status_label_spec(s: TxStatus) -> Seq<char> {
    match s {
        TxStatus::Pending => "Pending"@,
        TxStatus::Confirmed => "Confirmed"@,
        TxStatus::Failed => "Failed"@,
    }
}

/// Label of an on-chain status, as stored in the queue.
pub fn tx_status_label(status: TxStatus) -> (r: &'static str)
    ensures
        r@ == tx_status_label_spec(status),
{
    match status {
        TxStatus::Pending => "Pending",
        TxStatus::Confirmed => "Confirmed",
        TxStatus::Failed => "Failed",
    }
}

/// Which entries the queue panel lists.
#[derive(Clone, Copy, Debug, PartialEq, Eq, Structural)]
pub enum QueueFilter {
    All,
    Pending,
    Confirmed,
    Failed,
    Replaced,
}

/// An entry with status `status` passes the filter.
pub open spec fn filter_accepts(f: QueueFilter, status: Seq<char>) -> bool {
    match f {
        QueueFilter::All => true,
        QueueFilter::Pending => status == "Pending"@,
        QueueFilter::Confirmed => status == "Confirmed"@,
        QueueFilter::Failed => status == "Failed"@,
        QueueFilter::Replaced => status == "Replaced"@,
    }
}

/// The entries that pass the filter, in queue order.
pub open spec fn filtered_spec(q: Seq<PendingTxView>, f: QueueFilter) -> Seq<PendingTxView>
    decreases q.len(),
{
    if q.len() == 0 {
        Seq::empty()
    } else {
        let r = filtered_spec(q.drop_last(), f);
        if filter_accepts(f, q.last().status) {
            r.push(q.last())
        } else {
            r
        }
    }
}

fn status_passes(f: QueueFilter, status: &str) -> (r: bool)
    ensures
        r == filter_accepts(f, status@),
{
    match f {
        QueueFilter::All => true,
        QueueFilter::Pending => str_eq(status, "Pending"),
        QueueFilter::Confirmed => str_eq(status, "Confirmed"),
        QueueFilter::Failed => str_eq(status, "Failed"),
        QueueFilter::Replaced => str_eq(status, "Replaced"),
    }
}

/// The queue entries listed under a filter.
pub fn filtered_pending_txs(list: &Vec<PendingTxContext>, f: QueueFilter) -> (r: Vec<PendingTxContext>)
    ensures
        queue_view(r@) == filtered_spec(queue_view(list@), f),
{
    let ghost q = queue_view(list@);
    let mut r: Vec<PendingTxContext> = Vec::new();
    let mut i: usize = 0;
    while i < list.len()
        invariant
            i <= list.len(),
            q == queue_view(list@),
            queue_view(r@) == filtered_spec(q.take(i as int), f),
        decreases list.len() - i,
    {
        assert(q.take(i + 1).drop_last() =~= q.take(i as int));
        if status_passes(f, list[i].status.as_str()) {
            let ghost before = r@;
            r.push(list[i].duplicate());
            assert(queue_view(r@) =~= queue_view(before).push(q[i as int]));
        }
        i += 1;
    }
    assert(q.take(list.len() as int) =~= q);
    r
}

/// Hashes of the `Pending` entries, in queue order: what the status poller refreshes.
pub open spec fn pending_hashes_spec(q: Seq<PendingTxView>) -> Seq<Seq<char>>
    decreases q.len(),
{
    if q.len() == 0 {
        Seq::empty()
    } else {
        let r = pending_hashes_spec(q.drop_last());
        if q.last().status == "Pending"@ {
            r.push(q.last().tx_hash)
        } else {
            r
        }
    }
}

/// The hashes the status poller asks about on each tick.
pub fn pending_hashes_to_refresh(list: &Vec<PendingTxContext>) -> (r: Vec<String>)
    ensures
        r@.map_values(|s: String| s@) == pending_hashes_spec(queue_view(list@)),
{
    let ghost q = queue_view(list@);
    let mut r: Vec<String> = Vec::new();
    let mut i: usize = 0;
    while i < list.len()
        invariant
            i <= list.len(),
            q == queue_view(list@),
            r@.map_values(|s: String| s@) == pending_hashes_spec(q.take(i as int)),
        decreases list.len() - i,
    {
        assert(q.take(i + 1).drop_last() =~= q.take(i as int));
        if str_eq(list[i].status.as_str(), "Pending") {
            let ghost before = r@;
            r.push(list[i].tx_hash.clone());
            assert(r@.map_values(|s: String| s@) =~= before.map_values(|s: String| s@).push(
                q[i as int].tx_hash,
            ));
        }
        i += 1;
    }
    assert(q.take(list.len() as int) =~= q);
    r
}

/// Chip colors of a queue status.
pub open spec fn status_chip_style_spec(status: Seq<char>) -> Seq<char> {
    if status == "Pending"@ {
        "background: rgba(245,158,11,0.15); color: #f59e0b;"@
    } else if status == "Refreshing"@ {
        "background: rgba(59,130,246,0.15); color: #3b82f6;"@
    } else if status == "Confirmed"@ {
        "background: rgba(34,197,94,0.15); color: #22c55e;"@
    } else if status == "Failed"@ {
        "background: rgba(239,68,68,0.15); color: #ef4444;"@
    } else {
        "background: rgba(148,163,184,0.15); color: #94a3b8;"@
    }
}

/// Chip colors of a queue status; `Replaced` and unknown ones are grey.
pub fn status_chip_style(status: &str) -> (r: &'static str)
    ensures
        r@ == status_chip_style_spec(status@),
{
    if str_eq(status, "Pending") {
        "background: rgba(245,158,11,0.15); color: #f59e0b;"
    } else if str_eq(status, "Refreshing") {
        "background: rgba(59,130,246,0.15); color: #3b82f6;"
    } else if str_eq(status, "Confirmed") {
        "background: rgba(34,197,94,0.15); color: #22c55e;"
    } else if str_eq(status, "Failed") {
        "background: rgba(239,68,68,0.15); color: #ef4444;"
    } else {
        "background: rgba(148,163,184,0.15); color: #94a3b8;"
    }
}

/// Why speed-up and cancel are disabled for an entry; empty when they are enabled.
pub open spec fn disabled_reason_spec(status: Seq<char>, busy: bool) -> Seq<char> {
    if busy {
        "Another transaction action is in progress."@
    } else if status != "Pending"@ {
        "Only pending transactions can be sped up or canceled."@
    } else {
        ""@
    }
}

/// Why speed-up and cancel are disabled for an entry; empty when they are enabled.
pub fn speedup_cancel_disabled_reason(status: &str, busy: bool) -> (r: &'static str)
    ensures
        r@ == disabled_reason_spec(status@, busy),
{
    if busy {
        "Another transaction action is in progress."
    } else if !str_eq(status, "Pending") {
        "Only pending transactions can be sped up or canceled."
    } else {
        ""
    }
}

/// A replacement resends the pending transaction with higher fees (speed-up), or
/// sends nothing to oneself at the same nonce (cancel).
#[derive(Clone, Copy, Debug, PartialEq, Eq, Structural)]
pub enum ReplaceMode {
    SpeedUp,
    Cancel,
}

/// `(to, value in wei, calldata)` of a replacement.
pub open spec fn replacement_target_spec(mode: ReplaceMode, p: PendingTxView, from: Seq<char>) -> (
    Seq<char>,
    Seq<char>,
    Option<Seq<char>>,
) {
    match mode {
        ReplaceMode::SpeedUp => (p.to, p.value_wei, p.data),
        ReplaceMode::Cancel => (from, "0"@, None),
    }
}

/// Recipient, amount and calldata of a replacement for `pending`, sent from `from_addr`.
pub fn replacement_target(mode: ReplaceMode, pending: &PendingTxContext, from_addr: &str) -> (r: (
    String,
    String,
    Option<String>,
))
    ensures
        (r.0@, r.1@, opt_view(r.2)) == replacement_target_spec(mode, pending@, from_addr@),
{
    match mode {
        ReplaceMode::SpeedUp => (pending.to.clone(), pending.value_wei.clone(), copy_opt_string(&pending.data)),
        ReplaceMode::Cancel => (to_owned_string(from_addr), to_owned_string("0"), None),
    }
}

/// The queue entry a replacement starts from: the first with the hash, else an error.
pub fn find_pending_for_replace(list: &Vec<PendingTxContext>, tx_hash: &str) -> (r: Result<
    PendingTxContext,
    WalletError,
>)
    ensures
        ({
            let q = queue_view(list@);
            let i = hash_index(q, tx_hash@);
            &&& i < q.len() ==> (r matches Ok(p) && p@ == q[i])
            &&& i == q.len() ==> (r matches Err(e) && e@ == WalletErrorView::InvalidTransaction(
                "No pending transaction to replace"@,
            ))
        }),
{
    let i = find_pending_index(list, tx_hash);
    if i < list.len() {
        Ok(list[i].duplicate())
    } else {
        Err(WalletError::InvalidTransaction(to_owned_string("No pending transaction to replace")))
    }
}

/// A fresh queue entry for a transaction just sent: its status is `Pending`.
pub fn new_pending_entry(
    tx_hash: String,
    nonce: u64,
    to: String,
    value_wei: String,
    data: Option<String>,
    max_fee_per_gas: Option<String>,
    max_priority_fee_per_gas: Option<String>,
) -> (r: PendingTxContext)
    ensures
        r@ == (PendingTxView {
            tx_hash: tx_hash@,
            nonce: nonce,
            to: to@,
            value_wei: value_wei@,
            data: opt_view(data),
            max_fee_per_gas: opt_view(max_fee_per_gas),
            max_priority_fee_per_gas: opt_view(max_priority_fee_per_gas),
            status: "Pending"@,
        }),
{
    PendingTxContext {
        tx_hash,
        nonce,
        to,
        value_wei,
        data,
        max_fee_per_gas,
        max_priority_fee_per_gas,
        status: to_owned_string("Pending"),
    }
}

/// After a replacement went out: the replaced entry is marked `Replaced` and the new
/// transaction is recorded.
pub fn record_replacement(list: &mut Vec<PendingTxContext>, old_hash: &str, entry: PendingTxContext)
    ensures
        queue_view(final(list)@) == upsert_spec(
            set_status_spec(queue_view(old(list)@), old_hash@, "Replaced"@),
            entry@,
        ),
{
    proof {
        reveal_strlit("Replaced");
    }
    set_pending_status(list, old_hash, "Replaced");
    upsert_pending(list, entry);
}

/// A speed-up or cancel as it goes out: the recipient, amount and calldata of
/// [`replacement_target`], the pending entry's own nonce, and the bumped fees.
pub struct ReplacementTx {
    pub to: String,
    pub value_wei: String,
    pub data: Option<String>,
    pub nonce: u64,
    pub max_fee_per_gas: String,
    pub max_priority_fee_per_gas: String,
}

/// The abstract value of a replacement.
pub struct ReplacementTxView {
    pub to: Seq<char>,
    pub value_wei: Seq<char>,
    pub data: Option<Seq<char>>,
    pub nonce: u64,
    pub max_fee_per_gas: Seq<char>,
    pub max_priority_fee_per_gas: Seq<char>,
}

impl View for ReplacementTx {
    type V = ReplacementTxView;

    open spec fn view(&self) -> ReplacementTxView {
        ReplacementTxView {
            to: self.to@,
            value_wei: self.value_wei@,
            data: opt_view(self.data),
            nonce: self.nonce,
            max_fee_per_gas: self.max_fee_per_gas@,
            max_priority_fee_per_gas: self.max_priority_fee_per_gas@,
        }
    }
}

/// The replacement of pending transaction `p`, sent from `from`, given the fee
/// estimate `(est_max_fee, est_priority_fee)` made for it. It reuses `p`'s nonce,
/// so that it takes the place of `p` on chain.
pub open spec fn replacement_plan_spec(
    mode: ReplaceMode,
    p: PendingTxView,
    from: Seq<char>,
    est_max_fee: Option<Seq<char>>,
    est_priority_fee: Option<Seq<char>>,
) -> Result<ReplacementTxView, WalletErrorView> {
    match replacement_fees_spec(p.max_fee_per_gas, est_max_fee, p.max_priority_fee_per_gas, est_priority_fee) {
        Err(e) => Err(e),
        Ok((m, q)) => {
            let (to, value_wei, data) = replacement_target_spec(mode, p, from);
            Ok(
                ReplacementTxView {
                    to,
                    value_wei,
                    data,
                    nonce: p.nonce,
                    max_fee_per_gas: m,
                    max_priority_fee_per_gas: q,
                },
            )
        },
    }
}

/// Builds the speed-up or cancel of `pending`: same nonce, target per `mode`, fees
/// from the pending entry (else the estimate), bumped.
pub fn replacement_plan(
    mode: ReplaceMode,
    pending: &PendingTxContext,
    from_addr: &str,
    est_max_fee: Option<String>,
    est_priority_fee: Option<String>,
) -> (r: Result<ReplacementTx, WalletError>)
    ensures
        match r {
            Ok(t) => replacement_plan_spec(mode, pending@, from_addr@, opt_view(est_max_fee), opt_view(est_priority_fee))
                == Ok::<ReplacementTxView, WalletErrorView>(t@),
            Err(e) => replacement_plan_spec(mode, pending@, from_addr@, opt_view(est_max_fee), opt_view(est_priority_fee))
                == Err::<ReplacementTxView, WalletErrorView>(e@),
        },
{
    let fees = replacement_fees(
        copy_opt_string(&pending.max_fee_per_gas),
        est_max_fee,
        copy_opt_string(&pending.max_priority_fee_per_gas),
        est_priority_fee,
    );
    match fees {
        Err(e) => Err(e),
        Ok((m, q)) => {
            let (to, value_wei, data) = replacement_target(mode, pending, from_addr);
            Ok(ReplacementTx { to, value_wei, data, nonce: pending.nonce, max_fee_per_gas: m, max_priority_fee_per_gas: q })
        },
    }
}

/// The queue entry recorded for replacement `t` once it went out with hash `hash`.
pub open spec fn replacement_entry_spec(t: ReplacementTxView, hash: Seq<char>) -> PendingTxView {
    PendingTxView {
        tx_hash: hash,
        nonce: t.nonce,
        to: t.to,
        value_wei: t.value_wei,
        data: t.data,
        max_fee_per_gas: Some(t.max_fee_per_gas),
        max_priority_fee_per_gas: Some(t.max_priority_fee_per_gas),
        status: "Pending"@,
    }
}

/// What the Send view shows of its commands: the transaction queue, the last
/// transaction sent, the last error, and whether a command is running.
pub struct SendRuntime {
    pub pending_txs: Vec<PendingTxContext>,
    pub last_tx: Option<String>,
    pub last_error: Option<String>,
    pub busy: bool,
}

impl SendRuntime {
    /// The queue is within its bound and lists each hash once.
    pub open spec fn wf(&self) -> bool {
        &&& self.pending_txs@.len() <= MAX_PENDING_TXS
        &&& distinct_hashes(queue_view(self.pending_txs@))
    }

    /// Nothing sent yet, no error, idle.
    pub fn new() -> (r: SendRuntime)
        ensures
            r.wf(),
            r.pending_txs@.len() == 0,
            r.last_tx is None,
            r.last_error is None,
            !r.busy,
    {
        SendRuntime { pending_txs: Vec::new(), last_tx: None, last_error: None, busy: false }
    }

    /// A command starts: the view is busy until it ends.
    pub fn begin_command(&mut self)
        ensures
            final(self).busy,
            final(self).pending_txs@ == old(self).pending_txs@,
            final(self).last_tx == old(self).last_tx,
            final(self).last_error == old(self).last_error,
    {
        self.busy = true;
    }

    /// A command failed: its message is shown and the view is idle again.
    pub fn command_failed(&mut self, message: String)
        ensures
            final(self).last_error == Some(message),
            !final(self).busy,
            final(self).pending_txs@ == old(self).pending_txs@,
            final(self).last_tx == old(self).last_tx,
    {
        self.last_error = Some(message);
        self.busy = false;
    }

    /// A command ended without changing what is shown (an estimate).
    pub fn command_done(&mut self)
        ensures
            !final(self).busy,
            final(self).pending_txs@ == old(self).pending_txs@,
            final(self).last_tx == old(self).last_tx,
            final(self).last_error == old(self).last_error,
    {
        self.busy = false;
    }

    /// A new transaction went out: it is the last one sent and joins the queue.
    pub fn finish_send(&mut self, entry: PendingTxContext)
        requires
            old(self).wf(),
        ensures
            final(self).wf(),
            queue_view(final(self).pending_txs@) == upsert_spec(queue_view(old(self).pending_txs@), entry@),
            final(self).last_tx == Some(entry.tx_hash),
            final(self).last_error == old(self).last_error,
            !final(self).busy,
    {
        proof {
            law_upsert_bounded(queue_view(self.pending_txs@), entry@);
            law_upsert_keeps_hashes_distinct(queue_view(self.pending_txs@), entry@);
        }
        self.last_tx = Some(entry.tx_hash.clone());
        upsert_pending(&mut self.pending_txs, entry);
        self.busy = false;
    }

    /// A status refresh of `tx_hash` starts: its entry shows `Refreshing`.
    pub fn mark_refreshing(&mut self, tx_hash: &str)
        requires
            old(self).wf(),
        ensures
            final(self).wf(),
            queue_view(final(self).pending_txs@) == set_status_spec(
                queue_view(old(self).pending_txs@),
                tx_hash@,
                "Refreshing"@,
            ),
            final(self).last_tx == old(self).last_tx,
            final(self).last_error == old(self).last_error,
            final(self).busy == old(self).busy,
    {
        proof {
            reveal_strlit("Refreshing");
            lemma_set_status_keeps_wf(queue_view(self.pending_txs@), tx_hash@, "Refreshing"@);
        }
        set_pending_status(&mut self.pending_txs, tx_hash, "Refreshing");
    }

    /// The on-chain status of `tx_hash` came back: its entry shows its label.
    pub fn complete_refresh(&mut self, tx_hash: &str, status: TxStatus)
        requires
            old(self).wf(),
        ensures
            final(self).wf(),
            queue_view(final(self).pending_txs@) == set_status_spec(
                queue_view(old(self).pending_txs@),
                tx_hash@,
                tx_status_label_spec(status),
            ),
            final(self).last_tx == old(self).last_tx,
            final(self).last_error == old(self).last_error,
            !final(self).busy,
    {
        let label = tx_status_label(status);
        proof {
            lemma_set_status_keeps_wf(queue_view(self.pending_txs@), tx_hash@, label@);
        }
        set_pending_status(&mut self.pending_txs, tx_hash, label);
        self.busy = false;
    }

    /// Replacement `tx` of the entry `old_hash` went out with hash `new_hash`: it
    /// is the last transaction sent, the old entry shows `Replaced`, and the new one
    /// is recorded as `Pending` with the replacement's nonce and fees.
    pub fn finish_replacement(&mut self, old_hash: &str, new_hash: String, tx: ReplacementTx)
        requires
            old(self).wf(),
        ensures
            final(self).wf(),
            queue_view(final(self).pending_txs@) == upsert_spec(
                set_status_spec(queue_view(old(self).pending_txs@), old_hash@, "Replaced"@),
                replacement_entry_spec(tx@, new_hash@),
            ),
            final(self).last_tx == Some(new_hash),
            final(self).last_error == old(self).last_error,
            !final(self).busy,
    {
        let ghost e = replacement_entry_spec(tx@, new_hash@);
        proof {
            reveal_strlit("Replaced");
            let s = set_status_spec(queue_view(self.pending_txs@), old_hash@, "Replaced"@);
            lemma_set_status_keeps_wf(queue_view(self.pending_txs@), old_hash@, "Replaced"@);
            law_upsert_bounded(s, e);
            law_upsert_keeps_hashes_distinct(s, e);
        }
        self.last_tx = Some(new_hash.clone());
        let entry = new_pending_entry(
            new_hash,
            tx.nonce,
            tx.to,
            tx.value_wei,
            tx.data,
            Some(tx.max_fee_per_gas),
            Some(tx.max_priority_fee_per_gas),
        );
        assert(entry@ == e);
        record_replacement(&mut self.pending_txs, old_hash, entry);
        self.busy = false;
    }
}

proof fn lemma_set_status_keeps_wf(q: Seq<PendingTxView>, h: Seq<char>, status: Seq<char>)
    requires
        distinct_hashes(q),
    ensures
        distinct_hashes(set_status_spec(q, h, status)),
        set_status_spec(q, h, status).len() == q.len(),
{
    law_set_status_keeps_hashes(q, h, status);
    let r = set_status_spec(q, h, status);
    assert forall|i: int, j: int| 0 <= i < j < r.len() implies r[i].tx_hash != r[j].tx_hash by {
        assert(r[i].tx_hash == q[i].tx_hash);
        assert(r[j].tx_hash == q[j].tx_hash);
    }
}

// ---------------------------------------------------------------------------
// Laws of the queue
// ---------------------------------------------------------------------------

/// However long the queue was, after recording a transaction it holds at most
/// twenty entries.
pub proof fn law_upsert_bounded(q: Seq<PendingTxView>, e: PendingTxView)
    ensures
        upsert_spec(q, e).len() <= MAX_PENDING_TXS,
{
}

/// Looking up a recorded transaction by its hash finds exactly what was recorded,
/// on any queue within its bound.
pub proof fn law_upsert_then_lookup(q: Seq<PendingTxView>, e: PendingTxView)
    requires
        q.len() <= MAX_PENDING_TXS,
    ensures
        ({
            let r = upsert_spec(q, e);
            &&& hash_index(r, e.tx_hash) < r.len()
            &&& r[hash_index(r, e.tx_hash)] == e
        }),
{
    let h = e.tx_hash;
    lemma_hash_index_bounds(q, h);
    let i = hash_index(q, h);
    let r = upsert_spec(q, e);
    if i < q.len() {
        let q1 = q.update(i, e);
        assert(r == q1);
        assert forall|j: int| 0 <= j < i implies #[trigger] q1[j].tx_hash != h by {
            assert(q1[j] == q[j]);
        }
        lemma_hash_index(q1, h, i);
    } else {
        let q1 = q.push(e);
        if q1.len() > MAX_PENDING_TXS {
            let k = q1.len() - MAX_PENDING_TXS;
            assert(k == 1);
            assert(r == q1.skip(1));
            assert forall|j: int| 0 <= j < r.len() - 1 implies #[trigger] r[j].tx_hash != h by {
                assert(r[j] == q[j + 1]);
            }
            lemma_hash_index(r, h, r.len() - 1);
        } else {
            assert(r == q1);
            assert forall|j: int| 0 <= j < q.len() implies #[trigger] q1[j].tx_hash != h by {
                assert(q1[j] == q[j]);
            }
            lemma_hash_index(q1, h, q.len() as int);
        }
    }
}

/// Recording a transaction keeps one entry per hash.
pub proof fn law_upsert_keeps_hashes_distinct(q: Seq<PendingTxView>, e: PendingTxView)
    requires
        distinct_hashes(q),
    ensures
        distinct_hashes(upsert_spec(q, e)),
{
    let h = e.tx_hash;
    lemma_hash_index_bounds(q, h);
    let i = hash_index(q, h);
    let q1 = if i < q.len() {
        q.update(i, e)
    } else {
        q.push(e)
    };
    assert(distinct_hashes(q1)) by {
        assert forall|a: int, b: int| 0 <= a < b < q1.len() implies q1[a].tx_hash != q1[b].tx_hash by {
            if i < q.len() {
                assert(q1[a].tx_hash == q[a].tx_hash);
                assert(q1[b].tx_hash == q[b].tx_hash);
            } else if b == q.len() {
                assert(q1[a] == q[a]);
            } else {
                assert(q1[a] == q[a]);
                assert(q1[b] == q[b]);
            }
        }
    }
    let r = upsert_spec(q, e);
    if q1.len() > MAX_PENDING_TXS {
        let k = q1.len() - MAX_PENDING_TXS;
        assert(r == q1.skip(k));
        assert forall|a: int, b: int| 0 <= a < b < r.len() implies r[a].tx_hash != r[b].tx_hash by {
            assert(r[a] == q1[a + k]);
            assert(r[b] == q1[b + k]);
        }
    }
}

/// Setting a status changes nothing but the status of the first entry with the hash:
/// the hashes, in order, stay as they were.
pub proof fn law_set_status_keeps_hashes(q: Seq<PendingTxView>, h: Seq<char>, status: Seq<char>)
    ensures
        set_status_spec(q, h, status).len() == q.len(),
        forall|k: int|
            0 <= k < q.len() ==> (#[trigger] set_status_spec(q, h, status)[k]).tx_hash == q[k].tx_hash,
{
    lemma_hash_index_bounds(q, h);
}

/// Setting a status and then looking the hash up finds that status, at the same
/// position.
pub proof fn law_set_status_then_lookup(q: Seq<PendingTxView>, h: Seq<char>, status: Seq<char>)
    requires
        hash_index(q, h) < q.len(),
    ensures
        hash_index(set_status_spec(q, h, status), h) == hash_index(q, h),
        set_status_spec(q, h, status)[hash_index(q, h)].status == status,
{
    lemma_hash_index_bounds(q, h);
    let i = hash_index(q, h);
    let r = set_status_spec(q, h, status);
    assert forall|j: int| 0 <= j < i implies #[trigger] r[j].tx_hash != h by {
        assert(r[j] == q[j]);
    }
    lemma_hash_index(r, h, i);
}

/// After a replacement of a transaction by one with another hash, on a queue with
/// one entry per hash, the replaced transaction (if still listed) is `Replaced` and
/// the replacement is found by its hash.
pub proof fn law_replacement_marks_replaced(q: Seq<PendingTxView>, old_hash: Seq<char>, e: PendingTxView)
    requires
        distinct_hashes(q),
        q.len() <= MAX_PENDING_TXS,
        hash_index(q, old_hash) < q.len(),
        e.tx_hash != old_hash,
    ensures
        ({
            let r = upsert_spec(set_status_spec(q, old_hash, "Replaced"@), e);
            &&& forall|k: int| 0 <= k < r.len() && (#[trigger] r[k]).tx_hash == old_hash ==> r[k].status == "Replaced"@
            &&& hash_index(r, e.tx_hash) < r.len()
            &&& r[hash_index(r, e.tx_hash)] == e
        }),
{
    let s = set_status_spec(q, old_hash, "Replaced"@);
    lemma_hash_index_bounds(q, old_hash);
    law_set_status_keeps_hashes(q, old_hash, "Replaced"@);
    let i = hash_index(q, old_hash);
    assert forall|k: int| 0 <= k < s.len() && (#[trigger] s[k]).tx_hash == old_hash implies s[k].status == "Replaced"@ by {
        if k != i {
            assert(s[k].tx_hash == q[k].tx_hash);
            assert(q[i].tx_hash == old_hash);
        }
    }
    law_upsert_then_lookup(s, e);
    let h = e.tx_hash;
    lemma_hash_index_bounds(s, h);
    let j = hash_index(s, h);
    let s1 = if j < s.len() {
        s.update(j, e)
    } else {
        s.push(e)
    };
    assert forall|k: int| 0 <= k < s1.len() && (#[trigger] s1[k]).tx_hash == old_hash implies s1[k].status == "Replaced"@ by {
        if k < s.len() && k != j {
            assert(s1[k] == s[k]);
        }
    }
    let r = upsert_spec(s, e);
    if s1.len() > MAX_PENDING_TXS {
        let d = s1.len() - MAX_PENDING_TXS;
        assert(r == s1.skip(d));
        assert forall|k: int| 0 <= k < r.len() && (#[trigger] r[k]).tx_hash == old_hash implies r[k].status == "Replaced"@ by {
            assert(r[k] == s1[k + d]);
        }
    } else {
        assert(r == s1);
    }
}

/// A speed-up or cancel takes the place of the pending transaction it replaces:
/// it goes out with that transaction's nonce, and once recorded (on a queue with
/// one entry per hash) the old entry shows `Replaced` while the new one, found by
/// its hash, is `Pending` with the same nonce.
pub proof fn law_replacement_reuses_nonce(
    q: Seq<PendingTxView>,
    old_hash: Seq<char>,
    mode: ReplaceMode,
    from: Seq<char>,
    est_max_fee: Option<Seq<char>>,
    est_priority_fee: Option<Seq<char>>,
    new_hash: Seq<char>,
)
    requires
        distinct_hashes(q),
        q.len() <= MAX_PENDING_TXS,
        hash_index(q, old_hash) < q.len(),
        new_hash != old_hash,
        replacement_plan_spec(mode, q[hash_index(q, old_hash)], from, est_max_fee, est_priority_fee) is Ok,
    ensures
        ({
            let p = q[hash_index(q, old_hash)];
            let t = replacement_plan_spec(mode, p, from, est_max_fee, est_priority_fee)->Ok_0;
            let r = upsert_spec(set_status_spec(q, old_hash, "Replaced"@), replacement_entry_spec(t, new_hash));
            &&& t.nonce == p.nonce
            &&& hash_index(r, new_hash) < r.len()
            &&& r[hash_index(r, new_hash)].nonce == p.nonce
            &&& r[hash_index(r, new_hash)].status == "Pending"@
            &&& forall|k: int| 0 <= k < r.len() && (#[trigger] r[k]).tx_hash == old_hash ==> r[k].status == "Replaced"@
        }),
{
    let p = q[hash_index(q, old_hash)];
    let t = replacement_plan_spec(mode, p, from, est_max_fee, est_priority_fee)->Ok_0;
    law_replacement_marks_replaced(q, old_hash, replacement_entry_spec(t, new_hash));
}

/// `s` without its trailing `c` characters (`str::trim_end_matches` with a char).
pub open spec fn trim_end_char(s: Seq<char>, c: char) -> Seq<char>
    decreases s.len(),
{
    if s.len() > 0 && s.last() == c {
        trim_end_char(s.drop_last(), c)
    } else {
        s
    }
}

/// Block-explorer page of a transaction: the network's explorer URL without trailing
/// slashes, then `/tx/` and the hash; none when the network has no explorer.
pub open spec fn explorer_tx_url_spec(explorer_url: Option<Seq<char>>, tx_hash: Seq<char>) -> Option<Seq<char>> {
    match explorer_url {
        None => None,
        Some(base) => Some(trim_end_char(base, '/') + "/tx/"@ + tx_hash),
    }
}

/// Block-explorer page of a transaction on the network whose explorer URL is given.
pub fn explorer_tx_url(explorer_url: Option<String>, tx_hash: &str) -> (r: Option<String>)
    ensures
        opt_view(r) == explorer_tx_url_spec(opt_view(explorer_url), tx_hash@),
{
    let base = match explorer_url {
        None => {
            return None;
        },
        Some(b) => b,
    };
    let v = chars_of(base.as_str());
    let mut end: usize = v.len();
    assert(v@.take(end as int) =~= v@);
    while end > 0 && v[end - 1] == '/'
        invariant
            end <= v.len(),
            trim_end_char(v@, '/') == trim_end_char(v@.take(end as int), '/'),
        decreases end,
    {
        assert(v@.take(end as int).drop_last() =~= v@.take(end - 1));
        end -= 1;
    }
    let mut out = String::new();
    push_chars_range(&mut out, &v, 0, end);
    assert(v@.subrange(0, end as int) =~= v@.take(end as int));
    push_str(&mut out, "/tx/");
    push_str(&mut out, tx_hash);
    Some(out)
}

/// The fee fields and nonce a send goes out with: the user's overrides where given,
/// else the estimate's fees and the account's next nonce.
pub fn resolve_send_overrides(
    user_max_fee: Option<String>,
    estimated_max_fee: Option<String>,
    user_priority_fee: Option<String>,
    estimated_priority_fee: Option<String>,
    user_nonce: Option<u64>,
    account_nonce: u64,
) -> (r: (Option<String>, Option<String>, u64))
    ensures
        r.0 == (if user_max_fee is Some { user_max_fee } else { estimated_max_fee }),
        r.1 == (if user_priority_fee is Some { user_priority_fee } else { estimated_priority_fee }),
        r.2 == (match user_nonce {
            Some(n) => n,
            None => account_nonce,
        }),
{
    let max_fee = match user_max_fee {
        Some(f) => Some(f),
        None => estimated_max_fee,
    };
    let priority_fee = match user_priority_fee {
        Some(f) => Some(f),
        None => estimated_priority_fee,
    };
    let nonce = match user_nonce {
        Some(n) => n,
        None => account_nonce,
    };
    (max_fee, priority_fee, nonce)
}

/// The queue filtered by a status label: the entries whose status is that label, in
/// queue order.
pub open spec fn with_status(q: Seq<PendingTxView>, label: Seq<char>) -> Seq<PendingTxView> {
    q.filter(|e: PendingTxView| e.status == label)
}

proof fn lemma_filtered_is_status_filter(q: Seq<PendingTxView>, f: QueueFilter, label: Seq<char>)
    requires
        forall|s: Seq<char>| #[trigger] filter_accepts(f, s) == (s == label),
    ensures
        filtered_spec(q, f) == with_status(q, label),
    decreases q.len(),
{
    let keep = |e: PendingTxView| e.status == label;
    if q.len() == 0 {
        q.filter_lemma(keep);
        assert(q.filter(keep) =~= Seq::<PendingTxView>::empty());
    } else {
        let init = q.drop_last();
        lemma_filtered_is_status_filter(init, f, label);
        assert(q == init.push(q.last()));
        init.lemma_filter_push(q.last(), keep);
        assert(filter_accepts(f, q.last().status) == (q.last().status == label));
    }
}

/// Each status filter lists exactly the entries with that status, in queue order,
/// and "All" lists the whole queue.
pub proof fn law_filter_lists_exactly_its_status(q: Seq<PendingTxView>)
    ensures
        filtered_spec(q, QueueFilter::All) == q,
        filtered_spec(q, QueueFilter::Pending) == with_status(q, "Pending"@),
        filtered_spec(q, QueueFilter::Confirmed) == with_status(q, "Confirmed"@),
        filtered_spec(q, QueueFilter::Failed) == with_status(q, "Failed"@),
        filtered_spec(q, QueueFilter::Replaced) == with_status(q, "Replaced"@),
    decreases q.len(),
{
    lemma_filtered_is_status_filter(q, QueueFilter::Pending, "Pending"@);
    lemma_filtered_is_status_filter(q, QueueFilter::Confirmed, "Confirmed"@);
    lemma_filtered_is_status_filter(q, QueueFilter::Failed, "Failed"@);
    lemma_filtered_is_status_filter(q, QueueFilter::Replaced, "Replaced"@);
    if q.len() > 0 {
        law_filter_lists_exactly_its_status(q.drop_last());
        assert(q == q.drop_last().push(q.last()));
    }
}

} // verus!
