//! Transaction history: search over the fetched records, their amount labels, the
//! merge of native and token transfers newest first, and the status polling of
//! pending entries.

use vstd::prelude::*;
use crate::amounts::{format_decimal_amount, format_decimal_amount_spec};
use crate::pending::TxStatus;
use crate::text::{chars_contain, chars_of, contains_seq, lower_chars, lower_seq, push_str};

verus! {

broadcast use vstd::string::group_string_axioms;

/// A transaction of the account's history, native or token transfer.
#[derive(Clone, Debug, PartialEq, Eq)]
pub struct TxRecord {
    pub hash: String,
    pub from: String,
    pub to: String,
    pub value: String,
    pub timestamp: u64,
    pub status: TxStatus,
    pub is_token_transfer: bool,
    pub token_symbol: Option<String>,
    pub token_address: Option<String>,
    pub token_decimals: Option<u8>,
}

fn copy_opt_string(s: &Option<String>) -> (r: Option<String>)
    ensures
        r == *s,
{
    match s {
        Some(v) => Some(v.clone()),
        None => None,
    }
}

impl TxRecord {
    /// A field-by-field copy.
    pub fn duplicate(&self) -> (r: TxRecord)
        ensures
            r == *self,
    {
        TxRecord {
            hash: self.hash.clone(),
            from: self.from.clone(),
            to: self.to.clone(),
            value: self.value.clone(),
            timestamp: self.timestamp,
            status: self.status,
            is_token_transfer: self.is_token_transfer,
            token_symbol: copy_opt_string(&self.token_symbol),
            token_address: copy_opt_string(&self.token_address),
            token_decimals: self.token_decimals,
        }
    }
}

/// The text of an optional field, empty when absent.
pub open spec fn text_or_empty(s: Option<String>) -> Seq<char> {
    match s {
        Some(v) => v@,
        None => Seq::empty(),
    }
}

/// `field` contains `q` ignoring ASCII case.
pub open spec fn field_matches(field: Seq<char>, q: Seq<char>) -> bool {
    contains_seq(lower_seq(field), lower_seq(q))
}

/// The search box keeps a record when the query is empty or occurs, ignoring ASCII
/// case, in its hash, sender, recipient, value, token symbol or token address.
pub open spec fn matches_query_spec(tx: TxRecord, q: Seq<char>) -> bool {
    q.len() == 0 || field_matches(tx.hash@, q) || field_matches(tx.from@, q) || field_matches(tx.to@, q)
        || field_matches(tx.value@, q) || field_matches(text_or_empty(tx.token_symbol), q)
        || field_matches(text_or_empty(tx.token_address), q)
}

fn field_contains(field: &str, lq: &Vec<char>, Ghost(q): Ghost<Seq<char>>) -> (r: bool)
    requires
        lq@ == lower_seq(q),
    ensures
        r == field_matches(field@, q),
{
    let lf = lower_chars(&chars_of(field));
    chars_contain(&lf, lq)
}

fn opt_field_contains(field: &Option<String>, lq: &Vec<char>, Ghost(q): Ghost<Seq<char>>) -> (r: bool)
    requires
        lq@ == lower_seq(q),
    ensures
        r == field_matches(text_or_empty(*field), q),
{
    match field {
        Some(f) => {
            field_contains(f.as_str(), lq, Ghost(q))
        },
        None => {
            proof {
                reveal_strlit("");
                assert(""@ =~= Seq::<char>::empty());
            }
            field_contains("", lq, Ghost(q))
        },
    }
}

/// Whether a record matches the history search query.
pub fn matches_query(tx: &TxRecord, q: &str) -> (r: bool)
    ensures
        r == matches_query_spec(*tx, q@),
{
    let qv = chars_of(q);
    if qv.len() == 0 {
        return true;
    }
    let lq = lower_chars(&qv);
    field_contains(tx.hash.as_str(), &lq, Ghost(q@)) || field_contains(tx.from.as_str(), &lq, Ghost(q@))
        || field_contains(tx.to.as_str(), &lq, Ghost(q@)) || field_contains(
        tx.value.as_str(),
        &lq,
        Ghost(q@),
    ) || opt_field_contains(&tx.token_symbol, &lq, Ghost(q@)) || opt_field_contains(
        &tx.token_address,
        &lq,
        Ghost(q@),
    )
}

/// The records the search keeps, in order.
pub open spec fn search_spec(items: Seq<TxRecord>, q: Seq<char>) -> Seq<TxRecord>
    decreases items.len(),
{
    if items.len() == 0 {
        Seq::empty()
    } else {
        let r = search_spec(items.drop_last(), q);
        if matches_query_spec(items.last(), q) {
            r.push(items.last())
        } else {
            r
        }
    }
}

/// The history rows shown for a search query.
pub fn filter_history(items: &Vec<TxRecord>, q: &str) -> (r: Vec<TxRecord>)
    ensures
        r@ == search_spec(items@, q@),
{
    let mut r: Vec<TxRecord> = Vec::new();
    let mut i: usize = 0;
    while i < items.len()
        invariant
            i <= items.len(),
            r@ == search_spec(items@.take(i as int), q@),
        decreases items.len() - i,
    {
        assert(items@.take(i + 1).drop_last() =~= items@.take(i as int));
        if matches_query(&items[i], q) {
            r.push(items[i].duplicate());
        }
        i += 1;
    }
    assert(items@.take(items.len() as int) =~= items@);
    r
}

/// Amount column of a history row: a token transfer shows its amount in token units
/// and its symbol (`TOKEN` when unknown); a native transfer shows its raw value.
pub open spec fn tx_amount_label_spec(tx: TxRecord) -> Seq<char> {
    if tx.is_token_transfer {
        let symbol = match tx.token_symbol {
            Some(s) => s@,
            None => "TOKEN"@,
        };
        format_decimal_amount_spec(tx.value@, tx.token_decimals) + " "@ + symbol
    } else {
        tx.value@
    }
}

/// Amount column of a history row.
pub fn tx_amount_label(tx: &TxRecord) -> (r: String)
    ensures
        r@ == tx_amount_label_spec(*tx),
{
    if tx.is_token_transfer {
        let mut out = format_decimal_amount(tx.value.as_str(), tx.token_decimals);
        push_str(&mut out, " ");
        match &tx.token_symbol {
            Some(s) => push_str(&mut out, s.as_str()),
            None => push_str(&mut out, "TOKEN"),
        }
        out
    } else {
        tx.value.clone()
    }
}

/// Label and color of a history row's status badge.
pub fn tx_status_badge(status: TxStatus) -> (r: (&'static str, &'static str))
    ensures
        status == TxStatus::Pending ==> r.0@ == "pending"@ && r.1@ == "#999"@,
        status == TxStatus::Confirmed ==> r.0@ == "confirmed"@ && r.1@ == "#7CFC90"@,
        status == TxStatus::Failed ==> r.0@ == "failed"@ && r.1@ == "#ff77aa"@,
{
    match status {
        TxStatus::Pending => ("pending", "#999"),
        TxStatus::Confirmed => ("confirmed", "#7CFC90"),
        TxStatus::Failed => ("failed", "#ff77aa"),
    }
}

/// Some record is still pending: the status poller keeps running.
pub open spec fn any_pending_spec(items: Seq<TxRecord>) -> bool {
    exists|i: int| 0 <= i < items.len() && #[trigger] items[i].status == TxStatus::Pending
}

/// Whether any record is pending.
pub fn any_pending(items: &Vec<TxRecord>) -> (r: bool)
    ensures
        r == any_pending_spec(items@),
{
    let mut i: usize = 0;
    while i < items.len()
        invariant
            i <= items.len(),
            forall|j: int| 0 <= j < i ==> #[trigger] items@[j].status != TxStatus::Pending,
        decreases items.len() - i,
    {
        if items[i].status == TxStatus::Pending {
            return true;
        }
        i += 1;
    }
    false
}

/// At most ten pending records are asked about per poll.
pub const MAX_STATUS_POLLS: usize = 10;

/// Positions of the pending records, in order.
pub open spec fn pending_positions(items: Seq<TxRecord>) -> Seq<int>
    decreases items.len(),
{
    if items.len() == 0 {
        Seq::empty()
    } else {
        let r = pending_positions(items.drop_last());
        if items.last().status == TxStatus::Pending {
            r.push(items.len() - 1)
        } else {
            r
        }
    }
}

/// Positions of the first ten pending records: the ones one poll refreshes.
pub open spec fn poll_targets_spec(items: Seq<TxRecord>) -> Seq<int> {
    let p = pending_positions(items);
    if p.len() > MAX_STATUS_POLLS {
        p.take(MAX_STATUS_POLLS as int)
    } else {
        p
    }
}

proof fn lemma_pending_positions_prefix(items: Seq<TxRecord>, i: int)
    requires
        0 <= i < items.len(),
    ensures
        pending_positions(items.take(i + 1)) == (if items[i].status == TxStatus::Pending {
            pending_positions(items.take(i)).push(i)
        } else {
            pending_positions(items.take(i))
        }),
{
    assert(items.take(i + 1).drop_last() =~= items.take(i));
}

proof fn lemma_pending_positions_grow(items: Seq<TxRecord>, i: int, j: int)
    requires
        0 <= i <= j <= items.len(),
    ensures
        pending_positions(items.take(i)).len() <= pending_positions(items.take(j)).len(),
        pending_positions(items.take(j)).take(pending_positions(items.take(i)).len() as int)
            == pending_positions(items.take(i)),
    decreases j - i,
{
    if i < j {
        lemma_pending_positions_grow(items, i, j - 1);
        lemma_pending_positions_prefix(items, j - 1);
        let a = pending_positions(items.take(i));
        let b = pending_positions(items.take(j - 1));
        let c = pending_positions(items.take(j));
        assert(c.take(a.len() as int) =~= b.take(a.len() as int));
    } else {
        let a = pending_positions(items.take(i));
        assert(a.take(a.len() as int) =~= a);
    }
}

/// The records to refresh on a status poll: the first ten pending ones.
pub fn status_poll_targets(items: &Vec<TxRecord>) -> (r: Vec<usize>)
    ensures
        r@.map_values(|k: usize| k as int) == poll_targets_spec(items@),
{
    let mut r: Vec<usize> = Vec::new();
    let mut i: usize = 0;
    while i < items.len()
        invariant
            i <= items.len(),
            r.len() <= MAX_STATUS_POLLS,
            r@.map_values(|k: usize| k as int) == pending_positions(items@.take(i as int)),
        decreases items.len() - i,
    {
        proof {
            lemma_pending_positions_prefix(items@, i as int);
        }
        if items[i].status == TxStatus::Pending {
            if r.len() == MAX_STATUS_POLLS {
                proof {
                    let full = pending_positions(items@);
                    lemma_pending_positions_grow(items@, i as int + 1, items.len() as int);
                    assert(items@.take(items.len() as int) =~= items@);
                    let pre = pending_positions(items@.take(i + 1));
                    assert(full.take(MAX_STATUS_POLLS as int) =~= pre.take(MAX_STATUS_POLLS as int));
                    assert(pre.take(MAX_STATUS_POLLS as int) =~= r@.map_values(|k: usize| k as int));
                }
                return r;
            }
            let ghost before = r@;
            r.push(i);
            assert(r@.map_values(|k: usize| k as int) =~= before.map_values(|k: usize| k as int).push(
                i as int,
            ));
        }
        i += 1;
    }
    assert(items@.take(items.len() as int) =~= items@);
    r
}

/// Applies a polled status to record `idx`; reports whether it changed.
pub fn apply_polled_status(items: &mut Vec<TxRecord>, idx: usize, status: TxStatus) -> (changed: bool)
    requires
        idx < old(items).len(),
    ensures
        changed == (old(items)@[idx as int].status != status),
        final(items)@.len() == old(items)@.len(),
        final(items)@[idx as int].status == status,
        forall|k: int|
            0 <= k < old(items)@.len() && k != idx ==> #[trigger] final(items)@[k] == old(items)@[k],
        final(items)@[idx as int] == (TxRecord { status: status, ..old(items)@[idx as int] }),
{
    if items[idx].status != status {
        let mut e = items[idx].duplicate();
        e.status = status;
        items[idx] = e;
        true
    } else {
        false
    }
}

// ---------------------------------------------------------------------------
// Merging native and token transfers, newest first
// ---------------------------------------------------------------------------

/// `x` inserted into `s` after every trailing record not older than it.
pub open spec fn insert_newest_first(s: Seq<TxRecord>, x: TxRecord) -> Seq<TxRecord>
    decreases s.len(),
{
    if s.len() == 0 {
        seq![x]
    } else if s.last().timestamp >= x.timestamp {
        s.push(x)
    } else {
        insert_newest_first(s.drop_last(), x).push(s.last())
    }
}

/// Records ordered newest first; records with equal timestamps keep their order.
pub open spec fn sort_newest_first(s: Seq<TxRecord>) -> Seq<TxRecord>
    decreases s.len(),
{
    if s.len() == 0 {
        s
    } else {
        insert_newest_first(sort_newest_first(s.drop_last()), s.last())
    }
}

/// Ordered by timestamp, newest first.
pub open spec fn newest_first(s: Seq<TxRecord>) -> bool {
    forall|i: int, j: int| 0 <= i < j < s.len() ==> s[i].timestamp >= s[j].timestamp
}

proof fn lemma_insert_at(s: Seq<TxRecord>, x: TxRecord, p: int)
    requires
        0 <= p <= s.len(),
        p == 0 || s[p - 1].timestamp >= x.timestamp,
        forall|k: int| p <= k < s.len() ==> #[trigger] s[k].timestamp < x.timestamp,
    ensures
        insert_newest_first(s, x) == s.take(p).push(x) + s.skip(p),
    decreases s.len(),
{
    if s.len() == 0 {
        assert(s.take(p).push(x) + s.skip(p) =~= seq![x]);
    } else if p == s.len() {
        assert(s.take(p) =~= s);
        assert(s.skip(p) =~= Seq::<TxRecord>::empty());
        assert(s.take(p).push(x) + s.skip(p) =~= s.push(x));
    } else {
        let t = s.drop_last();
        assert forall|k: int| p <= k < t.len() implies #[trigger] t[k].timestamp < x.timestamp by {
            assert(t[k] == s[k]);
        }
        lemma_insert_at(t, x, p);
        assert(t.take(p) =~= s.take(p));
        assert((t.take(p).push(x) + t.skip(p)).push(s.last()) =~= s.take(p).push(x) + s.skip(p));
    }
}

/// Inserts `x` into `v` where newest-first insertion puts it.
fn insert_record(v: &mut Vec<TxRecord>, x: TxRecord)
    ensures
        final(v)@ == insert_newest_first(old(v)@, x),
{
    let mut p: usize = v.len();
    while p > 0 && v[p - 1].timestamp < x.timestamp
        invariant
            p <= v.len(),
            forall|k: int| p <= k < v.len() ==> #[trigger] v@[k].timestamp < x.timestamp,
        decreases p,
    {
        p -= 1;
    }
    proof {
        lemma_insert_at(v@, x, p as int);
    }
    let ghost before = v@;
    v.insert(p, x);
    assert(v@ =~= before.take(p as int).push(x) + before.skip(p as int));
}

/// The fetched native transfers and token transfers as one list, newest first.
pub fn merge_history(native: Vec<TxRecord>, token: Vec<TxRecord>) -> (r: Vec<TxRecord>)
    ensures
        r@ == sort_newest_first(native@ + token@),
{
    let mut all = native;
    let mut rest = token;
    all.append(&mut rest);
    let ghost input = all@;
    let mut r: Vec<TxRecord> = Vec::new();
    let mut i: usize = 0;
    while i < all.len()
        invariant
            i <= all.len(),
            all@ == input,
            r@ == sort_newest_first(input.take(i as int)),
        decreases all.len() - i,
    {
        assert(input.take(i + 1).drop_last() =~= input.take(i as int));
        insert_record(&mut r, all[i].duplicate());
        i += 1;
    }
    assert(input.take(all.len() as int) =~= input);
    r
}

/// What the history view shows: the search text, whether a refresh runs, the
/// last refresh error, and the records.
pub struct HistoryRuntime {
    pub query: String,
    pub loading: bool,
    pub error: Option<String>,
    pub items: Vec<TxRecord>,
}

impl HistoryRuntime {
    /// Nothing fetched yet.
    pub fn new() -> (r: HistoryRuntime)
        ensures
            r.query@.len() == 0,
            !r.loading,
            r.error is None,
            r.items@.len() == 0,
    {
        HistoryRuntime { query: String::new(), loading: false, error: None, items: Vec::new() }
    }

    /// A refresh starts: the view shows it loading and forgets the last error.
    pub fn begin_refresh(&mut self)
        ensures
            final(self).loading,
            final(self).error is None,
            final(self).items@ == old(self).items@,
            final(self).query == old(self).query,
    {
        self.loading = true;
        self.error = None;
    }

    /// A refresh ended with `fetched`: the native and token transfers, or the
    /// message of the first failure. On success the records are both lists merged
    /// newest first, the error is cleared, and the result tells whether a pending
    /// record needs status polling; on failure the error is shown, the records stay
    /// and the polling choice `poll_before` stands. Either way loading ends.
    pub fn history_refresh_done(
        &mut self,
        fetched: Result<(Vec<TxRecord>, Vec<TxRecord>), String>,
        poll_before: bool,
    ) -> (poll: bool)
        ensures
            !final(self).loading,
            final(self).query == old(self).query,
            fetched matches Ok((a, b)) ==> final(self).items@ == sort_newest_first(a@ + b@) && final(self).error is None
                && poll == any_pending_spec(final(self).items@),
            fetched matches Err(e) ==> final(self).items@ == old(self).items@ && final(self).error == Some(e) && poll
                == poll_before,
    {
        let poll = match fetched {
            Ok((a, b)) => {
                let merged = merge_history(a, b);
                let p = any_pending(&merged);
                self.items = merged;
                self.error = None;
                p
            },
            Err(e) => {
                self.error = Some(e);
                poll_before
            },
        };
        self.loading = false;
        poll
    }
}

// ---------------------------------------------------------------------------
// Laws of the merge
// ---------------------------------------------------------------------------

proof fn lemma_insert_keeps_order(s: Seq<TxRecord>, x: TxRecord)
    requires
        newest_first(s),
    ensures
        newest_first(insert_newest_first(s, x)),
        insert_newest_first(s, x).to_multiset() == s.to_multiset().insert(x),
    decreases s.len(),
{
    broadcast use vstd::multiset::group_multiset_axioms;
    broadcast use vstd::seq_lib::group_to_multiset_ensures;
    if s.len() == 0 {
        assert(seq![x] =~= Seq::<TxRecord>::empty().push(x));
    } else if s.last().timestamp >= x.timestamp {
    } else {
        let t = s.drop_last();
        lemma_insert_keeps_order(t, x);
        let u = insert_newest_first(t, x);
        let r = u.push(s.last());
        assert forall|i: int, j: int| 0 <= i < j < r.len() implies r[i].timestamp >= r[j].timestamp by {
            if j == r.len() - 1 {
                if i < u.len() {
                    assert(u.to_multiset().count(u[i]) > 0);
                    if u[i] == x {
                    } else {
                        assert(t.to_multiset().insert(x).count(u[i]) > 0);
                        assert(t.to_multiset().count(u[i]) > 0);
                        assert(t.contains(u[i]));
                        let k = choose|k: int| 0 <= k < t.len() && t[k] == u[i];
                        assert(s[k] == t[k]);
                    }
                }
            }
        }
        assert(s =~= t.push(s.last()));
    }
}

/// The merged history is newest first and holds exactly the fetched records: nothing
/// is lost, added or repeated.
pub proof fn law_merge_sorted_permutation(s: Seq<TxRecord>)
    ensures
        newest_first(sort_newest_first(s)),
        sort_newest_first(s).to_multiset() == s.to_multiset(),
    decreases s.len(),
{
    broadcast use vstd::multiset::group_multiset_axioms;
    broadcast use vstd::seq_lib::group_to_multiset_ensures;
    if s.len() > 0 {
        law_merge_sorted_permutation(s.drop_last());
        lemma_insert_keeps_order(sort_newest_first(s.drop_last()), s.last());
        assert(s =~= s.drop_last().push(s.last()));
    }
}

/// The search keeps a record exactly when the query is empty or occurs, ignoring
/// ASCII case, in its hash, sender, recipient, value, token symbol or token
/// address.
pub proof fn law_search_matches_any_field(tx: TxRecord, q: Seq<char>)
    ensures
        q.len() == 0 ==> matches_query_spec(tx, q),
        contains_seq(lower_seq(tx.hash@), lower_seq(q)) ==> matches_query_spec(tx, q),
        contains_seq(lower_seq(tx.from@), lower_seq(q)) ==> matches_query_spec(tx, q),
        contains_seq(lower_seq(tx.to@), lower_seq(q)) ==> matches_query_spec(tx, q),
        contains_seq(lower_seq(tx.value@), lower_seq(q)) ==> matches_query_spec(tx, q),
        (tx.token_symbol matches Some(s) && contains_seq(lower_seq(s@), lower_seq(q))) ==> matches_query_spec(tx, q),
        (tx.token_address matches Some(a) && contains_seq(lower_seq(a@), lower_seq(q))) ==> matches_query_spec(tx, q),
        matches_query_spec(tx, q) ==> {
            ||| q.len() == 0
            ||| contains_seq(lower_seq(tx.hash@), lower_seq(q))
            ||| contains_seq(lower_seq(tx.from@), lower_seq(q))
            ||| contains_seq(lower_seq(tx.to@), lower_seq(q))
            ||| contains_seq(lower_seq(tx.value@), lower_seq(q))
            ||| (tx.token_symbol matches Some(s) && contains_seq(lower_seq(s@), lower_seq(q)))
            ||| (tx.token_address matches Some(a) && contains_seq(lower_seq(a@), lower_seq(q)))
        },
{
    if q.len() > 0 {
        assert(!contains_seq(lower_seq(Seq::<char>::empty()), lower_seq(q))) by {
            assert(lower_seq(q).len() == q.len());
            assert(lower_seq(Seq::<char>::empty()).len() == 0);
        }
    }
}

/// The search lists exactly the records it keeps, in their order: the history
/// filtered by the query.
pub proof fn law_search_is_filter(items: Seq<TxRecord>, q: Seq<char>)
    ensures
        search_spec(items, q) == items.filter(|t: TxRecord| matches_query_spec(t, q)),
    decreases items.len(),
{
    let keep = |t: TxRecord| matches_query_spec(t, q);
    if items.len() == 0 {
        items.filter_lemma(keep);
        assert(items.filter(keep) =~= Seq::<TxRecord>::empty());
    } else {
        let init = items.drop_last();
        law_search_is_filter(init, q);
        assert(items == init.push(items.last()));
        init.lemma_filter_push(items.last(), keep);
    }
}

/// The status poller asks about exactly the pending records: the positions it
/// lists are increasing, each names a pending record, and every pending record
/// is listed.
pub proof fn law_pending_positions_exact(items: Seq<TxRecord>)
    ensures
        forall|k: int| 0 <= k < pending_positions(items).len() ==> {
            let i = #[trigger] pending_positions(items)[k];
            0 <= i < items.len() && items[i].status == TxStatus::Pending
        },
        forall|k: int, l: int| 0 <= k < l < pending_positions(items).len() ==> #[trigger] pending_positions(items)[k]
            < #[trigger] pending_positions(items)[l],
        forall|i: int| 0 <= i < items.len() && #[trigger] items[i].status == TxStatus::Pending ==> pending_positions(
            items,
        ).contains(i),
    decreases items.len(),
{
    if items.len() > 0 {
        let init = items.drop_last();
        law_pending_positions_exact(init);
        let r = pending_positions(init);
        let n = items.len() - 1;
        assert forall|k: int| 0 <= k < r.len() implies r[k] < n && items[r[k]] == init[r[k]] by {}
        assert forall|i: int| 0 <= i < items.len() && #[trigger] items[i].status == TxStatus::Pending implies pending_positions(
            items,
        ).contains(i) by {
            if i < n {
                assert(init[i] == items[i]);
                assert(r.contains(i));
                let k = choose|k: int| 0 <= k < r.len() && r[k] == i;
                assert(pending_positions(items)[k] == i);
            } else {
                assert(pending_positions(items) == r.push(n));
                assert(pending_positions(items)[r.len() as int] == i);
            }
        }
    }
}

/// Records with timestamp `t`.
pub open spec fn at_time(t: u64) -> spec_fn(TxRecord) -> bool {
    |x: TxRecord| x.timestamp == t
}

proof fn lemma_insert_keeps_time_order(s: Seq<TxRecord>, x: TxRecord, t: u64)
    ensures
        insert_newest_first(s, x).filter(at_time(t)) == (if x.timestamp == t {
            s.filter(at_time(t)).push(x)
        } else {
            s.filter(at_time(t))
        }),
    decreases s.len(),
{
    if s.len() == 0 {
        s.filter_lemma(at_time(t));
        assert(s.filter(at_time(t)) =~= Seq::<TxRecord>::empty());
        assert(seq![x] == s.push(x));
        s.lemma_filter_push(x, at_time(t));
    } else if s.last().timestamp >= x.timestamp {
        s.lemma_filter_push(x, at_time(t));
    } else {
        let init = s.drop_last();
        lemma_insert_keeps_time_order(init, x, t);
        insert_newest_first(init, x).lemma_filter_push(s.last(), at_time(t));
        assert(s == init.push(s.last()));
        init.lemma_filter_push(s.last(), at_time(t));
    }
}

/// The merge is stable: records with the same timestamp come out in the order
/// they went in (native transfers before token transfers).
pub proof fn law_merge_keeps_order_of_equal_times(s: Seq<TxRecord>, t: u64)
    ensures
        sort_newest_first(s).filter(at_time(t)) == s.filter(at_time(t)),
    decreases s.len(),
{
    if s.len() == 0 {
    } else {
        let init = s.drop_last();
        law_merge_keeps_order_of_equal_times(init, t);
        lemma_insert_keeps_time_order(sort_newest_first(init), s.last(), t);
        assert(s == init.push(s.last()));
        init.lemma_filter_push(s.last(), at_time(t));
    }
}

} // verus!
