//! List decisions of the DApps view: which catalog rows are shown, which URLs are
//! prewarm candidates, which origins are preconnected, and the per-chain fast list.

use vstd::prelude::*;
use crate::browser::{
    dapp_preference_key, host_label, host_label_spec, trusted_dapp_visible_on_chain, usage_key,
    visible_on_chain, TrustedDapp,
};
use crate::text::{decimal_seq, push_char, push_decimal, str_eq, to_owned_string};
use crate::urls::{parse_outcome_view, parse_url, url_parse_result, ParsedUrl, ParsedUrlView};

verus! {

broadcast use vstd::string::group_string_axioms;

/// The character sequences of a list of strings.
pub open spec fn strings_view(v: Seq<String>) -> Seq<Seq<char>> {
    v.map_values(|s: String| s@)
}

/// Pushing a string pushes its view.
pub proof fn lemma_strings_view_push(v: Seq<String>, x: String)
    ensures
        strings_view(v.push(x)) == strings_view(v).push(x@),
{
    assert(strings_view(v.push(x)) =~= strings_view(v).push(x@));
}

/// The successful outcomes of a list of checks, in order.
pub open spec fn ok_values(v: Seq<Result<String, String>>) -> Seq<Seq<char>>
    decreases v.len(),
{
    if v.len() == 0 {
        Seq::empty()
    } else {
        let r = ok_values(v.drop_last());
        match v.last() {
            Ok(s) => r.push(s@),
            Err(_) => r,
        }
    }
}

/// The successful check outcomes of the catalog rows shown on `chain`, in order.
pub open spec fn visible_ok_values(
    entries: Seq<TrustedDapp>,
    checks: Seq<Result<String, String>>,
    chain: u64,
) -> Seq<Seq<char>>
    decreases entries.len(),
{
    if entries.len() == 0 {
        Seq::empty()
    } else {
        let r = visible_ok_values(entries.drop_last(), checks.drop_last(), chain);
        if visible_on_chain(entries.last(), chain) && checks.last() is Ok {
            r.push(checks.last()->Ok_0@)
        } else {
            r
        }
    }
}

/// The URLs whose preference key is among `keys`, in order.
pub open spec fn fast_only(urls: Seq<Seq<char>>, keys: Seq<Seq<char>>) -> Seq<Seq<char>>
    decreases urls.len(),
{
    if urls.len() == 0 {
        Seq::empty()
    } else {
        let r = fast_only(urls.drop_last(), keys);
        if keys.contains(usage_key(urls.last())) {
            r.push(urls.last())
        } else {
            r
        }
    }
}

/// The first `limit` elements of `s` (all of them when there are fewer).
pub open spec fn take_up_to<A>(s: Seq<A>, limit: nat) -> Seq<A> {
    if s.len() <= limit {
        s
    } else {
        s.take(limit as int)
    }
}

/// Prewarm candidates: every whitelisted URL (shown catalog rows, then custom
/// dApps), keeping those marked fast when there are any, at most `limit` of them.
pub open spec fn top_candidates_spec(
    limit: nat,
    chain: u64,
    entries: Seq<TrustedDapp>,
    entry_checks: Seq<Result<String, String>>,
    custom_checks: Seq<Result<String, String>>,
    fast_keys: Seq<Seq<char>>,
) -> Seq<Seq<char>> {
    let all = visible_ok_values(entries, entry_checks, chain) + ok_values(custom_checks);
    let selected = take_up_to(fast_only(all, fast_keys), limit);
    if selected.len() == 0 {
        take_up_to(all, limit)
    } else {
        selected
    }
}

/// `keys` holds a string equal to `k`.
pub fn contains_string(keys: &Vec<String>, k: &str) -> (r: bool)
    ensures
        r == strings_view(keys@).contains(k@),
{
    let mut i: usize = 0;
    while i < keys.len()
        invariant
            i <= keys.len(),
            forall|j: int| 0 <= j < i ==> keys@[j]@ != k@,
        decreases keys.len() - i,
    {
        if str_eq(keys[i].as_str(), k) {
            assert(strings_view(keys@)[i as int] == k@);
            return true;
        }
        i += 1;
    }
    proof {
        if strings_view(keys@).contains(k@) {
            let j = choose|j: int| 0 <= j < strings_view(keys@).len() && strings_view(keys@)[j] == k@;
            assert(keys@[j]@ == k@);
        }
    }
    false
}

/// Whitelisted URLs of the catalog rows shown on the chain, then of the custom dApps.
fn collect_whitelisted(
    active_chain_id: u64,
    entries: &Vec<TrustedDapp>,
    entry_checks: &Vec<Result<String, String>>,
    custom_checks: &Vec<Result<String, String>>,
) -> (all: Vec<String>)
    requires
        entries.len() == entry_checks.len(),
    ensures
        strings_view(all@) == visible_ok_values(entries@, entry_checks@, active_chain_id) + ok_values(
            custom_checks@,
        ),
{
    let mut all: Vec<String> = Vec::new();
    let mut i: usize = 0;
    while i < entries.len()
        invariant
            i <= entries.len() == entry_checks.len(),
            strings_view(all@) == visible_ok_values(
                entries@.take(i as int),
                entry_checks@.take(i as int),
                active_chain_id,
            ),
        decreases entries.len() - i,
    {
        assert(entries@.take(i + 1).drop_last() =~= entries@.take(i as int));
        assert(entry_checks@.take(i + 1).drop_last() =~= entry_checks@.take(i as int));
        if trusted_dapp_visible_on_chain(&entries[i], active_chain_id) {
            match &entry_checks[i] {
                Ok(u) => {
                    all.push(u.clone());
                },
                Err(_) => {},
            }
        }
        assert(strings_view(all@) =~= visible_ok_values(
            entries@.take(i + 1),
            entry_checks@.take(i + 1),
            active_chain_id,
        ));
        i += 1;
    }
    assert(entries@.take(entries.len() as int) =~= entries@);
    assert(entry_checks@.take(entries.len() as int) =~= entry_checks@);
    let ghost base = strings_view(all@);
    let mut j: usize = 0;
    while j < custom_checks.len()
        invariant
            j <= custom_checks.len(),
            strings_view(all@) == base + ok_values(custom_checks@.take(j as int)),
        decreases custom_checks.len() - j,
    {
        assert(custom_checks@.take(j + 1).drop_last() =~= custom_checks@.take(j as int));
        assert(custom_checks@.take(j + 1).last() == custom_checks@[j as int]);
        match &custom_checks[j] {
            Ok(u) => {
                proof {
                    lemma_strings_view_push(all@, *u);
                }
                all.push(u.clone());
            },
            Err(_) => {},
        }
        assert(strings_view(all@) =~= base + ok_values(custom_checks@.take(j + 1)));
        j += 1;
    }
    assert(custom_checks@.take(custom_checks.len() as int) =~= custom_checks@);
    all
}

/// The first `limit` strings of `v`.
fn take_strings(v: &Vec<String>, limit: usize) -> (r: Vec<String>)
    ensures
        strings_view(r@) == take_up_to(strings_view(v@), limit as nat),
{
    let mut r: Vec<String> = Vec::new();
    let mut i: usize = 0;
    while i < v.len() && i < limit
        invariant
            i <= v.len(),
            i <= limit,
            strings_view(r@) == strings_view(v@).take(i as int),
        decreases v.len() - i,
    {
        proof {
            lemma_strings_view_push(r@, v@[i as int]);
        }
        r.push(v[i].clone());
        assert(strings_view(v@)[i as int] == v@[i as int]@);
        assert(strings_view(r@) =~= strings_view(v@).take(i + 1));
        i += 1;
    }
    assert(strings_view(v@).take(v.len() as int) =~= strings_view(v@));
    r
}

/// URLs to prewarm for the active chain: among the whitelisted URLs (shown catalog
/// rows whose check passed, then custom dApps whose check passed), those marked fast,
/// else all of them, at most `limit`. `entry_checks[i]` is the trusted-host check of
/// `entries[i]`; `fast_keys` are the chain's stored fast-dApp keys.
pub fn compute_top_trusted_candidates_for_chain(
    limit: usize,
    active_chain_id: u64,
    entries: &Vec<TrustedDapp>,
    entry_checks: &Vec<Result<String, String>>,
    custom_checks: &Vec<Result<String, String>>,
    fast_keys: &Vec<String>,
) -> (r: Vec<String>)
    requires
        entries.len() == entry_checks.len(),
    ensures
        strings_view(r@) == top_candidates_spec(
            limit as nat,
            active_chain_id,
            entries@,
            entry_checks@,
            custom_checks@,
            strings_view(fast_keys@),
        ),
{
    let all = collect_whitelisted(active_chain_id, entries, entry_checks, custom_checks);
    let ghost keys = strings_view(fast_keys@);
    let mut fast: Vec<String> = Vec::new();
    let mut i: usize = 0;
    while i < all.len()
        invariant
            i <= all.len(),
            keys == strings_view(fast_keys@),
            strings_view(fast@) == fast_only(strings_view(all@).take(i as int), keys),
        decreases all.len() - i,
    {
        assert(strings_view(all@).take(i + 1).drop_last() =~= strings_view(all@).take(i as int));
        assert(strings_view(all@).take(i + 1).last() == all@[i as int]@);
        let k = dapp_preference_key(all[i].as_str());
        if contains_string(fast_keys, k.as_str()) {
            fast.push(all[i].clone());
        }
        assert(strings_view(fast@) =~= fast_only(strings_view(all@).take(i + 1), keys));
        i += 1;
    }
    assert(strings_view(all@).take(all.len() as int) =~= strings_view(all@));
    let selected = take_strings(&fast, limit);
    if selected.len() == 0 {
        take_strings(&all, limit)
    } else {
        selected
    }
}

/// `host:port` of an origin given how the URL parsed (port defaulting to 443),
/// when it has a host.
pub open spec fn origin_key_from(parsed: Result<ParsedUrlView, Seq<char>>) -> Option<Seq<char>> {
    match parsed {
        Ok(p) => match p.host {
            Some(h) => Some(
                h + seq![':'] + decimal_seq(
                    (match p.port {
                        Some(port) => port,
                        None => 443u16,
                    }) as nat,
                ),
            ),
            None => None,
        },
        Err(_) => None,
    }
}

/// `host:port` of a URL's origin, when it parses with a host.
pub open spec fn origin_key(url: Seq<char>) -> Option<Seq<char>> {
    origin_key_from(url_parse_result(url))
}

/// The URLs with an origin key, keeping the first URL of each origin.
pub open spec fn dedup_by_origin(urls: Seq<Seq<char>>) -> Seq<Seq<char>>
    decreases urls.len(),
{
    if urls.len() == 0 {
        Seq::empty()
    } else {
        let r = dedup_by_origin(urls.drop_last());
        match origin_key(urls.last()) {
            Some(k) => if exists|i: int| 0 <= i < r.len() && origin_key(#[trigger] r[i]) == Some(k) {
                r
            } else {
                r.push(urls.last())
            },
            None => r,
        }
    }
}

/// The origin key once the URL was parsed.
pub fn origin_key_after_parse(parsed: Result<ParsedUrl, String>) -> (r: Option<String>)
    ensures
        match r {
            Some(k) => origin_key_from(parse_outcome_view(parsed)) == Some(k@),
            None => origin_key_from(parse_outcome_view(parsed)).is_none(),
        },
{
    match parsed {
        Ok(p) => match p.host {
            Some(h) => {
                let mut k = h;
                push_char(&mut k, ':');
                let port: u16 = match p.port {
                    Some(port) => port,
                    None => 443,
                };
                push_decimal(&mut k, port as u64);
                Some(k)
            },
            None => None,
        },
        Err(_) => None,
    }
}

/// `host:port` a dApp URL is preconnected to.
pub fn dapp_origin_key(url: &str) -> (r: Option<String>)
    ensures
        match r {
            Some(k) => origin_key(url@) == Some(k@),
            None => origin_key(url@).is_none(),
        },
{
    origin_key_after_parse(parse_url(url))
}

/// URLs to TCP-preconnect for the active chain: the whitelisted URLs of the catalog
/// rows shown on it, one per `host:port` origin.
pub fn preconnect_origins_for_chain(
    active_chain_id: u64,
    entries: &Vec<TrustedDapp>,
    entry_checks: &Vec<Result<String, String>>,
) -> (r: Vec<String>)
    requires
        entries.len() == entry_checks.len(),
    ensures
        strings_view(r@) == dedup_by_origin(visible_ok_values(entries@, entry_checks@, active_chain_id)),
        forall|i: int, j: int| 0 <= i < j < r@.len() ==> origin_key(#[trigger] r@[i]@) != origin_key(#[trigger] r@[j]@),
{
    let none: Vec<Result<String, String>> = Vec::new();
    let all = collect_whitelisted(active_chain_id, entries, entry_checks, &none);
    assert(ok_values(none@) =~= Seq::<Seq<char>>::empty());
    assert(strings_view(all@) =~= visible_ok_values(entries@, entry_checks@, active_chain_id));
    let mut out: Vec<String> = Vec::new();
    let mut seen: Vec<String> = Vec::new();
    let mut i: usize = 0;
    while i < all.len()
        invariant
            i <= all.len(),
            seen.len() == out.len(),
            strings_view(out@) == dedup_by_origin(strings_view(all@).take(i as int)),
            forall|j: int| 0 <= j < out.len() ==> origin_key(#[trigger] out@[j]@) == Some(seen@[j]@),
        decreases all.len() - i,
    {
        let ghost prev = strings_view(out@);
        assert(strings_view(all@).take(i + 1).drop_last() =~= strings_view(all@).take(i as int));
        assert(strings_view(all@).take(i + 1).last() == all@[i as int]@);
        match dapp_origin_key(all[i].as_str()) {
            Some(k) => {
                let dup = contains_string(&seen, k.as_str());
                proof {
                    if dup {
                        let j = choose|j: int| 0 <= j < strings_view(seen@).len() && strings_view(seen@)[j] == k@;
                        assert(origin_key(out@[j]@) == Some(k@));
                        assert(prev[j] == out@[j]@);
                    } else {
                        assert forall|j: int| 0 <= j < prev.len() implies origin_key(#[trigger] prev[j]) != Some(k@) by {
                            assert(prev[j] == out@[j]@);
                            assert(strings_view(seen@)[j] == seen@[j]@);
                        }
                    }
                }
                if !dup {
                    seen.push(k);
                    out.push(all[i].clone());
                }
            },
            None => {},
        }
        assert(strings_view(out@) =~= dedup_by_origin(strings_view(all@).take(i + 1)));
        i += 1;
    }
    assert(strings_view(all@).take(all.len() as int) =~= strings_view(all@));
    proof {
        law_preconnect_origins_distinct(strings_view(all@));
        assert forall|i: int, j: int| 0 <= i < j < out@.len() implies origin_key(#[trigger] out@[i]@) != origin_key(
            #[trigger] out@[j]@,
        ) by {
            assert(strings_view(out@)[i] == out@[i]@);
            assert(strings_view(out@)[j] == out@[j]@);
        }
    }
    out
}

/// A repeat preconnect pass on the same chain within 45 s of the last one is skipped.
pub open spec fn preconnect_due_spec(last: Option<(u64, u64)>, active_chain_id: u64) -> bool {
    match last {
        Some((chain, elapsed_ms)) => !(chain == active_chain_id && elapsed_ms < 45000),
        None => true,
    }
}

/// Whether a broad preconnect pass runs now, given the chain of the last pass and the
/// milliseconds since it.
pub fn preconnect_due(last: Option<(u64, u64)>, active_chain_id: u64) -> (r: bool)
    ensures
        r == preconnect_due_spec(last, active_chain_id),
{
    match last {
        Some((chain, elapsed_ms)) => !(chain == active_chain_id && elapsed_ms < 45000),
        None => true,
    }
}

/// Milliseconds from `at_ms` to `now_ms` on a monotonic clock, zero if `now_ms`
/// is earlier (as `Instant::elapsed` saturates).
pub open spec fn elapsed_ms_spec(at_ms: u64, now_ms: u64) -> u64 {
    if now_ms >= at_ms {
        (now_ms - at_ms) as u64
    } else {
        0
    }
}

/// The throttle decision for a pass at `now_ms`, given the record `(chain, at_ms)`
/// of the last pass that ran.
pub open spec fn preconnect_pass_due(record: Option<(u64, u64)>, active_chain_id: u64, now_ms: u64) -> bool {
    preconnect_due_spec(
        match record {
            Some((chain, at_ms)) => Some((chain, elapsed_ms_spec(at_ms, now_ms))),
            None => None,
        },
        active_chain_id,
    )
}

/// One broad preconnect pass for `active_chain_id` at `now_ms`. Within 45 s of a
/// pass on the same chain nothing is connected (the result is empty) and `record`
/// is left as it was; otherwise `record` becomes `(active_chain_id, now_ms)` and
/// the result lists the URLs to connect to: the whitelisted URLs of the rows shown
/// on the chain, one per `host:port` origin, no origin twice.
pub fn preconnect_pass(
    record: &mut Option<(u64, u64)>,
    active_chain_id: u64,
    now_ms: u64,
    entries: &Vec<TrustedDapp>,
    entry_checks: &Vec<Result<String, String>>,
) -> (r: Vec<String>)
    requires
        entries.len() == entry_checks.len(),
    ensures
        !preconnect_pass_due(*old(record), active_chain_id, now_ms) ==> r@.len() == 0 && *final(record)
            == *old(record),
        preconnect_pass_due(*old(record), active_chain_id, now_ms) ==> *final(record) == Some(
            (active_chain_id, now_ms),
        ) && strings_view(r@) == dedup_by_origin(visible_ok_values(entries@, entry_checks@, active_chain_id)),
        forall|i: int, j: int| 0 <= i < j < r@.len() ==> origin_key(#[trigger] r@[i]@) != origin_key(#[trigger] r@[j]@),
{
    let last = match *record {
        Some((chain, at_ms)) => {
            let elapsed = if now_ms >= at_ms {
                now_ms - at_ms
            } else {
                0
            };
            Some((chain, elapsed))
        },
        None => None,
    };
    if !preconnect_due(last, active_chain_id) {
        return Vec::new();
    }
    *record = Some((active_chain_id, now_ms));
    preconnect_origins_for_chain(active_chain_id, entries, entry_checks)
}

/// The catalog rows shown on `chain` whose URL the user has not hidden, in order.
pub open spec fn shown_entries(entries: Seq<TrustedDapp>, chain: u64, hidden: Seq<Seq<char>>) -> Seq<TrustedDapp>
    decreases entries.len(),
{
    if entries.len() == 0 {
        Seq::empty()
    } else {
        let r = shown_entries(entries.drop_last(), chain, hidden);
        if visible_on_chain(entries.last(), chain) && !hidden.contains(entries.last().url@) {
            r.push(entries.last())
        } else {
            r
        }
    }
}

/// Catalog rows for the DApps grid: shown on the chain and not hidden.
pub fn core_entries_for_view(entries: &Vec<TrustedDapp>, chain: u64, hidden: &Vec<String>) -> (r: Vec<TrustedDapp>)
    ensures
        r@ == shown_entries(entries@, chain, strings_view(hidden@)),
{
    let mut r: Vec<TrustedDapp> = Vec::new();
    let mut i: usize = 0;
    while i < entries.len()
        invariant
            i <= entries.len(),
            r@ == shown_entries(entries@.take(i as int), chain, strings_view(hidden@)),
        decreases entries.len() - i,
    {
        assert(entries@.take(i + 1).drop_last() =~= entries@.take(i as int));
        let e = entries[i];
        if trusted_dapp_visible_on_chain(&e, chain) && !contains_string(hidden, e.url) {
            r.push(e);
        }
        i += 1;
    }
    assert(entries@.take(entries.len() as int) =~= entries@);
    r
}

/// Hides a catalog row: its URL joins the hidden list unless already there.
pub fn hide_core_url(hidden: &mut Vec<String>, url: &str)
    ensures
        strings_view(old(hidden)@).contains(url@) ==> final(hidden)@ == old(hidden)@,
        !strings_view(old(hidden)@).contains(url@) ==> strings_view(final(hidden)@) == strings_view(
            old(hidden)@,
        ).push(url@),
{
    if !contains_string(hidden, url) {
        hidden.push(to_owned_string(url));
        assert(strings_view(hidden@) =~= strings_view(old(hidden)@).push(url@));
    }
}

/// A dApp the user added by URL.
#[derive(Clone, Debug, PartialEq, Eq)]
pub struct CustomDappEntry {
    pub name: String,
    pub url: String,
    pub description: String,
}

/// Adds a URL that passed the trusted-host check (`normalized`) to the custom list,
/// named after its host; refused when the catalog or the list already has it.
pub fn add_custom_dapp(
    custom: &mut Vec<CustomDappEntry>,
    entries: &Vec<TrustedDapp>,
    normalized: &str,
) -> (r: Result<(), String>)
    ensures
        ({
            let dup = (exists|i: int| 0 <= i < entries.len() && #[trigger] entries@[i].url@ == normalized@)
                || (exists|j: int| 0 <= j < old(custom).len() && #[trigger] old(custom)@[j].url@ == normalized@);
            &&& dup ==> (r matches Err(e) && e@ == "This dApp is already in your list."@)
                && final(custom)@ == old(custom)@
            &&& !dup ==> r is Ok && final(custom)@.len() == old(custom)@.len() + 1
                && final(custom)@.take(old(custom)@.len() as int) == old(custom)@
                && final(custom)@.last().url@ == normalized@
                && final(custom)@.last().name@ == host_label_spec(normalized@)
                && final(custom)@.last().description@ == "Custom user-added dApp"@
        }),
{
    let mut i: usize = 0;
    while i < entries.len()
        invariant
            i <= entries.len(),
            forall|k: int| 0 <= k < i ==> entries@[k].url@ != normalized@,
        decreases entries.len() - i,
    {
        if str_eq(entries[i].url, normalized) {
            return Err(to_owned_string("This dApp is already in your list."));
        }
        i += 1;
    }
    let mut j: usize = 0;
    while j < custom.len()
        invariant
            j <= custom.len(),
            custom@ == old(custom)@,
            forall|k: int| 0 <= k < j ==> custom@[k].url@ != normalized@,
        decreases custom.len() - j,
    {
        if str_eq(custom[j].url.as_str(), normalized) {
            return Err(to_owned_string("This dApp is already in your list."));
        }
        j += 1;
    }
    let name = host_label(normalized);
    custom.push(
        CustomDappEntry {
            name,
            url: to_owned_string(normalized),
            description: to_owned_string("Custom user-added dApp"),
        },
    );
    assert(custom@.take(old(custom)@.len() as int) =~= old(custom)@);
    Ok(())
}

/// Removes every custom dApp with the given URL, keeping the others in order.
pub open spec fn without_url(custom: Seq<CustomDappEntry>, url: Seq<char>) -> Seq<CustomDappEntry>
    decreases custom.len(),
{
    if custom.len() == 0 {
        Seq::empty()
    } else {
        let r = without_url(custom.drop_last(), url);
        if custom.last().url@ == url {
            r
        } else {
            r.push(custom.last())
        }
    }
}

fn copy_entry(e: &CustomDappEntry) -> (r: CustomDappEntry)
    ensures
        r == *e,
{
    CustomDappEntry { name: e.name.clone(), url: e.url.clone(), description: e.description.clone() }
}

/// Removes a custom dApp by URL.
pub fn remove_custom_dapp(custom: &Vec<CustomDappEntry>, url: &str) -> (r: Vec<CustomDappEntry>)
    ensures
        r@ == without_url(custom@, url@),
{
    let mut r: Vec<CustomDappEntry> = Vec::new();
    let mut i: usize = 0;
    while i < custom.len()
        invariant
            i <= custom.len(),
            r@ == without_url(custom@.take(i as int), url@),
        decreases custom.len() - i,
    {
        assert(custom@.take(i + 1).drop_last() =~= custom@.take(i as int));
        if !str_eq(custom[i].url.as_str(), url) {
            r.push(copy_entry(&custom[i]));
        }
        i += 1;
    }
    assert(custom@.take(custom.len() as int) =~= custom@);
    r
}

/// Set of strings without repeats.
pub open spec fn distinct_strings(v: Seq<Seq<char>>) -> bool {
    forall|i: int, j: int| 0 <= i < j < v.len() ==> v[i] != v[j]
}

/// At most six dApps can be marked fast on a chain.
pub const MAX_FAST_DAPPS: usize = 6;

/// Toggling a fast-dApp key: a marked key is unmarked; an unmarked one is marked
/// unless six are marked already.
pub open spec fn fast_toggle_spec(keys: Seq<Seq<char>>, key: Seq<char>) -> Result<Seq<Seq<char>>, Seq<char>> {
    if keys.contains(key) {
        Ok(keys.remove(keys.index_of(key)))
    } else if keys.len() >= 6 {
        Err("You can select up to 6 fast dApps. Deselect one first."@)
    } else {
        Ok(keys.push(key))
    }
}

/// Toggles `key` in the chain's fast-dApp list; refused when marking a seventh.
pub fn apply_fast_toggle(keys: &mut Vec<String>, key: &str) -> (r: Result<(), String>)
    requires
        distinct_strings(strings_view(old(keys)@)),
    ensures
        distinct_strings(strings_view(final(keys)@)),
        match fast_toggle_spec(strings_view(old(keys)@), key@) {
            Ok(next) => r is Ok && strings_view(final(keys)@) == next,
            Err(msg) => (r matches Err(e) && e@ == msg) && final(keys)@ == old(keys)@,
        },
{
    let ghost ks = strings_view(keys@);
    let mut i: usize = 0;
    while i < keys.len()
        invariant
            i <= keys.len(),
            keys@ == old(keys)@,
            ks == strings_view(keys@),
            distinct_strings(ks),
            forall|j: int| 0 <= j < i ==> ks[j] != key@,
        decreases keys.len() - i,
    {
        if str_eq(keys[i].as_str(), key) {
            proof {
                assert(ks[i as int] == key@);
                assert(ks.contains(key@));
                let k = ks.index_of(key@);
                assert(0 <= k < ks.len() && ks[k] == key@);
                if k > i as int {
                    assert(ks[i as int] != ks[k]);
                }
                assert(k == i as int);
            }
            let _removed = keys.remove(i);
            assert(strings_view(keys@) =~= ks.remove(i as int));
            proof {
                let nk = ks.remove(i as int);
                assert forall|a: int, b: int| 0 <= a < b < nk.len() implies nk[a] != nk[b] by {
                    let a2 = if a < i { a } else { a + 1 };
                    let b2 = if b < i { b } else { b + 1 };
                    assert(nk[a] == ks[a2] && nk[b] == ks[b2]);
                }
            }
            return Ok(());
        }
        i += 1;
    }
    assert(!ks.contains(key@));
    if keys.len() >= MAX_FAST_DAPPS {
        return Err(to_owned_string("You can select up to 6 fast dApps. Deselect one first."));
    }
    keys.push(to_owned_string(key));
    assert(strings_view(keys@) =~= ks.push(key@));
    proof {
        let nk = ks.push(key@);
        assert forall|a: int, b: int| 0 <= a < b < nk.len() implies nk[a] != nk[b] by {
            if b == ks.len() {
                assert(ks[a] != key@);
            }
        }
    }
    Ok(())
}

/// A fast list of at most six distinct keys stays so under every toggle.
pub proof fn law_fast_toggle_keeps_list_bounded(keys: Seq<Seq<char>>, key: Seq<char>)
    requires
        distinct_strings(keys),
        keys.len() <= 6,
    ensures
        fast_toggle_spec(keys, key) matches Ok(next) ==> distinct_strings(next) && next.len() <= 6,
{
    if keys.contains(key) {
        let i = keys.index_of(key);
        let nk = keys.remove(i);
        assert forall|a: int, b: int| 0 <= a < b < nk.len() implies nk[a] != nk[b] by {
            let a2 = if a < i { a } else { a + 1 };
            let b2 = if b < i { b } else { b + 1 };
            assert(nk[a] == keys[a2] && nk[b] == keys[b2]);
        }
    } else if keys.len() < 6 {
        let nk = keys.push(key);
        assert forall|a: int, b: int| 0 <= a < b < nk.len() implies nk[a] != nk[b] by {
            if b == keys.len() {
                assert(keys[a] != key);
            }
        }
    }
}

/// Marking a key fast and then toggling it again gives back the list it started from.
pub proof fn law_fast_toggle_twice_restores(keys: Seq<Seq<char>>, key: Seq<char>)
    requires
        distinct_strings(keys),
        !keys.contains(key),
        keys.len() < 6,
    ensures
        fast_toggle_spec(keys, key) matches Ok(next) && fast_toggle_spec(next, key) == Ok::<Seq<Seq<char>>, Seq<char>>(keys),
{
    let next = keys.push(key);
    assert(next[keys.len() as int] == key);
    assert(next.contains(key));
    let k = next.index_of(key);
    assert(0 <= k < next.len() && next[k] == key);
    if k < keys.len() {
        assert(keys[k] == key);
    }
    assert(next.remove(k) =~= keys);
}

/// Every URL of `fast_only(urls, keys)` is one of `urls`.
pub proof fn lemma_fast_only_subset(urls: Seq<Seq<char>>, keys: Seq<Seq<char>>)
    ensures
        fast_only(urls, keys).len() <= urls.len(),
        forall|i: int| 0 <= i < fast_only(urls, keys).len() ==> urls.contains(#[trigger] fast_only(urls, keys)[i]),
    decreases urls.len(),
{
    if urls.len() > 0 {
        let p = urls.drop_last();
        lemma_fast_only_subset(p, keys);
        let r = fast_only(p, keys);
        assert forall|i: int| 0 <= i < fast_only(urls, keys).len() implies urls.contains(
            #[trigger] fast_only(urls, keys)[i],
        ) by {
            if i < r.len() {
                let u = r[i];
                assert(p.contains(u));
                let j = choose|j: int| 0 <= j < p.len() && p[j] == u;
                assert(urls[j] == u);
            } else {
                assert(urls[urls.len() - 1] == urls.last());
            }
        }
    }
}

/// Prewarm candidates are at most `limit` whitelisted URLs.
pub proof fn law_top_candidates_bounded_and_whitelisted(
    limit: nat,
    chain: u64,
    entries: Seq<TrustedDapp>,
    entry_checks: Seq<Result<String, String>>,
    custom_checks: Seq<Result<String, String>>,
    fast_keys: Seq<Seq<char>>,
)
    ensures
        ({
            let all = visible_ok_values(entries, entry_checks, chain) + ok_values(custom_checks);
            let r = top_candidates_spec(limit, chain, entries, entry_checks, custom_checks, fast_keys);
            &&& r.len() <= limit
            &&& forall|i: int| 0 <= i < r.len() ==> all.contains(#[trigger] r[i])
        }),
{
    let all = visible_ok_values(entries, entry_checks, chain) + ok_values(custom_checks);
    let f = fast_only(all, fast_keys);
    lemma_fast_only_subset(all, fast_keys);
    let r = top_candidates_spec(limit, chain, entries, entry_checks, custom_checks, fast_keys);
    assert forall|i: int| 0 <= i < r.len() implies all.contains(#[trigger] r[i]) by {
        if take_up_to(f, limit).len() == 0 {
            assert(r[i] == all[i]);
        } else {
            assert(r[i] == f[i]);
        }
    }
}

/// Preconnect targets have an origin each, and no two share one.
pub proof fn law_preconnect_origins_distinct(urls: Seq<Seq<char>>)
    ensures
        ({
            let r = dedup_by_origin(urls);
            &&& forall|i: int| 0 <= i < r.len() ==> (#[trigger] origin_key(r[i])) is Some
            &&& forall|i: int, j: int| 0 <= i < j < r.len() ==> origin_key(#[trigger] r[i]) != origin_key(#[trigger] r[j])
        }),
    decreases urls.len(),
{
    if urls.len() > 0 {
        law_preconnect_origins_distinct(urls.drop_last());
    }
}

/// Each key once, at its first position.
pub open spec fn first_occurrences(s: Seq<Seq<char>>) -> Seq<Seq<char>>
    decreases s.len(),
{
    if s.len() == 0 {
        Seq::empty()
    } else {
        let r = first_occurrences(s.drop_last());
        if r.contains(s.last()) {
            r
        } else {
            r.push(s.last())
        }
    }
}

/// The fast keys restored for a chain from its saved list: the first six saved
/// entries, each once.
pub fn load_fast_keys(saved: &Vec<String>) -> (r: Vec<String>)
    ensures
        strings_view(r@) == first_occurrences(strings_view(saved@).take(
            if saved.len() < MAX_FAST_DAPPS { saved.len() as int } else { MAX_FAST_DAPPS as int },
        )),
{
    let n: usize = if saved.len() < MAX_FAST_DAPPS {
        saved.len()
    } else {
        MAX_FAST_DAPPS
    };
    let ghost sv = strings_view(saved@).take(n as int);
    let mut r: Vec<String> = Vec::new();
    let mut i: usize = 0;
    while i < n
        invariant
            i <= n <= saved.len(),
            sv == strings_view(saved@).take(n as int),
            strings_view(r@) == first_occurrences(sv.take(i as int)),
        decreases n - i,
    {
        assert(sv.take(i + 1).drop_last() =~= sv.take(i as int));
        assert(sv.take(i + 1).last() == saved@[i as int]@);
        if !contains_string(&r, saved[i].as_str()) {
            let ghost before = r@;
            r.push(saved[i].clone());
            proof {
                lemma_strings_view_push(before, r@.last());
                assert(r@ == before.push(r@.last()));
            }
        }
        i += 1;
    }
    assert(sv.take(n as int) =~= sv);
    r
}

/// Restored fast keys are distinct and at most six, so every toggle applies to them.
pub proof fn law_loaded_fast_keys_valid(saved: Seq<Seq<char>>)
    ensures
        distinct_strings(first_occurrences(saved.take(if saved.len() < 6 { saved.len() as int } else { 6 }))),
        first_occurrences(saved.take(if saved.len() < 6 { saved.len() as int } else { 6 })).len() <= 6,
{
    let t = saved.take(if saved.len() < 6 { saved.len() as int } else { 6 });
    lemma_first_occurrences(t);
}

proof fn lemma_first_occurrences(s: Seq<Seq<char>>)
    ensures
        distinct_strings(first_occurrences(s)),
        first_occurrences(s).len() <= s.len(),
    decreases s.len(),
{
    if s.len() > 0 {
        lemma_first_occurrences(s.drop_last());
        let r = first_occurrences(s.drop_last());
        if !r.contains(s.last()) {
            let r2 = r.push(s.last());
            assert forall|a: int, b: int| 0 <= a < b < r2.len() implies r2[a] != r2[b] by {
                if b == r.len() {
                    assert(r2[a] == r[a]);
                    if r[a] == s.last() {
                        assert(r.contains(s.last()));
                    }
                } else {
                    assert(r2[a] == r[a] && r2[b] == r[b]);
                }
            }
        }
    }
}

/// Saving fast dApps also fixes an unset polling interval (0) to ten seconds.
pub fn fast_prefs_polling_interval(current: u64) -> (r: u64)
    ensures
        current == 0 ==> r == 10,
        current != 0 ==> r == current,
{
    if current == 0 {
        10
    } else {
        current
    }
}

/// Removing a custom dApp by URL keeps exactly the entries with another URL, in
/// their order: the list filtered by `url != removed`.
pub proof fn law_remove_keeps_other_urls(custom: Seq<CustomDappEntry>, url: Seq<char>)
    ensures
        without_url(custom, url) == custom.filter(|e: CustomDappEntry| e.url@ != url),
    decreases custom.len(),
{
    let keep = |e: CustomDappEntry| e.url@ != url;
    if custom.len() == 0 {
        assert(custom.filter(keep) =~= Seq::<CustomDappEntry>::empty()) by {
            custom.filter_lemma(keep);
        }
    } else {
        let init = custom.drop_last();
        law_remove_keeps_other_urls(init, url);
        assert(custom == init.push(custom.last()));
        init.lemma_filter_push(custom.last(), keep);
    }
}

/// The DApps grid lists exactly the catalog rows shown on the chain whose URL is
/// not hidden, in catalog order.
pub proof fn law_grid_is_visible_unhidden_rows(entries: Seq<TrustedDapp>, chain: u64, hidden: Seq<Seq<char>>)
    ensures
        shown_entries(entries, chain, hidden) == entries.filter(
            |e: TrustedDapp| (e.chains@.len() == 0 || e.chains@.contains(chain)) && !hidden.contains(e.url@),
        ),
    decreases entries.len(),
{
    let keep = |e: TrustedDapp| (e.chains@.len() == 0 || e.chains@.contains(chain)) && !hidden.contains(e.url@);
    if entries.len() == 0 {
        entries.filter_lemma(keep);
        assert(entries.filter(keep) =~= Seq::<TrustedDapp>::empty());
    } else {
        let init = entries.drop_last();
        law_grid_is_visible_unhidden_rows(init, chain, hidden);
        assert(entries == init.push(entries.last()));
        init.lemma_filter_push(entries.last(), keep);
    }
}

/// The fast candidates are exactly the URLs whose preference key is marked fast,
/// in order.
pub proof fn law_fast_only_is_marked_filter(urls: Seq<Seq<char>>, keys: Seq<Seq<char>>)
    ensures
        fast_only(urls, keys) == urls.filter(|u: Seq<char>| keys.contains(usage_key(u))),
    decreases urls.len(),
{
    let keep = |u: Seq<char>| keys.contains(usage_key(u));
    if urls.len() == 0 {
        urls.filter_lemma(keep);
        assert(urls.filter(keep) =~= Seq::<Seq<char>>::empty());
    } else {
        let init = urls.drop_last();
        law_fast_only_is_marked_filter(init, keys);
        assert(urls == init.push(urls.last()));
        init.lemma_filter_push(urls.last(), keep);
    }
}

/// A toggle flips the toggled key and no other: on a list without repeats, an
/// accepted toggle marks `key` exactly when it was unmarked, keeps every other
/// key's mark, and is refused only when seven would be marked.
pub proof fn law_fast_toggle_flips_one_key(keys: Seq<Seq<char>>, key: Seq<char>, other: Seq<char>)
    requires
        distinct_strings(keys),
        other != key,
    ensures
        fast_toggle_spec(keys, key) is Err <==> (!keys.contains(key) && keys.len() >= 6),
        fast_toggle_spec(keys, key) matches Ok(next) ==> next.contains(key) == !keys.contains(key) && next.contains(other)
            == keys.contains(other),
{
    if keys.contains(key) {
        let i = keys.index_of(key);
        let nk = keys.remove(i);
        assert(keys[i] == key);
        if nk.contains(key) {
            let j = choose|j: int| 0 <= j < nk.len() && nk[j] == key;
            let j2 = if j < i { j } else { j + 1 };
            assert(nk[j] == keys[j2]);
        }
        if keys.contains(other) {
            let j = choose|j: int| 0 <= j < keys.len() && keys[j] == other;
            assert(j != i);
            let j2 = if j < i { j } else { j - 1 };
            assert(nk[j2] == other);
        }
        if nk.contains(other) {
            let j = choose|j: int| 0 <= j < nk.len() && nk[j] == other;
            let j2 = if j < i { j } else { j + 1 };
            assert(nk[j] == keys[j2]);
        }
    } else if keys.len() < 6 {
        let nk = keys.push(key);
        assert(nk[keys.len() as int] == key);
        if keys.contains(other) {
            let j = choose|j: int| 0 <= j < keys.len() && keys[j] == other;
            assert(nk[j] == other);
        }
        if nk.contains(other) {
            let j = choose|j: int| 0 <= j < nk.len() && nk[j] == other;
            assert(j < keys.len());
            assert(keys[j] == other);
        }
    }
}

} // verus!
