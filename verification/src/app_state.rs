//! Screen and phase of the wallet window, the selector polling interval, and when
//! the top dApps are warmed again.

use vstd::prelude::*;
use crate::browser::{dapp_preference_key, usage_key};
use crate::dapp_lists::strings_view;
use crate::text::{push_str, str_eq, to_owned_string};

verus! {

broadcast use vstd::string::group_string_axioms;

/// The screens of the main window.
#[derive(Clone, Copy, Debug, PartialEq, Eq, Structural)]
pub enum AppView {
    Dashboard,
    Send,
    Receive,
    History,
    Dapps,
    Settings,
    ImportExport,
}

/// The bottom action dock shows on the dashboard only.
pub fn show_bottom_dock(view: AppView) -> (r: bool)
    ensures
        r == (view == AppView::Dashboard),
{
    match view {
        AppView::Dashboard => true,
        _ => false,
    }
}

/// Where the wallet window is in its life.
#[derive(Clone, Copy, Debug, PartialEq, Eq, Structural)]
pub enum WalletPhase {
    Onboarding,
    Unlock,
    Main,
}

/// The phase at start: unlock an existing wallet, else create or import one.
pub fn initial_phase(has_master_wallet: bool) -> (p: WalletPhase)
    ensures
        has_master_wallet ==> p == WalletPhase::Unlock,
        !has_master_wallet ==> p == WalletPhase::Onboarding,
{
    if has_master_wallet {
        WalletPhase::Unlock
    } else {
        WalletPhase::Onboarding
    }
}

/// What moves the window from one phase or screen to another.
#[derive(Clone, Copy, Debug, PartialEq, Eq, Structural)]
pub enum AppEvent {
    /// Onboarding created or imported the wallet.
    OnboardingFinished,
    /// The startup password unlocked the wallet.
    Unlocked,
    /// At start, a wallet exists and a session password is still held.
    SessionRestored,
    /// A screen was chosen (dock buttons, the send shortcut).
    Navigate(AppView),
    /// A sub-screen's back button.
    Back,
    /// Settings deleted the wallet.
    WalletDeleted,
}

/// The window's state: phase and screen.
#[derive(Clone, Copy, Debug, PartialEq, Eq, Structural)]
pub struct WindowState {
    pub phase: WalletPhase,
    pub view: AppView,
}

/// The window state after an event.
pub open spec fn window_step_spec(s: WindowState, e: AppEvent) -> WindowState {
    match e {
        AppEvent::OnboardingFinished => WindowState { phase: WalletPhase::Main, ..s },
        AppEvent::Unlocked => WindowState { phase: WalletPhase::Main, ..s },
        AppEvent::SessionRestored => WindowState { phase: WalletPhase::Main, ..s },
        AppEvent::Navigate(v) => WindowState { view: v, ..s },
        AppEvent::Back => WindowState { view: AppView::Dashboard, ..s },
        AppEvent::WalletDeleted => WindowState { phase: WalletPhase::Onboarding, view: AppView::Dashboard },
    }
}

/// Applies an event to the window state.
pub fn window_step(s: WindowState, e: AppEvent) -> (r: WindowState)
    ensures
        r == window_step_spec(s, e),
{
    match e {
        AppEvent::OnboardingFinished => WindowState { phase: WalletPhase::Main, view: s.view },
        AppEvent::Unlocked => WindowState { phase: WalletPhase::Main, view: s.view },
        AppEvent::SessionRestored => WindowState { phase: WalletPhase::Main, view: s.view },
        AppEvent::Navigate(v) => WindowState { phase: s.phase, view: v },
        AppEvent::Back => WindowState { phase: s.phase, view: AppView::Dashboard },
        AppEvent::WalletDeleted => WindowState { phase: WalletPhase::Onboarding, view: AppView::Dashboard },
    }
}

/// Back from any screen returns to the dashboard, whose dock is shown; the phase
/// stays.
pub proof fn law_back_returns_to_dashboard(s: WindowState)
    ensures
        window_step_spec(s, AppEvent::Back).view == AppView::Dashboard,
        window_step_spec(s, AppEvent::Back).phase == s.phase,
{
}

/// Seconds between selector polls: the user's preference (2 when unset), at least 1.
pub fn selector_poll_interval_secs(preference: Option<u64>) -> (r: u64)
    ensures
        r == (match preference {
            Some(p) => if p < 1 {
                1
            } else {
                p
            },
            None => 2,
        }),
{
    let secs: u64 = match preference {
        Some(p) => p,
        None => 2,
    };
    if secs < 1 {
        1
    } else {
        secs
    }
}

/// The candidates' preference keys joined by `|`.
pub open spec fn join_keys(keys: Seq<Seq<char>>) -> Seq<char>
    decreases keys.len(),
{
    if keys.len() == 0 {
        Seq::empty()
    } else if keys.len() == 1 {
        keys[0]
    } else {
        join_keys(keys.drop_last()) + "|"@ + keys.last()
    }
}

/// Signature of a set of warm-up candidates: their preference keys joined by `|`.
pub open spec fn prewarm_signature_spec(candidates: Seq<Seq<char>>) -> Seq<char> {
    join_keys(candidates.map_values(|u: Seq<char>| usage_key(u)))
}

/// The signature of the warm-up candidates, compared between ticks.
pub fn prewarm_signature(candidates: &Vec<String>) -> (r: String)
    ensures
        r@ == prewarm_signature_spec(strings_view(candidates@)),
{
    let ghost keys = strings_view(candidates@).map_values(|u: Seq<char>| usage_key(u));
    let mut out = String::new();
    let mut i: usize = 0;
    while i < candidates.len()
        invariant
            i <= candidates.len(),
            keys == strings_view(candidates@).map_values(|u: Seq<char>| usage_key(u)),
            out@ == join_keys(keys.take(i as int)),
        decreases candidates.len() - i,
    {
        let k = dapp_preference_key(candidates[i].as_str());
        assert(keys.take(i + 1).drop_last() =~= keys.take(i as int));
        assert(keys[i as int] == k@);
        if i > 0 {
            push_str(&mut out, "|");
        } else {
            assert(out@ =~= Seq::<char>::empty());
        }
        push_str(&mut out, k.as_str());
        proof {
            if i == 0 {
                assert(out@ =~= keys.take(1)[0]);
            }
        }
        i += 1;
    }
    assert(keys.take(candidates.len() as int) =~= keys);
    out
}

/// The top dApps are warmed again when the chain or the candidates changed since
/// the last warm-up.
pub fn prewarm_due(last_chain: Option<u64>, last_signature: &str, chain_id: u64, signature: &str) -> (r: bool)
    ensures
        r == (last_chain != Some(chain_id) || last_signature@ != signature@),
{
    let chain_changed = match last_chain {
        Some(c) => c != chain_id,
        None => true,
    };
    chain_changed || !str_eq(last_signature, signature)
}

/// Address shown in the header: the active account's, else the first account's,
/// else nothing.
pub fn header_account_address(active: Option<String>, first: Option<String>) -> (r: String)
    ensures
        active matches Some(a) ==> r == a,
        active is None ==> (first matches Some(f) ==> r == f),
        active is None && first is None ==> r@ == Seq::<char>::empty(),
{
    match active {
        Some(a) => a,
        None => match first {
            Some(f) => f,
            None => String::new(),
        },
    }
}

/// Address used for chain queries while the wallet has no account yet.
pub const EXPLORER_FALLBACK_ADDRESS: &'static str = "0xd8dA6BF26964aF9D7eEd9e03E53415D37aA96045";

/// Address for balance and history queries: the active account's, else the first
/// account's, else a well-known mainnet address.
pub fn primary_wallet_address(active: Option<String>, first: Option<String>) -> (r: String)
    ensures
        active matches Some(a) ==> r == a,
        active is None ==> (first matches Some(f) ==> r == f),
        active is None && first is None ==> r@ == EXPLORER_FALLBACK_ADDRESS@,
{
    match active {
        Some(a) => a,
        None => match first {
            Some(f) => f,
            None => to_owned_string(EXPLORER_FALLBACK_ADDRESS),
        },
    }
}

} // verus!
