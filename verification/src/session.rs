//! Password lockout messages, clipboard errors, and the slot that holds the local
//! PulseX server process.

use vstd::prelude::*;
use crate::text::{decimal_seq, push_decimal, push_str, to_owned_string};

verus! {

broadcast use vstd::string::group_string_axioms;

/// Minutes shown for a lockout: whole minutes, rounded down.
pub open spec fn lockout_minutes(lockout_secs: u64) -> nat {
    (lockout_secs / 60) as nat
}

/// Message shown while a password key is locked after failed attempts.
pub fn lockout_message(lockout_secs: u64) -> (r: String)
    ensures
        r@ == "Too many failed attempts. Try again in about "@ + decimal_seq(lockout_minutes(lockout_secs))
            + " minutes."@,
{
    let mut s = to_owned_string("Too many failed attempts. Try again in about ");
    push_decimal(&mut s, lockout_secs / 60);
    push_str(&mut s, " minutes.");
    s
}

/// Message shown while the import/export password is locked after failed attempts.
pub fn import_export_lockout_message(lockout_secs: u64) -> (r: String)
    ensures
        r@ == "Too many failed password attempts. Try again in about "@ + decimal_seq(
            lockout_minutes(lockout_secs),
        ) + " minutes."@,
{
    let mut s = to_owned_string("Too many failed password attempts. Try again in about ");
    push_decimal(&mut s, lockout_secs / 60);
    push_str(&mut s, " minutes.");
    s
}

/// A clipboard failure, carrying the platform's message.
#[derive(Clone, Debug, PartialEq, Eq)]
pub struct ClipboardError(pub String);

impl ClipboardError {
    /// The failure's message (what the error displays as).
    pub fn message(&self) -> (r: String)
        ensures
            r@ == self.0@,
    {
        self.0.clone()
    }
}

/// The error for a target without clipboard support.
pub fn clipboard_unsupported() -> (e: ClipboardError)
    ensures
        e.0@ == "clipboard not implemented on this target yet"@,
{
    ClipboardError(to_owned_string("clipboard not implemented on this target yet"))
}

/// Status line of the Receive screen's copy button: without an address nothing is
/// copied; otherwise the clipboard's outcome (`copied`: `None` for success, else
/// the error's message).
pub fn copy_status_message(has_address: bool, copied: Option<String>) -> (r: String)
    ensures
        !has_address ==> r@ == "No wallet address yet. Finish onboarding or add an account."@,
        has_address && copied is None ==> r@ == "Copied to clipboard"@,
        has_address ==> (copied matches Some(e) ==> r@ == "Clipboard error: "@ + e@),
{
    if !has_address {
        return to_owned_string("No wallet address yet. Finish onboarding or add an account.");
    }
    match copied {
        None => to_owned_string("Copied to clipboard"),
        Some(e) => {
            let mut s = to_owned_string("Clipboard error: ");
            push_str(&mut s, e.as_str());
            s
        },
    }
}

/// What polling the server process reported.
#[derive(Clone, Copy, Debug, PartialEq, Eq, Structural)]
pub enum ChildPoll {
    /// It has exited.
    Exited,
    /// It is still running.
    Running,
    /// Its status could not be read.
    Failed,
}

/// Whether the server spawned by the wallet is still running. `poll` is what polling
/// the held process reported (ignored when none is held). A process that exited is
/// dropped from the slot.
pub fn is_pulsex_running<C>(slot: &mut Option<C>, poll: ChildPoll) -> (r: bool)
    ensures
        (*old(slot)) is None ==> !r && *final(slot) == *old(slot),
        (*old(slot)) is Some ==> r == (poll == ChildPoll::Running),
        (*old(slot)) is Some && poll == ChildPoll::Exited ==> (*final(slot)) is None,
        (*old(slot)) is Some && poll != ChildPoll::Exited ==> *final(slot) == *old(slot),
{
    if slot.is_none() {
        return false;
    }
    match poll {
        ChildPoll::Exited => {
            *slot = None;
            false
        },
        ChildPoll::Running => true,
        ChildPoll::Failed => false,
    }
}

/// Takes the held server process out of the slot, to be killed and reaped.
pub fn stop_pulsex_local<C>(slot: &mut Option<C>) -> (r: Option<C>)
    ensures
        r == *old(slot),
        (*final(slot)) is None,
{
    slot.take()
}

/// Marker for the lifetime of the local PulseX server: whoever holds it owns the
/// server process and stops it, with [`stop_pulsex_local`], when the wallet exits.
/// The type itself does nothing on drop; the wallet program attaches that step.
pub struct PulsexServerGuard;

} // verus!
