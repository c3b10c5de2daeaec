//! Decisions of the password-protected forms: onboarding, the startup unlock, the
//! accounts & keys actions with their attempt limiter, and the token form.

use vstd::prelude::*;
use crate::session::{import_export_lockout_message, lockout_message, lockout_minutes};
use crate::text::{all_digits, chars_of, decimal_seq, is_digit, digits_value, push_str, str_eq, to_owned_string, trim_chars, trim_seq, string_from_chars};

verus! {

broadcast use vstd::string::group_string_axioms;

// ---------------------------------------------------------------------------
// Password attempts
// ---------------------------------------------------------------------------

/// How a password-checked action ended.
#[derive(Clone, Copy, Debug, PartialEq, Eq, Structural)]
pub enum AttemptOutcome {
    Succeeded,
    /// The password was wrong (a failed decryption or an invalid password).
    WrongPassword,
    /// Any other failure.
    OtherError,
}

/// What the attempt limiter is told.
#[derive(Clone, Copy, Debug, PartialEq, Eq, Structural)]
pub enum LimiterCall {
    RegisterSuccess,
    RegisterFailure,
    Nothing,
}

/// Only a wrong password counts against the limiter; a success clears it.
pub fn limiter_call(outcome: AttemptOutcome) -> (r: LimiterCall)
    ensures
        outcome == AttemptOutcome::Succeeded ==> r == LimiterCall::RegisterSuccess,
        outcome == AttemptOutcome::WrongPassword ==> r == LimiterCall::RegisterFailure,
        outcome == AttemptOutcome::OtherError ==> r == LimiterCall::Nothing,
{
    match outcome {
        AttemptOutcome::Succeeded => LimiterCall::RegisterSuccess,
        AttemptOutcome::WrongPassword => LimiterCall::RegisterFailure,
        AttemptOutcome::OtherError => LimiterCall::Nothing,
    }
}

/// Which lockout wording a form uses.
#[derive(Clone, Copy, Debug, PartialEq, Eq, Structural)]
pub enum LockoutWording {
    /// The startup unlock.
    Unlock,
    /// The accounts & keys view.
    ImportExport,
}

/// The lockout text of a form.
pub open spec fn lockout_text(w: LockoutWording, lockout_secs: u64) -> Seq<char> {
    match w {
        LockoutWording::Unlock => "Too many failed attempts. Try again in about "@ + decimal_seq(
            lockout_minutes(lockout_secs),
        ) + " minutes."@,
        LockoutWording::ImportExport => "Too many failed password attempts. Try again in about "@
            + decimal_seq(lockout_minutes(lockout_secs)) + " minutes."@,
    }
}

/// The lockout text of a form.
pub fn lockout_text_for(w: LockoutWording, lockout_secs: u64) -> (r: String)
    ensures
        r@ == lockout_text(w, lockout_secs),
{
    match w {
        LockoutWording::Unlock => lockout_message(lockout_secs),
        LockoutWording::ImportExport => import_export_lockout_message(lockout_secs),
    }
}

/// The error shown after an attempt: none on success; after a wrong password the
/// error's own message while the limiter still accepts attempts, the lockout text
/// once it locks (`failure_locked`); the error's message for other failures.
pub open spec fn attempt_message_spec(
    outcome: AttemptOutcome,
    failure_locked: bool,
    user_message: Seq<char>,
    w: LockoutWording,
    lockout_secs: u64,
) -> Option<Seq<char>> {
    match outcome {
        AttemptOutcome::Succeeded => None,
        AttemptOutcome::WrongPassword => if failure_locked {
            Some(lockout_text(w, lockout_secs))
        } else {
            Some(user_message)
        },
        AttemptOutcome::OtherError => Some(user_message),
    }
}

/// The error shown after a password-checked action.
pub fn attempt_message(
    outcome: AttemptOutcome,
    failure_locked: bool,
    user_message: String,
    w: LockoutWording,
    lockout_secs: u64,
) -> (r: Option<String>)
    ensures
        (match r {
            Some(s) => Some(s@),
            None => None,
        }) == attempt_message_spec(outcome, failure_locked, user_message@, w, lockout_secs),
{
    match outcome {
        AttemptOutcome::Succeeded => None,
        AttemptOutcome::WrongPassword => if failure_locked {
            Some(lockout_text_for(w, lockout_secs))
        } else {
            Some(user_message)
        },
        AttemptOutcome::OtherError => Some(user_message),
    }
}

/// The startup unlock is tried only with a password and while no attempt runs.
pub fn can_submit_unlock(password: &str, busy: bool) -> (r: bool)
    ensures
        r == (password@.len() > 0 && !busy),
{
    let v = chars_of(password);
    v.len() > 0 && !busy
}

/// Before the startup unlock checks a password: while the attempt limiter is
/// locked the attempt is refused at once with the lockout text (the password is not
/// checked and the form does not turn busy); otherwise the check goes ahead.
pub fn startup_unlock_gate(limiter_locked: bool, lockout_secs: u64) -> (r: GateStep)
    ensures
        limiter_locked ==> (r matches GateStep::LockedOut(m) && m@ == lockout_text(LockoutWording::Unlock, lockout_secs)),
        !limiter_locked ==> r is Proceed,
{
    if limiter_locked {
        GateStep::LockedOut(lockout_message(lockout_secs))
    } else {
        GateStep::Proceed
    }
}

/// A password is kept for the session only when it is not blank.
pub fn remember_session_password(password: &str) -> (r: bool)
    ensures
        r == (trim_seq(password@).len() > 0),
{
    let t = trim_chars(password);
    t.len() > 0
}

// ---------------------------------------------------------------------------
// Accounts & keys
// ---------------------------------------------------------------------------

/// The actions of the accounts & keys view.
#[derive(Clone, Copy, Debug, PartialEq, Eq, Structural)]
pub enum ImportExportKind {
    ImportMnemonic,
    ExportMnemonic,
    AddHdAccount,
    ImportPrivateKey,
    ExportPrivateKey,
}

/// Importing a phrase or a key first checks the password against the policy.
pub open spec fn needs_policy(kind: ImportExportKind) -> bool {
    kind == ImportExportKind::ImportMnemonic || kind == ImportExportKind::ImportPrivateKey
}

/// Whether an action first checks the password against the policy.
pub fn requires_password_policy(kind: ImportExportKind) -> (r: bool)
    ensures
        r == needs_policy(kind),
{
    match kind {
        ImportExportKind::ImportMnemonic => true,
        ImportExportKind::ImportPrivateKey => true,
        _ => false,
    }
}

/// What happens before an action runs.
#[derive(Clone, Debug, PartialEq, Eq)]
pub enum GateStep {
    /// The password fails the policy: the policy text is shown.
    PolicyRejected,
    /// The limiter is locked: this text is shown.
    LockedOut(String),
    /// The action runs.
    Proceed,
}

/// The checks before an action: the password policy (imports only, on the trimmed
/// password: `policy_ok`), then the attempt limiter.
pub fn import_export_gate(kind: ImportExportKind, policy_ok: bool, limiter_locked: bool, lockout_secs: u64) -> (r:
    GateStep)
    ensures
        needs_policy(kind) && !policy_ok ==> r is PolicyRejected,
        !(needs_policy(kind) && !policy_ok) && limiter_locked ==> (r matches GateStep::LockedOut(m)
            && m@ == lockout_text(LockoutWording::ImportExport, lockout_secs)),
        !(needs_policy(kind) && !policy_ok) && !limiter_locked ==> r is Proceed,
{
    if requires_password_policy(kind) && !policy_ok {
        GateStep::PolicyRejected
    } else if limiter_locked {
        GateStep::LockedOut(import_export_lockout_message(lockout_secs))
    } else {
        GateStep::Proceed
    }
}

/// Name of a new HD account: the given name, or `HD account` when it is blank.
pub fn hd_account_name(name: String) -> (r: String)
    ensures
        trim_seq(name@).len() == 0 ==> r@ == "HD account"@,
        trim_seq(name@).len() > 0 ==> r == name,
{
    let t = trim_chars(name.as_str());
    if t.len() == 0 {
        to_owned_string("HD account")
    } else {
        name
    }
}

/// An exported private key as shown: `0x` and the key's hex.
pub fn revealed_private_key(pk_hex: &str) -> (r: String)
    ensures
        r@ == "0x"@ + pk_hex@,
{
    let mut s = to_owned_string("0x");
    push_str(&mut s, pk_hex);
    s
}

// ---------------------------------------------------------------------------
// Token form
// ---------------------------------------------------------------------------

/// `s` without one leading `+`.
pub open spec fn after_plus(s: Seq<char>) -> Seq<char> {
    if s.len() > 0 && s[0] == '+' {
        s.skip(1)
    } else {
        s
    }
}

/// `u8::from_str`: an optional `+` and then one or more ASCII digits whose value
/// fits in a byte; anything else (whitespace included) fails.
pub open spec fn u8_parse_spec(s: Seq<char>) -> Option<u8> {
    let d = after_plus(s);
    if d.len() > 0 && all_digits(d) && digits_value(d) <= 255 {
        Some(digits_value(d) as u8)
    } else {
        None
    }
}

proof fn lemma_digits_value_grows(s: Seq<char>, k: int)
    requires
        0 <= k <= s.len(),
        forall|i: int| 0 <= i < s.len() ==> is_digit(#[trigger] s[i]),
    ensures
        digits_value(s.take(k)) <= digits_value(s),
    decreases s.len() - k,
{
    if k < s.len() {
        lemma_digits_value_grows(s.drop_last(), if k < s.len() { k } else { k - 1 });
        assert(s.drop_last().take(k) =~= s.take(k));
    } else {
        assert(s.take(k) =~= s);
    }
}

/// Decimals typed in the token form: the trimmed text as a byte, else 18.
pub fn parse_token_decimals(input: &str) -> (r: u8)
    ensures
        r == (match u8_parse_spec(trim_seq(input@)) {
            Some(d) => d,
            None => 18u8,
        }),
{
    let t = trim_chars(input);
    let start: usize = if t.len() > 0 && t[0] == '+' {
        1
    } else {
        0
    };
    let ghost d = after_plus(t@);
    assert(t@.skip(start as int) =~= d);
    if start >= t.len() {
        return 18;
    }
    let mut value: u32 = 0;
    let mut i: usize = start;
    while i < t.len()
        invariant
            start <= i <= t.len(),
            t@ == trim_seq(input@),
            d == after_plus(t@),
            d == t@.skip(start as int),
            value <= 255,
            value == digits_value(d.take(i - start)),
            forall|j: int| 0 <= j < i - start ==> is_digit(#[trigger] d[j]),
        decreases t.len() - i,
    {
        let c = t[i];
        assert(d[i - start] == c);
        if !('0' <= c && c <= '9') {
            assert(!is_digit(d[i - start]));
            return 18;
        }
        let digit = (c as u32) - 48;
        assert(d.take(i - start + 1).drop_last() =~= d.take(i - start));
        let next = value * 10 + digit;
        if next > 255 {
            proof {
                assert forall|j: int| 0 <= j < i - start + 1 implies is_digit(#[trigger] d.take(i - start + 1)[j]) by {
                    assert(d.take(i - start + 1)[j] == d[j]);
                }
                if all_digits(d) {
                    lemma_digits_value_grows(d, i - start + 1);
                }
            }
            return 18;
        }
        value = next;
        i += 1;
    }
    assert(d.take(d.len() as int) =~= d);
    value as u8
}

/// The chain whose tokens and settings are shown: the active network's, else 1.
pub fn chain_id_or_default(active_chain_id: Option<u64>) -> (r: u64)
    ensures
        r == (match active_chain_id {
            Some(c) => c,
            None => 1,
        }),
{
    match active_chain_id {
        Some(c) => c,
        None => 1,
    }
}

// ---------------------------------------------------------------------------
// Onboarding
// ---------------------------------------------------------------------------

/// The steps of first-launch setup.
#[derive(Clone, Copy, Debug, PartialEq, Eq, Structural)]
pub enum OnboardingPhase {
    Pick,
    CreatePassword,
    CreateBackup,
    RestorePassword,
    RestoreMnemonic,
}

/// The setup form.
pub struct OnboardingForm {
    pub phase: OnboardingPhase,
    pub password: String,
    pub password2: String,
    pub generated_mnemonic: String,
    pub restore_mnemonic: String,
    pub backed_up: bool,
    pub error: Option<String>,
}

/// What the setup asks the wallet to do.
#[derive(Clone, Debug, PartialEq, Eq)]
pub enum OnboardingAction {
    Nothing,
    /// Create the master wallet with this password and phrase.
    FinishCreate { password: String, mnemonic: String },
    /// Restore the master wallet from this phrase with this password.
    FinishRestore { password: String, mnemonic: String },
}

/// A fresh setup form.
pub fn new_onboarding_form() -> (f: OnboardingForm)
    ensures
        f.phase == OnboardingPhase::Pick,
        f.password@.len() == 0,
        f.password2@.len() == 0,
        f.generated_mnemonic@.len() == 0,
        f.restore_mnemonic@.len() == 0,
        !f.backed_up,
        f.error is None,
{
    OnboardingForm {
        phase: OnboardingPhase::Pick,
        password: String::new(),
        password2: String::new(),
        generated_mnemonic: String::new(),
        restore_mnemonic: String::new(),
        backed_up: false,
        error: None,
    }
}

/// Choosing "create": passwords and the generated phrase are cleared.
pub fn onboarding_start_create(f: &mut OnboardingForm)
    ensures
        final(f).phase == OnboardingPhase::CreatePassword,
        final(f).password@.len() == 0 && final(f).password2@.len() == 0,
        final(f).generated_mnemonic@.len() == 0,
        !final(f).backed_up,
        final(f).error is None,
        final(f).restore_mnemonic == old(f).restore_mnemonic,
{
    f.error = None;
    f.password = String::new();
    f.password2 = String::new();
    f.generated_mnemonic = String::new();
    f.backed_up = false;
    f.phase = OnboardingPhase::CreatePassword;
}

/// Choosing "restore": passwords and the typed phrase are cleared.
pub fn onboarding_start_restore(f: &mut OnboardingForm)
    ensures
        final(f).phase == OnboardingPhase::RestorePassword,
        final(f).password@.len() == 0 && final(f).password2@.len() == 0,
        final(f).restore_mnemonic@.len() == 0,
        final(f).error is None,
        final(f).backed_up == old(f).backed_up,
        final(f).generated_mnemonic == old(f).generated_mnemonic,
{
    f.error = None;
    f.password = String::new();
    f.password2 = String::new();
    f.restore_mnemonic = String::new();
    f.phase = OnboardingPhase::RestorePassword;
}

/// The step a Back button returns to.
pub open spec fn back_phase(p: OnboardingPhase) -> OnboardingPhase {
    match p {
        OnboardingPhase::CreateBackup => OnboardingPhase::CreatePassword,
        OnboardingPhase::RestoreMnemonic => OnboardingPhase::RestorePassword,
        _ => OnboardingPhase::Pick,
    }
}

/// Back: one step up, clearing the error.
pub fn onboarding_back(f: &mut OnboardingForm)
    ensures
        final(f).phase == back_phase(old(f).phase),
        final(f).error is None,
        final(f).password == old(f).password,
        final(f).password2 == old(f).password2,
{
    f.error = None;
    f.phase = match f.phase {
        OnboardingPhase::CreateBackup => OnboardingPhase::CreatePassword,
        OnboardingPhase::RestoreMnemonic => OnboardingPhase::RestorePassword,
        _ => OnboardingPhase::Pick,
    };
}

/// The password step's check: both entries equal, then the policy (`policy`, its
/// description on failure).
pub open spec fn password_step_error(password: Seq<char>, password2: Seq<char>, policy: Result<(), Seq<char>>) -> Option<Seq<char>> {
    if password != password2 {
        Some("Passwords do not match."@)
    } else if policy is Err {
        Some(policy->Err_0)
    } else {
        None
    }
}

fn password_step_check(f: &OnboardingForm, policy: Result<(), String>) -> (r: Option<String>)
    ensures
        (match r {
            Some(s) => Some(s@),
            None => None,
        }) == password_step_error(
            f.password@,
            f.password2@,
            match policy {
                Ok(()) => Ok(()),
                Err(e) => Err(e@),
            },
        ),
{
    if !str_eq(f.password.as_str(), f.password2.as_str()) {
        return Some(to_owned_string("Passwords do not match."));
    }
    match policy {
        Err(e) => Some(e),
        Ok(()) => None,
    }
}

/// Continue on the create-password step. `policy` is the password policy's verdict
/// and `generated` a fresh 12-word phrase (or its generation error). On success the
/// backup step shows the phrase, unconfirmed.
pub fn onboarding_continue_create(f: &mut OnboardingForm, policy: Result<(), String>, generated: Result<String, String>)
    requires
        old(f).phase == OnboardingPhase::CreatePassword,
    ensures
        ({
            let pol = match policy {
                Ok(()) => Ok::<(), Seq<char>>(()),
                Err(e) => Err(e@),
            };
            match password_step_error(old(f).password@, old(f).password2@, pol) {
                Some(m) => final(f).error matches Some(e) && e@ == m && final(f).phase == OnboardingPhase::CreatePassword,
                None => match generated {
                    Ok(p) => final(f).phase == OnboardingPhase::CreateBackup && final(f).generated_mnemonic == p
                        && !final(f).backed_up && final(f).error is None,
                    Err(e) => final(f).error == Some(e) && final(f).phase == OnboardingPhase::CreatePassword,
                },
            }
        }),
        final(f).password == old(f).password,
        final(f).password2 == old(f).password2,
{
    f.error = None;
    match password_step_check(f, policy) {
        Some(m) => {
            f.error = Some(m);
        },
        None => match generated {
            Ok(p) => {
                f.generated_mnemonic = p;
                f.backed_up = false;
                f.phase = OnboardingPhase::CreateBackup;
            },
            Err(e) => {
                f.error = Some(e);
            },
        },
    }
}

/// Continue on the restore-password step: on success the phrase step follows.
pub fn onboarding_continue_restore(f: &mut OnboardingForm, policy: Result<(), String>)
    requires
        old(f).phase == OnboardingPhase::RestorePassword,
    ensures
        ({
            let pol = match policy {
                Ok(()) => Ok::<(), Seq<char>>(()),
                Err(e) => Err(e@),
            };
            match password_step_error(old(f).password@, old(f).password2@, pol) {
                Some(m) => final(f).error matches Some(e) && e@ == m && final(f).phase == OnboardingPhase::RestorePassword,
                None => final(f).phase == OnboardingPhase::RestoreMnemonic && final(f).error is None,
            }
        }),
        final(f).password == old(f).password,
{
    f.error = None;
    match password_step_check(f, policy) {
        Some(m) => {
            f.error = Some(m);
        },
        None => {
            f.phase = OnboardingPhase::RestoreMnemonic;
        },
    }
}

/// Finish on the backup step: only once the user confirmed the backup, the wallet is
/// created with the password and the shown phrase.
pub fn onboarding_finish_create(f: &mut OnboardingForm) -> (a: OnboardingAction)
    requires
        old(f).phase == OnboardingPhase::CreateBackup,
    ensures
        old(f).backed_up ==> (a matches OnboardingAction::FinishCreate { password, mnemonic } && password
            == old(f).password && mnemonic == old(f).generated_mnemonic),
        !old(f).backed_up ==> a is Nothing,
        final(f).error is None,
        final(f).phase == old(f).phase,
{
    f.error = None;
    if f.backed_up {
        OnboardingAction::FinishCreate { password: f.password.clone(), mnemonic: f.generated_mnemonic.clone() }
    } else {
        OnboardingAction::Nothing
    }
}

/// Finish on the phrase step: a blank phrase is refused; otherwise the wallet is
/// restored from the trimmed phrase.
pub fn onboarding_finish_restore(f: &mut OnboardingForm) -> (a: OnboardingAction)
    requires
        old(f).phase == OnboardingPhase::RestoreMnemonic,
    ensures
        trim_seq(old(f).restore_mnemonic@).len() == 0 ==> a is Nothing && (final(f).error matches Some(e)
            && e@ == "Enter your recovery phrase."@),
        trim_seq(old(f).restore_mnemonic@).len() > 0 ==> final(f).error is None && (
        a matches OnboardingAction::FinishRestore { password, mnemonic } && password == old(f).password
            && mnemonic@ == trim_seq(old(f).restore_mnemonic@)),
        final(f).phase == old(f).phase,
{
    f.error = None;
    let m = trim_chars(f.restore_mnemonic.as_str());
    if m.len() == 0 {
        f.error = Some(to_owned_string("Enter your recovery phrase."));
        return OnboardingAction::Nothing;
    }
    OnboardingAction::FinishRestore { password: f.password.clone(), mnemonic: string_from_chars(&m) }
}

/// After the wallet call: success completes onboarding; an invalid password shows
/// the password policy; other failures their message.
pub fn onboarding_result_error(result: Result<(), AttemptOutcome>, policy_description: &str, user_message: String) -> (r:
    Option<String>)
    ensures
        result is Ok ==> r is None,
        result == Err::<(), AttemptOutcome>(AttemptOutcome::WrongPassword) ==> (r matches Some(m) && m@
            == policy_description@),
        result is Err && result != Err::<(), AttemptOutcome>(AttemptOutcome::WrongPassword) ==> r == Some(user_message),
{
    match result {
        Ok(()) => None,
        Err(AttemptOutcome::WrongPassword) => Some(to_owned_string(policy_description)),
        Err(_) => Some(user_message),
    }
}

/// Only the two imports check the password policy; the exports and adding an HD
/// account are never refused by it, whatever the password.
pub proof fn law_only_imports_check_policy(kind: ImportExportKind)
    ensures
        needs_policy(kind) == (kind == ImportExportKind::ImportMnemonic || kind == ImportExportKind::ImportPrivateKey),
        kind == ImportExportKind::ExportMnemonic ==> !needs_policy(kind),
        kind == ImportExportKind::ExportPrivateKey ==> !needs_policy(kind),
        kind == ImportExportKind::AddHdAccount ==> !needs_policy(kind),
{
}

} // verus!
