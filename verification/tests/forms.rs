use vaughan_dioxus::forms::{
    attempt_message, can_submit_unlock, chain_id_or_default, hd_account_name, import_export_gate, limiter_call,
    new_onboarding_form, onboarding_back, onboarding_continue_create, onboarding_continue_restore,
    onboarding_finish_create, onboarding_finish_restore, onboarding_result_error, onboarding_start_create,
    onboarding_start_restore, parse_token_decimals, remember_session_password, requires_password_policy,
    revealed_private_key, startup_unlock_gate, AttemptOutcome, GateStep, ImportExportKind, LimiterCall, LockoutWording,
    OnboardingAction, OnboardingPhase,
};

#[test]
fn limiter_and_messages() {
    assert_eq!(limiter_call(AttemptOutcome::Succeeded), LimiterCall::RegisterSuccess);
    assert_eq!(limiter_call(AttemptOutcome::WrongPassword), LimiterCall::RegisterFailure);
    assert_eq!(limiter_call(AttemptOutcome::OtherError), LimiterCall::Nothing);
    assert_eq!(attempt_message(AttemptOutcome::Succeeded, false, "x".to_string(), LockoutWording::Unlock, 60), None);
    assert_eq!(
        attempt_message(AttemptOutcome::WrongPassword, false, "Invalid password".to_string(), LockoutWording::Unlock, 60),
        Some("Invalid password".to_string())
    );
    assert_eq!(
        attempt_message(AttemptOutcome::WrongPassword, true, "Invalid password".to_string(), LockoutWording::Unlock, 120),
        Some("Too many failed attempts. Try again in about 2 minutes.".to_string())
    );
    assert_eq!(
        attempt_message(AttemptOutcome::WrongPassword, true, "x".to_string(), LockoutWording::ImportExport, 600),
        Some("Too many failed password attempts. Try again in about 10 minutes.".to_string())
    );
    assert_eq!(
        attempt_message(AttemptOutcome::OtherError, true, "disk".to_string(), LockoutWording::Unlock, 60),
        Some("disk".to_string())
    );
}

#[test]
fn unlock_and_session_password() {
    assert!(can_submit_unlock("pw", false));
    assert!(!can_submit_unlock("", false));
    assert!(!can_submit_unlock("pw", true));
    assert!(can_submit_unlock(" ", false));
    assert!(remember_session_password(" pw "));
    assert!(!remember_session_password("   "));
}

#[test]
fn import_export_gating() {
    assert!(requires_password_policy(ImportExportKind::ImportMnemonic));
    assert!(requires_password_policy(ImportExportKind::ImportPrivateKey));
    assert!(!requires_password_policy(ImportExportKind::ExportMnemonic));
    assert_eq!(import_export_gate(ImportExportKind::ImportMnemonic, false, true, 60), GateStep::PolicyRejected);
    assert_eq!(
        import_export_gate(ImportExportKind::ExportMnemonic, false, true, 180),
        GateStep::LockedOut("Too many failed password attempts. Try again in about 3 minutes.".to_string())
    );
    assert_eq!(import_export_gate(ImportExportKind::AddHdAccount, true, false, 60), GateStep::Proceed);
    assert_eq!(hd_account_name("  ".to_string()), "HD account");
    assert_eq!(hd_account_name("Trading".to_string()), "Trading");
    assert_eq!(revealed_private_key("ab12"), "0xab12");
}

#[test]
fn token_form_decimals() {
    assert_eq!(parse_token_decimals(" 6 "), 6);
    assert_eq!(parse_token_decimals("+8"), 8);
    assert_eq!(parse_token_decimals("255"), 255);
    assert_eq!(parse_token_decimals("256"), 18);
    assert_eq!(parse_token_decimals("0"), 0);
    assert_eq!(parse_token_decimals("-1"), 18);
    assert_eq!(parse_token_decimals("+"), 18);
    assert_eq!(parse_token_decimals(""), 18);
    assert_eq!(parse_token_decimals("1 2"), 18);
    assert_eq!(chain_id_or_default(None), 1);
    assert_eq!(chain_id_or_default(Some(369)), 369);
}

#[test]
fn onboarding_create_flow() {
    let mut f = new_onboarding_form();
    assert_eq!(f.phase, OnboardingPhase::Pick);
    onboarding_start_create(&mut f);
    assert_eq!(f.phase, OnboardingPhase::CreatePassword);
    f.password = "Secret#123".to_string();
    f.password2 = "Secret#124".to_string();
    onboarding_continue_create(&mut f, Ok(()), Ok("w1 w2".to_string()));
    assert_eq!(f.error, Some("Passwords do not match.".to_string()));
    assert_eq!(f.phase, OnboardingPhase::CreatePassword);
    f.password2 = "Secret#123".to_string();
    onboarding_continue_create(&mut f, Err("Use 12+ chars".to_string()), Ok("w1 w2".to_string()));
    assert_eq!(f.error, Some("Use 12+ chars".to_string()));
    onboarding_continue_create(&mut f, Ok(()), Ok("w1 w2".to_string()));
    assert_eq!(f.phase, OnboardingPhase::CreateBackup);
    assert_eq!(f.generated_mnemonic, "w1 w2");
    assert!(matches!(onboarding_finish_create(&mut f), OnboardingAction::Nothing));
    f.backed_up = true;
    assert_eq!(
        onboarding_finish_create(&mut f),
        OnboardingAction::FinishCreate { password: "Secret#123".to_string(), mnemonic: "w1 w2".to_string() }
    );
    onboarding_back(&mut f);
    assert_eq!(f.phase, OnboardingPhase::CreatePassword);
    onboarding_back(&mut f);
    assert_eq!(f.phase, OnboardingPhase::Pick);
}

#[test]
fn onboarding_restore_flow() {
    let mut f = new_onboarding_form();
    onboarding_start_restore(&mut f);
    assert_eq!(f.phase, OnboardingPhase::RestorePassword);
    f.password = "pw".to_string();
    f.password2 = "pw".to_string();
    onboarding_continue_restore(&mut f, Ok(()));
    assert_eq!(f.phase, OnboardingPhase::RestoreMnemonic);
    f.restore_mnemonic = "   ".to_string();
    assert!(matches!(onboarding_finish_restore(&mut f), OnboardingAction::Nothing));
    assert_eq!(f.error, Some("Enter your recovery phrase.".to_string()));
    f.restore_mnemonic = "  abandon ability  ".to_string();
    assert_eq!(
        onboarding_finish_restore(&mut f),
        OnboardingAction::FinishRestore { password: "pw".to_string(), mnemonic: "abandon ability".to_string() }
    );
    assert_eq!(f.error, None);
    assert_eq!(onboarding_result_error(Ok(()), "policy", "x".to_string()), None);
    assert_eq!(
        onboarding_result_error(Err(AttemptOutcome::WrongPassword), "policy", "x".to_string()),
        Some("policy".to_string())
    );
    assert_eq!(
        onboarding_result_error(Err(AttemptOutcome::OtherError), "policy", "x".to_string()),
        Some("x".to_string())
    );
}

#[test]
fn startup_unlock_refuses_while_locked_out() {
    assert_eq!(
        startup_unlock_gate(true, 300),
        GateStep::LockedOut("Too many failed attempts. Try again in about 5 minutes.".to_string())
    );
    assert_eq!(startup_unlock_gate(false, 300), GateStep::Proceed);
}
