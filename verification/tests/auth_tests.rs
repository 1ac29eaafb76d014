use sanzu::auth::{select_subject_alt_name, AltName, AltNameError};
use sanzu::auth::{pam_client_step, PamClientAction, PamConversation};
use sanzu::auth::{KerberosClientAction, KerberosClientExchange, KerberosClientPhase};
use sanzu::auth::{
    check_kerberos_flags, client_step_token, get_username_from_principal,
    kerberos_client_identity, next_peer_token, sspi_continues, sspi_needs_complete,
    u32_to_result, AuthError, PamAction, PamAuth, PamAuthResult, PamError, PamPhase,
    SspiError, SspiStatus, GSS_C_INTEG_FLAG, GSS_C_MUTUAL_FLAG, PAM_MAX_ATTEMPTS,
};

fn realms(r: &[&str]) -> Vec<String> {
    r.iter().map(|s| s.to_string()).collect()
}

#[test]
fn username_from_principal() {
    let r = realms(&["EXAMPLE.COM", "OTHER.ORG"]);
    assert_eq!(get_username_from_principal("alice@EXAMPLE.COM", &r), Ok("alice".to_owned()));
    assert_eq!(get_username_from_principal("bob@OTHER.ORG", &r), Ok("bob".to_owned()));
}

#[test]
fn principal_of_unknown_realm() {
    let r = realms(&["EXAMPLE.COM"]);
    assert_eq!(get_username_from_principal("alice@EVIL.COM", &r), Err(AuthError::InvalidRealm));
    assert_eq!(get_username_from_principal("aliceEXAMPLE.COM", &r), Err(AuthError::InvalidRealm));
    assert_eq!(get_username_from_principal("alice@EXAMPLE.COM", &[]), Err(AuthError::InvalidRealm));
}

#[test]
fn first_matching_realm_wins() {
    let r = realms(&["B", "A@B"]);
    assert_eq!(get_username_from_principal("u@A@B", &r), Ok("u@A".to_owned()));
    let r = realms(&["A@B", "B"]);
    assert_eq!(get_username_from_principal("u@A@B", &r), Ok("u".to_owned()));
}

#[test]
fn kerberos_flags() {
    assert_eq!(check_kerberos_flags(GSS_C_MUTUAL_FLAG | GSS_C_INTEG_FLAG), Ok(()));
    assert_eq!(check_kerberos_flags(0xff), Ok(()));
    assert_eq!(check_kerberos_flags(GSS_C_MUTUAL_FLAG), Err(AuthError::FlagsNotCompliant));
    assert_eq!(check_kerberos_flags(GSS_C_INTEG_FLAG), Err(AuthError::FlagsNotCompliant));
}

#[test]
fn kerberos_identity() {
    let r = realms(&["EXAMPLE.COM"]);
    assert_eq!(kerberos_client_identity(34, "alice@EXAMPLE.COM", &r), Ok("alice".to_owned()));
    assert_eq!(kerberos_client_identity(2, "alice@EXAMPLE.COM", &r), Err(AuthError::FlagsNotCompliant));
    assert_eq!(kerberos_client_identity(34, "alice@X", &r), Err(AuthError::InvalidRealm));
}

#[test]
fn kerberos_tokens() {
    assert_eq!(next_peer_token(vec![]), None);
    assert_eq!(next_peer_token(vec![1, 2]), Some(vec![1, 2]));
    assert_eq!(client_step_token(None), (vec![], true));
    assert_eq!(client_step_token(Some(vec![3])), (vec![3], false));
}

#[test]
fn sspi_status_codes() {
    assert_eq!(u32_to_result(0), Ok(SspiStatus::SecOk));
    assert_eq!(u32_to_result(0x00090312), Ok(SspiStatus::ContinueNeeded));
    assert_eq!(u32_to_result(0x00090313), Ok(SspiStatus::CompleteNeeded));
    assert_eq!(u32_to_result(0x00090314), Ok(SspiStatus::CompleteAndContinue));
    assert_eq!(u32_to_result(7), Ok(SspiStatus::Other("Sspi unknown status".to_owned())));
    assert_eq!(u32_to_result(0x80090308), Err(SspiError { code: 0x80090308 }));
    assert!(sspi_continues(&SspiStatus::ContinueNeeded));
    assert!(sspi_continues(&SspiStatus::CompleteAndContinue));
    assert!(!sspi_continues(&SspiStatus::SecOk));
    assert!(sspi_needs_complete(&SspiStatus::CompleteNeeded));
    assert!(!sspi_needs_complete(&SspiStatus::ContinueNeeded));
}

#[test]
fn pam_success_on_first_attempt() {
    let mut pam = PamAuth::new();
    assert_eq!(pam.attempts(), 1);
    match pam.on_authenticate(PamAuthResult::Authenticated("carol".to_owned())) {
        PamAction::Finish(Ok(user)) => assert_eq!(user, "carol"),
        _ => panic!("expected success"),
    }
    assert_eq!(pam.phase(), PamPhase::Done);
}

#[test]
fn pam_refusals() {
    let mut pam = PamAuth::new();
    assert!(matches!(pam.on_authenticate(PamAuthResult::AuthError), PamAction::Finish(Err(PamError::AuthenticationError))));
    let mut pam = PamAuth::new();
    assert!(matches!(pam.on_authenticate(PamAuthResult::UserUnknown), PamAction::Finish(Err(PamError::AuthenticationError))));
    let mut pam = PamAuth::new();
    assert!(matches!(pam.on_authenticate(PamAuthResult::OtherError), PamAction::Finish(Err(PamError::PamFailure))));
}

#[test]
fn pam_password_change_then_success() {
    let mut pam = PamAuth::new();
    assert!(matches!(pam.on_authenticate(PamAuthResult::NewAuthtokRequired), PamAction::ChangeToken));
    assert_eq!(pam.phase(), PamPhase::ChangingToken);
    assert!(matches!(pam.on_token_changed(true), PamAction::Authenticate));
    assert_eq!(pam.attempts(), 2);
    assert!(matches!(pam.on_authenticate(PamAuthResult::Authenticated("dan".to_owned())), PamAction::Finish(Ok(_))));
}

#[test]
fn pam_failed_password_change() {
    let mut pam = PamAuth::new();
    pam.on_authenticate(PamAuthResult::NewAuthtokRequired);
    assert!(matches!(pam.on_token_changed(false), PamAction::Finish(Err(PamError::ChauthtokFailed))));
    assert_eq!(PamError::ChauthtokFailed.client_message(), None);
}

#[test]
fn pam_gives_up_after_the_last_attempt() {
    let mut pam = PamAuth::new();
    let mut authentications = 1;
    loop {
        assert!(matches!(pam.on_authenticate(PamAuthResult::NewAuthtokRequired), PamAction::ChangeToken));
        match pam.on_token_changed(true) {
            PamAction::Authenticate => authentications += 1,
            PamAction::Finish(Err(e)) => {
                assert_eq!(e, PamError::NotAuthenticated);
                break;
            }
            _ => panic!("unexpected action"),
        }
    }
    assert_eq!(authentications, PAM_MAX_ATTEMPTS);
    assert_eq!(PamError::NotAuthenticated.client_message(), Some("Pam Authentification failed"));
    assert_eq!(PamError::AuthenticationError.client_message(), Some("Authentication error"));
    assert_eq!(PamError::PamFailure.client_message(), Some("Error during pam authentication"));
}

#[test]
fn subject_alt_names() {
    let one = [AltName::Other, AltName::Email("eve@EXAMPLE.COM".to_owned()), AltName::Other];
    assert_eq!(select_subject_alt_name(&one), Ok("eve@EXAMPLE.COM".to_owned()));
    let none = [AltName::Other];
    assert_eq!(select_subject_alt_name(&none), Err(AltNameError::Missing));
    assert_eq!(select_subject_alt_name(&[]), Err(AltNameError::Missing));
    let two = [AltName::Email("a@X".to_owned()), AltName::Email("b@X".to_owned())];
    assert_eq!(select_subject_alt_name(&two), Err(AltNameError::Multiple));
}

#[test]
fn kerberos_client_exchange_until_empty_reply() {
    let mut x = KerberosClientExchange::new();
    assert_eq!(x.phase(), KerberosClientPhase::Stepping);
    match x.on_step(Some(vec![1, 2])) {
        KerberosClientAction::SendAndAwait(t) => assert_eq!(t, vec![1, 2]),
        _ => panic!("token not sent"),
    }
    assert_eq!(x.phase(), KerberosClientPhase::AwaitingReply);
    match x.on_reply(vec![9]) {
        KerberosClientAction::Step(t) => assert_eq!(t, vec![9]),
        _ => panic!("server token not stepped"),
    }
    assert_eq!(x.phase(), KerberosClientPhase::Stepping);
    x.on_step(Some(vec![3]));
    assert!(matches!(x.on_reply(vec![]), KerberosClientAction::CheckFlags));
    assert_eq!(x.phase(), KerberosClientPhase::CheckingFlags);
    // an empty reply before the context is complete: the flags are missing
    assert!(matches!(
        x.on_flags(0),
        KerberosClientAction::Finish(Err(AuthError::FlagsNotCompliant))
    ));
    assert_eq!(x.phase(), KerberosClientPhase::Done);
}

#[test]
fn kerberos_client_exchange_last_step() {
    let mut x = KerberosClientExchange::new();
    match x.on_step(None) {
        KerberosClientAction::SendAndCheck(t) => assert!(t.is_empty()),
        _ => panic!("empty token not sent"),
    }
    assert_eq!(x.phase(), KerberosClientPhase::CheckingFlags);
    assert!(matches!(
        x.on_flags(GSS_C_MUTUAL_FLAG | GSS_C_INTEG_FLAG),
        KerberosClientAction::Finish(Ok(()))
    ));
}

#[test]
fn pam_conversation_answers() {
    assert!(matches!(
        pam_client_step(PamConversation::Echo("login:".to_owned())),
        PamClientAction::SendUser(p) if p == "login:"
    ));
    assert!(matches!(
        pam_client_step(PamConversation::Blind("Password:".to_owned())),
        PamClientAction::SendPassword(p) if p == "Password:"
    ));
    assert!(matches!(
        pam_client_step(PamConversation::Info("hi".to_owned())),
        PamClientAction::ShowInfo(p) if p == "hi"
    ));
    assert!(matches!(
        pam_client_step(PamConversation::Error("no".to_owned())),
        PamClientAction::ShowError(p) if p == "no"
    ));
    assert!(matches!(pam_client_step(PamConversation::End(true)), PamClientAction::End(true)));
    assert!(matches!(pam_client_step(PamConversation::Missing), PamClientAction::Fail));
}
