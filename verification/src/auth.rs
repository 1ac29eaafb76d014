//! The decisions taken while a peer authenticates: the user name carried by
//! a Kerberos principal, the checks at the end of a Kerberos exchange, the
//! status codes of Windows SSPI, and the course of a PAM authentication.

use vstd::prelude::*;

verus! {

/// Why an authentication is refused.
#[derive(Debug, Clone, Copy, PartialEq, Eq)]
pub enum AuthError {
    /// The principal belongs to none of the allowed realms.
    InvalidRealm,
    /// The security context lacks mutual authentication or integrity.
    FlagsNotCompliant,
}

/// `suffix` ends `s`.
pub open spec fn ends_with(s: Seq<char>, suffix: Seq<char>) -> bool {
    suffix.len() <= s.len() && s.subrange(s.len() - suffix.len(), s.len() as int) == suffix
}

/// The text that ends a principal of `realm`: `@` and the realm.
pub open spec fn realm_suffix(realm: Seq<char>) -> Seq<char> {
    seq!['@'] + realm
}

/// `@` followed by `realm`: the text that ends a principal of `realm`.
fn at_realm(realm: &str) -> (s: String)
    ensures
        s@ == realm_suffix(realm@),
{
    let mut s = String::from_str("@");
    proof {
        reveal_strlit("@");
    }
    s.append(realm);
    s
}

/// Calls `str::strip_suffix` with a string pattern: the part of `s` before
/// `suffix` when `s` ends with `suffix`, else nothing.
#[verifier::external_body]
fn strip_suffix<'a>(s: &'a str, suffix: &str) -> (r: Option<&'a str>)
    ensures
        r is Some <==> ends_with(s@, suffix@),
        r matches Some(p) ==> p@ + suffix@ == s@,
{
    s.strip_suffix(suffix)
}

/// The user of `principal` for the first realm of `realms`, from index `i`
/// on, that ends it.
pub open spec fn principal_user_from(principal: Seq<char>, realms: Seq<String>, i: int) -> Option<
    Seq<char>,
>
    decreases realms.len() - i,
{
    if i < 0 || i >= realms.len() {
        None
    } else if ends_with(principal, realm_suffix(realms[i]@)) {
        Some(principal.subrange(0, principal.len() - realm_suffix(realms[i]@).len()))
    } else {
        principal_user_from(principal, realms, i + 1)
    }
}

/// The user of `principal` (`<user>@<realm>`) for the first of `realms`
/// that ends it.
pub open spec fn principal_user(principal: Seq<char>, realms: Seq<String>) -> Option<Seq<char>> {
    principal_user_from(principal, realms, 0)
}

/// Index of the first realm of `realms`, from index `i` on, that ends
/// `principal`; the number of realms when none does.
pub open spec fn first_realm_from(principal: Seq<char>, realms: Seq<String>, i: int) -> int
    decreases realms.len() - i,
{
    if i < 0 || i >= realms.len() {
        realms.len() as int
    } else if ends_with(principal, realm_suffix(realms[i]@)) {
        i
    } else {
        first_realm_from(principal, realms, i + 1)
    }
}

proof fn lemma_principal_user_from(principal: Seq<char>, realms: Seq<String>, i: int)
    requires
        0 <= i,
    ensures
        principal_user_from(principal, realms, i) matches Some(u) ==> {
            let r = first_realm_from(principal, realms, i);
            &&& i <= r < realms.len()
            &&& u + realm_suffix(realms[r]@) == principal
        },
    decreases realms.len() - i,
{
    if i < realms.len() {
        if ends_with(principal, realm_suffix(realms[i]@)) {
            let u = principal.subrange(0, principal.len() - realm_suffix(realms[i]@).len());
            assert(u + realm_suffix(realms[i]@) =~= principal);
        } else {
            lemma_principal_user_from(principal, realms, i + 1);
        }
    }
}

/// Law: the user found in a principal is what comes before `@` and one of
/// the allowed realms, the first one that ends it: the principal is
/// `<user>@<realm>`.
pub proof fn lemma_principal_user(principal: Seq<char>, realms: Seq<String>)
    ensures
        principal_user(principal, realms) matches Some(u) ==> {
            let r = first_realm_from(principal, realms, 0);
            &&& 0 <= r < realms.len()
            &&& u + realm_suffix(realms[r]@) == principal
        },
{
    lemma_principal_user_from(principal, realms, 0);
}

/// Retrieves the user name from `<username>@<realm>`, for the first realm
/// of `realms` that the principal belongs to.
pub fn get_username_from_principal(username: &str, realms: &[String]) -> (res: Result<
    String,
    AuthError,
>)
    ensures
        match res {
            Ok(user) => principal_user(username@, realms@) == Some(user@),
            Err(e) => principal_user(username@, realms@) is None && e == AuthError::InvalidRealm,
        },
{
    let mut i: usize = 0;
    while i < realms.len()
        invariant
            i <= realms@.len(),
            principal_user(username@, realms@) == principal_user_from(username@, realms@, i as int),
        decreases realms@.len() - i,
    {
        let realm_and_at = at_realm(realms[i].as_str());
        match strip_suffix(username, realm_and_at.as_str()) {
            Some(user) => {
                proof {
                    assert(username@.subrange(0, username@.len() - realm_and_at@.len()) =~= user@);
                }
                return Ok(user.to_owned());
            },
            None => {},
        }
        i = i + 1;
    }
    Err(AuthError::InvalidRealm)
}

/// GSSAPI flag: both peers are authenticated.
pub const GSS_C_MUTUAL_FLAG: u32 = 2;

/// GSSAPI flag: messages are protected against tampering.
pub const GSS_C_INTEG_FLAG: u32 = 32;

/// The flags a Kerberos security context must have.
pub open spec fn kerberos_flags_ok(flags: u32) -> bool {
    flags & (GSS_C_MUTUAL_FLAG | GSS_C_INTEG_FLAG) == (GSS_C_MUTUAL_FLAG | GSS_C_INTEG_FLAG)
}

/// Checks that an established Kerberos context has mutual authentication
/// and integrity.
pub fn check_kerberos_flags(flags: u32) -> (res: Result<(), AuthError>)
    ensures
        kerberos_flags_ok(flags) ==> res is Ok,
        !kerberos_flags_ok(flags) ==> res == Err::<(), AuthError>(AuthError::FlagsNotCompliant),
{
    let required = GSS_C_MUTUAL_FLAG | GSS_C_INTEG_FLAG;
    if flags & required != required {
        Err(AuthError::FlagsNotCompliant)
    } else {
        Ok(())
    }
}

/// What a Kerberos peer does with the token it received: an empty token
/// ends the exchange (`None`); any other is the input of its next step.
pub fn next_peer_token(token: Vec<u8>) -> (r: Option<Vec<u8>>)
    ensures
        token@.len() == 0 ==> r is None,
        token@.len() > 0 ==> (r matches Some(t) && t@ == token@),
{
    if token.len() == 0 {
        None
    } else {
        Some(token)
    }
}

/// What the client sends after a step of its security context, and whether
/// the exchange ends once it is sent: a step that gives no token is the last
/// one, and the client then sends an empty token.
pub fn client_step_token(step: Option<Vec<u8>>) -> (r: (Vec<u8>, bool))
    ensures
        step is None ==> r.0@.len() == 0 && r.1,
        step matches Some(t) ==> r.0@ == t@ && !r.1,
{
    match step {
        None => (Vec::new(), true),
        Some(t) => (t, false),
    }
}

/// The user that the server accepts at the end of a Kerberos exchange: the
/// context must have the required flags, and its source principal must
/// belong to one of the allowed realms.
pub fn kerberos_client_identity(flags: u32, source_name: &str, allowed_realms: &[String]) -> (res:
    Result<String, AuthError>)
    ensures
        !kerberos_flags_ok(flags) ==> res == Err::<String, AuthError>(AuthError::FlagsNotCompliant),
        kerberos_flags_ok(flags) ==> match res {
            Ok(user) => principal_user(source_name@, allowed_realms@) == Some(user@),
            Err(e) => principal_user(source_name@, allowed_realms@) is None && e
                == AuthError::InvalidRealm,
        },
{
    match check_kerberos_flags(flags) {
        Ok(()) => get_username_from_principal(source_name, allowed_realms),
        Err(e) => Err(e),
    }
}

/// Where the client side of a Kerberos exchange stands.
#[derive(Debug, Clone, Copy, PartialEq, Eq)]
pub enum KerberosClientPhase {
    /// The security context is to be stepped.
    Stepping,
    /// The client waits for the server's token.
    AwaitingReply,
    /// The flags of the established context are to be checked.
    CheckingFlags,
    /// The exchange is over.
    Done,
}

/// What the client does next in a Kerberos exchange.
pub enum KerberosClientAction {
    /// Send this token to the server, then wait for its reply.
    SendAndAwait(Vec<u8>),
    /// Send this token (empty: the context is complete on this side), then
    /// check the flags of the context.
    SendAndCheck(Vec<u8>),
    /// Step the security context with this token of the server.
    Step(Vec<u8>),
    /// Check the flags of the security context.
    CheckFlags,
    /// The exchange is over, with this outcome.
    Finish(Result<(), AuthError>),
}

/// The client side of a Kerberos exchange: the context is stepped, each
/// token it gives is sent and answered by the server, until the context
/// gives no more token or the server answers an empty one; the context must
/// then have mutual authentication and integrity.
pub struct KerberosClientExchange {
    phase: KerberosClientPhase,
}

impl KerberosClientExchange {
    /// Where the exchange stands.
    pub closed spec fn spec_phase(self) -> KerberosClientPhase {
        self.phase
    }

    /// Starts: the context is stepped first with no token.
    pub fn new() -> (x: Self)
        ensures
            x.spec_phase() == KerberosClientPhase::Stepping,
    {
        KerberosClientExchange { phase: KerberosClientPhase::Stepping }
    }

    /// Where the exchange stands.
    pub fn phase(&self) -> (p: KerberosClientPhase)
        ensures
            p == self.spec_phase(),
    {
        self.phase
    }

    /// Takes the result of a step of the context: its token is sent and the
    /// server's reply awaited; a step that gives no token is the last one,
    /// an empty token is sent and the flags are checked.
    pub fn on_step(&mut self, step: Option<Vec<u8>>) -> (action: KerberosClientAction)
        requires
            old(self).spec_phase() == KerberosClientPhase::Stepping,
        ensures
            step is None ==> final(self).spec_phase() == KerberosClientPhase::CheckingFlags && (
            action matches KerberosClientAction::SendAndCheck(t) && t@.len() == 0),
            step matches Some(tok) ==> final(self).spec_phase() == KerberosClientPhase::AwaitingReply
                && (action matches KerberosClientAction::SendAndAwait(t) && t@ == tok@),
    {
        let (token, last) = client_step_token(step);
        if last {
            self.phase = KerberosClientPhase::CheckingFlags;
            KerberosClientAction::SendAndCheck(token)
        } else {
            self.phase = KerberosClientPhase::AwaitingReply;
            KerberosClientAction::SendAndAwait(token)
        }
    }

    /// Takes the server's token: an empty one ends the exchange and the
    /// flags are checked; any other is the input of the next step.
    pub fn on_reply(&mut self, token: Vec<u8>) -> (action: KerberosClientAction)
        requires
            old(self).spec_phase() == KerberosClientPhase::AwaitingReply,
        ensures
            token@.len() == 0 ==> final(self).spec_phase() == KerberosClientPhase::CheckingFlags
                && action is CheckFlags,
            token@.len() > 0 ==> final(self).spec_phase() == KerberosClientPhase::Stepping && (
            action matches KerberosClientAction::Step(t) && t@ == token@),
    {
        match next_peer_token(token) {
            None => {
                self.phase = KerberosClientPhase::CheckingFlags;
                KerberosClientAction::CheckFlags
            },
            Some(t) => {
                self.phase = KerberosClientPhase::Stepping;
                KerberosClientAction::Step(t)
            },
        }
    }

    /// Takes the flags of the established context: the exchange ends, in
    /// success exactly when they hold mutual authentication and integrity.
    pub fn on_flags(&mut self, flags: u32) -> (action: KerberosClientAction)
        requires
            old(self).spec_phase() == KerberosClientPhase::CheckingFlags,
        ensures
            final(self).spec_phase() == KerberosClientPhase::Done,
            kerberos_flags_ok(flags) ==> action matches KerberosClientAction::Finish(Ok(())),
            !kerberos_flags_ok(flags) ==> (action matches KerberosClientAction::Finish(Err(e)) && e
                == AuthError::FlagsNotCompliant),
    {
        self.phase = KerberosClientPhase::Done;
        KerberosClientAction::Finish(check_kerberos_flags(flags))
    }
}

/// Status of a Windows SSPI call.
#[derive(Debug, PartialEq, Eq)]
pub enum SspiStatus {
    SecOk,
    ContinueNeeded,
    CompleteNeeded,
    CompleteAndContinue,
    Other(String),
}

/// `SEC_E_OK`.
pub const SEC_E_OK: u32 = 0;

/// `SEC_I_CONTINUE_NEEDED`.
pub const SEC_I_CONTINUE_NEEDED: u32 = 0x00090312;

/// `SEC_I_COMPLETE_NEEDED`.
pub const SEC_I_COMPLETE_NEEDED: u32 = 0x00090313;

/// `SEC_I_COMPLETE_AND_CONTINUE`.
pub const SEC_I_COMPLETE_AND_CONTINUE: u32 = 0x00090314;

/// A failed SSPI call: its status code.
#[derive(Debug, Clone, Copy, PartialEq, Eq)]
pub struct SspiError {
    pub code: u32,
}

/// Reads the status code of an SSPI call: a negative status (as a signed
/// 32 bit number) is a failure.
pub fn u32_to_result(code: u32) -> (res: Result<SspiStatus, SspiError>)
    ensures
        code >= 0x8000_0000 ==> res == Err::<SspiStatus, SspiError>(SspiError { code }),
        code == SEC_E_OK ==> res matches Ok(SspiStatus::SecOk),
        code == SEC_I_CONTINUE_NEEDED ==> res matches Ok(SspiStatus::ContinueNeeded),
        code == SEC_I_COMPLETE_NEEDED ==> res matches Ok(SspiStatus::CompleteNeeded),
        code == SEC_I_COMPLETE_AND_CONTINUE ==> res matches Ok(SspiStatus::CompleteAndContinue),
        code < 0x8000_0000 && code != SEC_E_OK && code != SEC_I_CONTINUE_NEEDED && code
            != SEC_I_COMPLETE_NEEDED && code != SEC_I_COMPLETE_AND_CONTINUE ==> (res matches Ok(
            SspiStatus::Other(m),
        ) && m@ == "Sspi unknown status"@),
{
    if code >= 0x8000_0000 {
        return Err(SspiError { code });
    }
    if code == SEC_E_OK {
        Ok(SspiStatus::SecOk)
    } else if code == SEC_I_COMPLETE_AND_CONTINUE {
        Ok(SspiStatus::CompleteAndContinue)
    } else if code == SEC_I_COMPLETE_NEEDED {
        Ok(SspiStatus::CompleteNeeded)
    } else if code == SEC_I_CONTINUE_NEEDED {
        Ok(SspiStatus::ContinueNeeded)
    } else {
        Ok(SspiStatus::Other("Sspi unknown status".to_owned()))
    }
}

/// The SSPI exchange goes on: the server has more to say.
pub fn sspi_continues(status: &SspiStatus) -> (r: bool)
    ensures
        r <==> (*status is ContinueNeeded || *status is CompleteAndContinue),
{
    match status {
        SspiStatus::ContinueNeeded | SspiStatus::CompleteAndContinue => true,
        _ => false,
    }
}

/// The token must be completed before it is sent.
pub fn sspi_needs_complete(status: &SspiStatus) -> (r: bool)
    ensures
        r <==> (*status is CompleteNeeded || *status is CompleteAndContinue),
{
    match status {
        SspiStatus::CompleteNeeded | SspiStatus::CompleteAndContinue => true,
        _ => false,
    }
}

/// Number of times a PAM authentication is tried, each after a password
/// change that PAM asked for.
pub const PAM_MAX_ATTEMPTS: u32 = 3;

/// What PAM answered to an authentication.
pub enum PamAuthResult {
    /// The user was authenticated, under this name.
    Authenticated(String),
    /// The password has expired and must be changed.
    NewAuthtokRequired,
    /// The credentials were refused.
    AuthError,
    /// The user does not exist.
    UserUnknown,
    /// Any other failure.
    OtherError,
}

/// Why a PAM authentication failed.
#[derive(Debug, Clone, Copy, PartialEq, Eq)]
pub enum PamError {
    /// The credentials were refused or the user does not exist.
    AuthenticationError,
    /// PAM failed in another way.
    PamFailure,
    /// The password change failed.
    ChauthtokFailed,
    /// The user was still not authenticated after the last attempt.
    NotAuthenticated,
}

/// What the server does next in a PAM authentication.
pub enum PamAction {
    /// Run a new authentication with the client.
    Authenticate,
    /// Tell the client its password must be changed, and change it.
    ChangeToken,
    /// The authentication is over, with this outcome.
    Finish(Result<String, PamError>),
}

/// Where a PAM authentication stands.
#[derive(Debug, Clone, Copy, PartialEq, Eq)]
pub enum PamPhase {
    /// An authentication is running.
    Authenticating,
    /// A password change is running.
    ChangingToken,
    /// The authentication is over.
    Done,
}

/// The course of a PAM authentication: at most `PAM_MAX_ATTEMPTS`
/// authentications, each but the first after a password change.
pub struct PamAuth {
    attempts: u32,
    phase: PamPhase,
}

impl PamAuth {
    #[verifier::type_invariant]
    spec fn inv(self) -> bool {
        1 <= self.attempts <= PAM_MAX_ATTEMPTS
    }

    /// Number of authentications started so far.
    pub closed spec fn spec_attempts(self) -> u32 {
        self.attempts
    }

    /// Where the authentication stands.
    pub closed spec fn spec_phase(self) -> PamPhase {
        self.phase
    }

    /// Starts: the first authentication runs.
    pub fn new() -> (a: Self)
        ensures
            a.spec_attempts() == 1,
            a.spec_phase() == PamPhase::Authenticating,
    {
        PamAuth { attempts: 1, phase: PamPhase::Authenticating }
    }

    /// Number of authentications started so far.
    pub fn attempts(&self) -> (n: u32)
        ensures
            n == self.spec_attempts(),
            1 <= n <= PAM_MAX_ATTEMPTS,
    {
        proof {
            use_type_invariant(self);
        }
        self.attempts
    }

    /// Where the authentication stands.
    pub fn phase(&self) -> (p: PamPhase)
        ensures
            p == self.spec_phase(),
    {
        self.phase
    }

    /// Takes PAM's answer to the running authentication: success ends it
    /// with the user's name; an expired password leads to its change;
    /// refused credentials or an unknown user, and any other failure, end
    /// it with an error.
    pub fn on_authenticate(&mut self, result: PamAuthResult) -> (action: PamAction)
        requires
            old(self).spec_phase() == PamPhase::Authenticating,
        ensures
            final(self).spec_attempts() == old(self).spec_attempts(),
            match result {
                PamAuthResult::Authenticated(user) => final(self).spec_phase() == PamPhase::Done
                    && (action matches PamAction::Finish(Ok(u)) && u == user),
                PamAuthResult::NewAuthtokRequired => final(self).spec_phase()
                    == PamPhase::ChangingToken && action is ChangeToken,
                PamAuthResult::AuthError | PamAuthResult::UserUnknown => final(self).spec_phase()
                    == PamPhase::Done && (action matches PamAction::Finish(Err(e)) && e
                    == PamError::AuthenticationError),
                PamAuthResult::OtherError => final(self).spec_phase() == PamPhase::Done && (
                action matches PamAction::Finish(Err(e)) && e == PamError::PamFailure),
            },
    {
        proof {
            use_type_invariant(&*self);
        }
        match result {
            PamAuthResult::Authenticated(user) => {
                self.phase = PamPhase::Done;
                PamAction::Finish(Ok(user))
            },
            PamAuthResult::NewAuthtokRequired => {
                self.phase = PamPhase::ChangingToken;
                PamAction::ChangeToken
            },
            PamAuthResult::AuthError | PamAuthResult::UserUnknown => {
                self.phase = PamPhase::Done;
                PamAction::Finish(Err(PamError::AuthenticationError))
            },
            PamAuthResult::OtherError => {
                self.phase = PamPhase::Done;
                PamAction::Finish(Err(PamError::PamFailure))
            },
        }
    }

    /// Takes the outcome of the password change: a failure ends the
    /// authentication; after a success, a new authentication runs if the
    /// attempts are not used up, else the user is not authenticated.
    pub fn on_token_changed(&mut self, changed: bool) -> (action: PamAction)
        requires
            old(self).spec_phase() == PamPhase::ChangingToken,
        ensures
            !changed ==> final(self).spec_phase() == PamPhase::Done && final(self).spec_attempts()
                == old(self).spec_attempts() && (action matches PamAction::Finish(Err(e)) && e
                == PamError::ChauthtokFailed),
            changed && old(self).spec_attempts() < PAM_MAX_ATTEMPTS ==> final(self).spec_phase()
                == PamPhase::Authenticating && final(self).spec_attempts() == old(
                self,
            ).spec_attempts() + 1 && action is Authenticate,
            changed && old(self).spec_attempts() == PAM_MAX_ATTEMPTS ==> final(self).spec_phase()
                == PamPhase::Done && final(self).spec_attempts() == old(self).spec_attempts() && (
            action matches PamAction::Finish(Err(e)) && e == PamError::NotAuthenticated),
    {
        proof {
            use_type_invariant(&*self);
        }
        if !changed {
            self.phase = PamPhase::Done;
            return PamAction::Finish(Err(PamError::ChauthtokFailed));
        }
        if self.attempts < PAM_MAX_ATTEMPTS {
            self.attempts = self.attempts + 1;
            self.phase = PamPhase::Authenticating;
            PamAction::Authenticate
        } else {
            self.phase = PamPhase::Done;
            PamAction::Finish(Err(PamError::NotAuthenticated))
        }
    }
}

/// A message of the server in the PAM conversation, as the client reads it.
pub enum PamConversation {
    /// Asks for the user name, with this prompt.
    Echo(String),
    /// Asks for the password, with this prompt.
    Blind(String),
    /// Information for the user.
    Info(String),
    /// An error message for the user.
    Error(String),
    /// The conversation is over, successfully or not.
    End(bool),
    /// A message holding none of these.
    Missing,
}

/// What the client does for a message of the PAM conversation.
pub enum PamClientAction {
    /// Prompt the user with this text, send the name read, and go on.
    SendUser(String),
    /// Prompt for the password with this text, send it, and go on.
    SendPassword(String),
    /// Show this information and go on.
    ShowInfo(String),
    /// Show this error and go on.
    ShowError(String),
    /// Report the end of the conversation; it is over.
    End(bool),
    /// The conversation fails.
    Fail,
}

/// The client's answer to a message of the PAM conversation: prompts are
/// answered with what the user types, information and errors are shown,
/// the end message ends the conversation, and a message without content
/// fails it.
pub fn pam_client_step(msg: PamConversation) -> (a: PamClientAction)
    ensures
        match msg {
            PamConversation::Echo(p) => a matches PamClientAction::SendUser(q) && q@ == p@,
            PamConversation::Blind(p) => a matches PamClientAction::SendPassword(q) && q@ == p@,
            PamConversation::Info(p) => a matches PamClientAction::ShowInfo(q) && q@ == p@,
            PamConversation::Error(p) => a matches PamClientAction::ShowError(q) && q@ == p@,
            PamConversation::End(b) => a matches PamClientAction::End(c) && c == b,
            PamConversation::Missing => a is Fail,
        },
{
    match msg {
        PamConversation::Echo(p) => PamClientAction::SendUser(p),
        PamConversation::Blind(p) => PamClientAction::SendPassword(p),
        PamConversation::Info(p) => PamClientAction::ShowInfo(p),
        PamConversation::Error(p) => PamClientAction::ShowError(p),
        PamConversation::End(b) => PamClientAction::End(b),
        PamConversation::Missing => PamClientAction::Fail,
    }
}

impl PamError {
    /// The message the client is told, when it is told one: each error
    /// but a failed password change is reported to it.
    pub fn client_message(&self) -> (m: Option<&'static str>)
        ensures
            *self == PamError::AuthenticationError ==> (m matches Some(t) && t@
                == "Authentication error"@),
            *self == PamError::PamFailure ==> (m matches Some(t) && t@
                == "Error during pam authentication"@),
            *self == PamError::NotAuthenticated ==> (m matches Some(t) && t@
                == "Pam Authentification failed"@),
            *self == PamError::ChauthtokFailed ==> m is None,
    {
        match self {
            PamError::AuthenticationError => Some("Authentication error"),
            PamError::PamFailure => Some("Error during pam authentication"),
            PamError::NotAuthenticated => Some("Pam Authentification failed"),
            PamError::ChauthtokFailed => None,
        }
    }
}

/// A name of the subject alternative name extensions of a certificate.
pub enum AltName {
    /// An e-mail address (RFC 822 name): the principal of the user.
    Email(String),
    /// Any other kind of name.
    Other,
}

/// Why no user can be read from a certificate.
#[derive(Debug, Clone, Copy, PartialEq, Eq)]
pub enum AltNameError {
    /// More than one e-mail address.
    Multiple,
    /// No e-mail address.
    Missing,
}

/// The e-mail addresses among `names`, in order.
pub open spec fn emails(names: Seq<AltName>) -> Seq<Seq<char>>
    decreases names.len(),
{
    if names.len() == 0 {
        Seq::empty()
    } else {
        let rest = emails(names.drop_last());
        match names.last() {
            AltName::Email(e) => rest.push(e@),
            AltName::Other => rest,
        }
    }
}

/// The principal a client certificate carries: the one e-mail address
/// among the subject alternative names of its extensions, taken in order.
pub fn select_subject_alt_name(names: &[AltName]) -> (res: Result<String, AltNameError>)
    ensures
        emails(names@).len() == 0 ==> res == Err::<String, AltNameError>(AltNameError::Missing),
        emails(names@).len() > 1 ==> res == Err::<String, AltNameError>(AltNameError::Multiple),
        emails(names@).len() == 1 ==> (res matches Ok(e) && e@ == emails(names@)[0]),
{
    let mut alt_name: Option<String> = None;
    let mut i: usize = 0;
    while i < names.len()
        invariant
            i <= names@.len(),
            emails(names@.subrange(0, i as int)).len() <= 1,
            emails(names@.subrange(0, i as int)).len() == 0 ==> alt_name is None,
            emails(names@.subrange(0, i as int)).len() == 1 ==> (alt_name matches Some(e) && e@
                == emails(names@.subrange(0, i as int))[0]),
        decreases names@.len() - i,
    {
        proof {
            assert(names@.subrange(0, i as int + 1).drop_last() =~= names@.subrange(0, i as int));
        }
        match &names[i] {
            AltName::Email(email) => {
                if alt_name.is_some() {
                    proof {
                        lemma_emails_prefix(names@, i as int + 1);
                    }
                    return Err(AltNameError::Multiple);
                }
                alt_name = Some(email.clone());
            },
            AltName::Other => {},
        }
        i = i + 1;
    }
    assert(names@.subrange(0, names@.len() as int) =~= names@);
    match alt_name {
        Some(alt_name) => Ok(alt_name),
        None => Err(AltNameError::Missing),
    }
}

/// A longer list has at least as many e-mail addresses as its prefixes.
proof fn lemma_emails_prefix(names: Seq<AltName>, n: int)
    requires
        0 <= n <= names.len(),
    ensures
        emails(names.subrange(0, n)).len() <= emails(names).len(),
    decreases names.len() - n,
{
    if n < names.len() {
        lemma_emails_prefix(names, n + 1);
        assert(names.subrange(0, n + 1).drop_last() =~= names.subrange(0, n));
    } else {
        assert(names.subrange(0, n) =~= names);
    }
}

} // verus!
