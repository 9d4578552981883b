//! NDNCERT enrolment, and what makes an enrolled identity exportable.
//!
//! One exchange with the CA runs NEW, then a challenge (a PIN in two rounds, or
//! an invitation token in one), then an optional fetch of the issued
//! certificate. The exchange is a state machine: its driver builds, signs and
//! sends what the machine asks for, and reports what came back.

use crate::json;
use crate::name::{text_component, ComponentView, Name};
use crate::text;
use crate::text::{bytes_view, text_view};
use vstd::prelude::*;

verus! {

/// How long each step of the exchange waits for the CA.
pub const ENROLL_TIMEOUT_MS: u64 = 10_500;

/// What to enrol: the CA to reach and the identity to certify.
#[derive(Clone, Debug, PartialEq, Eq)]
pub struct EnrollConfig {
    /// Interests go to `<ca_prefix>/CA/{NEW,CHALLENGE}`.
    pub ca_prefix: Name,
    /// A fresh `<identity>/KEY/v=<ts>` key is generated for it.
    pub identity: Name,
    /// Requested certificate validity in seconds.
    pub validity_secs: u64,
}

impl EnrollConfig {
    /// A request for one day.
    pub fn new(ca_prefix: Name, identity: Name) -> (config: EnrollConfig)
        ensures
            config.ca_prefix == ca_prefix,
            config.identity == identity,
            config.validity_secs == 86_400,
    {
        EnrollConfig { ca_prefix, identity, validity_secs: 86_400 }
    }

    pub fn validity_secs(self, secs: u64) -> (config: EnrollConfig)
        ensures
            config.ca_prefix == self.ca_prefix,
            config.identity == self.identity,
            config.validity_secs == secs,
    {
        EnrollConfig { ca_prefix: self.ca_prefix, identity: self.identity, validity_secs: secs }
    }
}

/// Handed to the PIN callback, so that the user can be asked for the code that
/// the CA delivered out of band.
#[derive(Clone, Debug, PartialEq, Eq)]
pub struct PinRequest {
    /// The CA's request id in hexadecimal.
    pub request_id: String,
    /// The CA's status message, if any.
    pub status_message: Option<String>,
}

/// What goes wrong in enrolment and in keeping an identity.
#[derive(Clone, Debug, PartialEq, Eq)]
pub enum EnrollError {
    Key(String),
    Cert(String),
    Sign(String),
    Fetch(String),
    EmptyResponse,
    Incomplete,
    NoCertificate,
    NotExportable,
    SafeBag(String),
}

/// An [`EnrollError`] with its strings as character sequences.
pub ghost enum EnrollErrorView {
    Key(Seq<char>),
    Cert(Seq<char>),
    Sign(Seq<char>),
    Fetch(Seq<char>),
    EmptyResponse,
    Incomplete,
    NoCertificate,
    NotExportable,
    SafeBag(Seq<char>),
}

impl View for EnrollError {
    type V = EnrollErrorView;

    open spec fn view(&self) -> EnrollErrorView {
        match self {
            EnrollError::Key(why) => EnrollErrorView::Key(why@),
            EnrollError::Cert(why) => EnrollErrorView::Cert(why@),
            EnrollError::Sign(why) => EnrollErrorView::Sign(why@),
            EnrollError::Fetch(why) => EnrollErrorView::Fetch(why@),
            EnrollError::EmptyResponse => EnrollErrorView::EmptyResponse,
            EnrollError::Incomplete => EnrollErrorView::Incomplete,
            EnrollError::NoCertificate => EnrollErrorView::NoCertificate,
            EnrollError::NotExportable => EnrollErrorView::NotExportable,
            EnrollError::SafeBag(why) => EnrollErrorView::SafeBag(why@),
        }
    }
}

/// The message shown for an enrolment error.
pub open spec fn enroll_error_text(e: EnrollErrorView) -> Seq<char> {
    match e {
        EnrollErrorView::Key(why) => "key generation/export: "@ + why,
        EnrollErrorView::Cert(why) => "NDNCERT protocol: "@ + why,
        EnrollErrorView::Sign(why) => "Interest signing: "@ + why,
        EnrollErrorView::Fetch(why) => "fetch from CA failed: "@ + why,
        EnrollErrorView::EmptyResponse => "CA response missing content"@,
        EnrollErrorView::Incomplete => "enrollment did not complete after PIN submission"@,
        EnrollErrorView::NoCertificate =>
            "no issued cert was fetched; SafeBag needs the certificate"@,
        EnrollErrorView::NotExportable => "custodian/enclave key is not exportable to a SafeBag"@,
        EnrollErrorView::SafeBag(why) => "SafeBag: "@ + why,
    }
}

impl EnrollError {
    /// The message shown for this error.
    pub fn message(&self) -> (msg: String)
        ensures
            msg@ == enroll_error_text(self@),
            match *self {
                EnrollError::Key(why) => msg@ == "key generation/export: "@ + why@,
                EnrollError::Cert(why) => msg@ == "NDNCERT protocol: "@ + why@,
                EnrollError::Sign(why) => msg@ == "Interest signing: "@ + why@,
                EnrollError::Fetch(why) => msg@ == "fetch from CA failed: "@ + why@,
                EnrollError::SafeBag(why) => msg@ == "SafeBag: "@ + why@,
                EnrollError::EmptyResponse => msg@ == "CA response missing content"@,
                EnrollError::Incomplete => msg@
                    == "enrollment did not complete after PIN submission"@,
                EnrollError::NoCertificate => msg@
                    == "no issued cert was fetched; SafeBag needs the certificate"@,
                EnrollError::NotExportable => msg@
                    == "custodian/enclave key is not exportable to a SafeBag"@,
            },
    {
        match self {
            EnrollError::Key(why) => text::concat("key generation/export: ", why.as_str()),
            EnrollError::Cert(why) => text::concat("NDNCERT protocol: ", why.as_str()),
            EnrollError::Sign(why) => text::concat("Interest signing: ", why.as_str()),
            EnrollError::Fetch(why) => text::concat("fetch from CA failed: ", why.as_str()),
            EnrollError::EmptyResponse => "CA response missing content".to_owned(),
            EnrollError::Incomplete =>
                "enrollment did not complete after PIN submission".to_owned(),
            EnrollError::NoCertificate =>
                "no issued cert was fetched; SafeBag needs the certificate".to_owned(),
            EnrollError::NotExportable =>
                "custodian/enclave key is not exportable to a SafeBag".to_owned(),
            EnrollError::SafeBag(why) => text::concat("SafeBag: ", why.as_str()),
        }
    }
}

/// How the requester proves itself to the CA.
#[derive(Clone, Debug, PartialEq, Eq)]
pub enum Challenge {
    /// A code that the CA delivers out of band, unless it needs none.
    Pin,
    /// An invitation token.
    Token(String),
}

/// One request to the CA and its response.
#[derive(Clone, Copy, Debug, PartialEq, Eq, Structural)]
pub enum Exchange {
    /// The request for a certificate.
    New,
    /// The choice of the PIN challenge, without a code.
    Trigger,
    /// The PIN.
    Submit,
    /// The invitation token.
    Token,
}

/// Where an enrolment stands.
#[derive(Clone, Copy, Debug, PartialEq, Eq, Structural)]
pub enum Stage {
    /// The body of a request is being built.
    Build(Exchange),
    /// The request is being signed.
    Sign(Exchange),
    /// The response is awaited.
    Fetch(Exchange),
    /// The response is being read.
    Handle(Exchange),
    /// The user is asked for the PIN.
    AskPin,
    /// The issued certificate is being fetched.
    FetchCert,
    /// Over, with or without success.
    Finished,
}

/// What the CA's response left behind.
#[derive(Clone, Debug, PartialEq, Eq)]
pub struct CaStatus {
    pub request_id: Option<Vec<u8>>,
    pub complete: bool,
    pub status_message: Option<String>,
    pub issued: Option<Name>,
}

/// What came of the step that was asked for.
#[derive(Debug, PartialEq, Eq)]
pub enum EnrollEvent {
    Built(Result<Vec<u8>, String>),
    Signed(Result<Vec<u8>, String>),
    /// The response's content, if it has any.
    Fetched(Result<Option<Vec<u8>>, String>),
    Handled(Result<CaStatus, String>),
    Pin(String),
    /// The certificate, if some repository served it.
    CertFetched(Option<Vec<u8>>),
}

/// What the driver does next.
#[derive(Debug, PartialEq, Eq)]
pub enum EnrollAction {
    /// Build the body of the NEW request.
    BuildNew,
    /// Build the body of a challenge request.
    BuildChallenge {
        challenge: String,
        params: serde_json::Map<String, serde_json::Value>,
    },
    /// Sign an Interest for `name` that carries `body`.
    Sign { name: Name, body: Vec<u8> },
    /// Send the signed Interest and wait up to [`ENROLL_TIMEOUT_MS`].
    Fetch(Vec<u8>),
    /// Read the response to NEW.
    HandleNew(Vec<u8>),
    /// Read the response to a challenge.
    HandleChallenge(Vec<u8>),
    /// Ask the user for the PIN.
    AskPin(PinRequest),
    /// Fetch the issued certificate, if it can be had.
    FetchCert(Name),
    /// Nothing: the event does not belong to this stage.
    Wait,
    /// The exchange failed.
    Fail(EnrollError),
    /// The certificate was issued under `cert_name`.
    Done { cert_name: Name, certificate: Option<Vec<u8>> },
}

/// An [`EnrollAction`] over mathematical values.
pub ghost enum EnrollActionView {
    BuildNew,
    BuildChallenge { challenge: Seq<char>, params: Map<Seq<char>, Seq<char>> },
    Sign { name: Seq<ComponentView>, body: Seq<u8> },
    Fetch(Seq<u8>),
    HandleNew(Seq<u8>),
    HandleChallenge(Seq<u8>),
    AskPin { request_id: Seq<char>, status_message: Option<Seq<char>> },
    FetchCert(Seq<ComponentView>),
    Wait,
    Fail(EnrollErrorView),
    Done { cert_name: Seq<ComponentView>, certificate: Option<Seq<u8>> },
}

impl View for EnrollAction {
    type V = EnrollActionView;

    open spec fn view(&self) -> EnrollActionView {
        match self {
            EnrollAction::BuildNew => EnrollActionView::BuildNew,
            EnrollAction::BuildChallenge { challenge, params } => EnrollActionView::BuildChallenge {
                challenge: challenge@,
                params: json::text_members(*params),
            },
            EnrollAction::Sign { name, body } => EnrollActionView::Sign {
                name: name@,
                body: body@,
            },
            EnrollAction::Fetch(wire) => EnrollActionView::Fetch(wire@),
            EnrollAction::HandleNew(content) => EnrollActionView::HandleNew(content@),
            EnrollAction::HandleChallenge(content) => EnrollActionView::HandleChallenge(content@),
            EnrollAction::AskPin(request) => EnrollActionView::AskPin {
                request_id: request.request_id@,
                status_message: text_view(request.status_message),
            },
            EnrollAction::FetchCert(name) => EnrollActionView::FetchCert(name@),
            EnrollAction::Wait => EnrollActionView::Wait,
            EnrollAction::Fail(error) => EnrollActionView::Fail(error@),
            EnrollAction::Done { cert_name, certificate } => EnrollActionView::Done {
                cert_name: cert_name@,
                certificate: bytes_view(*certificate),
            },
        }
    }
}

/// What an enrolment knows.
pub ghost struct EnrollmentView {
    pub ca_prefix: Seq<ComponentView>,
    /// The invitation token; a PIN is asked for where there is none.
    pub token: Option<Seq<char>>,
    pub stage: Stage,
    pub request_id: Seq<u8>,
    pub cert_name: Seq<ComponentView>,
}

/// The label under which a failed fetch is reported.
pub open spec fn exchange_label(exchange: Exchange) -> Seq<char> {
    match exchange {
        Exchange::New => "NEW: "@,
        Exchange::Trigger => "CHALLENGE trigger: "@,
        Exchange::Submit => "CHALLENGE submit: "@,
        Exchange::Token => "CHALLENGE token: "@,
    }
}

/// The name that a request goes to.
pub open spec fn request_name(st: EnrollmentView, exchange: Exchange) -> Seq<ComponentView> {
    match exchange {
        Exchange::New => st.ca_prefix.push(text_component("CA"@)).push(text_component("NEW"@)),
        _ => st.ca_prefix.push(text_component("CA"@)).push(text_component("CHALLENGE"@)).push(
            ComponentView::Generic(st.request_id),
        ),
    }
}

/// `st` at another stage.
pub open spec fn at_stage(st: EnrollmentView, stage: Stage) -> EnrollmentView {
    EnrollmentView { stage, ..st }
}

/// The end of a failed enrolment.
pub open spec fn failed(st: EnrollmentView, error: EnrollErrorView) -> (
    EnrollmentView,
    EnrollActionView,
) {
    (at_stage(st, Stage::Finished), EnrollActionView::Fail(error))
}

/// What follows once no challenge is left: the certificate has to have been
/// issued, and is then fetched under the name it was issued with.
pub open spec fn challenges_over(st: EnrollmentView, status: CaStatus) -> (
    EnrollmentView,
    EnrollActionView,
) {
    if !status.complete {
        failed(st, EnrollErrorView::Incomplete)
    } else {
        match status.issued {
            None => failed(st, EnrollErrorView::Cert("no issued cert name"@)),
            Some(name) => (
                EnrollmentView { cert_name: name@, ..at_stage(st, Stage::FetchCert) },
                EnrollActionView::FetchCert(name@),
            ),
        }
    }
}

/// What follows a response that the CA's protocol accepted.
pub open spec fn after_response(st: EnrollmentView, exchange: Exchange, status: CaStatus) -> (
    EnrollmentView,
    EnrollActionView,
) {
    match exchange {
        Exchange::New => match status.request_id {
            None => failed(st, EnrollErrorView::Cert("no request_id after NEW"@)),
            Some(id) => match st.token {
                None => (
                    EnrollmentView {
                        request_id: id@,
                        ..at_stage(st, Stage::Build(Exchange::Trigger))
                    },
                    EnrollActionView::BuildChallenge {
                        challenge: "pin"@,
                        params: json::no_members(),
                    },
                ),
                Some(token) => (
                    EnrollmentView {
                        request_id: id@,
                        ..at_stage(st, Stage::Build(Exchange::Token))
                    },
                    EnrollActionView::BuildChallenge {
                        challenge: "token"@,
                        params: json::no_members().insert("token"@, token),
                    },
                ),
            },
        },
        Exchange::Trigger => if status.complete {
            challenges_over(st, status)
        } else {
            (
                at_stage(st, Stage::AskPin),
                EnrollActionView::AskPin {
                    request_id: text::hex(st.request_id),
                    status_message: text_view(status.status_message),
                },
            )
        },
        Exchange::Submit => challenges_over(st, status),
        Exchange::Token => challenges_over(st, status),
    }
}

/// What follows `event`. An event that does not belong to the stage changes
/// nothing.
pub open spec fn enroll_next(st: EnrollmentView, event: EnrollEvent) -> (
    EnrollmentView,
    EnrollActionView,
) {
    match (st.stage, event) {
        (Stage::Build(x), EnrollEvent::Built(Ok(body))) => (
            at_stage(st, Stage::Sign(x)),
            EnrollActionView::Sign { name: request_name(st, x), body: body@ },
        ),
        (Stage::Build(_), EnrollEvent::Built(Err(why))) => failed(st, EnrollErrorView::Cert(why@)),
        (Stage::Sign(x), EnrollEvent::Signed(Ok(wire))) => (
            at_stage(st, Stage::Fetch(x)),
            EnrollActionView::Fetch(wire@),
        ),
        (Stage::Sign(_), EnrollEvent::Signed(Err(why))) => failed(st, EnrollErrorView::Sign(why@)),
        (Stage::Fetch(x), EnrollEvent::Fetched(Ok(Some(content)))) => (
            at_stage(st, Stage::Handle(x)),
            if x == Exchange::New {
                EnrollActionView::HandleNew(content@)
            } else {
                EnrollActionView::HandleChallenge(content@)
            },
        ),
        (Stage::Fetch(_), EnrollEvent::Fetched(Ok(None))) => failed(
            st,
            EnrollErrorView::EmptyResponse,
        ),
        (Stage::Fetch(x), EnrollEvent::Fetched(Err(why))) => failed(
            st,
            EnrollErrorView::Fetch(exchange_label(x) + why@),
        ),
        (Stage::Handle(x), EnrollEvent::Handled(Ok(status))) => after_response(st, x, status),
        (Stage::Handle(_), EnrollEvent::Handled(Err(why))) => failed(
            st,
            EnrollErrorView::Cert(why@),
        ),
        (Stage::AskPin, EnrollEvent::Pin(pin)) => (
            at_stage(st, Stage::Build(Exchange::Submit)),
            EnrollActionView::BuildChallenge {
                challenge: "pin"@,
                params: json::no_members().insert("code"@, pin@),
            },
        ),
        (Stage::FetchCert, EnrollEvent::CertFetched(certificate)) => (
            at_stage(st, Stage::Finished),
            EnrollActionView::Done { cert_name: st.cert_name, certificate: bytes_view(certificate) },
        ),
        (_, _) => (st, EnrollActionView::Wait),
    }
}

/// An enrolment under way.
pub struct Enrollment {
    ca_prefix: Name,
    challenge: Challenge,
    stage: Stage,
    request_id: Vec<u8>,
    cert_name: Name,
}

impl View for Enrollment {
    type V = EnrollmentView;

    closed spec fn view(&self) -> EnrollmentView {
        EnrollmentView {
            ca_prefix: self.ca_prefix@,
            token: match self.challenge {
                Challenge::Pin => None,
                Challenge::Token(token) => Some(token@),
            },
            stage: self.stage,
            request_id: self.request_id@,
            cert_name: self.cert_name@,
        }
    }
}

impl Enrollment {
    /// An enrolment with the CA at `ca_prefix`. Its first step is to build the
    /// NEW request.
    pub fn new(ca_prefix: Name, challenge: Challenge) -> (enrollment: Enrollment)
        ensures
            enrollment@ == (EnrollmentView {
                ca_prefix: ca_prefix@,
                token: match challenge {
                    Challenge::Pin => None,
                    Challenge::Token(token) => Some(token@),
                },
                stage: Stage::Build(Exchange::New),
                request_id: Seq::empty(),
                cert_name: Seq::empty(),
            }),
    {
        Enrollment {
            ca_prefix,
            challenge,
            stage: Stage::Build(Exchange::New),
            request_id: Vec::new(),
            cert_name: Name::root(),
        }
    }

    /// The stage that the enrolment is at.
    pub fn stage(&self) -> (stage: Stage)
        ensures
            stage == self@.stage,
    {
        self.stage
    }

    /// The name that a request goes to.
    fn request_name(&self, exchange: Exchange) -> (name: Name)
        ensures
            name@ == request_name(self@, exchange),
            name@.len() == self@.ca_prefix.len() + if exchange == Exchange::New {
                2
            } else {
                3int
            },
            forall|i: int|
                0 <= i < self@.ca_prefix.len() ==> #[trigger] name@[i] == self@.ca_prefix[i],
    {
        let base: Name = self.ca_prefix.duplicate().append_str("CA");
        match exchange {
            Exchange::New => base.append_str("NEW"),
            _ => base.append_str("CHALLENGE").append(self.request_id.as_slice()),
        }
    }

    fn fail(&mut self, error: EnrollError) -> (action: EnrollAction)
        ensures
            (final(self)@, action@) == failed(old(self)@, error@),
    {
        self.stage = Stage::Finished;
        EnrollAction::Fail(error)
    }

    fn challenges_over(&mut self, status: CaStatus) -> (action: EnrollAction)
        ensures
            (final(self)@, action@) == challenges_over(old(self)@, status),
    {
        if !status.complete {
            return self.fail(EnrollError::Incomplete);
        }
        match status.issued {
            None => self.fail(EnrollError::Cert("no issued cert name".to_owned())),
            Some(name) => {
                self.stage = Stage::FetchCert;
                self.cert_name = name.duplicate();
                EnrollAction::FetchCert(name)
            },
        }
    }

    fn after_new(&mut self, status: CaStatus) -> (action: EnrollAction)
        ensures
            (final(self)@, action@) == after_response(old(self)@, Exchange::New, status),
    {
        match status.request_id {
            None => self.fail(EnrollError::Cert("no request_id after NEW".to_owned())),
            Some(id) => {
                self.request_id = id;
                match &self.challenge {
                    Challenge::Pin => {
                        self.stage = Stage::Build(Exchange::Trigger);
                        EnrollAction::BuildChallenge {
                            challenge: "pin".to_owned(),
                            params: json::empty_object(),
                        }
                    },
                    Challenge::Token(token) => {
                        let params = json::object_with("token", token.clone());
                        self.stage = Stage::Build(Exchange::Token);
                        EnrollAction::BuildChallenge { challenge: "token".to_owned(), params }
                    },
                }
            },
        }
    }

    fn after_response(&mut self, exchange: Exchange, status: CaStatus) -> (action: EnrollAction)
        ensures
            (final(self)@, action@) == after_response(old(self)@, exchange, status),
    {
        match exchange {
            Exchange::New => self.after_new(status),
            Exchange::Trigger => {
                if status.complete {
                    self.challenges_over(status)
                } else {
                    self.stage = Stage::AskPin;
                    EnrollAction::AskPin(
                        PinRequest {
                            request_id: text::hex_encode(self.request_id.as_slice()),
                            status_message: status.status_message,
                        },
                    )
                }
            },
            Exchange::Submit => self.challenges_over(status),
            Exchange::Token => self.challenges_over(status),
        }
    }

    /// Takes in what came of the last step and says what the next one is.
    pub fn on_event(&mut self, event: EnrollEvent) -> (action: EnrollAction)
        ensures
            (final(self)@, action@) == enroll_next(old(self)@, event),
            final(self)@.ca_prefix == old(self)@.ca_prefix,
            final(self)@.token == old(self)@.token,
            action matches EnrollAction::Sign { name, body } ==> {
                &&& event matches EnrollEvent::Built(Ok(built))
                &&& built@ == body@
                &&& name@.take(old(self)@.ca_prefix.len() as int) == old(self)@.ca_prefix
            },
    {
        proof {
            law_requests_go_to_the_ca(self@, event);
        }
        match (self.stage, event) {
            (Stage::Build(x), EnrollEvent::Built(Ok(body))) => {
                let name: Name = self.request_name(x);
                self.stage = Stage::Sign(x);
                EnrollAction::Sign { name, body }
            },
            (Stage::Build(_), EnrollEvent::Built(Err(why))) => self.fail(EnrollError::Cert(why)),
            (Stage::Sign(x), EnrollEvent::Signed(Ok(wire))) => {
                self.stage = Stage::Fetch(x);
                EnrollAction::Fetch(wire)
            },
            (Stage::Sign(_), EnrollEvent::Signed(Err(why))) => self.fail(EnrollError::Sign(why)),
            (Stage::Fetch(x), EnrollEvent::Fetched(Ok(Some(content)))) => {
                self.stage = Stage::Handle(x);
                match x {
                    Exchange::New => EnrollAction::HandleNew(content),
                    _ => EnrollAction::HandleChallenge(content),
                }
            },
            (Stage::Fetch(_), EnrollEvent::Fetched(Ok(None))) => self.fail(
                EnrollError::EmptyResponse,
            ),
            (Stage::Fetch(x), EnrollEvent::Fetched(Err(why))) => {
                let label: &str = match x {
                    Exchange::New => "NEW: ",
                    Exchange::Trigger => "CHALLENGE trigger: ",
                    Exchange::Submit => "CHALLENGE submit: ",
                    Exchange::Token => "CHALLENGE token: ",
                };
                self.fail(EnrollError::Fetch(text::concat(label, why.as_str())))
            },
            (Stage::Handle(x), EnrollEvent::Handled(Ok(status))) => self.after_response(x, status),
            (Stage::Handle(_), EnrollEvent::Handled(Err(why))) => self.fail(EnrollError::Cert(why)),
            (Stage::AskPin, EnrollEvent::Pin(pin)) => {
                self.stage = Stage::Build(Exchange::Submit);
                EnrollAction::BuildChallenge {
                    challenge: "pin".to_owned(),
                    params: json::object_with("code", pin),
                }
            },
            (Stage::FetchCert, EnrollEvent::CertFetched(certificate)) => {
                self.stage = Stage::Finished;
                EnrollAction::Done { cert_name: self.cert_name.duplicate(), certificate }
            },
            (_, _) => EnrollAction::Wait,
        }
    }
}

/// How far along a stage is.
pub open spec fn progress(stage: Stage) -> nat {
    let exchange_base = |x: Exchange|
        match x {
            Exchange::New => 0nat,
            Exchange::Trigger => 4nat,
            Exchange::Token => 4nat,
            Exchange::Submit => 9nat,
        };
    match stage {
        Stage::Build(x) => exchange_base(x),
        Stage::Sign(x) => exchange_base(x) + 1,
        Stage::Fetch(x) => exchange_base(x) + 2,
        Stage::Handle(x) => exchange_base(x) + 3,
        Stage::AskPin => 8,
        Stage::FetchCert => 13,
        Stage::Finished => 14,
    }
}

/// Every step leads on: a stage is never visited twice, so that an enrolment
/// ends after at most fourteen steps.
pub proof fn law_enrolment_makes_progress(st: EnrollmentView, event: EnrollEvent)
    ensures
        enroll_next(st, event).1 is Wait ==> enroll_next(st, event).0 == st,
        enroll_next(st, event).1 !is Wait ==> progress(enroll_next(st, event).0.stage) > progress(
            st.stage,
        ),
        progress(st.stage) <= 14,
{
}

/// Every request is signed with the body that was built for it, for a name that
/// starts with the whole prefix of the CA, however long that is: `CA` and `NEW`
/// follow it in the first request, `CA`, `CHALLENGE` and the request id in every
/// other.
pub proof fn law_requests_go_to_the_ca(st: EnrollmentView, event: EnrollEvent)
    ensures
        enroll_next(st, event).1 matches EnrollActionView::Sign { name, body } ==> {
            let n = st.ca_prefix.len() as int;
            &&& event matches EnrollEvent::Built(Ok(built))
            &&& body == built@
            &&& name.len() > n
            &&& name.take(n) == st.ca_prefix
            &&& name[n] == ComponentView::Generic(vstd::utf8::encode_utf8("CA"@))
            &&& if st.stage == Stage::Build(Exchange::New) {
                &&& name.len() == n + 2
                &&& name[n + 1] == ComponentView::Generic(vstd::utf8::encode_utf8("NEW"@))
            } else {
                &&& name.len() == n + 3
                &&& name[n + 1] == ComponentView::Generic(vstd::utf8::encode_utf8("CHALLENGE"@))
                &&& name[n + 2] == ComponentView::Generic(st.request_id)
            }
        },
        st.stage is Build && event is Built ==> (enroll_next(st, event).1 is Sign <==> event->Built_0
            is Ok),
{
    match enroll_next(st, event).1 {
        EnrollActionView::Sign { name, .. } => {
            assert(name.take(st.ca_prefix.len() as int) =~= st.ca_prefix);
        },
        _ => {},
    }
}

/// An enrolment with a CA, before anything has happened.
pub open spec fn enroll_start(
    ca_prefix: Seq<ComponentView>,
    token: Option<Seq<char>>,
) -> EnrollmentView {
    EnrollmentView {
        ca_prefix,
        token,
        stage: Stage::Build(Exchange::New),
        request_id: Seq::empty(),
        cert_name: Seq::empty(),
    }
}

/// The enrolment `st` after `events`.
pub open spec fn enroll_after(st: EnrollmentView, events: Seq<EnrollEvent>) -> EnrollmentView
    decreases events.len(),
{
    if events.len() == 0 {
        st
    } else {
        enroll_next(enroll_after(st, events.drop_last()), events.last()).0
    }
}

/// The CA and the token that an enrolment was created with stay with it to its
/// end: whatever happens, each of its requests goes to that CA.
pub proof fn law_enrolment_keeps_its_ca(
    ca_prefix: Seq<ComponentView>,
    token: Option<Seq<char>>,
    events: Seq<EnrollEvent>,
    event: EnrollEvent,
)
    ensures
        ({
            let st = enroll_after(enroll_start(ca_prefix, token), events);
            &&& st.ca_prefix == ca_prefix
            &&& st.token == token
            &&& enroll_next(st, event).1 matches EnrollActionView::Sign { name, .. } ==> {
                &&& ca_prefix.len() + 2 <= name.len() <= ca_prefix.len() + 3
                &&& name.take(ca_prefix.len() as int) == ca_prefix
            }
        }),
    decreases events.len(),
{
    if events.len() > 0 {
        law_enrolment_keeps_its_ca(ca_prefix, token, events.drop_last(), event);
    }
    law_requests_go_to_the_ca(enroll_after(enroll_start(ca_prefix, token), events), event);
}

/// The first request of an enrolment is NEW, under the prefix of the CA.
pub proof fn law_first_request_is_new(
    ca_prefix: Seq<ComponentView>,
    token: Option<Seq<char>>,
    body: Vec<u8>,
)
    ensures
        enroll_next(enroll_start(ca_prefix, token), EnrollEvent::Built(Ok(body))).1 == (
        EnrollActionView::Sign {
            name: ca_prefix + seq![
                ComponentView::Generic(vstd::utf8::encode_utf8("CA"@)),
                ComponentView::Generic(vstd::utf8::encode_utf8("NEW"@)),
            ],
            body: body@,
        }),
{
    assert(request_name(enroll_start(ca_prefix, token), Exchange::New) =~= ca_prefix + seq![
        ComponentView::Generic(vstd::utf8::encode_utf8("CA"@)),
        ComponentView::Generic(vstd::utf8::encode_utf8("NEW"@)),
    ]);
}

/// The request id that the response to NEW brings is the one that every later
/// request is signed for, whatever the CA answers in between.
pub proof fn law_challenges_name_their_request(
    st: EnrollmentView,
    status: CaStatus,
    id: Vec<u8>,
    later: Seq<EnrollEvent>,
    event: EnrollEvent,
)
    requires
        st.stage == Stage::Handle(Exchange::New),
        status.request_id == Some(id),
    ensures
        ({
            let after = enroll_after(
                enroll_next(st, EnrollEvent::Handled(Ok(status))).0,
                later,
            );
            &&& after.request_id == id@
            &&& after.ca_prefix == st.ca_prefix
            &&& progress(after.stage) >= 4
            &&& enroll_next(after, event).1 matches EnrollActionView::Sign { name, .. } ==> name
                == st.ca_prefix + seq![
                ComponentView::Generic(vstd::utf8::encode_utf8("CA"@)),
                ComponentView::Generic(vstd::utf8::encode_utf8("CHALLENGE"@)),
                ComponentView::Generic(id@),
            ]
        }),
    decreases later.len(),
{
    let named = enroll_next(st, EnrollEvent::Handled(Ok(status))).0;
    let after = enroll_after(named, later);
    if later.len() > 0 {
        law_challenges_name_their_request(st, status, id, later.drop_last(), event);
        law_enrolment_makes_progress(enroll_after(named, later.drop_last()), later.last());
    }
    match enroll_next(after, event).1 {
        EnrollActionView::Sign { name, .. } => {
            assert(name =~= st.ca_prefix + seq![
                ComponentView::Generic(vstd::utf8::encode_utf8("CA"@)),
                ComponentView::Generic(vstd::utf8::encode_utf8("CHALLENGE"@)),
                ComponentView::Generic(id@),
            ]);
        },
        _ => {},
    }
}

/// What the CA is told: a PIN enrolment asks for a code and then sends just that
/// code, and a token enrolment sends just its token. A PIN challenge that the CA
/// takes for complete asks for no code.
pub proof fn law_challenge_sends_what_it_proves(
    st: EnrollmentView,
    status: CaStatus,
    id: Vec<u8>,
    pin: String,
)
    ensures
        st.stage == Stage::Handle(Exchange::New) && status.request_id == Some(id) ==> {
            let (next, action) = enroll_next(st, EnrollEvent::Handled(Ok(status)));
            match st.token {
                Some(token) => next.stage == Stage::Build(Exchange::Token) && action == (
                EnrollActionView::BuildChallenge {
                    challenge: "token"@,
                    params: Map::empty().insert("token"@, token),
                }),
                None => next.stage == Stage::Build(Exchange::Trigger) && action == (
                EnrollActionView::BuildChallenge { challenge: "pin"@, params: Map::empty() }),
            }
        },
        st.stage == Stage::Handle(Exchange::New) && status.request_id is None ==> enroll_next(
            st,
            EnrollEvent::Handled(Ok(status)),
        ).1 == EnrollActionView::Fail(EnrollErrorView::Cert("no request_id after NEW"@)),
        st.stage == Stage::Handle(Exchange::Trigger) && !status.complete ==> {
            &&& enroll_next(st, EnrollEvent::Handled(Ok(status))).0.stage == Stage::AskPin
            &&& enroll_next(st, EnrollEvent::Handled(Ok(status))).1 == (EnrollActionView::AskPin {
                request_id: text::hex(st.request_id),
                status_message: match status.status_message {
                    Some(message) => Some(message@),
                    None => None,
                },
            })
        },
        st.stage == Stage::AskPin ==> {
            let (next, action) = enroll_next(st, EnrollEvent::Pin(pin));
            &&& next.stage == Stage::Build(Exchange::Submit)
            &&& action == (EnrollActionView::BuildChallenge {
                challenge: "pin"@,
                params: Map::empty().insert("code"@, pin@),
            })
        },
{
}

/// A challenge that the CA takes for complete leads to the certificate it issued,
/// and any other outcome to a failure: of an incomplete challenge, or of one that
/// was issued nothing.
pub proof fn law_completed_challenge_leads_to_its_certificate(
    st: EnrollmentView,
    status: CaStatus,
    certificate: Option<Vec<u8>>,
)
    requires
        st.stage == Stage::Handle(Exchange::Trigger) && status.complete || st.stage
            == Stage::Handle(Exchange::Submit) || st.stage == Stage::Handle(Exchange::Token),
    ensures
        ({
            let (next, action) = enroll_next(st, EnrollEvent::Handled(Ok(status)));
            if !status.complete {
                action == EnrollActionView::Fail(EnrollErrorView::Incomplete)
            } else {
                match status.issued {
                    None => action == EnrollActionView::Fail(
                        EnrollErrorView::Cert("no issued cert name"@),
                    ),
                    Some(name) => {
                        &&& action == EnrollActionView::FetchCert(name@)
                        &&& enroll_next(next, EnrollEvent::CertFetched(certificate)).1 == (
                        EnrollActionView::Done {
                            cert_name: name@,
                            certificate: match certificate {
                                Some(bytes) => Some(bytes@),
                                None => None,
                            },
                        })
                    },
                }
            }
        }),
{
}

/// A request goes through signing and sending to its response unchanged, and each
/// step that fails ends the enrolment with its own error.
pub proof fn law_request_runs_its_course(st: EnrollmentView, x: Exchange, bytes: Vec<u8>, why: String)
    ensures
        st.stage == Stage::Build(x) ==> {
            &&& enroll_next(st, EnrollEvent::Built(Ok(bytes))).0.stage == Stage::Sign(x)
            &&& enroll_next(st, EnrollEvent::Built(Err(why))).1 == EnrollActionView::Fail(
                EnrollErrorView::Cert(why@),
            )
        },
        st.stage == Stage::Sign(x) ==> {
            &&& enroll_next(st, EnrollEvent::Signed(Ok(bytes))).0.stage == Stage::Fetch(x)
            &&& enroll_next(st, EnrollEvent::Signed(Ok(bytes))).1 == EnrollActionView::Fetch(bytes@)
            &&& enroll_next(st, EnrollEvent::Signed(Err(why))).1 == EnrollActionView::Fail(
                EnrollErrorView::Sign(why@),
            )
        },
        st.stage == Stage::Fetch(x) ==> {
            let (next, action) = enroll_next(st, EnrollEvent::Fetched(Ok(Some(bytes))));
            &&& next.stage == Stage::Handle(x)
            &&& x == Exchange::New ==> action == EnrollActionView::HandleNew(bytes@)
            &&& x != Exchange::New ==> action == EnrollActionView::HandleChallenge(bytes@)
            &&& enroll_next(st, EnrollEvent::Fetched(Ok(None))).1 == EnrollActionView::Fail(
                EnrollErrorView::EmptyResponse,
            )
            &&& enroll_next(st, EnrollEvent::Fetched(Err(why))).1 == EnrollActionView::Fail(
                EnrollErrorView::Fetch(
                    match x {
                        Exchange::New => "NEW: "@,
                        Exchange::Trigger => "CHALLENGE trigger: "@,
                        Exchange::Submit => "CHALLENGE submit: "@,
                        Exchange::Token => "CHALLENGE token: "@,
                    } + why@,
                ),
            )
        },
        st.stage == Stage::Handle(x) ==> enroll_next(st, EnrollEvent::Handled(Err(why))).1
            == EnrollActionView::Fail(EnrollErrorView::Cert(why@)),
{
}

/// An enrolment that failed or succeeded is over, and nothing that happens
/// afterwards is answered; nor is anything that does not belong to the stage.
pub proof fn law_finished_enrolment_rests(st: EnrollmentView, event: EnrollEvent)
    ensures
        enroll_next(st, event).1 is Fail || enroll_next(st, event).1 is Done ==> enroll_next(
            st,
            event,
        ).0 == (EnrollmentView { stage: Stage::Finished, ..st }),
        st.stage == Stage::Finished ==> enroll_next(st, event) == (st, EnrollActionView::Wait),
        enroll_next(st, event).1 is Wait <==> !({
            ||| st.stage is Build && event is Built
            ||| st.stage is Sign && event is Signed
            ||| st.stage is Fetch && event is Fetched
            ||| st.stage is Handle && event is Handled
            ||| st.stage is AskPin && event is Pin
            ||| st.stage is FetchCert && event is CertFetched
        }),
        enroll_next(st, event).1 is Wait ==> enroll_next(st, event).0 == st,
        enroll_next(st, event).0.stage != Stage::FetchCert ==> enroll_next(st, event).0.cert_name
            == st.cert_name,
{
}

/// How often the user is asked for a PIN while `events` are taken in from `st`.
pub open spec fn pins_asked(st: EnrollmentView, events: Seq<EnrollEvent>) -> nat
    decreases events.len(),
{
    if events.len() == 0 {
        0
    } else {
        let (next, action) = enroll_next(st, events[0]);
        pins_asked(next, events.skip(1)) + if action is AskPin {
            1nat
        } else {
            0nat
        }
    }
}

/// The user is asked for a PIN at most once, whatever the CA answers.
pub proof fn law_pin_is_asked_at_most_once(st: EnrollmentView, events: Seq<EnrollEvent>)
    ensures
        pins_asked(st, events) <= 1,
        progress(st.stage) >= progress(Stage::AskPin) ==> pins_asked(st, events) == 0,
    decreases events.len(),
{
    if events.len() > 0 {
        let (next, action) = enroll_next(st, events[0]);
        law_enrolment_makes_progress(st, events[0]);
        law_pin_is_asked_at_most_once(next, events.skip(1));
    }
}

/// Whether a stage belongs to the PIN challenge.
pub open spec fn is_pin_stage(stage: Stage) -> bool {
    match stage {
        Stage::Build(x) => x == Exchange::Trigger || x == Exchange::Submit,
        Stage::Sign(x) => x == Exchange::Trigger || x == Exchange::Submit,
        Stage::Fetch(x) => x == Exchange::Trigger || x == Exchange::Submit,
        Stage::Handle(x) => x == Exchange::Trigger || x == Exchange::Submit,
        Stage::AskPin => true,
        _ => false,
    }
}

/// An enrolment by token never comes to the PIN challenge.
pub proof fn law_token_needs_no_pin(st: EnrollmentView, event: EnrollEvent)
    requires
        st.token is Some,
        !is_pin_stage(st.stage),
    ensures
        !is_pin_stage(enroll_next(st, event).0.stage),
        enroll_next(st, event).0.token == st.token,
        enroll_next(st, event).1 !is AskPin,
{
}

/// Success is reported for no other name than the one that a completed
/// challenge was issued.
pub proof fn law_success_needs_an_issued_certificate(st: EnrollmentView, event: EnrollEvent)
    ensures
        enroll_next(st, event).1 is Done ==> st.stage == Stage::FetchCert && enroll_next(
            st,
            event,
        ).1->Done_cert_name == st.cert_name,
        enroll_next(st, event).0.stage == Stage::FetchCert && st.stage != Stage::FetchCert ==> {
            &&& event matches EnrollEvent::Handled(Ok(status))
            &&& status.complete
            &&& status.issued matches Some(name)
            &&& enroll_next(st, event).0.cert_name == name@
        },
{
}

/// The name of a fresh key of `identity`, versioned by the time it was made.
pub open spec fn key_name_of(identity: Seq<ComponentView>, ts_ms: u64) -> Seq<ComponentView> {
    identity.push(text_component("KEY"@)).push(ComponentView::Version(ts_ms))
}

pub fn fresh_key_name(identity: Name, ts_ms: u64) -> (name: Name)
    ensures
        name@ == key_name_of(identity@, ts_ms),
        name@ == identity@ + seq![
            ComponentView::Generic(vstd::utf8::encode_utf8("KEY"@)),
            ComponentView::Version(ts_ms),
        ],
{
    identity.append_str("KEY").append_version(ts_ms)
}

/// The smaller of a sum and the largest 64-bit number.
pub open spec fn capped(n: int) -> int {
    if n > u64::MAX {
        u64::MAX as int
    } else {
        n
    }
}

/// The end of a validity that starts at `now_ns`, held within 64 bits.
pub fn valid_until(now_ns: u64, validity_secs: u64) -> (until_ns: u64)
    ensures
        until_ns == capped(now_ns + capped(validity_secs * 1_000_000_000)),
        until_ns == if now_ns + validity_secs * 1_000_000_000 < u64::MAX {
            now_ns + validity_secs * 1_000_000_000
        } else {
            u64::MAX as int
        },
{
    let span: u64 = match validity_secs.checked_mul(1_000_000_000) {
        Some(span) => span,
        None => u64::MAX,
    };
    now_ns.saturating_add(span)
}

/// What a self-signed identity is made from.
#[derive(Clone, Debug, PartialEq, Eq)]
pub struct SelfSignedPlan {
    pub key_name: Name,
    pub cert_name: Name,
    pub not_before_ns: u64,
    pub not_after_ns: u64,
}

/// Names and validity of a self-signed identity: the key is versioned by the
/// time, and its certificate is the first one that it issues itself.
pub fn generate_identity(
    identity: Name,
    ts_ms: u64,
    now_ns: u64,
    validity_secs: u64,
) -> (plan: SelfSignedPlan)
    ensures
        plan.key_name@ == key_name_of(identity@, ts_ms),
        plan.cert_name@ == key_name_of(identity@, ts_ms).push(text_component("self"@)).push(
            ComponentView::Version(0),
        ),
        plan.not_before_ns == now_ns,
        plan.not_after_ns == capped(now_ns + capped(validity_secs * 1_000_000_000)),
        plan.not_after_ns == if now_ns + validity_secs * 1_000_000_000 < u64::MAX {
            now_ns + validity_secs * 1_000_000_000
        } else {
            u64::MAX as int
        },
        plan.cert_name@ == identity@ + seq![
            ComponentView::Generic(vstd::utf8::encode_utf8("KEY"@)),
            ComponentView::Version(ts_ms),
            ComponentView::Generic(vstd::utf8::encode_utf8("self"@)),
            ComponentView::Version(0),
        ],
        plan.key_name@ == plan.cert_name@.take(identity@.len() as int + 2),
{
    let key_name: Name = fresh_key_name(identity, ts_ms);
    let cert_name: Name = key_name.duplicate().append_str("self").append_version(0);
    SelfSignedPlan {
        key_name,
        cert_name,
        not_before_ns: now_ns,
        not_after_ns: valid_until(now_ns, validity_secs),
    }
}

/// The public key of a generated key, which a certificate cannot do without.
pub fn generated_public_key(public_key: Option<Vec<u8>>) -> (key: Result<Vec<u8>, EnrollError>)
    ensures
        match public_key {
            Some(bytes) => key == Ok::<Vec<u8>, EnrollError>(bytes),
            None => key is Err && key->Err_0@ == EnrollErrorView::Key(
                "generated key has no public key"@,
            ),
        },
{
    match public_key {
        Some(bytes) => Ok(bytes),
        None => Err(EnrollError::Key("generated key has no public key".to_owned())),
    }
}

/// Why the key and certificate of an identity could not be sealed.
#[derive(Clone, Debug, PartialEq, Eq)]
pub enum SealFailure {
    /// The private key could not be read out.
    Key(String),
    /// The bag could not be encrypted.
    Bag(String),
}

/// An enrolled identity. A software key can be exported; a key in the custody
/// of an enclave or of another device cannot.
#[derive(Clone, Debug, PartialEq, Eq)]
pub struct EnrolledIdentity {
    key_name: Name,
    cert_name: Name,
    certificate: Option<Vec<u8>>,
    exportable: bool,
}

/// What is known of an enrolled identity.
pub ghost struct EnrolledView {
    pub key_name: Seq<ComponentView>,
    pub cert_name: Seq<ComponentView>,
    pub certificate: Option<Seq<u8>>,
    pub exportable: bool,
}

impl View for EnrolledIdentity {
    type V = EnrolledView;

    closed spec fn view(&self) -> EnrolledView {
        EnrolledView {
            key_name: self.key_name@,
            cert_name: self.cert_name@,
            certificate: bytes_view(self.certificate),
            exportable: self.exportable,
        }
    }
}

impl EnrolledIdentity {
    /// An identity with a software key.
    pub fn from_software(key_name: Name, cert_name: Name, certificate: Option<Vec<u8>>) -> (id:
        EnrolledIdentity)
        ensures
            id@ == (EnrolledView {
                key_name: key_name@,
                cert_name: cert_name@,
                certificate: bytes_view(certificate),
                exportable: true,
            }),
    {
        EnrolledIdentity { key_name, cert_name, certificate, exportable: true }
    }

    /// An identity whose key is in custody.
    pub fn from_custodian(key_name: Name, cert_name: Name, certificate: Option<Vec<u8>>) -> (id:
        EnrolledIdentity)
        ensures
            id@ == (EnrolledView {
                key_name: key_name@,
                cert_name: cert_name@,
                certificate: bytes_view(certificate),
                exportable: false,
            }),
    {
        EnrolledIdentity { key_name, cert_name, certificate, exportable: false }
    }

    /// The certified key's name.
    pub fn key_name(&self) -> (name: &Name)
        ensures
            name@ == self@.key_name,
    {
        &self.key_name
    }

    /// The issued certificate's name.
    pub fn cert_name(&self) -> (name: &Name)
        ensures
            name@ == self@.cert_name,
    {
        &self.cert_name
    }

    /// The issued certificate, if it was fetched.
    pub fn certificate(&self) -> (certificate: Option<&Vec<u8>>)
        ensures
            match certificate {
                Some(bytes) => self@.certificate == Some(bytes@),
                None => self@.certificate is None,
            },
    {
        self.certificate.as_ref()
    }

    /// Whether the private key can leave the device.
    pub fn is_exportable(&self) -> (exportable: bool)
        ensures
            exportable == self@.exportable,
    {
        self.exportable
    }

    /// The certificate to seal beside the private key. A key in custody cannot
    /// be sealed at all, and a bag needs the certificate.
    pub fn certificate_to_seal(&self) -> (certificate: Result<&Vec<u8>, EnrollError>)
        ensures
            !self@.exportable ==> certificate is Err && certificate->Err_0@
                == EnrollErrorView::NotExportable,
            self@.exportable && self@.certificate is None ==> certificate is Err
                && certificate->Err_0@ == EnrollErrorView::NoCertificate,
            self@.exportable && self@.certificate is Some ==> certificate is Ok && Some(
                certificate->Ok_0@,
            ) == self@.certificate,
    {
        if !self.exportable {
            return Err(EnrollError::NotExportable);
        }
        match &self.certificate {
            None => Err(EnrollError::NoCertificate),
            Some(bytes) => Ok(bytes),
        }
    }

    /// The encrypted bag of this identity, given what came of sealing its key
    /// and certificate. Sealing counts for nothing where it was not allowed.
    pub fn to_safebag(&self, sealed: Result<Vec<u8>, SealFailure>) -> (bag: Result<
        Vec<u8>,
        EnrollError,
    >)
        ensures
            !self@.exportable ==> bag is Err && bag->Err_0@ == EnrollErrorView::NotExportable,
            self@.exportable && self@.certificate is None ==> bag is Err && bag->Err_0@
                == EnrollErrorView::NoCertificate,
            self@.exportable && self@.certificate is Some ==> match sealed {
                Ok(bytes) => bag == Ok::<Vec<u8>, EnrollError>(bytes),
                Err(SealFailure::Key(why)) => bag is Err && bag->Err_0@ == EnrollErrorView::Key(
                    why@,
                ),
                Err(SealFailure::Bag(why)) => bag is Err && bag->Err_0@ == EnrollErrorView::SafeBag(
                    why@,
                ),
            },
    {
        match self.certificate_to_seal() {
            Err(error) => Err(error),
            Ok(_) => match sealed {
                Ok(bytes) => Ok(bytes),
                Err(SealFailure::Key(why)) => Err(EnrollError::Key(why)),
                Err(SealFailure::Bag(why)) => Err(EnrollError::SafeBag(why)),
            },
        }
    }
}

/// The algorithm of a sealed key; an unknown one comes with its identifier.
#[derive(Clone, Debug, PartialEq, Eq)]
pub enum SafeBagAlgorithm {
    Ed25519,
    EcdsaP256,
    Other(String),
}

/// The key in a bag, for an ECDSA P-256 signer, given what came of decrypting the
/// bag and of asking for its algorithm. No other algorithm is supported: other
/// implementations refuse the rest.
pub fn load_identity(
    pkcs8: Result<Vec<u8>, String>,
    algorithm: Result<SafeBagAlgorithm, String>,
) -> (loaded: Result<Vec<u8>, EnrollError>)
    ensures
        match (pkcs8, algorithm) {
            (Err(why), _) => loaded is Err && loaded->Err_0@ == EnrollErrorView::SafeBag(why@),
            (Ok(_), Err(why)) => loaded is Err && loaded->Err_0@ == EnrollErrorView::SafeBag(why@),
            (Ok(key), Ok(SafeBagAlgorithm::EcdsaP256)) => loaded == Ok::<Vec<u8>, EnrollError>(key),
            (Ok(_), Ok(SafeBagAlgorithm::Ed25519)) => loaded is Err && loaded->Err_0@
                == EnrollErrorView::Key("unsupported key algorithm Ed25519"@),
            (Ok(_), Ok(SafeBagAlgorithm::Other(oid))) => loaded is Err && loaded->Err_0@
                == EnrollErrorView::Key("unsupported key algorithm "@ + oid@),
        },
{
    match pkcs8 {
        Err(why) => Err(EnrollError::SafeBag(why)),
        Ok(key) => match algorithm {
            Err(why) => Err(EnrollError::SafeBag(why)),
            Ok(SafeBagAlgorithm::EcdsaP256) => Ok(key),
            Ok(SafeBagAlgorithm::Ed25519) => Err(
                EnrollError::Key("unsupported key algorithm Ed25519".to_owned()),
            ),
            Ok(SafeBagAlgorithm::Other(oid)) => Err(
                EnrollError::Key(text::concat("unsupported key algorithm ", oid.as_str())),
            ),
        },
    }
}

} // verus!
