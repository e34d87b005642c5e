//! Issuing a certificate through an ACME service: the order of the steps,
//! and what each answer of the service leads to.

use crate::cert::{CertError, Certificate, CertificateView};
use crate::fileserver::{
    asset_fields, field, head_bytes, negotiated, payload_for, reply_for, request_in, PayloadView,
    ReplyView, ACME_CHALLENGE_PATH, STATUS_OK,
};
use crate::mappings::{text_view, MappingView, Mappings, MappingsView};
use crate::resource::{processed, Encoding, ResourceError, ResourceView};
use crate::text::{starts_with, text_starts_with};
use vstd::prelude::*;
use vstd::utf8::encode_utf8;

verus! {

/// Milliseconds for which a published routing table is left to settle
/// before the challenges are signaled.
pub const SETTLE_DELAY_MS: u64 = 200;

/// Milliseconds between two looks at the order.
pub const POLL_INTERVAL_MS: u64 = 200;

/// The state of an order, an authorization or a challenge.
#[derive(Clone, Copy, Debug, PartialEq, Eq, Structural)]
pub enum AcmeStatus {
    Pending,
    Processing,
    Ready,
    Valid,
    Invalid,
}

/// Why an issuance ended without a certificate.
#[derive(Clone, Copy, Debug, PartialEq, Eq, Structural)]
pub enum IssuanceError {
    /// The service could not be reached, or it refused a request.
    Transport,
    /// The authorization with this index offers no HTTP challenge.
    MissingHttpChallenge { authorization: usize },
    /// The service found the order invalid.
    AuthorizationFailed,
    /// A key authorization could not be put into the routing table.
    Resource(ResourceError),
    /// The signed certificate is no bundle.
    Certificate(CertError),
    /// The driver reported something that the issuance had not asked for.
    OutOfTurn,
}

/// One way to prove control of a domain.
pub struct ChallengeView {
    pub challenge_type: Seq<char>,
    pub token: Seq<char>,
    pub key_authorization: Option<Seq<char>>,
}

/// One way to prove control of a domain: its type, its token, and the key
/// authorization that has to be served for the token, where the service
/// could compute one.
#[derive(Debug)]
pub struct Challenge {
    pub challenge_type: String,
    pub token: String,
    pub key_authorization: Option<String>,
}

impl View for Challenge {
    type V = ChallengeView;

    open spec fn view(&self) -> ChallengeView {
        ChallengeView {
            challenge_type: self.challenge_type@,
            token: self.token@,
            key_authorization: text_view(self.key_authorization),
        }
    }
}

/// What each challenge says.
pub open spec fn challenge_views(challenges: Seq<Challenge>) -> Seq<ChallengeView> {
    Seq::new(challenges.len(), |i: int| challenges[i]@)
}

/// Index of the first challenge at or after `from` whose type begins with
/// `http`.
pub open spec fn http_challenge_from(challenges: Seq<ChallengeView>, from: int) -> Option<int>
    decreases challenges.len() - from,
{
    if from < 0 || from >= challenges.len() {
        None
    } else if starts_with(challenges[from].challenge_type, "http"@) {
        Some(from)
    } else {
        http_challenge_from(challenges, from + 1)
    }
}

/// Index of the first challenge whose type begins with `http`.
pub open spec fn http_challenge(challenges: Seq<ChallengeView>) -> Option<int> {
    http_challenge_from(challenges, 0)
}

/// The path at which the key authorization for `token` is served.
pub open spec fn challenge_path(token: Seq<char>) -> Seq<char> {
    ACME_CHALLENGE_PATH@ + seq!['/'] + token
}

/// Picks the challenge that is answered over HTTP: the first whose type
/// begins with `http`.
pub fn select_http_challenge(challenges: &Vec<Challenge>) -> (r: Option<usize>)
    ensures
        match r {
            Some(i) => http_challenge(challenge_views(challenges@)) == Some(i as int) && i
                < challenges.len(),
            None => http_challenge(challenge_views(challenges@)) is None,
        },
{
    let ghost views = challenge_views(challenges@);
    let mut i: usize = 0;
    while i < challenges.len()
        invariant
            i <= challenges.len(),
            views == challenge_views(challenges@),
            http_challenge(views) == http_challenge_from(views, i as int),
        decreases challenges.len() - i,
    {
        if text_starts_with(challenges[i].challenge_type.as_str(), "http") {
            return Some(i);
        }
        i = i + 1;
    }
    None
}

/// The path at which the key authorization for `token` is served.
pub fn challenge_route(token: &str) -> (path: String)
    ensures
        path@ == challenge_path(token@),
{
    proof {
        reveal_strlit("/");
    }
    let mut path = ACME_CHALLENGE_PATH.to_owned();
    path.append("/");
    path.append(token);
    path
}

/// The routing table after the key authorization of `challenge` was put
/// into it. This fails with `Transport` where the challenge has no key
/// authorization, and with `Resource` where compressing it fails.
pub open spec fn with_challenge(table: MappingsView, challenge: ChallengeView) -> Result<
    MappingsView,
    IssuanceError,
> {
    let path = challenge_path(challenge.token);
    match challenge.key_authorization {
        None => Err(IssuanceError::Transport),
        Some(key_authorization) => match processed(encode_utf8(key_authorization)) {
            Some(cached) => Ok(
                MappingsView {
                    routes: table.routes.insert(path, MappingView { path, content_type: None }),
                    cache: table.cache.insert(path, ResourceView::Cached(cached)),
                    ..table
                },
            ),
            None => Err(IssuanceError::Resource(ResourceError::Compression)),
        },
    }
}

/// Puts the key authorization of `challenge` into the routing table, under
/// the path of its token.
pub fn publish_challenge(mappings: &mut Mappings, challenge: &Challenge) -> (r: Result<
    (),
    IssuanceError,
>)
    requires
        old(mappings).wf(),
    ensures
        final(mappings).wf(),
        match r {
            Ok(()) => with_challenge(old(mappings)@, challenge@) == Ok::<
                MappingsView,
                IssuanceError,
            >(final(mappings)@),
            Err(e) => with_challenge(old(mappings)@, challenge@) == Err::<
                MappingsView,
                IssuanceError,
            >(e) && final(mappings)@ == old(mappings)@,
        },
{
    let key_authorization = match &challenge.key_authorization {
        Some(key_authorization) => key_authorization,
        None => {
            return Err(IssuanceError::Transport);
        },
    };
    let path = challenge_route(challenge.token.as_str());
    let body = key_authorization.as_str().as_bytes_vec();
    match mappings.insert_data_mapping(path.as_str(), body) {
        Ok(()) => Ok(()),
        Err(e) => Err(IssuanceError::Resource(e)),
    }
}

/// What to do with an order that is in the state `status`.
#[derive(Clone, Copy, Debug, PartialEq, Eq, Structural)]
pub enum Poll {
    /// The service is still validating: look again after a pause.
    Wait,
    /// The order can be finalized.
    Finalize,
    /// The order is invalid: give the attempt up.
    GiveUp,
}

/// What to do with an order that is in the state `status`.
pub open spec fn polled(status: AcmeStatus) -> Poll {
    match status {
        AcmeStatus::Pending | AcmeStatus::Processing => Poll::Wait,
        AcmeStatus::Ready | AcmeStatus::Valid => Poll::Finalize,
        AcmeStatus::Invalid => Poll::GiveUp,
    }
}

/// Decides what to do with an order that is in the state `status`.
pub fn poll_order(status: AcmeStatus) -> (poll: Poll)
    ensures
        poll == polled(status),
{
    match status {
        AcmeStatus::Pending => Poll::Wait,
        AcmeStatus::Processing => Poll::Wait,
        AcmeStatus::Ready => Poll::Finalize,
        AcmeStatus::Valid => Poll::Finalize,
        AcmeStatus::Invalid => Poll::GiveUp,
    }
}

/// Where an issuance stands.
#[derive(Clone, Copy, Debug, PartialEq, Eq, Structural)]
pub enum Stage {
    /// It has not begun.
    Fresh,
    /// It registers with the service.
    Connecting,
    /// It has submitted the order.
    Submitting,
    /// It has asked for the authorization with this index.
    Authorizing { index: usize },
    /// It has handed the routing table with the key authorizations to the
    /// plaintext listener.
    Publishing,
    /// It leaves the routing table to settle.
    Settling,
    /// It has signaled the challenge of the authorization with this index.
    Signaling { index: usize },
    /// It pauses before it looks at the order.
    Waiting,
    /// It has asked for the order.
    Polling,
    /// It has asked for the signed certificate.
    Finalizing,
    /// It has ended.
    Finished,
}

/// What the driver of an issuance reports to it.
pub enum AcmeEventView {
    Started,
    Failed,
    Connected,
    Ordered { authorizations: usize },
    Authorization { challenges: Seq<ChallengeView> },
    Published,
    Slept,
    Signaled,
    Order { status: AcmeStatus },
    Signed { bundle: CertificateView },
}

/// What the driver of an issuance reports to it: that it may begin, or
/// what came of the step it had asked for.
#[derive(Debug)]
pub enum AcmeEvent {
    /// The issuance may begin.
    Started,
    /// The step failed.
    Failed,
    /// The account is registered.
    Connected,
    /// The order is submitted; it has this many authorizations.
    Ordered { authorizations: usize },
    /// The authorization that was asked for offers these challenges.
    Authorization { challenges: Vec<Challenge> },
    /// The routing table is handed to the plaintext listener.
    Published,
    /// The pause is over.
    Slept,
    /// The challenge is signaled.
    Signaled,
    /// The order is in this state.
    Order { status: AcmeStatus },
    /// The order is finalized: the three PEM texts of the bundle, and the
    /// days until the certificate expires.
    Signed {
        certificate: Vec<u8>,
        intermediate: Vec<u8>,
        private_key: Vec<u8>,
        days_till_expiry: i32,
    },
}

impl View for AcmeEvent {
    type V = AcmeEventView;

    open spec fn view(&self) -> AcmeEventView {
        match self {
            AcmeEvent::Started => AcmeEventView::Started,
            AcmeEvent::Failed => AcmeEventView::Failed,
            AcmeEvent::Connected => AcmeEventView::Connected,
            AcmeEvent::Ordered { authorizations } => AcmeEventView::Ordered {
                authorizations: *authorizations,
            },
            AcmeEvent::Authorization { challenges } => AcmeEventView::Authorization {
                challenges: challenge_views(challenges@),
            },
            AcmeEvent::Published => AcmeEventView::Published,
            AcmeEvent::Slept => AcmeEventView::Slept,
            AcmeEvent::Signaled => AcmeEventView::Signaled,
            AcmeEvent::Order { status } => AcmeEventView::Order { status: *status },
            AcmeEvent::Signed {
                certificate,
                intermediate,
                private_key,
                days_till_expiry,
            } => AcmeEventView::Signed {
                bundle: CertificateView {
                    certificate: certificate@,
                    intermediate: intermediate@,
                    private_key: private_key@,
                    days_till_expiry: *days_till_expiry,
                },
            },
        }
    }
}

/// What an issuance asks its driver to do.
pub enum AcmeStepView {
    Connect { staging: bool },
    SubmitOrder { domains: Seq<Seq<char>> },
    FetchAuthorization { index: usize },
    Publish { mappings: MappingsView },
    Sleep { millis: u64 },
    SignalChallenge { authorization: usize, challenge: usize },
    FetchOrder,
    Finalize,
    Done(Result<CertificateView, IssuanceError>),
}

/// What an issuance asks its driver to do.
pub enum AcmeStep {
    /// Register with the production or the staging service and report
    /// `Connected`.
    Connect { staging: bool },
    /// Submit an order for these domains and report `Ordered`.
    SubmitOrder { domains: Vec<String> },
    /// Fetch the authorization with this index of the order and report
    /// `Authorization`.
    FetchAuthorization { index: usize },
    /// Hand this routing table to the plaintext listener and report
    /// `Published`.
    Publish { mappings: Mappings },
    /// Pause and report `Slept`.
    Sleep { millis: u64 },
    /// Tell the service that this challenge of this authorization can be
    /// validated, and report `Signaled`.
    SignalChallenge { authorization: usize, challenge: usize },
    /// Fetch the order and report `Order`.
    FetchOrder,
    /// Finalize the order and report `Signed`.
    Finalize,
    /// The issuance has ended.
    Done(Result<Certificate, IssuanceError>),
}

/// The text of each string.
pub open spec fn texts(strings: Seq<String>) -> Seq<Seq<char>> {
    Seq::new(strings.len(), |i: int| strings[i]@)
}

impl View for AcmeStep {
    type V = AcmeStepView;

    open spec fn view(&self) -> AcmeStepView {
        match self {
            AcmeStep::Connect { staging } => AcmeStepView::Connect { staging: *staging },
            AcmeStep::SubmitOrder { domains } => AcmeStepView::SubmitOrder {
                domains: texts(domains@),
            },
            AcmeStep::FetchAuthorization { index } => AcmeStepView::FetchAuthorization {
                index: *index,
            },
            AcmeStep::Publish { mappings } => AcmeStepView::Publish { mappings: mappings@ },
            AcmeStep::Sleep { millis } => AcmeStepView::Sleep { millis: *millis },
            AcmeStep::SignalChallenge { authorization, challenge } => AcmeStepView::SignalChallenge {
                authorization: *authorization,
                challenge: *challenge,
            },
            AcmeStep::FetchOrder => AcmeStepView::FetchOrder,
            AcmeStep::Finalize => AcmeStepView::Finalize,
            AcmeStep::Done(result) => AcmeStepView::Done(
                match result {
                    Ok(bundle) => Ok(bundle@),
                    Err(e) => Err(*e),
                },
            ),
        }
    }
}

/// The state of an issuance.
pub struct IssuanceView {
    pub stage: Stage,
    /// Whether the staging service is used.
    pub staging: bool,
    /// The domains that the certificate is for, until they are submitted.
    pub domains: Seq<Seq<char>>,
    /// Number of authorizations of the order.
    pub authorizations: usize,
    /// For each authorization that was fetched, the index of its HTTP
    /// challenge.
    pub selected: Seq<usize>,
    /// The routing table with the key authorizations, until it is
    /// published.
    pub table: MappingsView,
}

/// A routing table without routes that serves from the cache.
pub open spec fn empty_table() -> MappingsView {
    MappingsView {
        routes: Map::empty(),
        imported: Seq::empty(),
        cache: Map::empty(),
        caching_enabled: true,
    }
}

impl IssuanceView {
    /// The indices that the stage speaks of are within bounds.
    pub open spec fn wf(self) -> bool {
        match self.stage {
            Stage::Authorizing { index } => index < self.authorizations && self.selected.len()
                == index,
            Stage::Publishing | Stage::Settling => self.selected.len() == self.authorizations,
            Stage::Signaling { index } => index < self.authorizations && self.selected.len()
                == self.authorizations,
            _ => true,
        }
    }

    /// The issuance ends with `error`.
    pub open spec fn fail(self, error: IssuanceError) -> (IssuanceView, AcmeStepView) {
        (IssuanceView { stage: Stage::Finished, ..self }, AcmeStepView::Done(Err(error)))
    }

    /// The issuance moves on to `stage` and asks for `step`.
    pub open spec fn go(self, stage: Stage, step: AcmeStepView) -> (IssuanceView, AcmeStepView) {
        (IssuanceView { stage, ..self }, step)
    }

    /// The routing table goes to the plaintext listener.
    pub open spec fn publish(self) -> (IssuanceView, AcmeStepView) {
        (
            IssuanceView { stage: Stage::Publishing, table: empty_table(), ..self },
            AcmeStepView::Publish { mappings: self.table },
        )
    }

    /// The challenge of the authorization `index` is signaled.
    pub open spec fn signal(self, index: usize) -> (IssuanceView, AcmeStepView) {
        self.go(
            Stage::Signaling { index },
            AcmeStepView::SignalChallenge {
                authorization: index,
                challenge: self.selected[index as int],
            },
        )
    }

    /// What follows when the authorization `index` has arrived: its HTTP
    /// challenge is put into the routing table, and the next authorization
    /// is asked for or, after the last, the table is published.
    pub open spec fn on_authorization(self, index: usize, challenges: Seq<ChallengeView>) -> (
        IssuanceView,
        AcmeStepView,
    ) {
        match http_challenge(challenges) {
            None => self.fail(IssuanceError::MissingHttpChallenge { authorization: index }),
            Some(chosen) => match with_challenge(self.table, challenges[chosen]) {
                Err(e) => self.fail(e),
                Ok(table) => {
                    let noted = IssuanceView {
                        table,
                        selected: self.selected.push(chosen as usize),
                        ..self
                    };
                    if index + 1 < self.authorizations {
                        noted.go(
                            Stage::Authorizing { index: (index + 1) as usize },
                            AcmeStepView::FetchAuthorization { index: (index + 1) as usize },
                        )
                    } else {
                        noted.publish()
                    }
                },
            },
        }
    }

    /// The state and the step that follow on `event`.
    pub open spec fn next(self, event: AcmeEventView) -> (IssuanceView, AcmeStepView) {
        match (self.stage, event) {
            (Stage::Finished, _) => self.fail(IssuanceError::OutOfTurn),
            (_, AcmeEventView::Failed) => self.fail(IssuanceError::Transport),
            (Stage::Fresh, AcmeEventView::Started) => self.go(
                Stage::Connecting,
                AcmeStepView::Connect { staging: self.staging },
            ),
            (Stage::Connecting, AcmeEventView::Connected) => (
                IssuanceView { stage: Stage::Submitting, domains: Seq::empty(), ..self },
                AcmeStepView::SubmitOrder { domains: self.domains },
            ),
            (Stage::Submitting, AcmeEventView::Ordered { authorizations }) => {
                let counted = IssuanceView { authorizations, selected: Seq::empty(), ..self };
                if authorizations == 0 {
                    counted.publish()
                } else {
                    counted.go(
                        Stage::Authorizing { index: 0 },
                        AcmeStepView::FetchAuthorization { index: 0 },
                    )
                }
            },
            (
                Stage::Authorizing { index },
                AcmeEventView::Authorization { challenges },
            ) => self.on_authorization(index, challenges),
            (Stage::Publishing, AcmeEventView::Published) => self.go(
                Stage::Settling,
                AcmeStepView::Sleep { millis: SETTLE_DELAY_MS },
            ),
            (Stage::Settling, AcmeEventView::Slept) => if self.authorizations == 0 {
                self.go(Stage::Waiting, AcmeStepView::Sleep { millis: POLL_INTERVAL_MS })
            } else {
                self.signal(0)
            },
            (Stage::Signaling { index }, AcmeEventView::Signaled) => if index + 1
                < self.authorizations {
                self.signal((index + 1) as usize)
            } else {
                self.go(Stage::Waiting, AcmeStepView::Sleep { millis: POLL_INTERVAL_MS })
            },
            (Stage::Waiting, AcmeEventView::Slept) => self.go(
                Stage::Polling,
                AcmeStepView::FetchOrder,
            ),
            (Stage::Polling, AcmeEventView::Order { status }) => match polled(status) {
                Poll::Wait => self.go(
                    Stage::Waiting,
                    AcmeStepView::Sleep { millis: POLL_INTERVAL_MS },
                ),
                Poll::Finalize => self.go(Stage::Finalizing, AcmeStepView::Finalize),
                Poll::GiveUp => self.fail(IssuanceError::AuthorizationFailed),
            },
            (Stage::Finalizing, AcmeEventView::Signed { bundle }) => if bundle.decodes() {
                self.go(Stage::Finished, AcmeStepView::Done(Ok(bundle)))
            } else {
                self.fail(IssuanceError::Certificate(CertError::Malformed))
            },
            _ => self.fail(IssuanceError::OutOfTurn),
        }
    }
}

/// One attempt to have a certificate issued. Talking to the service,
/// handing the routing table to the listener and sleeping are left to the
/// driver, which reports what came of each.
pub struct Issuance {
    stage: Stage,
    staging: bool,
    domains: Vec<String>,
    authorizations: usize,
    selected: Vec<usize>,
    mappings: Mappings,
}

impl View for Issuance {
    type V = IssuanceView;

    closed spec fn view(&self) -> IssuanceView {
        IssuanceView {
            stage: self.stage,
            staging: self.staging,
            domains: texts(self.domains@),
            authorizations: self.authorizations,
            selected: self.selected@,
            table: self.mappings@,
        }
    }
}

impl Issuance {
    /// The state is well-formed, and so is the routing table in it.
    pub closed spec fn wf(&self) -> bool {
        self@.wf() && self.mappings.wf()
    }

    /// An issuance for `domains` that has not begun.
    pub fn new(domains: Vec<String>, staging: bool) -> (issuance: Issuance)
        requires
            domains.len() > 0,
        ensures
            issuance.wf(),
            issuance@ == (IssuanceView {
                stage: Stage::Fresh,
                staging,
                domains: texts(domains@),
                authorizations: 0,
                selected: Seq::empty(),
                table: empty_table(),
            }),
    {
        Issuance {
            stage: Stage::Fresh,
            staging,
            domains,
            authorizations: 0,
            selected: Vec::new(),
            mappings: Mappings::new(true),
        }
    }

    fn fail(&mut self, error: IssuanceError) -> (step: AcmeStep)
        requires
            old(self).mappings.wf(),
        ensures
            (final(self)@, step@) == old(self)@.fail(error),
            final(self).wf(),
    {
        self.stage = Stage::Finished;
        AcmeStep::Done(Err(error))
    }

    fn publish(&mut self) -> (step: AcmeStep)
        requires
            old(self).mappings.wf(),
            old(self)@.selected.len() == old(self)@.authorizations,
        ensures
            (final(self)@, step@) == old(self)@.publish(),
            final(self).wf(),
    {
        let mut mappings = Mappings::new(true);
        core::mem::swap(&mut self.mappings, &mut mappings);
        self.stage = Stage::Publishing;
        AcmeStep::Publish { mappings }
    }

    fn signal(&mut self, index: usize) -> (step: AcmeStep)
        requires
            old(self).mappings.wf(),
            index < old(self)@.authorizations,
            old(self)@.selected.len() == old(self)@.authorizations,
        ensures
            (final(self)@, step@) == old(self)@.signal(index),
            final(self).wf(),
    {
        self.stage = Stage::Signaling { index };
        AcmeStep::SignalChallenge { authorization: index, challenge: self.selected[index] }
    }

    fn on_authorization(&mut self, index: usize, challenges: Vec<Challenge>) -> (step: AcmeStep)
        requires
            old(self).wf(),
            old(self)@.stage == (Stage::Authorizing { index }),
        ensures
            (final(self)@, step@) == old(self)@.on_authorization(
                index,
                challenge_views(challenges@),
            ),
            final(self).wf(),
    {
        let chosen = match select_http_challenge(&challenges) {
            Some(chosen) => chosen,
            None => {
                return self.fail(IssuanceError::MissingHttpChallenge { authorization: index });
            },
        };
        match publish_challenge(&mut self.mappings, &challenges[chosen]) {
            Ok(()) => {},
            Err(e) => {
                return self.fail(e);
            },
        }
        self.selected.push(chosen);
        if index + 1 < self.authorizations {
            self.stage = Stage::Authorizing { index: index + 1 };
            AcmeStep::FetchAuthorization { index: index + 1 }
        } else {
            self.publish()
        }
    }

    /// Takes in what the driver reports and decides the next step.
    ///
    /// The steps follow one another in a fixed order: register, submit the
    /// order, fetch each authorization and put the key authorization of its
    /// HTTP challenge into a routing table, publish that table, let it
    /// settle, signal each challenge, then look at the order after each
    /// pause until it is ready, and finalize it. An authorization without
    /// an HTTP challenge, an invalid order and a step that failed each end
    /// the attempt.
    pub fn step(&mut self, event: AcmeEvent) -> (step: AcmeStep)
        requires
            old(self).wf(),
        ensures
            (final(self)@, step@) == old(self)@.next(event@),
            final(self).wf(),
    {
        match (self.stage, event) {
            (Stage::Finished, _) => self.fail(IssuanceError::OutOfTurn),
            (_, AcmeEvent::Failed) => self.fail(IssuanceError::Transport),
            (Stage::Fresh, AcmeEvent::Started) => {
                self.stage = Stage::Connecting;
                AcmeStep::Connect { staging: self.staging }
            },
            (Stage::Connecting, AcmeEvent::Connected) => {
                let mut domains: Vec<String> = Vec::new();
                core::mem::swap(&mut self.domains, &mut domains);
                self.stage = Stage::Submitting;
                assert(texts(self.domains@) =~= Seq::empty());
                AcmeStep::SubmitOrder { domains }
            },
            (Stage::Submitting, AcmeEvent::Ordered { authorizations }) => {
                self.authorizations = authorizations;
                self.selected = Vec::new();
                if authorizations == 0 {
                    self.publish()
                } else {
                    self.stage = Stage::Authorizing { index: 0 };
                    AcmeStep::FetchAuthorization { index: 0 }
                }
            },
            (Stage::Authorizing { index }, AcmeEvent::Authorization { challenges }) => {
                self.on_authorization(index, challenges)
            },
            (Stage::Publishing, AcmeEvent::Published) => {
                self.stage = Stage::Settling;
                AcmeStep::Sleep { millis: SETTLE_DELAY_MS }
            },
            (Stage::Settling, AcmeEvent::Slept) => {
                if self.authorizations == 0 {
                    self.stage = Stage::Waiting;
                    AcmeStep::Sleep { millis: POLL_INTERVAL_MS }
                } else {
                    self.signal(0)
                }
            },
            (Stage::Signaling { index }, AcmeEvent::Signaled) => {
                if index + 1 < self.authorizations {
                    self.signal(index + 1)
                } else {
                    self.stage = Stage::Waiting;
                    AcmeStep::Sleep { millis: POLL_INTERVAL_MS }
                }
            },
            (Stage::Waiting, AcmeEvent::Slept) => {
                self.stage = Stage::Polling;
                AcmeStep::FetchOrder
            },
            (Stage::Polling, AcmeEvent::Order { status }) => match poll_order(status) {
                Poll::Wait => {
                    self.stage = Stage::Waiting;
                    AcmeStep::Sleep { millis: POLL_INTERVAL_MS }
                },
                Poll::Finalize => {
                    self.stage = Stage::Finalizing;
                    AcmeStep::Finalize
                },
                Poll::GiveUp => self.fail(IssuanceError::AuthorizationFailed),
            },
            (
                Stage::Finalizing,
                AcmeEvent::Signed { certificate, intermediate, private_key, days_till_expiry },
            ) => {
                match Certificate::from_signed(
                    certificate,
                    intermediate,
                    private_key,
                    days_till_expiry,
                ) {
                    Ok(bundle) => {
                        self.stage = Stage::Finished;
                        AcmeStep::Done(Ok(bundle))
                    },
                    Err(e) => self.fail(IssuanceError::Certificate(e)),
                }
            },
            _ => self.fail(IssuanceError::OutOfTurn),
        }
    }
}

/// The steps that an issuance in `state` asks for, one for each of
/// `events` in order.
pub open spec fn steps(state: IssuanceView, events: Seq<AcmeEventView>) -> Seq<AcmeStepView>
    decreases events.len(),
{
    if events.len() == 0 {
        Seq::empty()
    } else {
        seq![state.next(events[0]).1] + steps(state.next(events[0]).0, events.skip(1))
    }
}

/// An issuance asks for one step on each event.
pub proof fn lemma_steps_len(state: IssuanceView, events: Seq<AcmeEventView>)
    ensures
        steps(state, events).len() == events.len(),
    decreases events.len(),
{
    if events.len() > 0 {
        lemma_steps_len(state.next(events[0]).0, events.skip(1));
    }
}

/// Whether the routing table of an issuance in `stage` is still to be
/// published, or the issuance has ended.
pub open spec fn unpublished(stage: Stage) -> bool {
    match stage {
        Stage::Fresh | Stage::Connecting | Stage::Submitting | Stage::Authorizing { .. }
        | Stage::Finished => true,
        _ => false,
    }
}

/// No challenge is signaled before the routing table with the key
/// authorizations was handed to the listener: whatever the driver reports
/// to an issuance that has not published yet, a step that signals a
/// challenge comes after a step that publishes.
pub proof fn lemma_signal_follows_publish(
    state: IssuanceView,
    events: Seq<AcmeEventView>,
    k: int,
)
    requires
        unpublished(state.stage),
        0 <= k < events.len(),
        steps(state, events)[k] is SignalChallenge,
    ensures
        exists|j: int| 0 <= j < k && #[trigger] steps(state, events)[j] is Publish,
    decreases events.len(),
{
    let (next, step) = state.next(events[0]);
    let all = steps(state, events);
    let rest = steps(next, events.skip(1));
    lemma_steps_len(next, events.skip(1));
    if step is Publish {
        assert(all[0] is Publish);
    } else {
        lemma_signal_follows_publish(next, events.skip(1), k - 1);
        let j = choose|j: int| 0 <= j < k - 1 && #[trigger] rest[j] is Publish;
        assert(all[j + 1] is Publish);
    }
}

/// A challenge that was put into a routing table which serves from its
/// cache is served: a well-formed request for the path of its token gets a
/// 200, also from a listener that redirects everything else, and where the
/// client asks for no encoding the body is the key authorization itself.
pub proof fn lemma_published_challenge_is_served(
    table: MappingsView,
    challenge: ChallengeView,
    data: Seq<u8>,
    zombie_mode: bool,
)
    requires
        table.caching_enabled,
        with_challenge(table, challenge) is Ok,
        request_in(data) is Ok,
        request_in(data)->Ok_0.uri == challenge_path(challenge.token),
    ensures
        ({
            let published = with_challenge(table, challenge)->Ok_0;
            let cached = processed(encode_utf8(challenge.key_authorization->0))->0;
            let encoding = negotiated(field(request_in(data)->Ok_0, "Accept-Encoding"@));
            &&& reply_for(data, published, zombie_mode) == (ReplyView::Asset {
                asset: ResourceView::Cached(cached),
                encoding,
                content_type: None,
            })
            &&& payload_for(ResourceView::Cached(cached), encoding, None, None) == (PayloadView {
                head: head_bytes(STATUS_OK@, asset_fields(encoding, None)),
                body: cached.body(encoding),
                outcome: Ok(()),
            })
            &&& cached.body(Encoding::Uncompressed) == encode_utf8(challenge.key_authorization->0)
        }),
{
    let path = challenge_path(challenge.token);
    assert(path.subrange(0, ACME_CHALLENGE_PATH@.len() as int) =~= ACME_CHALLENGE_PATH@);
}

} // verus!
