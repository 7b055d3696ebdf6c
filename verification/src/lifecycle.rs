//! The session lifecycle manager.
//!
//! Starting and stopping a session each take one exchange with the
//! controller. The manager does not make the exchange. It says which request
//! is to be sent, and when the reply or the transport failure is handed back
//! it judges it, updates the registry and says what is to be done next. The
//! registry is touched only after the exchange, in one step, so that another
//! operation may run to completion while an exchange is under way.

use crate::error::{kind_of, Failure, FailureKind, ServiceError};
use crate::gateway::{
    nat_value, start_request, start_request_model, status_code, stop_request, stop_request_model,
    GatewayReply, OutboundRequest, TransportError, STATUS_OK,
};
use crate::json::{decode_session, decoded_session, json_parse, malformed_detail, utf8_lossy};
use crate::registry::{
    holds_container, keyed_by_owner, without_container, Registry, RegistryModel, SessionHandle,
    SessionModel,
};
use vstd::prelude::*;
use vstd::string::*;

verus! {

/// Lifetime of a session: five minutes, after which it is stopped.
pub const SESSION_LIFETIME_SECS: u64 = 300;

/// Where a session stands.
#[derive(Clone, Copy, Debug, PartialEq, Eq, Structural)]
pub enum SessionState {
    /// A start was asked for; nothing was sent yet.
    Requested,
    /// The start request is with the controller.
    Starting,
    /// The container runs and the registry holds its handle.
    Live,
    /// The stop request is with the controller, or it failed there.
    Stopping,
    /// The container is gone.
    Stopped,
    /// The start did not succeed.
    Failed,
}

/// What happens to a session.
#[derive(Clone, Copy, Debug, PartialEq, Eq, Structural)]
pub enum SessionEvent {
    /// The start request was handed to the gateway.
    StartIssued,
    /// The controller created the container.
    StartSucceeded,
    /// The start request failed, in whichever way.
    StartFailed,
    /// The stop request was handed to the gateway.
    StopIssued,
    /// The controller destroyed the container.
    StopSucceeded,
    /// The stop request failed, in whichever way.
    StopFailed,
}

/// The state that follows `state` on `event`, where the event can happen in
/// that state.
pub open spec fn transition(state: SessionState, event: SessionEvent) -> Option<SessionState> {
    match (state, event) {
        (SessionState::Requested, SessionEvent::StartIssued) => Some(SessionState::Starting),
        (SessionState::Starting, SessionEvent::StartSucceeded) => Some(SessionState::Live),
        (SessionState::Starting, SessionEvent::StartFailed) => Some(SessionState::Failed),
        (SessionState::Live, SessionEvent::StopIssued) => Some(SessionState::Stopping),
        (SessionState::Stopping, SessionEvent::StopSucceeded) => Some(SessionState::Stopped),
        (SessionState::Stopping, SessionEvent::StopFailed) => Some(SessionState::Stopping),
        _ => None,
    }
}

impl SessionState {
    /// Whether nothing can happen to a session in this state any more.
    pub open spec fn terminal(self) -> bool {
        self == SessionState::Stopped || self == SessionState::Failed
    }

    /// Whether the state is final.
    pub fn is_terminal(self) -> (terminal: bool)
        ensures
            terminal == self.terminal(),
    {
        match self {
            SessionState::Stopped => true,
            SessionState::Failed => true,
            _ => false,
        }
    }

    /// Moves on by one event, where the event can happen in this state.
    pub fn on(self, event: SessionEvent) -> (next: Option<SessionState>)
        ensures
            next == transition(self, event),
    {
        match (self, event) {
            (SessionState::Requested, SessionEvent::StartIssued) => Some(SessionState::Starting),
            (SessionState::Starting, SessionEvent::StartSucceeded) => Some(SessionState::Live),
            (SessionState::Starting, SessionEvent::StartFailed) => Some(SessionState::Failed),
            (SessionState::Live, SessionEvent::StopIssued) => Some(SessionState::Stopping),
            (SessionState::Stopping, SessionEvent::StopSucceeded) => Some(SessionState::Stopped),
            (SessionState::Stopping, SessionEvent::StopFailed) => Some(SessionState::Stopping),
            _ => None,
        }
    }
}

/// Nanoseconds in a second. Host time is counted in nanoseconds.
pub const NANOS_PER_SEC: u64 = 1_000_000_000;

/// A one-shot deferred stop, bound to one container.
///
/// A timer comes out of a start that succeeded and of nothing else. It
/// cannot be copied, and firing it uses it up, so that it stops its
/// container once. It does not fire before its delay has passed, whenever it
/// is asked to.
#[derive(Debug, PartialEq, Eq)]
pub struct ExpiryTimer {
    container_id: String,
    armed_at: u64,
    delay_secs: u64,
}

/// An expiry as plain mathematical values.
pub struct TimerModel {
    /// The container that is stopped when the timer fires.
    pub container_id: Seq<char>,
    /// Host time at which the timer was armed.
    pub armed_at: u64,
    /// How long after arming the timer fires, in seconds.
    pub delay_secs: u64,
}

/// Whether the delay of a timer has passed at the host time `now`.
pub open spec fn due(timer: TimerModel, now: u64) -> bool {
    now >= timer.armed_at + timer.delay_secs * NANOS_PER_SEC
}

impl View for ExpiryTimer {
    type V = TimerModel;

    closed spec fn view(&self) -> TimerModel {
        TimerModel {
            container_id: self.container_id@,
            armed_at: self.armed_at,
            delay_secs: self.delay_secs,
        }
    }
}

impl ExpiryTimer {
    /// The container that is stopped when the timer fires.
    pub fn container_id(&self) -> (id: &str)
        ensures
            id@ == self@.container_id,
    {
        self.container_id.as_str()
    }

    /// Host time at which the timer was armed.
    pub fn armed_at(&self) -> (at: u64)
        ensures
            at == self@.armed_at,
    {
        self.armed_at
    }

    /// How long after arming the timer is to fire, in seconds.
    pub fn delay_secs(&self) -> (delay: u64)
        ensures
            delay == self@.delay_secs,
    {
        self.delay_secs
    }

    /// Whether the delay has passed at the host time `now`.
    pub fn is_due(&self, now: u64) -> (passed: bool)
        ensures
            passed == due(self@, now),
    {
        assert(self.delay_secs * NANOS_PER_SEC <= u64::MAX * 1_000_000_000) by (nonlinear_arith)
            requires
                self.delay_secs <= u64::MAX,
                NANOS_PER_SEC == 1_000_000_000,
        ;
        let wait: u128 = (self.delay_secs as u128) * (NANOS_PER_SEC as u128);
        (now as u128) >= (self.armed_at as u128) + wait
    }

    /// Fires the timer at the host time `now`. Where the delay has passed,
    /// the timer is used up and hands out the container to stop; the stop is
    /// the one that an explicit stop of that container is. Where the delay
    /// has not passed, nothing happens and the timer is handed back.
    pub fn fire(self, now: u64) -> (fired: Result<String, ExpiryTimer>)
        ensures
            match fired {
                Ok(container_id) => due(self@, now) && container_id@ == self@.container_id,
                Err(timer) => !due(self@, now) && timer == self,
            },
    {
        if self.is_due(now) {
            Ok(self.container_id)
        } else {
            Err(self)
        }
    }
}

/// What a successful start hands to the caller.
#[derive(Debug, PartialEq, Eq)]
pub struct StartedSession {
    /// Address of the editor, for the user.
    pub editor_url: String,
    /// The expiry to arm with the host.
    pub expiry: ExpiryTimer,
}

/// The expiry of a session in `container_id` that was started at `now`.
pub open spec fn expiry_of(container_id: Seq<char>, now: u64) -> TimerModel {
    TimerModel { container_id, armed_at: now, delay_secs: SESSION_LIFETIME_SECS }
}

/// The outcome of one exchange, as plain mathematical values.
pub enum Delivery {
    /// The controller answered.
    Reply { status: nat, body: Seq<u8> },
    /// The host could not complete the exchange.
    Unreachable { diagnostic: Seq<char> },
}

/// The model of what the gateway handed back.
pub open spec fn delivery_of(delivery: Result<GatewayReply, TransportError>) -> Delivery {
    match delivery {
        Ok(reply) => Delivery::Reply { status: nat_value(reply.status), body: reply.body@ },
        Err(failure) => Delivery::Unreachable { diagnostic: failure.diagnostic@ },
    }
}

/// The body of a reply that the controller gave with status 200. A transport
/// failure and any other status are failures, whatever else came back.
pub open spec fn accepted_body(delivery: Delivery) -> Result<Seq<u8>, FailureKind> {
    match delivery {
        Delivery::Unreachable { .. } => Err(FailureKind::GatewayUnreachable),
        Delivery::Reply { status, body } => if status != 200 {
            Err(FailureKind::ControllerRejected)
        } else {
            Ok(body)
        },
    }
}

/// How the delivery of a start request is judged: the container id and the
/// editor address on success, the kind of failure otherwise. The transport is
/// looked at first, then the status, then the body.
pub open spec fn start_verdict(delivery: Delivery) -> Result<(Seq<char>, Seq<char>), FailureKind> {
    match accepted_body(delivery) {
        Err(kind) => Err(kind),
        Ok(body) => match decoded_session(body) {
            Some(fields) => Ok(fields),
            None => Err(FailureKind::MalformedResponse),
        },
    }
}

/// How the delivery of a stop request is judged. The body is not looked at.
pub open spec fn stop_verdict(delivery: Delivery) -> Result<(), FailureKind> {
    match accepted_body(delivery) {
        Err(kind) => Err(kind),
        Ok(_) => Ok(()),
    }
}

/// The handle that a successful start files.
pub open spec fn started_handle(
    user_id: Seq<char>,
    container_id: Seq<char>,
    editor_url: Seq<char>,
    now: u64,
) -> SessionModel {
    SessionModel { container_id, editor_url, owner: user_id, created_at: now }
}

/// The registry after a start for `user_id` whose exchange ended in
/// `delivery`. A success files the new handle under the user, in place of any
/// handle the user had; a failure changes nothing.
pub open spec fn registry_after_start(
    before: RegistryModel,
    user_id: Seq<char>,
    delivery: Delivery,
    now: u64,
) -> RegistryModel {
    match start_verdict(delivery) {
        Ok((container_id, editor_url)) => before.insert(
            user_id,
            started_handle(user_id, container_id, editor_url, now),
        ),
        Err(_) => before,
    }
}

/// The registry after a stop of `container_id` whose exchange ended in
/// `delivery`. A success takes out the sessions in that container; a failure
/// changes nothing.
pub open spec fn registry_after_stop(
    before: RegistryModel,
    container_id: Seq<char>,
    delivery: Delivery,
) -> RegistryModel {
    match stop_verdict(delivery) {
        Ok(_) => without_container(before, container_id),
        Err(_) => before,
    }
}

/// What a failed exchange carries into its failure: the diagnostic of the
/// transport, the status that the controller gave, or the detail of what is
/// wrong with the body.
pub open spec fn carries(failure: Failure, delivery: Delivery) -> bool {
    match (failure, delivery) {
        (Failure::GatewayUnreachable { diagnostic }, Delivery::Unreachable { diagnostic: given }) => {
            diagnostic == given
        },
        (Failure::ControllerRejected { status }, Delivery::Reply { status: given, .. }) => {
            status == given
        },
        (Failure::MalformedResponse { detail }, Delivery::Reply { body, .. }) => malformed_detail(
            body,
            detail,
        ),
        _ => false,
    }
}

/// The event that the result of a start stands for.
pub open spec fn start_event(succeeded: bool) -> SessionEvent {
    if succeeded {
        SessionEvent::StartSucceeded
    } else {
        SessionEvent::StartFailed
    }
}

/// The event that the result of a stop stands for.
pub open spec fn stop_event(succeeded: bool) -> SessionEvent {
    if succeeded {
        SessionEvent::StopSucceeded
    } else {
        SessionEvent::StopFailed
    }
}

impl SessionEvent {
    /// The event that the outcome of a start stands for.
    pub fn of_start(outcome: &Result<StartedSession, ServiceError>) -> (event: SessionEvent)
        ensures
            event == start_event(outcome is Ok),
    {
        match outcome {
            Ok(_) => SessionEvent::StartSucceeded,
            Err(_) => SessionEvent::StartFailed,
        }
    }

    /// The event that the outcome of a stop stands for.
    pub fn of_stop(outcome: &Result<String, ServiceError>) -> (event: SessionEvent)
        ensures
            event == stop_event(outcome is Ok),
    {
        match outcome {
            Ok(_) => SessionEvent::StopSucceeded,
            Err(_) => SessionEvent::StopFailed,
        }
    }
}

/// The text that confirms a stop.
pub open spec fn stop_confirmation() -> Seq<char> {
    "Container stopped successfully"@
}

/// Judges the status of a reply: 200 passes, any other status is a rejection
/// that carries the status.
pub fn check_status(reply: GatewayReply) -> (res: Result<Vec<u8>, ServiceError>)
    ensures
        match res {
            Ok(body) => nat_value(reply.status) == 200 && body == reply.body,
            Err(e) => nat_value(reply.status) != 200 && e == (ServiceError::ControllerRejected {
                status: reply.status,
            }),
        },
{
    if status_code(&reply.status) != STATUS_OK {
        Err(ServiceError::ControllerRejected { status: reply.status })
    } else {
        Ok(reply.body)
    }
}

/// Judges what came back from an exchange up to the status: a transport
/// failure and a status other than 200 are failures, and a reply with status
/// 200 passes with its body.
pub fn check_delivery(delivery: Result<GatewayReply, TransportError>) -> (res: Result<
    Vec<u8>,
    ServiceError,
>)
    ensures
        match accepted_body(delivery_of(delivery)) {
            Ok(body) => res matches Ok(passed) && passed@ == body,
            Err(kind) => res matches Err(e) && kind_of(e@) == kind && carries(
                e@,
                delivery_of(delivery),
            ),
        },
{
    match delivery {
        Err(failure) => Err(ServiceError::GatewayUnreachable { diagnostic: failure.diagnostic }),
        Ok(reply) => check_status(reply),
    }
}

/// Owner of the session registry. All changes to the registry go through the
/// two `finish` operations.
pub struct LifecycleManager {
    registry: Registry,
}

impl View for LifecycleManager {
    type V = RegistryModel;

    closed spec fn view(&self) -> RegistryModel {
        self.registry@
    }
}

impl LifecycleManager {
    /// A manager with no live session, made once when the service starts.
    pub fn new() -> (manager: LifecycleManager)
        ensures
            manager@ == Map::<Seq<char>, SessionModel>::empty(),
    {
        LifecycleManager { registry: Registry::new() }
    }

    /// The registry, for reading.
    pub fn registry(&self) -> (registry: &Registry)
        ensures
            registry@ == self@,
    {
        &self.registry
    }

    /// First half of a start: the request to send to the controller. The
    /// registry is not touched.
    pub fn begin_start(user_id: &str) -> (request: OutboundRequest)
        ensures
            request@ == start_request_model(user_id@),
    {
        start_request(user_id)
    }

    /// Second half of a start: judges what came back and, on success, files
    /// the session and says which expiry to arm.
    ///
    /// A transport failure, a status other than 200 and a malformed body are
    /// failures: the registry stays as it was and no expiry is armed. On
    /// success the handle is filed under `user_id`, in place of any handle
    /// the user had, and the caller gets the editor address together with a
    /// timer for the new container.
    pub fn finish_start(
        &mut self,
        user_id: &str,
        delivery: Result<GatewayReply, TransportError>,
        now: u64,
    ) -> (res: Result<StartedSession, ServiceError>)
        ensures
            final(self)@ == registry_after_start(old(self)@, user_id@, delivery_of(delivery), now),
            match start_verdict(delivery_of(delivery)) {
                Ok((container_id, editor_url)) => res matches Ok(started) && started.editor_url@
                    == editor_url && started.expiry@ == expiry_of(container_id, now),
                Err(kind) => res matches Err(e) && kind_of(e@) == kind && carries(
                    e@,
                    delivery_of(delivery),
                ),
            },
    {
        let body = match check_delivery(delivery) {
            Ok(body) => body,
            Err(e) => {
                return Err(e);
            },
        };
        let session = match decode_session(body.as_slice()) {
            Ok(session) => session,
            Err(e) => {
                return Err(e);
            },
        };
        let handle = SessionHandle {
            container_id: session.container_id.clone(),
            editor_url: session.editor_url.clone(),
            owner: user_id.to_owned(),
            created_at: now,
        };
        self.registry.insert(handle);
        Ok(
            StartedSession {
                editor_url: session.editor_url,
                expiry: ExpiryTimer {
                    container_id: session.container_id,
                    armed_at: now,
                    delay_secs: SESSION_LIFETIME_SECS,
                },
            },
        )
    }

    /// First half of a stop: the request to send to the controller. The
    /// registry is not touched.
    pub fn begin_stop(container_id: &str) -> (request: OutboundRequest)
        ensures
            request@ == stop_request_model(container_id@),
    {
        stop_request(container_id)
    }

    /// Second half of a stop: judges what came back and, on success, takes
    /// the sessions in that container out of the registry.
    ///
    /// The result depends on what came back alone, not on the registry: a
    /// stop of a container that no session runs in succeeds like any other
    /// and leaves the registry as it was. A failure changes nothing.
    pub fn finish_stop(
        &mut self,
        container_id: &str,
        delivery: Result<GatewayReply, TransportError>,
    ) -> (res: Result<String, ServiceError>)
        ensures
            final(self)@ == registry_after_stop(old(self)@, container_id@, delivery_of(delivery)),
            match stop_verdict(delivery_of(delivery)) {
                Ok(_) => res matches Ok(text) && text@ == stop_confirmation(),
                Err(kind) => res matches Err(e) && kind_of(e@) == kind && carries(
                    e@,
                    delivery_of(delivery),
                ),
            },
    {
        match check_delivery(delivery) {
            Ok(_) => {
                self.registry.remove_container(container_id);
                Ok(String::from_str("Container stopped successfully"))
            },
            Err(e) => Err(e),
        }
    }
}

/// A start that succeeds, followed by a stop of the container it was given
/// that succeeds, leaves no session for the user.
pub proof fn lemma_start_then_stop_leaves_no_entry(
    before: RegistryModel,
    user_id: Seq<char>,
    started: Delivery,
    now: u64,
    stopped: Delivery,
)
    requires
        start_verdict(started) is Ok,
        stop_verdict(stopped) is Ok,
    ensures
        !registry_after_stop(
            registry_after_start(before, user_id, started, now),
            start_verdict(started)->Ok_0.0,
            stopped,
        ).contains_key(user_id),
{
}

/// Stopping a container a second time changes nothing: once a stop has
/// succeeded, the registry is the same after any further stop of the same
/// container, however that one ends.
pub proof fn lemma_stop_is_idempotent(
    before: RegistryModel,
    container_id: Seq<char>,
    first: Delivery,
    second: Delivery,
)
    requires
        stop_verdict(first) is Ok,
    ensures
        registry_after_stop(registry_after_stop(before, container_id, first), container_id, second)
            == registry_after_stop(before, container_id, first),
{
    let once = registry_after_stop(before, container_id, first);
    assert(without_container(once, container_id) =~= once);
}

/// After a stop that succeeded no session runs in the container, and the
/// sessions in other containers are as they were.
pub proof fn lemma_stop_removes_only_that_container(
    before: RegistryModel,
    container_id: Seq<char>,
    delivery: Delivery,
    owner: Seq<char>,
)
    requires
        stop_verdict(delivery) is Ok,
    ensures
        !holds_container(registry_after_stop(before, container_id, delivery), container_id),
        before.contains_key(owner) && before[owner].container_id != container_id ==> {
            let after = registry_after_stop(before, container_id, delivery);
            after.contains_key(owner) && after[owner] == before[owner]
        },
        !holds_container(before, container_id) ==> registry_after_stop(
            before,
            container_id,
            delivery,
        ) == before,
{
    let after = registry_after_stop(before, container_id, delivery);
    if !holds_container(before, container_id) {
        assert forall|k: Seq<char>| before.contains_key(k) implies #[trigger] after.contains_key(
            k,
        ) by {
            if before[k].container_id == container_id {
                assert(before.contains_key(k) && before[k].container_id == container_id);
            }
        }
        assert(after =~= before);
    }
}

/// A start that fails, in whichever way, leaves the registry as it was.
pub proof fn lemma_failed_start_changes_nothing(
    before: RegistryModel,
    user_id: Seq<char>,
    delivery: Delivery,
    now: u64,
)
    requires
        start_verdict(delivery) is Err,
    ensures
        registry_after_start(before, user_id, delivery, now) == before,
{
}

/// A reply to a start request with a status other than 200 is a rejection,
/// whatever its body holds, and files no session.
pub proof fn lemma_rejected_start_files_nothing(
    before: RegistryModel,
    user_id: Seq<char>,
    status: nat,
    body: Seq<u8>,
    now: u64,
)
    requires
        status != 200,
    ensures
        start_verdict(Delivery::Reply { status, body }) == Err::<
            (Seq<char>, Seq<char>),
            FailureKind,
        >(FailureKind::ControllerRejected),
        registry_after_start(before, user_id, Delivery::Reply { status, body }, now) == before,
{
}

/// A reply to a start request whose body lacks the container id or the
/// editor address is malformed and files no session.
pub proof fn lemma_malformed_start_files_nothing(
    before: RegistryModel,
    user_id: Seq<char>,
    body: Seq<u8>,
    now: u64,
)
    requires
        json_parse(utf8_lossy(body)) matches Some(members) ==> !members.contains_key(
            "container_id"@,
        ) || !members.contains_key("editor_url"@),
    ensures
        decoded_session(body) is None,
        start_verdict(Delivery::Reply { status: 200, body }) == Err::<
            (Seq<char>, Seq<char>),
            FailureKind,
        >(FailureKind::MalformedResponse),
        registry_after_start(before, user_id, Delivery::Reply { status: 200, body }, now)
            == before,
{
}

/// Starting and stopping keep every handle filed under its owner.
pub proof fn lemma_operations_keep_owners(
    before: RegistryModel,
    user_id: Seq<char>,
    container_id: Seq<char>,
    delivery: Delivery,
    now: u64,
)
    requires
        keyed_by_owner(before),
    ensures
        keyed_by_owner(registry_after_start(before, user_id, delivery, now)),
        keyed_by_owner(registry_after_stop(before, container_id, delivery)),
{
}

/// A start for a user who has a session replaces that session and touches
/// no other user's.
pub proof fn lemma_start_touches_one_user(
    before: RegistryModel,
    user_id: Seq<char>,
    delivery: Delivery,
    now: u64,
    other: Seq<char>,
)
    requires
        other != user_id,
    ensures
        registry_after_start(before, user_id, delivery, now).contains_key(other)
            == before.contains_key(other),
        before.contains_key(other) ==> registry_after_start(before, user_id, delivery, now)[other]
            == before[other],
{
}

/// Starts for different users do not get in each other's way: whichever of
/// the two is finished first, the registry is the same in the end.
pub proof fn lemma_starts_of_two_users_commute(
    before: RegistryModel,
    one: Seq<char>,
    one_delivery: Delivery,
    one_now: u64,
    other: Seq<char>,
    other_delivery: Delivery,
    other_now: u64,
)
    requires
        one != other,
    ensures
        registry_after_start(
            registry_after_start(before, one, one_delivery, one_now),
            other,
            other_delivery,
            other_now,
        ) == registry_after_start(
            registry_after_start(before, other, other_delivery, other_now),
            one,
            one_delivery,
            one_now,
        ),
{
    let a = registry_after_start(
        registry_after_start(before, one, one_delivery, one_now),
        other,
        other_delivery,
        other_now,
    );
    let b = registry_after_start(
        registry_after_start(before, other, other_delivery, other_now),
        one,
        one_delivery,
        one_now,
    );
    assert(a =~= b);
}

/// A stop that is finished while a start for another container is under
/// way does not get in its way: whichever of the two is finished first, the
/// registry is the same in the end.
pub proof fn lemma_stop_and_start_commute(
    before: RegistryModel,
    user_id: Seq<char>,
    started: Delivery,
    now: u64,
    container_id: Seq<char>,
    stopped: Delivery,
)
    requires
        start_verdict(started) matches Ok(fields) ==> fields.0 != container_id,
    ensures
        registry_after_stop(
            registry_after_start(before, user_id, started, now),
            container_id,
            stopped,
        ) == registry_after_start(
            registry_after_stop(before, container_id, stopped),
            user_id,
            started,
            now,
        ),
{
    let a = registry_after_stop(
        registry_after_start(before, user_id, started, now),
        container_id,
        stopped,
    );
    let b = registry_after_start(
        registry_after_stop(before, container_id, stopped),
        user_id,
        started,
        now,
    );
    assert(a =~= b);
}

/// The expiry of a session does not fire before five minutes have passed
/// since the start, and fires at any time from then on.
pub proof fn lemma_expiry_waits_five_minutes(container_id: Seq<char>, started_at: u64, now: u64)
    ensures
        due(expiry_of(container_id, started_at), now) <==> now - started_at >= 300_000_000_000,
{
}

/// The outcome of a start and of a stop moves the session on as the
/// lifecycle has it: a start ends in live or failed, and a stop ends in
/// stopped or leaves the session stopping.
pub proof fn lemma_outcomes_move_the_session(succeeded: bool)
    ensures
        transition(SessionState::Requested, SessionEvent::StartIssued) == Some(
            SessionState::Starting,
        ),
        transition(SessionState::Starting, start_event(succeeded)) == Some(
            if succeeded {
                SessionState::Live
            } else {
                SessionState::Failed
            },
        ),
        transition(SessionState::Live, SessionEvent::StopIssued) == Some(SessionState::Stopping),
        transition(SessionState::Stopping, stop_event(succeeded)) == Some(
            if succeeded {
                SessionState::Stopped
            } else {
                SessionState::Stopping
            },
        ),
{
}

/// A session in a final state stays there: no event moves it on.
pub proof fn lemma_terminal_states_are_final(state: SessionState, event: SessionEvent)
    requires
        state.terminal(),
    ensures
        transition(state, event) is None,
{
}

/// A session becomes live only by a start that succeeded, and is stopped
/// only by a stop that succeeded.
pub proof fn lemma_live_and_stopped_are_earned(state: SessionState, event: SessionEvent)
    ensures
        transition(state, event) == Some(SessionState::Live) ==> state == SessionState::Starting
            && event == SessionEvent::StartSucceeded,
        transition(state, event) == Some(SessionState::Stopped) ==> state
            == SessionState::Stopping && event == SessionEvent::StopSucceeded,
{
}

} // verus!
