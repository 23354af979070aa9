//! The per-connection session: handshake narrowing, the authorization step,
//! and the request dispatcher — a pure mapping from session state and
//! request to a reply, a database query, or a protocol violation. All
//! collaborator calls happen outside; their results are passed in as plain
//! values.

use vstd::prelude::*;
use crate::aliases::{AirPressure, BatteryVoltage, Humidity, MeasurementId, Rssi, Temperature};
use crate::codec::dec_message;
use crate::error::Error;
use crate::mac::Mac;
use crate::message::{Message, MessageView};
use crate::multitype::SettingValue;
use crate::rate_limit::RateLimiter;
use crate::request::{Request, RequestView};
use crate::response::Response;
use crate::setting::{default_value_of, SettingName};
use crate::NodeId;

verus! {

/// The in-memory state of one server-side session: the node id assigned at
/// authorization (set at most once), the MAC learned in the handshake (set
/// once), and the measurement accepted in this session, if any.
pub struct Session {
    pub id: Option<NodeId>,
    pub mac: Option<Mac>,
    pub last_submit: Option<MeasurementId>,
}

impl Session {
    /// A fresh session: nothing authorized, nothing posted.
    pub fn new() -> (r: Self)
        ensures
            r == (Session { id: None, mac: None, last_submit: None }),
    {
        Session { id: None, mac: None, last_submit: None }
    }

    /// The node id; only meaningful once authorization has succeeded.
    pub fn id(&self) -> (r: NodeId)
        requires
            self.id is Some,
        ensures
            r == self.id.unwrap(),
    {
        match self.id {
            Some(id) => id,
            None => 0,
        }
    }

    /// Record the node id assigned by the collaborator. A session's id is
    /// set at most once.
    pub fn set_id(&mut self, id: NodeId)
        requires
            old(self).id is None,
        ensures
            *final(self) == (Session { id: Some(id), ..*old(self) }),
    {
        self.id = Some(id);
    }

    /// The authenticated MAC address; only meaningful after the handshake.
    pub fn mac(&self) -> (r: Mac)
        requires
            self.mac is Some,
        ensures
            r == self.mac.unwrap(),
    {
        match &self.mac {
            Some(mac) => Mac(mac.0, mac.1, mac.2, mac.3, mac.4, mac.5),
            None => Mac(0, 0, 0, 0, 0, 0),
        }
    }

    /// Record the MAC address learned in the handshake; set once.
    pub fn set_mac(&mut self, mac: Mac)
        requires
            old(self).mac is None,
        ensures
            *final(self) == (Session { mac: Some(mac), ..*old(self) }),
    {
        self.mac = Some(mac);
    }
}

// ---------------------------------------------------------------------------
// Reading the two kinds of inbound frame
// ---------------------------------------------------------------------------
/// What one received buffer must decode to while serving: a request.
pub open spec fn parse_request_spec(b: Seq<u8>) -> Result<RequestView, Error> {
    match dec_message(b) {
        None => Err(Error::MessageParse),
        Some(m) => match m {
            MessageView::Response(_) => Err(Error::NotRequest),
            MessageView::Request(q) => Ok(q),
        },
    }
}

/// Decode one received buffer into a request, exactly as the wire format
/// and the protocol demand it.
pub fn parse_request(bytes: &[u8]) -> (r: Result<Request, Error>)
    ensures
        match r {
            Ok(q) => parse_request_spec(bytes@) == Ok::<RequestView, Error>(q@),
            Err(e) => parse_request_spec(bytes@) == Err::<RequestView, Error>(e),
        },
{
    match Message::from_raw(bytes) {
        None => Err(Error::MessageParse),
        Some(m) => match m.to_request() {
            Some(q) => Ok(q),
            None => Err(Error::NotRequest),
        },
    }
}

/// What the first buffer of a session must decode to: a hello carrying the
/// node's MAC address.
pub open spec fn greeting_spec(b: Seq<u8>) -> Result<Mac, Error> {
    match parse_request_spec(b) {
        Err(e) => Err(e),
        Ok(q) => match q {
            RequestView::Hello { mac } => Ok(mac),
            _ => Err(Error::NotHello),
        },
    }
}

/// Decode the mandatory greeting. Anything but a hello request is a fatal
/// session error.
pub fn greeting_mac(bytes: &[u8]) -> (r: Result<Mac, Error>)
    ensures
        r == greeting_spec(bytes@),
{
    match parse_request(bytes) {
        Err(e) => Err(e),
        Ok(q) => match q {
            Request::Hello { mac } => Ok(mac),
            _ => Err(Error::NotHello),
        },
    }
}

// ---------------------------------------------------------------------------
// Authorization
// ---------------------------------------------------------------------------
/// How the handshake ends, given the collaborator's answer: an accepted
/// node is told `Okay`; an unauthorized one is told `Reject`, unless the
/// configuration says to kick it silently. The session ends either way
/// when authorization fails.
pub enum AuthOutcome {
    Accept(NodeId),
    RejectReply,
    RejectSilent,
}

pub open spec fn auth_outcome_spec(auth: Option<NodeId>, kick_unauthorized: bool) -> AuthOutcome {
    match auth {
        Some(id) => AuthOutcome::Accept(id),
        None => if kick_unauthorized {
            AuthOutcome::RejectSilent
        } else {
            AuthOutcome::RejectReply
        },
    }
}

/// Apply the collaborator's authorization answer to the session: success
/// stores the node id (once and for all), failure leaves the session
/// untouched.
pub fn complete_authorization(s: &mut Session, auth: Option<NodeId>, kick_unauthorized: bool) -> (r:
    AuthOutcome)
    requires
        old(s).id is None,
    ensures
        r == auth_outcome_spec(auth, kick_unauthorized),
        auth matches Some(id) ==> *final(s) == (Session { id: Some(id), ..*old(s) }),
        auth is None ==> *final(s) == *old(s),
{
    match auth {
        Some(id) => {
            s.set_id(id);
            AuthOutcome::Accept(id)
        },
        None => if kick_unauthorized {
            AuthOutcome::RejectSilent
        } else {
            AuthOutcome::RejectReply
        },
    }
}

// ---------------------------------------------------------------------------
// The request dispatcher
// ---------------------------------------------------------------------------
/// A call to make against the database collaborator.
pub enum DbQuery {
    PostResults {
        node: NodeId,
        temperature: Temperature,
        humidity: Humidity,
        air_pressure: Option<AirPressure>,
    },
    PostStats {
        measurement: MeasurementId,
        battery: BatteryVoltage,
        wifi_ssid: String,
        wifi_rssi: Rssi,
    },
    CreateNotification { node: NodeId, message: String },
    GetSettings { node: NodeId, names: Vec<SettingName> },
}

/// What the collaborator answered.
pub enum DbAnswer {
    /// The id of the measurement just stored.
    MeasurementId(MeasurementId),
    /// A best-effort call completed (stats, notification).
    Done,
    /// One stored value, or nothing, for each requested setting name, in
    /// request order.
    Values(Vec<Option<SettingValue>>),
}

/// What the dispatcher decided for one request.
pub enum Dispatch {
    /// Answer immediately.
    Reply(Response),
    /// Consult the database collaborator, then finish with `apply_answer`.
    Query(DbQuery),
    /// A protocol violation: the request cannot be processed and the
    /// session ends.
    Invalid,
    /// The node said goodbye; the session ends cleanly.
    Goodbye,
}

/// The mathematical shape of a collaborator query.
pub enum DbQueryView {
    PostResults {
        node: NodeId,
        temperature: Temperature,
        humidity: Humidity,
        air_pressure: Option<AirPressure>,
    },
    PostStats {
        measurement: MeasurementId,
        battery: BatteryVoltage,
        wifi_ssid: Seq<char>,
        wifi_rssi: Rssi,
    },
    CreateNotification { node: NodeId, message: Seq<char> },
    GetSettings { node: NodeId, names: Seq<SettingName> },
}

impl View for DbQuery {
    type V = DbQueryView;

    open spec fn view(&self) -> DbQueryView {
        match self {
            DbQuery::PostResults { node, temperature, humidity, air_pressure } => {
                DbQueryView::PostResults {
                    node: *node,
                    temperature: *temperature,
                    humidity: *humidity,
                    air_pressure: *air_pressure,
                }
            },
            DbQuery::PostStats { measurement, battery, wifi_ssid, wifi_rssi } => {
                DbQueryView::PostStats {
                    measurement: *measurement,
                    battery: *battery,
                    wifi_ssid: wifi_ssid@,
                    wifi_rssi: *wifi_rssi,
                }
            },
            DbQuery::CreateNotification { node, message } => DbQueryView::CreateNotification {
                node: *node,
                message: message@,
            },
            DbQuery::GetSettings { node, names } => DbQueryView::GetSettings {
                node: *node,
                names: names@,
            },
        }
    }
}

/// The mathematical shape of a dispatcher decision.
pub enum DispatchView {
    Reply(crate::response::ResponseView),
    Query(DbQueryView),
    Invalid,
    Goodbye,
}

impl View for Dispatch {
    type V = DispatchView;

    open spec fn view(&self) -> DispatchView {
        match self {
            Dispatch::Reply(p) => DispatchView::Reply(p@),
            Dispatch::Query(q) => DispatchView::Query(q@),
            Dispatch::Invalid => DispatchView::Invalid,
            Dispatch::Goodbye => DispatchView::Goodbye,
        }
    }
}

/// The dispatcher, as a function of the request's mathematical shape.
pub open spec fn dispatch_view(s: Session, q: RequestView) -> DispatchView {
    match q {
        RequestView::Ping => DispatchView::Reply(crate::response::ResponseView::Pong),
        RequestView::Bye => DispatchView::Goodbye,
        RequestView::Hello { .. } => DispatchView::Invalid,
        RequestView::PostResults { temperature, humidity, air_pressure } => if s.last_submit
            is Some {
            DispatchView::Invalid
        } else {
            DispatchView::Query(
                DbQueryView::PostResults {
                    node: s.id.unwrap(),
                    temperature,
                    humidity,
                    air_pressure,
                },
            )
        },
        RequestView::PostStats { battery, wifi_ssid, wifi_rssi } => match s.last_submit {
            None => DispatchView::Invalid,
            Some(measurement) => DispatchView::Query(
                DbQueryView::PostStats { measurement, battery, wifi_ssid, wifi_rssi },
            ),
        },
        RequestView::SendNotification(message) => DispatchView::Query(
            DbQueryView::CreateNotification { node: s.id.unwrap(), message },
        ),
        RequestView::GetSettings(names) => DispatchView::Query(
            DbQueryView::GetSettings { node: s.id.unwrap(), names },
        ),
    }
}

/// The dispatcher as a pure function of session state and request: pings
/// are answered directly; a second hello and any misordered measurement
/// traffic are invalid; everything else becomes a collaborator query.
pub open spec fn dispatch_spec(s: Session, req: Request) -> Dispatch {
    match req {
        Request::Ping => Dispatch::Reply(Response::Pong),
        Request::Bye => Dispatch::Goodbye,
        Request::Hello { .. } => Dispatch::Invalid,
        Request::PostResults { temperature, humidity, air_pressure } => if s.last_submit is Some {
            Dispatch::Invalid
        } else {
            Dispatch::Query(
                DbQuery::PostResults {
                    node: s.id.unwrap(),
                    temperature,
                    humidity,
                    air_pressure,
                },
            )
        },
        Request::PostStats { battery, wifi_ssid, wifi_rssi } => match s.last_submit {
            None => Dispatch::Invalid,
            Some(measurement) => Dispatch::Query(
                DbQuery::PostStats { measurement, battery, wifi_ssid, wifi_rssi },
            ),
        },
        Request::SendNotification(message) => Dispatch::Query(
            DbQuery::CreateNotification { node: s.id.unwrap(), message },
        ),
        Request::GetSettings(names) => Dispatch::Query(
            DbQuery::GetSettings { node: s.id.unwrap(), names },
        ),
    }
}

/// Dispatch one request of an authorized session.
pub fn dispatch_request(s: &Session, req: Request) -> (d: Dispatch)
    requires
        s.id is Some,
    ensures
        d == dispatch_spec(*s, req),
        d@ == dispatch_view(*s, req@),
{
    match req {
        Request::Ping => Dispatch::Reply(Response::Pong),
        Request::Bye => Dispatch::Goodbye,
        Request::Hello { .. } => Dispatch::Invalid,
        Request::PostResults { temperature, humidity, air_pressure } => {
            if s.last_submit.is_some() {
                Dispatch::Invalid
            } else {
                Dispatch::Query(
                    DbQuery::PostResults { node: s.id(), temperature, humidity, air_pressure },
                )
            }
        },
        Request::PostStats { battery, wifi_ssid, wifi_rssi } => {
            match s.last_submit {
                None => Dispatch::Invalid,
                Some(measurement) => Dispatch::Query(
                    DbQuery::PostStats { measurement, battery, wifi_ssid, wifi_rssi },
                ),
            }
        },
        Request::SendNotification(message) => {
            Dispatch::Query(DbQuery::CreateNotification { node: s.id(), message })
        },
        Request::GetSettings(names) => {
            Dispatch::Query(DbQuery::GetSettings { node: s.id(), names })
        },
    }
}

// ---------------------------------------------------------------------------
// Finishing a request once the collaborator has answered
// ---------------------------------------------------------------------------
/// The value placed in a settings response for one name: the stored value,
/// or the name's hard-coded default when the store holds none.
pub open spec fn resolved_value(name: SettingName, stored: Option<SettingValue>) -> SettingValue {
    match stored {
        Some(v) => v,
        None => default_value_of(name),
    }
}

fn dup_value(v: &SettingValue) -> (r: SettingValue)
    ensures
        r == *v,
{
    match v {
        SettingValue::Number(x) => SettingValue::Number(*x),
        SettingValue::Decimal(d) => SettingValue::Decimal(*d),
        SettingValue::Text(t) => SettingValue::Text(t.clone()),
        SettingValue::Boolean(x) => SettingValue::Boolean(*x),
    }
}

/// Assemble the settings response: one value per requested name, in
/// request order, substituting each absent value by the name's default.
pub fn settings_response(names: &Vec<SettingName>, values: &Vec<Option<SettingValue>>) -> (r:
    Response)
    requires
        values@.len() == names@.len(),
    ensures
        r matches Response::Settings(out) && out@.len() == names@.len() && (forall|i: int|
            0 <= i < names@.len() ==> out@[i] == resolved_value(names@[i], #[trigger] values@[i])),
{
    let mut out: Vec<SettingValue> = Vec::new();
    let mut i: usize = 0;
    while i < names.len()
        invariant
            i <= names@.len(),
            values@.len() == names@.len(),
            out@.len() == i,
            forall|k: int| 0 <= k < i ==> out@[k] == resolved_value(names@[k], #[trigger] values@[k]),
        decreases names@.len() - i,
    {
        match &values[i] {
            Some(v) => {
                out.push(dup_value(v));
            },
            None => {
                out.push(names[i].default_value());
            },
        }
        i = i + 1;
    }
    Response::Settings(out)
}

/// Whether an answer has the shape the query calls for; for settings, the
/// collaborator returns exactly one slot per requested name.
pub open spec fn answer_matches(q: DbQuery, a: DbAnswer) -> bool {
    match q {
        DbQuery::PostResults { .. } => a is MeasurementId,
        DbQuery::PostStats { .. } => a is Done,
        DbQuery::CreateNotification { .. } => a is Done,
        DbQuery::GetSettings { names, .. } => a matches DbAnswer::Values(vs) && vs@.len()
            == names@.len(),
    }
}

/// Finish a dispatched request with the collaborator's answer: a stored
/// measurement is remembered as this session's one accepted post; stats
/// and notifications are best-effort; settings are assembled with
/// defaults. The reply is `Okay` for every post, and the settings list for
/// a settings request.
pub fn apply_answer(s: &mut Session, q: &DbQuery, a: &DbAnswer) -> (r: Response)
    requires
        answer_matches(*q, *a),
    ensures
        q matches DbQuery::PostResults { .. } ==> (*a matches DbAnswer::MeasurementId(mid)
            && *final(s) == (Session { last_submit: Some(mid), ..*old(s) }) && r
            == Response::Okay),
        q is PostStats ==> *final(s) == *old(s) && r == Response::Okay,
        q is CreateNotification ==> *final(s) == *old(s) && r == Response::Okay,
        q matches DbQuery::GetSettings { names, .. } ==> ({
            &&& *final(s) == *old(s)
            &&& *a matches DbAnswer::Values(vs) && r matches Response::Settings(out) && out@.len()
                == names@.len() && (forall|i: int|
                0 <= i < names@.len() ==> out@[i] == resolved_value(
                    names@[i],
                    #[trigger] vs@[i],
                ))
        }),
{
    match q {
        DbQuery::PostResults { .. } => {
            match a {
                DbAnswer::MeasurementId(mid) => {
                    s.last_submit = Some(*mid);
                    Response::Okay
                },
                _ => Response::Okay,
            }
        },
        DbQuery::PostStats { .. } => Response::Okay,
        DbQuery::CreateNotification { .. } => Response::Okay,
        DbQuery::GetSettings { names, .. } => {
            match a {
                DbAnswer::Values(vs) => settings_response(names, vs),
                _ => Response::Okay,
            }
        },
    }
}

// ---------------------------------------------------------------------------
// One serving step
// ---------------------------------------------------------------------------
/// What one serving step decided: terminate (limited, clean close, or a
/// session error), or carry out the dispatcher's decision.
pub enum ServeStep {
    /// The per-session request limit was exceeded; terminate.
    Limited,
    /// The node said goodbye; terminate cleanly.
    CleanClose,
    /// A decode or protocol failure; terminate with this error.
    Failed(Error),
    /// Process the dispatcher's decision, then write the reply.
    Dispatched(Dispatch),
}

/// The mathematical shape of a serving step.
pub enum ServeStepView {
    Limited,
    CleanClose,
    Failed(Error),
    Dispatched(DispatchView),
}

impl View for ServeStep {
    type V = ServeStepView;

    open spec fn view(&self) -> ServeStepView {
        match self {
            ServeStep::Limited => ServeStepView::Limited,
            ServeStep::CleanClose => ServeStepView::CleanClose,
            ServeStep::Failed(e) => ServeStepView::Failed(*e),
            ServeStep::Dispatched(d) => ServeStepView::Dispatched(d@),
        }
    }
}

/// One turn of the serving loop, as a pure function: decode the received
/// buffer, count the request against the session's rate window, honor a
/// goodbye, and otherwise let the dispatcher decide. Returns the step and
/// the limiter state after it.
pub open spec fn serve_step_view(s: Session, limiter: RateLimiter, now: u64, b: Seq<u8>) -> (
    ServeStepView,
    RateLimiter,
) {
    match parse_request_spec(b) {
        Err(e) => (ServeStepView::Failed(e), limiter),
        Ok(q) => {
            let (next, limited) = limiter.hit_outcome(now);
            if limited {
                (ServeStepView::Limited, next)
            } else if q is Bye {
                (ServeStepView::CleanClose, next)
            } else {
                (ServeStepView::Dispatched(dispatch_view(s, q)), next)
            }
        },
    }
}

/// Serve one received buffer of an authorized session.
pub fn serve_event(s: &Session, limiter: &mut RateLimiter, now: u64, bytes: &[u8]) -> (step:
    ServeStep)
    requires
        s.id is Some,
    ensures
        (step@, *final(limiter)) == serve_step_view(*s, *old(limiter), now, bytes@),
{
    let req = match parse_request(bytes) {
        Ok(q) => q,
        Err(e) => { return ServeStep::Failed(e) },
    };
    if limiter.hit(now) {
        return ServeStep::Limited;
    }
    if let Request::Bye = req {
        return ServeStep::CleanClose;
    }
    ServeStep::Dispatched(dispatch_request(s, req))
}

// ---------------------------------------------------------------------------
// The session invariants, stated and proved
// ---------------------------------------------------------------------------
/// A session that has not accepted a measurement answers a stats post with
/// termination, never with an acknowledgement: the step is either limited
/// or an invalid dispatch, so no `Okay` is ever produced for it.
pub proof fn lemma_stats_never_acknowledged(
    s: Session,
    limiter: RateLimiter,
    now: u64,
    b: Seq<u8>,
)
    requires
        s.id is Some,
        s.last_submit is None,
        parse_request_spec(b) matches Ok(q) && q is PostStats,
    ensures
        ({
            let (step, _) = serve_step_view(s, limiter, now, b);
            step == ServeStepView::Limited || step == ServeStepView::Dispatched(
                DispatchView::Invalid,
            )
        }),
{
}

/// A session that has accepted no measurement never lets a stats post
/// through: the dispatcher declares it invalid, so the session terminates
/// without an `Okay`.
pub proof fn lemma_stats_need_measurement(s: Session, req: Request)
    requires
        s.last_submit is None,
        req is PostStats,
    ensures
        dispatch_spec(s, req) == Dispatch::Invalid,
{
}

/// At most one measurement post is accepted per session: once one is
/// recorded, the dispatcher refuses the next.
pub proof fn lemma_single_post(s: Session, req: Request)
    requires
        s.last_submit is Some,
        req is PostResults,
    ensures
        dispatch_spec(s, req) == Dispatch::Invalid,
{
}

/// A repeated hello is never serviced mid-session.
pub proof fn lemma_no_second_hello(s: Session, req: Request)
    requires
        req is Hello,
    ensures
        dispatch_spec(s, req) == Dispatch::Invalid,
{
}

/// The only step that records a measurement is a successful measurement
/// post, and dispatching one requires the session to have none yet: so a
/// session accepts at most one, and only after it was empty.
pub proof fn lemma_post_sets_measurement(s: Session, req: Request)
    requires
        dispatch_spec(s, req) matches Dispatch::Query(q) && q is PostResults,
    ensures
        req is PostResults,
        s.last_submit is None,
{
}

} // verus!
