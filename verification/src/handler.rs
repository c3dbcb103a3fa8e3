//! The handling of one client connection as a state machine.
//!
//! The handler never touches a socket or a file. It is told what happened
//! (an `Event`) and answers with what is to be done next (an `Action`); the
//! caller performs the action and reports its outcome as the next event.
//! `start` opens the exchange, `step` continues it, and a connection is
//! finished once the handler is `Closed` or `Aborted`.
use crate::encoding::gzip_decoded;
use crate::encoding::normalize;
use crate::encoding::normalize_spec;
use crate::error::AbortReason;
use crate::error::DecompressionError;
use crate::error::ParseError;
use crate::origin::header_value_of;
use crate::origin::origin_address;
use crate::origin::origin_address_spec;
use crate::origin::origin_request;
use crate::origin::origin_request_spec;
use crate::origin::parse_response;
use crate::origin::parse_response_spec;
use crate::origin::status_code_of;
use crate::relay::response_head;
use crate::relay::response_head_spec;
use crate::request::check_version;
use crate::request::file_name_of;
use crate::request::get_file_name;
use crate::request::get_server_name;
use crate::request::parse_request;
use crate::request::parse_request_spec;
use crate::request::server_name_of;
use crate::request::HTTP_VERSION;
use crate::text::same_symbols;
use vstd::prelude::*;
use vstd::string::StringSliceAdditionalSpecFns;

verus! {

/// How many bytes of a request are read at most.
pub const BUFFER_SIZE: usize = 4096;

/// How many seconds the client is given to send its request.
pub const TIMEOUT: u64 = 10;

/// A request that can be served: what the client asked for, the cache key
/// and the origin host.
#[derive(Debug, Clone, PartialEq, Eq)]
pub struct Route {
    pub method: String,
    pub target: String,
    pub version: String,
    pub file_name: String,
    pub server_name: String,
}

/// A route as character sequences.
pub struct RouteView {
    pub method: Seq<char>,
    pub target: Seq<char>,
    pub version: Seq<char>,
    pub file_name: Seq<char>,
    pub server_name: Seq<char>,
}

impl View for Route {
    type V = RouteView;

    open spec fn view(&self) -> RouteView {
        RouteView {
            method: self.method@,
            target: self.target@,
            version: self.version@,
            file_name: self.file_name@,
            server_name: self.server_name@,
        }
    }
}

/// Where the handling of a connection stands.
#[derive(Debug, Clone, PartialEq, Eq)]
pub enum HandlerState {
    /// Nothing has been read from the client yet.
    AwaitingRequest,
    /// The request was accepted and is being logged.
    Logging { method: String, target: String, version: String },
    /// The cache is being asked for the key.
    Probing(Route),
    /// The cache entry is being read.
    ReadingCache(Route),
    /// The origin has been asked and has not answered yet.
    Fetching(Route),
    /// The fetched content is being written to the cache.
    Storing { route: Route, content: Vec<u8> },
    /// The client has its answer.
    Closed,
    /// The connection was given up without an answer.
    Aborted(AbortReason),
}

/// A handler state over sequences.
pub enum HandlerStateView {
    AwaitingRequest,
    Logging { method: Seq<char>, target: Seq<char>, version: Seq<char> },
    Probing(RouteView),
    ReadingCache(RouteView),
    Fetching(RouteView),
    Storing { route: RouteView, content: Seq<u8> },
    Closed,
    Aborted(AbortReason),
}

impl View for HandlerState {
    type V = HandlerStateView;

    open spec fn view(&self) -> HandlerStateView {
        match self {
            HandlerState::AwaitingRequest => HandlerStateView::AwaitingRequest,
            HandlerState::Logging { method, target, version } => HandlerStateView::Logging {
                method: method@,
                target: target@,
                version: version@,
            },
            HandlerState::Probing(route) => HandlerStateView::Probing(route@),
            HandlerState::ReadingCache(route) => HandlerStateView::ReadingCache(route@),
            HandlerState::Fetching(route) => HandlerStateView::Fetching(route@),
            HandlerState::Storing { route, content } => HandlerStateView::Storing {
                route: route@,
                content: content@,
            },
            HandlerState::Closed => HandlerStateView::Closed,
            HandlerState::Aborted(reason) => HandlerStateView::Aborted(*reason),
        }
    }
}

/// What the caller reports back to the handler.
#[derive(Debug, Clone, PartialEq, Eq)]
pub enum Event {
    /// The client's request arrived, decoded as text.
    RequestRead(String),
    /// Reading the client's request failed or ran out of time.
    RequestFailed,
    /// The log was attended to; whether the write succeeded does not matter.
    Logged,
    /// The cache was asked whether it holds the key.
    CacheProbed(bool),
    /// The cache entry was read.
    CacheRead(Vec<u8>),
    /// The cache entry could not be opened, read or written.
    CacheFailed,
    /// The origin answered and closed; these are all the bytes it sent.
    OriginReplied(Vec<u8>),
    /// No connection to the origin could be opened.
    OriginUnreachable,
    /// The exchange with the origin broke off.
    OriginFailed,
    /// The content was written to the cache.
    CacheWritten,
}

/// An event over sequences.
pub enum EventView {
    RequestRead(Seq<char>),
    RequestFailed,
    Logged,
    CacheProbed(bool),
    CacheRead(Seq<u8>),
    CacheFailed,
    OriginReplied(Seq<u8>),
    OriginUnreachable,
    OriginFailed,
    CacheWritten,
}

impl View for Event {
    type V = EventView;

    open spec fn view(&self) -> EventView {
        match self {
            Event::RequestRead(raw) => EventView::RequestRead(raw@),
            Event::RequestFailed => EventView::RequestFailed,
            Event::Logged => EventView::Logged,
            Event::CacheProbed(present) => EventView::CacheProbed(*present),
            Event::CacheRead(bytes) => EventView::CacheRead(bytes@),
            Event::CacheFailed => EventView::CacheFailed,
            Event::OriginReplied(raw) => EventView::OriginReplied(raw@),
            Event::OriginUnreachable => EventView::OriginUnreachable,
            Event::OriginFailed => EventView::OriginFailed,
            Event::CacheWritten => EventView::CacheWritten,
        }
    }
}

/// What the handler asks the caller to do.
#[derive(Debug, Clone, PartialEq, Eq)]
pub enum Action {
    /// Read at most `limit` bytes from the client, waiting no longer than
    /// `timeout_secs` seconds.
    ReadRequest { limit: usize, timeout_secs: u64 },
    /// Append the record of this request to the log.
    Log(String),
    /// Ask the cache whether it holds this key.
    ProbeCache(String),
    /// Read the cache entry under this key.
    ReadCache(String),
    /// Connect to `address`, send `request`, and read until the origin
    /// closes.
    Fetch { address: String, request: String },
    /// Create or replace the cache entry under `key` with `content`.
    Store { key: String, content: Vec<u8> },
    /// Send `head` and then `body` to the client, and close.
    Respond { head: String, body: Vec<u8> },
    /// Send these bytes to the client as they are, and close.
    Relay(Vec<u8>),
    /// Close without sending anything.
    Close,
}

/// An action over sequences.
pub enum ActionView {
    ReadRequest { limit: usize, timeout_secs: u64 },
    Log(Seq<char>),
    ProbeCache(Seq<char>),
    ReadCache(Seq<char>),
    Fetch { address: Seq<char>, request: Seq<char> },
    Store { key: Seq<char>, content: Seq<u8> },
    Respond { head: Seq<char>, body: Seq<u8> },
    Relay(Seq<u8>),
    Close,
}

impl View for Action {
    type V = ActionView;

    open spec fn view(&self) -> ActionView {
        match self {
            Action::ReadRequest { limit, timeout_secs } => ActionView::ReadRequest {
                limit: *limit,
                timeout_secs: *timeout_secs,
            },
            Action::Log(request) => ActionView::Log(request@),
            Action::ProbeCache(key) => ActionView::ProbeCache(key@),
            Action::ReadCache(key) => ActionView::ReadCache(key@),
            Action::Fetch { address, request } => ActionView::Fetch {
                address: address@,
                request: request@,
            },
            Action::Store { key, content } => ActionView::Store { key: key@, content: content@ },
            Action::Respond { head, body } => ActionView::Respond { head: head@, body: body@ },
            Action::Relay(bytes) => ActionView::Relay(bytes@),
            Action::Close => ActionView::Close,
        }
    }
}

/// Giving the connection up: nothing is sent to the client.
pub open spec fn aborted(reason: AbortReason) -> (HandlerStateView, ActionView) {
    (HandlerStateView::Aborted(reason), ActionView::Close)
}

/// Answering the client with `body` under its own protocol version.
pub open spec fn served(version: Seq<char>, body: Seq<u8>) -> (HandlerStateView, ActionView) {
    (HandlerStateView::Closed, ActionView::Respond { head: response_head_spec(version), body })
}

/// What follows the arrival of a request: a request line that cannot be
/// read and a version other than `HTTP/1.1` end the connection; any other
/// request is logged as it came.
pub open spec fn on_request_spec(raw: Seq<char>) -> (HandlerStateView, ActionView) {
    match parse_request_spec(raw) {
        Err(e) => aborted(AbortReason::Parse(e)),
        Ok(parsed) => if parsed.2 != HTTP_VERSION@ {
            aborted(AbortReason::UnsupportedVersion)
        } else {
            (
                HandlerStateView::Logging { method: parsed.0, target: parsed.1, version: parsed.2 },
                ActionView::Log(raw),
            )
        },
    }
}

/// The route of a request for `target`.
pub open spec fn route_of(method: Seq<char>, target: Seq<char>, version: Seq<char>) -> RouteView {
    RouteView {
        method,
        target,
        version,
        file_name: file_name_of(target),
        server_name: server_name_of(target),
    }
}

/// What follows the logging: a target that names no file or no host ends
/// the connection; for any other the cache is asked.
pub open spec fn on_logged_spec(method: Seq<char>, target: Seq<char>, version: Seq<char>) -> (
    HandlerStateView,
    ActionView,
) {
    let route = route_of(method, target, version);
    if route.file_name.len() == 0 || route.server_name.len() == 0 {
        aborted(AbortReason::MissingRouteInfo)
    } else {
        (HandlerStateView::Probing(route), ActionView::ProbeCache(route.file_name))
    }
}

/// What follows the cache's answer: an entry that is there is read, and the
/// origin is not contacted; one that is not there is fetched.
pub open spec fn on_probe_spec(route: RouteView, present: bool) -> (
    HandlerStateView,
    ActionView,
) {
    if present {
        (HandlerStateView::ReadingCache(route), ActionView::ReadCache(route.file_name))
    } else {
        (
            HandlerStateView::Fetching(route),
            ActionView::Fetch {
                address: origin_address_spec(route.server_name),
                request: origin_request_spec(route.method, route.target, route.server_name),
            },
        )
    }
}

/// What follows once the body has been brought into its stored form, or
/// could not be: content is written to the cache under the route's key, a
/// failure ends the connection.
pub open spec fn on_normalized_spec(
    route: RouteView,
    normalized: Result<Seq<u8>, DecompressionError>,
) -> (HandlerStateView, ActionView) {
    match normalized {
        Ok(content) => (
            HandlerStateView::Storing { route, content },
            ActionView::Store { key: route.file_name, content },
        ),
        Err(_) => aborted(AbortReason::Decompression),
    }
}

/// What follows the origin's reply. A reply that cannot be read apart ends
/// the connection. A reply with a status other than `200` is passed to the
/// client as it came and the cache is left alone. The body of a `200` reply
/// is brought into its stored form, according to `Content-Encoding`.
pub open spec fn on_reply_spec(route: RouteView, raw: Seq<u8>) -> (HandlerStateView, ActionView) {
    match parse_response_spec(raw) {
        Err(e) => aborted(AbortReason::Parse(e)),
        Ok(response) => match status_code_of(response.status_line) {
            Err(e) => aborted(AbortReason::Parse(e)),
            Ok(code) => if code != "200".spec_bytes() {
                (HandlerStateView::Closed, ActionView::Relay(raw))
            } else {
                on_normalized_spec(
                    route,
                    normalize_spec(
                        response.body,
                        header_value_of(response.headers, "Content-Encoding".spec_bytes()),
                        gzip_decoded(response.body),
                    ),
                )
            },
        },
    }
}

/// The state in which every connection begins, and the first action.
pub open spec fn start_spec() -> (HandlerStateView, ActionView) {
    (
        HandlerStateView::AwaitingRequest,
        ActionView::ReadRequest { limit: BUFFER_SIZE, timeout_secs: TIMEOUT },
    )
}

/// The handler's transition: the state and the action that follow `event`
/// in `state`. An event that the state does not wait for ends the
/// connection, and a finished handler stays as it is.
pub open spec fn step_spec(state: HandlerStateView, event: EventView) -> (
    HandlerStateView,
    ActionView,
) {
    match state {
        HandlerStateView::AwaitingRequest => match event {
            EventView::RequestRead(raw) => on_request_spec(raw),
            EventView::RequestFailed => aborted(AbortReason::SocketRead),
            _ => aborted(AbortReason::OutOfTurn),
        },
        HandlerStateView::Logging { method, target, version } => match event {
            EventView::Logged => on_logged_spec(method, target, version),
            _ => aborted(AbortReason::OutOfTurn),
        },
        HandlerStateView::Probing(route) => match event {
            EventView::CacheProbed(present) => on_probe_spec(route, present),
            _ => aborted(AbortReason::OutOfTurn),
        },
        HandlerStateView::ReadingCache(route) => match event {
            EventView::CacheRead(bytes) => served(route.version, bytes),
            EventView::CacheFailed => aborted(AbortReason::CacheIo),
            _ => aborted(AbortReason::OutOfTurn),
        },
        HandlerStateView::Fetching(route) => match event {
            EventView::OriginReplied(raw) => on_reply_spec(route, raw),
            EventView::OriginUnreachable => aborted(AbortReason::OriginConnect),
            EventView::OriginFailed => aborted(AbortReason::SocketRead),
            _ => aborted(AbortReason::OutOfTurn),
        },
        HandlerStateView::Storing { route, content } => match event {
            EventView::CacheWritten => served(route.version, content),
            EventView::CacheFailed => aborted(AbortReason::CacheIo),
            _ => aborted(AbortReason::OutOfTurn),
        },
        HandlerStateView::Closed => (HandlerStateView::Closed, ActionView::Close),
        HandlerStateView::Aborted(reason) => (HandlerStateView::Aborted(reason), ActionView::Close),
    }
}

/// Whether the handling has come to its end.
pub open spec fn is_finished(state: HandlerStateView) -> bool {
    state is Closed || state is Aborted
}

/// The actions that the handler hands out, one for each of `events`, when
/// it starts in `state`.
pub open spec fn actions_of(state: HandlerStateView, events: Seq<EventView>) -> Seq<ActionView>
    decreases events.len(),
{
    if events.len() == 0 {
        Seq::empty()
    } else {
        let (next, action) = step_spec(state, events[0]);
        seq![action] + actions_of(next, events.skip(1))
    }
}

/// Whether a request is one that the handler serves: it parses, asks for
/// `HTTP/1.1`, and its target names a file and a host.
pub open spec fn is_servable(raw: Seq<char>) -> bool {
    &&& parse_request_spec(raw) matches Ok(parsed)
    &&& parsed.2 == HTTP_VERSION@
    &&& file_name_of(parsed.1).len() > 0
    &&& server_name_of(parsed.1).len() > 0
}

/// The route of a servable request.
pub open spec fn route_of_request(raw: Seq<char>) -> RouteView {
    let parsed = parse_request_spec(raw)->Ok_0;
    route_of(parsed.0, parsed.1, parsed.2)
}

/// Whether an action opens a connection to the origin.
pub open spec fn contacts_origin(action: ActionView) -> bool {
    action is Fetch
}

/// Whether an action writes to the cache.
pub open spec fn writes_cache(action: ActionView) -> bool {
    action is Store
}

/// A finished handler stays finished and asks for nothing but closing.
pub proof fn lemma_finished_stays_finished(state: HandlerStateView, events: Seq<EventView>, k: int)
    requires
        is_finished(state),
        0 <= k < events.len(),
    ensures
        actions_of(state, events).len() == events.len(),
        actions_of(state, events)[k] == ActionView::Close,
    decreases events.len(),
{
    lemma_one_action_per_event(state, events);
    if k > 0 {
        lemma_finished_stays_finished(state, events.skip(1), k - 1);
    }
}

/// The handler hands out one action for each event.
pub proof fn lemma_one_action_per_event(state: HandlerStateView, events: Seq<EventView>)
    ensures
        actions_of(state, events).len() == events.len(),
    decreases events.len(),
{
    if events.len() > 0 {
        lemma_one_action_per_event(step_spec(state, events[0]).0, events.skip(1));
    }
}

/// Once the cache has said that it holds the key, the origin is never
/// contacted, whatever happens afterwards.
pub proof fn lemma_cache_hit_never_contacts_origin(
    route: RouteView,
    later: Seq<EventView>,
    k: int,
)
    requires
        0 <= k <= later.len(),
    ensures
        !contacts_origin(
            actions_of(
                HandlerStateView::Probing(route),
                seq![EventView::CacheProbed(true)] + later,
            )[k],
        ),
{
    let events = seq![EventView::CacheProbed(true)] + later;
    let probing = HandlerStateView::Probing(route);
    let reading = HandlerStateView::ReadingCache(route);
    assert(events.skip(1) =~= later);
    assert(actions_of(probing, events) == seq![step_spec(probing, events[0]).1] + actions_of(
        reading,
        later,
    ));
    lemma_one_action_per_event(reading, later);
    if k > 0 {
        let after = step_spec(reading, later[0]).0;
        assert(actions_of(reading, later) == seq![step_spec(reading, later[0]).1] + actions_of(
            after,
            later.skip(1),
        ));
        lemma_one_action_per_event(after, later.skip(1));
        if k > 1 {
            lemma_finished_stays_finished(after, later.skip(1), k - 2);
        }
    }
}

/// A servable request whose key the cache holds is answered with the bytes
/// of the cache entry, under the client's own protocol version, and the
/// four actions that lead there are: log, ask the cache, read the entry,
/// respond.
pub proof fn lemma_cache_hit_is_answered_from_cache(raw: Seq<char>, stored: Seq<u8>)
    requires
        is_servable(raw),
    ensures
        actions_of(
            start_spec().0,
            seq![
                EventView::RequestRead(raw),
                EventView::Logged,
                EventView::CacheProbed(true),
                EventView::CacheRead(stored),
            ],
        ) == seq![
            ActionView::Log(raw),
            ActionView::ProbeCache(route_of_request(raw).file_name),
            ActionView::ReadCache(route_of_request(raw).file_name),
            ActionView::Respond {
                head: response_head_spec(route_of_request(raw).version),
                body: stored,
            },
        ],
{
    let events = seq![
        EventView::RequestRead(raw),
        EventView::Logged,
        EventView::CacheProbed(true),
        EventView::CacheRead(stored),
    ];
    let route = route_of_request(raw);
    let s1 = step_spec(start_spec().0, events[0]).0;
    let s2 = step_spec(s1, events[1]).0;
    let s3 = step_spec(s2, events[2]).0;
    let s4 = step_spec(s3, events[3]).0;
    assert(s2 == HandlerStateView::Probing(route));
    assert(events.skip(1).skip(1).skip(1).skip(1) =~= Seq::<EventView>::empty());
    assert(actions_of(s4, events.skip(1).skip(1).skip(1).skip(1)) =~= Seq::<ActionView>::empty());
    reveal_with_fuel(actions_of, 5);
    assert(actions_of(start_spec().0, events) =~= seq![
        ActionView::Log(raw),
        ActionView::ProbeCache(route.file_name),
        ActionView::ReadCache(route.file_name),
        ActionView::Respond { head: response_head_spec(route.version), body: stored },
    ]);
}

/// Whether a reply is one with status `200`.
pub open spec fn is_success_reply(raw: Seq<u8>) -> bool {
    &&& parse_response_spec(raw) matches Ok(response)
    &&& status_code_of(response.status_line) == Ok::<Seq<u8>, ParseError>("200".spec_bytes())
}

/// Whether a reply is well-formed and has a status other than `200`.
pub open spec fn is_other_status_reply(raw: Seq<u8>) -> bool {
    &&& parse_response_spec(raw) matches Ok(response)
    &&& status_code_of(response.status_line) matches Ok(code)
    &&& code != "200".spec_bytes()
}

/// A reply with a status other than `200` reaches the client byte for byte,
/// and neither then nor later is anything written to the cache.
pub proof fn lemma_other_status_is_relayed_untouched(
    route: RouteView,
    raw: Seq<u8>,
    later: Seq<EventView>,
    k: int,
)
    requires
        is_other_status_reply(raw),
        0 <= k <= later.len(),
    ensures
        step_spec(HandlerStateView::Fetching(route), EventView::OriginReplied(raw)) == (
            HandlerStateView::Closed,
            ActionView::Relay(raw),
        ),
        !writes_cache(
            actions_of(
                HandlerStateView::Fetching(route),
                seq![EventView::OriginReplied(raw)] + later,
            )[k],
        ),
{
    let events = seq![EventView::OriginReplied(raw)] + later;
    let fetching = HandlerStateView::Fetching(route);
    assert(events.skip(1) =~= later);
    assert(actions_of(fetching, events) == seq![step_spec(fetching, events[0]).1] + actions_of(
        HandlerStateView::Closed,
        later,
    ));
    lemma_one_action_per_event(HandlerStateView::Closed, later);
    if k > 0 {
        lemma_finished_stays_finished(HandlerStateView::Closed, later, k - 1);
    }
}

/// A `200` reply whose body is announced as gzip and inflates to `content`
/// puts `content` into the cache under the route's key and, once that is
/// written, sends `content` to the client: what is stored and what is
/// served are the same bytes.
pub proof fn lemma_gzip_reply_is_stored_and_served_inflated(
    route: RouteView,
    raw: Seq<u8>,
    content: Seq<u8>,
)
    requires
        is_success_reply(raw),
        header_value_of(parse_response_spec(raw)->Ok_0.headers, "Content-Encoding".spec_bytes())
            == Some("gzip".spec_bytes()),
        gzip_decoded(parse_response_spec(raw)->Ok_0.body) == Some(content),
    ensures
        actions_of(
            HandlerStateView::Fetching(route),
            seq![EventView::OriginReplied(raw), EventView::CacheWritten],
        ) == seq![
            ActionView::Store { key: route.file_name, content },
            ActionView::Respond { head: response_head_spec(route.version), body: content },
        ],
{
    let events = seq![EventView::OriginReplied(raw), EventView::CacheWritten];
    let s1 = step_spec(HandlerStateView::Fetching(route), events[0]).0;
    let s2 = step_spec(s1, events[1]).0;
    assert(events.skip(1).skip(1) =~= Seq::<EventView>::empty());
    assert(actions_of(s2, events.skip(1).skip(1)) =~= Seq::<ActionView>::empty());
    reveal_with_fuel(actions_of, 3);
    assert(actions_of(HandlerStateView::Fetching(route), events) =~= seq![
        ActionView::Store { key: route.file_name, content },
        ActionView::Respond { head: response_head_spec(route.version), body: content },
    ]);
}

/// A `200` reply whose body is not announced as gzip is stored and served
/// as its body stands.
pub proof fn lemma_plain_reply_is_stored_and_served_as_is(route: RouteView, raw: Seq<u8>)
    requires
        is_success_reply(raw),
        header_value_of(parse_response_spec(raw)->Ok_0.headers, "Content-Encoding".spec_bytes())
            != Some("gzip".spec_bytes()),
    ensures
        actions_of(
            HandlerStateView::Fetching(route),
            seq![EventView::OriginReplied(raw), EventView::CacheWritten],
        ) == seq![
            ActionView::Store {
                key: route.file_name,
                content: parse_response_spec(raw)->Ok_0.body,
            },
            ActionView::Respond {
                head: response_head_spec(route.version),
                body: parse_response_spec(raw)->Ok_0.body,
            },
        ],
{
    let events = seq![EventView::OriginReplied(raw), EventView::CacheWritten];
    let body = parse_response_spec(raw)->Ok_0.body;
    let s1 = step_spec(HandlerStateView::Fetching(route), events[0]).0;
    let s2 = step_spec(s1, events[1]).0;
    assert(events.skip(1).skip(1) =~= Seq::<EventView>::empty());
    assert(actions_of(s2, events.skip(1).skip(1)) =~= Seq::<ActionView>::empty());
    reveal_with_fuel(actions_of, 3);
    assert(actions_of(HandlerStateView::Fetching(route), events) =~= seq![
        ActionView::Store { key: route.file_name, content: body },
        ActionView::Respond { head: response_head_spec(route.version), body },
    ]);
}

/// Nothing is sent to the client of a connection that is given up: the
/// step that leads to `Aborted` asks for closing and nothing else.
pub proof fn lemma_abort_is_silent(state: HandlerStateView, event: EventView)
    requires
        step_spec(state, event).0 is Aborted,
    ensures
        step_spec(state, event).1 == ActionView::Close,
{
}

fn abort(reason: AbortReason) -> (r: (HandlerState, Action))
    ensures
        (r.0@, r.1@) == aborted(reason),
{
    (HandlerState::Aborted(reason), Action::Close)
}

fn serve(version: &str, body: Vec<u8>) -> (r: (HandlerState, Action))
    ensures
        (r.0@, r.1@) == served(version@, body@),
{
    (HandlerState::Closed, Action::Respond { head: response_head(version), body })
}

/// Opens the handling of a connection.
pub fn start() -> (r: (HandlerState, Action))
    ensures
        (r.0@, r.1@) == start_spec(),
{
    (
        HandlerState::AwaitingRequest,
        Action::ReadRequest { limit: BUFFER_SIZE, timeout_secs: TIMEOUT },
    )
}

/// Takes in the client's request.
pub fn on_request(raw: String) -> (r: (HandlerState, Action))
    ensures
        (r.0@, r.1@) == on_request_spec(raw@),
{
    match parse_request(raw.as_str()) {
        Err(e) => abort(AbortReason::Parse(e)),
        Ok((method, target, version)) => {
            if !check_version(version.as_str()) {
                abort(AbortReason::UnsupportedVersion)
            } else {
                (HandlerState::Logging { method, target, version }, Action::Log(raw))
            }
        },
    }
}

/// Derives the route once the request is logged, and asks the cache.
pub fn on_logged(method: String, target: String, version: String) -> (r: (HandlerState, Action))
    ensures
        (r.0@, r.1@) == on_logged_spec(method@, target@, version@),
{
    let file_name = get_file_name(target.as_str());
    let server_name = get_server_name(target.as_str());
    if file_name.as_str().is_empty() || server_name.as_str().is_empty() {
        abort(AbortReason::MissingRouteInfo)
    } else {
        let key = file_name.clone();
        let route = Route { method, target, version, file_name, server_name };
        (HandlerState::Probing(route), Action::ProbeCache(key))
    }
}

/// Decides between the cache and the origin.
pub fn on_probe(route: Route, present: bool) -> (r: (HandlerState, Action))
    ensures
        (r.0@, r.1@) == on_probe_spec(route@, present),
{
    if present {
        let key = route.file_name.clone();
        (HandlerState::ReadingCache(route), Action::ReadCache(key))
    } else {
        let address = origin_address(route.server_name.as_str());
        let request = origin_request(
            route.method.as_str(),
            route.target.as_str(),
            route.server_name.as_str(),
        );
        (HandlerState::Fetching(route), Action::Fetch { address, request })
    }
}

/// Hands the content to the cache, or gives up where there is none.
pub fn on_normalized(route: Route, normalized: Result<Vec<u8>, DecompressionError>) -> (r: (
    HandlerState,
    Action,
))
    ensures
        (r.0@, r.1@) == on_normalized_spec(
            route@,
            match normalized {
                Ok(content) => Ok(content@),
                Err(e) => Err(e),
            },
        ),
{
    match normalized {
        Ok(content) => {
            let key = route.file_name.clone();
            let stored = content.clone();
            (HandlerState::Storing { route, content }, Action::Store { key, content: stored })
        },
        Err(_) => abort(AbortReason::Decompression),
    }
}

/// Takes in the origin's reply.
pub fn on_reply(route: Route, raw: Vec<u8>) -> (r: (HandlerState, Action))
    ensures
        (r.0@, r.1@) == on_reply_spec(route@, raw@),
{
    let response = match parse_response(raw.as_slice()) {
        Ok(response) => response,
        Err(e) => {
            return abort(AbortReason::Parse(e));
        },
    };
    let code = match response.status_code() {
        Ok(code) => code,
        Err(e) => {
            return abort(AbortReason::Parse(e));
        },
    };
    if !same_symbols(code.as_slice(), "200".as_bytes()) {
        return (HandlerState::Closed, Action::Relay(raw));
    }
    let encoding = response.header_value("Content-Encoding".as_bytes());
    let normalized = normalize(response.body, &encoding);
    on_normalized(route, normalized)
}

/// The handler's transition: consumes the state and the event, and gives the
/// next state and the action that the caller is to perform.
pub fn step(state: HandlerState, event: Event) -> (r: (HandlerState, Action))
    ensures
        (r.0@, r.1@) == step_spec(state@, event@),
{
    match state {
        HandlerState::AwaitingRequest => match event {
            Event::RequestRead(raw) => on_request(raw),
            Event::RequestFailed => abort(AbortReason::SocketRead),
            _ => abort(AbortReason::OutOfTurn),
        },
        HandlerState::Logging { method, target, version } => match event {
            Event::Logged => on_logged(method, target, version),
            _ => abort(AbortReason::OutOfTurn),
        },
        HandlerState::Probing(route) => match event {
            Event::CacheProbed(present) => on_probe(route, present),
            _ => abort(AbortReason::OutOfTurn),
        },
        HandlerState::ReadingCache(route) => match event {
            Event::CacheRead(bytes) => serve(route.version.as_str(), bytes),
            Event::CacheFailed => abort(AbortReason::CacheIo),
            _ => abort(AbortReason::OutOfTurn),
        },
        HandlerState::Fetching(route) => match event {
            Event::OriginReplied(raw) => on_reply(route, raw),
            Event::OriginUnreachable => abort(AbortReason::OriginConnect),
            Event::OriginFailed => abort(AbortReason::SocketRead),
            _ => abort(AbortReason::OutOfTurn),
        },
        HandlerState::Storing { route, content } => match event {
            Event::CacheWritten => serve(route.version.as_str(), content),
            Event::CacheFailed => abort(AbortReason::CacheIo),
            _ => abort(AbortReason::OutOfTurn),
        },
        HandlerState::Closed => (HandlerState::Closed, Action::Close),
        HandlerState::Aborted(reason) => (HandlerState::Aborted(reason), Action::Close),
    }
}

} // verus!
