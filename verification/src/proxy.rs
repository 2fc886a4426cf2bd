//! The decisions of the game proxy: its configuration, how a session finds
//! its backend, when a transport error means that a connection is gone, and
//! the life cycle of a proxied connection.
use vstd::prelude::*;
use vstd::string::StringExecFns;
use crate::colony::{colony_named, Colony};
use crate::routes::RouteTable;
use crate::text::{all_ascii, chars_of, contains, contains_chars};

verus! {

// ---------------------------------------------------------------------------
// Configuration
// ---------------------------------------------------------------------------
/// Configuration of the game proxy.
pub struct ProxyConfig {
    /// The port of the proxy server to listen on.
    pub port: u16,
    /// Which backend server serves each colony.
    pub routes: RouteTable,
    /// TLS certificate path for WebTransport.
    pub cert_path: Option<String>,
    /// TLS key path for WebTransport.
    pub key_path: Option<String>,
}

impl Default for ProxyConfig {
    /// Port 8000, no routes, and the default certificate files.
    fn default() -> (r: Self)
        ensures
            r.port == 8000,
            r.routes.view() == Map::<Colony, Seq<char>>::empty(),
            r.cert_path is None,
            r.key_path is None,
    {
        ProxyConfig { port: 8000, routes: RouteTable::new(), cert_path: None, key_path: None }
    }
}

/// The port that the deployed proxy listens on.
pub open spec fn deployed_port() -> u16 {
    25560
}

/// The backend addresses of the deployed proxy.
pub open spec fn deployed_routes() -> Map<Colony, Seq<char>> {
    map![
        Colony::Iris => "https://localhost:25565"@,
        Colony::Cloning => "https://localhost:25566"@,
        Colony::StarMap => "https://localhost:25567"@,
        Colony::Liberte => "https://localhost:25568"@,
    ]
}

/// The configuration the deployed proxy starts with: four colonies, each
/// served by a local backend, and the default certificate files.
pub fn init_config() -> (r: ProxyConfig)
    ensures
        r.port == deployed_port(),
        r.routes.view() == deployed_routes(),
        r.cert_path is None,
        r.key_path is None,
{
    let mut routes = RouteTable::new();
    routes.insert(Colony::Iris, String::from_str("https://localhost:25565"));
    routes.insert(Colony::Cloning, String::from_str("https://localhost:25566"));
    routes.insert(Colony::StarMap, String::from_str("https://localhost:25567"));
    routes.insert(Colony::Liberte, String::from_str("https://localhost:25568"));
    assert(routes.view() =~= deployed_routes());
    ProxyConfig { port: 25560, routes, cert_path: None, key_path: None }
}

/// A game proxy that routes WebTransport sessions to colony backends.
pub struct GameProxy {
    pub config: ProxyConfig,
}

/// The certificate file used when the configuration names none.
pub open spec fn default_cert_path() -> Seq<char> {
    "./certs/server.pem"@
}

/// The private key file used when the configuration names none.
pub open spec fn default_key_path() -> Seq<char> {
    "./certs/server.key"@
}

impl GameProxy {
    pub fn new(config: ProxyConfig) -> (r: Self)
        ensures
            r.config == config,
    {
        GameProxy { config }
    }

    /// The certificate and key files the proxy loads its identity from: the
    /// configured ones, or the default files under `./certs`.
    pub fn identity_files(&self) -> (r: (String, String))
        ensures
            r.0@ == match self.config.cert_path {
                Some(p) => p@,
                None => default_cert_path(),
            },
            r.1@ == match self.config.key_path {
                Some(p) => p@,
                None => default_key_path(),
            },
    {
        let cert = match &self.config.cert_path {
            Some(p) => p.clone(),
            None => String::from_str("./certs/server.pem"),
        };
        let key = match &self.config.key_path {
            Some(p) => p.clone(),
            None => String::from_str("./certs/server.key"),
        };
        (cert, key)
    }
}

// ---------------------------------------------------------------------------
// Routing a session
// ---------------------------------------------------------------------------
/// Why a session could not be routed.
#[derive(Debug, PartialEq, Eq)]
pub enum RouteError {
    /// The route header names no colony.
    UnknownColony(String),
    /// The colony has no backend.
    NoBackend(String),
}

/// The route a session asks for: its `x-route` header, or the empty text
/// when it sent none.
pub open spec fn requested_route(header: Option<Seq<char>>) -> Seq<char> {
    match header {
        Some(h) => h,
        None => Seq::empty(),
    }
}

/// The backend address that serves the session whose `x-route` header is
/// `route_header`: the header must name a colony exactly, and that colony
/// must have a route.
pub fn resolve_backend(routes: &RouteTable, route_header: Option<&str>) -> (r: Result<
    String,
    RouteError,
>)
    ensures
        ({
            let route = requested_route(
                match route_header {
                    Some(h) => Some(h@),
                    None => None,
                },
            );
            match colony_named(route) {
                None => r matches Err(RouteError::UnknownColony(e)) && e@ == route,
                Some(c) => if routes.view().contains_key(c) {
                    r matches Ok(a) && a@ == routes.view()[c]
                } else {
                    r matches Err(RouteError::NoBackend(e)) && e@ == route
                },
            }
        }),
{
    let route: &str = match route_header {
        Some(h) => h,
        None => {
            proof {
                reveal_strlit("");
            }
            ""
        },
    };
    let ghost expected = requested_route(
        match route_header {
            Some(h) => Some(h@),
            None => None,
        },
    );
    assert(route@ == expected);
    match Colony::parse(route) {
        None => Err(RouteError::UnknownColony(String::from_str(route))),
        Some(colony) => match routes.get(colony) {
            Some(address) => Ok(address.clone()),
            None => Err(RouteError::NoBackend(String::from_str(route))),
        },
    }
}

/// The headers the proxy sends when it opens the backend session: the
/// client's token and route, the empty text for one it did not send.
pub fn backend_headers(token: Option<&str>, route: Option<&str>) -> (r: Vec<(String, String)>)
    ensures
        r@.len() == 2,
        r@[0].0@ == "x-token"@,
        r@[0].1@ == requested_route(
            match token {
                Some(t) => Some(t@),
                None => None,
            },
        ),
        r@[1].0@ == "x-route"@,
        r@[1].1@ == requested_route(
            match route {
                Some(t) => Some(t@),
                None => None,
            },
        ),
{
    let token_value = match token {
        Some(t) => String::from_str(t),
        None => {
            proof {
                reveal_strlit("");
            }
            String::from_str("")
        },
    };
    let route_value = match route {
        Some(t) => String::from_str(t),
        None => {
            proof {
                reveal_strlit("");
            }
            String::from_str("")
        },
    };
    let mut headers: Vec<(String, String)> = Vec::new();
    headers.push((String::from_str("x-token"), token_value));
    headers.push((String::from_str("x-route"), route_value));
    headers
}

// ---------------------------------------------------------------------------
// Closed connections
// ---------------------------------------------------------------------------
/// The lowercase form of a text, as `str::to_lowercase` gives it.
pub uninterp spec fn lowercase(s: Seq<char>) -> Seq<char>;

/// The lowercase form of an ASCII letter; other characters are kept.
pub open spec fn ascii_lower(c: char) -> char {
    if 'A' <= c && c <= 'Z' {
        ((c as u32) + 32) as char
    } else {
        c
    }
}

/// `str::to_lowercase`: the text lowercased by the Unicode `Lowercase`
/// mapping. Claimed here: the result is a function of the text alone, and on
/// ASCII text it lowercases the letters `A` to `Z` and keeps the rest.
#[verifier::external_body]
fn to_lowercase(s: &str) -> (r: String)
    ensures
        r@ == lowercase(s@),
        all_ascii(s@) ==> r@ == s@.map_values(|c: char| ascii_lower(c)),
{
    s.to_lowercase()
}

/// The phrases that, in a lowercased transport error, mean that the
/// connection is gone.
pub open spec fn closed_markers() -> Seq<Seq<char>> {
    seq![
        "application closed"@,
        "applicationclosed"@,
        "closed"@,
        "connection reset"@,
        "connection aborted"@,
        "broken pipe"@,
        "not connected"@,
        "connection lost"@,
        "session closed"@,
        "stream closed"@,
        "no route to host"@,
        "connection refused"@,
        "timed out"@,
        "connection terminated"@,
    ]
}

/// The lowercased error text names one of the closing phrases.
pub open spec fn names_closed_connection(lowered: Seq<char>) -> bool {
    exists|k: int| 0 <= k < closed_markers().len() && contains(lowered, #[trigger] closed_markers()[k])
}

/// A lowercased error text names a closed connection exactly when it
/// contains one of the closing phrases: each of them counts, and nothing
/// else does.
pub proof fn lemma_closing_phrases(lowered: Seq<char>)
    ensures
        names_closed_connection(lowered) == (
               contains(lowered, "application closed"@)
            || contains(lowered, "applicationclosed"@)
            || contains(lowered, "closed"@)
            || contains(lowered, "connection reset"@)
            || contains(lowered, "connection aborted"@)
            || contains(lowered, "broken pipe"@)
            || contains(lowered, "not connected"@)
            || contains(lowered, "connection lost"@)
            || contains(lowered, "session closed"@)
            || contains(lowered, "stream closed"@)
            || contains(lowered, "no route to host"@)
            || contains(lowered, "connection refused"@)
            || contains(lowered, "timed out"@)
            || contains(lowered, "connection terminated"@)
        ),
{
    assert(closed_markers().len() == 14);
    assert(closed_markers()[0] == "application closed"@);
    assert(closed_markers()[1] == "applicationclosed"@);
    assert(closed_markers()[2] == "closed"@);
    assert(closed_markers()[3] == "connection reset"@);
    assert(closed_markers()[4] == "connection aborted"@);
    assert(closed_markers()[5] == "broken pipe"@);
    assert(closed_markers()[6] == "not connected"@);
    assert(closed_markers()[7] == "connection lost"@);
    assert(closed_markers()[8] == "session closed"@);
    assert(closed_markers()[9] == "stream closed"@);
    assert(closed_markers()[10] == "no route to host"@);
    assert(closed_markers()[11] == "connection refused"@);
    assert(closed_markers()[12] == "timed out"@);
    assert(closed_markers()[13] == "connection terminated"@);
    if names_closed_connection(lowered) {
        let k = choose|k: int|
            0 <= k < closed_markers().len() && contains(lowered, #[trigger] closed_markers()[k]);
        assert(0 <= k < 14);
    }
}

/// Whether a lowercased transport error text means that the connection is
/// gone, graceful application closes included.
pub fn lowered_error_means_closed(lowered: &str) -> (r: bool)
    ensures
        r == names_closed_connection(lowered@),
{
    let text = chars_of(lowered);
    let markers: [&str; 14] = [
        "application closed",
        "applicationclosed",
        "closed",
        "connection reset",
        "connection aborted",
        "broken pipe",
        "not connected",
        "connection lost",
        "session closed",
        "stream closed",
        "no route to host",
        "connection refused",
        "timed out",
        "connection terminated",
    ];
    assert(markers@.map_values(|m: &str| m@) =~= closed_markers());
    let mut k: usize = 0;
    while k < 14
        invariant
            k <= 14,
            text@ == lowered@,
            markers@.map_values(|m: &str| m@) == closed_markers(),
            forall|j: int| 0 <= j < k ==> !contains(lowered@, #[trigger] closed_markers()[j]),
        decreases 14 - k,
    {
        let marker = chars_of(markers[k]);
        assert(marker@ == closed_markers()[k as int]);
        if contains_chars(text.as_slice(), marker.as_slice()) {
            return true;
        }
        k = k + 1;
    }
    false
}

/// Whether a transport error text means that the connection is gone: its
/// lowercase form names one of the closing phrases.
pub fn is_connection_closed(error_text: &str) -> (r: bool)
    ensures
        r == names_closed_connection(lowercase(error_text@)),
        all_ascii(error_text@) ==> r == names_closed_connection(
            error_text@.map_values(|c: char| ascii_lower(c)),
        ),
{
    let lowered = to_lowercase(error_text);
    lowered_error_means_closed(lowered.as_str())
}

/// What happens in a loop that forwards streams or datagrams from one side
/// of a proxied pair to the other.
#[derive(Debug, PartialEq, Eq)]
pub enum ForwardEvent {
    /// A stream arrived from the side being read.
    StreamAccepted,
    /// The matching stream to the other side is open.
    PeerStreamOpened,
    /// A datagram arrived from the side being read.
    DatagramReceived,
    /// Accepting a stream or datagram, or completing the opening of the
    /// matching stream, failed with this error text.
    Failed(String),
    /// The connection to the other side refused to start opening the
    /// matching stream, with this error text.
    PeerConnectionFailed(String),
    /// The proxy tasks of the connection were cancelled.
    Cancelled,
}

/// What a forwarding loop does next.
#[derive(Debug, Clone, Copy, PartialEq, Eq, Structural)]
pub enum ForwardAction {
    /// Open the matching stream to the other side.
    OpenPeer,
    /// Copy the stream, or send the datagram, to the other side.
    Forward,
    /// Report the error and keep forwarding.
    Continue,
    /// End the loop.
    Stop,
    /// End the loop with the error.
    Abort,
}

/// The next step of a forwarding loop: streams are matched and copied,
/// datagrams are sent on, a cancellation ends the loop, and so does a
/// failure whose text means that a connection is gone; other failures are
/// reported and the loop goes on, except a refusal of the other side's
/// connection to open a stream, which ends the loop with the error.
pub fn forward_step(event: &ForwardEvent) -> (r: ForwardAction)
    ensures
        r == match *event {
            ForwardEvent::StreamAccepted => ForwardAction::OpenPeer,
            ForwardEvent::PeerStreamOpened => ForwardAction::Forward,
            ForwardEvent::DatagramReceived => ForwardAction::Forward,
            ForwardEvent::Failed(e) => if names_closed_connection(lowercase(e@)) {
                ForwardAction::Stop
            } else {
                ForwardAction::Continue
            },
            ForwardEvent::PeerConnectionFailed(_) => ForwardAction::Abort,
            ForwardEvent::Cancelled => ForwardAction::Stop,
        },
        match *event {
            ForwardEvent::Failed(e) => all_ascii(e@) ==> r == if names_closed_connection(
                e@.map_values(|c: char| ascii_lower(c)),
            ) {
                ForwardAction::Stop
            } else {
                ForwardAction::Continue
            },
            _ => true,
        },
{
    match event {
        ForwardEvent::StreamAccepted => ForwardAction::OpenPeer,
        ForwardEvent::PeerStreamOpened => ForwardAction::Forward,
        ForwardEvent::DatagramReceived => ForwardAction::Forward,
        ForwardEvent::Failed(e) => if is_connection_closed(e.as_str()) {
            ForwardAction::Stop
        } else {
            ForwardAction::Continue
        },
        ForwardEvent::PeerConnectionFailed(_) => ForwardAction::Abort,
        ForwardEvent::Cancelled => ForwardAction::Stop,
    }
}

// ---------------------------------------------------------------------------
// Connection life cycle
// ---------------------------------------------------------------------------
/// Connection state tracking for proper lifecycle management.
#[derive(Debug, Clone, Copy, PartialEq, Eq, Structural)]
pub enum ConnectionState {
    Connected,
    Disconnecting,
    Disconnected,
}

/// What happens to a proxied connection.
#[derive(Debug, Clone, Copy, PartialEq, Eq, Structural)]
pub enum ConnectionEvent {
    /// The proxy tasks have ended or were cancelled.
    Disconnecting,
    /// The connection handler has finished.
    Disconnected,
}

/// What the caller has to do after a change of state.
#[derive(Debug, Clone, Copy, PartialEq, Eq, Structural)]
pub enum ConnectionAction {
    /// Cancel every task that proxies this connection.
    CancelTasks,
    /// Signal that the connection's resources can be cleaned up.
    SignalCleanup,
}

/// The state of a connection and whether its tasks have been told to stop,
/// after `event`, from `before`: closing cancels the tasks; the end of the
/// handler leaves cancellation as it was.
pub open spec fn step(before: (ConnectionState, bool), event: ConnectionEvent) -> (
    ConnectionState,
    bool,
) {
    match event {
        ConnectionEvent::Disconnecting => (ConnectionState::Disconnecting, true),
        ConnectionEvent::Disconnected => (ConnectionState::Disconnected, before.1),
    }
}

/// The state and cancellation after a run of events, from `start`.
pub open spec fn run(start: (ConnectionState, bool), events: Seq<ConnectionEvent>) -> (
    ConnectionState,
    bool,
)
    decreases events.len(),
{
    if events.len() == 0 {
        start
    } else {
        step(run(start, events.drop_last()), events.last())
    }
}

/// Tracks the state of one proxied connection and whether its tasks have
/// been told to stop.
pub struct ConnectionManager {
    state: ConnectionState,
    cancelled: bool,
}

impl ConnectionManager {
    /// The state of the connection.
    pub closed spec fn current(&self) -> ConnectionState {
        self.state
    }

    /// The connection's tasks have been told to stop.
    pub closed spec fn cancel_requested(&self) -> bool {
        self.cancelled
    }

    /// A connection that has just been established.
    pub fn new() -> (r: Self)
        ensures
            r.current() == ConnectionState::Connected,
            !r.cancel_requested(),
    {
        ConnectionManager { state: ConnectionState::Connected, cancelled: false }
    }

    /// The state of the connection.
    pub fn state(&self) -> (r: ConnectionState)
        ensures
            r == self.current(),
    {
        self.state
    }

    pub fn is_connected(&self) -> (r: bool)
        ensures
            r == (self.current() == ConnectionState::Connected),
    {
        match self.state {
            ConnectionState::Connected => true,
            _ => false,
        }
    }

    /// Whether the connection's tasks have been told to stop.
    pub fn is_cancelled(&self) -> (r: bool)
        ensures
            r == self.cancel_requested(),
    {
        self.cancelled
    }

    /// The connection is closing: its tasks are to be cancelled.
    pub fn mark_disconnecting(&mut self) -> (r: ConnectionAction)
        ensures
            (final(self).current(), final(self).cancel_requested()) == step(
                (old(self).current(), old(self).cancel_requested()),
                ConnectionEvent::Disconnecting,
            ),
            r == ConnectionAction::CancelTasks,
    {
        self.state = ConnectionState::Disconnecting;
        self.cancelled = true;
        ConnectionAction::CancelTasks
    }

    /// The connection is closed: its resources are to be cleaned up.
    pub fn mark_disconnected(&mut self) -> (r: ConnectionAction)
        ensures
            (final(self).current(), final(self).cancel_requested()) == step(
                (old(self).current(), old(self).cancel_requested()),
                ConnectionEvent::Disconnected,
            ),
            r == ConnectionAction::SignalCleanup,
    {
        self.state = ConnectionState::Disconnected;
        ConnectionAction::SignalCleanup
    }
}

/// Once a connection manager has seen any event, its connection is no
/// longer connected, whatever events follow.
pub proof fn lemma_never_reconnects(start: (ConnectionState, bool), events: Seq<ConnectionEvent>)
    requires
        events.len() > 0,
    ensures
        run(start, events).0 != ConnectionState::Connected,
{
}

/// Once a connection's tasks have been told to stop, they stay cancelled,
/// whatever happens after.
pub proof fn lemma_cancel_is_sticky(start: (ConnectionState, bool), events: Seq<ConnectionEvent>)
    requires
        start.1,
    ensures
        run(start, events).1,
    decreases events.len(),
{
    if events.len() > 0 {
        lemma_cancel_is_sticky(start, events.drop_last());
    }
}

/// Closing a connection cancels its tasks, and they stay cancelled through
/// any later events.
pub proof fn lemma_closing_cancels(
    start: (ConnectionState, bool),
    events: Seq<ConnectionEvent>,
    more: Seq<ConnectionEvent>,
)
    requires
        events.len() > 0,
        events.last() == ConnectionEvent::Disconnecting,
    ensures
        run(start, events + more).1,
    decreases more.len(),
{
    if more.len() > 0 {
        lemma_closing_cancels(start, events, more.drop_last());
        assert((events + more).drop_last() =~= events + more.drop_last());
    } else {
        assert(events + more =~= events);
    }
}

// ---------------------------------------------------------------------------
// Forwarding a close
// ---------------------------------------------------------------------------
/// What ended the watch over a proxied pair of connections.
#[derive(Debug, Clone, Copy, PartialEq, Eq, Structural)]
pub enum CloseTrigger {
    /// The client's connection closed.
    FrontendClosed,
    /// The backend's connection closed.
    BackendClosed,
    /// The proxy tasks were cancelled.
    Cancelled,
}

/// The reason sent with a close, code 0.
#[derive(Debug, Clone, Copy, PartialEq, Eq, Structural)]
pub enum CloseReason {
    ClientDisconnected,
    ServerDisconnected,
    ProxyShutdown,
}

/// Which connections the proxy closes, and with what reason: a close on one
/// side is forwarded to the other; a cancellation closes both.
pub fn close_plan(trigger: CloseTrigger) -> (r: (Option<CloseReason>, Option<CloseReason>))
    ensures
        r == match trigger {
            CloseTrigger::FrontendClosed => (None, Some(CloseReason::ClientDisconnected)),
            CloseTrigger::BackendClosed => (Some(CloseReason::ServerDisconnected), None),
            CloseTrigger::Cancelled => (
                Some(CloseReason::ProxyShutdown),
                Some(CloseReason::ProxyShutdown),
            ),
        },
{
    match trigger {
        CloseTrigger::FrontendClosed => (None, Some(CloseReason::ClientDisconnected)),
        CloseTrigger::BackendClosed => (Some(CloseReason::ServerDisconnected), None),
        CloseTrigger::Cancelled => (Some(CloseReason::ProxyShutdown), Some(CloseReason::ProxyShutdown)),
    }
}

} // verus!
