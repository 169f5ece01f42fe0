//! MCP server configuration, connection status, events and the bookkeeping
//! of the operation queue.
use vstd::prelude::*;
use vstd::string::StringExecFns;
use std::time::Duration;
use serde_json::Value;
use crate::circuit::{CircuitBreaker, CircuitState};
use crate::clock::{duration_from_millis, duration_from_secs, duration_nanos};
use crate::text::owned;
use crate::types::{lowercase_eq, lowers_to};

verus! {

// ---------------------------------------------------------------------------
// Server configuration
// ---------------------------------------------------------------------------

/// How to reach a server (as configured by the front end).
#[derive(Debug, Clone)]
pub enum TransportConfig {
    /// A child process spoken to over stdin/stdout.
    Stdio { command: String, args: Vec<String> },
    /// An HTTP endpoint.
    Http { url: String },
}

impl Default for TransportConfig {
    /// A stdio transport with an empty command and no arguments.
    fn default() -> (r: Self)
        ensures
            r matches TransportConfig::Stdio { command, args } && command@.len() == 0 && args@.len() == 0,
    {
        TransportConfig::Stdio { command: String::new(), args: Vec::new() }
    }
}

impl TransportConfig {
    /// The transport's tag: `stdio` or `http`.
    pub fn transport_type(&self) -> (r: &'static str)
        ensures
            r@ == (match self {
                TransportConfig::Stdio { .. } => "stdio"@,
                TransportConfig::Http { .. } => "http"@,
            }),
    {
        match self {
            TransportConfig::Stdio { .. } => "stdio",
            TransportConfig::Http { .. } => "http",
        }
    }
}

/// The configuration of an MCP server; persisting it is the caller's job.
#[derive(Debug, Clone)]
pub struct McpServerConfig {
    /// Unique id.
    pub id: String,
    /// Display name.
    pub name: String,
    pub description: Option<String>,
    pub transport: TransportConfig,
}

impl McpServerConfig {
    /// A stdio server.
    pub fn new_stdio(id: &str, name: &str, command: &str, args: Vec<String>) -> (r: Self)
        ensures
            r.id@ == id@,
            r.name@ == name@,
            r.description is None,
            r.transport matches TransportConfig::Stdio { command: c, args: a } && c@ == command@ && a == args,
    {
        McpServerConfig {
            id: owned(id),
            name: owned(name),
            description: None,
            transport: TransportConfig::Stdio { command: owned(command), args },
        }
    }

    /// An HTTP server.
    pub fn new_http(id: &str, name: &str, url: &str) -> (r: Self)
        ensures
            r.id@ == id@,
            r.name@ == name@,
            r.description is None,
            r.transport matches TransportConfig::Http { url: u } && u@ == url@,
    {
        McpServerConfig {
            id: owned(id),
            name: owned(name),
            description: None,
            transport: TransportConfig::Http { url: owned(url) },
        }
    }

    /// Whether the server is reached over stdio.
    pub fn is_stdio(&self) -> (r: bool)
        ensures
            r == (self.transport is Stdio),
    {
        match self.transport {
            TransportConfig::Stdio { .. } => true,
            _ => false,
        }
    }

    /// Whether the server is reached over HTTP.
    pub fn is_http(&self) -> (r: bool)
        ensures
            r == (self.transport is Http),
    {
        match self.transport {
            TransportConfig::Http { .. } => true,
            _ => false,
        }
    }

    /// The command of a stdio server.
    pub fn get_stdio_command(&self) -> (r: Option<&str>)
        ensures
            match self.transport {
                TransportConfig::Stdio { command, .. } => r matches Some(c) && c@ == command@,
                _ => r is None,
            },
    {
        match &self.transport {
            TransportConfig::Stdio { command, .. } => Some(command.as_str()),
            _ => None,
        }
    }
}

// ---------------------------------------------------------------------------
// Connections
// ---------------------------------------------------------------------------

/// How a live connection reaches its server.
#[derive(Debug, Clone)]
pub enum ConnectionTransport {
    /// A child process with its environment.
    Stdio { command: String, args: Vec<String>, env: Vec<(String, String)> },
    /// Streamable HTTP.
    Http { url: String },
}

impl ConnectionTransport {
    /// The transport's tag: `stdio` or `http`.
    pub fn transport_type(&self) -> (r: &'static str)
        ensures
            r@ == (match self {
                ConnectionTransport::Stdio { .. } => "stdio"@,
                ConnectionTransport::Http { .. } => "http"@,
            }),
    {
        match self {
            ConnectionTransport::Stdio { .. } => "stdio",
            ConnectionTransport::Http { .. } => "http",
        }
    }
}

/// The state of a connection, as reported to callers.
#[derive(Debug, Clone)]
pub struct McpStatus {
    pub name: String,
    pub transport_type: String,
    /// `connected`, `failed` or `disconnected`.
    pub health: String,
    pub circuit_open: bool,
    pub fail_count: u32,
}

/// The health text: connected; else failed while the breaker is open; else
/// disconnected.
pub open spec fn health_text(connected: bool, circuit_open: bool) -> Seq<char> {
    if connected {
        "connected"@
    } else if circuit_open {
        "failed"@
    } else {
        "disconnected"@
    }
}

/// The status of a connection from its name, transport, liveness and breaker.
pub fn status_of(name: &str, transport: &ConnectionTransport, connected: bool, circuit: &CircuitBreaker) -> (r: McpStatus)
    ensures
        r.name@ == name@,
        r.transport_type@ == (match transport {
            ConnectionTransport::Stdio { .. } => "stdio"@,
            ConnectionTransport::Http { .. } => "http"@,
        }),
        r.health@ == health_text(connected, circuit@.state == CircuitState::Open),
        r.circuit_open == (circuit@.state == CircuitState::Open),
        r.fail_count == circuit@.fail_count,
{
    let open = circuit.is_open();
    let health = if connected {
        "connected"
    } else if open {
        "failed"
    } else {
        "disconnected"
    };
    McpStatus {
        name: owned(name),
        transport_type: owned(transport.transport_type()),
        health: owned(health),
        circuit_open: open,
        fail_count: circuit.failure_count(),
    }
}

/// Heartbeat settings of a connection.
#[derive(Debug, Clone, Copy)]
pub struct HeartbeatConfig {
    /// Interval between heartbeats.
    pub interval: Duration,
    /// Least time between two liveness checks.
    pub check_interval: Duration,
    /// Whether a lost connection is re-established.
    pub auto_reconnect: bool,
    /// Most reconnection attempts.
    pub max_auto_reconnect: u32,
}

impl Default for HeartbeatConfig {
    /// 30 s heartbeats, 100 ms checks, reconnecting up to 3 times.
    fn default() -> (r: Self)
        ensures
            duration_nanos(r.interval) == 30 * 1_000_000_000,
            duration_nanos(r.check_interval) == 100 * 1_000_000,
            r.auto_reconnect,
            r.max_auto_reconnect == 3,
    {
        HeartbeatConfig {
            interval: duration_from_secs(30),
            check_interval: duration_from_millis(100),
            auto_reconnect: true,
            max_auto_reconnect: 3,
        }
    }
}

/// `2^n`.
pub open spec fn pow2(n: nat) -> nat
    decreases n,
{
    if n == 0 {
        1
    } else {
        2 * pow2((n - 1) as nat)
    }
}

/// Seconds to wait after the failed reconnection attempt `attempt`:
/// `2^attempt`, at most 60.
pub open spec fn backoff_secs(attempt: nat) -> nat {
    if pow2(attempt) < 60 {
        pow2(attempt)
    } else {
        60
    }
}

/// The back-off after the failed reconnection attempt `attempt`, in seconds
/// (`2_u64.pow(attempt).min(60)`, which needs `attempt < 64`).
pub fn reconnect_backoff_secs(attempt: u32) -> (r: u64)
    requires
        attempt < 64,
    ensures
        r == backoff_secs(attempt as nat),
{
    let mut p: u64 = 1;
    let mut i: u32 = 0;
    while i < attempt && p < 60
        invariant
            i <= attempt,
            p == pow2(i as nat),
            p < 120,
        decreases attempt - i,
    {
        p = p * 2;
        i += 1;
    }
    proof {
        lemma_pow2_mono(i as nat, attempt as nat);
    }
    if p < 60 { p } else { 60 }
}

/// `2^n` grows with `n`.
pub proof fn lemma_pow2_mono(a: nat, b: nat)
    requires
        a <= b,
    ensures
        pow2(a) <= pow2(b),
    decreases b - a,
{
    if a < b {
        lemma_pow2_mono(a, (b - 1) as nat);
    }
}

/// The reconnection back-off is at least one second, never over sixty, and
/// never shrinks from one attempt to the next.
pub proof fn law_backoff_bounded_monotone(a: nat, b: nat)
    requires
        a <= b,
    ensures
        1 <= backoff_secs(a) <= 60,
        backoff_secs(a) <= backoff_secs(b),
{
    lemma_pow2_mono(0, a);
    lemma_pow2_mono(a, b);
}

/// Whether `target` (lowercase ASCII) occurs in `s` at position `i`,
/// ignoring case.
pub open spec fn matches_at(s: Seq<char>, target: Seq<char>, i: int) -> bool {
    0 <= i && i + target.len() <= s.len() && lowercase_eq(s.subrange(i, i + target.len()), target)
}

/// Whether `target` (lowercase ASCII) occurs in `s` ignoring case, that is
/// whether it occurs in `s.to_lowercase()`.
pub open spec fn contains_lowercase(s: Seq<char>, target: Seq<char>) -> bool {
    exists|i: int| #[trigger] matches_at(s, target, i)
}

/// Whether an error message reads as a lost connection: it mentions
/// `connection`, `closed`, `timeout`, `transport`, `io error` or
/// `broken pipe`, in any case.
pub open spec fn is_connection_message(s: Seq<char>) -> bool {
    ||| contains_lowercase(s, "connection"@)
    ||| contains_lowercase(s, "closed"@)
    ||| contains_lowercase(s, "timeout"@)
    ||| contains_lowercase(s, "transport"@)
    ||| contains_lowercase(s, "io error"@)
    ||| contains_lowercase(s, "broken pipe"@)
}

fn contains_lowercase_exec(s: &Vec<char>, target: &str) -> (r: bool)
    ensures
        r == contains_lowercase(s@, target@),
{
    let t = crate::text::to_chars(target);
    if t.len() > s.len() {
        return false;
    }
    let mut i: usize = 0;
    while i <= s.len() - t.len()
        invariant
            t@ == target@,
            t.len() <= s.len(),
            i <= s.len(),
            forall|k: int| 0 <= k < i ==> !#[trigger] matches_at(s@, t@, k),
        decreases s.len() - i,
    {
        let mut j: usize = 0;
        let mut ok = true;
        while j < t.len()
            invariant
                i + t.len() <= s.len(),
                j <= t.len(),
                ok == (forall|m: int| 0 <= m < j ==> lowers_to(#[trigger] s@[i + m], t@[m])),
            decreases t.len() - j,
        {
            let one = crate::types::lowers_to_exec(s[i + j], t[j]);
            ok = ok && one;
            j += 1;
        }
        let ghost sub = s@.subrange(i as int, i + t@.len());
        if ok {
            proof {
                assert forall|m: int| 0 <= m < sub.len() implies lowers_to(#[trigger] sub[m], t@[m]) by {
                    assert(sub[m] == s@[i + m]);
                }
                assert(matches_at(s@, t@, i as int));
            }
            return true;
        }
        proof {
            if matches_at(s@, t@, i as int) {
                assert forall|m: int| 0 <= m < t@.len() implies lowers_to(#[trigger] s@[i + m], t@[m]) by {
                    assert(sub[m] == s@[i + m]);
                    assert(lowers_to(sub[m], t@[m]));
                }
            }
        }
        i += 1;
    }
    proof {
        assert forall|k: int| !#[trigger] matches_at(s@, target@, k) by {
            if 0 <= k && k + target@.len() <= s@.len() {
                assert(k < i);
            }
        }
    }
    false
}

/// Whether an error message reads as a lost connection.
pub fn is_connection_error_message(message: &str) -> (r: bool)
    ensures
        r == is_connection_message(message@),
{
    let v = crate::text::to_chars(message);
    contains_lowercase_exec(&v, "connection") || contains_lowercase_exec(&v, "closed")
        || contains_lowercase_exec(&v, "timeout") || contains_lowercase_exec(&v, "transport")
        || contains_lowercase_exec(&v, "io error") || contains_lowercase_exec(&v, "broken pipe")
}

/// Changes of a server's connection, pushed to the front end.
#[derive(Debug, Clone)]
pub enum McpEvent {
    Connected { name: String },
    Disconnected { name: String, reason: String },
    Reconnecting { name: String, attempt: u32 },
    Reconnected { name: String },
    /// Reconnecting failed for good; the breaker opens.
    ReconnectFailed { name: String, error: String },
    /// The server announced a change of its tool list.
    ToolsChanged { name: String },
}

/// The state of a managed server.
#[derive(Debug, Clone)]
pub enum ServerState {
    Pending,
    Installing,
    Connecting,
    Connected,
    Disconnected { reason: String },
    Failed { error: String },
    Stopped,
}

impl Default for ServerState {
    /// Pending.
    fn default() -> (r: Self)
        ensures
            r is Pending,
    {
        ServerState::Pending
    }
}

/// A managed server: its configuration, state and tool count.
#[derive(Debug, Clone)]
pub struct ServerInfo {
    pub config: McpServerConfig,
    pub state: ServerState,
    pub tool_count: usize,
}

/// A request to connect a server.
#[derive(Debug, Clone)]
pub struct ConnectRequest {
    pub service_id: String,
    /// A display name; the id serves when absent.
    pub name: Option<String>,
    pub config: McpServerConfig,
}

/// A request for a server's tools.
#[derive(Debug, Clone)]
pub struct ListToolsRequest {
    pub service_id: String,
    /// Whether to bypass the cache.
    pub force_refresh: bool,
}

/// A request to call a tool of a server.
#[derive(Debug)]
pub struct CallToolRequest {
    pub service_id: String,
    pub tool_name: String,
    pub arguments: Value,
}

/// A tool with the server it comes from.
#[derive(Debug, Clone)]
pub struct ToolWithSource {
    pub server_id: String,
    pub server_name: String,
    pub name: String,
    pub description: Option<String>,
    /// The tool's input schema (JSON Schema).
    pub input_schema: Value,
}

/// Lifecycle of stdio server processes.
pub struct StdioProcessManager;

impl StdioProcessManager {
    /// The arguments of a version check: at most the first two arguments,
    /// then `--version`.
    pub fn version_args(args: &[String]) -> (r: Vec<String>)
        ensures
            r@.len() == (if args@.len() < 2 { args@.len() } else { 2 }) + 1,
            forall|i: int| 0 <= i < r@.len() - 1 ==> r@[i] == args@[i],
            r@.last()@ == "--version"@,
    {
        let mut out: Vec<String> = Vec::new();
        let mut i: usize = 0;
        while i < args.len() && i < 2
            invariant
                i <= args.len(),
                i <= 2,
                out@.len() == i,
                forall|k: int| 0 <= k < i ==> out@[k] == args@[k],
            decreases 2 - i,
        {
            out.push(args[i].clone());
            i += 1;
        }
        out.push(owned("--version"));
        out
    }
}

// ---------------------------------------------------------------------------
// Operation queue
// ---------------------------------------------------------------------------

/// An operation on a server.
#[derive(Debug, Clone)]
pub enum QueueItem {
    Create { id: String, config: McpServerConfig },
    /// Stop, then create.
    Update { id: String, config: McpServerConfig },
    Reconnect { id: String },
    Stop { id: String },
    Remove { id: String },
}

/// The server an operation is about.
pub open spec fn item_server(item: QueueItem) -> Seq<char> {
    match item {
        QueueItem::Create { id, .. } => id@,
        QueueItem::Update { id, .. } => id@,
        QueueItem::Reconnect { id } => id@,
        QueueItem::Stop { id } => id@,
        QueueItem::Remove { id } => id@,
    }
}

impl QueueItem {
    /// The id of the server the operation is about.
    pub fn server_id(&self) -> (r: &str)
        ensures
            r@ == item_server(*self),
    {
        match self {
            QueueItem::Create { id, .. } => id.as_str(),
            QueueItem::Update { id, .. } => id.as_str(),
            QueueItem::Reconnect { id } => id.as_str(),
            QueueItem::Stop { id } => id.as_str(),
            QueueItem::Remove { id } => id.as_str(),
        }
    }

    /// The configuration carried by a create or update.
    pub fn config(&self) -> (r: Option<&McpServerConfig>)
        ensures
            match *self {
                QueueItem::Create { config, .. } => r == Some(&config),
                QueueItem::Update { config, .. } => r == Some(&config),
                _ => r is None,
            },
    {
        match self {
            QueueItem::Create { config, .. } => Some(config),
            QueueItem::Update { config, .. } => Some(config),
            _ => None,
        }
    }
}

/// The operations waiting for `id`, oldest first.
pub open spec fn queue_of(entries: Seq<(Seq<char>, Seq<QueueItem>)>, id: Seq<char>) -> Seq<QueueItem>
    decreases entries.len(),
{
    if entries.len() == 0 {
        Seq::empty()
    } else if entries[0].0 == id {
        entries[0].1
    } else {
        queue_of(entries.drop_first(), id)
    }
}

/// The operations waiting per server, each server's in arrival order.
pub struct PendingOps {
    entries: Vec<(String, Vec<QueueItem>)>,
}

/// The plain view of one entry.
pub open spec fn entry_view(e: (String, Vec<QueueItem>)) -> (Seq<char>, Seq<QueueItem>) {
    (e.0@, e.1@)
}

impl View for PendingOps {
    type V = Seq<(Seq<char>, Seq<QueueItem>)>;

    closed spec fn view(&self) -> Seq<(Seq<char>, Seq<QueueItem>)> {
        self.entries@.map_values(|e: (String, Vec<QueueItem>)| entry_view(e))
    }
}

/// `queue_of` at index `i` and on.
proof fn lemma_queue_of_skip(entries: Seq<(Seq<char>, Seq<QueueItem>)>, id: Seq<char>, i: int)
    requires
        0 <= i <= entries.len(),
        forall|k: int| 0 <= k < i ==> #[trigger] entries[k].0 != id,
    ensures
        queue_of(entries, id) == queue_of(entries.skip(i), id),
    decreases i,
{
    if i > 0 {
        assert(entries[0].0 != id);
        let d = entries.drop_first();
        assert forall|k: int| 0 <= k < i - 1 implies #[trigger] d[k].0 != id by {
            assert(d[k] == entries[k + 1]);
        }
        assert(queue_of(entries, id) == queue_of(d, id));
        lemma_queue_of_skip(d, id, i - 1);
        assert(d.skip(i - 1) =~= entries.skip(i));
    } else {
        assert(entries.skip(0) =~= entries);
    }
}

/// Updating entry `i`, the first with key `id`, changes only `id`'s queue.
proof fn lemma_queue_of_update(entries: Seq<(Seq<char>, Seq<QueueItem>)>, id: Seq<char>, i: int, q: Seq<QueueItem>, k: Seq<char>)
    requires
        0 <= i < entries.len(),
        entries[i].0 == id,
        forall|m: int| 0 <= m < i ==> #[trigger] entries[m].0 != id,
    ensures
        queue_of(entries.update(i, (id, q)), k) == (if k == id { q } else { queue_of(entries, k) }),
    decreases i,
{
    let u = entries.update(i, (id, q));
    if i == 0 {
        if k != id {
            assert(u.drop_first() =~= entries.drop_first());
        }
    } else {
        assert(u[0] == entries[0]);
        if entries[0].0 != k {
            let d = entries.drop_first();
            assert forall|m: int| 0 <= m < i - 1 implies #[trigger] d[m].0 != id by {
                assert(d[m] == entries[m + 1]);
            }
            assert(u.drop_first() =~= d.update(i - 1, (id, q)));
            lemma_queue_of_update(d, id, i - 1, q, k);
        } else {
            assert(k != id);
        }
    }
}

/// Removing entry `i`, the first with key `id`, empties only `id`'s queue.
proof fn lemma_queue_of_remove(entries: Seq<(Seq<char>, Seq<QueueItem>)>, id: Seq<char>, i: int, k: Seq<char>)
    requires
        0 <= i < entries.len(),
        entries[i].0 == id,
        forall|m: int| 0 <= m < i ==> #[trigger] entries[m].0 != id,
        forall|m: int| 0 <= m < entries.len() && m != i ==> #[trigger] entries[m].0 != id,
    ensures
        queue_of(entries.remove(i), k) == (if k == id { Seq::<QueueItem>::empty() } else { queue_of(entries, k) }),
    decreases entries.len(),
{
    let r = entries.remove(i);
    if i == 0 {
        assert(r =~= entries.drop_first());
        if k == id {
            lemma_queue_of_absent(r, id);
        }
    } else {
        assert(r[0] == entries[0]);
        if entries[0].0 != k {
            let d = entries.drop_first();
            assert forall|m: int| 0 <= m < i - 1 implies #[trigger] d[m].0 != id by {
                assert(d[m] == entries[m + 1]);
            }
            assert forall|m: int| 0 <= m < d.len() && m != i - 1 implies #[trigger] d[m].0 != id by {
                assert(d[m] == entries[m + 1]);
            }
            assert(r.drop_first() =~= d.remove(i - 1));
            lemma_queue_of_remove(d, id, i - 1, k);
        }
    }
}

/// A key that no entry holds has an empty queue.
proof fn lemma_queue_of_absent(entries: Seq<(Seq<char>, Seq<QueueItem>)>, id: Seq<char>)
    requires
        forall|m: int| 0 <= m < entries.len() ==> #[trigger] entries[m].0 != id,
    ensures
        queue_of(entries, id) == Seq::<QueueItem>::empty(),
    decreases entries.len(),
{
    if entries.len() > 0 {
        let d = entries.drop_first();
        assert forall|m: int| 0 <= m < d.len() implies #[trigger] d[m].0 != id by {
            assert(d[m] == entries[m + 1]);
        }
        lemma_queue_of_absent(d, id);
    }
}

/// Appending an entry with a new key adds only that key's queue.
proof fn lemma_queue_of_push(entries: Seq<(Seq<char>, Seq<QueueItem>)>, id: Seq<char>, q: Seq<QueueItem>, k: Seq<char>)
    requires
        forall|m: int| 0 <= m < entries.len() ==> #[trigger] entries[m].0 != id,
    ensures
        queue_of(entries.push((id, q)), k) == (if k == id { q } else { queue_of(entries, k) }),
    decreases entries.len(),
{
    let p = entries.push((id, q));
    if entries.len() == 0 {
        assert(p[0] == (id, q));
        if k != id {
            assert(p.drop_first() =~= Seq::<(Seq<char>, Seq<QueueItem>)>::empty());
            assert(queue_of(p.drop_first(), k) == Seq::<QueueItem>::empty());
        }
    } else {
        let d = entries.drop_first();
        assert forall|m: int| 0 <= m < d.len() implies #[trigger] d[m].0 != id by {
            assert(d[m] == entries[m + 1]);
        }
        assert(p.drop_first() =~= d.push((id, q)));
        assert(p[0] == entries[0]);
        assert(entries[0].0 != id);
        if entries[0].0 != k {
            lemma_queue_of_push(d, id, q, k);
            assert(queue_of(p, k) == queue_of(p.drop_first(), k));
        }
    }
}

impl PendingOps {
    #[verifier::type_invariant]
    spec fn inv(self) -> bool {
        &&& forall|a: int, b: int|
            0 <= a < b < self.entries@.len() ==> #[trigger] self.entries@[a].0@ != #[trigger] self.entries@[b].0@
    }

    /// No pending operations.
    pub fn new() -> (r: Self)
        ensures
            r@.len() == 0,
            forall|id: Seq<char>| #[trigger] queue_of(r@, id).len() == 0,
    {
        let r = PendingOps { entries: Vec::new() };
        assert forall|id: Seq<char>| #[trigger] queue_of(r@, id).len() == 0 by {
            assert(r@.len() == 0);
        }
        r
    }

    /// The index of `id`'s entry.
    fn find(&self, id: &str) -> (r: Option<usize>)
        ensures
            match r {
                Some(i) => i < self.entries@.len() && self@[i as int].0 == id@ && forall|m: int|
                    0 <= m < self@.len() && m != i ==> #[trigger] self@[m].0 != id@,
                None => forall|m: int| 0 <= m < self@.len() ==> #[trigger] self@[m].0 != id@,
            },
    {
        proof {
            use_type_invariant(self);
        }
        let key = owned(id);
        let mut i: usize = 0;
        while i < self.entries.len()
            invariant
                i <= self.entries@.len(),
                key@ == id@,
                forall|m: int| 0 <= m < i ==> #[trigger] self@[m].0 != id@,
            decreases self.entries.len() - i,
        {
            assert(self@[i as int] == entry_view(self.entries@[i as int]));
            if self.entries[i].0 == key {
                proof {
                    use_type_invariant(self);
                    assert forall|m: int| 0 <= m < self@.len() && m != i implies #[trigger] self@[m].0 != id@ by {
                        assert(self@[m] == entry_view(self.entries@[m]));
                        if m < i {
                        } else {
                            assert(self.entries@[i as int].0@ != self.entries@[m].0@);
                        }
                    }
                }
                return Some(i);
            }
            i += 1;
        }
        None
    }

    /// Queues `item` behind the other operations on its server.
    pub fn enqueue(&mut self, item: QueueItem)
        ensures
            forall|k: Seq<char>| #[trigger] queue_of(final(self)@, k) == (if k == item_server(item) {
                queue_of(old(self)@, k).push(item)
            } else {
                queue_of(old(self)@, k)
            }),
    {
        proof {
            use_type_invariant(&*self);
        }
        let ghost old_v = self@;
        let ghost id = item_server(item);
        let key = owned(item.server_id());
        match self.find(key.as_str()) {
            Some(i) => {
                let ghost q = self@[i as int].1;
                proof {
                    lemma_queue_of_skip(old_v, id, i as int);
                    assert(old_v.skip(i as int)[0] == old_v[i as int]);
                }
                let mut entries: Vec<(String, Vec<QueueItem>)> = Vec::new();
                std::mem::swap(&mut entries, &mut self.entries);
                let ghost before = entries@;
                let (k, mut items) = entries.remove(i);
                items.push(item);
                entries.insert(i, (k, items));
                proof {
                    assert(entries@ =~= before.update(i as int, entries@[i as int]));
                    assert forall|a: int, b: int| 0 <= a < b < entries@.len() implies #[trigger] entries@[a].0@ != #[trigger] entries@[b].0@ by {
                        assert(before[a].0@ != before[b].0@);
                    }
                }
                self.entries = entries;
                proof {
                    assert(self@ =~= old_v.update(i as int, (id, q.push(item))));
                    assert forall|k: Seq<char>| #[trigger] queue_of(self@, k) == (if k == id {
                        queue_of(old_v, k).push(item)
                    } else {
                        queue_of(old_v, k)
                    }) by {
                        lemma_queue_of_update(old_v, id, i as int, q.push(item), k);
                    }
                }
            },
            None => {
                let mut items: Vec<QueueItem> = Vec::new();
                items.push(item);
                let mut entries: Vec<(String, Vec<QueueItem>)> = Vec::new();
                std::mem::swap(&mut entries, &mut self.entries);
                let ghost before = entries@;
                entries.push((key, items));
                proof {
                    assert forall|a: int, b: int| 0 <= a < b < entries@.len() implies #[trigger] entries@[a].0@ != #[trigger] entries@[b].0@ by {
                        if b < before.len() {
                            assert(before[a].0@ != before[b].0@);
                        } else {
                            assert(old_v[a] == entry_view(before[a]));
                            assert(old_v[a].0 != id);
                            assert(entries@[b].0@ == id);
                        }
                    }
                }
                self.entries = entries;
                proof {
                    assert(self@ =~= old_v.push((id, seq![item])));
                    lemma_queue_of_absent(old_v, id);
                    assert forall|k: Seq<char>| #[trigger] queue_of(self@, k) == (if k == id {
                        queue_of(old_v, k).push(item)
                    } else {
                        queue_of(old_v, k)
                    }) by {
                        lemma_queue_of_push(old_v, id, seq![item], k);
                        assert(Seq::<QueueItem>::empty().push(item) =~= seq![item]);
                    }
                }
            },
        }
    }

    /// Whether operations on `server_id` are waiting.
    pub fn is_processing(&self, server_id: &str) -> (r: bool)
        ensures
            r == (queue_of(self@, server_id@).len() > 0),
    {
        match self.find(server_id) {
            Some(i) => {
                proof {
                    lemma_queue_of_skip(self@, server_id@, i as int);
                    assert(self@.skip(i as int)[0] == self@[i as int]);
                    assert(self@[i as int] == entry_view(self.entries@[i as int]));
                }
                self.entries[i].1.len() > 0
            },
            None => {
                proof {
                    lemma_queue_of_absent(self@, server_id@);
                }
                false
            },
        }
    }

    /// Drops every operation waiting for `server_id`.
    pub fn remove_pending(&mut self, server_id: &str)
        ensures
            forall|k: Seq<char>| #[trigger] queue_of(final(self)@, k) == (if k == server_id@ {
                Seq::<QueueItem>::empty()
            } else {
                queue_of(old(self)@, k)
            }),
    {
        proof {
            use_type_invariant(&*self);
        }
        let ghost old_v = self@;
        match self.find(server_id) {
            Some(i) => {
                let mut entries: Vec<(String, Vec<QueueItem>)> = Vec::new();
                std::mem::swap(&mut entries, &mut self.entries);
                let ghost before = entries@;
                let _ = entries.remove(i);
                proof {
                    assert forall|a: int, b: int| 0 <= a < b < entries@.len() implies #[trigger] entries@[a].0@ != #[trigger] entries@[b].0@ by {
                        let aa = if a < i { a } else { a + 1 };
                        let bb = if b < i { b } else { b + 1 };
                        assert(entries@[a] == before[aa]);
                        assert(entries@[b] == before[bb]);
                        assert(before[aa].0@ != before[bb].0@);
                    }
                }
                self.entries = entries;
                proof {
                    assert(self@ =~= old_v.remove(i as int));
                    assert forall|k: Seq<char>| #[trigger] queue_of(self@, k) == (if k == server_id@ {
                        Seq::<QueueItem>::empty()
                    } else {
                        queue_of(old_v, k)
                    }) by {
                        lemma_queue_of_remove(old_v, server_id@, i as int, k);
                    }
                }
            },
            None => {
                proof {
                    lemma_queue_of_absent(old_v, server_id@);
                }
            },
        }
    }

    /// Marks the oldest operation on `server_id` done; a server with nothing
    /// left is dropped.
    pub fn mark_done(&mut self, server_id: &str)
        ensures
            forall|k: Seq<char>| #[trigger] queue_of(final(self)@, k) == (if k == server_id@ && queue_of(old(self)@, k).len() > 0 {
                queue_of(old(self)@, k).drop_first()
            } else {
                queue_of(old(self)@, k)
            }),
    {
        proof {
            use_type_invariant(&*self);
        }
        let ghost old_v = self@;
        let ghost id = server_id@;
        match self.find(server_id) {
            Some(i) => {
                let ghost q = self@[i as int].1;
                proof {
                    lemma_queue_of_skip(old_v, id, i as int);
                    assert(old_v.skip(i as int)[0] == old_v[i as int]);
                }
                let mut entries: Vec<(String, Vec<QueueItem>)> = Vec::new();
                std::mem::swap(&mut entries, &mut self.entries);
                let ghost before = entries@;
                let (k, mut items) = entries.remove(i);
                if items.len() > 0 {
                    items.remove(0);
                }
                let now_empty = items.len() == 0;
                let ghost newq = items@;
                if !now_empty {
                    entries.insert(i, (k, items));
                    proof {
                        assert(entries@ =~= before.update(i as int, entries@[i as int]));
                        assert forall|a: int, b: int| 0 <= a < b < entries@.len() implies #[trigger] entries@[a].0@ != #[trigger] entries@[b].0@ by {
                            assert(before[a].0@ != before[b].0@);
                        }
                    }
                    self.entries = entries;
                    proof {
                        assert(newq =~= q.drop_first());
                        assert(self@ =~= old_v.update(i as int, (id, newq)));
                        assert forall|kk: Seq<char>| #[trigger] queue_of(self@, kk) == (if kk == id && queue_of(old_v, kk).len() > 0 {
                            queue_of(old_v, kk).drop_first()
                        } else {
                            queue_of(old_v, kk)
                        }) by {
                            lemma_queue_of_update(old_v, id, i as int, newq, kk);
                        }
                    }
                } else {
                    proof {
                        assert forall|a: int, b: int| 0 <= a < b < entries@.len() implies #[trigger] entries@[a].0@ != #[trigger] entries@[b].0@ by {
                            let aa = if a < i { a } else { a + 1 };
                            let bb = if b < i { b } else { b + 1 };
                            assert(entries@[a] == before[aa]);
                            assert(entries@[b] == before[bb]);
                            assert(before[aa].0@ != before[bb].0@);
                        }
                    }
                    self.entries = entries;
                    proof {
                        assert(self@ =~= old_v.remove(i as int));
                        assert forall|kk: Seq<char>| #[trigger] queue_of(self@, kk) == (if kk == id && queue_of(old_v, kk).len() > 0 {
                            queue_of(old_v, kk).drop_first()
                        } else {
                            queue_of(old_v, kk)
                        }) by {
                            lemma_queue_of_remove(old_v, id, i as int, kk);
                            if kk == id && q.len() > 0 {
                                assert(q.drop_first() =~= Seq::<QueueItem>::empty());
                            }
                        }
                    }
                }
            },
            None => {
                proof {
                    lemma_queue_of_absent(old_v, id);
                }
            },
        }
    }
}

/// Law: operations on one server are done in the order they were queued; an
/// operation queued behind another is next once that one is done.
pub proof fn law_queue_fifo(q: Seq<QueueItem>, a: QueueItem, b: QueueItem)
    ensures
        q.push(a).push(b).drop_first() == (if q.len() == 0 {
            seq![b]
        } else {
            q.drop_first().push(a).push(b)
        }),
{
    if q.len() == 0 {
        assert(q.push(a).push(b).drop_first() =~= seq![b]);
    } else {
        assert(q.push(a).push(b).drop_first() =~= q.drop_first().push(a).push(b));
    }
}


// ---------------------------------------------------------------------------
// Heartbeat
// ---------------------------------------------------------------------------

/// What the heartbeat monitor does after a check.
#[derive(Debug, Clone, Copy, PartialEq, Eq, Structural)]
pub enum HeartbeatAction {
    /// Stop monitoring.
    Stop,
    /// Sleep for the interval, then check again.
    Wait,
    /// The connection died: try to re-establish it.
    Reconnect,
    /// The connection died and is not re-established: report it, then stop.
    ReportDisconnected,
}

/// The heartbeat monitor of a connection.
pub struct HeartbeatMonitor {
    /// Checks in a row that found the connection dead.
    pub consecutive_failures: u32,
    pub auto_reconnect: bool,
}

/// The reason reported when the heartbeat finds the connection dead and does
/// not reconnect.
pub open spec fn died_reason() -> Seq<char> {
    "heartbeat detected connection died"@
}

impl HeartbeatMonitor {
    /// A monitor with no failures yet.
    pub fn new(config: &HeartbeatConfig) -> (r: HeartbeatMonitor)
        ensures
            r.consecutive_failures == 0,
            r.auto_reconnect == config.auto_reconnect,
    {
        HeartbeatMonitor { consecutive_failures: 0, auto_reconnect: config.auto_reconnect }
    }

    /// One check: a stopped monitor stops; a connection marked connected
    /// but found dead counts as a failure and is re-established (or
    /// reported, without auto-reconnect); a live one clears the failures;
    /// otherwise the monitor waits.
    pub fn on_tick(&mut self, running: bool, connected: bool, alive: bool) -> (r: HeartbeatAction)
        requires
            old(self).consecutive_failures < u32::MAX,
        ensures
            !running ==> r == HeartbeatAction::Stop && final(self).consecutive_failures == old(self).consecutive_failures,
            running && connected && !alive ==> final(self).consecutive_failures == old(self).consecutive_failures + 1 && r == (if old(self).auto_reconnect {
                HeartbeatAction::Reconnect
            } else {
                HeartbeatAction::ReportDisconnected
            }),
            running && connected && alive ==> final(self).consecutive_failures == 0 && r == HeartbeatAction::Wait,
            running && !connected ==> final(self).consecutive_failures == old(self).consecutive_failures && r == HeartbeatAction::Wait,
            final(self).auto_reconnect == old(self).auto_reconnect,
    {
        if !running {
            return HeartbeatAction::Stop;
        }
        if connected {
            if !alive {
                self.consecutive_failures = self.consecutive_failures + 1;
                if self.auto_reconnect {
                    return HeartbeatAction::Reconnect;
                } else {
                    return HeartbeatAction::ReportDisconnected;
                }
            } else {
                self.consecutive_failures = 0;
            }
        }
        HeartbeatAction::Wait
    }

    /// The outcome of re-establishing: success clears the failures and the
    /// monitor goes on; failure stops it.
    pub fn on_reconnect(&mut self, success: bool) -> (r: HeartbeatAction)
        ensures
            success ==> r == HeartbeatAction::Wait && final(self).consecutive_failures == 0,
            !success ==> r == HeartbeatAction::Stop && final(self).consecutive_failures == old(self).consecutive_failures,
            final(self).auto_reconnect == old(self).auto_reconnect,
    {
        if success {
            self.consecutive_failures = 0;
            HeartbeatAction::Wait
        } else {
            HeartbeatAction::Stop
        }
    }
}

/// The attempts of an automatic reconnection: numbered from 1 up to the
/// configured maximum, with an exponential back-off after each failure.
pub struct ReconnectAttempts {
    attempt: u32,
    max: u32,
}

/// The error reported when every reconnection attempt failed.
pub open spec fn exhausted_error() -> Seq<char> {
    "max auto-reconnect attempts exceeded"@
}

impl ReconnectAttempts {
    /// The attempts allowed by `config`; none without auto-reconnect.
    pub fn new(config: &HeartbeatConfig) -> (r: ReconnectAttempts)
        ensures
            r.made() == 0,
            r.limit() == (if config.auto_reconnect { config.max_auto_reconnect } else { 0 }),
    {
        ReconnectAttempts { attempt: 0, max: if config.auto_reconnect { config.max_auto_reconnect } else { 0 } }
    }

    /// Attempts made so far.
    pub closed spec fn made(&self) -> u32 {
        self.attempt
    }

    /// Attempts allowed.
    pub closed spec fn limit(&self) -> u32 {
        self.max
    }

    /// The number of the next attempt, if one is left.
    pub fn next_attempt(&mut self) -> (r: Option<u32>)
        ensures
            old(self).made() < old(self).limit() ==> r == Some((old(self).made() + 1) as u32) && final(self).made()
                == old(self).made() + 1,
            old(self).made() >= old(self).limit() ==> r is None && final(self).made() == old(self).made(),
            final(self).limit() == old(self).limit(),
    {
        if self.attempt < self.max {
            self.attempt = self.attempt + 1;
            Some(self.attempt)
        } else {
            None
        }
    }

    /// The back-off after attempt `attempt` failed (see [`backoff_secs`]).
    pub fn backoff_after(&self, attempt: u32) -> (r: u64)
        requires
            attempt < 64,
        ensures
            r == backoff_secs(attempt as nat),
    {
        reconnect_backoff_secs(attempt)
    }

    /// The events of the outcome: `Reconnected` on success, else, when
    /// every attempt failed, `ReconnectFailed`.
    pub fn outcome_event(&self, name: &str, success: bool) -> (r: McpEvent)
        ensures
            success ==> (r matches McpEvent::Reconnected { name: n } && n@ == name@),
            !success ==> (r matches McpEvent::ReconnectFailed { name: n, error } && n@ == name@ && error@ == exhausted_error()),
    {
        if success {
            McpEvent::Reconnected { name: owned(name) }
        } else {
            McpEvent::ReconnectFailed { name: owned(name), error: owned("max auto-reconnect attempts exceeded") }
        }
    }
}

/// The event of a connection the heartbeat found dead.
pub fn died_event(name: &str) -> (r: McpEvent)
    ensures
        r matches McpEvent::Disconnected { name: n, reason } && n@ == name@ && reason@ == died_reason(),
{
    McpEvent::Disconnected { name: owned(name), reason: owned("heartbeat detected connection died") }
}

/// The search path of a Windows server process: the key directories first,
/// then the current entries, each entry once.
pub open spec fn merged_paths(key: Seq<Seq<char>>, current: Seq<Seq<char>>) -> Seq<Seq<char>>
    decreases current.len(),
{
    if current.len() == 0 {
        key
    } else {
        let m = merged_paths(key, current.drop_last());
        if m.contains(current.last()) {
            m
        } else {
            m.push(current.last())
        }
    }
}

/// Merges the key directories with the current search path (see
/// [`merged_paths`]).
pub fn merge_search_paths(key_paths: Vec<String>, current: &[String]) -> (r: Vec<String>)
    ensures
        r@.map_values(|p: String| p@) == merged_paths(key_paths@.map_values(|p: String| p@), current@.map_values(|p: String| p@)),
{
    let ghost key = key_paths@.map_values(|p: String| p@);
    let ghost cur = current@.map_values(|p: String| p@);
    let mut paths = key_paths;
    let mut i: usize = 0;
    assert(cur.take(0).len() == 0);
    while i < current.len()
        invariant
            i <= current@.len(),
            cur == current@.map_values(|p: String| p@),
            paths@.map_values(|p: String| p@) == merged_paths(key, cur.take(i as int)),
        decreases current.len() - i,
    {
        let ghost before = paths@.map_values(|p: String| p@);
        let p = &current[i];
        let mut found = false;
        let mut j: usize = 0;
        while j < paths.len()
            invariant
                j <= paths@.len(),
                before == paths@.map_values(|p: String| p@),
                found == (exists|k: int| 0 <= k < j && #[trigger] before[k] == p@),
            decreases paths.len() - j,
        {
            if paths[j] == *p {
                assert(before[j as int] == p@);
                found = true;
            }
            j += 1;
        }
        assert(cur.take(i + 1).drop_last() =~= cur.take(i as int));
        assert(cur.take(i + 1).last() == p@);
        if !found {
            paths.push(owned(p.as_str()));
            assert(paths@.map_values(|p: String| p@) =~= before.push(p@));
        } else {
            assert(before.contains(p@));
        }
        i += 1;
    }
    assert(cur.take(i as int) =~= cur);
    paths
}

/// Whether a file with this extension must run through `cmd /c` (a batch
/// file: `.cmd` or `.bat`, in any case).
pub fn is_batch_extension(ext: &str) -> (r: bool)
    ensures
        r == (lowercase_eq(ext@, ".cmd"@) || lowercase_eq(ext@, ".bat"@)),
{
    let v = crate::text::to_chars(ext);
    crate::types::lowercase_eq_exec(&v, ".cmd") || crate::types::lowercase_eq_exec(&v, ".bat")
}

} // verus!
