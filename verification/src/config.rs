//! The relay's configuration: what a parsed document must satisfy, and what
//! the relay works with once it does.

use std::time::Duration;

use vstd::hash_map::StringHashMap;
use vstd::prelude::*;

use crate::address::SocketAddr;
use crate::error::io_error_text;
use crate::hostname::normalize_route_name;

verus! {

/// The least limit on the bytes of a ClientHello.
pub const MIN_HELLO_BYTES: usize = 4096;

/// The greatest limit on the bytes of a ClientHello.
pub const MAX_HELLO_BYTES: usize = 262_144;

/// The greatest sum of the admission limits.
pub const MAX_ADMISSION_CONNECTIONS: usize = 75_000;

/// A JSON error, carried along unread.
#[verifier::external_type_specification]
#[verifier::external_body]
pub struct ExJsonError(serde_json::Error);

/// How many connections may be where at one time.
#[derive(Clone, Copy, Debug, PartialEq, Eq, Structural)]
pub struct Admission {
    pub pre_parse_max_connections: usize,
    pub routed_max_connections: usize,
    pub routed_max_connections_per_source: usize,
    pub fallback_max_connections: usize,
}

/// The marks of the two sockets of a routed connection.
#[derive(Clone, Copy, Debug, PartialEq, Eq, Structural)]
pub struct SocketMarks {
    pub upload: u32,
    pub download: u32,
}

/// Where the connections for a hostname go.
#[derive(Clone, Copy, Debug, PartialEq, Eq, Structural)]
pub enum Route {
    Plain(SocketAddr),
    Marked { upstream: SocketAddr, socket_marks: SocketMarks },
}

/// Where connections without a route go.
#[derive(Clone, Copy, Debug, PartialEq, Eq, Structural)]
pub struct Fallbacks {
    pub unknown_sni: SocketAddr,
    pub no_sni: SocketAddr,
    pub plain_http: SocketAddr,
}

/// Bounds on what one connection may take.
#[derive(Clone, Copy, Debug, PartialEq, Eq, Structural)]
pub struct Limits {
    pub client_hello_max_bytes: usize,
    pub client_hello_timeout_ms: u64,
    pub connect_timeout_ms: u64,
    pub half_close_timeout_ms: u64,
    pub fallback_lifetime_timeout_ms: u64,
}

/// Why there is no configuration.
#[derive(Debug)]
pub enum ConfigError {
    Read { path: String, source: std::io::Error },
    Json(serde_json::Error),
    Validation(String),
}

/// A configuration as it was written down, with the routes in the order in
/// which they are looked at.
#[derive(Debug)]
pub struct ConfigDocument {
    pub bind: SocketAddr,
    pub allow_redirect_ingress_bind: bool,
    pub health_bind: SocketAddr,
    pub routes: Vec<(String, Route)>,
    pub fallbacks: Fallbacks,
    pub admission: Admission,
    pub limits: Limits,
}

/// A configuration that the relay works with. The routes are keyed by hostnames
/// in their normal form.
pub struct Config {
    pub bind: SocketAddr,
    pub allow_redirect_ingress_bind: bool,
    pub health_bind: SocketAddr,
    pub routes: StringHashMap<Route>,
    pub fallbacks: Fallbacks,
    pub admission: Admission,
    pub limits: Limits,
}

pub fn default_pre_parse_max_connections() -> (n: usize)
    ensures
        n == 2_048,
{
    2_048
}

pub fn default_routed_max_connections() -> (n: usize)
    ensures
        n == 36_000,
{
    36_000
}

pub fn default_routed_max_connections_per_source() -> (n: usize)
    ensures
        n == 128,
{
    128
}

pub fn default_fallback_max_connections() -> (n: usize)
    ensures
        n == 256,
{
    256
}

pub fn default_hello_max() -> (n: usize)
    ensures
        n == 65_536,
{
    65_536
}

pub fn default_hello_timeout() -> (ms: u64)
    ensures
        ms == 3_000,
{
    3_000
}

pub fn default_connect_timeout() -> (ms: u64)
    ensures
        ms == 3_000,
{
    3_000
}

pub fn default_half_close_timeout() -> (ms: u64)
    ensures
        ms == 10_000,
{
    10_000
}

pub fn default_fallback_lifetime_timeout() -> (ms: u64)
    ensures
        ms == 5_000,
{
    5_000
}

impl Default for Admission {
    fn default() -> (admission: Self)
        ensures
            admission == (Admission {
                pre_parse_max_connections: 2_048,
                routed_max_connections: 36_000,
                routed_max_connections_per_source: 128,
                fallback_max_connections: 256,
            }),
    {
        Admission {
            pre_parse_max_connections: default_pre_parse_max_connections(),
            routed_max_connections: default_routed_max_connections(),
            routed_max_connections_per_source: default_routed_max_connections_per_source(),
            fallback_max_connections: default_fallback_max_connections(),
        }
    }
}

impl Default for Limits {
    fn default() -> (limits: Self)
        ensures
            limits == (Limits {
                client_hello_max_bytes: 65_536,
                client_hello_timeout_ms: 3_000,
                connect_timeout_ms: 3_000,
                half_close_timeout_ms: 10_000,
                fallback_lifetime_timeout_ms: 5_000,
            }),
    {
        Limits {
            client_hello_max_bytes: default_hello_max(),
            client_hello_timeout_ms: default_hello_timeout(),
            connect_timeout_ms: default_connect_timeout(),
            half_close_timeout_ms: default_half_close_timeout(),
            fallback_lifetime_timeout_ms: default_fallback_lifetime_timeout(),
        }
    }
}

impl Route {
    /// The upstream in a specification.
    pub open spec fn spec_upstream(&self) -> SocketAddr {
        match self {
            Route::Plain(upstream) => *upstream,
            Route::Marked { upstream, .. } => *upstream,
        }
    }

    /// The marks in a specification.
    pub open spec fn spec_socket_marks(&self) -> Option<SocketMarks> {
        match self {
            Route::Plain(_) => None,
            Route::Marked { socket_marks, .. } => Some(*socket_marks),
        }
    }

    /// Where the connections of the route go.
    #[verifier::when_used_as_spec(spec_upstream)]
    pub fn upstream(&self) -> (upstream: SocketAddr)
        ensures
            upstream == self.spec_upstream(),
    {
        match self {
            Route::Plain(upstream) => *upstream,
            Route::Marked { upstream, .. } => *upstream,
        }
    }

    /// The marks of the route's sockets, if it has any.
    #[verifier::when_used_as_spec(spec_socket_marks)]
    pub fn socket_marks(&self) -> (marks: Option<SocketMarks>)
        ensures
            marks == self.spec_socket_marks(),
    {
        match self {
            Route::Plain(_) => None,
            Route::Marked { socket_marks, .. } => Some(*socket_marks),
        }
    }
}

/// The first of two problems.
pub open spec fn first_problem(a: Option<Seq<char>>, b: Option<Seq<char>>) -> Option<Seq<char>> {
    match a {
        Some(message) => Some(message),
        None => b,
    }
}

/// What is wrong with an address that must be a loopback one.
pub open spec fn loopback_problem(field: Seq<char>, address: SocketAddr) -> Option<Seq<char>> {
    if address.port() == 0 {
        Some(field + " must use a non-zero port"@)
    } else if !crate::address::loopback(address.ip()) {
        Some(field + " must use a loopback IP"@)
    } else {
        None
    }
}

/// What is wrong with an address that redirected connections come in on.
pub open spec fn redirect_problem(address: SocketAddr) -> Option<Seq<char>> {
    if !crate::address::unspecified(address.ip()) || address.port() < 1024 {
        Some("redirect ingress bind must use a wildcard IP and unprivileged port"@)
    } else {
        None
    }
}

/// What is wrong with the addresses that the relay listens on.
pub open spec fn listener_problem(document: ConfigDocument) -> Option<Seq<char>> {
    first_problem(
        if document.allow_redirect_ingress_bind {
            redirect_problem(document.bind)
        } else {
            loopback_problem("bind"@, document.bind)
        },
        first_problem(
            loopback_problem("health_bind"@, document.health_bind),
            if document.bind == document.health_bind {
                Some("bind and health_bind must be different"@)
            } else {
                None
            },
        ),
    )
}

/// What is wrong with a route, its hostname aside.
pub open spec fn route_problem(route: Route) -> Option<Seq<char>> {
    first_problem(
        loopback_problem("route upstream"@, route.upstream()),
        match route.socket_marks() {
            Some(marks) => if marks.upload == 0 || marks.download == 0 || marks.upload
                == marks.download {
                Some("marked route requires distinct non-zero socket marks"@)
            } else {
                None
            },
            None => None,
        },
    )
}

/// The routes by normal hostname, or the problem of the first bad entry.
pub open spec fn route_table(routes: Seq<(String, Route)>) -> Result<
    Map<Seq<char>, Route>,
    Seq<char>,
>
    decreases routes.len(),
{
    if routes.len() == 0 {
        Ok(Map::empty())
    } else {
        match route_table(routes.drop_last()) {
            Err(message) => Err(message),
            Ok(table) => {
                let (name, route) = routes.last();
                match crate::hostname::normalized_route_name(name@) {
                    Err(message) => Err(message),
                    Ok(host) => match route_problem(route) {
                        Some(message) => Err(message),
                        None => if table.contains_key(host) {
                            Err("duplicate hostname after normalization: "@ + host)
                        } else {
                            Ok(table.insert(host, route))
                        },
                    },
                }
            },
        }
    }
}

/// What is wrong with the fallbacks.
pub open spec fn fallbacks_problem(fallbacks: Fallbacks) -> Option<Seq<char>> {
    first_problem(
        loopback_problem("fallbacks.unknown_sni"@, fallbacks.unknown_sni),
        first_problem(
            loopback_problem("fallbacks.no_sni"@, fallbacks.no_sni),
            loopback_problem("fallbacks.plain_http"@, fallbacks.plain_http),
        ),
    )
}

/// The connections that the three pools admit together.
pub open spec fn connection_budget(admission: Admission) -> int {
    admission.pre_parse_max_connections + admission.routed_max_connections
        + admission.fallback_max_connections
}

/// What is wrong with the admission limits.
pub open spec fn admission_problem(admission: Admission) -> Option<Seq<char>> {
    if admission.pre_parse_max_connections == 0 || admission.routed_max_connections == 0
        || admission.routed_max_connections_per_source == 0 || admission.fallback_max_connections
        == 0 {
        Some("admission limits must be greater than zero"@)
    } else if admission.routed_max_connections_per_source > admission.routed_max_connections {
        Some("routed_max_connections_per_source must not exceed routed_max_connections"@)
    } else if connection_budget(admission) > usize::MAX {
        Some("admission connection budget overflow"@)
    } else if connection_budget(admission) > MAX_ADMISSION_CONNECTIONS {
        Some("admission connection budget must not exceed 75000"@)
    } else {
        None
    }
}

/// What is wrong with the limits.
pub open spec fn limits_problem(limits: Limits) -> Option<Seq<char>> {
    if !(MIN_HELLO_BYTES <= limits.client_hello_max_bytes <= MAX_HELLO_BYTES) {
        Some("client_hello_max_bytes must be between 4096 and 262144"@)
    } else if limits.client_hello_timeout_ms == 0 || limits.connect_timeout_ms == 0
        || limits.half_close_timeout_ms == 0 || limits.fallback_lifetime_timeout_ms == 0 {
        Some("timeouts must be greater than zero"@)
    } else {
        None
    }
}

/// The first thing that is wrong with a document.
pub open spec fn document_problem(document: ConfigDocument) -> Option<Seq<char>> {
    first_problem(
        listener_problem(document),
        first_problem(
            match route_table(document.routes@) {
                Ok(_) => None,
                Err(message) => Some(message),
            },
            first_problem(
                fallbacks_problem(document.fallbacks),
                first_problem(
                    admission_problem(document.admission),
                    limits_problem(document.limits),
                ),
            ),
        ),
    )
}

/// The configuration says what the document says.
pub open spec fn says(config: Config, document: ConfigDocument) -> bool {
    &&& config.bind == document.bind
    &&& config.allow_redirect_ingress_bind == document.allow_redirect_ingress_bind
    &&& config.health_bind == document.health_bind
    &&& route_table(document.routes@) == Ok::<Map<Seq<char>, Route>, Seq<char>>(config.routes@)
    &&& config.fallbacks == document.fallbacks
    &&& config.admission == document.admission
    &&& config.limits == document.limits
}

/// The result of a check, as the problem that it found.
pub open spec fn problem_of(result: Result<(), ConfigError>) -> Option<Seq<char>> {
    match result {
        Ok(()) => None,
        Err(ConfigError::Validation(message)) => Some(message@),
        Err(_) => Some(Seq::empty()),
    }
}

/// A validation error.
pub open spec fn is_validation(result: Result<(), ConfigError>) -> bool {
    result matches Err(error) ==> error is Validation
}

fn refused(message: &str) -> (error: ConfigError)
    ensures
        error matches ConfigError::Validation(text) && text@ == message@,
{
    ConfigError::Validation(message.to_string())
}

/// Refuses an address that is not a loopback one.
pub fn ensure_loopback(field: &str, address: SocketAddr) -> (result: Result<(), ConfigError>)
    ensures
        is_validation(result),
        problem_of(result) == loopback_problem(field@, address),
{
    if address.port() == 0 {
        let mut message = field.to_string();
        message.append(" must use a non-zero port");
        return Err(ConfigError::Validation(message));
    }
    if !address.ip().is_loopback() {
        let mut message = field.to_string();
        message.append(" must use a loopback IP");
        return Err(ConfigError::Validation(message));
    }
    Ok(())
}

/// Refuses an address that redirected connections cannot come in on.
pub fn ensure_redirect_ingress_bind(address: SocketAddr) -> (result: Result<(), ConfigError>)
    ensures
        is_validation(result),
        problem_of(result) == redirect_problem(address),
{
    if !address.ip().is_unspecified() || address.port() < 1024 {
        return Err(
            refused("redirect ingress bind must use a wildcard IP and unprivileged port"),
        );
    }
    Ok(())
}

/// The normal form of a route name.
pub fn normalize_hostname(value: &str) -> (name: Result<String, ConfigError>)
    ensures
        match name {
            Ok(n) => crate::hostname::normalized_route_name(value@) == Ok::<Seq<char>, Seq<char>>(
                n@,
            ),
            Err(error) => error matches ConfigError::Validation(message)
                && crate::hostname::normalized_route_name(value@) == Err::<Seq<char>, Seq<char>>(
                message@,
            ),
        },
{
    match normalize_route_name(value) {
        Ok(name) => Ok(name),
        Err(message) => Err(ConfigError::Validation(message)),
    }
}

/// How long a duration is, in nanoseconds.
pub uninterp spec fn nanoseconds(duration: Duration) -> nat;

/// `Duration::from_millis` makes a duration of so many milliseconds.
pub assume_specification[ Duration::from_millis ](ms: u64) -> (duration: Duration)
    ensures
        nanoseconds(duration) == ms as nat * 1_000_000,
;

/// A duration is that of so many milliseconds.
pub open spec fn lasts(duration: Duration, ms: u64) -> bool {
    nanoseconds(duration) == ms as nat * 1_000_000
}

/// The refusal of a route whose hostname is taken.
fn duplicate(hostname: &str) -> (error: ConfigError)
    ensures
        error matches ConfigError::Validation(text) && text@
            == "duplicate hostname after normalization: "@ + hostname@,
{
    let mut message = "duplicate hostname after normalization: ".to_string();
    message.append(hostname);
    ConfigError::Validation(message)
}

/// Refuses a route that cannot be used, whatever its hostname.
fn check_route(route: Route) -> (result: Result<(), ConfigError>)
    ensures
        is_validation(result),
        problem_of(result) == route_problem(route),
{
    ensure_loopback("route upstream", route.upstream())?;
    if let Some(marks) = route.socket_marks() {
        if marks.upload == 0 || marks.download == 0 || marks.upload == marks.download {
            return Err(refused("marked route requires distinct non-zero socket marks"));
        }
    }
    Ok(())
}

/// The routes by normal hostname.
fn normalize_routes(routes: &Vec<(String, Route)>) -> (table: Result<
    StringHashMap<Route>,
    ConfigError,
>)
    ensures
        match table {
            Ok(t) => route_table(routes@) == Ok::<Map<Seq<char>, Route>, Seq<char>>(t@),
            Err(error) => error matches ConfigError::Validation(message) && route_table(routes@)
                == Err::<Map<Seq<char>, Route>, Seq<char>>(message@),
        },
{
    let mut normalized: StringHashMap<Route> = StringHashMap::with_capacity(routes.len());
    let mut i: usize = 0;
    while i < routes.len()
        invariant
            i <= routes@.len(),
            route_table(routes@.take(i as int)) == Ok::<Map<Seq<char>, Route>, Seq<char>>(
                normalized@,
            ),
        decreases routes@.len() - i,
    {
        let ghost here = routes@.take(i + 1);
        proof {
            assert(here.drop_last() =~= routes@.take(i as int));
            assert(here.last() == routes@[i as int]);
            lemma_route_table_stops(routes@, i + 1);
        }
        let hostname = normalize_hostname(routes[i].0.as_str())?;
        let route = routes[i].1;
        check_route(route)?;
        if normalized.contains_key(hostname.as_str()) {
            return Err(duplicate(hostname.as_str()));
        }
        normalized.insert(hostname, route);
        i += 1;
    }
    assert(routes@.take(i as int) =~= routes@);
    Ok(normalized)
}

/// The first bad entry decides.
pub proof fn lemma_route_table_stops(routes: Seq<(String, Route)>, n: int)
    requires
        0 <= n <= routes.len(),
    ensures
        route_table(routes.take(n)) is Err ==> route_table(routes) == route_table(routes.take(n)),
    decreases routes.len() - n,
{
    if n == routes.len() {
        assert(routes.take(n) =~= routes);
    } else {
        lemma_route_table_stops(routes, n + 1);
        assert(routes.take(n + 1).drop_last() =~= routes.take(n));
    }
}

/// Refuses admission limits that cannot be kept.
fn check_admission(admission: Admission) -> (result: Result<(), ConfigError>)
    ensures
        is_validation(result),
        problem_of(result) == admission_problem(admission),
{
    if admission.pre_parse_max_connections == 0 || admission.routed_max_connections == 0
        || admission.routed_max_connections_per_source == 0 || admission.fallback_max_connections
        == 0 {
        return Err(refused("admission limits must be greater than zero"));
    }
    if admission.routed_max_connections_per_source > admission.routed_max_connections {
        return Err(
            refused(
                "routed_max_connections_per_source must not exceed routed_max_connections",
            ),
        );
    }
    match budget_of(admission) {
        None => Err(refused("admission connection budget overflow")),
        Some(budget) => {
            if budget > MAX_ADMISSION_CONNECTIONS {
                Err(refused("admission connection budget must not exceed 75000"))
            } else {
                Ok(())
            }
        },
    }
}

/// The connections that the three pools admit together, where a `usize` holds
/// that number.
fn budget_of(admission: Admission) -> (budget: Option<usize>)
    ensures
        match budget {
            Some(n) => n == connection_budget(admission),
            None => connection_budget(admission) > usize::MAX,
        },
{
    let two = admission.pre_parse_max_connections.checked_add(admission.routed_max_connections)?;
    two.checked_add(admission.fallback_max_connections)
}

/// Refuses limits that are out of range.
fn check_limits(limits: Limits) -> (result: Result<(), ConfigError>)
    ensures
        is_validation(result),
        problem_of(result) == limits_problem(limits),
{
    if limits.client_hello_max_bytes < MIN_HELLO_BYTES || limits.client_hello_max_bytes
        > MAX_HELLO_BYTES {
        return Err(refused("client_hello_max_bytes must be between 4096 and 262144"));
    }
    if limits.client_hello_timeout_ms == 0 || limits.connect_timeout_ms == 0
        || limits.half_close_timeout_ms == 0 || limits.fallback_lifetime_timeout_ms == 0 {
        return Err(refused("timeouts must be greater than zero"));
    }
    Ok(())
}

impl Config {
    /// What holds of every configuration that the relay works with.
    pub open spec fn valid(&self) -> bool {
        &&& if self.allow_redirect_ingress_bind {
            crate::address::unspecified(self.bind.ip()) && self.bind.port() >= 1024
        } else {
            local(self.bind)
        }
        &&& local(self.health_bind)
        &&& self.bind != self.health_bind
        &&& forall|name: Seq<char>| #[trigger]
            self.routes@.contains_key(name) ==> {
                &&& crate::hostname::normalized_name(name) == Some(name)
                &&& local(self.routes@[name].upstream())
                &&& self.routes@[name].socket_marks() matches Some(marks) ==> marks.upload != 0
                    && marks.download != 0 && marks.upload != marks.download
            }
        &&& local(self.fallbacks.unknown_sni)
        &&& local(self.fallbacks.no_sni)
        &&& local(self.fallbacks.plain_http)
        &&& 0 < self.admission.pre_parse_max_connections
        &&& 0 < self.admission.routed_max_connections_per_source
            <= self.admission.routed_max_connections
        &&& 0 < self.admission.fallback_max_connections
        &&& connection_budget(self.admission) <= MAX_ADMISSION_CONNECTIONS
        &&& MIN_HELLO_BYTES <= self.limits.client_hello_max_bytes <= MAX_HELLO_BYTES
        &&& 0 < self.limits.client_hello_timeout_ms
        &&& 0 < self.limits.connect_timeout_ms
        &&& 0 < self.limits.half_close_timeout_ms
        &&& 0 < self.limits.fallback_lifetime_timeout_ms
    }

    /// The configuration that a document describes, with the hostnames in their
    /// normal form, or the first thing that is wrong with it.
    pub fn validate_and_normalize(document: ConfigDocument) -> (config: Result<Self, ConfigError>)
        ensures
            match config {
                Ok(c) => document_problem(document) is None && says(c, document) && c.valid(),
                Err(error) => error matches ConfigError::Validation(message) && document_problem(
                    document,
                ) == Some(message@),
            },
    {
        if document.allow_redirect_ingress_bind {
            ensure_redirect_ingress_bind(document.bind)?;
        } else {
            ensure_loopback("bind", document.bind)?;
        }
        ensure_loopback("health_bind", document.health_bind)?;
        if document.bind == document.health_bind {
            return Err(refused("bind and health_bind must be different"));
        }
        let routes = normalize_routes(&document.routes)?;
        ensure_loopback("fallbacks.unknown_sni", document.fallbacks.unknown_sni)?;
        ensure_loopback("fallbacks.no_sni", document.fallbacks.no_sni)?;
        ensure_loopback("fallbacks.plain_http", document.fallbacks.plain_http)?;
        check_admission(document.admission)?;
        check_limits(document.limits)?;
        let config = Config {
            bind: document.bind,
            allow_redirect_ingress_bind: document.allow_redirect_ingress_bind,
            health_bind: document.health_bind,
            routes,
            fallbacks: document.fallbacks,
            admission: document.admission,
            limits: document.limits,
        };
        proof {
            lemma_route_table_valid(document.routes@);
        }
        Ok(config)
    }

    /// The configuration that comes of parsing a document.
    pub fn from_parsed(parsed: Result<ConfigDocument, serde_json::Error>) -> (config: Result<
        Self,
        ConfigError,
    >)
        ensures
            match (parsed, config) {
                (Ok(document), Ok(c)) => document_problem(document) is None && says(c, document)
                    && c.valid(),
                (Ok(document), Err(error)) => error matches ConfigError::Validation(message)
                    && document_problem(document) == Some(message@),
                (Err(problem), result) => result == Err::<Config, ConfigError>(
                    ConfigError::Json(problem),
                ),
            },
    {
        match parsed {
            Ok(document) => Self::validate_and_normalize(document),
            Err(problem) => Err(ConfigError::Json(problem)),
        }
    }

    /// How long a client may take to send its first bytes.
    pub fn hello_timeout(&self) -> (timeout: Duration)
        ensures
            lasts(timeout, self.limits.client_hello_timeout_ms),
    {
        Duration::from_millis(self.limits.client_hello_timeout_ms)
    }

    /// How long a connect to an upstream may take.
    pub fn connect_timeout(&self) -> (timeout: Duration)
        ensures
            lasts(timeout, self.limits.connect_timeout_ms),
    {
        Duration::from_millis(self.limits.connect_timeout_ms)
    }

    /// How long one direction may stay open after the other has ended.
    pub fn half_close_timeout(&self) -> (timeout: Duration)
        ensures
            lasts(timeout, self.limits.half_close_timeout_ms),
    {
        Duration::from_millis(self.limits.half_close_timeout_ms)
    }

    /// How long a connection to a fallback may last.
    pub fn fallback_lifetime_timeout(&self) -> (timeout: Duration)
        ensures
            lasts(timeout, self.limits.fallback_lifetime_timeout_ms),
    {
        Duration::from_millis(self.limits.fallback_lifetime_timeout_ms)
    }

    /// The connections that the three pools admit together, where a `usize`
    /// holds that number.
    pub fn admitted_connection_budget(&self) -> (budget: Option<usize>)
        ensures
            match budget {
                Some(n) => n == connection_budget(self.admission),
                None => connection_budget(self.admission) > usize::MAX,
            },
    {
        budget_of(self.admission)
    }
}

/// The `Display` formatting of `serde_json::Error`, through `format!`. The text
/// is not stated: such an error can hold one of the system, which has its text
/// in the system's words.
#[verifier::external_body]
fn json_error_text(error: &serde_json::Error) -> (text: String) {
    format!("{error}")
}

impl ConfigError {
    /// The error as a text for a log. What an error of the system or of the
    /// JSON parser adds to it is in their words.
    pub fn message(&self) -> (text: String)
        ensures
            match self {
                ConfigError::Read { path, .. } => ("could not read config "@ + path@
                    + ": "@).is_prefix_of(text@),
                ConfigError::Json(_) => "invalid JSON config: "@.is_prefix_of(text@),
                ConfigError::Validation(message) => text@ == "invalid config: "@ + message@,
            },
    {
        match self {
            ConfigError::Read { path, source } => {
                let mut text = "could not read config ".to_string();
                text.append(path.as_str());
                text.append(": ");
                let ghost start = text@;
                text.append(io_error_text(source).as_str());
                assert(start =~= text@.subrange(0, start.len() as int));
                text
            },
            ConfigError::Json(source) => {
                let mut text = "invalid JSON config: ".to_string();
                let ghost start = text@;
                text.append(json_error_text(source).as_str());
                assert(start =~= text@.subrange(0, start.len() as int));
                text
            },
            ConfigError::Validation(message) => {
                let mut text = "invalid config: ".to_string();
                text.append(message.as_str());
                text
            },
        }
    }
}

/// A loopback address with a port.
pub open spec fn local(address: SocketAddr) -> bool {
    crate::address::loopback(address.ip()) && address.port() != 0
}

proof fn lemma_route_table_valid(routes: Seq<(String, Route)>)
    ensures
        route_table(routes) matches Ok(table) ==> forall|name: Seq<char>| #[trigger]
            table.contains_key(name) ==> crate::hostname::normalized_name(name) == Some(name)
                && route_problem(table[name]) is None,
    decreases routes.len(),
{
    if routes.len() > 0 {
        lemma_route_table_valid(routes.drop_last());
        let name = routes.last().0@;
        if crate::hostname::normalized_route_name(name) is Ok {
            crate::hostname_laws::law_route_names_are_server_names(name);
        }
    }
}

} // verus!
