//! The route table and the builder of a server's configuration.

use crate::http::parse_error::ErrorView;
use crate::http::parser::{line_texts, parse, parse_request};
use crate::request::request::{RequestMethod, RequestView};
use crate::response::response::{default_response, response_text, response_with_body};
use vstd::hash_map::StringHashMap;
use vstd::prelude::*;

verus! {

/// A registered route: the method it was registered for and the handler that
/// produces the response body.
#[verifier::reject_recursive_types(H)]
pub struct Endpoint<H> {
    pub request_method: RequestMethod,
    pub execution_method: H,
}

impl<H> Endpoint<H> {
    /// An endpoint of these two parts.
    pub fn new(request_method: RequestMethod, execution_method: H) -> (endpoint: Endpoint<H>)
        ensures
            endpoint.request_method == request_method,
            endpoint.execution_method == execution_method,
    {
        Endpoint { request_method, execution_method }
    }
}

/// The path under which a parsed request finds a route: its target, where
/// the table holds one. A request that failed to parse finds none.
pub open spec fn routed_path<H>(
    routes: Map<Seq<char>, Endpoint<H>>,
    parsed: Result<RequestView, ErrorView>,
) -> Option<Seq<char>> {
    match parsed {
        Ok(request) => if routes.contains_key(request.head.uri) {
            Some(request.head.uri)
        } else {
            None
        },
        Err(_) => None,
    }
}

/// The route table: at most one endpoint for a path. Routes are found by the
/// path alone; the method of an endpoint is kept for the record.
#[verifier::reject_recursive_types(H)]
pub struct Router<H: Fn() -> String> {
    routes: StringHashMap<Endpoint<H>>,
}

impl<H: Fn() -> String> View for Router<H> {
    type V = Map<Seq<char>, Endpoint<H>>;

    closed spec fn view(&self) -> Map<Seq<char>, Endpoint<H>> {
        self.routes@
    }
}

impl<H: Fn() -> String> Router<H> {
    /// Every handler in the table may be called.
    #[verifier::type_invariant]
    spec fn handlers_callable(self) -> bool {
        forall|path: Seq<char>| #[trigger]
            self.routes@.contains_key(path) ==> call_requires(
                self.routes@[path].execution_method,
                (),
            )
    }

    /// The empty table.
    pub fn new() -> (router: Router<H>)
        ensures
            router@ == Map::<Seq<char>, Endpoint<H>>::empty(),
    {
        Router { routes: StringHashMap::new() }
    }

    /// The table with `endpoint` registered under `path`, in place of what
    /// was there.
    pub fn with_route(self, path: &str, endpoint: Endpoint<H>) -> (router: Router<H>)
        requires
            call_requires(endpoint.execution_method, ()),
        ensures
            router@ == self@.insert(path@, endpoint),
    {
        proof {
            use_type_invariant(&self);
        }
        let mut routes = self.routes;
        routes.insert(path.to_owned(), endpoint);
        Router { routes }
    }

    /// Whether a route is registered under `path`.
    pub fn contains(&self, path: &str) -> (found: bool)
        ensures
            found == self@.contains_key(path@),
    {
        self.routes.contains_key(path)
    }

    /// Runs the handler registered under `path`, if there is one, and hands
    /// out what it produced.
    pub fn dispatch(&self, path: &str) -> (output: Option<String>)
        ensures
            match output {
                Some(text) => self@.contains_key(path@) && call_ensures(
                    self@[path@].execution_method,
                    (),
                    text,
                ),
                None => !self@.contains_key(path@),
            },
    {
        proof {
            use_type_invariant(self);
        }
        match self.routes.get(path) {
            Some(endpoint) => Some((endpoint.execution_method)()),
            None => None,
        }
    }

    /// Answers one request, given the lines of its head and its body: the
    /// status line, followed by the output of the handler registered under the
    /// request's target. Where the head does not parse, or no route is
    /// registered under the target, the answer is the status line alone.
    pub fn respond(&self, request: &Vec<String>, body: Vec<u8>) -> (response: String)
        ensures
            match routed_path(self@, parse(line_texts(request@), body@)) {
                Some(path) => exists|output: String| #[trigger]
                    call_ensures(self@[path].execution_method, (), output) && response@
                        == response_text(Some(output@)),
                None => response@ == response_text(None),
            },
    {
        match parse_request(request, body) {
            Ok(parsed) => match self.dispatch(parsed.head().uri()) {
                Some(output) => response_with_body(output.as_str()),
                None => default_response(),
            },
            Err(_) => default_response(),
        }
    }
}

/// The highest port number there is.
pub const MAX_PORT: u32 = 65535;

/// Mathematical content of a [`WebServerBuilder`] and of a [`ServerConfig`].
#[verifier::reject_recursive_types(H)]
pub ghost struct ConfigView<H> {
    pub addr: Seq<char>,
    pub port: u32,
    pub port_auto_discover: bool,
    pub thread_count: usize,
    pub routes: Map<Seq<char>, Endpoint<H>>,
}

/// Collects the settings and the routes of a server, call by call.
#[verifier::reject_recursive_types(H)]
pub struct WebServerBuilder<H: Fn() -> String> {
    addr: String,
    port: u32,
    port_auto_discover: bool,
    thread_count: usize,
    route_map: Router<H>,
}

impl<H: Fn() -> String> View for WebServerBuilder<H> {
    type V = ConfigView<H>;

    closed spec fn view(&self) -> ConfigView<H> {
        ConfigView {
            addr: self.addr@,
            port: self.port,
            port_auto_discover: self.port_auto_discover,
            thread_count: self.thread_count,
            routes: self.route_map@,
        }
    }
}

impl<H: Fn() -> String> WebServerBuilder<H> {
    /// A pool has at least one worker.
    #[verifier::type_invariant]
    spec fn has_workers(self) -> bool {
        self.thread_count > 0
    }

    /// The defaults: address `127.0.0.1`, port 8080, no search for a free
    /// port, 16 workers, no routes.
    pub fn new() -> (builder: WebServerBuilder<H>)
        ensures
            builder@ == (ConfigView {
                addr: "127.0.0.1"@,
                port: 8080,
                port_auto_discover: false,
                thread_count: 16,
                routes: Map::<Seq<char>, Endpoint<H>>::empty(),
            }),
    {
        WebServerBuilder {
            addr: "127.0.0.1".to_owned(),
            port: 8080,
            port_auto_discover: false,
            thread_count: 16,
            route_map: Router::new(),
        }
    }

    /// Sets the address to listen on.
    pub fn address(self, addr: String) -> (builder: WebServerBuilder<H>)
        ensures
            builder@ == (ConfigView { addr: addr@, ..self@ }),
    {
        proof {
            use_type_invariant(&self);
        }
        WebServerBuilder { addr, ..self }
    }

    /// Sets the port to listen on, or to start the search for a free port at.
    pub fn port(self, port: u32) -> (builder: WebServerBuilder<H>)
        ensures
            builder@ == (ConfigView { port, ..self@ }),
    {
        proof {
            use_type_invariant(&self);
        }
        WebServerBuilder { port, ..self }
    }

    /// Says whether to go on to the next port where one cannot be bound.
    pub fn port_auto_discover(self, discover: bool) -> (builder: WebServerBuilder<H>)
        ensures
            builder@ == (ConfigView { port_auto_discover: discover, ..self@ }),
    {
        proof {
            use_type_invariant(&self);
        }
        WebServerBuilder { port_auto_discover: discover, ..self }
    }

    /// Sets the number of workers of the pool.
    pub fn thread_count(self, count: usize) -> (builder: WebServerBuilder<H>)
        requires
            count != 0,
        ensures
            builder@ == (ConfigView { thread_count: count, ..self@ }),
    {
        WebServerBuilder { thread_count: count, ..self }
    }

    /// Registers `endpoint` for `path`. A path has one route: a second
    /// registration takes the place of the first.
    pub fn add_route(self, path: &str, method: RequestMethod, endpoint: H) -> (builder:
        WebServerBuilder<H>)
        requires
            call_requires(endpoint, ()),
        ensures
            builder@ == (ConfigView {
                routes: self@.routes.insert(
                    path@,
                    Endpoint { request_method: method, execution_method: endpoint },
                ),
                ..self@
            }),
    {
        proof {
            use_type_invariant(&self);
        }
        let WebServerBuilder { addr, port, port_auto_discover, thread_count, route_map } = self;
        let route_map = route_map.with_route(path, Endpoint::new(method, endpoint));
        WebServerBuilder { addr, port, port_auto_discover, thread_count, route_map }
    }

    /// Ends the building: the settings and the route table, fixed from here
    /// on.
    pub fn finish(self) -> (config: ServerConfig<H>)
        ensures
            config@ == self@,
            config@.thread_count > 0,
    {
        proof {
            use_type_invariant(&self);
        }
        ServerConfig {
            addr: self.addr,
            port: self.port,
            port_auto_discover: self.port_auto_discover,
            thread_count: self.thread_count,
            router: self.route_map,
        }
    }
}

/// The port to try after binding `failed` did not succeed: the next one,
/// where the search is on and there is a next one.
pub open spec fn port_after(port_auto_discover: bool, failed: u32) -> Option<u32> {
    if port_auto_discover && failed < MAX_PORT {
        Some((failed + 1) as u32)
    } else {
        None
    }
}

/// The settings and the route table of a server. Nothing changes them.
#[verifier::reject_recursive_types(H)]
pub struct ServerConfig<H: Fn() -> String> {
    addr: String,
    port: u32,
    port_auto_discover: bool,
    thread_count: usize,
    router: Router<H>,
}

impl<H: Fn() -> String> View for ServerConfig<H> {
    type V = ConfigView<H>;

    closed spec fn view(&self) -> ConfigView<H> {
        ConfigView {
            addr: self.addr@,
            port: self.port,
            port_auto_discover: self.port_auto_discover,
            thread_count: self.thread_count,
            routes: self.router@,
        }
    }
}

impl<H: Fn() -> String> ServerConfig<H> {
    /// A pool has at least one worker.
    #[verifier::type_invariant]
    spec fn has_workers(self) -> bool {
        self.thread_count > 0
    }

    /// The address to listen on.
    pub fn addr(&self) -> (addr: &str)
        ensures
            addr@ == self@.addr,
    {
        self.addr.as_str()
    }

    /// The port to bind first.
    pub fn port(&self) -> (port: u32)
        ensures
            port == self@.port,
    {
        self.port
    }

    /// Whether to go on to the next port where one cannot be bound.
    pub fn port_auto_discover(&self) -> (discover: bool)
        ensures
            discover == self@.port_auto_discover,
    {
        self.port_auto_discover
    }

    /// The number of workers of the pool; never zero.
    pub fn thread_count(&self) -> (count: usize)
        ensures
            count == self@.thread_count,
            count > 0,
    {
        proof {
            use_type_invariant(self);
        }
        self.thread_count
    }

    /// The route table.
    pub fn router(&self) -> (router: &Router<H>)
        ensures
            router@ == self@.routes,
    {
        &self.router
    }

    /// The port to try after binding `failed` did not succeed, or `None`
    /// where the search is over. Each port is one higher than the last and
    /// none is above [`MAX_PORT`], so a search ends.
    pub fn next_port(&self, failed: u32) -> (next: Option<u32>)
        ensures
            next == port_after(self@.port_auto_discover, failed),
            next matches Some(port) ==> failed < port <= MAX_PORT,
    {
        if self.port_auto_discover && failed < MAX_PORT {
            Some(failed + 1)
        } else {
            None
        }
    }
}

/// A route that was registered is the one that a request for its path finds,
/// whatever was registered for that path before and whatever the request's
/// method is.
pub proof fn lemma_registered_route_is_found<H>(
    routes: Map<Seq<char>, Endpoint<H>>,
    path: Seq<char>,
    endpoint: Endpoint<H>,
    request: RequestView,
)
    requires
        request.head.uri == path,
    ensures
        routed_path(routes.insert(path, endpoint), Ok(request)) == Some(path),
        routes.insert(path, endpoint)[path] == endpoint,
{
}

/// A request for a path that no route was registered for finds none, and
/// so does a request that failed to parse: both get the status line alone.
pub proof fn lemma_unregistered_path_finds_none<H>(
    routes: Map<Seq<char>, Endpoint<H>>,
    parsed: Result<RequestView, ErrorView>,
)
    requires
        parsed matches Ok(request) ==> !routes.contains_key(request.head.uri),
    ensures
        routed_path(routes, parsed) is None,
{
}

} // verus!
