use minimal_web_server::handlers::hello_world;
use minimal_web_server::http::parser::RequestMethod;
use minimal_web_server::response::response::{default_response, response_with_body};
use minimal_web_server::server::server::{Endpoint, Router, WebServerBuilder, MAX_PORT};

type Handler = Box<dyn Fn() -> String + Send + Sync>;

fn fixed(text: &'static str) -> Handler {
    Box::new(move || text.to_string())
}

fn lines(text: &[&str]) -> Vec<String> {
    text.iter().map(|l| l.to_string()).collect()
}

#[test]
fn responses_on_the_wire() {
    assert_eq!(default_response(), "HTTP/1.1 200 OK\r\n\r\n");
    assert_eq!(response_with_body("Hello World"), "HTTP/1.1 200 OK\r\n\r\nHello World");
    assert_eq!(response_with_body(""), "HTTP/1.1 200 OK\r\n\r\n");
}

#[test]
fn endpoint_keeps_its_parts() {
    let endpoint = Endpoint::new(RequestMethod::Post, fixed("x"));
    assert!(matches!(endpoint.request_method, RequestMethod::Post));
    assert_eq!((endpoint.execution_method)(), "x");
}

#[test]
fn registered_route_is_invoked() {
    let router = Router::new().with_route("/hello", Endpoint::new(RequestMethod::Get, fixed("hi")));
    assert!(router.contains("/hello"));
    assert_eq!(router.dispatch("/hello"), Some("hi".to_string()));
    assert_eq!(router.respond(&lines(&["GET /hello HTTP/1.1"]), Vec::new()), "HTTP/1.1 200 OK\r\n\r\nhi");
}

#[test]
fn unregistered_path_falls_back() {
    let router = Router::new().with_route("/hello", Endpoint::new(RequestMethod::Get, fixed("hi")));
    assert!(!router.contains("/other"));
    assert_eq!(router.dispatch("/other"), None);
    assert_eq!(router.respond(&lines(&["GET /other HTTP/1.1"]), Vec::new()), "HTTP/1.1 200 OK\r\n\r\n");
    assert_eq!(router.respond(&lines(&["GET /hello/ HTTP/1.1"]), Vec::new()), "HTTP/1.1 200 OK\r\n\r\n");
    assert_eq!(router.respond(&lines(&["GET /hello?x=1 HTTP/1.1"]), Vec::new()), "HTTP/1.1 200 OK\r\n\r\n");
}

#[test]
fn unparsed_request_falls_back() {
    let router = Router::new().with_route("/hello", Endpoint::new(RequestMethod::Get, fixed("hi")));
    assert_eq!(router.respond(&Vec::new(), Vec::new()), "HTTP/1.1 200 OK\r\n\r\n");
    assert_eq!(router.respond(&lines(&["GET /hello"]), Vec::new()), "HTTP/1.1 200 OK\r\n\r\n");
    assert_eq!(router.respond(&lines(&["/hello"]), b"body".to_vec()), "HTTP/1.1 200 OK\r\n\r\n");
}

#[test]
fn route_is_found_by_path_alone() {
    let router = Router::new().with_route("/hello", Endpoint::new(RequestMethod::Get, fixed("hi")));
    assert_eq!(router.respond(&lines(&["POST /hello HTTP/1.1"]), Vec::new()), "HTTP/1.1 200 OK\r\n\r\nhi");
    assert_eq!(router.respond(&lines(&["BREW /hello HTTP/1.1"]), Vec::new()), "HTTP/1.1 200 OK\r\n\r\nhi");
}

#[test]
fn last_registration_wins() {
    let router = Router::new()
        .with_route("/a", Endpoint::new(RequestMethod::Get, fixed("first")))
        .with_route("/b", Endpoint::new(RequestMethod::Get, fixed("b")))
        .with_route("/a", Endpoint::new(RequestMethod::Post, fixed("second")));
    assert_eq!(router.dispatch("/a"), Some("second".to_string()));
    assert_eq!(router.dispatch("/b"), Some("b".to_string()));
}

#[test]
fn handler_runs_once_per_request() {
    let calls = std::sync::Arc::new(std::sync::atomic::AtomicUsize::new(0));
    let seen = calls.clone();
    let router = Router::new().with_route(
        "/count",
        Endpoint::new(RequestMethod::Get, move || {
            seen.fetch_add(1, std::sync::atomic::Ordering::SeqCst);
            "counted".to_string()
        }),
    );
    router.respond(&lines(&["GET /count HTTP/1.1"]), Vec::new());
    router.respond(&lines(&["GET /elsewhere HTTP/1.1"]), Vec::new());
    router.respond(&lines(&["GET /count HTTP/1.1"]), Vec::new());
    assert_eq!(calls.load(std::sync::atomic::Ordering::SeqCst), 2);
}

#[test]
fn builder_defaults() {
    let config = WebServerBuilder::<Handler>::new().finish();
    assert_eq!(config.addr(), "127.0.0.1");
    assert_eq!(config.port(), 8080);
    assert!(!config.port_auto_discover());
    assert_eq!(config.thread_count(), 16);
    assert!(!config.router().contains("/"));
}

#[test]
fn builder_settings() {
    let config = WebServerBuilder::<Handler>::new()
        .address("0.0.0.0".to_string())
        .port(8888)
        .port_auto_discover(true)
        .thread_count(4)
        .add_route("/", RequestMethod::Get, Box::new(hello_world))
        .add_route("/bye", RequestMethod::Post, fixed("bye"))
        .finish();
    assert_eq!(config.addr(), "0.0.0.0");
    assert_eq!(config.port(), 8888);
    assert!(config.port_auto_discover());
    assert_eq!(config.thread_count(), 4);
    assert_eq!(config.router().dispatch("/"), Some("Hello World".to_string()));
    assert_eq!(config.router().dispatch("/bye"), Some("bye".to_string()));
    assert_eq!(config.router().dispatch("/none"), None);
}

#[test]
fn builder_route_replaces_route() {
    let config = WebServerBuilder::<Handler>::new()
        .add_route("/", RequestMethod::Get, fixed("old"))
        .add_route("/", RequestMethod::Get, fixed("new"))
        .finish();
    assert_eq!(config.router().respond(&lines(&["GET / HTTP/1.1"]), Vec::new()), "HTTP/1.1 200 OK\r\n\r\nnew");
}

#[test]
fn port_search_goes_up_by_one() {
    let config = WebServerBuilder::<Handler>::new().port(8888).port_auto_discover(true).finish();
    assert_eq!(config.next_port(8888), Some(8889));
    assert_eq!(config.next_port(65534), Some(65535));
    assert_eq!(MAX_PORT, 65535);
}

#[test]
fn port_search_ends_at_the_last_port() {
    let config = WebServerBuilder::<Handler>::new().port_auto_discover(true).finish();
    assert_eq!(config.next_port(65535), None);
    assert_eq!(config.next_port(65536), None);
    assert_eq!(config.next_port(u32::MAX), None);
}

#[test]
fn port_search_is_off_by_default() {
    let config = WebServerBuilder::<Handler>::new().finish();
    assert_eq!(config.next_port(8080), None);
}
