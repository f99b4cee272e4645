use std::cell::Cell;

use async_http::{HttpRequest, HttpResponse, HttpStatus, RequestDecoder, RouteTable};

type Handler<'a> = Box<dyn Fn(&HttpRequest<()>) -> HttpResponse + 'a>;

fn request(method: &str, path: &str) -> HttpRequest<()> {
    let mut d = RequestDecoder::new();
    d.feed_line(&format!("{} {} HTTP/1.1\r\n", method, path)).unwrap();
    d.feed_line("\r\n").unwrap();
    d.finish(())
}

#[test]
fn registered_route_invokes_its_handler() {
    let calls = Cell::new(0);
    let mut table: RouteTable<Handler> = RouteTable::new();
    table.register(
        "GET",
        "/a",
        Box::new(|_| {
            calls.set(calls.get() + 1);
            HttpResponse::new(HttpStatus::OK)
        }),
    );
    let r = table.respond(&request("GET", "/a"));
    assert_eq!(r.status(), HttpStatus::OK);
    assert_eq!(calls.get(), 1);
}

#[test]
fn unregistered_route_is_not_found() {
    let calls = Cell::new(0);
    let mut table: RouteTable<Handler> = RouteTable::new();
    table.register(
        "GET",
        "/a",
        Box::new(|_| {
            calls.set(calls.get() + 1);
            HttpResponse::new(HttpStatus::OK)
        }),
    );
    let r = table.respond(&request("GET", "/b"));
    assert_eq!(r.status(), HttpStatus::NotFound);
    assert_eq!(r.encode(), "HTTP/1.1 404 Not found\r\n\r\n");
    assert_eq!(calls.get(), 0);
    let r = table.respond(&request("POST", "/a"));
    assert_eq!(r.status(), HttpStatus::NotFound);
    assert_eq!(calls.get(), 0);
}

#[test]
fn last_registration_wins() {
    let mut table: RouteTable<Handler> = RouteTable::new();
    table.register("GET", "/k", Box::new(|_| HttpResponse::new(HttpStatus::OK)));
    table.register("GET", "/k", Box::new(|_| HttpResponse::new(HttpStatus::Other(201))));
    let r = table.respond(&request("GET", "/k"));
    assert_eq!(r.status(), HttpStatus::Other(201));
}

#[test]
fn get_registers_for_get() {
    let mut table: RouteTable<u32> = RouteTable::new();
    table.get("/x", 1);
    assert_eq!(table.lookup("GET", "/x"), Some(&1));
    assert_eq!(table.lookup("POST", "/x"), None);
    assert_eq!(table.lookup("GET", "/x/"), None);
}

#[test]
fn handler_sees_the_request() {
    let mut table: RouteTable<Handler> = RouteTable::new();
    table.get(
        "/echo",
        Box::new(|req| {
            let mut r = HttpResponse::new(HttpStatus::OK);
            r.set_body("text/plain", req.path());
            r
        }),
    );
    let r = table.respond(&request("GET", "/echo"));
    assert_eq!(r.body().map(|b| b.as_str()), Some("/echo"));
}
