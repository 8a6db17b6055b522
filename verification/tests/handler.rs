use proxy::channel::{ChannelError, EventChannel};
use proxy::event::Event;
use proxy::handler::{
    finish, on_send_result, plan_request, publish_page_view, respond, rewrite_host, target_url,
    transport_failure, Failure, Header, InboundRequest, OutboundRequest, Response, Upstream,
    STATUS_BAD_GATEWAY, STATUS_BAD_REQUEST, STATUS_INTERNAL_SERVER_ERROR,
};
use proxy::route::RouteTable;

fn routes() -> RouteTable {
    let mut table = RouteTable::new();
    table.insert("a.example".to_string(), "b.example".to_string());
    table
}

fn header(name: &str, value: &[u8]) -> Header {
    Header { name: name.to_string(), value: value.to_vec() }
}

fn get(host: Option<&str>, path_and_query: &str) -> InboundRequest {
    InboundRequest {
        host: host.map(|h| h.to_string()),
        method: "GET".to_string(),
        path_and_query: path_and_query.to_string(),
        scheme: None,
        headers: match host {
            Some(h) => vec![header("host", h.as_bytes()), header("accept", b"*/*")],
            None => vec![header("accept", b"*/*")],
        },
        body: Vec::new(),
    }
}

fn answered(status: u16) -> Upstream {
    Upstream::Answered {
        status,
        headers: vec![header("content-type", b"text/plain")],
        body: Ok(b"hello".to_vec()),
    }
}

#[test]
fn status_codes_are_the_standard_ones() {
    assert_eq!(STATUS_BAD_REQUEST, 400);
    assert_eq!(STATUS_INTERNAL_SERVER_ERROR, 500);
    assert_eq!(STATUS_BAD_GATEWAY, 502);
}

#[test]
fn scenario_request_is_forwarded_to_the_target() {
    let plan = plan_request(&routes(), get(Some("a.example"), "/p?x=1"));
    assert_eq!(
        plan,
        Ok(OutboundRequest {
            method: "GET".to_string(),
            url: "http://b.example/p?x=1".to_string(),
            headers: vec![header("accept", b"*/*"), header("host", b"b.example")],
            body: Vec::new(),
        })
    );
}

#[test]
fn scenario_upstream_200_publishes_one_page_view() {
    let mut channel = EventChannel::with_default_capacity();
    let reply = respond(&routes(), &mut channel, get(Some("a.example"), "/p?x=1"), answered(200));
    assert_eq!(
        reply,
        Ok(Response {
            status: 200,
            headers: vec![header("content-type", b"text/plain")],
            body: b"hello".to_vec(),
        })
    );
    assert_eq!(channel.len(), 1);
    assert_eq!(
        channel.receive(),
        Ok(Event::PageView { url: "http://b.example/p?x=1".to_string() })
    );
    assert_eq!(channel.receive(), Err(ChannelError::Empty));
}

#[test]
fn scenario_unknown_host_is_a_bad_gateway_without_event() {
    let mut channel = EventChannel::with_default_capacity();
    let reply =
        respond(&routes(), &mut channel, get(Some("unknown.example"), "/"), answered(200));
    assert_eq!(
        reply,
        Err(Failure { status: 502, message: "Bad host: unknown.example".to_string() })
    );
    assert_eq!(channel.len(), 0);
    assert_eq!(channel.receive(), Err(ChannelError::Empty));
}

#[test]
fn unknown_host_message_names_the_host_without_port() {
    let plan = plan_request(&routes(), get(Some("other.example:8080"), "/"));
    assert_eq!(
        plan,
        Err(Failure { status: 502, message: "Bad host: other.example".to_string() })
    );
}

#[test]
fn missing_host_is_a_bad_request_without_event() {
    let mut channel = EventChannel::with_default_capacity();
    let reply = respond(&routes(), &mut channel, get(None, "/"), answered(200));
    assert_eq!(reply, Err(Failure { status: 400, message: "Invalid host".to_string() }));
    assert_eq!(channel.len(), 0);
}

#[test]
fn transport_failure_is_a_bad_request_without_event() {
    let mut channel = EventChannel::with_default_capacity();
    let reply = respond(
        &routes(),
        &mut channel,
        get(Some("a.example"), "/"),
        Upstream::Unreachable("connection refused".to_string()),
    );
    assert_eq!(
        reply,
        Err(Failure { status: 400, message: "Error: connection refused".to_string() })
    );
    assert_eq!(channel.len(), 0);
    assert_eq!(
        transport_failure("boom"),
        Failure { status: 400, message: "Error: boom".to_string() }
    );
}

#[test]
fn upstream_error_status_is_forwarded_and_still_recorded() {
    let mut channel = EventChannel::with_default_capacity();
    let reply = respond(&routes(), &mut channel, get(Some("a.example:80"), "/gone"), answered(404));
    assert_eq!(reply.unwrap().status, 404);
    assert_eq!(
        channel.receive(),
        Ok(Event::PageView { url: "http://b.example/gone".to_string() })
    );
    assert_eq!(channel.receive(), Err(ChannelError::Empty));
}

#[test]
fn body_read_failure_is_a_server_error_after_the_event() {
    let mut channel = EventChannel::with_default_capacity();
    let reply = respond(
        &routes(),
        &mut channel,
        get(Some("a.example"), "/p"),
        Upstream::Answered { status: 200, headers: Vec::new(), body: Err("reset".to_string()) },
    );
    assert_eq!(reply, Err(Failure { status: 500, message: "Error: reset".to_string() }));
    assert_eq!(channel.len(), 1);
    assert_eq!(
        finish(200, Vec::new(), Err("reset".to_string())),
        Err(Failure { status: 500, message: "Error: reset".to_string() })
    );
}

#[test]
fn each_forwarded_request_records_one_event() {
    let mut channel = EventChannel::with_default_capacity();
    let table = routes();
    for (n, status) in [200u16, 404, 500, 301].iter().enumerate() {
        let path = format!("/{n}");
        let reply = respond(&table, &mut channel, get(Some("a.example"), &path), answered(*status));
        assert_eq!(reply.unwrap().status, *status);
        assert_eq!(channel.len(), n + 1);
    }
    for n in 0..4 {
        assert_eq!(channel.receive(), Ok(Event::page_view(format!("http://b.example/{n}"))));
    }
}

#[test]
fn method_path_query_and_body_are_preserved() {
    let request = InboundRequest {
        host: Some("a.example:8080".to_string()),
        method: "POST".to_string(),
        path_and_query: "/submit?a=1&b=%20".to_string(),
        scheme: Some("https".to_string()),
        headers: vec![
            header("x-first", b"1"),
            header("host", b"a.example:8080"),
            header("x-raw", &[0xff, 0x00, 0x80]),
            header("host", b"again.example"),
            header("x-last", b""),
        ],
        body: vec![0, 1, 2, 255],
    };
    let out = plan_request(&routes(), request).unwrap();
    assert_eq!(out.method, "POST");
    assert_eq!(out.url, "https://b.example/submit?a=1&b=%20");
    assert_eq!(out.body, vec![0, 1, 2, 255]);
    assert_eq!(
        out.headers,
        vec![
            header("x-first", b"1"),
            header("x-raw", &[0xff, 0x00, 0x80]),
            header("x-last", b""),
            header("host", b"b.example"),
        ]
    );
}

#[test]
fn rewrite_host_adds_the_header_where_there_was_none() {
    assert_eq!(rewrite_host(&Vec::new(), "b.example"), vec![header("host", b"b.example")]);
    assert_eq!(
        rewrite_host(&vec![header("hosts", b"x"), header("Host", b"y")], "t"),
        vec![header("hosts", b"x"), header("Host", b"y"), header("host", b"t")]
    );
}

#[test]
fn target_url_defaults_to_plain_http() {
    assert_eq!(target_url(None, "b.example", "/p?x=1"), "http://b.example/p?x=1");
    assert_eq!(target_url(Some("https"), "b.example", "/"), "https://b.example/");
    assert_eq!(target_url(None, "b.example", ""), "http://b.example");
}

#[test]
fn send_result_decides_between_event_and_failure() {
    let mut channel = EventChannel::new(2);
    assert_eq!(on_send_result(&mut channel, "http://b.example/".to_string(), Ok(())), Ok(()));
    assert_eq!(channel.len(), 1);
    assert_eq!(
        on_send_result(&mut channel, "http://b.example/".to_string(), Err("down".to_string())),
        Err(Failure { status: 400, message: "Error: down".to_string() })
    );
    assert_eq!(channel.len(), 1);
}

#[test]
fn publish_never_fails_the_request() {
    let mut channel = EventChannel::new(1);
    channel.close();
    publish_page_view(&mut channel, "http://b.example/".to_string());
    assert_eq!(channel.len(), 0);
    let reply = respond(&routes(), &mut channel, get(Some("a.example"), "/"), answered(200));
    assert_eq!(reply.unwrap().status, 200);
    assert_eq!(channel.len(), 0);
}

#[test]
fn full_channel_does_not_hold_up_requests() {
    let mut channel = EventChannel::new(2);
    let table = routes();
    for n in 0..5 {
        let path = format!("/{n}");
        let reply = respond(&table, &mut channel, get(Some("a.example"), &path), answered(200));
        assert_eq!(reply.unwrap().status, 200);
    }
    assert_eq!(channel.receive(), Err(ChannelError::Lagged(3)));
    assert_eq!(channel.receive(), Ok(Event::page_view("http://b.example/3".to_string())));
    assert_eq!(channel.receive(), Ok(Event::page_view("http://b.example/4".to_string())));
}
