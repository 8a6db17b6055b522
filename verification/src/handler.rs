//! The decisions of the per-request handler: where a request goes, what is
//! sent there, which event is published, and what the caller gets back.
//! Sending and reading are the caller's part; their outcomes come in as
//! values.

use vstd::prelude::*;
use vstd::utf8::encode_utf8;
use crate::channel::EventChannel;
use crate::event::{Event, EventModel};
use crate::route::{normalize_host, strip_port, RouteTable};

verus! {

/// Status of the reply to a request without a usable host header, and to
/// one whose forwarding failed in transport.
pub const STATUS_BAD_REQUEST: u16 = 400;

/// Status of the reply where reading the upstream body failed.
pub const STATUS_INTERNAL_SERVER_ERROR: u16 = 500;

/// Status of the reply to a request for a host without a route.
pub const STATUS_BAD_GATEWAY: u16 = 502;

/// One header line. Names arrive in lower case; values are raw bytes.
#[derive(Debug, PartialEq, Eq)]
pub struct Header {
    pub name: String,
    pub value: Vec<u8>,
}

/// A header line as a mathematical value.
pub struct HeaderModel {
    pub name: Seq<char>,
    pub value: Seq<u8>,
}

impl View for Header {
    type V = HeaderModel;

    open spec fn view(&self) -> HeaderModel {
        HeaderModel { name: self.name@, value: self.value@ }
    }
}

/// The header lines of `headers` as mathematical values, in the same order.
pub open spec fn header_models(headers: Seq<Header>) -> Seq<HeaderModel> {
    headers.map_values(|h: Header| h@)
}

/// What ingress read of a request.
#[derive(Debug, PartialEq, Eq)]
pub struct InboundRequest {
    /// The host header's value, where the request had a readable one.
    pub host: Option<String>,
    pub method: String,
    /// The path, with `?` and the query where there is one.
    pub path_and_query: String,
    /// The scheme of the request's URI, where it names one.
    pub scheme: Option<String>,
    pub headers: Vec<Header>,
    pub body: Vec<u8>,
}

/// What egress is to send.
#[derive(Debug, PartialEq, Eq)]
pub struct OutboundRequest {
    pub method: String,
    pub url: String,
    pub headers: Vec<Header>,
    pub body: Vec<u8>,
}

/// The upstream's answer, handed back to the caller as it came.
#[derive(Debug, PartialEq, Eq)]
pub struct Response {
    pub status: u16,
    pub headers: Vec<Header>,
    pub body: Vec<u8>,
}

/// A request that failed in the proxy itself: a status and a short text.
#[derive(Debug, PartialEq, Eq)]
pub struct Failure {
    pub status: u16,
    pub message: String,
}

/// What became of the request at the upstream.
#[derive(Debug, PartialEq, Eq)]
pub enum Upstream {
    /// The request could not be sent, or no response came: the transport's
    /// description of the error.
    Unreachable(String),
    /// A response came, with any status. Its body was read, or reading it
    /// failed with the error described.
    Answered { status: u16, headers: Vec<Header>, body: Result<Vec<u8>, String> },
}

/// Whether a header line is a host header.
pub open spec fn is_host_header(header: HeaderModel) -> bool {
    header.name == "host"@
}

/// The outbound header lines: the inbound ones except for host headers, in
/// their order, and after them the host header that names the target.
pub open spec fn rewrite_host_spec(headers: Seq<HeaderModel>, target: Seq<char>) -> Seq<
    HeaderModel,
> {
    headers.filter(|h: HeaderModel| !is_host_header(h)).push(
        HeaderModel { name: "host"@, value: encode_utf8(target) },
    )
}

/// The outbound request names its target and nothing else as host: the
/// last outbound header line is the host header with the target as value,
/// no line before it is a host header, and the lines before it are the
/// inbound lines that are not host headers, unchanged and in their order.
pub proof fn law_outbound_host_is_target(headers: Seq<HeaderModel>, target: Seq<char>)
    ensures
        ({
            let out = rewrite_host_spec(headers, target);
            &&& out.len() >= 1
            &&& is_host_header(out.last())
            &&& out.last().value == encode_utf8(target)
            &&& forall|i: int| 0 <= i < out.len() - 1 ==> !is_host_header(#[trigger] out[i])
            &&& out.drop_last() == headers.filter(|h: HeaderModel| !is_host_header(h))
            &&& forall|i: int|
                0 <= i < headers.len() && !is_host_header(headers[i]) ==> out.contains(
                    #[trigger] headers[i],
                )
        }),
{
    let keep = |h: HeaderModel| !is_host_header(h);
    let kept = headers.filter(keep);
    let out = rewrite_host_spec(headers, target);
    assert(out.drop_last() =~= kept);
    assert forall|i: int| 0 <= i < out.len() - 1 implies !is_host_header(#[trigger] out[i]) by {
        headers.lemma_filter_pred(keep, i);
        assert(out[i] == kept[i]);
    }
    assert forall|i: int| 0 <= i < headers.len() && !is_host_header(headers[i]) implies out.contains(
        #[trigger] headers[i],
    ) by {
        headers.lemma_filter_contains(keep, i);
        let j = choose|j: int| 0 <= j < kept.len() && kept[j] == headers[i];
        assert(out[j] == headers[i]);
    }
}

/// The scheme of the outbound request: that of the inbound one, plain HTTP
/// where it names none.
pub open spec fn scheme_spec(scheme: Option<Seq<char>>) -> Seq<char> {
    match scheme {
        Some(s) => s,
        None => "http"@,
    }
}

/// The URL that a request is forwarded to.
pub open spec fn target_url_spec(
    scheme: Option<Seq<char>>,
    target: Seq<char>,
    path_and_query: Seq<char>,
) -> Seq<char> {
    scheme_spec(scheme) + "://"@ + target + path_and_query
}

/// The view of an optional string.
pub open spec fn text_model(text: Option<String>) -> Option<Seq<char>> {
    match text {
        Some(s) => Some(s@),
        None => None,
    }
}

/// What is decided about a request before anything is sent: the failure
/// that answers it, or what goes to which target.
pub enum PlanModel {
    /// The request has no usable host header.
    NoHost,
    /// No route for the host named.
    UnknownHost { name: Seq<char> },
    /// Forward to `url` with these header lines.
    Forward { url: Seq<char>, headers: Seq<HeaderModel> },
}

/// The decision about `request` under the routes of `table`.
pub open spec fn plan_spec(table: &RouteTable, request: &InboundRequest) -> PlanModel {
    match request.host {
        None => PlanModel::NoHost,
        Some(host) => match table.resolve_spec(host@) {
            None => PlanModel::UnknownHost { name: strip_port(host@) },
            Some(target) => PlanModel::Forward {
                url: target_url_spec(
                    text_model(request.scheme),
                    target,
                    request.path_and_query@,
                ),
                headers: rewrite_host_spec(header_models(request.headers@), target),
            },
        },
    }
}

/// A copy of `bytes`.
fn copy_bytes(bytes: &Vec<u8>) -> (copy: Vec<u8>)
    ensures
        copy@ == bytes@,
{
    let mut copy: Vec<u8> = Vec::new();
    let mut i: usize = 0;
    while i < bytes.len()
        invariant
            i <= bytes@.len(),
            copy@ == bytes@.take(i as int),
        decreases bytes@.len() - i,
    {
        copy.push(bytes[i]);
        assert(copy@ =~= bytes@.take(i + 1));
        i += 1;
    }
    assert(bytes@.take(bytes@.len() as int) =~= bytes@);
    copy
}

/// Copies the header lines, overwriting the host header with `target`.
pub fn rewrite_host(headers: &Vec<Header>, target: &str) -> (out: Vec<Header>)
    ensures
        header_models(out@) == rewrite_host_spec(header_models(headers@), target@),
{
    let host_name = String::from_str("host");
    let mut out: Vec<Header> = Vec::new();
    let ghost all = header_models(headers@);
    let ghost keep = |h: HeaderModel| !is_host_header(h);
    let mut i: usize = 0;
    assert(all.take(0).filter(keep) =~= Seq::<HeaderModel>::empty()) by {
        reveal(Seq::filter);
    }
    assert(header_models(out@) =~= Seq::<HeaderModel>::empty());
    while i < headers.len()
        invariant
            i <= headers@.len(),
            all == header_models(headers@),
            keep == (|h: HeaderModel| !is_host_header(h)),
            host_name@ == "host"@,
            header_models(out@) == all.take(i as int).filter(keep),
        decreases headers@.len() - i,
    {
        let ghost before = out@;
        proof {
            reveal(Seq::filter);
            assert(all.take(i + 1).drop_last() =~= all.take(i as int));
            assert(all.take(i + 1).last() == headers@[i as int]@);
        }
        if headers[i].name != host_name {
            let name = headers[i].name.clone();
            let value = copy_bytes(&headers[i].value);
            out.push(Header { name, value });
            assert(header_models(out@) =~= header_models(before).push(headers@[i as int]@));
        }
        i += 1;
    }
    let ghost before = out@;
    assert(all.take(headers@.len() as int) =~= all);
    out.push(Header { name: host_name, value: target.as_bytes_vec() });
    assert(header_models(out@) =~= header_models(before).push(
        HeaderModel { name: "host"@, value: encode_utf8(target@) },
    ));
    out
}

/// Builds the URL that a request is forwarded to.
pub fn target_url(scheme: Option<&str>, target: &str, path_and_query: &str) -> (url: String)
    ensures
        url@ == target_url_spec(
            match scheme {
                Some(s) => Some(s@),
                None => None,
            },
            target@,
            path_and_query@,
        ),
{
    let mut url = match scheme {
        Some(s) => String::from_str(s),
        None => String::from_str("http"),
    };
    url.append("://");
    url.append(target);
    url.append(path_and_query);
    url
}

/// The text of a failure: `prefix` and then `detail`.
fn describe(prefix: &str, detail: &str) -> (message: String)
    ensures
        message@ == prefix@ + detail@,
{
    let mut message = String::from_str(prefix);
    message.append(detail);
    message
}

/// Decides what to do with a request before anything is sent. A request
/// without a host header fails with 400. One for a host that has no
/// route, port suffix disregarded, fails with 502. Any other is forwarded:
/// same method, path, query and body, to the route's target, with the host
/// header naming that target.
pub fn plan_request(table: &RouteTable, request: InboundRequest) -> (plan: Result<
    OutboundRequest,
    Failure,
>)
    requires
        table.well_formed(),
    ensures
        match plan_spec(table, &request) {
            PlanModel::NoHost => plan matches Err(f) && f.status == STATUS_BAD_REQUEST
                && f.message@ == "Invalid host"@,
            PlanModel::UnknownHost { name } => plan matches Err(f) && f.status
                == STATUS_BAD_GATEWAY && f.message@ == "Bad host: "@ + name,
            PlanModel::Forward { url, headers } => plan matches Ok(out) && out.method@
                == request.method@ && out.url@ == url && header_models(out.headers@) == headers
                && out.body@ == request.body@,
        },
{
    let InboundRequest { host, method, path_and_query, scheme, headers, body } = request;
    let host = match host {
        Some(host) => host,
        None => {
            return Err(
                Failure { status: STATUS_BAD_REQUEST, message: String::from_str("Invalid host") },
            );
        },
    };
    match table.resolve(host.as_str()) {
        None => Err(
            Failure {
                status: STATUS_BAD_GATEWAY,
                message: describe("Bad host: ", normalize_host(host.as_str()).as_str()),
            },
        ),
        Some(route) => {
            let url = target_url(
                match &scheme {
                    Some(s) => Some(s.as_str()),
                    None => None,
                },
                route.target_host.as_str(),
                path_and_query.as_str(),
            );
            let headers = rewrite_host(&headers, route.target_host.as_str());
            Ok(OutboundRequest { method, url, headers, body })
        },
    }
}

/// The failure that answers a request whose forwarding failed in
/// transport: 400, with the transport's description of the error.
pub fn transport_failure(error: &str) -> (failure: Failure)
    ensures
        failure.status == STATUS_BAD_REQUEST,
        failure.message@ == "Error: "@ + error@,
{
    Failure { status: STATUS_BAD_REQUEST, message: describe("Error: ", error) }
}

/// Publishes the page-view event for a request forwarded to `url`. Best
/// effort: where the channel has no consumer the event is discarded.
pub fn publish_page_view(channel: &mut EventChannel, url: String)
    requires
        old(channel).well_formed(),
    ensures
        final(channel).well_formed(),
        final(channel)@ == old(channel)@.publish(EventModel::PageView { url: url@ }),
{
    let _ = channel.publish(Event::page_view(url));
}

/// Takes the outcome of sending the outbound request to `url`. A
/// transport failure fails the request with 400 and publishes nothing.
/// A response, whatever its status, publishes one page-view event for
/// `url`; that the channel has no consumer does not fail the request.
pub fn on_send_result(channel: &mut EventChannel, url: String, sent: Result<(), String>) -> (next:
    Result<(), Failure>)
    requires
        old(channel).well_formed(),
    ensures
        final(channel).well_formed(),
        match sent {
            Ok(_) => next is Ok && final(channel)@ == old(channel)@.publish(
                EventModel::PageView { url: url@ },
            ),
            Err(e) => next matches Err(f) && f.status == STATUS_BAD_REQUEST && f.message@
                == "Error: "@ + e@ && final(channel)@ == old(channel)@,
        },
{
    match sent {
        Ok(_) => {
            publish_page_view(channel, url);
            Ok(())
        },
        Err(e) => Err(transport_failure(e.as_str())),
    }
}

/// Takes the outcome of reading the upstream's body. A failure fails the
/// request with 500; otherwise status, header lines and body go back to the
/// caller unchanged.
pub fn finish(status: u16, headers: Vec<Header>, body: Result<Vec<u8>, String>) -> (reply: Result<
    Response,
    Failure,
>)
    ensures
        match body {
            Ok(bytes) => reply == Ok::<Response, Failure>(Response { status, headers, body: bytes }),
            Err(e) => reply matches Err(f) && f.status == STATUS_INTERNAL_SERVER_ERROR
                && f.message@ == "Error: "@ + e@,
        },
{
    match body {
        Ok(bytes) => Ok(Response { status, headers, body: bytes }),
        Err(e) => Err(
            Failure {
                status: STATUS_INTERNAL_SERVER_ERROR,
                message: describe("Error: ", e.as_str()),
            },
        ),
    }
}

/// Handles one request from end to end, given what the upstream did with
/// it. Nothing is published for a request that is not forwarded or whose
/// forwarding fails in transport; exactly one page-view event, for the
/// target URL, is published for a request that the upstream answered,
/// whatever the status and whether or not its body could be read.
pub fn respond(
    table: &RouteTable,
    channel: &mut EventChannel,
    request: InboundRequest,
    upstream: Upstream,
) -> (reply: Result<Response, Failure>)
    requires
        table.well_formed(),
        old(channel).well_formed(),
    ensures
        final(channel).well_formed(),
        match plan_spec(table, &request) {
            PlanModel::NoHost => reply matches Err(f) && f.status == STATUS_BAD_REQUEST
                && f.message@ == "Invalid host"@ && final(channel)@ == old(channel)@,
            PlanModel::UnknownHost { name } => reply matches Err(f) && f.status
                == STATUS_BAD_GATEWAY && f.message@ == "Bad host: "@ + name && final(channel)@
                == old(channel)@,
            PlanModel::Forward { url, headers: _ } => match upstream {
                Upstream::Unreachable(e) => reply matches Err(f) && f.status
                    == STATUS_BAD_REQUEST && f.message@ == "Error: "@ + e@ && final(channel)@
                    == old(channel)@,
                Upstream::Answered { status, headers, body } => {
                    &&& final(channel)@ == old(channel)@.publish(EventModel::PageView { url })
                    &&& match body {
                        Ok(bytes) => reply == Ok::<Response, Failure>(
                            Response { status, headers, body: bytes },
                        ),
                        Err(e) => reply matches Err(f) && f.status
                            == STATUS_INTERNAL_SERVER_ERROR && f.message@ == "Error: "@ + e@,
                    }
                },
            },
        },
{
    let outbound = match plan_request(table, request) {
        Ok(outbound) => outbound,
        Err(failure) => {
            return Err(failure);
        },
    };
    match upstream {
        Upstream::Unreachable(e) => Err(transport_failure(e.as_str())),
        Upstream::Answered { status, headers, body } => {
            publish_page_view(channel, outbound.url);
            finish(status, headers, body)
        },
    }
}

} // verus!
