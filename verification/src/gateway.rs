//! The request handler: from one inbound request to a response or a
//! forwarding target, and from a forwarding outcome to the relayed reply.
//!
//! The pipeline for a POST request is: decode the body as JSON, flatten it
//! into a query string, compose the destination URL from the configured
//! base, and split that URL into a forwarding target. Every early exit is
//! a fixed diagnostic reply:
//! - base URL unset: 500, `GRAPHQL_TRANSFORMER_BASE_URL not set`;
//! - method not POST: 404, empty body, whatever the body holds;
//! - body not valid UTF-8 JSON: 400, `Error deserializing JSON`;
//! - document not an object: 400, `Error encoding query string`;
//! - destination URL without a usable host or port: 500,
//!   `Invalid base URL`.
//! A forwarding outcome is relayed as-is on success (the backend's status
//! and body), and as a 502 diagnostic when connecting or sending failed.

use vstd::prelude::*;

use crate::bytes::append_bytes;
use crate::bytes::ascii_u8;
use crate::bytes::text_bytes;
use crate::decode::json_doc_of;
use crate::decode::parse_json_bytes;
use crate::encode::encode;
use crate::encode::encode_spec;
use crate::url::QUERY_SEP;
use crate::url::Target;
use crate::url::TargetModel;
use crate::url::split_target;
use crate::url::target_spec;

verus! {

pub const STATUS_BAD_REQUEST: u16 = 400;

pub const STATUS_NOT_FOUND: u16 = 404;

pub const STATUS_CONFIG_ERROR: u16 = 500;

pub const STATUS_BAD_GATEWAY: u16 = 502;

/// The gateway's configuration: the backend base URL, if set.
#[derive(Clone)]
pub struct Config {
    pub base_url: Option<Vec<u8>>,
}

impl View for Config {
    type V = Option<Seq<u8>>;

    open spec fn view(&self) -> Option<Seq<u8>> {
        match self.base_url {
            Some(ref b) => Some(b@),
            None => None,
        }
    }
}

/// The inbound request method, as far as the gateway cares: POST or
/// anything else.
#[derive(Clone, Copy, Debug, PartialEq, Eq, Structural)]
pub enum Method {
    Post,
    Other,
}

/// A response to the original caller: a status code and a body.
pub struct Reply {
    pub status: u16,
    pub body: Vec<u8>,
}

pub struct ReplyModel {
    pub status: u16,
    pub body: Seq<u8>,
}

impl View for Reply {
    type V = ReplyModel;

    open spec fn view(&self) -> ReplyModel {
        ReplyModel { status: self.status, body: self.body@ }
    }
}

/// What to do with one inbound request: reply at once, or forward a GET to
/// the target and relay what comes back.
pub enum Plan {
    Reply(Reply),
    Forward(Target),
}

pub enum PlanModel {
    Reply(ReplyModel),
    Forward(TargetModel),
}

impl View for Plan {
    type V = PlanModel;

    open spec fn view(&self) -> PlanModel {
        match self {
            Plan::Reply(r) => PlanModel::Reply(r@),
            Plan::Forward(t) => PlanModel::Forward(t@),
        }
    }
}

pub open spec fn msg_no_config() -> Seq<u8> {
    ascii_u8("GRAPHQL_TRANSFORMER_BASE_URL not set"@)
}

pub open spec fn msg_bad_json() -> Seq<u8> {
    ascii_u8("Error deserializing JSON"@)
}

pub open spec fn msg_bad_shape() -> Seq<u8> {
    ascii_u8("Error encoding query string"@)
}

pub open spec fn msg_bad_base() -> Seq<u8> {
    ascii_u8("Invalid base URL"@)
}

pub open spec fn msg_connect_failed() -> Seq<u8> {
    ascii_u8("Connection failed"@)
}

pub open spec fn msg_send_failed() -> Seq<u8> {
    ascii_u8("Could not send request"@)
}

/// The plan for one request, as a function of the configuration, the
/// method, and the body bytes (through the document they decode to).
pub open spec fn handle_spec(base: Option<Seq<u8>>, method: Method, body: Seq<u8>) -> PlanModel {
    match base {
        None => PlanModel::Reply(ReplyModel { status: STATUS_CONFIG_ERROR, body: msg_no_config() }),
        Some(b) => if method != Method::Post {
            PlanModel::Reply(ReplyModel { status: STATUS_NOT_FOUND, body: Seq::empty() })
        } else {
            match json_doc_of(body) {
                None => PlanModel::Reply(
                    ReplyModel { status: STATUS_BAD_REQUEST, body: msg_bad_json() },
                ),
                Some(doc) => match encode_spec(doc) {
                    None => PlanModel::Reply(
                        ReplyModel { status: STATUS_BAD_REQUEST, body: msg_bad_shape() },
                    ),
                    Some(qs) => match target_spec(b + seq![QUERY_SEP] + qs) {
                        None => PlanModel::Reply(
                            ReplyModel { status: STATUS_CONFIG_ERROR, body: msg_bad_base() },
                        ),
                        Some(t) => PlanModel::Forward(t),
                    },
                },
            }
        },
    }
}

fn body_no_config() -> (r: Vec<u8>)
    ensures
        r@ == msg_no_config(),
{
    proof {
        reveal_strlit("GRAPHQL_TRANSFORMER_BASE_URL not set");
    }
    text_bytes("GRAPHQL_TRANSFORMER_BASE_URL not set")
}

fn body_bad_json() -> (r: Vec<u8>)
    ensures
        r@ == msg_bad_json(),
{
    proof {
        reveal_strlit("Error deserializing JSON");
    }
    text_bytes("Error deserializing JSON")
}

fn body_bad_shape() -> (r: Vec<u8>)
    ensures
        r@ == msg_bad_shape(),
{
    proof {
        reveal_strlit("Error encoding query string");
    }
    text_bytes("Error encoding query string")
}

fn body_bad_base() -> (r: Vec<u8>)
    ensures
        r@ == msg_bad_base(),
{
    proof {
        reveal_strlit("Invalid base URL");
    }
    text_bytes("Invalid base URL")
}

fn body_connect_failed() -> (r: Vec<u8>)
    ensures
        r@ == msg_connect_failed(),
{
    proof {
        reveal_strlit("Connection failed");
    }
    text_bytes("Connection failed")
}

fn body_send_failed() -> (r: Vec<u8>)
    ensures
        r@ == msg_send_failed(),
{
    proof {
        reveal_strlit("Could not send request");
    }
    text_bytes("Could not send request")
}

/// Decide what one inbound request leads to; see the module head for the
/// pipeline and every early exit.
pub fn handle_request(cfg: &Config, method: Method, body: &[u8]) -> (r: Plan)
    ensures
        r@ == handle_spec(cfg@, method, body@),
{
    let base = match &cfg.base_url {
        None => {
            return Plan::Reply(Reply { status: STATUS_CONFIG_ERROR, body: body_no_config() });
        },
        Some(b) => b,
    };
    if method != Method::Post {
        return Plan::Reply(Reply { status: STATUS_NOT_FOUND, body: Vec::new() });
    }
    let doc = match parse_json_bytes(body) {
        None => {
            return Plan::Reply(Reply { status: STATUS_BAD_REQUEST, body: body_bad_json() });
        },
        Some(d) => d,
    };
    let qs = match encode(&doc) {
        Err(_) => {
            return Plan::Reply(Reply { status: STATUS_BAD_REQUEST, body: body_bad_shape() });
        },
        Ok(q) => q,
    };
    let mut url: Vec<u8> = Vec::new();
    append_bytes(&mut url, base.as_slice());
    url.push(QUERY_SEP);
    append_bytes(&mut url, qs.as_slice());
    let ghost composed = url@;
    proof {
        assert(composed =~= base@ + seq![QUERY_SEP] + qs@);
    }
    match split_target(url) {
        None => Plan::Reply(Reply { status: STATUS_CONFIG_ERROR, body: body_bad_base() }),
        Some(t) => Plan::Forward(t),
    }
}

/// How one forwarding attempt ended: the connection could not be opened,
/// the request could not be sent (or the response not read), or the
/// backend answered.
pub enum FetchEvent {
    ConnectFailed,
    SendFailed,
    Backend { status: u16, body: Vec<u8> },
}

pub enum FetchEventModel {
    ConnectFailed,
    SendFailed,
    Backend { status: u16, body: Seq<u8> },
}

impl View for FetchEvent {
    type V = FetchEventModel;

    open spec fn view(&self) -> FetchEventModel {
        match self {
            FetchEvent::ConnectFailed => FetchEventModel::ConnectFailed,
            FetchEvent::SendFailed => FetchEventModel::SendFailed,
            FetchEvent::Backend { status, body } => FetchEventModel::Backend {
                status: *status,
                body: body@,
            },
        }
    }
}

/// The reply a forwarding outcome is relayed as: the backend's own status
/// and body on success, a 502 diagnostic otherwise.
pub open spec fn relay_spec(ev: FetchEventModel) -> ReplyModel {
    match ev {
        FetchEventModel::ConnectFailed => ReplyModel {
            status: STATUS_BAD_GATEWAY,
            body: msg_connect_failed(),
        },
        FetchEventModel::SendFailed => ReplyModel {
            status: STATUS_BAD_GATEWAY,
            body: msg_send_failed(),
        },
        FetchEventModel::Backend { status, body } => ReplyModel { status, body },
    }
}

/// Turn a forwarding outcome into the reply for the original caller.
pub fn relay(ev: FetchEvent) -> (r: Reply)
    ensures
        r@ == relay_spec(ev@),
{
    match ev {
        FetchEvent::ConnectFailed => Reply {
            status: STATUS_BAD_GATEWAY,
            body: body_connect_failed(),
        },
        FetchEvent::SendFailed => Reply { status: STATUS_BAD_GATEWAY, body: body_send_failed() },
        FetchEvent::Backend { status, body } => Reply { status, body },
    }
}

/// A non-POST request is answered 404 with an empty body, whatever the
/// body bytes hold, whenever the base URL is set.
pub proof fn lemma_non_post_not_found(base: Seq<u8>, method: Method, body: Seq<u8>)
    requires
        method != Method::Post,
    ensures
        handle_spec(Some(base), method, body) == PlanModel::Reply(
            ReplyModel { status: STATUS_NOT_FOUND, body: Seq::empty() },
        ),
{
}

/// With the base URL unset, every request is answered with the
/// configuration diagnostic, and nothing is ever forwarded.
pub proof fn lemma_unset_config(method: Method, body: Seq<u8>)
    ensures
        handle_spec(None, method, body) == PlanModel::Reply(
            ReplyModel { status: STATUS_CONFIG_ERROR, body: msg_no_config() },
        ),
        !(handle_spec(None, method, body) is Forward),
{
}

} // verus!
