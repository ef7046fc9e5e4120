//! Laws of requests and responses.

use vstd::prelude::*;
use vstd::utf8::encode_utf8;

use crate::domain::sdk_info::SdkInfo;
use crate::error::{Error, ErrorView};
use crate::error_tracking::service::ErrorTracker;
use crate::feature_flags::service::{Endpoint, FeatureFlags};
use crate::json::{json_of_text, json_text, json_tree};
use crate::metrics::service::Metrics;
use crate::text::decimal_text;
use crate::transport::{
    body_text, capitalize, gzip, header_texts, join_server_url, log_outcome, resolve_server_url,
    status_text, upper_case, url_join, url_parse, LogLevel, LogLine, Request, StatusCode,
    SubmissionOutcome, Transport, TransportView, Url,
};
use crate::validated::token::Token;
use crate::value::{JsonValue, JsonView};

verus! {

/// A status has three digits, and is one of success in the two hundreds.
pub proof fn law_status(code: u16, made: Option<StatusCode>, same: u16, success: bool, text: String)
    requires
        call_ensures(StatusCode::from_u16, (code,), made),
        made is Some,
        call_ensures(StatusCode::as_u16, (&made->0,), same),
        call_ensures(StatusCode::is_success, (&made->0,), success),
        call_ensures(StatusCode::text, (&made->0,), text),
    ensures
        100 <= code <= 999,
        same == code,
        success <==> code / 100 == 2,
        text@ == status_text(code),
{
}

/// Every number of three digits is a status, and no other is.
pub proof fn law_status_digits(code: u16, made: Option<StatusCode>)
    requires
        call_ensures(StatusCode::from_u16, (code,), made),
    ensures
        made is Some <==> 1 <= code / 100 <= 9,
        made is Some ==> made->0@ == code,
{
}

/// An outcome is one of success exactly if its status is; it has warnings
/// exactly if its body is a JSON object with such an entry.
pub proof fn law_outcome(outcome: &SubmissionOutcome, success: bool, warnings: bool, body: &str)
    requires
        call_ensures(SubmissionOutcome::is_successful, (outcome,), success),
        call_ensures(SubmissionOutcome::has_warnings, (outcome,), warnings),
        call_ensures(SubmissionOutcome::body_or_empty, (outcome,), body),
    ensures
        success <==> outcome.status@ / 100 == 2,
        warnings <==> outcome.body is Some && json_of_text(outcome.body->0@) is Ok && json_of_text(
            outcome.body->0@,
        )->Ok_0 is Object && json_of_text(outcome.body->0@)->Ok_0->Object_0.contains_key(
            "warnings"@,
        ),
        outcome.body is Some ==> body@ == outcome.body->0@,
        outcome.body is None ==> body@.len() == 0,
{
}

/// What is logged of an outcome goes by the hundreds of its status: success
/// quietly, or as a warning if the body has some; redirects and what is
/// unknown as warnings; everything else as errors. The line always tells the
/// status and the body.
pub proof fn law_log_outcome(
    outcome: &SubmissionOutcome,
    name: &str,
    capital: String,
    warnings: bool,
    body: &str,
    r: LogLine,
)
    requires
        call_ensures(log_outcome, (outcome, name), r),
        call_ensures(capitalize, (name,), capital),
        call_ensures(SubmissionOutcome::has_warnings, (outcome,), warnings),
        call_ensures(SubmissionOutcome::body_or_empty, (outcome,), body),
    ensures
        ({
            let hundreds = outcome.status@ / 100;
            let details = decimal_text(outcome.status@ as nat) + " ("@ + body@ + ")"@;
            &&& hundreds == 2 && !warnings ==> r.level == LogLevel::Debug
            &&& hundreds == 2 && warnings ==> r.level == LogLevel::Warn
            &&& hundreds == 4 || hundreds == 5 ==> r.level == LogLevel::Error
            &&& hundreds != 2 && hundreds != 4 && hundreds != 5 ==> r.level == LogLevel::Warn
            &&& hundreds == 2 ==> r.message@ == capital@
                + " submitted successfully with status code: "@ + details
            &&& hundreds == 3 ==> r.message@ == "Received redirect response from "@ + name@
                + " server: "@ + details
            &&& hundreds == 4 ==> r.message@ == "Submitted invalid request to "@ + name@
                + " server: "@ + details
            &&& hundreds == 5 ==> r.message@ == "Received server error response from "@ + name@
                + " server: "@ + details
            &&& hundreds < 2 || hundreds > 5 ==> r.message@
                == "Received unexpected response from "@ + name@ + " server: "@ + details
        }),
{
    assert(body@ == body_text(outcome.body));
}

/// Only the first character changes, to its upper case.
pub proof fn law_capitalize(value: &str, r: String)
    requires
        call_ensures(capitalize, (value,), r),
    ensures
        value@.len() == 0 ==> r@.len() == 0,
        value@.len() > 0 ==> r@ == upper_case(value@[0]) + value@.skip(1),
        value@.len() > 0 && 'a' <= value@[0] <= 'z' ==> r@.len() == value@.len() && r@[0] == ((
        value@[0] as u8) - 32) as u8 as char,
{
}

/// The address that the environment names counts if it is one; else the
/// default does, and if that is none, it is an error.
pub proof fn law_resolved_url(
    env_var: &'static str,
    value: Option<&str>,
    default_url: &str,
    r: Result<Url, Error>,
)
    requires
        call_ensures(resolve_server_url, (env_var, value, default_url), r),
    ensures
        value is Some && url_parse(value->0@) is Ok ==> r is Ok && r->Ok_0@ == url_parse(
            value->0@,
        )->Ok_0,
        (value is None || url_parse(value->0@) is Err) && url_parse(default_url@) is Ok ==> r is Ok
            && r->Ok_0@ == url_parse(default_url@)->Ok_0,
        (value is None || url_parse(value->0@) is Err) && url_parse(default_url@) is Err ==> r
            is Err && r->Err_0@ == (ErrorView::InvalidServerUrl {
            env_var: env_var@,
            reason: url_parse(default_url@)->Err_0,
        }),
{
}

/// A path on a server is joined to its address, or is an error that names
/// the variable of the server.
pub proof fn law_joined_url(env_var: &'static str, base: &Url, path: &str, r: Result<Url, Error>)
    requires
        call_ensures(join_server_url, (env_var, base, path), r),
    ensures
        url_join(base@, path@) is Ok ==> r is Ok && r->Ok_0@ == url_join(base@, path@)->Ok_0,
        url_join(base@, path@) is Err ==> r is Err && r->Err_0@ == (ErrorView::InvalidServerUrl {
            env_var: env_var@,
            reason: url_join(base@, path@)->Err_0,
        }),
{
}

/// An address is read, joined and shown as it is.
pub proof fn law_url(
    text: &str,
    path: &str,
    url: Result<Url, String>,
    joined: Result<Url, String>,
    shown: &str,
)
    requires
        call_ensures(Url::parse, (text,), url),
        url is Ok,
        call_ensures(Url::join, (&url->Ok_0, path), joined),
        call_ensures(Url::as_str, (&url->Ok_0,), shown),
    ensures
        url_parse(text@) is Ok && shown@ == url_parse(text@)->Ok_0,
        joined is Ok <==> url_join(shown@, path@) is Ok,
        joined is Ok ==> joined->Ok_0@ == url_join(shown@, path@)->Ok_0,
        joined is Err ==> joined->Err_0@ == url_join(shown@, path@)->Err_0,
{
}

/// A submission goes to its address with the token, the user agent and the
/// marks of a compressed body, which is the JSON text of the data.
pub proof fn law_submission(
    token: Token,
    sdk_info: SdkInfo,
    transport: Transport,
    url: &Url,
    data: &JsonValue,
    tree: &serde_json::Value,
    r: Result<Request, Error>,
)
    requires
        call_ensures(Transport::new, (token, sdk_info), transport),
        call_ensures(Transport::submit, (&transport, url, data, tree), r),
    ensures
        json_tree(*tree) != data@ ==> r is Err && r->Err_0@ == ErrorView::Serialization(
            "value differs from its JSON form"@,
        ),
        json_tree(*tree) == data@ ==> (r is Ok <==> gzip(encode_utf8(json_text(data@))) is Ok),
        r is Ok ==> r->Ok_0.url@ == url@ && gzip(encode_utf8(json_text(data@))) == Ok::<
            Seq<u8>,
            Seq<char>,
        >(r->Ok_0.body@) && is_header(r->Ok_0, 0, "Authorization"@, "Bearer "@ + token@)
            && is_header(r->Ok_0, 1, "User-Agent"@, sdk_info@.user_agent) && is_header(
            r->Ok_0,
            2,
            "Content-Encoding"@,
            "gzip"@,
        ) && is_header(r->Ok_0, 3, "Content-Type"@, "application/octet-stream"@)
            && r->Ok_0.headers@.len() == 4,
{
    if r is Ok {
        lemma_headers(r->Ok_0);
    }
}

/// A plain request goes to its address with the token and the type of its
/// body, which is the JSON text of the data; it names no user agent.
pub proof fn law_plain_request(
    token: Token,
    sdk_info: SdkInfo,
    transport: Transport,
    url: &Url,
    data: &JsonValue,
    tree: &serde_json::Value,
    r: Result<Request, Error>,
)
    requires
        call_ensures(Transport::new, (token, sdk_info), transport),
        call_ensures(Transport::submit_json, (&transport, url, data, tree), r),
    ensures
        r is Ok <==> json_tree(*tree) == data@,
        r is Err ==> r->Err_0@ == ErrorView::Serialization("value differs from its JSON form"@),
        r is Ok ==> r->Ok_0.url@ == url@ && r->Ok_0.body@ == encode_utf8(json_text(data@))
            && is_header(r->Ok_0, 0, "Authorization"@, "Bearer "@ + token@) && is_header(
            r->Ok_0,
            1,
            "Content-Type"@,
            "application/json"@,
        ) && r->Ok_0.headers@.len() == 2,
{
    if r is Ok {
        lemma_headers(r->Ok_0);
    }
}

/// Whether this is the header at that place.
pub open spec fn is_header(request: Request, i: int, name: Seq<char>, value: Seq<char>) -> bool {
    request.headers@[i].0@ == name && request.headers@[i].1@ == value
}

proof fn lemma_headers(request: Request)
    ensures
        header_texts(request.headers@).len() == request.headers@.len(),
        forall|i: int|
            0 <= i < request.headers@.len() ==> is_header(
                request,
                i,
                #[trigger] header_texts(request.headers@)[i].0,
                header_texts(request.headers@)[i].1,
            ),
{
}

/// Metrics and errors are sent compressed, with the token and the user agent
/// of their client, each to the address of its own service. What cannot be
/// serialized or compressed is not sent.
pub proof fn law_service_requests<F: Fn() -> Result<Option<JsonValue>, Error>, G: Fn()>(
    metrics: &Metrics<F, G>,
    errors: &ErrorTracker,
    data: &JsonValue,
    tree: &serde_json::Value,
    a: Result<Request, Error>,
    b: Result<Request, Error>,
)
    requires
        call_ensures(Metrics::<F, G>::request, (metrics, data, tree), a),
        call_ensures(ErrorTracker::request, (errors, data, tree), b),
    ensures
        a is Ok <==> json_tree(*tree) == data@ && gzip(encode_utf8(json_text(data@))) is Ok,
        b is Ok <==> a is Ok,
        a is Ok ==> is_compressed_request(a->Ok_0, metrics@.url, metrics@.transport, data@),
        b is Ok ==> is_compressed_request(b->Ok_0, errors@.url, errors@.transport, data@),
        a is Err ==> b->Err_0@ == a->Err_0@,
{
    if a is Ok {
        lemma_headers(a->Ok_0);
    }
    if b is Ok {
        lemma_headers(b->Ok_0);
    }
}

/// Whether a request sends `data` compressed to `url`, in the name of a
/// client.
pub open spec fn is_compressed_request(
    request: Request,
    url: Seq<char>,
    transport: TransportView,
    data: JsonView,
) -> bool {
    &&& request.url@ == url
    &&& gzip(encode_utf8(json_text(data))) == Ok::<Seq<u8>, Seq<char>>(request.body@)
    &&& request.headers@.len() == 4
    &&& is_header(request, 0, "Authorization"@, "Bearer "@ + transport.token)
    &&& is_header(request, 1, "User-Agent"@, transport.sdk_info.user_agent)
    &&& is_header(request, 2, "Content-Encoding"@, "gzip"@)
    &&& is_header(request, 3, "Content-Type"@, "application/octet-stream"@)
}

/// A request about a flag goes to the address of what it is for, as it is,
/// with the token of its client.
pub proof fn law_flag_requests(
    flags: &FeatureFlags,
    endpoint: Endpoint,
    data: &JsonValue,
    tree: &serde_json::Value,
    r: Result<Request, Error>,
)
    requires
        call_ensures(FeatureFlags::request, (flags, endpoint, data, tree), r),
    ensures
        r is Ok <==> json_tree(*tree) == data@,
        r is Ok && endpoint == Endpoint::Check ==> r->Ok_0.url@ == flags@.urls.check,
        r is Ok && endpoint == Endpoint::OptIn ==> r->Ok_0.url@ == flags@.urls.opt_in,
        r is Ok && endpoint == Endpoint::OptOut ==> r->Ok_0.url@ == flags@.urls.opt_out,
        r is Ok ==> r->Ok_0.body@ == encode_utf8(json_text(data@)) && r->Ok_0.headers@.len() == 2
            && is_header(r->Ok_0, 0, "Authorization"@, "Bearer "@ + flags@.transport.token)
            && is_header(r->Ok_0, 1, "Content-Type"@, "application/json"@),
{
    if r is Ok {
        lemma_headers(r->Ok_0);
    }
}

} // verus!
