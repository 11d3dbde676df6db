//! What is asked of the panel, and what is made of its refusals.

use crate::config::PanelConfig;
use crate::error::{Error, ErrorModel, RequestFailure};
use crate::peers::outcome;
use crate::text::{
    decimal, decimal_text, owned, trim, trim_end, trimmed, trimmed_end, truncate_for_log,
    truncated, CharSet,
};
use regex::Regex;
use vstd::prelude::*;
use vstd::string::*;

verus! {

/// What can be asked of the panel.
#[derive(Debug, Clone, Copy, PartialEq, Eq, Structural)]
pub enum PanelAction {
    Config,
    User,
    TrafficCumulative,
    Status,
}

impl PanelAction {
    /// The name of the action.
    pub open spec fn text(self) -> Seq<char> {
        match self {
            PanelAction::Config => "config"@,
            PanelAction::User => "user"@,
            PanelAction::TrafficCumulative => "traffic-cumulative"@,
            PanelAction::Status => "status"@,
        }
    }

    /// The name of the action.
    pub fn name(self) -> (r: &'static str)
        ensures
            r@ == self.text(),
    {
        match self {
            PanelAction::Config => "config",
            PanelAction::User => "user",
            PanelAction::TrafficCumulative => "traffic-cumulative",
            PanelAction::Status => "status",
        }
    }
}

/// Addresses the panel.
#[derive(Debug, Clone)]
pub struct PanelClient {
    pub config: PanelConfig,
}

/// The address of a panel action below a base address.
pub open spec fn action_url(base_url: Seq<char>, action: Seq<char>) -> Seq<char> {
    trimmed_end(base_url, CharSet::Only('/')) + "/api/v1/server/UniProxy/"@ + action
}

/// The query parameters of every request under the given settings.
pub open spec fn parameters(config: PanelConfig) -> Seq<(Seq<char>, Seq<char>)> {
    seq![
        ("token"@, config.token@),
        ("node_type"@, config.node_type@),
        ("node_id"@, decimal(config.node_id as nat)),
    ]
}

impl PanelClient {
    /// The address of an action.
    pub fn url(&self, action: &str) -> (r: String)
        ensures
            r@ == action_url(self.config.base_url@, action@),
    {
        let mut s = trim_end(self.config.base_url.as_str(), CharSet::Only('/'));
        s.append("/api/v1/server/UniProxy/");
        s.append(action);
        s
    }

    /// The query parameters of every request.
    pub fn query(&self) -> (r: Vec<(&str, String)>)
        ensures
            r.deep_view() == parameters(self.config),
            r.deep_view() == seq![
                ("token"@, self.config.token@),
                ("node_type"@, self.config.node_type@),
                ("node_id"@, decimal(self.config.node_id as nat)),
            ],
    {
        let mut r: Vec<(&str, String)> = Vec::new();
        r.push(("token", self.config.token.clone()));
        r.push(("node_type", self.config.node_type.clone()));
        r.push(("node_id", decimal_text(self.config.node_id as u128)));
        proof {
            assert(r.deep_view() =~= seq![
                ("token"@, self.config.token@),
                ("node_type"@, self.config.node_type@),
                ("node_id"@, decimal(self.config.node_id as nat)),
            ]);
        }
        r
    }
}

/// What went wrong with a request, by the first property that its error has.
pub open spec fn request_failure(
    is_timeout: bool,
    is_connect: bool,
    is_body: bool,
) -> RequestFailure {
    if is_timeout {
        RequestFailure::TimedOut
    } else if is_connect {
        RequestFailure::ConnectionFailed
    } else if is_body {
        RequestFailure::BodyFailed
    } else {
        RequestFailure::Other
    }
}

/// The error of a request that got no answer. Nothing of the request but its
/// action is told.
pub fn panel_request_error(action: &str, is_timeout: bool, is_connect: bool, is_body: bool) -> (r:
    Error)
    ensures
        r.deep_view() == (ErrorModel::PanelRequest {
            action: action@,
            failure: request_failure(is_timeout, is_connect, is_body),
        }),
{
    let failure = if is_timeout {
        RequestFailure::TimedOut
    } else if is_connect {
        RequestFailure::ConnectionFailed
    } else if is_body {
        RequestFailure::BodyFailed
    } else {
        RequestFailure::Other
    };
    Error::PanelRequest { action: owned(action), failure }
}

/// The error of an answer that could not be read.
pub fn panel_decode_error(action: &str) -> (r: Error)
    ensures
        r.deep_view() == (ErrorModel::PanelDecode { action: action@ }),
{
    Error::PanelDecode { action: owned(action) }
}

/// A token in a query string.
pub const QUERY_TOKEN: &'static str =
    "(?i)(\\b(?:token|server_token)=)[^&\\s\"'<>]+";

/// A token in a JSON object.
pub const JSON_TOKEN: &'static str =
    "(?i)([\"'](?:token|server_token)[\"']\\s*:\\s*[\"'])[^\"']*([\"'])";

/// `text` with every match of `pattern` replaced by `replacement`, if the
/// pattern is a valid one.
pub uninterp spec fn regex_replaced(
    pattern: Seq<char>,
    text: Seq<char>,
    replacement: Seq<char>,
) -> Option<Seq<char>>;

/// `Regex::new` and `Regex::replace_all` of `regex`: compiles the pattern and
/// replaces all its matches in the text, expanding group references in the
/// replacement; nothing comes out if the pattern does not compile. The result
/// depends on the three texts alone and is named by `regex_replaced`. The
/// language of patterns is not spelled out; all that is stated of it is that the
/// two token patterns belong to it.
#[verifier::external_body]
fn regex_replace_all(pattern: &str, text: &str, replacement: &str) -> (r: Option<String>)
    ensures
        r.deep_view() == regex_replaced(pattern@, text@, replacement@),
        pattern@ == QUERY_TOKEN@ || pattern@ == JSON_TOKEN@ ==> r is Some,
{
    match Regex::new(pattern) {
        Ok(regex) => Some(regex.replace_all(text, replacement).into_owned()),
        Err(_) => None,
    }
}

/// A text without the tokens that it reflects in query strings and then in JSON
/// objects.
pub open spec fn redacted(text: Seq<char>) -> Seq<char> {
    let once = regex_replaced(QUERY_TOKEN@, text, "${1}[REDACTED]"@)->0;
    regex_replaced(JSON_TOKEN@, once, "${1}[REDACTED]${2}"@)->0
}

/// Takes the tokens out of a text.
pub fn redact_sensitive(input: &str) -> (r: String)
    ensures
        r@ == redacted(input@),
{
    let once = regex_replace_all(QUERY_TOKEN, input, "${1}[REDACTED]").unwrap();
    regex_replace_all(JSON_TOKEN, once.as_str(), "${1}[REDACTED]${2}").unwrap()
}

/// Whether an HTTP status means success.
pub open spec fn successful(status: u16) -> bool {
    200 <= status < 300
}

/// Whether an HTTP status means success.
pub fn is_success(status: u16) -> (r: bool)
    ensures
        r == successful(status),
{
    200 <= status && status < 300
}

/// The error of a refused action, where `body` is the panel's words without
/// tokens: at most 2048 bytes of them are told.
pub open spec fn refusal(action: Seq<char>, status: u16, body: Seq<char>) -> ErrorModel {
    ErrorModel::PanelStatus { action, status, body: truncated(body, 2048) }
}

/// The error of a refused action, where `body` is the panel's words without
/// tokens.
pub fn panel_failure(action: &str, status: u16, body: &str) -> (r: Error)
    ensures
        r.deep_view() == refusal(action@, status, body@),
{
    Error::PanelStatus { action: owned(action), status, body: truncate_for_log(body, 2048) }
}

/// What an answer with the given status and body comes to.
pub open spec fn answer(action: Seq<char>, status: u16, body: Seq<char>) -> Result<
    (),
    ErrorModel,
> {
    if successful(status) {
        Ok(())
    } else {
        Err(refusal(action, status, redacted(trimmed(body, CharSet::WhiteSpace))))
    }
}

/// Accepts an answer or makes its refusal an error that tells the panel's words
/// without tokens.
pub fn panel_response(action: &str, status: u16, body: &str) -> (r: Result<(), Error>)
    ensures
        outcome(r) == answer(action@, status, body@),
{
    if is_success(status) {
        return Ok(());
    }
    let words = redact_sensitive(trim(body, CharSet::WhiteSpace).as_str());
    Err(panel_failure(action, status, words.as_str()))
}

} // verus!
