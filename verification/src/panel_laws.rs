//! What holds of the panel's addresses and of what is told of its refusals.

use crate::config::PanelConfig;
use crate::error::{error_text, ErrorModel, RequestFailure};
use crate::panel::{
    action_url, answer, parameters, redacted, refusal, regex_replaced, request_failure, successful,
    PanelAction,
};
use crate::text::{decimal, trimmed, truncated, CharSet};
use crate::text_laws::truncation_keeps_a_prefix;
use vstd::prelude::*;
use vstd::utf8::*;

verus! {

/// Slashes at the end of the base address do not change where an action is found.
pub proof fn trailing_slashes_do_not_matter(base_url: Seq<char>, action: Seq<char>)
    ensures
        action_url(base_url.push('/'), action) == action_url(base_url, action),
{
    assert(base_url.push('/').drop_last() =~= base_url);
}

/// A refused action is answered by an error that names the action and the status.
/// Of the panel's words it tells only what is left once the tokens are taken out:
/// all of it up to 2048 bytes, or else a beginning of at most that length and an
/// ellipsis.
pub proof fn refusals_tell_redacted_words(action: Seq<char>, status: u16, body: Seq<char>)
    requires
        !successful(status),
    ensures
        ({
            let words = redacted(trimmed(body, CharSet::WhiteSpace));
            let told = truncated(words, 2048);
            let head = "v2board action "@ + action + " returned HTTP "@ + decimal(status as nat);
            &&& answer(action, status, body) matches Err(e) && error_text(e) == if told.len()
                == 0 {
                head
            } else {
                head + ": "@ + told
            }
            &&& if encode_utf8(words).len() <= 2048 {
                told == words
            } else {
                exists|n: int|
                    0 <= n < words.len() && told == #[trigger] words.take(n) + "..."@
                        && encode_utf8(words.take(n)).len() <= 2048
            }
        }),
{
    let words = redacted(trimmed(body, CharSet::WhiteSpace));
    if encode_utf8(words).len() > 2048 {
        truncation_keeps_a_prefix(words, 2048);
    }
}

/// A refusal is told the same way whatever the body was, as long as the same is
/// left of it once the tokens are taken out.
pub proof fn refusals_depend_on_redacted_words(
    action: Seq<char>,
    status: u16,
    body: Seq<char>,
    other: Seq<char>,
)
    requires
        redacted(trimmed(body, CharSet::WhiteSpace)) == redacted(
            trimmed(other, CharSet::WhiteSpace),
        ),
    ensures
        answer(action, status, body) == answer(action, status, other),
{
}

/// Success is not refused, whatever the body holds.
pub proof fn successes_are_accepted(action: Seq<char>, status: u16, body: Seq<char>)
    requires
        successful(status),
    ensures
        answer(action, status, body) == Ok::<(), ErrorModel>(()),
{
}

/// An action is found below a base address that does not end in a slash, under the
/// canonical path and the action's name.
pub proof fn actions_have_the_canonical_path(base_url: Seq<char>, action: Seq<char>)
    requires
        base_url.len() > 0 ==> base_url.last() != '/',
    ensures
        action_url(base_url, action) == base_url + "/api/v1/server/UniProxy/"@ + action,
{
}

/// The panel's actions have the names that it knows.
pub proof fn actions_have_their_names()
    ensures
        PanelAction::Config.text() == "config"@,
        PanelAction::User.text() == "user"@,
        PanelAction::TrafficCumulative.text() == "traffic-cumulative"@,
        PanelAction::Status.text() == "status"@,
{
}

/// A request that failed is told as timed out wherever it was, else as one without a
/// connection, else as one with a bad body, else as failed.
pub proof fn request_failures_are_ranked(is_timeout: bool, is_connect: bool, is_body: bool)
    ensures
        is_timeout ==> request_failure(is_timeout, is_connect, is_body) == RequestFailure::TimedOut,
        !is_timeout && is_connect ==> request_failure(is_timeout, is_connect, is_body)
            == RequestFailure::ConnectionFailed,
        !is_timeout && !is_connect && is_body ==> request_failure(is_timeout, is_connect, is_body)
            == RequestFailure::BodyFailed,
        !is_timeout && !is_connect && !is_body ==> request_failure(is_timeout, is_connect, is_body)
            == RequestFailure::Other,
{
}

/// An action is accepted exactly if its status lies from 200 to 299.
pub proof fn statuses_of_success_are_accepted(action: Seq<char>, status: u16, body: Seq<char>)
    ensures
        200 <= status <= 299 ==> successful(status) && answer(action, status, body) is Ok,
        status < 200 || status > 299 ==> !successful(status) && answer(action, status, body) is Err,
{
}

/// A refusal names the action and the status as they are, and holds of the panel's
/// words what is left without white space around them and without tokens, as far as
/// it is logged.
pub proof fn refusals_hold_the_answer(action: Seq<char>, status: u16, body: Seq<char>)
    requires
        status < 200 || status > 299,
    ensures
        answer(action, status, body) == Err::<(), ErrorModel>(
            ErrorModel::PanelStatus {
                action,
                status,
                body: truncated(redacted(trimmed(body, CharSet::WhiteSpace)), 2048),
            },
        ),
        refusal(action, status, body) == (ErrorModel::PanelStatus {
            action,
            status,
            body: truncated(body, 2048),
        }),
{
}

/// A text loses the tokens of query strings first and then those of JSON objects,
/// and keeps what stands around them.
pub proof fn tokens_are_replaced_in_two_passes(text: Seq<char>)
    ensures
        redacted(text) == regex_replaced(
            "(?i)([\"'](?:token|server_token)[\"']\\s*:\\s*[\"'])[^\"']*([\"'])"@,
            regex_replaced(
                "(?i)(\\b(?:token|server_token)=)[^&\\s\"'<>]+"@,
                text,
                "${1}[REDACTED]"@,
            )->0,
            "${1}[REDACTED]${2}"@,
        )->0,
{
}

/// Every request carries the token, the node type and the node's number, as they are
/// configured, and nothing else.
pub proof fn requests_carry_the_node(config: PanelConfig)
    ensures
        parameters(config).len() == 3,
        parameters(config)[0].0 == "token"@ && parameters(config)[0].1 == config.token@,
        parameters(config)[1].0 == "node_type"@ && parameters(config)[1].1 == config.node_type@,
        parameters(config)[2].0 == "node_id"@ && parameters(config)[2].1 == decimal(
            config.node_id as nat,
        ),
{
}

} // verus!
