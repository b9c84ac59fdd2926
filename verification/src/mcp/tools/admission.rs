//! The checks a tool call passes before the server touches the mail
//! account, in the order the tools make them: the rate limit of the tool,
//! then its arguments and the configuration.  Each function makes the
//! checks of one tool and answers the first refusal.
use vstd::prelude::*;
use crate::config::Capabilities;
use crate::error::{ToolError, ToolErrorKind, ToolErrorView};
use crate::mcp::tools::mail::{
    first_invalid, parse_classification, parse_junk_action, require_ids, require_send,
    require_spam_training, admin_unavailable, valid_recipient, validate_recipients,
    validate_timestamps, SearchArgs,
};
use crate::rate_limit::{rate_refusal, RateLimiters};

verus! {

/// The refusal of a check's outcome, if it refused.
pub open spec fn denial<T>(r: Result<T, ToolError>) -> Option<ToolErrorView> {
    match r {
        Ok(_) => None,
        Err(e) => Some(e@),
    }
}

/// The first of two refusals.
pub open spec fn or_else(a: Option<ToolErrorView>, b: Option<ToolErrorView>) -> Option<ToolErrorView> {
    if a is Some {
        a
    } else {
        b
    }
}

/// An invalid-parameters refusal.
pub open spec fn invalid_params(message: Seq<char>) -> Option<ToolErrorView> {
    Some(ToolErrorView { kind: ToolErrorKind::InvalidParams, message })
}

/// An invalid-request refusal.
pub open spec fn invalid_request(message: Seq<char>) -> Option<ToolErrorView> {
    Some(ToolErrorView { kind: ToolErrorKind::InvalidRequest, message })
}

/// The refusal of the rate limit of `tool`.
pub open spec fn rate_denial(allowed: bool, tool: Seq<char>) -> Option<ToolErrorView> {
    if allowed {
        None
    } else {
        Some(rate_refusal(tool))
    }
}

/// The refusal of a time range that starts at or after its end.
pub open spec fn timestamps_denial(after: Option<i64>, before: Option<i64>) -> Option<ToolErrorView> {
    if after is Some && before is Some && after->0 >= before->0 {
        invalid_params("'after' must be before 'before'"@)
    } else {
        None
    }
}

/// The refusal of the first malformed address.
pub open spec fn recipients_denial(addrs: Seq<String>) -> Option<ToolErrorView> {
    if forall|i: int| 0 <= i < addrs.len() ==> valid_recipient(#[trigger] addrs[i]@) {
        None
    } else {
        invalid_params("Invalid email address: '"@ + addrs[first_invalid(addrs)]@ + "'"@)
    }
}

/// The refusal of a search without conditions.
pub open spec fn filter_denial(args: SearchArgs) -> Option<ToolErrorView> {
    if args.has_filter() {
        None
    } else {
        invalid_params("At least one search filter must be provided"@)
    }
}

/// The refusal of sending when it is disabled.
pub open spec fn send_denial(capabilities: Capabilities) -> Option<ToolErrorView> {
    if capabilities.send {
        None
    } else {
        invalid_request("Sending emails is disabled. Enable 'capabilities.send = true' in config."@)
    }
}

/// The refusal of spam training when it is disabled.
pub open spec fn training_denial(capabilities: Capabilities) -> Option<ToolErrorView> {
    if capabilities.spam_training {
        None
    } else {
        invalid_request("Spam training is disabled. Enable 'capabilities.spam_training = true' in config."@)
    }
}

/// The refusal of spam training without an administration client.
pub open spec fn admin_denial(available: bool) -> Option<ToolErrorView> {
    if available {
        None
    } else {
        Some(
            ToolErrorView {
                kind: ToolErrorKind::Internal,
                message: "Admin API client not available. Check STALWART_ADMIN_PASSWORD env var."@,
            },
        )
    }
}

/// The refusal of a bulk operation on no message.
pub open spec fn ids_denial(ids: Seq<String>) -> Option<ToolErrorView> {
    if ids.len() > 0 {
        None
    } else {
        invalid_params("No email IDs provided"@)
    }
}

/// The refusal of an unknown bulk junk action.
pub open spec fn junk_action_denial(action: Seq<char>) -> Option<ToolErrorView> {
    if action == "junk"@ || action == "notjunk"@ {
        None
    } else {
        invalid_params("Unknown action '"@ + action + "'. Use: junk, notjunk"@)
    }
}

/// The refusal of an unknown spam classification.
pub open spec fn classification_denial(classification: Seq<char>) -> Option<ToolErrorView> {
    if classification == "spam"@ || classification == "ham"@ {
        None
    } else {
        invalid_params("Unknown classification '"@ + classification + "'. Use: spam, ham"@)
    }
}

/// `mail_list_recent`: its rate limit, then the time range.
pub fn admit_list_recent(limiters: &mut RateLimiters, after: Option<i64>, before: Option<i64>) -> (r: Result<(), ToolError>)
    requires
        old(limiters).wf(),
    ensures
        exists|allowed: bool| #[trigger] RateLimiters::checked(*old(limiters), *final(limiters), "mail_list_recent"@, allowed)
            && denial(r) == or_else(rate_denial(allowed, "mail_list_recent"@), timestamps_denial(after, before)),
{
    let rate = limiters.check("mail_list_recent");
    assert(RateLimiters::checked(*old(limiters), *limiters, "mail_list_recent"@, rate is Ok));
    rate?;
    validate_timestamps(after, before)
}

/// `mail_search`: a search condition, before anything is charged; then the
/// rate limit, then the time range.
pub fn admit_search(limiters: &mut RateLimiters, args: &SearchArgs) -> (r: Result<(), ToolError>)
    requires
        old(limiters).wf(),
    ensures
        !args.has_filter() ==> *final(limiters) == *old(limiters) && denial(r) == filter_denial(*args),
        args.has_filter() ==> exists|allowed: bool| #[trigger] RateLimiters::checked(*old(limiters), *final(limiters), "mail_search"@, allowed)
            && denial(r) == or_else(rate_denial(allowed, "mail_search"@), timestamps_denial(args.after, args.before)),
{
    args.require_filter()?;
    let rate = limiters.check("mail_search");
    assert(RateLimiters::checked(*old(limiters), *limiters, "mail_search"@, rate is Ok));
    rate?;
    validate_timestamps(args.after, args.before)
}

/// The tool that composes a message: `mail_send` when sending, else
/// `mail_draft`.
pub open spec fn compose_tool(send: bool) -> Seq<char> {
    if send {
        "mail_send"@
    } else {
        "mail_draft"@
    }
}

/// `mail_send` (when `send`) or `mail_draft`: the tool's rate limit, then for
/// sending the `send` capability, then the recipients and the copy
/// recipients.
pub fn admit_compose(
    limiters: &mut RateLimiters,
    send: bool,
    capabilities: &Capabilities,
    to: &[String],
    cc: &[String],
) -> (r: Result<(), ToolError>)
    requires
        old(limiters).wf(),
    ensures
        exists|allowed: bool| #[trigger] RateLimiters::checked(
            *old(limiters),
            *final(limiters),
            compose_tool(send),
            allowed,
        ) && denial(r) == or_else(
            rate_denial(allowed, compose_tool(send)),
            or_else(
                if send { send_denial(*capabilities) } else { None },
                or_else(recipients_denial(to@), recipients_denial(cc@)),
            ),
        ),
{
    let tool = if send { "mail_send" } else { "mail_draft" };
    assert(tool@ == compose_tool(send));
    let rate = limiters.check(tool);
    assert(RateLimiters::checked(*old(limiters), *limiters, compose_tool(send), rate is Ok));
    rate?;
    if send {
        require_send(capabilities)?;
    }
    validate_recipients(to)?;
    validate_recipients(cc)
}

/// `mail_bulk_junk`: its rate limit, then the action, then the messages;
/// gives whether to mark as junk and the label of the answer.
pub fn admit_bulk_junk(limiters: &mut RateLimiters, action: &str, ids: &[String]) -> (r: Result<(bool, &'static str), ToolError>)
    requires
        old(limiters).wf(),
    ensures
        exists|allowed: bool| #[trigger] RateLimiters::checked(*old(limiters), *final(limiters), "mail_bulk_junk"@, allowed)
            && denial(r) == or_else(
            rate_denial(allowed, "mail_bulk_junk"@),
            or_else(junk_action_denial(action@), ids_denial(ids@)),
        ),
        r matches Ok((j, l)) ==> j == (action@ == "junk"@) && l@ == if j { "junk"@ } else { "not junk"@ },
{
    let rate = limiters.check("mail_bulk_junk");
    assert(RateLimiters::checked(*old(limiters), *limiters, "mail_bulk_junk"@, rate is Ok));
    rate?;
    let parsed = parse_junk_action(action)?;
    require_ids(ids)?;
    Ok(parsed)
}

/// `mail_bulk_delete` or `mail_bulk_read` (named by `tool`): its rate limit,
/// then the messages.
pub fn admit_bulk(limiters: &mut RateLimiters, tool: &str, ids: &[String]) -> (r: Result<(), ToolError>)
    requires
        old(limiters).wf(),
    ensures
        exists|allowed: bool| #[trigger] RateLimiters::checked(*old(limiters), *final(limiters), tool@, allowed)
            && denial(r) == or_else(rate_denial(allowed, tool@), ids_denial(ids@)),
{
    let rate = limiters.check(tool);
    assert(RateLimiters::checked(*old(limiters), *limiters, tool@, rate is Ok));
    rate?;
    require_ids(ids)
}

/// `spam_train`: its rate limit, then the `spam_training` capability, then
/// the administration client, then the classification; gives whether the
/// messages are spam.
pub fn admit_spam_train(
    limiters: &mut RateLimiters,
    capabilities: &Capabilities,
    admin_available: bool,
    classification: &str,
) -> (r: Result<bool, ToolError>)
    requires
        old(limiters).wf(),
    ensures
        exists|allowed: bool| #[trigger] RateLimiters::checked(*old(limiters), *final(limiters), "spam_train"@, allowed)
            && denial(r) == or_else(
            rate_denial(allowed, "spam_train"@),
            or_else(
                training_denial(*capabilities),
                or_else(admin_denial(admin_available), classification_denial(classification@)),
            ),
        ),
        r matches Ok(spam) ==> spam == (classification@ == "spam"@),
{
    let rate = limiters.check("spam_train");
    assert(RateLimiters::checked(*old(limiters), *limiters, "spam_train"@, rate is Ok));
    rate?;
    require_spam_training(capabilities)?;
    if !admin_available {
        return Err(admin_unavailable());
    }
    parse_classification(classification)
}

} // verus!
