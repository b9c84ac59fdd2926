//! The texts of the MCP prompts.
use vstd::prelude::*;
use crate::text::{owned, opt_view};

verus! {

/// Arguments of the `draft_reply` prompt.
#[derive(Debug, Clone, PartialEq, Eq)]
pub struct DraftReplyArgs {
    /// The email message ID to reply to
    pub message_id: String,
    /// Account name to use. Omit for the default account.
    pub account: Option<String>,
    /// Tone for the reply: formal, casual, or brief (default: formal)
    pub tone: Option<String>,
}

/// Arguments of the `search_and_summarize` prompt.
#[derive(Debug, Clone, PartialEq, Eq)]
pub struct SearchSummarizeArgs {
    /// Search query (e.g. "invoice from Acme", "meeting agenda")
    pub query: String,
    /// Account name to use. Omit for the default account.
    pub account: Option<String>,
}

/// Who speaks a prompt message.
#[derive(Debug, Clone, Copy, PartialEq, Eq, Structural)]
pub enum PromptRole {
    User,
    Assistant,
}

/// One message of a prompt.
#[derive(Debug, Clone, PartialEq, Eq)]
pub struct PromptText {
    pub role: PromptRole,
    pub text: String,
}

/// A conversation of two messages, the user's then the assistant's.
pub open spec fn is_exchange(msgs: Seq<PromptText>, user: Seq<char>, assistant: Seq<char>) -> bool {
    &&& msgs.len() == 2
    &&& msgs[0].role == PromptRole::User && msgs[0].text@ == user
    &&& msgs[1].role == PromptRole::Assistant && msgs[1].text@ == assistant
}

fn exchange(user: String, assistant: String) -> (r: Vec<PromptText>)
    ensures
        is_exchange(r@, user@, assistant@),
{
    let mut r: Vec<PromptText> = Vec::new();
    r.push(PromptText { role: PromptRole::User, text: user });
    r.push(PromptText { role: PromptRole::Assistant, text: assistant });
    r
}

/// The user's request of `triage_inbox`.
pub open spec fn triage_user_text() -> Seq<char> {
    "Triage my inbox. Show me what needs attention."@
}

/// The assistant's plan of `triage_inbox`.
pub open spec fn triage_assistant_text() -> Seq<char> {
    "I'll triage your inbox now. Here's my approach:\n\n1. First, I'll fetch your recent unread emails using `mail_list_recent` with `unread_only: true`\n2. For each email, I'll assess urgency based on sender, subject, and age\n3. I'll group them into:\n   - **Action required** \u{2014} needs a reply or decision\n   - **FYI** \u{2014} informational, can be read later\n   - **Low priority** \u{2014} newsletters, notifications, can be archived\n4. For action-required emails, I'll suggest next steps\n5. I can flag important ones or archive low-priority ones if you'd like\n\nLet me start by listing your unread messages."@
}

/// Summarize unread emails, flag what's important, suggest actions.
pub fn triage_inbox() -> (r: Vec<PromptText>)
    ensures
        is_exchange(r@, triage_user_text(), triage_assistant_text()),
{
    exchange(
        owned("Triage my inbox. Show me what needs attention."),
        owned("I'll triage your inbox now. Here's my approach:\n\n1. First, I'll fetch your recent unread emails using `mail_list_recent` with `unread_only: true`\n2. For each email, I'll assess urgency based on sender, subject, and age\n3. I'll group them into:\n   - **Action required** \u{2014} needs a reply or decision\n   - **FYI** \u{2014} informational, can be read later\n   - **Low priority** \u{2014} newsletters, notifications, can be archived\n4. For action-required emails, I'll suggest next steps\n5. I can flag important ones or archive low-priority ones if you'd like\n\nLet me start by listing your unread messages."),
    )
}

/// The tone of a reply: the one asked for, else `formal`.
pub open spec fn reply_tone(tone: Option<Seq<char>>) -> Seq<char> {
    match tone {
        Some(t) => t,
        None => "formal"@,
    }
}

/// The account mention of `draft_reply`: ` (account: NAME)`, or nothing.
pub open spec fn reply_account_hint(account: Option<Seq<char>>) -> Seq<char> {
    match account {
        Some(a) => " (account: "@ + a + ")"@,
        None => Seq::empty(),
    }
}

/// The user's request of `draft_reply`.
pub open spec fn draft_user_text(tone: Seq<char>, id: Seq<char>, hint: Seq<char>) -> Seq<char> {
    "Draft a "@ + tone + " reply to message ID: "@ + id + hint
}

/// The assistant's plan of `draft_reply`.
pub open spec fn draft_assistant_text(tone: Seq<char>, id: Seq<char>, hint: Seq<char>) -> Seq<char> {
    "I'll draft a "@ + tone + " reply. Here's my approach:\n\n1. First, I'll fetch the original message using `mail_get` with ID `"@
        + id + "`"@ + hint
        + "\n2. I'll read the full conversation thread for context\n3. I'll compose a "@ + tone
        + " reply that:\n   - Addresses the key points raised\n   - Matches the "@ + tone
        + " tone you requested\n   - Keeps it concise and actionable\n4. I'll save it as a draft using `mail_draft` so you can review before sending\n\nLet me fetch the original message first."@
}

/// Draft a contextual reply to an email, with optional tone control.
pub fn draft_reply(args: &DraftReplyArgs) -> (r: Vec<PromptText>)
    ensures
        ({
            let tone = reply_tone(opt_view(args.tone));
            let hint = reply_account_hint(opt_view(args.account));
            is_exchange(
                r@,
                draft_user_text(tone, args.message_id@, hint),
                draft_assistant_text(tone, args.message_id@, hint),
            )
        }),
{
    let tone: &str = match &args.tone {
        Some(t) => t.as_str(),
        None => "formal",
    };
    let hint = match &args.account {
        Some(a) => {
            let mut h = owned(" (account: ");
            h.append(a.as_str());
            h.append(")");
            h
        },
        None => String::new(),
    };
    let id = args.message_id.as_str();
    let mut user = owned("Draft a ");
    user.append(tone);
    user.append(" reply to message ID: ");
    user.append(id);
    user.append(hint.as_str());
    let mut assistant = owned("I'll draft a ");
    assistant.append(tone);
    assistant.append(" reply. Here's my approach:\n\n1. First, I'll fetch the original message using `mail_get` with ID `");
    assistant.append(id);
    assistant.append("`");
    assistant.append(hint.as_str());
    assistant.append("\n2. I'll read the full conversation thread for context\n3. I'll compose a ");
    assistant.append(tone);
    assistant.append(" reply that:\n   - Addresses the key points raised\n   - Matches the ");
    assistant.append(tone);
    assistant.append(" tone you requested\n   - Keeps it concise and actionable\n4. I'll save it as a draft using `mail_draft` so you can review before sending\n\nLet me fetch the original message first.");
    exchange(user, assistant)
}

/// The account mention of `search_and_summarize`: ` in account 'NAME'`, or nothing.
pub open spec fn search_account_hint(account: Option<Seq<char>>) -> Seq<char> {
    match account {
        Some(a) => " in account '"@ + a + "'"@,
        None => Seq::empty(),
    }
}

/// The user's request of `search_and_summarize`.
pub open spec fn search_user_text(query: Seq<char>, hint: Seq<char>) -> Seq<char> {
    "Search for \""@ + query + "\""@ + hint + " and summarize what you find."@
}

/// The assistant's plan of `search_and_summarize`.
pub open spec fn search_assistant_text(query: Seq<char>, hint: Seq<char>) -> Seq<char> {
    "I'll search and summarize. Here's my approach:\n\n1. Search for emails matching \""@ + query + "\""@ + hint
        + " using `mail_search`\n2. For relevant results, fetch full content with `mail_get`\n3. Present findings organized by:\n   - **Timeline** \u{2014} when the key exchanges happened\n   - **Key points** \u{2014} decisions, commitments, action items\n   - **People involved** \u{2014} who said what\n   - **Attachments** \u{2014} any relevant documents referenced\n4. Highlight anything that still needs follow-up\n\nLet me search now."@
}

/// Search for emails and provide a structured summary of the results.
pub fn search_and_summarize(args: &SearchSummarizeArgs) -> (r: Vec<PromptText>)
    ensures
        ({
            let hint = search_account_hint(opt_view(args.account));
            is_exchange(
                r@,
                search_user_text(args.query@, hint),
                search_assistant_text(args.query@, hint),
            )
        }),
{
    let hint = match &args.account {
        Some(a) => {
            let mut h = owned(" in account '");
            h.append(a.as_str());
            h.append("'");
            h
        },
        None => String::new(),
    };
    let query = args.query.as_str();
    let mut user = owned("Search for \"");
    user.append(query);
    user.append("\"");
    user.append(hint.as_str());
    user.append(" and summarize what you find.");
    let mut assistant = owned("I'll search and summarize. Here's my approach:\n\n1. Search for emails matching \"");
    assistant.append(query);
    assistant.append("\"");
    assistant.append(hint.as_str());
    assistant.append(" using `mail_search`\n2. For relevant results, fetch full content with `mail_get`\n3. Present findings organized by:\n   - **Timeline** \u{2014} when the key exchanges happened\n   - **Key points** \u{2014} decisions, commitments, action items\n   - **People involved** \u{2014} who said what\n   - **Attachments** \u{2014} any relevant documents referenced\n4. Highlight anything that still needs follow-up\n\nLet me search now.");
    exchange(user, assistant)
}

} // verus!
