//! Arguments of the mail tools and the checks and answers the tools make.
use vstd::prelude::*;
use vstd::utf8::encode_utf8;
use crate::config::Capabilities;
use crate::error::{ToolError, ToolErrorKind};
use crate::text::{concat2, concat3, contains_char, decimal, decimal_string, owned, str_eq};

verus! {

/// Arguments of `mail_list_folders`.
#[derive(Debug, Clone, PartialEq, Eq)]
pub struct ListFoldersArgs {
    /// Account to list folders for. Omit to use the default account.
    pub account: Option<String>,
}

/// Arguments of `mail_list_recent`.
#[derive(Debug, Clone, PartialEq, Eq)]
pub struct ListRecentArgs {
    /// Account name to use. Omit for the default account.
    pub account: Option<String>,
    /// Mailbox name (e.g. "INBOX", "Drafts") or mailbox ID. Omit for all mailboxes.
    pub folder: Option<String>,
    /// Maximum number of messages to return (default: 20, max: 100)
    pub count: Option<usize>,
    /// Only return unread messages
    pub unread_only: bool,
    /// Only return emails received after this UTC timestamp (seconds since epoch)
    pub after: Option<i64>,
    /// Only return emails received before this UTC timestamp (seconds since epoch)
    pub before: Option<i64>,
    /// Pagination offset (0-based).
    pub offset: Option<i32>,
}

/// Arguments of `mail_search`.
#[derive(Debug, Clone, PartialEq, Eq)]
pub struct SearchArgs {
    /// Account name to use. Omit for the default account.
    pub account: Option<String>,
    /// Full-text search query
    pub query: Option<String>,
    /// Filter by sender name or email address
    pub from: Option<String>,
    /// Filter by recipient name or email address
    pub to: Option<String>,
    /// Filter by subject line
    pub subject: Option<String>,
    /// Restrict search to this mailbox name or ID
    pub folder: Option<String>,
    /// Only return emails received after this UTC timestamp (seconds since epoch)
    pub after: Option<i64>,
    /// Only return emails received before this UTC timestamp (seconds since epoch)
    pub before: Option<i64>,
    /// Only return emails with attachments
    pub has_attachment: Option<bool>,
    /// Maximum number of results (default: 20, max: 100)
    pub limit: Option<usize>,
}

/// Arguments of `mail_get`.
#[derive(Debug, Clone, PartialEq, Eq)]
pub struct GetEmailArgs {
    /// Account name to use. Omit for the default account.
    pub account: Option<String>,
    /// The email message ID to retrieve
    pub id: String,
}

/// Arguments of `mail_flag`.
#[derive(Debug, Clone, PartialEq, Eq)]
pub struct FlagArgs {
    /// Account name to use. Omit for the default account.
    pub account: Option<String>,
    /// The email message ID
    pub id: String,
    /// Action: "read", "unread", "flag", "unflag", "junk", or "notjunk"
    pub action: String,
}

/// Arguments of `spam_train`.
#[derive(Debug, Clone, PartialEq, Eq)]
pub struct SpamTrainArgs {
    /// Account name to use. Omit for the default account.
    pub account: Option<String>,
    /// List of email message IDs to train
    pub ids: Vec<String>,
    /// Classification: "spam" or "ham"
    pub classification: String,
}

/// Arguments of `mail_bulk_junk`.
#[derive(Debug, Clone, PartialEq, Eq)]
pub struct BulkJunkArgs {
    /// Account name to use. Omit for the default account.
    pub account: Option<String>,
    /// List of email message IDs to mark as junk (or not junk)
    pub ids: Vec<String>,
    /// Action: "junk" or "notjunk"
    pub action: String,
}

/// Arguments of `mail_bulk_delete`.
#[derive(Debug, Clone, PartialEq, Eq)]
pub struct BulkDeleteArgs {
    /// Account name to use. Omit for the default account.
    pub account: Option<String>,
    /// List of email message IDs to permanently delete
    pub ids: Vec<String>,
}

/// Arguments of `mail_bulk_read`.
#[derive(Debug, Clone, PartialEq, Eq)]
pub struct BulkReadArgs {
    /// Account name to use. Omit for the default account.
    pub account: Option<String>,
    /// List of email message IDs to mark as read
    pub ids: Vec<String>,
}

/// The action of `mail_bulk_junk` when none is given.
pub fn default_junk_action() -> (s: String)
    ensures
        s@ == "junk"@,
{
    owned("junk")
}

/// Arguments of `mail_move`.
#[derive(Debug, Clone, PartialEq, Eq)]
pub struct MoveArgs {
    /// Account name to use. Omit for the default account.
    pub account: Option<String>,
    /// The email message ID
    pub id: String,
    /// Target folder name (e.g. "Archive", "Trash") or mailbox ID
    pub folder: String,
}

/// Arguments of `mail_draft`.
#[derive(Debug, Clone, PartialEq, Eq)]
pub struct DraftArgs {
    /// Account name to use. Omit for the default account.
    pub account: Option<String>,
    /// Recipient email addresses
    pub to: Vec<String>,
    /// Email subject
    pub subject: String,
    /// Plain text email body
    pub body: String,
    /// CC email addresses
    pub cc: Vec<String>,
    /// Email ID to reply to (sets In-Reply-To header for threading)
    pub reply_to_id: Option<String>,
}

/// Arguments of `mail_send`.
#[derive(Debug, Clone, PartialEq, Eq)]
pub struct SendArgs {
    /// Account name to use. Omit for the default account.
    pub account: Option<String>,
    /// Recipient email addresses
    pub to: Vec<String>,
    /// Email subject
    pub subject: String,
    /// Plain text email body
    pub body: String,
    /// CC email addresses
    pub cc: Vec<String>,
    /// Email ID to reply to (sets In-Reply-To header for threading)
    pub reply_to_id: Option<String>,
}

/// A time range is refused when it starts at or after its end.
pub fn validate_timestamps(after: Option<i64>, before: Option<i64>) -> (r: Result<(), ToolError>)
    ensures
        r is Err <==> (after is Some && before is Some && after->0 >= before->0),
        r matches Err(e) ==> e@.kind == ToolErrorKind::InvalidParams
            && e@.message == "'after' must be before 'before'"@,
{
    if let (Some(a), Some(b)) = (after, before) {
        if a >= b {
            return Err(ToolError::invalid_params(owned("'after' must be before 'before'")));
        }
    }
    Ok(())
}

/// An address is accepted when it holds an `@` and is at least three bytes long.
pub open spec fn valid_recipient(a: Seq<char>) -> bool {
    a.contains('@') && (encode_utf8(a).len() as usize) >= 3
}

/// Position of the first refused address, or the length when all pass.
pub open spec fn first_invalid(addrs: Seq<String>) -> int
    decreases addrs.len(),
{
    if addrs.len() == 0 {
        0
    } else if !valid_recipient(addrs[0]@) {
        0
    } else {
        1 + first_invalid(addrs.drop_first())
    }
}

/// Every address must hold an `@` and be at least three bytes long; the
/// first that is not is reported.
pub fn validate_recipients(addrs: &[String]) -> (r: Result<(), ToolError>)
    ensures
        r is Ok <==> forall|i: int| 0 <= i < addrs@.len() ==> valid_recipient(#[trigger] addrs@[i]@),
        r matches Err(e) ==> e@.kind == ToolErrorKind::InvalidParams
            && 0 <= first_invalid(addrs@) < addrs@.len()
            && e@.message == "Invalid email address: '"@ + addrs@[first_invalid(addrs@)]@ + "'"@,
{
    let mut i: usize = 0;
    assert(addrs@.skip(0) =~= addrs@);
    while i < addrs.len()
        invariant
            i <= addrs@.len(),
            forall|j: int| 0 <= j < i ==> valid_recipient(#[trigger] addrs@[j]@),
            first_invalid(addrs@) == i + first_invalid(addrs@.skip(i as int)),
        decreases addrs.len() - i,
    {
        let a = addrs[i].as_str();
        assert(addrs@.skip(i as int)[0] == addrs@[i as int]);
        assert(addrs@.skip(i as int).drop_first() =~= addrs@.skip(i + 1));
        if !contains_char(a, '@') || a.len() < 3 {
            assert(a@ == addrs@[i as int]@);
            assert(!valid_recipient(addrs@[i as int]@));
            assert(addrs@.skip(i as int).len() > 0);
            assert(first_invalid(addrs@.skip(i as int)) == 0);
            return Err(ToolError::invalid_params(concat3("Invalid email address: '", a, "'")));
        }
        i = i + 1;
    }
    Ok(())
}

/// The number of messages to list: the number asked for, 20 by default, at most 100.
pub fn clamp_count(requested: Option<usize>) -> (n: usize)
    ensures
        n == match requested {
            Some(c) => if c < 100 { c } else { 100 },
            None => 20,
        },
        n <= 100,
{
    let c = match requested {
        Some(c) => c,
        None => 20,
    };
    if c < 100 {
        c
    } else {
        100
    }
}

impl SearchArgs {
    /// Some search condition is given (the account and limit are none).
    pub open spec fn has_filter(&self) -> bool {
        self.query is Some || self.from is Some || self.to is Some || self.subject is Some
            || self.folder is Some || self.after is Some || self.before is Some || self.has_attachment is Some
    }

    /// A search needs at least one condition.
    pub fn require_filter(&self) -> (r: Result<(), ToolError>)
        ensures
            r is Ok <==> self.has_filter(),
            r matches Err(e) ==> e@.kind == ToolErrorKind::InvalidParams
                && e@.message == "At least one search filter must be provided"@,
    {
        if self.query.is_none() && self.from.is_none() && self.to.is_none() && self.subject.is_none()
            && self.folder.is_none() && self.after.is_none() && self.before.is_none()
            && self.has_attachment.is_none() {
            return Err(ToolError::invalid_params(owned("At least one search filter must be provided")));
        }
        Ok(())
    }
}

/// What `mail_flag` does.
#[derive(Debug, Clone, Copy, PartialEq, Eq, Structural)]
pub enum FlagAction {
    /// Set `$junk` and move to the Junk mailbox.
    Junk,
    /// Clear `$junk` and move to the Inbox.
    NotJunk,
    /// Set (`true`) or clear the `$seen` keyword.
    Seen(bool),
    /// Set (`true`) or clear the `$flagged` keyword.
    Flagged(bool),
}

impl FlagAction {
    /// The keyword the action sets or clears.
    pub open spec fn keyword_of(self) -> Seq<char> {
        match self {
            FlagAction::Junk | FlagAction::NotJunk => "$junk"@,
            FlagAction::Seen(_) => "$seen"@,
            FlagAction::Flagged(_) => "$flagged"@,
        }
    }

    /// Whether the keyword is set (rather than cleared).
    pub open spec fn sets(self) -> bool {
        match self {
            FlagAction::Junk => true,
            FlagAction::NotJunk => false,
            FlagAction::Seen(b) => b,
            FlagAction::Flagged(b) => b,
        }
    }

    /// The keyword the action sets or clears.
    pub fn keyword(&self) -> (k: &'static str)
        ensures
            k@ == self.keyword_of(),
    {
        match self {
            FlagAction::Junk | FlagAction::NotJunk => "$junk",
            FlagAction::Seen(_) => "$seen",
            FlagAction::Flagged(_) => "$flagged",
        }
    }

    /// The role of the mailbox the message moves to: junk goes to the Junk
    /// mailbox, no-longer-junk back to the Inbox; other actions move nothing.
    pub open spec fn target_role_of(self) -> Option<Seq<char>> {
        match self {
            FlagAction::Junk => Some("Junk"@),
            FlagAction::NotJunk => Some("Inbox"@),
            _ => None,
        }
    }

    /// The role of the mailbox the message moves to, if it moves.
    pub fn target_role(&self) -> (r: Option<&'static str>)
        ensures
            match r {
                Some(s) => self.target_role_of() == Some(s@),
                None => self.target_role_of() is None,
            },
    {
        match self {
            FlagAction::Junk => Some("Junk"),
            FlagAction::NotJunk => Some("Inbox"),
            _ => None,
        }
    }

    /// Whether the keyword is set (rather than cleared).
    pub fn set(&self) -> (b: bool)
        ensures
            b == self.sets(),
            *self == FlagAction::Junk ==> b,
            *self == FlagAction::NotJunk ==> !b,
            *self == FlagAction::Seen(true) || *self == FlagAction::Flagged(true) ==> b,
            *self == FlagAction::Seen(false) || *self == FlagAction::Flagged(false) ==> !b,
    {
        match self {
            FlagAction::Junk => true,
            FlagAction::NotJunk => false,
            FlagAction::Seen(b) => *b,
            FlagAction::Flagged(b) => *b,
        }
    }
}

/// The action named by a `mail_flag` argument.
pub open spec fn flag_action_named(action: Seq<char>) -> Option<FlagAction> {
    if action == "junk"@ {
        Some(FlagAction::Junk)
    } else if action == "notjunk"@ {
        Some(FlagAction::NotJunk)
    } else if action == "read"@ {
        Some(FlagAction::Seen(true))
    } else if action == "unread"@ {
        Some(FlagAction::Seen(false))
    } else if action == "flag"@ {
        Some(FlagAction::Flagged(true))
    } else if action == "unflag"@ {
        Some(FlagAction::Flagged(false))
    } else {
        None
    }
}

/// What each `mail_flag` action does to its message: `read` sets `$seen`
/// and `unread` clears it, `flag` sets `$flagged` and `unflag` clears it,
/// `junk` sets `$junk` and `notjunk` clears it; only the two junk actions
/// move the message, to the Junk mailbox and to the Inbox; no other name is
/// an action.
pub proof fn lemma_flag_actions(name: Seq<char>)
    ensures
        flag_action_named(name) is Some <==> name == "read"@ || name == "unread"@ || name == "flag"@
            || name == "unflag"@ || name == "junk"@ || name == "notjunk"@,
        flag_action_named(name) matches Some(a) ==> {
            &&& a.sets() == (name == "read"@ || name == "flag"@ || name == "junk"@)
            &&& a.keyword_of() == if name == "read"@ || name == "unread"@ {
                "$seen"@
            } else if name == "flag"@ || name == "unflag"@ {
                "$flagged"@
            } else {
                "$junk"@
            }
            &&& a.target_role_of() == if name == "junk"@ {
                Some("Junk"@)
            } else if name == "notjunk"@ {
                Some("Inbox"@)
            } else {
                None
            }
        },
{
    reveal_strlit("read");
    reveal_strlit("unread");
    reveal_strlit("flag");
    reveal_strlit("unflag");
    reveal_strlit("junk");
    reveal_strlit("notjunk");
    assert("read"@[0] == 'r' && "unread"@[0] == 'u' && "flag"@[0] == 'f' && "unflag"@[0] == 'u');
    assert("junk"@[0] == 'j' && "notjunk"@[0] == 'n' && "unread"@[2] == 'r' && "unflag"@[2] == 'f');
}

/// Parses the action of `mail_flag`.
pub fn parse_flag_action(action: &str) -> (r: Result<FlagAction, ToolError>)
    ensures
        match flag_action_named(action@) {
            Some(a) => r == Ok::<FlagAction, ToolError>(a),
            None => r matches Err(e) && e@.kind == ToolErrorKind::InvalidParams
                && e@.message == "Unknown action '"@ + action@
                    + "'. Use: read, unread, flag, unflag, junk, notjunk"@,
        },
{
    if str_eq(action, "junk") {
        Ok(FlagAction::Junk)
    } else if str_eq(action, "notjunk") {
        Ok(FlagAction::NotJunk)
    } else if str_eq(action, "read") {
        Ok(FlagAction::Seen(true))
    } else if str_eq(action, "unread") {
        Ok(FlagAction::Seen(false))
    } else if str_eq(action, "flag") {
        Ok(FlagAction::Flagged(true))
    } else if str_eq(action, "unflag") {
        Ok(FlagAction::Flagged(false))
    } else {
        Err(ToolError::invalid_params(concat3(
            "Unknown action '",
            action,
            "'. Use: read, unread, flag, unflag, junk, notjunk",
        )))
    }
}

/// Parses the action of `mail_bulk_junk`: whether to mark as junk, and the
/// label used in the answer.
pub fn parse_junk_action(action: &str) -> (r: Result<(bool, &'static str), ToolError>)
    ensures
        action@ == "junk"@ ==> (r matches Ok((j, l)) && j && l@ == "junk"@),
        action@ != "junk"@ && action@ == "notjunk"@ ==> (r matches Ok((j, l)) && !j && l@ == "not junk"@),
        action@ != "junk"@ && action@ != "notjunk"@ ==> (r matches Err(e)
            && e@.kind == ToolErrorKind::InvalidParams
            && e@.message == "Unknown action '"@ + action@ + "'. Use: junk, notjunk"@),
{
    if str_eq(action, "junk") {
        Ok((true, "junk"))
    } else if str_eq(action, "notjunk") {
        Ok((false, "not junk"))
    } else {
        Err(ToolError::invalid_params(concat3("Unknown action '", action, "'. Use: junk, notjunk")))
    }
}

/// Parses the classification of `spam_train`: whether it is spam.
pub fn parse_classification(classification: &str) -> (r: Result<bool, ToolError>)
    ensures
        classification@ == "spam"@ ==> r == Ok::<bool, ToolError>(true),
        classification@ != "spam"@ && classification@ == "ham"@ ==> r == Ok::<bool, ToolError>(false),
        classification@ != "spam"@ && classification@ != "ham"@ ==> (r matches Err(e)
            && e@.kind == ToolErrorKind::InvalidParams
            && e@.message == "Unknown classification '"@ + classification@ + "'. Use: spam, ham"@),
{
    if str_eq(classification, "spam") {
        Ok(true)
    } else if str_eq(classification, "ham") {
        Ok(false)
    } else {
        Err(ToolError::invalid_params(concat3("Unknown classification '", classification, "'. Use: spam, ham")))
    }
}

/// Bulk operations need at least one message.
pub fn require_ids(ids: &[String]) -> (r: Result<(), ToolError>)
    ensures
        r is Ok <==> ids@.len() > 0,
        r matches Err(e) ==> e@.kind == ToolErrorKind::InvalidParams && e@.message == "No email IDs provided"@,
{
    if ids.len() == 0 {
        Err(ToolError::invalid_params(owned("No email IDs provided")))
    } else {
        Ok(())
    }
}

/// Spam training needs at least one of the requested messages to have been
/// fetched; `fetched` is how many were.
pub fn require_fetched(fetched: usize) -> (r: Result<(), ToolError>)
    ensures
        r is Ok <==> fetched > 0,
        r matches Err(e) ==> e@.kind == ToolErrorKind::InvalidParams
            && e@.message == "Could not fetch any of the specified emails"@,
{
    if fetched == 0 {
        Err(ToolError::invalid_params(owned("Could not fetch any of the specified emails")))
    } else {
        Ok(())
    }
}

/// The error when the administration API client could not be set up.
pub fn admin_unavailable() -> (e: ToolError)
    ensures
        e@.kind == ToolErrorKind::Internal,
        e@.message == "Admin API client not available. Check STALWART_ADMIN_PASSWORD env var."@,
{
    ToolError::internal(owned("Admin API client not available. Check STALWART_ADMIN_PASSWORD env var."))
}

/// Sending needs the `send` capability.
pub fn require_send(capabilities: &Capabilities) -> (r: Result<(), ToolError>)
    ensures
        r is Ok <==> capabilities.send,
        r matches Err(e) ==> e@.kind == ToolErrorKind::InvalidRequest
            && e@.message == "Sending emails is disabled. Enable 'capabilities.send = true' in config."@,
{
    if !capabilities.send {
        return Err(ToolError::invalid_request(
            owned("Sending emails is disabled. Enable 'capabilities.send = true' in config."),
        ));
    }
    Ok(())
}

/// Spam training needs the `spam_training` capability.
pub fn require_spam_training(capabilities: &Capabilities) -> (r: Result<(), ToolError>)
    ensures
        r is Ok <==> capabilities.spam_training,
        r matches Err(e) ==> e@.kind == ToolErrorKind::InvalidRequest
            && e@.message == "Spam training is disabled. Enable 'capabilities.spam_training = true' in config."@,
{
    if !capabilities.spam_training {
        return Err(ToolError::invalid_request(
            owned("Spam training is disabled. Enable 'capabilities.spam_training = true' in config."),
        ));
    }
    Ok(())
}

/// The role of the mailbox that junk (or no-longer-junk) mail moves to.
pub fn junk_target_role(is_junk: bool) -> (r: &'static str)
    ensures
        r@ == if is_junk { "Junk"@ } else { "Inbox"@ },
{
    if is_junk {
        "Junk"
    } else {
        "Inbox"
    }
}

/// The error when the mailbox of a role is missing.
pub fn mailbox_missing(role: &str) -> (e: ToolError)
    ensures
        e@.kind == ToolErrorKind::Internal,
        e@.message == role@ + " mailbox not found"@,
{
    ToolError::internal(concat2(role, " mailbox not found"))
}

/// Answer of `mail_flag`.
pub fn flagged_message(id: &str, action: &str) -> (m: String)
    ensures
        m@ == "Email "@ + id@ + " marked as "@ + action@,
{
    let mut m = concat2("Email ", id);
    m.append(" marked as ");
    m.append(action);
    m
}

/// Answer of `mail_move`.
pub fn moved_message(id: &str, folder: &str) -> (m: String)
    ensures
        m@ == "Email "@ + id@ + " moved to "@ + folder@,
{
    let mut m = concat2("Email ", id);
    m.append(" moved to ");
    m.append(folder);
    m
}

/// Answer of `mail_draft`.
pub fn draft_saved_message(draft_id: &str) -> (m: String)
    ensures
        m@ == "Draft saved with ID: "@ + draft_id@,
{
    concat2("Draft saved with ID: ", draft_id)
}

/// Answer of `mail_send`.
pub fn sent_message(email_id: &str) -> (m: String)
    ensures
        m@ == "Email sent successfully (ID: "@ + email_id@ + ")"@,
{
    concat3("Email sent successfully (ID: ", email_id, ")")
}

/// Answer of `mail_bulk_junk`.
pub fn bulk_junk_message(count: u64, label: &str) -> (m: String)
    ensures
        m@ == decimal(count as nat) + " emails marked as "@ + label@,
{
    let mut m = decimal_string(count);
    m.append(" emails marked as ");
    m.append(label);
    m
}

/// Answer of `mail_bulk_delete`.
pub fn bulk_deleted_message(count: u64) -> (m: String)
    ensures
        m@ == decimal(count as nat) + " emails permanently deleted"@,
{
    let mut m = decimal_string(count);
    m.append(" emails permanently deleted");
    m
}

/// Answer of `mail_bulk_read`.
pub fn bulk_read_message(count: u64) -> (m: String)
    ensures
        m@ == decimal(count as nat) + " emails marked as read"@,
{
    let mut m = decimal_string(count);
    m.append(" emails marked as read");
    m
}

} // verus!
