use stalwart_mcp::mcp::prompts::{
    draft_reply, search_and_summarize, triage_inbox, DraftReplyArgs, PromptRole, SearchSummarizeArgs,
};

#[test]
fn triage_prompt() {
    let p = triage_inbox();
    assert_eq!(p.len(), 2);
    assert_eq!(p[0].role, PromptRole::User);
    assert_eq!(p[0].text, "Triage my inbox. Show me what needs attention.");
    assert_eq!(p[1].role, PromptRole::Assistant);
    assert!(p[1].text.starts_with("I'll triage your inbox now."));
    assert!(p[1].text.contains("**Action required** — needs a reply or decision"));
    assert!(p[1].text.ends_with("Let me start by listing your unread messages."));
}

#[test]
fn draft_reply_defaults_to_formal() {
    let p = draft_reply(&DraftReplyArgs { message_id: "m1".to_string(), account: None, tone: None });
    assert_eq!(p[0].text, "Draft a formal reply to message ID: m1");
    assert!(p[1].text.starts_with("I'll draft a formal reply. Here's my approach:\n\n1. First, I'll fetch the original message using `mail_get` with ID `m1`\n2."));
    let p = draft_reply(&DraftReplyArgs {
        message_id: "m2".to_string(),
        account: Some("work".to_string()),
        tone: Some("brief".to_string()),
    });
    assert_eq!(p[0].text, "Draft a brief reply to message ID: m2 (account: work)");
    assert!(p[1].text.contains("with ID `m2` (account: work)\n"));
    assert!(p[1].text.contains("   - Matches the brief tone you requested\n"));
}

#[test]
fn search_prompt_mentions_account() {
    let p = search_and_summarize(&SearchSummarizeArgs { query: "invoice".to_string(), account: None });
    assert_eq!(p[0].text, "Search for \"invoice\" and summarize what you find.");
    let p = search_and_summarize(&SearchSummarizeArgs {
        query: "invoice".to_string(),
        account: Some("work".to_string()),
    });
    assert_eq!(p[0].text, "Search for \"invoice\" in account 'work' and summarize what you find.");
    assert!(p[1].text.contains("1. Search for emails matching \"invoice\" in account 'work' using `mail_search`\n"));
}
