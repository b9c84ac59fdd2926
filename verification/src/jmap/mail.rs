//! Mail data as the tools report it, how fetched messages map to it, and
//! how queries are planned.
use vstd::prelude::*;
use crate::error::AppError;
use crate::text::{
    concat2, copy_opt, copy_strings, eq_ascii_fold, eq_ignore_ascii_case, opt_view, owned, str_eq,
    views_of,
};

verus! {

/// A mailbox with its message counts.
#[derive(Debug, Clone, PartialEq, Eq)]
pub struct MailboxInfo {
    pub id: String,
    pub name: String,
    pub role: String,
    pub total_emails: usize,
    pub unread_emails: usize,
    pub parent_id: Option<String>,
}

/// A message in a listing.
#[derive(Debug, Clone, PartialEq, Eq)]
pub struct EmailSummary {
    pub id: String,
    pub subject: Option<String>,
    pub from: Vec<String>,
    pub to: Vec<String>,
    pub received_at: Option<i64>,
    pub is_unread: bool,
    pub is_flagged: bool,
    pub preview: Option<String>,
}

/// A whole message.
#[derive(Debug, Clone, PartialEq, Eq)]
pub struct EmailDetail {
    pub id: String,
    pub subject: Option<String>,
    pub from: Vec<String>,
    pub to: Vec<String>,
    pub cc: Vec<String>,
    pub received_at: Option<i64>,
    pub is_unread: bool,
    pub is_flagged: bool,
    pub text_body: Option<String>,
    pub html_body: Option<String>,
    pub attachments: Vec<AttachmentInfo>,
}

/// Metadata of an attachment.
#[derive(Debug, Clone, PartialEq, Eq)]
pub struct AttachmentInfo {
    pub name: Option<String>,
    pub content_type: Option<String>,
    pub size: usize,
}

/// Criteria of a message search.
#[derive(Debug)]
pub struct SearchFilters<'a> {
    pub text: Option<&'a str>,
    pub from: Option<&'a str>,
    pub to: Option<&'a str>,
    pub subject: Option<&'a str>,
    pub mailbox_id: Option<&'a str>,
    pub after: Option<i64>,
    pub before: Option<i64>,
    pub has_attachment: Option<bool>,
    pub limit: usize,
}

impl<'a> Default for SearchFilters<'a> {
    fn default() -> (f: SearchFilters<'a>)
        ensures
            f.text is None && f.from is None && f.to is None && f.subject is None,
            f.mailbox_id is None && f.after is None && f.before is None,
            f.has_attachment is None && f.limit == 0,
    {
        SearchFilters {
            text: None,
            from: None,
            to: None,
            subject: None,
            mailbox_id: None,
            after: None,
            before: None,
            has_attachment: None,
            limit: 0,
        }
    }
}

/// A message to save as a draft or to send.
#[derive(Debug)]
pub struct ComposeEmail<'a> {
    pub from: &'a str,
    pub to: &'a [String],
    pub cc: &'a [String],
    pub subject: &'a str,
    pub body: &'a str,
    pub in_reply_to: Option<&'a str>,
    pub references: Option<&'a str>,
}

impl<'a> Default for ComposeEmail<'a> {
    fn default() -> (c: ComposeEmail<'a>)
        ensures
            c.from@.len() == 0 && c.subject@.len() == 0 && c.body@.len() == 0,
            c.to@.len() == 0 && c.cc@.len() == 0,
            c.in_reply_to is None && c.references is None,
    {
        let none: &'a [String] = &[];
        proof {
            reveal_strlit("");
        }
        ComposeEmail {
            from: "",
            to: none,
            cc: none,
            subject: "",
            body: "",
            in_reply_to: None,
            references: None,
        }
    }
}

/// A sender or recipient of a fetched message.
#[derive(Debug, Clone, PartialEq, Eq)]
pub struct EmailAddress {
    pub name: Option<String>,
    pub email: String,
}

/// The properties of a message as the mail server returned them.
#[derive(Debug, Clone, PartialEq, Eq)]
pub struct FetchedEmail {
    pub id: Option<String>,
    pub subject: Option<String>,
    pub from: Option<Vec<EmailAddress>>,
    pub to: Option<Vec<EmailAddress>>,
    pub cc: Option<Vec<EmailAddress>>,
    pub received_at: Option<i64>,
    /// The keywords set on the message.
    pub keywords: Vec<String>,
    pub preview: Option<String>,
    /// Part identifiers of the text body parts, in order.
    pub text_body: Option<Vec<Option<String>>>,
    /// Part identifiers of the HTML body parts, in order.
    pub html_body: Option<Vec<Option<String>>>,
    /// Fetched body values: part identifier and text.
    pub body_values: Vec<(String, String)>,
    pub attachments: Option<Vec<AttachmentInfo>>,
}

/// How an address is shown: `Name <address>` when it has a name.
pub open spec fn address_text(a: EmailAddress) -> Seq<char> {
    match a.name {
        Some(n) => n@ + " <"@ + a.email@ + ">"@,
        None => a.email@,
    }
}

/// How a list of addresses is shown; a missing list shows as empty.
pub open spec fn addresses_text(addrs: Option<Seq<EmailAddress>>) -> Seq<Seq<char>> {
    match addrs {
        Some(a) => a.map_values(|x: EmailAddress| address_text(x)),
        None => Seq::empty(),
    }
}

/// The optional list as a sequence.
pub open spec fn opt_seq<T>(o: Option<Vec<T>>) -> Option<Seq<T>> {
    match o {
        Some(v) => Some(v@),
        None => None,
    }
}

/// One address as shown.
pub fn format_address(a: &EmailAddress) -> (s: String)
    ensures
        s@ == address_text(*a),
{
    match &a.name {
        Some(n) => {
            let mut s = owned(n.as_str());
            s.append(" <");
            s.append(a.email.as_str());
            s.append(">");
            s
        },
        None => a.email.clone(),
    }
}

/// The addresses as shown, in order.
pub fn extract_addresses(addrs: Option<&[EmailAddress]>) -> (r: Vec<String>)
    ensures
        views_of(r@) == addresses_text(match addrs {
            Some(a) => Some(a@),
            None => None,
        }),
{
    let mut r: Vec<String> = Vec::new();
    match addrs {
        None => {
            assert(views_of(r@) =~= Seq::<Seq<char>>::empty());
        },
        Some(a) => {
            let mut i: usize = 0;
            while i < a.len()
                invariant
                    i <= a@.len(),
                    views_of(r@) == a@.take(i as int).map_values(|x: EmailAddress| address_text(x)),
                decreases a.len() - i,
            {
                let s = format_address(&a[i]);
                let ghost before = r@;
                r.push(s);
                assert(views_of(r@) =~= views_of(before).push(s@));
                assert(a@.take(i + 1) =~= a@.take(i as int).push(a@[i as int]));
                assert(a@.take(i + 1).map_values(|x: EmailAddress| address_text(x))
                    =~= a@.take(i as int).map_values(|x: EmailAddress| address_text(x)).push(address_text(a@[i as int])));
                i = i + 1;
            }
            assert(a@.take(a@.len() as int) =~= a@);
        },
    }
    r
}

/// The list of keywords holds `k`.
pub open spec fn has_keyword(keywords: Seq<String>, k: Seq<char>) -> bool {
    exists|i: int| 0 <= i < keywords.len() && #[trigger] keywords[i]@ == k
}

/// Whether the list of keywords holds `k`.
pub fn contains_keyword(keywords: &[String], k: &str) -> (r: bool)
    ensures
        r == has_keyword(keywords@, k@),
{
    let mut i: usize = 0;
    while i < keywords.len()
        invariant
            i <= keywords@.len(),
            forall|j: int| 0 <= j < i ==> #[trigger] keywords@[j]@ != k@,
        decreases keywords.len() - i,
    {
        if str_eq(keywords[i].as_str(), k) {
            return true;
        }
        i = i + 1;
    }
    false
}

/// The text of an optional string, empty when missing.
pub open spec fn or_empty(o: Option<String>) -> Seq<char> {
    match o {
        Some(s) => s@,
        None => Seq::empty(),
    }
}

fn string_or_empty(o: &Option<String>) -> (r: String)
    ensures
        r@ == or_empty(*o),
{
    match o {
        Some(s) => s.clone(),
        None => String::new(),
    }
}

fn addresses_of(o: &Option<Vec<EmailAddress>>) -> (r: Vec<String>)
    ensures
        views_of(r@) == addresses_text(opt_seq(*o)),
{
    match o {
        Some(v) => extract_addresses(Some(v.as_slice())),
        None => extract_addresses(None),
    }
}

impl EmailSummary {
    /// What a listing shows of a fetched message.
    pub open spec fn describes(&self, e: FetchedEmail) -> bool {
        &&& self.id@ == or_empty(e.id)
        &&& opt_view(self.subject) == opt_view(e.subject)
        &&& views_of(self.from@) == addresses_text(opt_seq(e.from))
        &&& views_of(self.to@) == addresses_text(opt_seq(e.to))
        &&& self.received_at == e.received_at
        &&& self.is_unread == !has_keyword(e.keywords@, "$seen"@)
        &&& self.is_flagged == has_keyword(e.keywords@, "$flagged"@)
        &&& opt_view(self.preview) == opt_view(e.preview)
    }
}

/// The listing entry of a fetched message: unread unless it has the
/// `$seen` keyword, flagged if it has `$flagged`.
pub fn email_to_summary(e: &FetchedEmail) -> (s: EmailSummary)
    ensures
        s.describes(*e),
        s.is_unread <==> forall|i: int| 0 <= i < e.keywords@.len() ==> #[trigger] e.keywords@[i]@ != "$seen"@,
        s.is_flagged <==> exists|i: int| 0 <= i < e.keywords@.len() && #[trigger] e.keywords@[i]@ == "$flagged"@,
{
    EmailSummary {
        id: string_or_empty(&e.id),
        subject: copy_opt(&e.subject),
        from: addresses_of(&e.from),
        to: addresses_of(&e.to),
        received_at: e.received_at,
        is_unread: !contains_keyword(e.keywords.as_slice(), "$seen"),
        is_flagged: contains_keyword(e.keywords.as_slice(), "$flagged"),
        preview: copy_opt(&e.preview),
    }
}

/// The value stored under `key` (the first entry with that key).
pub open spec fn lookup_value(values: Seq<(String, String)>, key: Seq<char>) -> Option<Seq<char>>
    decreases values.len(),
{
    if values.len() == 0 {
        None
    } else if values[0].0@ == key {
        Some(values[0].1@)
    } else {
        lookup_value(values.drop_first(), key)
    }
}

fn find_value(values: &[(String, String)], key: &str) -> (r: Option<String>)
    ensures
        opt_view(r) == lookup_value(values@, key@),
{
    let mut i: usize = 0;
    assert(values@.skip(0) =~= values@);
    while i < values.len()
        invariant
            i <= values@.len(),
            lookup_value(values@.skip(i as int), key@) == lookup_value(values@, key@),
        decreases values.len() - i,
    {
        assert(values@.skip(i as int).drop_first() =~= values@.skip(i + 1));
        if str_eq(values[i].0.as_str(), key) {
            return Some(values[i].1.clone());
        }
        i = i + 1;
    }
    None
}

/// The body text: the value of the first body part, when that part has an
/// identifier and its value was fetched.
pub open spec fn body_text(parts: Option<Seq<Option<String>>>, values: Seq<(String, String)>) -> Option<Seq<char>> {
    match parts {
        Some(p) => if p.len() > 0 {
            match p[0] {
                Some(id) => lookup_value(values, id@),
                None => None,
            }
        } else {
            None
        },
        None => None,
    }
}

fn first_body(parts: &Option<Vec<Option<String>>>, values: &[(String, String)]) -> (r: Option<String>)
    ensures
        opt_view(r) == body_text(opt_seq(*parts), values@),
{
    match parts {
        Some(p) => {
            if p.len() > 0 {
                match &p[0] {
                    Some(id) => find_value(values, id.as_str()),
                    None => None,
                }
            } else {
                None
            }
        },
        None => None,
    }
}

fn copy_attachments(o: &Option<Vec<AttachmentInfo>>) -> (r: Vec<AttachmentInfo>)
    ensures
        r@.len() == match opt_seq(*o) {
            Some(a) => a.len(),
            None => 0,
        },
        forall|i: int| 0 <= i < r@.len() ==> {
            let a = opt_seq(*o)->0[i];
            &&& opt_view((#[trigger] r@[i]).name) == opt_view(a.name)
            &&& opt_view(r@[i].content_type) == opt_view(a.content_type)
            &&& r@[i].size == a.size
        },
{
    let mut r: Vec<AttachmentInfo> = Vec::new();
    match o {
        Some(v) => {
            let mut i: usize = 0;
            while i < v.len()
                invariant
                    i <= v@.len(),
                    *o == Some(*v),
                    r@.len() == i,
                    forall|j: int| 0 <= j < i ==> {
                        let a = v@[j];
                        &&& opt_view((#[trigger] r@[j]).name) == opt_view(a.name)
                        &&& opt_view(r@[j].content_type) == opt_view(a.content_type)
                        &&& r@[j].size == a.size
                    },
                decreases v.len() - i,
            {
                r.push(AttachmentInfo {
                    name: copy_opt(&v[i].name),
                    content_type: copy_opt(&v[i].content_type),
                    size: v[i].size,
                });
                i = i + 1;
            }
        },
        None => {},
    }
    r
}

impl EmailDetail {
    /// What the full view shows of a fetched message.
    pub open spec fn describes(&self, e: FetchedEmail) -> bool {
        &&& self.id@ == or_empty(e.id)
        &&& opt_view(self.subject) == opt_view(e.subject)
        &&& views_of(self.from@) == addresses_text(opt_seq(e.from))
        &&& views_of(self.to@) == addresses_text(opt_seq(e.to))
        &&& views_of(self.cc@) == addresses_text(opt_seq(e.cc))
        &&& self.received_at == e.received_at
        &&& self.is_unread == !has_keyword(e.keywords@, "$seen"@)
        &&& self.is_flagged == has_keyword(e.keywords@, "$flagged"@)
        &&& opt_view(self.text_body) == body_text(opt_seq(e.text_body), e.body_values@)
        &&& opt_view(self.html_body) == body_text(opt_seq(e.html_body), e.body_values@)
        &&& self.attachments@.len() == match opt_seq(e.attachments) {
            Some(a) => a.len(),
            None => 0,
        }
        &&& forall|i: int| 0 <= i < self.attachments@.len() ==> {
            let a = opt_seq(e.attachments)->0[i];
            &&& opt_view((#[trigger] self.attachments@[i]).name) == opt_view(a.name)
            &&& opt_view(self.attachments@[i].content_type) == opt_view(a.content_type)
            &&& self.attachments@[i].size == a.size
        }
    }
}

/// The full view of a fetched message: its header fields, the first text
/// and HTML body values, and the attachments' metadata.
pub fn email_to_detail(e: &FetchedEmail) -> (d: EmailDetail)
    ensures
        d.describes(*e),
        d.is_unread <==> forall|i: int| 0 <= i < e.keywords@.len() ==> #[trigger] e.keywords@[i]@ != "$seen"@,
        d.is_flagged <==> exists|i: int| 0 <= i < e.keywords@.len() && #[trigger] e.keywords@[i]@ == "$flagged"@,
{
    EmailDetail {
        id: string_or_empty(&e.id),
        subject: copy_opt(&e.subject),
        from: addresses_of(&e.from),
        to: addresses_of(&e.to),
        cc: addresses_of(&e.cc),
        received_at: e.received_at,
        is_unread: !contains_keyword(e.keywords.as_slice(), "$seen"),
        is_flagged: contains_keyword(e.keywords.as_slice(), "$flagged"),
        text_body: first_body(&e.text_body, e.body_values.as_slice()),
        html_body: first_body(&e.html_body, e.body_values.as_slice()),
        attachments: copy_attachments(&e.attachments),
    }
}


/// The full view and the listing of the same message agree on everything
/// they both show: the identifier, subject, sender, recipients, time
/// received, and the read and flag state, which is unread exactly when the
/// message lacks `$seen` and flagged exactly when it has `$flagged`.
pub proof fn lemma_detail_agrees_with_listing(e: FetchedEmail, s: EmailSummary, d: EmailDetail)
    requires
        s.describes(e),
        d.describes(e),
    ensures
        d.id@ == s.id@,
        opt_view(d.subject) == opt_view(s.subject),
        views_of(d.from@) == views_of(s.from@),
        views_of(d.to@) == views_of(s.to@),
        d.received_at == s.received_at,
        d.is_unread == s.is_unread,
        d.is_flagged == s.is_flagged,
        d.is_unread <==> forall|i: int| 0 <= i < e.keywords@.len() ==> #[trigger] e.keywords@[i]@ != "$seen"@,
        d.is_flagged <==> exists|i: int| 0 <= i < e.keywords@.len() && #[trigger] e.keywords@[i]@ == "$flagged"@,
{
}

/// Which field of a mailbox a lookup compares.
pub open spec fn mailbox_key(m: MailboxInfo, by_role: bool) -> Seq<char> {
    if by_role {
        m.role@
    } else {
        m.name@
    }
}

/// The identifier of the first mailbox whose name (or role) equals `key`
/// ignoring ASCII case, if any.
pub open spec fn first_match(mbs: Seq<MailboxInfo>, key: Seq<char>, by_role: bool) -> Option<Seq<char>>
    decreases mbs.len(),
{
    if mbs.len() == 0 {
        None
    } else if eq_ascii_fold(mailbox_key(mbs[0], by_role), key) {
        Some(mbs[0].id@)
    } else {
        first_match(mbs.drop_first(), key, by_role)
    }
}

fn find_mailbox(mailboxes: &[MailboxInfo], key: &str, by_role: bool) -> (r: Option<String>)
    ensures
        opt_view(r) == first_match(mailboxes@, key@, by_role),
{
    let mut i: usize = 0;
    assert(mailboxes@.skip(0) =~= mailboxes@);
    while i < mailboxes.len()
        invariant
            i <= mailboxes@.len(),
            first_match(mailboxes@.skip(i as int), key@, by_role) == first_match(mailboxes@, key@, by_role),
        decreases mailboxes.len() - i,
    {
        assert(mailboxes@.skip(i as int).drop_first() =~= mailboxes@.skip(i + 1));
        let field = if by_role { mailboxes[i].role.as_str() } else { mailboxes[i].name.as_str() };
        if eq_ignore_ascii_case(field, key) {
            return Some(mailboxes[i].id.clone());
        }
        i = i + 1;
    }
    None
}

/// The identifier of the first mailbox named `name`, ignoring ASCII case
/// (so "inbox" finds "INBOX").
pub fn mailbox_id_by_name(mailboxes: &[MailboxInfo], name: &str) -> (r: Option<String>)
    ensures
        opt_view(r) == first_match(mailboxes@, name@, false),
{
    find_mailbox(mailboxes, name, false)
}

/// The identifier of the first mailbox whose role is `role`, ignoring ASCII
/// case (such as "Junk" or "Inbox").
pub fn mailbox_id_by_role(mailboxes: &[MailboxInfo], role: &str) -> (r: Option<String>)
    ensures
        opt_view(r) == first_match(mailboxes@, role@, true),
{
    find_mailbox(mailboxes, role, true)
}

/// A folder argument as a mailbox identifier: the resolved identifier if the
/// folder named a mailbox, else the argument itself, taken as an identifier.
pub fn mailbox_or_literal(resolved: Option<String>, folder: &str) -> (r: String)
    ensures
        r@ == match resolved {
            Some(id) => id@,
            None => folder@,
        },
{
    match resolved {
        Some(id) => id,
        None => owned(folder),
    }
}

/// One condition of a message query.
#[derive(Debug, Clone, PartialEq, Eq)]
pub enum EmailFilter {
    InMailbox(String),
    NotKeyword(String),
    After(i64),
    Before(i64),
    Text(String),
    From(String),
    To(String),
    Subject(String),
    HasAttachment(bool),
}

/// Abstract value of an [`EmailFilter`].
pub enum FilterSpec {
    InMailbox(Seq<char>),
    NotKeyword(Seq<char>),
    After(i64),
    Before(i64),
    Text(Seq<char>),
    From(Seq<char>),
    To(Seq<char>),
    Subject(Seq<char>),
    HasAttachment(bool),
}

impl View for EmailFilter {
    type V = FilterSpec;

    open spec fn view(&self) -> FilterSpec {
        match self {
            EmailFilter::InMailbox(s) => FilterSpec::InMailbox(s@),
            EmailFilter::NotKeyword(s) => FilterSpec::NotKeyword(s@),
            EmailFilter::After(t) => FilterSpec::After(*t),
            EmailFilter::Before(t) => FilterSpec::Before(*t),
            EmailFilter::Text(s) => FilterSpec::Text(s@),
            EmailFilter::From(s) => FilterSpec::From(s@),
            EmailFilter::To(s) => FilterSpec::To(s@),
            EmailFilter::Subject(s) => FilterSpec::Subject(s@),
            EmailFilter::HasAttachment(b) => FilterSpec::HasAttachment(*b),
        }
    }
}

/// The filters' abstract values.
pub open spec fn filters_view(v: Seq<EmailFilter>) -> Seq<FilterSpec> {
    v.map_values(|f: EmailFilter| f@)
}

/// How the conditions of a query combine.
#[derive(Debug, Clone, PartialEq, Eq)]
pub enum FilterPlan {
    /// No condition.
    Unfiltered,
    /// One condition on its own.
    Single(EmailFilter),
    /// All of the conditions.
    All(Vec<EmailFilter>),
}

/// Abstract value of a [`FilterPlan`].
pub enum PlanSpec {
    Unfiltered,
    Single(FilterSpec),
    All(Seq<FilterSpec>),
}

impl View for FilterPlan {
    type V = PlanSpec;

    open spec fn view(&self) -> PlanSpec {
        match self {
            FilterPlan::Unfiltered => PlanSpec::Unfiltered,
            FilterPlan::Single(f) => PlanSpec::Single(f@),
            FilterPlan::All(v) => PlanSpec::All(filters_view(v@)),
        }
    }
}

/// The message property that a query sorts by.
#[derive(Debug, Clone, Copy, PartialEq, Eq)]
pub enum SortKey {
    /// When the message was received.
    ReceivedAt,
}

/// The order of a query's results.
#[derive(Debug, Clone, Copy, PartialEq, Eq)]
pub struct EmailSort {
    pub key: SortKey,
    pub ascending: bool,
}

/// Newest messages first: by time received, descending.
pub open spec fn newest_first(s: EmailSort) -> bool {
    s.key == SortKey::ReceivedAt && !s.ascending
}

/// The order of message listings and searches.
fn newest_first_sort() -> (s: EmailSort)
    ensures
        newest_first(s),
{
    EmailSort { key: SortKey::ReceivedAt, ascending: false }
}

/// A message query.
#[derive(Debug, Clone, PartialEq, Eq)]
pub struct EmailQuery {
    pub filter: FilterPlan,
    /// The order of the results.
    pub sort: EmailSort,
    pub limit: usize,
    /// Index of the first result to return.
    pub position: Option<i32>,
}

/// The single-element list holding `f` if present.
pub open spec fn optional(f: Option<FilterSpec>) -> Seq<FilterSpec> {
    match f {
        Some(x) => seq![x],
        None => Seq::empty(),
    }
}

fn push_filter(v: &mut Vec<EmailFilter>, f: EmailFilter)
    ensures
        filters_view(final(v)@) == filters_view(old(v)@).push(f@),
{
    let ghost before = v@;
    v.push(f);
    assert(filters_view(v@) =~= filters_view(before).push(f@));
}

/// The conditions of a listing of recent messages: in the mailbox, unread
/// (not `$seen`), received after, received before, each when asked for.
pub open spec fn recent_filters(
    mailbox_id: Option<Seq<char>>,
    unread_only: bool,
    after: Option<i64>,
    before: Option<i64>,
) -> Seq<FilterSpec> {
    optional(match mailbox_id {
        Some(m) => Some(FilterSpec::InMailbox(m)),
        None => None,
    }) + (if unread_only {
        seq![FilterSpec::NotKeyword("$seen"@)]
    } else {
        Seq::empty()
    }) + optional(match after {
        Some(t) => Some(FilterSpec::After(t)),
        None => None,
    }) + optional(match before {
        Some(t) => Some(FilterSpec::Before(t)),
        None => None,
    })
}

/// The conditions a filter plan applies, all of which a message must meet.
pub open spec fn plan_conditions(p: PlanSpec) -> Seq<FilterSpec> {
    match p {
        PlanSpec::Unfiltered => Seq::empty(),
        PlanSpec::Single(f) => seq![f],
        PlanSpec::All(fs) => fs,
    }
}

/// 1 when `b` holds, else 0.
pub open spec fn one_if(b: bool) -> nat {
    if b {
        1
    } else {
        0
    }
}

proof fn lemma_optional_contains(o: Option<FilterSpec>, x: FilterSpec)
    ensures
        optional(o).contains(x) <==> o == Some(x),
        optional(o).len() == one_if(o is Some),
{
    if let Some(y) = o {
        assert(optional(o)[0] == y);
    }
}

/// The conditions of a listing of recent messages, criterion by criterion:
/// one condition for each criterion asked for (the mailbox, unread only,
/// the start and the end of the time range), each of its own kind on its own
/// value, whatever else is asked, and no other condition.
pub proof fn lemma_recent_conditions(
    mailbox_id: Option<Seq<char>>,
    unread_only: bool,
    after: Option<i64>,
    before: Option<i64>,
)
    ensures
        ({
            let cs = recent_filters(mailbox_id, unread_only, after, before);
            &&& cs.len() == one_if(mailbox_id is Some) + one_if(unread_only) + one_if(after is Some) + one_if(
                before is Some,
            )
            &&& mailbox_id matches Some(m) ==> cs.contains(FilterSpec::InMailbox(m))
            &&& unread_only ==> cs.contains(FilterSpec::NotKeyword("$seen"@))
            &&& after matches Some(t) ==> cs.contains(FilterSpec::After(t))
            &&& before matches Some(t) ==> cs.contains(FilterSpec::Before(t))
            &&& forall|i: int| #![trigger cs[i]] 0 <= i < cs.len() ==> match cs[i] {
                FilterSpec::InMailbox(m) => mailbox_id == Some(m),
                FilterSpec::NotKeyword(k) => unread_only && k == "$seen"@,
                FilterSpec::After(t) => after == Some(t),
                FilterSpec::Before(t) => before == Some(t),
                _ => false,
            }
        }),
{
    broadcast use vstd::seq_lib::lemma_seq_concat_contains_all_elements;
    let a = optional(match mailbox_id {
        Some(m) => Some(FilterSpec::InMailbox(m)),
        None => None,
    });
    let b: Seq<FilterSpec> = if unread_only {
        seq![FilterSpec::NotKeyword("$seen"@)]
    } else {
        Seq::empty()
    };
    let c = optional(match after {
        Some(t) => Some(FilterSpec::After(t)),
        None => None,
    });
    let d = optional(match before {
        Some(t) => Some(FilterSpec::Before(t)),
        None => None,
    });
    lemma_optional_contains(match mailbox_id {
        Some(m) => Some(FilterSpec::InMailbox(m)),
        None => None,
    }, FilterSpec::InMailbox(mailbox_id->0));
    lemma_optional_contains(match after {
        Some(t) => Some(FilterSpec::After(t)),
        None => None,
    }, FilterSpec::After(after->0));
    lemma_optional_contains(match before {
        Some(t) => Some(FilterSpec::Before(t)),
        None => None,
    }, FilterSpec::Before(before->0));
    if unread_only {
        assert(b.contains(FilterSpec::NotKeyword("$seen"@))) by {
            assert(b[0] == FilterSpec::NotKeyword("$seen"@));
        }
    }
    let cs = recent_filters(mailbox_id, unread_only, after, before);
    assert(cs == a + b + c + d);
}

/// The query that lists recent messages: all the requested conditions
/// together (none when none is requested), at most `limit` results starting
/// at `offset`.
#[verifier::rlimit(40)]
pub fn recent_query(
    mailbox_id: Option<&str>,
    limit: usize,
    unread_only: bool,
    after: Option<i64>,
    before: Option<i64>,
    offset: Option<i32>,
) -> (q: EmailQuery)
    ensures
        newest_first(q.sort),
        q.limit == limit,
        q.position == offset,
        q.filter@ == ({
            let fs = recent_filters(
                match mailbox_id {
                    Some(m) => Some(m@),
                    None => None,
                },
                unread_only,
                after,
                before,
            );
            if fs.len() == 0 {
                PlanSpec::Unfiltered
            } else {
                PlanSpec::All(fs)
            }
        }),
        ({
            let cs = plan_conditions(q.filter@);
            &&& cs.len() == one_if(mailbox_id is Some) + one_if(unread_only) + one_if(after is Some) + one_if(
                before is Some,
            )
            &&& mailbox_id matches Some(m) ==> cs.contains(FilterSpec::InMailbox(m@))
            &&& unread_only ==> cs.contains(FilterSpec::NotKeyword("$seen"@))
            &&& after matches Some(t) ==> cs.contains(FilterSpec::After(t))
            &&& before matches Some(t) ==> cs.contains(FilterSpec::Before(t))
            &&& forall|i: int| #![trigger cs[i]] 0 <= i < cs.len() ==> match cs[i] {
                FilterSpec::InMailbox(m) => opt_str_view(mailbox_id) == Some(m),
                FilterSpec::NotKeyword(k) => unread_only && k == "$seen"@,
                FilterSpec::After(t) => after == Some(t),
                FilterSpec::Before(t) => before == Some(t),
                _ => false,
            }
        }),
{
    let mut filters: Vec<EmailFilter> = Vec::new();
    let ghost m = match mailbox_id {
        Some(m) => Some(m@),
        None => None,
    };
    if let Some(mb) = mailbox_id {
        push_filter(&mut filters, EmailFilter::InMailbox(owned(mb)));
    }
    assert(filters_view(filters@) =~= optional(match m {
        Some(x) => Some(FilterSpec::InMailbox(x)),
        None => None,
    }));
    if unread_only {
        push_filter(&mut filters, EmailFilter::NotKeyword(owned("$seen")));
    }
    if let Some(ts) = after {
        push_filter(&mut filters, EmailFilter::After(ts));
    }
    if let Some(ts) = before {
        push_filter(&mut filters, EmailFilter::Before(ts));
    }
    assert(filters_view(filters@) =~= recent_filters(m, unread_only, after, before));
    proof {
        lemma_recent_conditions(m, unread_only, after, before);
        assert(m == opt_str_view(mailbox_id));
    }
    let filter = if filters.len() == 0 {
        FilterPlan::Unfiltered
    } else {
        FilterPlan::All(filters)
    };
    EmailQuery { filter, sort: newest_first_sort(), limit, position: offset }
}

/// The conditions of a search: full text, sender, recipient, subject,
/// mailbox, received after, received before and, when asked for with
/// `true`, having an attachment; each when given.
pub open spec fn search_filters(f: SearchFilters) -> Seq<FilterSpec> {
    optional(match f.text {
        Some(s) => Some(FilterSpec::Text(s@)),
        None => None,
    }) + optional(match f.from {
        Some(s) => Some(FilterSpec::From(s@)),
        None => None,
    }) + optional(match f.to {
        Some(s) => Some(FilterSpec::To(s@)),
        None => None,
    }) + optional(match f.subject {
        Some(s) => Some(FilterSpec::Subject(s@)),
        None => None,
    }) + optional(match f.mailbox_id {
        Some(s) => Some(FilterSpec::InMailbox(s@)),
        None => None,
    }) + optional(match f.after {
        Some(t) => Some(FilterSpec::After(t)),
        None => None,
    }) + optional(match f.before {
        Some(t) => Some(FilterSpec::Before(t)),
        None => None,
    }) + (if f.has_attachment == Some(true) {
        seq![FilterSpec::HasAttachment(true)]
    } else {
        Seq::empty()
    })
}

/// The criterion of `f` that a search condition comes from, if any.
spec fn search_origin(f: SearchFilters, c: FilterSpec) -> bool {
    match c {
        FilterSpec::Text(x) => opt_str_view(f.text) == Some(x),
        FilterSpec::From(x) => opt_str_view(f.from) == Some(x),
        FilterSpec::To(x) => opt_str_view(f.to) == Some(x),
        FilterSpec::Subject(x) => opt_str_view(f.subject) == Some(x),
        FilterSpec::InMailbox(x) => opt_str_view(f.mailbox_id) == Some(x),
        FilterSpec::After(t) => f.after == Some(t),
        FilterSpec::Before(t) => f.before == Some(t),
        FilterSpec::HasAttachment(b) => b && f.has_attachment == Some(true),
        FilterSpec::NotKeyword(_) => false,
    }
}

proof fn lemma_origin_concat(f: SearchFilters, a: Seq<FilterSpec>, b: Seq<FilterSpec>)
    requires
        forall|i: int| 0 <= i < a.len() ==> search_origin(f, #[trigger] a[i]),
        forall|i: int| 0 <= i < b.len() ==> search_origin(f, #[trigger] b[i]),
    ensures
        forall|i: int| 0 <= i < (a + b).len() ==> search_origin(f, #[trigger] (a + b)[i]),
{
    assert forall|i: int| 0 <= i < (a + b).len() implies search_origin(f, #[trigger] (a + b)[i]) by {
        if i < a.len() {
            assert((a + b)[i] == a[i]);
        } else {
            assert((a + b)[i] == b[i - a.len()]);
        }
    }
}

/// The conditions of a search, criterion by criterion: one condition for
/// each criterion given (full text, sender, recipient, subject, mailbox, the
/// start and the end of the time range, and an attachment when asked for
/// with `true`), each of its own kind on its own value, and no other
/// condition.
spec fn search_options(f: SearchFilters) -> Seq<Option<FilterSpec>> {
    seq![
        match f.text {
            Some(x) => Some(FilterSpec::Text(x@)),
            None => None,
        },
        match f.from {
            Some(x) => Some(FilterSpec::From(x@)),
            None => None,
        },
        match f.to {
            Some(x) => Some(FilterSpec::To(x@)),
            None => None,
        },
        match f.subject {
            Some(x) => Some(FilterSpec::Subject(x@)),
            None => None,
        },
        match f.mailbox_id {
            Some(x) => Some(FilterSpec::InMailbox(x@)),
            None => None,
        },
        match f.after {
            Some(t) => Some(FilterSpec::After(t)),
            None => None,
        },
        match f.before {
            Some(t) => Some(FilterSpec::Before(t)),
            None => None,
        },
        if f.has_attachment == Some(true) {
            Some(FilterSpec::HasAttachment(true))
        } else {
            None
        },
    ]
}

proof fn lemma_optional_origin(f: SearchFilters, o: Option<FilterSpec>)
    requires
        o matches Some(c) ==> search_origin(f, c),
    ensures
        forall|i: int| 0 <= i < optional(o).len() ==> search_origin(f, #[trigger] optional(o)[i]),
{
}

proof fn lemma_search_filters_split(f: SearchFilters)
    ensures
        search_filters(f) == optional(search_options(f)[0]) + optional(search_options(f)[1]) + optional(
            search_options(f)[2],
        ) + optional(search_options(f)[3]) + optional(search_options(f)[4]) + optional(search_options(f)[5])
            + optional(search_options(f)[6]) + optional(search_options(f)[7]),
{
    let tail: Seq<FilterSpec> = if f.has_attachment == Some(true) {
        seq![FilterSpec::HasAttachment(true)]
    } else {
        Seq::empty()
    };
    assert(tail == optional(search_options(f)[7]));
}

proof fn lemma_search_origins(f: SearchFilters)
    ensures
        forall|i: int| 0 <= i < search_filters(f).len() ==> search_origin(f, #[trigger] search_filters(f)[i]),
{
    let o = search_options(f);
    lemma_search_filters_split(f);
    lemma_optional_origin(f, o[0]);
    lemma_optional_origin(f, o[1]);
    lemma_optional_origin(f, o[2]);
    lemma_optional_origin(f, o[3]);
    lemma_optional_origin(f, o[4]);
    lemma_optional_origin(f, o[5]);
    lemma_optional_origin(f, o[6]);
    lemma_optional_origin(f, o[7]);
    let a = optional(o[0]) + optional(o[1]);
    let b = a + optional(o[2]);
    let c = b + optional(o[3]);
    let d = c + optional(o[4]);
    let e = d + optional(o[5]);
    let g = e + optional(o[6]);
    lemma_origin_concat(f, optional(o[0]), optional(o[1]));
    lemma_origin_concat(f, a, optional(o[2]));
    lemma_origin_concat(f, b, optional(o[3]));
    lemma_origin_concat(f, c, optional(o[4]));
    lemma_origin_concat(f, d, optional(o[5]));
    lemma_origin_concat(f, e, optional(o[6]));
    lemma_origin_concat(f, g, optional(o[7]));
}

proof fn lemma_search_present(f: SearchFilters)
    ensures
        ({
            let cs = search_filters(f);
            &&& cs.len() == one_if(f.text is Some) + one_if(f.from is Some) + one_if(f.to is Some)
                + one_if(f.subject is Some) + one_if(f.mailbox_id is Some) + one_if(f.after is Some)
                + one_if(f.before is Some) + one_if(f.has_attachment == Some(true))
            &&& f.text matches Some(x) ==> cs.contains(FilterSpec::Text(x@))
            &&& f.from matches Some(x) ==> cs.contains(FilterSpec::From(x@))
            &&& f.to matches Some(x) ==> cs.contains(FilterSpec::To(x@))
            &&& f.subject matches Some(x) ==> cs.contains(FilterSpec::Subject(x@))
            &&& f.mailbox_id matches Some(x) ==> cs.contains(FilterSpec::InMailbox(x@))
            &&& f.after matches Some(t) ==> cs.contains(FilterSpec::After(t))
            &&& f.before matches Some(t) ==> cs.contains(FilterSpec::Before(t))
            &&& f.has_attachment == Some(true) ==> cs.contains(FilterSpec::HasAttachment(true))
        }),
{
    broadcast use vstd::seq_lib::lemma_seq_concat_contains_all_elements;
    let o = search_options(f);
    lemma_search_filters_split(f);
    lemma_optional_contains(o[0], FilterSpec::Text(f.text->0@));
    lemma_optional_contains(o[1], FilterSpec::From(f.from->0@));
    lemma_optional_contains(o[2], FilterSpec::To(f.to->0@));
    lemma_optional_contains(o[3], FilterSpec::Subject(f.subject->0@));
    lemma_optional_contains(o[4], FilterSpec::InMailbox(f.mailbox_id->0@));
    lemma_optional_contains(o[5], FilterSpec::After(f.after->0));
    lemma_optional_contains(o[6], FilterSpec::Before(f.before->0));
    lemma_optional_contains(o[7], FilterSpec::HasAttachment(true));
}

pub proof fn lemma_search_conditions(f: SearchFilters)
    ensures
        ({
            let cs = search_filters(f);
            &&& cs.len() == one_if(f.text is Some) + one_if(f.from is Some) + one_if(f.to is Some)
                + one_if(f.subject is Some) + one_if(f.mailbox_id is Some) + one_if(f.after is Some)
                + one_if(f.before is Some) + one_if(f.has_attachment == Some(true))
            &&& f.text matches Some(x) ==> cs.contains(FilterSpec::Text(x@))
            &&& f.from matches Some(x) ==> cs.contains(FilterSpec::From(x@))
            &&& f.to matches Some(x) ==> cs.contains(FilterSpec::To(x@))
            &&& f.subject matches Some(x) ==> cs.contains(FilterSpec::Subject(x@))
            &&& f.mailbox_id matches Some(x) ==> cs.contains(FilterSpec::InMailbox(x@))
            &&& f.after matches Some(t) ==> cs.contains(FilterSpec::After(t))
            &&& f.before matches Some(t) ==> cs.contains(FilterSpec::Before(t))
            &&& f.has_attachment == Some(true) ==> cs.contains(FilterSpec::HasAttachment(true))
            &&& forall|i: int| #![trigger cs[i]] 0 <= i < cs.len() ==> match cs[i] {
                FilterSpec::Text(x) => opt_str_view(f.text) == Some(x),
                FilterSpec::From(x) => opt_str_view(f.from) == Some(x),
                FilterSpec::To(x) => opt_str_view(f.to) == Some(x),
                FilterSpec::Subject(x) => opt_str_view(f.subject) == Some(x),
                FilterSpec::InMailbox(x) => opt_str_view(f.mailbox_id) == Some(x),
                FilterSpec::After(t) => f.after == Some(t),
                FilterSpec::Before(t) => f.before == Some(t),
                FilterSpec::HasAttachment(b) => b && f.has_attachment == Some(true),
                FilterSpec::NotKeyword(_) => false,
            }
        }),
{
    lemma_search_present(f);
    lemma_search_origins(f);
    let cs = search_filters(f);
    assert forall|i: int| #![trigger cs[i]] 0 <= i < cs.len() implies search_origin(f, cs[i]) by {}
}

fn push_optional(v: &mut Vec<EmailFilter>, f: Option<EmailFilter>)
    ensures
        filters_view(final(v)@) == filters_view(old(v)@) + optional(match f {
            Some(x) => Some(x@),
            None => None,
        }),
{
    let ghost before = v@;
    match f {
        Some(x) => {
            v.push(x);
            assert(filters_view(v@) =~= filters_view(before) + seq![x@]);
        },
        None => {
            assert(filters_view(v@) =~= filters_view(before) + Seq::<FilterSpec>::empty());
        },
    }
}

/// The conditions of a search, in order.
pub fn search_conditions(search: &SearchFilters) -> (v: Vec<EmailFilter>)
    ensures
        filters_view(v@) == search_filters(*search),
        ({
            let cs = filters_view(v@);
            &&& cs.len() == one_if(search.text is Some) + one_if(search.from is Some) + one_if(search.to is Some)
                + one_if(search.subject is Some) + one_if(search.mailbox_id is Some) + one_if(search.after is Some)
                + one_if(search.before is Some) + one_if(search.has_attachment == Some(true))
            &&& search.text matches Some(x) ==> cs.contains(FilterSpec::Text(x@))
            &&& search.from matches Some(x) ==> cs.contains(FilterSpec::From(x@))
            &&& search.to matches Some(x) ==> cs.contains(FilterSpec::To(x@))
            &&& search.subject matches Some(x) ==> cs.contains(FilterSpec::Subject(x@))
            &&& search.mailbox_id matches Some(x) ==> cs.contains(FilterSpec::InMailbox(x@))
            &&& search.after matches Some(t) ==> cs.contains(FilterSpec::After(t))
            &&& search.before matches Some(t) ==> cs.contains(FilterSpec::Before(t))
            &&& search.has_attachment == Some(true) ==> cs.contains(FilterSpec::HasAttachment(true))
            &&& forall|i: int| #![trigger cs[i]] 0 <= i < cs.len() ==> match cs[i] {
                FilterSpec::Text(x) => opt_str_view(search.text) == Some(x),
                FilterSpec::From(x) => opt_str_view(search.from) == Some(x),
                FilterSpec::To(x) => opt_str_view(search.to) == Some(x),
                FilterSpec::Subject(x) => opt_str_view(search.subject) == Some(x),
                FilterSpec::InMailbox(x) => opt_str_view(search.mailbox_id) == Some(x),
                FilterSpec::After(t) => search.after == Some(t),
                FilterSpec::Before(t) => search.before == Some(t),
                FilterSpec::HasAttachment(b) => b && search.has_attachment == Some(true),
                FilterSpec::NotKeyword(_) => false,
            }
        }),
{
    let mut v: Vec<EmailFilter> = Vec::new();
    push_optional(&mut v, match search.text {
        Some(s) => Some(EmailFilter::Text(owned(s))),
        None => None,
    });
    push_optional(&mut v, match search.from {
        Some(s) => Some(EmailFilter::From(owned(s))),
        None => None,
    });
    push_optional(&mut v, match search.to {
        Some(s) => Some(EmailFilter::To(owned(s))),
        None => None,
    });
    push_optional(&mut v, match search.subject {
        Some(s) => Some(EmailFilter::Subject(owned(s))),
        None => None,
    });
    push_optional(&mut v, match search.mailbox_id {
        Some(s) => Some(EmailFilter::InMailbox(owned(s))),
        None => None,
    });
    push_optional(&mut v, match search.after {
        Some(t) => Some(EmailFilter::After(t)),
        None => None,
    });
    push_optional(&mut v, match search.before {
        Some(t) => Some(EmailFilter::Before(t)),
        None => None,
    });
    let attachment = match search.has_attachment {
        Some(true) => Some(EmailFilter::HasAttachment(true)),
        _ => None,
    };
    push_optional(&mut v, attachment);
    assert(filters_view(v@) =~= search_filters(*search));
    proof {
        lemma_search_conditions(*search);
    }
    v
}

/// The query of a search: no condition, the one condition, or all of them,
/// at most `limit` results.
pub fn search_query(search: &SearchFilters) -> (q: EmailQuery)
    ensures
        newest_first(q.sort),
        q.limit == search.limit,
        q.position is None,
        q.filter@ == ({
            let fs = search_filters(*search);
            if fs.len() == 0 {
                PlanSpec::Unfiltered
            } else if fs.len() == 1 {
                PlanSpec::Single(fs[0])
            } else {
                PlanSpec::All(fs)
            }
        }),
        ({
            let cs = plan_conditions(q.filter@);
            &&& cs.len() == one_if(search.text is Some) + one_if(search.from is Some) + one_if(search.to is Some)
                + one_if(search.subject is Some) + one_if(search.mailbox_id is Some) + one_if(search.after is Some)
                + one_if(search.before is Some) + one_if(search.has_attachment == Some(true))
            &&& search.text matches Some(x) ==> cs.contains(FilterSpec::Text(x@))
            &&& search.from matches Some(x) ==> cs.contains(FilterSpec::From(x@))
            &&& search.to matches Some(x) ==> cs.contains(FilterSpec::To(x@))
            &&& search.subject matches Some(x) ==> cs.contains(FilterSpec::Subject(x@))
            &&& search.mailbox_id matches Some(x) ==> cs.contains(FilterSpec::InMailbox(x@))
            &&& search.after matches Some(t) ==> cs.contains(FilterSpec::After(t))
            &&& search.before matches Some(t) ==> cs.contains(FilterSpec::Before(t))
            &&& search.has_attachment == Some(true) ==> cs.contains(FilterSpec::HasAttachment(true))
            &&& forall|i: int| #![trigger cs[i]] 0 <= i < cs.len() ==> match cs[i] {
                FilterSpec::Text(x) => opt_str_view(search.text) == Some(x),
                FilterSpec::From(x) => opt_str_view(search.from) == Some(x),
                FilterSpec::To(x) => opt_str_view(search.to) == Some(x),
                FilterSpec::Subject(x) => opt_str_view(search.subject) == Some(x),
                FilterSpec::InMailbox(x) => opt_str_view(search.mailbox_id) == Some(x),
                FilterSpec::After(t) => search.after == Some(t),
                FilterSpec::Before(t) => search.before == Some(t),
                FilterSpec::HasAttachment(b) => b && search.has_attachment == Some(true),
                FilterSpec::NotKeyword(_) => false,
            }
        }),
{
    let mut filters = search_conditions(search);
    proof {
        let fs = search_filters(*search);
        if fs.len() == 1 {
            assert(seq![fs[0]] =~= fs);
        }
    }
    let filter = if filters.len() == 0 {
        FilterPlan::Unfiltered
    } else if filters.len() == 1 {
        let f = filters.remove(0);
        FilterPlan::Single(f)
    } else {
        FilterPlan::All(filters)
    };
    EmailQuery { filter, sort: newest_first_sort(), limit: search.limit, position: None }
}

/// The keywords a new message is stored with: a draft is marked `$draft` and
/// `$seen`, a sent message `$seen`.
pub fn outgoing_keywords(draft: bool) -> (k: Vec<String>)
    ensures
        views_of(k@) == if draft {
            seq!["$draft"@, "$seen"@]
        } else {
            seq!["$seen"@]
        },
{
    let mut k: Vec<String> = Vec::new();
    if draft {
        k.push(owned("$draft"));
    }
    k.push(owned("$seen"));
    assert(views_of(k@) =~= if draft {
        seq!["$draft"@, "$seen"@]
    } else {
        seq!["$seen"@]
    });
    k
}

/// The fields of a message to store: where, with which keywords, and its
/// headers and text body.
#[derive(Debug, Clone, PartialEq, Eq)]
pub struct OutgoingEmail {
    pub mailbox_id: String,
    pub keywords: Vec<String>,
    pub from: String,
    pub to: Vec<String>,
    /// Copy recipients; absent when there are none.
    pub cc: Option<Vec<String>>,
    pub subject: String,
    /// Identifier of the single text body part.
    pub body_part_id: String,
    pub body: String,
    pub in_reply_to: Option<String>,
    pub references: Option<String>,
}

/// The optional borrowed text as characters.
pub open spec fn opt_str_view(o: Option<&str>) -> Option<Seq<char>> {
    match o {
        Some(s) => Some(s@),
        None => None,
    }
}

fn own_opt(o: Option<&str>) -> (r: Option<String>)
    ensures
        opt_view(r) == opt_str_view(o),
{
    match o {
        Some(s) => Some(owned(s)),
        None => None,
    }
}

/// The message to store for `compose` in the mailbox `mailbox_id`: a draft
/// (marked `$draft` and `$seen`) or a sent message (marked `$seen`), with a
/// single text body part `1`; copy recipients only when there are some, and
/// the threading headers only when given.
pub fn outgoing_email(compose: &ComposeEmail, mailbox_id: &str, draft: bool) -> (m: OutgoingEmail)
    ensures
        m.mailbox_id@ == mailbox_id@,
        views_of(m.keywords@) == if draft {
            seq!["$draft"@, "$seen"@]
        } else {
            seq!["$seen"@]
        },
        m.from@ == compose.from@,
        views_of(m.to@) == views_of(compose.to@),
        match m.cc {
            Some(cc) => compose.cc@.len() > 0 && views_of(cc@) == views_of(compose.cc@),
            None => compose.cc@.len() == 0,
        },
        m.subject@ == compose.subject@,
        m.body_part_id@ == "1"@,
        m.body@ == compose.body@,
        opt_view(m.in_reply_to) == opt_str_view(compose.in_reply_to),
        opt_view(m.references) == opt_str_view(compose.references),
{
    let cc = if compose.cc.len() > 0 {
        Some(copy_strings(compose.cc))
    } else {
        None
    };
    OutgoingEmail {
        mailbox_id: owned(mailbox_id),
        keywords: outgoing_keywords(draft),
        from: owned(compose.from),
        to: copy_strings(compose.to),
        cc,
        subject: owned(compose.subject),
        body_part_id: owned("1"),
        body: owned(compose.body),
        in_reply_to: own_opt(compose.in_reply_to),
        references: own_opt(compose.references),
    }
}

/// The first Message-ID of a message, given its Message-ID header values.
pub fn first_message_id(ids: Option<&[String]>) -> (r: Option<String>)
    ensures
        opt_view(r) == match ids {
            Some(v) => if v@.len() > 0 {
                Some(v@[0]@)
            } else {
                None
            },
            None => None,
        },
{
    match ids {
        Some(v) => if v.len() > 0 {
            Some(v[0].clone())
        } else {
            None
        },
        None => None,
    }
}

/// The identifier reported for a sent message: the created submission's, or
/// `sent` when the server reported none.
pub fn submission_id_or_default(created: Option<String>) -> (r: String)
    ensures
        r@ == match created {
            Some(id) => id@,
            None => "sent"@,
        },
{
    match created {
        Some(id) => id,
        None => owned("sent"),
    }
}


/// The mailbox that an operation needs: its identifier when it was found,
/// else the error naming it (`<name> mailbox not found`).
pub fn mailbox_required(found: Option<String>, name: &str) -> (r: Result<String, AppError>)
    ensures
        match found {
            Some(id) => r matches Ok(x) && x@ == id@,
            None => r matches Err(AppError::NotFound(m)) && m@ == name@ + " mailbox not found"@,
        },
{
    match found {
        Some(id) => Ok(id),
        None => Err(AppError::NotFound(concat2(name, " mailbox not found"))),
    }
}

/// The message that an operation needs, or `Email not found`.
pub fn email_required<T>(found: Option<T>) -> (r: Result<T, AppError>)
    ensures
        match found {
            Some(e) => r == Ok::<T, AppError>(e),
            None => r matches Err(AppError::NotFound(m)) && m@ == "Email not found"@,
        },
{
    match found {
        Some(e) => Ok(e),
        None => Err(AppError::NotFound(owned("Email not found"))),
    }
}

/// The identifier of a created draft, or `Failed to create draft` when the
/// server reported none.
pub fn created_draft_id(created: Option<String>) -> (r: Result<String, AppError>)
    ensures
        match created {
            Some(id) => r matches Ok(x) && x@ == id@,
            None => r matches Err(AppError::JmapRequest(m)) && m@ == "Failed to create draft"@,
        },
{
    match created {
        Some(id) => Ok(id),
        None => Err(AppError::JmapRequest(owned("Failed to create draft"))),
    }
}

/// The identity to send from: the identifier of the account's first
/// identity, or `No identity found for sending` when there is none.
pub fn sending_identity(first_identity_id: Option<String>) -> (r: Result<String, AppError>)
    ensures
        match first_identity_id {
            Some(id) => r matches Ok(x) && x@ == id@,
            None => r matches Err(AppError::JmapRequest(m)) && m@ == "No identity found for sending"@,
        },
{
    match first_identity_id {
        Some(id) => Ok(id),
        None => Err(AppError::JmapRequest(owned("No identity found for sending"))),
    }
}

} // verus!
