//! The registry of connected mail accounts, the address of the event
//! stream, and the checks made before connecting.
pub mod mail;

use vstd::prelude::*;
use std::sync::Arc;
use url::{ParseError, Url};
use crate::error::AppError;
use crate::text::{concat2, concat3, decimal, decimal_string, has_prefix, opt_view, owned, str_eq};

verus! {

/// `url::ParseError`, why a text is no URL, held opaque.
#[verifier::external_type_specification]
#[verifier::external_body]
pub struct ExParseError(ParseError);

/// Whether `Url::parse` accepts the text.
pub uninterp spec fn url_parses(input: Seq<char>) -> bool;

/// The host of the text as a URL, when `Url::parse` accepts it
/// (`Url::host_str` of the parsed URL).
pub uninterp spec fn url_host_of(input: Seq<char>) -> Option<Seq<char>>;

/// Parses an absolute URL (`Url::parse`) and gives its host
/// (`Url::host_str`), the parsed value itself being opaque here.  Both
/// depend on the text alone.
#[verifier::external_body]
fn parse_url_host(input: &str) -> (r: Result<Option<String>, ParseError>)
    ensures
        r is Ok <==> url_parses(input@),
        r matches Ok(h) ==> opt_view(h) == url_host_of(input@),
{
    Url::parse(input).map(|u: Url| u.host_str().map(str::to_string))
}

/// The description of a URL parse error (its `Display` text, through
/// `ToString::to_string`).  Nothing is stated of the text.
#[verifier::external_body]
fn parse_error_text(e: &ParseError) -> String {
    e.to_string()
}

/// The host that redirects of the account's server may lead to: the host of
/// its URL.  An unparsable URL, or one without a host, is a connection error.
pub fn redirect_host(url: &str) -> (r: Result<String, AppError>)
    ensures
        !url_parses(url@) ==> (r matches Err(AppError::JmapConnection(m)) && has_prefix(m@, "Invalid URL: "@)),
        url_parses(url@) ==> match url_host_of(url@) {
            Some(h) => (r matches Ok(s) && s@ == h),
            None => (r matches Err(AppError::JmapConnection(m)) && m@ == "No host in URL"@),
        },
{
    match parse_url_host(url) {
        Err(e) => {
            let text = parse_error_text(&e);
            assert(("Invalid URL: "@ + text@).take("Invalid URL: "@.len() as int) =~= "Invalid URL: "@);
            Err(AppError::JmapConnection(concat2("Invalid URL: ", text.as_str())))
        },
        Ok(Some(h)) => Ok(h),
        Ok(None) => Err(AppError::JmapConnection(owned("No host in URL"))),
    }
}

/// A piece of the event-stream URL template of a JMAP session.
#[derive(Debug, Clone, PartialEq, Eq)]
pub enum UrlPart {
    /// Literal text.
    Value(String),
    /// The `types` parameter.
    Types,
    /// The `closeafter` parameter.
    CloseAfter,
    /// The `ping` parameter.
    Ping,
}

/// The text that fills one template piece: all mail-related types, never
/// close, and the keepalive interval in seconds.
pub open spec fn url_part_text(p: UrlPart, ping_interval: u32) -> Seq<char> {
    match p {
        UrlPart::Value(v) => v@,
        UrlPart::Types => "Email,Mailbox,EmailDelivery"@,
        UrlPart::CloseAfter => "no"@,
        UrlPart::Ping => decimal(ping_interval as nat),
    }
}

/// The filled template.
pub open spec fn filled_url(parts: Seq<UrlPart>, ping_interval: u32) -> Seq<char>
    decreases parts.len(),
{
    if parts.len() == 0 {
        Seq::empty()
    } else {
        filled_url(parts.drop_last(), ping_interval) + url_part_text(parts.last(), ping_interval)
    }
}

/// The event-stream URL: the session's template with its parameters filled in.
pub fn event_source_url(parts: &[UrlPart], ping_interval: u32) -> (url: String)
    ensures
        url@ == filled_url(parts@, ping_interval),
{
    let mut url = String::new();
    let mut i: usize = 0;
    while i < parts.len()
        invariant
            i <= parts@.len(),
            url@ == filled_url(parts@.take(i as int), ping_interval),
        decreases parts.len() - i,
    {
        proof {
            assert(parts@.take(i + 1).drop_last() =~= parts@.take(i as int));
        }
        match &parts[i] {
            UrlPart::Value(v) => url.append(v.as_str()),
            UrlPart::Types => url.append("Email,Mailbox,EmailDelivery"),
            UrlPart::CloseAfter => url.append("no"),
            UrlPart::Ping => {
                let n = decimal_string(ping_interval as u64);
                url.append(n.as_str());
            },
        }
        i = i + 1;
    }
    proof {
        assert(parts@.take(parts@.len() as int) =~= parts@);
    }
    url
}

/// Whether the event stream answered: a response that is not a success is a
/// connection error naming its HTTP status (`status`, as displayed).
pub fn check_event_stream_status(success: bool, status: &str) -> (r: Result<(), AppError>)
    ensures
        success ==> r is Ok,
        !success ==> (r matches Err(AppError::JmapConnection(m)) && m@ == "EventSource returned HTTP "@ + status@),
{
    if success {
        Ok(())
    } else {
        Err(AppError::JmapConnection(concat2("EventSource returned HTTP ", status)))
    }
}

/// The connected accounts, by name, with the one used when a request names none.
pub struct AccountManager<C> {
    accounts: Vec<(String, Arc<C>)>,
    default: String,
}

/// The names of a list of named entries.
pub open spec fn names_of<C>(entries: Seq<(String, Arc<C>)>) -> Seq<Seq<char>> {
    entries.map_values(|e: (String, Arc<C>)| e.0@)
}

/// Position of the last entry named `name`, or -1 when none is.
pub open spec fn last_index(names: Seq<Seq<char>>, name: Seq<char>) -> int
    decreases names.len(),
{
    if names.len() == 0 {
        -1
    } else if names.last() == name {
        names.len() - 1
    } else {
        last_index(names.drop_last(), name)
    }
}

/// Position of the entry named `name`, if there is one.
fn find_entry<C>(entries: &Vec<(String, Arc<C>)>, name: &str) -> (r: Option<usize>)
    ensures
        match r {
            Some(k) => k < entries@.len() && names_of(entries@)[k as int] == name@,
            None => !names_of(entries@).contains(name@),
        },
{
    let mut k: usize = 0;
    while k < entries.len()
        invariant
            k <= entries@.len(),
            forall|b: int| 0 <= b < k ==> names_of(entries@)[b] != name@,
        decreases entries.len() - k,
    {
        if str_eq(entries[k].0.as_str(), name) {
            return Some(k);
        }
        k = k + 1;
    }
    None
}

proof fn lemma_contains_push(s: Seq<Seq<char>>, x: Seq<char>, n: Seq<char>)
    ensures
        s.push(x).contains(n) <==> (s.contains(n) || n == x),
{
    if s.push(x).contains(n) && n != x {
        let j = choose|j: int| 0 <= j < s.push(x).len() && s.push(x)[j] == n;
        assert(s[j] == n);
    }
    if s.contains(n) {
        let j = choose|j: int| 0 <= j < s.len() && s[j] == n;
        assert(s.push(x)[j] == n);
    }
    assert(s.push(x)[s.len() as int] == x);
}

impl<C> AccountManager<C> {
    /// Account names, in order of connection.
    pub closed spec fn names(&self) -> Seq<Seq<char>> {
        names_of(self.accounts@)
    }

    /// The client of the `i`-th account.
    pub closed spec fn client_at(&self, i: int) -> Arc<C> {
        self.accounts@[i].1
    }

    /// Name of the default account.
    pub closed spec fn default_view(&self) -> Seq<char> {
        self.default@
    }

    /// At least one account, no name twice, and a default among them.
    #[verifier::type_invariant]
    pub closed spec fn wf(&self) -> bool {
        &&& self.accounts@.len() > 0
        &&& self.names().no_duplicates()
        &&& self.names().contains(self.default@)
    }

    /// The registry of the accounts that connected.  `configured` is the
    /// number of configured accounts and `connected` the name and client of
    /// each that connected, in order; a later one replaces an earlier one of
    /// the same name.  The default is `default_account` if it connected, else
    /// the first account that did.
    pub fn assemble(
        configured: usize,
        connected: Vec<(String, Arc<C>)>,
        default_account: Option<&str>,
    ) -> (r: Result<AccountManager<C>, AppError>)
        ensures
            configured == 0 ==> (r matches Err(AppError::Config(m)) && m@ == "No accounts configured"@),
            configured > 0 && connected@.len() == 0 ==> (r matches Err(AppError::Config(m))
                && m@ == "No accounts could be connected"@),
            configured > 0 && connected@.len() > 0 ==> r is Ok,
            r matches Ok(mgr) ==> {
                &&& mgr.wf()
                &&& forall|n: Seq<char>| #[trigger] mgr.names().contains(n) <==> names_of(connected@).contains(n)
                &&& forall|i: int| #![trigger mgr.names()[i]] 0 <= i < mgr.names().len()
                    ==> mgr.client_at(i) == connected@[last_index(names_of(connected@), mgr.names()[i])].1
                &&& mgr.default_view() == match default_account {
                    Some(d) => if names_of(connected@).contains(d@) {
                        d@
                    } else {
                        names_of(connected@)[0]
                    },
                    None => names_of(connected@)[0],
                }
            },
    {
        if configured == 0 {
            return Err(AppError::Config(owned("No accounts configured")));
        }
        if connected.len() == 0 {
            return Err(AppError::Config(owned("No accounts could be connected")));
        }
        let ghost all = connected@;
        let ghost all_names = names_of(all);
        let total = connected.len();
        let mut rest = connected;
        let mut accounts: Vec<(String, Arc<C>)> = Vec::new();
        let mut first: String = String::new();
        while rest.len() > 0
            invariant
                0 < all.len(),
                total == all.len(),
                all_names == names_of(all),
                rest@.len() <= all.len(),
                rest@ == all.skip(all.len() - rest@.len()),
                names_of(accounts@).no_duplicates(),
                forall|n: Seq<char>| #[trigger] names_of(accounts@).contains(n)
                    <==> all_names.take(all.len() - rest@.len()).contains(n),
                forall|a: int| #![trigger names_of(accounts@)[a]] 0 <= a < accounts@.len()
                    ==> accounts@[a].1 == all[last_index(all_names.take(all.len() - rest@.len()), names_of(accounts@)[a])].1,
                rest@.len() < all.len() ==> first@ == all_names[0],
            decreases rest@.len(),
        {
            let ghost i = all.len() - rest@.len();
            let ghost before = accounts@;
            let is_first = rest.len() == total;
            let entry = rest.remove(0);
            assert(entry == all[i]);
            assert(rest@ =~= all.skip(all.len() - rest@.len()));
            let (name, client) = entry;
            assert(name@ == all_names[i]);
            if is_first {
                first = name.clone();
            }
            let ghost pre = all_names.take(i);
            let ghost post = all_names.take(i + 1);
            assert(post =~= pre.push(name@));
            assert(post.drop_last() =~= pre);
            proof {
                assert forall|n: Seq<char>| post.contains(n) <==> (pre.contains(n) || n == name@) by {
                    lemma_contains_push(pre, name@, n);
                }
            }
            match find_entry(&accounts, name.as_str()) {
                Some(k) => {
                    accounts.set(k, (name, client));
                    assert(names_of(accounts@) =~= names_of(before));
                    assert forall|a: int| #![trigger names_of(accounts@)[a]] 0 <= a < accounts@.len()
                        implies accounts@[a].1 == all[last_index(post, names_of(accounts@)[a])].1 by {
                        if a != k {
                            assert(names_of(before)[a] != names_of(before)[k as int]);
                        }
                    }
                    assert forall|n: Seq<char>| #[trigger] names_of(accounts@).contains(n) <==> post.contains(n) by {
                        if n == name@ {
                            assert(names_of(accounts@)[k as int] == n);
                        }
                    }
                },
                None => {
                    accounts.push((name, client));
                    assert(names_of(accounts@) =~= names_of(before).push(name@));
                    assert forall|n: Seq<char>| #[trigger] names_of(accounts@).contains(n) <==> post.contains(n) by {
                        lemma_contains_push(names_of(before), name@, n);
                    }
                    assert forall|a: int| #![trigger names_of(accounts@)[a]] 0 <= a < accounts@.len()
                        implies accounts@[a].1 == all[last_index(post, names_of(accounts@)[a])].1 by {
                        if a < before.len() {
                            assert(names_of(before)[a] == names_of(accounts@)[a]);
                            assert(names_of(before).contains(names_of(before)[a]));
                        }
                    }
                },
            }
        }
        assert(all_names.take(all.len() as int) =~= all_names);
        assert(all_names.contains(all_names[0]));
        assert(names_of(accounts@).contains(all_names[0]));
        assert(accounts@.len() > 0);
        let default = match default_account {
            Some(d) => match find_entry(&accounts, d) {
                Some(k) => owned(d),
                None => first,
            },
            None => first,
        };
        let mgr = AccountManager { accounts, default };
        assert(mgr.wf());
        assert(forall|n: Seq<char>| #[trigger] mgr.names().contains(n) <==> names_of(all).contains(n));
        assert(forall|i: int| #![trigger mgr.names()[i]] 0 <= i < mgr.names().len()
            ==> mgr.client_at(i) == all[last_index(names_of(all), mgr.names()[i])].1);
        Ok(mgr)
    }

    /// The name a request refers to: the one it gives, else the default.
    pub open spec fn requested(&self, name: Option<&str>) -> Seq<char> {
        match name {
            Some(n) => n@,
            None => self.default_view(),
        }
    }

    /// The client of the named account (the default account when no name is
    /// given).  Only accounts that connected at startup can be reached.
    pub fn get(&self, name: Option<&str>) -> (r: Result<&Arc<C>, AppError>)
        ensures
            self.names().no_duplicates(),
            self.names().contains(self.default_view()),
            self.names().contains(self.requested(name)) ==> (r matches Ok(c) && exists|i: int|
                0 <= i < self.names().len() && self.names()[i] == self.requested(name)
                    && *c == #[trigger] self.client_at(i)),
            !self.names().contains(self.requested(name)) ==> (r matches Err(AppError::NotFound(m))
                && m@ == "Account '"@ + self.requested(name) + "' not found"@),
    {
        proof {
            use_type_invariant(self);
        }
        let n: &str = match name {
            Some(x) => x,
            None => self.default.as_str(),
        };
        match find_entry(&self.accounts, n) {
            Some(k) => {
                assert(self.client_at(k as int) == self.accounts@[k as int].1);
                Ok(&self.accounts[k].1)
            },
            None => Err(AppError::NotFound(concat3("Account '", n, "' not found"))),
        }
    }

    /// The accounts, each name with its client.
    pub fn list(&self) -> (r: Vec<(&str, &Arc<C>)>)
        ensures
            self.names().no_duplicates(),
            self.names().contains(self.default_view()),
            r@.len() == self.names().len(),
            forall|i: int| 0 <= i < r@.len() ==> (#[trigger] r@[i]).0@ == self.names()[i]
                && *r@[i].1 == self.client_at(i),
    {
        proof {
            use_type_invariant(self);
        }
        let mut r: Vec<(&str, &Arc<C>)> = Vec::new();
        let mut i: usize = 0;
        while i < self.accounts.len()
            invariant
                i <= self.accounts@.len(),
                r@.len() == i,
                forall|j: int| 0 <= j < i ==> (#[trigger] r@[j]).0@ == self.names()[j]
                    && *r@[j].1 == self.client_at(j),
            decreases self.accounts.len() - i,
        {
            r.push((self.accounts[i].0.as_str(), &self.accounts[i].1));
            i = i + 1;
        }
        r
    }

    /// The default account's name.
    pub fn default_name(&self) -> (r: &str)
        ensures
            r@ == self.default_view(),
            self.names().contains(r@),
            self.names().no_duplicates(),
    {
        proof {
            use_type_invariant(self);
        }
        self.default.as_str()
    }
}

/// With names unique, exactly one account carries the default name, so a
/// request naming the default account and one naming none reach the same
/// entry.
pub proof fn lemma_exactly_one_default(names: Seq<Seq<char>>, default: Seq<char>)
    requires
        names.no_duplicates(),
        names.contains(default),
    ensures
        exists|i: int| 0 <= i < names.len() && names[i] == default
            && forall|j: int| 0 <= j < names.len() && #[trigger] names[j] == default ==> j == i,
{
    let i = choose|i: int| 0 <= i < names.len() && names[i] == default;
    assert forall|j: int| 0 <= j < names.len() && #[trigger] names[j] == default implies j == i by {
        if j != i {
            assert(names[j] == names[i]);
        }
    }
}

/// Requests that name no account are always served, by the default account.
pub proof fn lemma_default_always_resolves<C>(mgr: AccountManager<C>)
    requires
        mgr.wf(),
    ensures
        mgr.names().contains(mgr.requested(None)),
{
}


/// One account as the accounts resource describes it.
#[derive(Debug, Clone, PartialEq, Eq)]
pub struct AccountRecord {
    pub name: String,
    pub id: String,
    pub username: String,
    pub is_default: bool,
}

/// The names of account entries given as (name, account id, user name).
pub open spec fn entry_names(entries: Seq<(String, String, String)>) -> Seq<Seq<char>> {
    entries.map_values(|e: (String, String, String)| e.0@)
}

/// The accounts resource: one record per account, in order, each with its
/// name, account id and user name, marked default when its name is the
/// default account's.  With unique names that include the default, exactly
/// one record is marked default.
pub fn account_records(entries: &[(String, String, String)], default_name: &str) -> (r: Vec<AccountRecord>)
    ensures
        r@.len() == entries@.len(),
        forall|i: int| 0 <= i < r@.len() ==> {
            &&& (#[trigger] r@[i]).name@ == entries@[i].0@
            &&& r@[i].id@ == entries@[i].1@
            &&& r@[i].username@ == entries@[i].2@
            &&& r@[i].is_default == (entries@[i].0@ == default_name@)
        },
        entry_names(entries@).no_duplicates() && entry_names(entries@).contains(default_name@) ==> exists|i: int|
            0 <= i < r@.len() && r@[i].is_default && forall|j: int|
                0 <= j < r@.len() && #[trigger] r@[j].is_default ==> j == i,
{
    let mut r: Vec<AccountRecord> = Vec::new();
    let mut i: usize = 0;
    while i < entries.len()
        invariant
            i <= entries@.len(),
            r@.len() == i,
            forall|k: int| 0 <= k < i ==> {
                &&& (#[trigger] r@[k]).name@ == entries@[k].0@
                &&& r@[k].id@ == entries@[k].1@
                &&& r@[k].username@ == entries@[k].2@
                &&& r@[k].is_default == (entries@[k].0@ == default_name@)
            },
        decreases entries.len() - i,
    {
        let e = &entries[i];
        r.push(AccountRecord {
            name: owned(e.0.as_str()),
            id: owned(e.1.as_str()),
            username: owned(e.2.as_str()),
            is_default: str_eq(e.0.as_str(), default_name),
        });
        i = i + 1;
    }
    proof {
        let names = entry_names(entries@);
        if names.no_duplicates() && names.contains(default_name@) {
            lemma_exactly_one_default(names, default_name@);
            let i = choose|i: int| 0 <= i < names.len() && names[i] == default_name@
                && forall|j: int| 0 <= j < names.len() && #[trigger] names[j] == default_name@ ==> j == i;
            assert(r@[i].is_default);
            assert forall|j: int| 0 <= j < r@.len() && #[trigger] r@[j].is_default implies j == i by {
                assert(names[j] == default_name@);
            }
        }
    }
    r
}

} // verus!
