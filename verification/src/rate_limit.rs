//! Per-tool token buckets.
//!
//! A bucket for `rate` calls per minute holds at most `rate` tokens and gains
//! `rate / 60` tokens per second; a call takes one token or is refused.  Token
//! amounts are kept exactly, in units of one sixty-billionth of a token, so
//! that one nanosecond adds exactly `rate` units.
use vstd::prelude::*;
use std::time::{Duration, Instant};
use crate::error::{ToolError, ToolErrorKind, ToolErrorView};
use crate::text::{concat3, str_eq};

verus! {

/// Units in one token; also the number of nanoseconds in a minute.
pub const UNITS_PER_TOKEN: u128 = 60_000_000_000;

/// The most units a bucket of `rate` calls per minute holds.
pub open spec fn capacity(rate: nat) -> nat {
    rate * 60_000_000_000
}

/// The level after `elapsed` nanoseconds of refilling, capped at capacity.
pub open spec fn refilled(level: nat, rate: nat, elapsed: nat) -> nat {
    let l = level + elapsed * rate;
    if l < capacity(rate) {
        l
    } else {
        capacity(rate)
    }
}

/// One call after `elapsed` nanoseconds: the new level and whether the call
/// is allowed (it is when a whole token is available, which it then takes).
pub open spec fn step(level: nat, rate: nat, elapsed: nat) -> (nat, bool) {
    let l = refilled(level, rate, elapsed);
    if l >= 60_000_000_000 {
        ((l - 60_000_000_000) as nat, true)
    } else {
        (l, false)
    }
}

/// One call charged to a bucket: the call is stamped `new_stamp`, the time
/// since the previous stamp (none when the new stamp is not later) refills
/// the bucket, and the call takes a token if a whole one is there.
pub open spec fn charged(level: nat, stamp: nat, rate: nat, new_level: nat, new_stamp: nat, allowed: bool) -> bool {
    let elapsed: nat = if new_stamp >= stamp { (new_stamp - stamp) as nat } else { 0 };
    step(level, rate, elapsed) == (new_level, allowed)
}

/// `std::time::Instant`, a reading of the monotonic clock, held opaque.
#[verifier::external_type_specification]
#[verifier::external_body]
pub struct ExInstant(Instant);

/// The current time of the monotonic clock (`Instant::now`); nothing is
/// stated of it.
#[verifier::external_body]
fn instant_now() -> Instant {
    Instant::now()
}

/// The time elapsed since `earlier` by the monotonic clock, zero if the
/// clock reads earlier (`Instant::elapsed`); nothing is stated of it.
#[verifier::external_body]
fn duration_since(earlier: &Instant) -> Duration {
    earlier.elapsed()
}

/// Whole nanoseconds in `d` (`Duration::as_nanos`); nothing is stated of
/// the value, as the duration is opaque.
#[verifier::external_body]
fn duration_nanos(d: &Duration) -> u128 {
    d.as_nanos()
}

/// A token bucket for one tool.  Times are whole nanoseconds since the
/// bucket was made, by the monotonic clock.
pub struct TokenBucket {
    tokens: u128,
    max_per_minute: u32,
    created: Instant,
    last_refill: u128,
}

impl TokenBucket {
    /// Current amount, in units.
    pub closed spec fn level(&self) -> nat {
        self.tokens as nat
    }

    /// Calls allowed per minute.
    pub closed spec fn rate(&self) -> nat {
        self.max_per_minute as nat
    }

    /// When the bucket was last refilled, in nanoseconds since it was made.
    pub closed spec fn stamp(&self) -> nat {
        self.last_refill as nat
    }

    /// The amount never exceeds the capacity.
    pub closed spec fn wf(&self) -> bool {
        self.tokens <= capacity(self.max_per_minute as nat)
    }

    /// A full bucket for `max_per_minute` calls per minute, refilled now.
    pub fn new(max_per_minute: u32) -> (b: TokenBucket)
        ensures
            b.wf(),
            b.rate() == max_per_minute,
            b.level() == capacity(max_per_minute as nat),
            b.stamp() == 0,
    {
        TokenBucket {
            tokens: max_per_minute as u128 * UNITS_PER_TOKEN,
            max_per_minute,
            created: instant_now(),
            last_refill: 0,
        }
    }

    /// Refills for `elapsed_nanos` nanoseconds, then takes a token if a whole
    /// one is there; returns whether it did.
    fn consume_after(&mut self, elapsed_nanos: u128) -> (allowed: bool)
        requires
            old(self).wf(),
        ensures
            final(self).wf(),
            final(self).rate() == old(self).rate(),
            (final(self).level(), allowed) == step(old(self).level(), old(self).rate(), elapsed_nanos as nat),
    {
        let rate = self.max_per_minute as u128;
        let cap = rate * UNITS_PER_TOKEN;
        let e = if elapsed_nanos < UNITS_PER_TOKEN { elapsed_nanos } else { UNITS_PER_TOKEN };
        proof {
            vstd::arithmetic::mul::lemma_mul_inequality(e as int, 60_000_000_000int, rate as int);
            if elapsed_nanos >= UNITS_PER_TOKEN {
                vstd::arithmetic::mul::lemma_mul_inequality(60_000_000_000int, elapsed_nanos as int, rate as int);
            }
            vstd::arithmetic::mul::lemma_mul_is_commutative(e as int, rate as int);
            vstd::arithmetic::mul::lemma_mul_is_commutative(elapsed_nanos as int, rate as int);
        }
        let gained = e * rate;
        let mut l = self.tokens + gained;
        if l > cap {
            l = cap;
        }
        assert(l == refilled(self.tokens as nat, rate as nat, elapsed_nanos as nat));
        if l >= UNITS_PER_TOKEN {
            self.tokens = l - UNITS_PER_TOKEN;
            true
        } else {
            self.tokens = l;
            false
        }
    }

    /// Charges a call made at `now` (nanoseconds since the bucket was made):
    /// refills for the time since the last refill, stamps the bucket `now`
    /// and takes a token if a whole one is there; returns whether it did.
    pub fn consume_at(&mut self, now: u128) -> (allowed: bool)
        requires
            old(self).wf(),
        ensures
            final(self).wf(),
            final(self).rate() == old(self).rate(),
            final(self).stamp() == now,
            charged(old(self).level(), old(self).stamp(), old(self).rate(), final(self).level(), final(self).stamp(), allowed),
    {
        let elapsed = if now >= self.last_refill { now - self.last_refill } else { 0 };
        let allowed = self.consume_after(elapsed);
        self.last_refill = now;
        allowed
    }

    /// Charges a call made now, by the monotonic clock: refills for the time
    /// since the last refill, stamps the bucket with the reading just taken
    /// and takes a token if a whole one is there; returns whether it did.
    /// The reading itself, the time since the bucket was made, is not stated.
    pub fn try_consume(&mut self) -> (allowed: bool)
        requires
            old(self).wf(),
        ensures
            final(self).wf(),
            final(self).rate() == old(self).rate(),
            charged(old(self).level(), old(self).stamp(), old(self).rate(), final(self).level(), final(self).stamp(), allowed),
    {
        let now = duration_nanos(&duration_since(&self.created));
        self.consume_at(now)
    }
}

/// The MCP tools that the server offers.
#[derive(Debug, Clone, Copy, PartialEq, Eq, Structural)]
pub enum Tool {
    ListFolders,
    ListRecent,
    Search,
    Get,
    Flag,
    Move,
    Draft,
    Send,
    BulkJunk,
    BulkDelete,
    BulkRead,
    SpamTrain,
}

/// Number of tools.
pub const TOOL_COUNT: usize = 12;

/// The tool at position `i` of [`Tool::index_of`].
pub open spec fn tool_at(i: int) -> Tool {
    if i == 0 { Tool::ListFolders }
    else if i == 1 { Tool::ListRecent }
    else if i == 2 { Tool::Search }
    else if i == 3 { Tool::Get }
    else if i == 4 { Tool::Flag }
    else if i == 5 { Tool::Move }
    else if i == 6 { Tool::Draft }
    else if i == 7 { Tool::Send }
    else if i == 8 { Tool::BulkJunk }
    else if i == 9 { Tool::BulkDelete }
    else if i == 10 { Tool::BulkRead }
    else { Tool::SpamTrain }
}

/// The tool called `name`, if any.
pub open spec fn tool_named(name: Seq<char>) -> Option<Tool> {
    if name == "mail_list_folders"@ { Some(Tool::ListFolders) }
    else if name == "mail_list_recent"@ { Some(Tool::ListRecent) }
    else if name == "mail_search"@ { Some(Tool::Search) }
    else if name == "mail_get"@ { Some(Tool::Get) }
    else if name == "mail_flag"@ { Some(Tool::Flag) }
    else if name == "mail_move"@ { Some(Tool::Move) }
    else if name == "mail_draft"@ { Some(Tool::Draft) }
    else if name == "mail_send"@ { Some(Tool::Send) }
    else if name == "mail_bulk_junk"@ { Some(Tool::BulkJunk) }
    else if name == "mail_bulk_delete"@ { Some(Tool::BulkDelete) }
    else if name == "mail_bulk_read"@ { Some(Tool::BulkRead) }
    else if name == "spam_train"@ { Some(Tool::SpamTrain) }
    else { None }
}

impl Tool {
    /// The tool's name as MCP clients call it.
    pub open spec fn name_view(self) -> Seq<char> {
        match self {
            Tool::ListFolders => "mail_list_folders"@,
            Tool::ListRecent => "mail_list_recent"@,
            Tool::Search => "mail_search"@,
            Tool::Get => "mail_get"@,
            Tool::Flag => "mail_flag"@,
            Tool::Move => "mail_move"@,
            Tool::Draft => "mail_draft"@,
            Tool::Send => "mail_send"@,
            Tool::BulkJunk => "mail_bulk_junk"@,
            Tool::BulkDelete => "mail_bulk_delete"@,
            Tool::BulkRead => "mail_bulk_read"@,
            Tool::SpamTrain => "spam_train"@,
        }
    }

    /// Position of the tool in the table of buckets.
    pub open spec fn index_of(self) -> int {
        match self {
            Tool::ListFolders => 0,
            Tool::ListRecent => 1,
            Tool::Search => 2,
            Tool::Get => 3,
            Tool::Flag => 4,
            Tool::Move => 5,
            Tool::Draft => 6,
            Tool::Send => 7,
            Tool::BulkJunk => 8,
            Tool::BulkDelete => 9,
            Tool::BulkRead => 10,
            Tool::SpamTrain => 11,
        }
    }

    /// Calls per minute allowed for the tool.
    pub open spec fn limit(self) -> nat {
        match self {
            Tool::ListFolders => 60,
            Tool::ListRecent => 60,
            Tool::Search => 30,
            Tool::Get => 60,
            Tool::Flag => 30,
            Tool::Move => 30,
            Tool::Draft => 10,
            Tool::Send => 5,
            Tool::BulkJunk => 10,
            Tool::BulkDelete => 10,
            Tool::BulkRead => 10,
            Tool::SpamTrain => 5,
        }
    }

    /// The tool's name.
    pub fn name(&self) -> (r: &'static str)
        ensures
            r@ == self.name_view(),
    {
        match self {
            Tool::ListFolders => "mail_list_folders",
            Tool::ListRecent => "mail_list_recent",
            Tool::Search => "mail_search",
            Tool::Get => "mail_get",
            Tool::Flag => "mail_flag",
            Tool::Move => "mail_move",
            Tool::Draft => "mail_draft",
            Tool::Send => "mail_send",
            Tool::BulkJunk => "mail_bulk_junk",
            Tool::BulkDelete => "mail_bulk_delete",
            Tool::BulkRead => "mail_bulk_read",
            Tool::SpamTrain => "spam_train",
        }
    }

    /// Calls per minute allowed for the tool.
    pub fn per_minute(&self) -> (r: u32)
        ensures
            r == self.limit(),
    {
        match self {
            Tool::ListFolders => 60,
            Tool::ListRecent => 60,
            Tool::Search => 30,
            Tool::Get => 60,
            Tool::Flag => 30,
            Tool::Move => 30,
            Tool::Draft => 10,
            Tool::Send => 5,
            Tool::BulkJunk => 10,
            Tool::BulkDelete => 10,
            Tool::BulkRead => 10,
            Tool::SpamTrain => 5,
        }
    }

    /// Position of the tool in the table of buckets.
    pub fn index(&self) -> (r: usize)
        ensures
            r == self.index_of(),
            r < TOOL_COUNT,
    {
        match self {
            Tool::ListFolders => 0,
            Tool::ListRecent => 1,
            Tool::Search => 2,
            Tool::Get => 3,
            Tool::Flag => 4,
            Tool::Move => 5,
            Tool::Draft => 6,
            Tool::Send => 7,
            Tool::BulkJunk => 8,
            Tool::BulkDelete => 9,
            Tool::BulkRead => 10,
            Tool::SpamTrain => 11,
        }
    }

    /// The tool at position `i`.
    pub fn at(i: usize) -> (t: Tool)
        requires
            i < TOOL_COUNT,
        ensures
            t == tool_at(i as int),
            t.index_of() == i,
    {
        if i == 0 { Tool::ListFolders }
        else if i == 1 { Tool::ListRecent }
        else if i == 2 { Tool::Search }
        else if i == 3 { Tool::Get }
        else if i == 4 { Tool::Flag }
        else if i == 5 { Tool::Move }
        else if i == 6 { Tool::Draft }
        else if i == 7 { Tool::Send }
        else if i == 8 { Tool::BulkJunk }
        else if i == 9 { Tool::BulkDelete }
        else if i == 10 { Tool::BulkRead }
        else { Tool::SpamTrain }
    }

    /// The tool called `name`, if any.
    pub fn from_name(name: &str) -> (r: Option<Tool>)
        ensures
            r == tool_named(name@),
    {
        if str_eq(name, "mail_list_folders") { Some(Tool::ListFolders) }
        else if str_eq(name, "mail_list_recent") { Some(Tool::ListRecent) }
        else if str_eq(name, "mail_search") { Some(Tool::Search) }
        else if str_eq(name, "mail_get") { Some(Tool::Get) }
        else if str_eq(name, "mail_flag") { Some(Tool::Flag) }
        else if str_eq(name, "mail_move") { Some(Tool::Move) }
        else if str_eq(name, "mail_draft") { Some(Tool::Draft) }
        else if str_eq(name, "mail_send") { Some(Tool::Send) }
        else if str_eq(name, "mail_bulk_junk") { Some(Tool::BulkJunk) }
        else if str_eq(name, "mail_bulk_delete") { Some(Tool::BulkDelete) }
        else if str_eq(name, "mail_bulk_read") { Some(Tool::BulkRead) }
        else if str_eq(name, "spam_train") { Some(Tool::SpamTrain) }
        else { None }
    }
}

/// A tool's position leads back to the tool.
pub proof fn lemma_tool_index_round_trip(t: Tool)
    ensures
        tool_at(t.index_of()) == t,
        0 <= t.index_of() < TOOL_COUNT,
{
}

/// A tool's name leads back to the tool.
pub proof fn lemma_tool_name_round_trip(t: Tool)
    ensures
        tool_named(t.name_view()) == Some(t),
{
    reveal_strlit("mail_list_folders");
    reveal_strlit("mail_list_recent");
    reveal_strlit("mail_search");
    reveal_strlit("mail_get");
    reveal_strlit("mail_flag");
    reveal_strlit("mail_move");
    reveal_strlit("mail_draft");
    reveal_strlit("mail_send");
    reveal_strlit("mail_bulk_junk");
    reveal_strlit("mail_bulk_delete");
    reveal_strlit("mail_bulk_read");
    reveal_strlit("spam_train");
    assert("mail_list_folders"@.len() == 17);
    assert("mail_list_recent"@.len() == 16);
    assert("mail_search"@.len() == 11);
    assert("mail_get"@.len() == 8);
    assert("mail_flag"@.len() == 9);
    assert("mail_move"@.len() == 9);
    assert("mail_draft"@.len() == 10);
    assert("mail_send"@.len() == 9);
    assert("mail_bulk_junk"@.len() == 14);
    assert("mail_bulk_delete"@.len() == 16);
    assert("mail_bulk_read"@.len() == 14);
    assert("spam_train"@.len() == 10);
    assert("mail_flag"@[5] == 'f');
    assert("mail_move"@[5] == 'm');
    assert("mail_send"@[5] == 's');
    assert("mail_list_recent"@[5] == 'l');
    assert("mail_bulk_delete"@[5] == 'b');
    assert("mail_bulk_junk"@[10] == 'j');
    assert("mail_bulk_read"@[10] == 'r');
    assert("mail_draft"@[0] == 'm');
    assert("spam_train"@[0] == 's');
    match t {
        Tool::ListFolders => {},
        Tool::ListRecent => {},
        Tool::Search => {},
        Tool::Get => {},
        Tool::Flag => {},
        Tool::Move => {},
        Tool::Draft => {},
        Tool::Send => {},
        Tool::BulkJunk => {},
        Tool::BulkDelete => {},
        Tool::BulkRead => {},
        Tool::SpamTrain => {},
    }
}

/// Every tool is allowed between 5 and 60 calls per minute.
pub proof fn lemma_tool_limits_in_range(t: Tool)
    ensures
        5 <= t.limit() <= 60,
{
}

/// The answer to a call of `tool` that its rate limit refuses.
pub open spec fn rate_refusal(tool: Seq<char>) -> ToolErrorView {
    ToolErrorView {
        kind: ToolErrorKind::InvalidRequest,
        message: "Rate limit exceeded for '"@ + tool + "'. Try again shortly."@,
    }
}

/// The rate limiters of all tools.
pub struct RateLimiters {
    limiters: Vec<TokenBucket>,
}

impl RateLimiters {
    /// One well-formed bucket per tool, with the tool's rate.
    pub closed spec fn wf(&self) -> bool {
        &&& self.limiters@.len() == TOOL_COUNT
        &&& forall|i: int| 0 <= i < TOOL_COUNT ==> {
            &&& (#[trigger] self.limiters@[i]).wf()
            &&& self.limiters@[i].rate() == tool_at(i).limit()
        }
    }

    /// Units left in the bucket of `t`.
    pub closed spec fn level(&self, t: Tool) -> nat {
        self.limiters@[t.index_of()].level()
    }

    /// When the bucket of `t` was last refilled, in nanoseconds since it was
    /// made.
    pub closed spec fn stamp(&self, t: Tool) -> nat {
        self.limiters@[t.index_of()].stamp()
    }

    /// Buckets for every tool, all full.
    pub fn new() -> (r: RateLimiters)
        ensures
            r.wf(),
            forall|t: Tool| #[trigger] r.level(t) == capacity(t.limit()) && r.stamp(t) == 0,
    {
        let mut limiters: Vec<TokenBucket> = Vec::new();
        let mut i: usize = 0;
        while i < TOOL_COUNT
            invariant
                i <= TOOL_COUNT,
                limiters@.len() == i,
                forall|j: int| 0 <= j < i ==> {
                    &&& (#[trigger] limiters@[j]).wf()
                    &&& limiters@[j].rate() == tool_at(j).limit()
                    &&& limiters@[j].level() == capacity(tool_at(j).limit())
                    &&& limiters@[j].stamp() == 0
                },
            decreases TOOL_COUNT - i,
        {
            let t = Tool::at(i);
            limiters.push(TokenBucket::new(t.per_minute()));
            i = i + 1;
        }
        let r = RateLimiters { limiters };
        assert forall|t: Tool| #[trigger] r.level(t) == capacity(t.limit()) && r.stamp(t) == 0 by {
            lemma_tool_index_round_trip(t);
        }
        r
    }

    /// `after` is `before` with one call of `tool` charged: a tool without a
    /// bucket is always allowed and changes nothing; otherwise the call is
    /// charged to the tool's bucket alone, and `allowed` tells whether it
    /// took a token.
    pub open spec fn checked(before: RateLimiters, after: RateLimiters, tool: Seq<char>, allowed: bool) -> bool {
        &&& after.wf()
        &&& match tool_named(tool) {
            None => allowed && forall|t: Tool|
                #[trigger] after.level(t) == before.level(t) && after.stamp(t) == before.stamp(t),
            Some(t) => {
                &&& charged(before.level(t), before.stamp(t), t.limit(), after.level(t), after.stamp(t), allowed)
                &&& forall|u: Tool| u != t ==> #[trigger] after.level(u) == before.level(u)
                    && after.stamp(u) == before.stamp(u)
            },
        }
    }

    /// Charges one call of `tool`.  A tool without a bucket is never limited;
    /// otherwise the call is refused when its bucket holds no whole token.
    pub fn check(&mut self, tool: &str) -> (r: Result<(), ToolError>)
        requires
            old(self).wf(),
        ensures
            RateLimiters::checked(*old(self), *final(self), tool@, r is Ok),
            r matches Err(e) ==> e@ == rate_refusal(tool@),
    {
        match Tool::from_name(tool) {
            None => Ok(()),
            Some(t) => {
                let i = t.index();
                proof {
                    lemma_tool_index_round_trip(t);
                }
                let ghost old_bucket = self.limiters@[i as int];
                let allowed = self.limiters[i].try_consume();
                proof {
                    assert forall|u: Tool| u != t implies #[trigger] self.level(u) == old(self).level(u)
                        && self.stamp(u) == old(self).stamp(u) by {
                        lemma_tool_index_round_trip(u);
                    }
                }
                if allowed {
                    Ok(())
                } else {
                    Err(ToolError::invalid_request(
                        concat3("Rate limit exceeded for '", tool, "'. Try again shortly."),
                    ))
                }
            },
        }
    }
}

impl Default for RateLimiters {
    fn default() -> (r: RateLimiters)
        ensures
            r.wf(),
            forall|t: Tool| #[trigger] r.level(t) == capacity(t.limit()) && r.stamp(t) == 0,
    {
        RateLimiters::new()
    }
}


/// Levels and decisions of consecutive calls, the `i`-th one made
/// `gaps[i]` nanoseconds after the previous one.
pub open spec fn run(level: nat, rate: nat, gaps: Seq<nat>) -> (nat, Seq<bool>)
    decreases gaps.len(),
{
    if gaps.len() == 0 {
        (level, Seq::empty())
    } else {
        let prev = run(level, rate, gaps.drop_last());
        let next = step(prev.0, rate, gaps.last());
        (next.0, prev.1.push(next.1))
    }
}

/// Number of `true` entries.
pub open spec fn count_allowed(s: Seq<bool>) -> nat
    decreases s.len(),
{
    if s.len() == 0 {
        0
    } else {
        count_allowed(s.drop_last()) + if s.last() { 1nat } else { 0nat }
    }
}

/// Sum of the entries.
pub open spec fn total_time(s: Seq<nat>) -> nat
    decreases s.len(),
{
    if s.len() == 0 {
        0
    } else {
        total_time(s.drop_last()) + s.last()
    }
}

/// A bucket never holds more than its capacity.
pub proof fn lemma_step_bounded(level: nat, rate: nat, elapsed: nat)
    ensures
        step(level, rate, elapsed).0 <= capacity(rate),
{
}

/// A refused call takes nothing: the bucket keeps what the refill gave it,
/// which is less than one token.
pub proof fn lemma_refused_call_takes_nothing(level: nat, rate: nat, elapsed: nat)
    ensures
        !step(level, rate, elapsed).1 ==> step(level, rate, elapsed).0 == refilled(level, rate, elapsed)
            && refilled(level, rate, elapsed) < UNITS_PER_TOKEN,
{
}

/// Waiting longer never turns an allowed call into a refused one.
pub proof fn lemma_waiting_longer_helps(level: nat, rate: nat, e1: nat, e2: nat)
    requires
        e1 <= e2,
    ensures
        step(level, rate, e1).1 ==> step(level, rate, e2).1,
{
    vstd::arithmetic::mul::lemma_mul_inequality(e1 as int, e2 as int, rate as int);
}

/// A minute without calls fills the bucket completely.
pub proof fn lemma_minute_refills(level: nat, rate: nat, elapsed: nat)
    requires
        elapsed >= 60_000_000_000,
    ensures
        refilled(level, rate, elapsed) == capacity(rate),
{
    vstd::arithmetic::mul::lemma_mul_inequality(60_000_000_000int, elapsed as int, rate as int);
    vstd::arithmetic::mul::lemma_mul_is_commutative(60_000_000_000int, rate as int);
}

proof fn lemma_burst_prefix(rate: nat, k: nat)
    requires
        k <= rate,
    ensures
        run(capacity(rate), rate, Seq::new(k, |i: int| 0nat)).0 == (rate - k) * 60_000_000_000,
        run(capacity(rate), rate, Seq::new(k, |i: int| 0nat)).1 == Seq::new(k, |i: int| true),
    decreases k,
{
    if k > 0 {
        lemma_burst_prefix(rate, (k - 1) as nat);
        assert(Seq::new(k, |i: int| 0nat).drop_last() =~= Seq::new((k - 1) as nat, |i: int| 0nat));
        assert(Seq::new(k, |i: int| 0nat).last() == 0);
        assert(0nat * rate == 0) by (nonlinear_arith);
        assert(Seq::new((k - 1) as nat, |i: int| true).push(true) =~= Seq::new(k, |i: int| true));
    }
}

/// A full bucket for `rate` calls per minute allows `rate` calls in a burst
/// and refuses the next one made at the same instant.
pub proof fn lemma_full_bucket_burst(rate: nat)
    ensures
        run(capacity(rate), rate, Seq::new(rate, |i: int| 0nat)).1 == Seq::new(rate, |i: int| true),
        !step(run(capacity(rate), rate, Seq::new(rate, |i: int| 0nat)).0, rate, 0).1,
{
    lemma_burst_prefix(rate, rate);
}

/// Over any run of calls, the allowed ones never exceed what the bucket held
/// at the start plus what the elapsed time refilled.
pub proof fn lemma_allowed_calls_bounded(level: nat, rate: nat, gaps: Seq<nat>)
    ensures
        count_allowed(run(level, rate, gaps).1) * 60_000_000_000 + run(level, rate, gaps).0
            <= level + rate * total_time(gaps),
    decreases gaps.len(),
{
    if gaps.len() > 0 {
        let prefix = gaps.drop_last();
        lemma_allowed_calls_bounded(level, rate, prefix);
        let prev = run(level, rate, prefix);
        assert(run(level, rate, gaps).1.drop_last() =~= prev.1);
        vstd::arithmetic::mul::lemma_mul_is_distributive_add(rate as int, total_time(prefix) as int, gaps.last() as int);
        vstd::arithmetic::mul::lemma_mul_is_commutative(rate as int, gaps.last() as int);
    }
}


proof fn lemma_run_len(level: nat, rate: nat, gaps: Seq<nat>)
    ensures
        run(level, rate, gaps).1.len() == gaps.len(),
    decreases gaps.len(),
{
    if gaps.len() > 0 {
        lemma_run_len(level, rate, gaps.drop_last());
    }
}

proof fn lemma_count_first(s: Seq<bool>, rate: nat)
    requires
        forall|i: int| 0 <= i < s.len() ==> #[trigger] s[i] == (i < rate),
    ensures
        count_allowed(s) == if s.len() < rate { s.len() } else { rate },
    decreases s.len(),
{
    if s.len() > 0 {
        lemma_count_first(s.drop_last(), rate);
    }
}

proof fn lemma_burst_keeps_tokens(rate: nat, gaps: Seq<nat>)
    requires
        gaps.len() <= rate,
    ensures
        run(capacity(rate), rate, gaps).0 >= (rate - gaps.len()) * 60_000_000_000,
        run(capacity(rate), rate, gaps).0 <= capacity(rate),
        forall|i: int| 0 <= i < gaps.len() ==> #[trigger] run(capacity(rate), rate, gaps).1[i],
    decreases gaps.len(),
{
    if gaps.len() > 0 {
        let prefix = gaps.drop_last();
        lemma_burst_keeps_tokens(rate, prefix);
        let prev = run(capacity(rate), rate, prefix);
        vstd::arithmetic::mul::lemma_mul_nonnegative(gaps.last() as int, rate as int);
        lemma_run_len(capacity(rate), rate, prefix);
        assert(run(capacity(rate), rate, gaps).1 == prev.1.push(step(prev.0, rate, gaps.last()).1));
        assert forall|i: int| 0 <= i < gaps.len() implies #[trigger] run(capacity(rate), rate, gaps).1[i] by {
            if i < prefix.len() {
                assert(run(capacity(rate), rate, gaps).1[i] == prev.1[i]);
            }
        }
    }
}

/// Calls made closer together than the refill of one token, counted from
/// the first: from a full bucket of `rate` calls per minute, exactly the
/// first `rate` calls are allowed and every later one is refused.  (For
/// `rate` calls a minute, one token takes `60 / rate` seconds to refill.)
pub proof fn lemma_quick_calls(rate: nat, gaps: Seq<nat>)
    requires
        rate * total_time(gaps) < 60_000_000_000,
    ensures
        forall|i: int| 0 <= i < gaps.len() ==> #[trigger] run(capacity(rate), rate, gaps).1[i] == (i < rate),
    decreases gaps.len(),
{
    if gaps.len() > 0 {
        let prefix = gaps.drop_last();
        let j = prefix.len();
        vstd::arithmetic::mul::lemma_mul_is_distributive_add(rate as int, total_time(prefix) as int, gaps.last() as int);
        vstd::arithmetic::mul::lemma_mul_nonnegative(rate as int, gaps.last() as int);
        vstd::arithmetic::mul::lemma_mul_is_commutative(rate as int, gaps.last() as int);
        lemma_quick_calls(rate, prefix);
        let prev = run(capacity(rate), rate, prefix);
        let whole = run(capacity(rate), rate, gaps);
        let last = step(prev.0, rate, gaps.last());
        lemma_run_len(capacity(rate), rate, prefix);
        assert(whole.1 == prev.1.push(last.1));
        assert(whole.1[j as int] == last.1);
        assert forall|i: int| 0 <= i < j implies #[trigger] whole.1[i] == prev.1[i] by {}
        if j < rate {
            lemma_burst_keeps_tokens(rate, prefix);
            vstd::arithmetic::mul::lemma_mul_nonnegative(gaps.last() as int, rate as int);
            assert(whole.1[j as int]);
        } else {
            lemma_count_first(prev.1, rate);
            lemma_allowed_calls_bounded(capacity(rate), rate, prefix);
            assert(!whole.1[j as int]);
        }
    }
}


/// Successive calls charged to one bucket (through
/// [`TokenBucket::try_consume`], or [`RateLimiters::check`] for one tool):
/// before call `i` the bucket holds `levels[i]` and is stamped `stamps[i]`,
/// after it `levels[i + 1]` and `stamps[i + 1]`, and `outcomes[i]` tells
/// whether the call was allowed.
pub open spec fn charged_calls(rate: nat, levels: Seq<nat>, stamps: Seq<nat>, outcomes: Seq<bool>) -> bool {
    &&& levels.len() == outcomes.len() + 1
    &&& stamps.len() == outcomes.len() + 1
    &&& forall|i: int| 0 <= i < outcomes.len() ==> #[trigger] charged(
        levels[i],
        stamps[i],
        rate,
        levels[i + 1],
        stamps[i + 1],
        outcomes[i],
    )
}

/// Stamps that never go back, as readings of the monotonic clock do.
pub open spec fn nondecreasing(stamps: Seq<nat>) -> bool {
    forall|i: int, j: int| 0 <= i <= j < stamps.len() ==> stamps[i] <= stamps[j]
}

/// The time between successive stamps.
pub open spec fn gaps_of(stamps: Seq<nat>) -> Seq<nat> {
    Seq::new((stamps.len() - 1) as nat, |i: int| (stamps[i + 1] - stamps[i]) as nat)
}

proof fn lemma_calls_follow_run(rate: nat, levels: Seq<nat>, stamps: Seq<nat>, outcomes: Seq<bool>, j: nat)
    requires
        charged_calls(rate, levels, stamps, outcomes),
        nondecreasing(stamps),
        j <= outcomes.len(),
    ensures
        run(levels[0], rate, gaps_of(stamps).take(j as int)) == (levels[j as int], outcomes.take(j as int)),
        total_time(gaps_of(stamps).take(j as int)) == stamps[j as int] - stamps[0],
    decreases j,
{
    let g = gaps_of(stamps);
    if j == 0 {
        assert(g.take(0) =~= Seq::<nat>::empty());
        assert(outcomes.take(0) =~= Seq::<bool>::empty());
    } else {
        let k = (j - 1) as nat;
        lemma_calls_follow_run(rate, levels, stamps, outcomes, k);
        assert(g.take(j as int).drop_last() =~= g.take(k as int));
        assert(g.take(j as int).last() == stamps[j as int] - stamps[k as int]);
        assert(stamps[k as int] <= stamps[j as int]);
        assert(charged(levels[k as int], stamps[k as int], rate, levels[j as int], stamps[j as int], outcomes[k as int]));
        assert(outcomes.take(k as int).push(outcomes[k as int]) =~= outcomes.take(j as int));
    }
}

/// Over any run of calls charged to one bucket at nondecreasing clock
/// readings, the allowed calls never exceed what the bucket held before the
/// first call plus what the time from the first stamp to the last refilled:
/// for `rate` calls a minute, at most `rate + rate * T / 60` calls in `T`
/// seconds from a full bucket.
pub proof fn lemma_charged_calls_bounded(rate: nat, levels: Seq<nat>, stamps: Seq<nat>, outcomes: Seq<bool>)
    requires
        charged_calls(rate, levels, stamps, outcomes),
        nondecreasing(stamps),
    ensures
        count_allowed(outcomes) * 60_000_000_000 + levels.last()
            <= levels[0] + rate * (stamps.last() - stamps[0]),
{
    let n = outcomes.len();
    lemma_calls_follow_run(rate, levels, stamps, outcomes, n);
    assert(gaps_of(stamps).take(n as int) =~= gaps_of(stamps));
    assert(outcomes.take(n as int) =~= outcomes);
    lemma_allowed_calls_bounded(levels[0], rate, gaps_of(stamps));
}

/// Calls charged to a full bucket of `rate` calls a minute, all within less
/// time than one token takes to refill (`60 / rate` seconds from the bucket's
/// stamp before the first call to the last call): exactly the first `rate`
/// are allowed and every later one is refused.
pub proof fn lemma_charged_quick_calls(rate: nat, levels: Seq<nat>, stamps: Seq<nat>, outcomes: Seq<bool>)
    requires
        charged_calls(rate, levels, stamps, outcomes),
        nondecreasing(stamps),
        levels[0] == capacity(rate),
        rate * (stamps.last() - stamps[0]) < 60_000_000_000,
    ensures
        forall|i: int| 0 <= i < outcomes.len() ==> #[trigger] outcomes[i] == (i < rate),
{
    let n = outcomes.len();
    lemma_calls_follow_run(rate, levels, stamps, outcomes, n);
    assert(gaps_of(stamps).take(n as int) =~= gaps_of(stamps));
    assert(outcomes.take(n as int) =~= outcomes);
    assert(run(levels[0], rate, gaps_of(stamps)).1 == outcomes);
    lemma_quick_calls(rate, gaps_of(stamps));
    assert forall|i: int| 0 <= i < outcomes.len() implies #[trigger] outcomes[i] == (i < rate) by {
        assert(run(capacity(rate), rate, gaps_of(stamps)).1[i] == (i < rate));
    }
}


/// Time without calls refills a bucket: a call charged `T` nanoseconds after
/// the previous stamp finds at least `min(capacity, level + rate * T)`
/// units, of which it takes one token when a whole one is there; a refused
/// call keeps all of them.
pub proof fn lemma_quiet_time_refills(
    level: nat,
    stamp: nat,
    rate: nat,
    new_level: nat,
    new_stamp: nat,
    allowed: bool,
)
    requires
        charged(level, stamp, rate, new_level, new_stamp, allowed),
        new_stamp >= stamp,
        level <= capacity(rate),
    ensures
        ({
            let t = new_stamp - stamp;
            let available = if level + rate * t < capacity(rate) { level + rate * t } else { capacity(rate) as int };
            &&& allowed <==> available >= UNITS_PER_TOKEN
            &&& new_level + (if allowed { UNITS_PER_TOKEN as int } else { 0int }) == available
            &&& new_level >= level || allowed
        }),
{
    let t = (new_stamp - stamp) as nat;
    vstd::arithmetic::mul::lemma_mul_is_commutative(t as int, rate as int);
    vstd::arithmetic::mul::lemma_mul_nonnegative(rate as int, t as int);
}

} // verus!
