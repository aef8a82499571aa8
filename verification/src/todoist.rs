//! The Todoist REST and Sync API client's own decisions: the addresses it
//! asks, what a completed-task record becomes, how long it backs off when
//! rate limited and when it gives up, and the texts of its errors.
use vstd::prelude::*;
use vstd::string::*;

use crate::model::Task;
use crate::text::{all_digits, decimal, digits_value, push_decimal};

verus! {

/// Tries of one sync before giving up on rate limiting, minus one.
pub const MAX_RETRIES: u32 = 3;

/// The REST address of the signed-in user.
pub fn user_url() -> (r: String)
    ensures
        r@ == "https://api.todoist.com/api/v1/user"@,
{
    proof {
        reveal_strlit("https://api.todoist.com/api/v1/user");
    }
    String::from_str("https://api.todoist.com/api/v1/user")
}

/// The REST address of task `task_id`'s comments.
pub fn comments_url(task_id: &str) -> (r: String)
    ensures
        r@ == "https://api.todoist.com/api/v1/comments?task_id="@ + task_id@,
{
    let mut s = String::from_str("https://api.todoist.com/api/v1/comments?task_id=");
    s.append(task_id);
    s
}

/// The REST address of completed tasks, full task records included,
/// narrowed to a project, a start time and a page size when given.
pub open spec fn completed_url(project_id: Option<Seq<char>>, since: Option<Seq<char>>, limit: Option<u32>) -> Seq<char> {
    "https://api.todoist.com/api/v1/tasks/completed?annotate_items=1"@ + match project_id {
        Some(p) => "&project_id="@ + p,
        None => ""@,
    } + match since {
        Some(s) => "&since="@ + s,
        None => ""@,
    } + match limit {
        Some(n) => "&limit="@ + decimal(n as nat),
        None => ""@,
    }
}

/// The completed-tasks address.
pub fn completed_tasks_url(project_id: Option<&str>, since: Option<&str>, limit: Option<u32>) -> (r: String)
    ensures
        r@ == completed_url(
            match project_id {
                Some(p) => Some(p@),
                None => None,
            },
            match since {
                Some(s) => Some(s@),
                None => None,
            },
            limit,
        ),
{
    proof {
        reveal_strlit("");
    }
    let mut s = String::from_str("https://api.todoist.com/api/v1/tasks/completed?annotate_items=1");
    let ghost base = s@;
    if let Some(p) = project_id {
        s.append("&project_id=");
        s.append(p);
    }
    let ghost a = s@;
    if let Some(t) = since {
        s.append("&since=");
        s.append(t);
    }
    let ghost b = s@;
    if let Some(n) = limit {
        s.append("&limit=");
        push_decimal(&mut s, n as u64);
    }
    assert(s@ =~= completed_url(
        match project_id {
            Some(p) => Some(p@),
            None => None,
        },
        match since {
            Some(s) => Some(s@),
            None => None,
        },
        limit,
    ));
    s
}

/// The text of a failed API call: its HTTP status and the body.
pub fn api_error_text(status: &str, body: &str) -> (r: String)
    ensures
        r@ == "Todoist API error ("@ + status@ + "): "@ + body@,
{
    let mut s = String::from_str("Todoist API error (");
    s.append(status);
    s.append("): ");
    s.append(body);
    s
}

/// A completed-task record of the REST API.
pub struct CompletedRecord {
    pub task_id: String,
    pub content: String,
    pub completed_at: String,
    pub project_id: String,
    pub section_id: Option<String>,
    pub note_count: Option<i32>,
    pub user_id: Option<String>,
    /// The full task, when the server annotated the record with it.
    pub item_object: Option<Task>,
}

/// The task a completed record stands for: the full task when the record
/// has one, else a done task made of the record's fields, every other
/// field empty.
pub open spec fn completed_task_of(r: CompletedRecord, t: Task) -> bool {
    match r.item_object {
        Some(x) => t == x,
        None => {
            &&& t.id == r.task_id && t.content == r.content && t.project_id == r.project_id
            &&& t.checked && t.completed_at == Some(r.completed_at)
            &&& t.section_id == r.section_id && t.note_count == r.note_count && t.user_id == r.user_id
            &&& t.description@.len() == 0 && t.parent_id is None && t.priority == 0 && t.due is None
            &&& t.labels@.len() == 0 && !t.is_deleted && t.child_order == 0 && t.responsible_uid is None
            &&& t.added_at is None
        },
    }
}

/// The task of a completed record.
pub fn task_from_completed(r: CompletedRecord) -> (t: Task)
    ensures
        completed_task_of(r, t),
{
    match r.item_object {
        Some(x) => x,
        None => Task {
            id: r.task_id,
            content: r.content,
            description: String::new(),
            project_id: r.project_id,
            section_id: r.section_id,
            parent_id: None,
            priority: 0,
            due: None,
            labels: Vec::new(),
            checked: true,
            is_deleted: false,
            child_order: 0,
            responsible_uid: None,
            added_at: None,
            completed_at: Some(r.completed_at),
            note_count: r.note_count,
            user_id: r.user_id,
        },
    }
}

/// The tasks of every completed record, in order.
pub fn tasks_from_completed(records: Vec<CompletedRecord>) -> (r: Vec<Task>)
    ensures
        r@.len() == records@.len(),
        forall|i: int| 0 <= i < r@.len() ==> completed_task_of(records@[i], #[trigger] r@[i]),
{
    let ghost orig = records@;
    let mut rest = records;
    let mut out: Vec<Task> = Vec::new();
    while rest.len() > 0
        invariant
            rest@.len() <= orig.len(),
            rest@ == orig.skip(orig.len() - rest@.len()),
            out@.len() == orig.len() - rest@.len(),
            forall|i: int| 0 <= i < out@.len() ==> completed_task_of(orig[i], #[trigger] out@[i]),
        decreases rest.len(),
    {
        let ghost n = orig.len() - rest@.len();
        let rec = rest.remove(0);
        assert(rec == orig[n]);
        assert(rest@ =~= orig.skip(n + 1));
        out.push(task_from_completed(rec));
    }
    out
}

/// The server asked the client to slow down, perhaps saying for how long.
pub struct RateLimitError {
    pub retry_after_secs: Option<u64>,
}

impl RateLimitError {
    /// The error's text.
    pub fn message(&self) -> (r: String)
        ensures
            r@ == match self.retry_after_secs {
                Some(s) => "rate limited (retry after "@ + decimal(s as nat) + "s)"@,
                None => "rate limited"@,
            },
    {
        match self.retry_after_secs {
            Some(s) => {
                let mut t = String::from_str("rate limited (retry after ");
                push_decimal(&mut t, s);
                t.append("s)");
                t
            },
            None => String::from_str("rate limited"),
        }
    }
}

/// What `str::parse::<u64>` makes of `s`.
pub open spec fn u64_of_text(s: Seq<char>) -> Option<u64> {
    let body = if s.len() > 0 && s[0] == '+' {
        s.drop_first()
    } else {
        s
    };
    if body.len() > 0 && all_digits(body) && digits_value(body) <= u64::MAX {
        Some(digits_value(body) as u64)
    } else {
        None
    }
}

proof fn lemma_digits_value_nonneg(s: Seq<char>)
    requires
        all_digits(s),
    ensures
        digits_value(s) >= 0,
    decreases s.len(),
{
    if s.len() > 0 {
        assert(all_digits(s.drop_last())) by {
            assert forall|i: int| 0 <= i < s.drop_last().len() implies '0' <= #[trigger] s.drop_last()[i] <= '9' by {
                assert(s.drop_last()[i] == s[i]);
            }
        }
        lemma_digits_value_nonneg(s.drop_last());
    }
}

/// Reads a `Retry-After` header value as `str::parse::<u64>` does.
pub fn parse_u64_text(s: &str) -> (r: Option<u64>)
    ensures
        r == u64_of_text(s@),
{
    let n = s.unicode_len();
    let start: usize = if n > 0 && s.get_char(0) == '+' {
        1
    } else {
        0
    };
    let ghost body = if s@.len() > 0 && s@[0] == '+' {
        s@.drop_first()
    } else {
        s@
    };
    assert(body =~= s@.subrange(start as int, n as int));
    if start >= n {
        return None;
    }
    let mut v: u64 = 0;
    let mut i: usize = start;
    while i < n
        invariant
            start <= i <= n,
            n == s@.len(),
            body == s@.subrange(start as int, n as int),
            body == (if s@.len() > 0 && s@[0] == '+' {
                s@.drop_first()
            } else {
                s@
            }),
            all_digits(s@.subrange(start as int, i as int)),
            v as int == digits_value(s@.subrange(start as int, i as int)),
        decreases n - i,
    {
        let c = s.get_char(i);
        let ghost pre = s@.subrange(start as int, i as int);
        let ghost next = s@.subrange(start as int, i + 1);
        assert(next.drop_last() =~= pre);
        assert(next.last() == c);
        if c < '0' || c > '9' {
            proof {
                assert(body[(i - start) as int] == s@[i as int]);
                assert(!all_digits(body));
            }
            return None;
        }
        let d = (c as u32 - '0' as u32) as u64;
        assert(all_digits(next)) by {
            assert forall|k: int| 0 <= k < next.len() implies '0' <= #[trigger] next[k] <= '9' by {
                if k < pre.len() {
                    assert(next[k] == pre[k]);
                }
            }
        }
        if v > (u64::MAX - d) / 10 {
            proof {
                assert(v * 10 + d > u64::MAX) by (nonlinear_arith)
                    requires
                        v > (u64::MAX - d) / 10,
                        d <= 9,
                ;
                assert(digits_value(next) == v * 10 + d);
                assert(body.take((i + 1 - start) as int) =~= next);
                lemma_prefix_grows(body, (i + 1 - start) as int);
            }
            return None;
        }
        v = v * 10 + d;
        i += 1;
    }
    assert(s@.subrange(start as int, n as int) == body);
    Some(v)
}

/// A digit string's value never falls below its prefixes' values.
proof fn lemma_prefix_grows(s: Seq<char>, k: int)
    requires
        0 <= k <= s.len(),
        all_digits(s.take(k)),
    ensures
        all_digits(s) ==> digits_value(s) >= digits_value(s.take(k)),
    decreases s.len() - k,
{
    if k < s.len() && all_digits(s) {
        assert(all_digits(s.take(k + 1))) by {
            assert forall|i: int| 0 <= i < s.take(k + 1).len() implies '0' <= #[trigger] s.take(k + 1)[i] <= '9' by {
                assert(s.take(k + 1)[i] == s[i]);
            }
        }
        lemma_prefix_grows(s, k + 1);
        assert(s.take(k + 1).drop_last() =~= s.take(k));
        lemma_digits_value_nonneg(s.take(k));
        assert(digits_value(s.take(k + 1)) >= digits_value(s.take(k)) * 10);
        assert(digits_value(s.take(k)) * 10 >= digits_value(s.take(k))) by (nonlinear_arith)
            requires
                digits_value(s.take(k)) >= 0,
        ;
    } else if k == s.len() {
        assert(s.take(k) =~= s);
    }
}

/// The wait a rate-limited answer asks for: the `Retry-After` header when
/// it reads as a number, else the body's `error_extra.retry_after`.
pub fn retry_after_of(header: Option<&str>, from_body: Option<u64>) -> (r: Option<u64>)
    ensures
        r == match header {
            Some(h) => match u64_of_text(h@) {
                Some(v) => Some(v),
                None => from_body,
            },
            None => from_body,
        },
{
    match header {
        Some(h) => match parse_u64_text(h) {
            Some(v) => Some(v),
            None => from_body,
        },
        None => from_body,
    }
}

/// Where a sync is in its rate-limit backoff.
pub struct Backoff {
    /// Tries made so far.
    pub attempt: u32,
    /// Wait used when the server does not say how long, in seconds.
    pub base_delay_secs: u64,
}

/// The backoff before the first try.
pub fn first_backoff() -> (b: Backoff)
    ensures
        b.attempt == 0 && b.base_delay_secs == 1,
{
    Backoff { attempt: 0, base_delay_secs: 1 }
}

/// What follows a rate-limited try.
pub struct RateLimitStep {
    /// Seconds to wait: the server's wait (else the base delay) plus a
    /// jitter of 0 to 2 seconds.
    pub sleep_secs: u64,
    /// The backoff for the next try: the base delay doubled, held at a minute.
    pub next: Backoff,
    /// No try is left after the wait: the sync fails.
    pub give_up: bool,
}

/// The step after try `b` was rate limited with `retry_after` (the
/// server's wait, if it gave one) and `random` a random number.
pub open spec fn rate_limit_step(b: Backoff, retry_after: Option<u64>, random: u64, s: RateLimitStep) -> bool {
    let wait = match retry_after {
        Some(w) => w as int,
        None => b.base_delay_secs as int,
    };
    &&& s.sleep_secs == wait + random % 3
    &&& s.next.attempt == b.attempt + 1
    &&& s.next.base_delay_secs == if b.base_delay_secs * 2 < 60 {
        b.base_delay_secs * 2
    } else {
        60
    }
    &&& s.give_up == (b.attempt >= MAX_RETRIES)
}

/// Decides the wait after a rate-limited try.
pub fn after_rate_limit(b: &Backoff, retry_after: Option<u64>, random: u64) -> (s: RateLimitStep)
    requires
        b.base_delay_secs <= 60,
        b.attempt <= MAX_RETRIES,
        retry_after matches Some(w) ==> w <= u64::MAX - 2,
    ensures
        rate_limit_step(*b, retry_after, random, s),
        s.next.base_delay_secs <= 60,
{
    let wait = match retry_after {
        Some(w) => w,
        None => b.base_delay_secs,
    };
    let doubled = b.base_delay_secs * 2;
    RateLimitStep {
        sleep_secs: wait + random % 3,
        next: Backoff {
            attempt: b.attempt + 1,
            base_delay_secs: if doubled < 60 {
                doubled
            } else {
                60
            },
        },
        give_up: b.attempt >= MAX_RETRIES,
    }
}

/// How one try of a sync went: a response, a failure other than a rate
/// limit, or a rate limit with the server's wait if it gave one.
pub enum TryOutcome<R, E> {
    Done(R),
    Failed(E),
    RateLimited(Option<u64>),
}

/// What the sync does after a try.
pub enum RetryStep<R, E> {
    /// Stop and hand back this result.
    Finish(Result<R, E>),
    /// Sleep this many seconds, then try again with this backoff.
    Retry(u64, Backoff),
    /// Sleep this many seconds, then fail with `gave_up_text`.
    GiveUp(u64),
}

/// The step that follows try `b` with outcome `o` (`random` a random
/// number): a response is returned, any other failure is handed back
/// unchanged, and a rate limit waits as `rate_limit_step` says, then
/// retries, or gives up when no try is left.
pub open spec fn retry_step<R, E>(b: Backoff, o: TryOutcome<R, E>, random: u64, s: RetryStep<R, E>) -> bool {
    match o {
        TryOutcome::Done(r) => s == RetryStep::<R, E>::Finish(Ok(r)),
        TryOutcome::Failed(e) => s == RetryStep::<R, E>::Finish(Err(e)),
        TryOutcome::RateLimited(w) => exists|st: RateLimitStep|
            #[trigger] rate_limit_step(b, w, random, st) && if st.give_up {
                s == RetryStep::<R, E>::GiveUp(st.sleep_secs)
            } else {
                s == RetryStep::<R, E>::Retry(st.sleep_secs, st.next)
            },
    }
}

/// Decides what follows a try of a sync.
pub fn next_try<R, E>(b: &Backoff, o: TryOutcome<R, E>, random: u64) -> (s: RetryStep<R, E>)
    requires
        b.base_delay_secs <= 60,
        b.attempt <= MAX_RETRIES,
        o matches TryOutcome::RateLimited(Some(w)) ==> w <= u64::MAX - 2,
    ensures
        retry_step(*b, o, random, s),
        s matches RetryStep::Retry(_, n) ==> n.base_delay_secs <= 60 && n.attempt <= MAX_RETRIES,
{
    match o {
        TryOutcome::Done(r) => RetryStep::Finish(Ok(r)),
        TryOutcome::Failed(e) => RetryStep::Finish(Err(e)),
        TryOutcome::RateLimited(w) => {
            let st = after_rate_limit(b, w, random);
            if st.give_up {
                RetryStep::GiveUp(st.sleep_secs)
            } else {
                RetryStep::Retry(st.sleep_secs, st.next)
            }
        },
    }
}

/// A random number from `rand::random::<u64>()`; nothing is promised of it.
#[verifier::external_body]
fn random_u64() -> u64 {
    rand::random::<u64>()
}

/// Decides what follows a try of a sync, drawing the wait's jitter at
/// random.
pub fn next_try_now<R, E>(b: &Backoff, o: TryOutcome<R, E>) -> (s: RetryStep<R, E>)
    requires
        b.base_delay_secs <= 60,
        b.attempt <= MAX_RETRIES,
        o matches TryOutcome::RateLimited(Some(w)) ==> w <= u64::MAX - 2,
    ensures
        exists|random: u64| #[trigger] retry_step(*b, o, random, s),
        s matches RetryStep::Retry(_, n) ==> n.base_delay_secs <= 60 && n.attempt <= MAX_RETRIES,
{
    let random = random_u64();
    next_try(b, o, random)
}

/// The text of a sync that stayed rate limited through every try.
pub fn gave_up_text() -> (r: String)
    ensures
        r@ == "rate limited after 4 retries"@,
{
    proof {
        reveal_strlit("rate limited after 4 retries");
    }
    String::from_str("rate limited after 4 retries")
}

/// The first wait before reconnecting the change feed, in seconds.
pub const WS_FIRST_BACKOFF_SECS: u64 = 5;

/// After the change-feed connection ended: how long to wait before the
/// next connection and the backoff after that. A connection that was
/// made and then closed reconnects after a second with the backoff reset
/// to five seconds; a failed attempt waits the backoff, which then
/// doubles up to a minute.
pub fn ws_reconnect(backoff: u64, connected: bool) -> (r: (u64, u64))
    requires
        backoff <= 60,
    ensures
        r == (if connected {
            (1u64, 5u64)
        } else {
            (backoff, if backoff * 2 < 60 {
                (backoff * 2) as u64
            } else {
                60u64
            })
        }),
        r.1 <= 60,
{
    if connected {
        (1, WS_FIRST_BACKOFF_SECS)
    } else {
        let d = backoff * 2;
        (backoff, if d < 60 {
            d
        } else {
            60
        })
    }
}

} // verus!
