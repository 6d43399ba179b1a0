use vstd::prelude::*;
use crate::error::{Error, ErrorView};
use crate::json::{json_of, member, member_of, parse, u64_member, u64_member_of};
use crate::split::{before_char, before_first};
use crate::state::opt_bytes;
use crate::status_server::now_ms;

verus! {

/// What a rate-limit document holds for one peer under the four keys of its
/// entry, each absent where the document, the entry or the key is missing or
/// the value is no unsigned integer.
#[derive(Debug, Clone, Copy, PartialEq, Eq)]
pub struct RateEntryFields {
    pub last_ms: Option<u64>,
    pub burst: Option<u64>,
    pub win_ms: Option<u64>,
    pub count: Option<u64>,
}

/// What a JSON value holds under the four keys of an entry.
pub open spec fn entry_fields_of(entry: serde_json::Value) -> RateEntryFields {
    RateEntryFields {
        last_ms: u64_member_of(entry, "last_ms"@),
        burst: u64_member_of(entry, "burst"@),
        win_ms: u64_member_of(entry, "win_ms"@),
        count: u64_member_of(entry, "count"@),
    }
}

/// What the bytes of a rate-limit document hold for the peer `ip` once parsed
/// as JSON: the fields of the member `ip`, and those of an unknown peer where
/// the bytes are no JSON text or hold no such member.
pub open spec fn rate_entry_doc(bytes: Seq<u8>, ip: Seq<char>) -> RateEntryFields {
    match json_of(bytes) {
        Some(doc) => match member_of(doc, ip) {
            Some(entry) => entry_fields_of(entry),
            None => RateEntryFields::unknown(),
        },
        None => RateEntryFields::unknown(),
    }
}

/// Parses the bytes of a rate-limit document and reads the entry of the peer
/// `ip`.
pub fn read_rate_entry(bytes: &[u8], ip: &str) -> (r: RateEntryFields)
    ensures
        r == rate_entry_doc(bytes@, ip@),
{
    let unknown = RateEntryFields { last_ms: None, burst: None, win_ms: None, count: None };
    match parse(bytes) {
        Some(doc) => match member(&doc, ip) {
            Some(entry) => RateEntryFields {
                last_ms: u64_member(entry, "last_ms"),
                burst: u64_member(entry, "burst"),
                win_ms: u64_member(entry, "win_ms"),
                count: u64_member(entry, "count"),
            },
            None => unknown,
        },
        None => unknown,
    }
}

/// The request counters kept for one peer.
#[derive(Debug, Clone, Copy, PartialEq, Eq)]
pub struct RateLimitEntry {
    pub last_ms: u64,
    pub burst: u64,
    pub window_start_ms: u64,
    pub window_count: u64,
}

/// Longest gap between two requests that still counts as one burst.
pub const BURST_GAP_MS: u64 = 1000;

/// Length of the counting window.
pub const WINDOW_MS: u64 = 60000;

/// Most requests that a burst may hold after its first.
pub const BURST_LIMIT: u64 = 5;

/// Most requests that a window may hold.
pub const WINDOW_LIMIT: u64 = 120;

/// One more than `n`, or `n` where that does not fit.
pub open spec fn next_count(n: u64) -> u64 {
    if n < u64::MAX {
        (n + 1) as u64
    } else {
        n
    }
}

impl RateEntryFields {
    /// The fields of a peer that no document knows.
    pub open spec fn unknown() -> RateEntryFields {
        RateEntryFields { last_ms: None, burst: None, win_ms: None, count: None }
    }

    /// The fields that a document holds for `ip`; those of an unknown peer
    /// where there is no document.
    pub open spec fn of(file: Option<Seq<u8>>, ip: Seq<char>) -> RateEntryFields {
        match file {
            Some(b) => rate_entry_doc(b, ip),
            None => Self::unknown(),
        }
    }

    /// The entry that these fields give at time `now`: a missing window start
    /// is `now`, every other missing field is zero.
    pub open spec fn entry_at(self, now: u64) -> RateLimitEntry {
        RateLimitEntry {
            last_ms: match self.last_ms {
                Some(x) => x,
                None => 0,
            },
            burst: match self.burst {
                Some(x) => x,
                None => 0,
            },
            window_start_ms: match self.win_ms {
                Some(x) => x,
                None => now,
            },
            window_count: match self.count {
                Some(x) => x,
                None => 0,
            },
        }
    }

    /// The entry that these fields give at time `now`.
    pub fn entry(self, now: u64) -> (r: RateLimitEntry)
        ensures
            r == self.entry_at(now),
    {
        RateLimitEntry {
            last_ms: match self.last_ms {
                Some(x) => x,
                None => 0,
            },
            burst: match self.burst {
                Some(x) => x,
                None => 0,
            },
            window_start_ms: match self.win_ms {
                Some(x) => x,
                None => now,
            },
            window_count: match self.count {
                Some(x) => x,
                None => 0,
            },
        }
    }
}

impl RateLimitEntry {
    /// Whether a request at `now` comes more than a burst gap after the last.
    pub open spec fn burst_over(self, now: u64) -> bool {
        now - self.last_ms > BURST_GAP_MS
    }

    /// Whether a request at `now` comes after the window has run out.
    pub open spec fn window_over(self, now: u64) -> bool {
        now - self.window_start_ms > WINDOW_MS
    }

    /// The entry after a request at `now`.
    pub open spec fn after(self, now: u64) -> RateLimitEntry {
        RateLimitEntry {
            last_ms: now,
            burst: if self.burst_over(now) {
                0
            } else {
                next_count(self.burst)
            },
            window_start_ms: if self.window_over(now) {
                now
            } else {
                self.window_start_ms
            },
            window_count: if self.window_over(now) {
                1
            } else {
                next_count(self.window_count)
            },
        }
    }

    /// Whether the request that left this entry is within both limits.
    pub open spec fn within_limits(self) -> bool {
        self.burst <= BURST_LIMIT && self.window_count <= WINDOW_LIMIT
    }

    /// Counts a request at `now` and judges it: the entry to store, and
    /// whether the request is allowed.
    pub fn record(self, now: u64) -> (r: (RateLimitEntry, bool))
        ensures
            r.0 == self.after(now),
            r.1 == r.0.within_limits(),
            self.burst_over(now) ==> r.0.burst == 0,
            self.window_over(now) ==> r.0.window_count == 1,
    {
        let burst_over = now > self.last_ms && now - self.last_ms > BURST_GAP_MS;
        let window_over = now > self.window_start_ms && now - self.window_start_ms > WINDOW_MS;
        let burst = if burst_over {
            0
        } else if self.burst < u64::MAX {
            self.burst + 1
        } else {
            self.burst
        };
        let window_count = if window_over {
            1
        } else if self.window_count < u64::MAX {
            self.window_count + 1
        } else {
            self.window_count
        };
        let entry = RateLimitEntry {
            last_ms: now,
            burst,
            window_start_ms: if window_over {
                now
            } else {
                self.window_start_ms
            },
            window_count,
        };
        (entry, burst <= BURST_LIMIT && window_count <= WINDOW_LIMIT)
    }
}

/// The entry to store for the peer `ip` after its request at `now`: the one
/// that the document `file` holds for it, or that of an unknown peer, with
/// this request counted.
pub open spec fn judged(file: Option<Seq<u8>>, ip: Seq<char>, now: u64) -> RateLimitEntry {
    RateEntryFields::of(file, ip).entry_at(now).after(now)
}

/// The outcome of rate limiting for one request: the entry to store under
/// `ip`, and whether the request is allowed.
#[derive(Debug, PartialEq, Eq)]
pub struct RateDecision {
    pub ip: String,
    pub entry: RateLimitEntry,
    pub allowed: bool,
}

impl RateDecision {
    /// The verdict on the request: it passes, or the peer is over a limit.
    pub fn verdict(&self) -> (r: Result<(), Error>)
        ensures
            r is Ok <==> self.allowed,
            r is Err ==> r->Err_0@ == ErrorView::RateLimited,
    {
        if self.allowed {
            Ok(())
        } else {
            Err(Error::RateLimited)
        }
    }
}

/// The address of a peer without its port: what stands before the first
/// colon.
pub fn peer_ip<'a>(peer: &'a str) -> (r: &'a str)
    ensures
        r@ == before_first(peer@, ':'),
{
    before_char(peer, ':')
}

/// Counts a request of `peer` at the present time against the stored
/// document `file` and judges it. The entry is to be stored whatever the
/// verdict.
pub fn rate_limit_check(file: Option<&[u8]>, peer: &str) -> (r: RateDecision)
    ensures
        r.ip@ == before_first(peer@, ':'),
        exists|now: u64| r.entry == #[trigger] judged(opt_bytes(file), r.ip@, now),
        r.allowed == r.entry.within_limits(),
{
    let now = now_ms();
    let r = rate_limit_check_at(file, peer, now);
    assert(r.entry == judged(opt_bytes(file), r.ip@, now));
    r
}

/// Counts a request of `peer` at `now` against the stored document `file`
/// and judges it. The entry is to be stored whatever the verdict.
pub fn rate_limit_check_at(file: Option<&[u8]>, peer: &str, now: u64) -> (r: RateDecision)
    ensures
        r.ip@ == before_first(peer@, ':'),
        r.entry == judged(opt_bytes(file), r.ip@, now),
        r.allowed == r.entry.within_limits(),
{
    let ip = peer_ip(peer);
    let fields = match file {
        Some(bytes) => read_rate_entry(bytes, ip),
        None => RateEntryFields { last_ms: None, burst: None, win_ms: None, count: None },
    };
    let (entry, allowed) = fields.entry(now).record(now);
    RateDecision { ip: ip.to_owned(), entry, allowed }
}

/// The entry after requests at each of `times`, in order.
pub open spec fn after_all(e: RateLimitEntry, times: Seq<u64>) -> RateLimitEntry
    decreases times.len(),
{
    if times.len() == 0 {
        e
    } else {
        after_all(e, times.drop_last()).after(times.last())
    }
}

/// Whether each request of `times` but the first comes no more than a burst
/// gap after the one before it.
pub open spec fn one_burst(times: Seq<u64>) -> bool {
    forall|i: int| 1 <= i < times.len() ==> times[i] - #[trigger] times[i - 1] <= BURST_GAP_MS
}

/// Whether each request of `times` but the first comes before the window
/// that began at `start` has run out.
pub open spec fn one_window(start: u64, times: Seq<u64>) -> bool {
    forall|i: int| 1 <= i < times.len() ==> #[trigger] times[i] - start <= WINDOW_MS
}

/// In a run of requests that form one burst, the burst counter grows by one
/// with each request after the first, as far as it fits.
pub proof fn lemma_burst_grows(e: RateLimitEntry, times: Seq<u64>)
    requires
        times.len() >= 1,
        one_burst(times),
    ensures
        after_all(e, times).last_ms == times.last(),
        after_all(e, times).burst == u64::MAX || after_all(e, times).burst >= e.after(
            times[0],
        ).burst + times.len() - 1,
    decreases times.len(),
{
    let head = times.drop_last();
    if times.len() == 1 {
        assert(after_all(e, head) == e);
    } else {
        assert(one_burst(head)) by {
            assert forall|i: int| 1 <= i < head.len() implies head[i] - #[trigger] head[i - 1]
                <= BURST_GAP_MS by {
                assert(head[i] == times[i] && head[i - 1] == times[i - 1]);
            }
        }
        lemma_burst_grows(e, head);
        assert(head.last() == times[times.len() - 2]);
        assert(head[0] == times[0]);
    }
}

/// In a run of requests inside one window, the window counter grows by one
/// with each request after the first, as far as it fits.
pub proof fn lemma_window_grows(e: RateLimitEntry, times: Seq<u64>)
    requires
        times.len() >= 1,
        one_window(e.after(times[0]).window_start_ms, times),
    ensures
        after_all(e, times).window_start_ms == e.after(times[0]).window_start_ms,
        after_all(e, times).window_count == u64::MAX || after_all(e, times).window_count
            >= e.after(times[0]).window_count + times.len() - 1,
    decreases times.len(),
{
    let head = times.drop_last();
    let start = e.after(times[0]).window_start_ms;
    if times.len() == 1 {
        assert(after_all(e, head) == e);
    } else {
        assert(head[0] == times[0]);
        assert(one_window(start, head)) by {
            assert forall|i: int| 1 <= i < head.len() implies #[trigger] head[i] - start
                <= WINDOW_MS by {
                assert(head[i] == times[i]);
            }
        }
        lemma_window_grows(e, head);
        assert(times.last() == times[times.len() - 1]);
    }
}

/// Of seven requests in one burst the seventh is rejected, whatever the
/// entry held before.
pub proof fn law_seventh_of_burst_rejected(e: RateLimitEntry, times: Seq<u64>)
    requires
        times.len() == 7,
        one_burst(times),
    ensures
        !after_all(e, times).within_limits(),
{
    lemma_burst_grows(e, times);
}

/// Of six requests in one burst the sixth is rejected, where the first of
/// them came no more than a burst gap after the request before it.
pub proof fn law_sixth_of_burst_rejected(e: RateLimitEntry, times: Seq<u64>)
    requires
        times.len() == 6,
        one_burst(times),
        !e.burst_over(times[0]),
    ensures
        !after_all(e, times).within_limits(),
{
    lemma_burst_grows(e, times);
}

/// Of 121 requests inside one window the last is rejected, whatever the
/// entry held before.
pub proof fn law_window_overflow_rejected(e: RateLimitEntry, times: Seq<u64>)
    requires
        times.len() == 121,
        one_window(e.after(times[0]).window_start_ms, times),
    ensures
        !after_all(e, times).within_limits(),
{
    lemma_window_grows(e, times);
}

/// A request that comes more than a burst gap after the last one starts a
/// new burst, and one that comes after the window has run out starts a new
/// window that holds this one request.
pub proof fn law_gaps_reset(e: RateLimitEntry, now: u64)
    ensures
        now - e.last_ms > BURST_GAP_MS ==> e.after(now).burst == 0,
        now - e.window_start_ms > WINDOW_MS ==> e.after(now).window_count == 1 && e.after(
            now,
        ).window_start_ms == now,
{
}

} // verus!
