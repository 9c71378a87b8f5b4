//! Short-lived caches of what the monitors report, by the clock the caller reads.
use crate::monitor::{MonitorSnapshot, MonitorView};
use vstd::prelude::*;

verus! {

/// How long a monitor snapshot stays fresh, in milliseconds.
pub const MONITOR_CACHE_TTL_MS: u64 = 3000;

/// How long a current-input reading stays fresh, in milliseconds.
pub const INPUT_CACHE_TTL_MS: u64 = 2000;

/// Whether a value read at `last` (if ever) is stale at `now`, for a lifetime
/// of `ttl` milliseconds. A clock that went back counts as no time passed.
pub open spec fn stale(last: Option<u64>, now: u64, ttl: u64) -> bool {
    match last {
        Some(t) => (if now >= t { now - t } else { 0 }) >= ttl,
        None => true,
    }
}

fn is_stale(last: Option<u64>, now: u64, ttl: u64) -> (b: bool)
    ensures
        b == stale(last, now, ttl),
{
    match last {
        Some(t) => now.saturating_sub(t) >= ttl,
        None => true,
    }
}

/// The last monitor snapshot and when it was taken (milliseconds on the
/// caller's monotonic clock).
pub struct MonitorCache {
    snapshot: Option<MonitorSnapshot>,
    last_refresh: Option<u64>,
}

/// What the cache holds, as values.
pub struct MonitorCacheView {
    pub snapshot: Option<Seq<MonitorView>>,
    pub last_refresh: Option<u64>,
}

impl View for MonitorCache {
    type V = MonitorCacheView;

    closed spec fn view(&self) -> MonitorCacheView {
        MonitorCacheView {
            snapshot: match self.snapshot {
                Some(s) => Some(s@),
                None => None,
            },
            last_refresh: self.last_refresh,
        }
    }
}

/// What `get` answers at `now`: `None` when a refresh is due; else the
/// snapshot held, or the error text when none is held.
pub open spec fn cache_answer(c: MonitorCacheView, now: u64) -> Option<Result<Seq<MonitorView>, Seq<char>>> {
    if stale(c.last_refresh, now, MONITOR_CACHE_TTL_MS as u64) {
        None
    } else {
        match c.snapshot {
            Some(s) => Some(Ok(s)),
            None => Some(Err("No monitor snapshot available."@)),
        }
    }
}

/// The cache after a snapshot taken at `now`.
pub open spec fn cache_refreshed(s: Seq<MonitorView>, now: u64) -> MonitorCacheView {
    MonitorCacheView { snapshot: Some(s), last_refresh: Some(now) }
}

/// The cache after it was invalidated.
pub open spec fn cache_invalidated(c: MonitorCacheView) -> MonitorCacheView {
    MonitorCacheView { snapshot: c.snapshot, last_refresh: None }
}

pub open spec fn answer_view(r: Option<Result<MonitorSnapshot, String>>) -> Option<Result<Seq<MonitorView>, Seq<char>>> {
    match r {
        Some(Ok(s)) => Some(Ok(s@)),
        Some(Err(e)) => Some(Err(e@)),
        None => None,
    }
}

impl MonitorCache {
    /// An empty cache.
    pub fn new() -> (r: MonitorCache)
        ensures
            r@.snapshot is None,
            r@.last_refresh is None,
    {
        MonitorCache { snapshot: None, last_refresh: None }
    }

    /// Whether the snapshot must be taken again at `now_ms`: never taken,
    /// invalidated, or older than three seconds.
    pub fn needs_refresh(&self, now_ms: u64) -> (b: bool)
        ensures
            b == stale(self@.last_refresh, now_ms, MONITOR_CACHE_TTL_MS as u64),
    {
        is_stale(self.last_refresh, now_ms, MONITOR_CACHE_TTL_MS)
    }

    /// A copy of the snapshot held, fresh or not.
    pub fn peek(&self) -> (r: Option<MonitorSnapshot>)
        ensures
            match r {
                Some(s) => self@.snapshot == Some(s@),
                None => self@.snapshot is None,
            },
    {
        match &self.snapshot {
            Some(s) => Some(s.duplicate()),
            None => None,
        }
    }

    /// The snapshot at `now_ms`: `None` when it must be taken again first
    /// (then `refresh`); else the snapshot held, or an error when there is none.
    pub fn get(&self, now_ms: u64) -> (r: Option<Result<MonitorSnapshot, String>>)
        ensures
            answer_view(r) == cache_answer(self@, now_ms),
    {
        if self.needs_refresh(now_ms) {
            return None;
        }
        match self.peek() {
            Some(s) => Some(Ok(s)),
            None => Some(Err(String::from_str("No monitor snapshot available."))),
        }
    }

    /// Keeps a snapshot taken at `now_ms` and hands back a copy.
    pub fn refresh(&mut self, snapshot: MonitorSnapshot, now_ms: u64) -> (r: MonitorSnapshot)
        ensures
            r@ == snapshot@,
            final(self)@ == cache_refreshed(snapshot@, now_ms),
    {
        let copy = snapshot.duplicate();
        self.snapshot = Some(snapshot);
        self.last_refresh = Some(now_ms);
        copy
    }

    /// Marks the snapshot stale, so the next `get` asks for a refresh.
    pub fn invalidate(&mut self)
        ensures
            final(self)@ == cache_invalidated(old(self)@),
    {
        self.last_refresh = None;
    }

    /// How old the snapshot is at `now_ms`, in milliseconds, if one was taken
    /// since the last invalidation.
    pub fn last_refresh_age(&self, now_ms: u64) -> (r: Option<u64>)
        ensures
            match self@.last_refresh {
                Some(t) => r == Some(if now_ms >= t { (now_ms - t) as u64 } else { 0u64 }),
                None => r is None,
            },
    {
        match self.last_refresh {
            Some(t) => Some(now_ms.saturating_sub(t)),
            None => None,
        }
    }
}

/// A snapshot taken at `taken` is what `get` hands back for the next three
/// seconds, and a refresh is due from then on.
pub proof fn law_monitor_cache_read_after_refresh(s: Seq<MonitorView>, taken: u64, now: u64)
    requires
        taken <= now,
    ensures
        now < taken + MONITOR_CACHE_TTL_MS ==> cache_answer(cache_refreshed(s, taken), now) == Some(Ok::<Seq<MonitorView>, Seq<char>>(s)),
        now >= taken + MONITOR_CACHE_TTL_MS ==> cache_answer(cache_refreshed(s, taken), now) is None,
{
}

/// After the cache is invalidated, `get` asks for a refresh, whatever the time.
pub proof fn law_monitor_cache_invalidate(c: MonitorCacheView, now: u64)
    ensures
        cache_answer(cache_invalidated(c), now) is None,
{
}

/// What `InputCache::get` answers at `now`: `None` when the input must be
/// read again, else the input held.
pub open spec fn input_answer(c: InputCacheView, now: u64) -> Option<Option<Seq<char>>> {
    if stale(c.last_refresh, now, INPUT_CACHE_TTL_MS as u64) {
        None
    } else {
        Some(c.value)
    }
}

/// The input cache after `value` was stored at `now`.
pub open spec fn input_stored(value: Option<Seq<char>>, now: u64) -> InputCacheView {
    InputCacheView { value, last_refresh: Some(now) }
}

pub open spec fn text_opt(v: Option<String>) -> Option<Seq<char>> {
    match v {
        Some(t) => Some(t@),
        None => None,
    }
}

pub open spec fn input_answer_view(r: Option<Option<String>>) -> Option<Option<Seq<char>>> {
    match r {
        Some(v) => Some(text_opt(v)),
        None => None,
    }
}

/// An input stored (after a switch or a reading) is what the input cache
/// hands back for the next two seconds; after that it is read again.
pub proof fn law_input_cache_read_after_store(value: Option<Seq<char>>, taken: u64, now: u64)
    requires
        taken <= now,
    ensures
        now < taken + INPUT_CACHE_TTL_MS ==> input_answer(input_stored(value, taken), now) == Some(value),
        now >= taken + INPUT_CACHE_TTL_MS ==> input_answer(input_stored(value, taken), now) is None,
{
}

/// The last current-input reading and when it was taken.
pub struct InputCache {
    value: Option<String>,
    last_refresh: Option<u64>,
}

/// What the input cache holds, as values.
pub struct InputCacheView {
    pub value: Option<Seq<char>>,
    pub last_refresh: Option<u64>,
}

impl View for InputCache {
    type V = InputCacheView;

    closed spec fn view(&self) -> InputCacheView {
        InputCacheView {
            value: match self.value {
                Some(v) => Some(v@),
                None => None,
            },
            last_refresh: self.last_refresh,
        }
    }
}

fn copy_text(o: &Option<String>) -> (r: Option<String>)
    ensures
        r == *o,
{
    match o {
        Some(s) => Some(s.clone()),
        None => None,
    }
}

impl InputCache {
    /// An empty cache.
    pub fn new() -> (r: InputCache)
        ensures
            r@.value is None,
            r@.last_refresh is None,
    {
        InputCache { value: None, last_refresh: None }
    }

    /// Whether the input must be read again at `now_ms` (never read, or two
    /// seconds old).
    pub fn needs_refresh(&self, now_ms: u64) -> (b: bool)
        ensures
            b == stale(self@.last_refresh, now_ms, INPUT_CACHE_TTL_MS as u64),
    {
        is_stale(self.last_refresh, now_ms, INPUT_CACHE_TTL_MS)
    }

    /// The input held, fresh or not.
    pub fn peek(&self) -> (r: Option<String>)
        ensures
            match r {
                Some(v) => self@.value == Some(v@),
                None => self@.value is None,
            },
    {
        copy_text(&self.value)
    }

    /// Keeps an input known at `now_ms` (after a switch, or a reading).
    pub fn store(&mut self, value: Option<String>, now_ms: u64)
        ensures
            final(self)@ == input_stored(text_opt(value), now_ms),
    {
        self.value = value;
        self.last_refresh = Some(now_ms);
    }

    /// Records a reading taken at `now_ms`: a read input is kept and handed
    /// back; a failed reading keeps the old input, counts as a reading for the
    /// clock, and hands the error back.
    pub fn refresh(&mut self, reading: Result<String, String>, now_ms: u64) -> (r: Result<Option<String>, String>)
        ensures
            final(self)@.last_refresh == Some(now_ms),
            match reading {
                Ok(v) => final(self)@.value == Some(v@) && (r matches Ok(Some(w)) && w@ == v@),
                Err(e) => final(self)@.value == old(self)@.value && (r matches Err(f) && f@ == e@),
            },
    {
        match reading {
            Ok(v) => {
                let copy = v.clone();
                self.store(Some(v), now_ms);
                Ok(Some(copy))
            },
            Err(e) => {
                self.last_refresh = Some(now_ms);
                Err(e)
            },
        }
    }

    /// The input at `now_ms`: `None` when it must be read again first (then
    /// `refresh`); else the input held.
    pub fn get(&self, now_ms: u64) -> (r: Option<Option<String>>)
        ensures
            input_answer_view(r) == input_answer(self@, now_ms),
    {
        if self.needs_refresh(now_ms) {
            None
        } else {
            Some(self.peek())
        }
    }

    /// The input to show after a lookup: the lookup's input when it gave one,
    /// else the input held.
    pub fn current_value(&self, looked_up: Result<Option<String>, String>) -> (r: Option<String>)
        ensures
            match looked_up {
                Ok(Some(v)) => r matches Some(w) && w@ == v@,
                _ => match r {
                    Some(w) => self@.value == Some(w@),
                    None => self@.value is None,
                },
            },
    {
        match looked_up {
            Ok(Some(v)) => Some(v),
            _ => self.peek(),
        }
    }
}

} // verus!
