//! The quota gate: every API key may make a fixed number of requests of each
//! class in each window of time.

use crate::error::{Error, StoreFailure};
use vstd::prelude::*;

verus! {

/// Length of a quota window in seconds.
pub const WINDOW_SECONDS: i64 = 60;

/// The classes of requests whose quotas are counted apart.
#[derive(Debug, Clone, Copy, PartialEq, Eq, Structural)]
pub enum OperationClass {
    /// Similarity search by an uploaded image.
    Image,
    /// Lookup by identifier, filename or URL.
    Name,
}

/// What the key store records of an API key.
#[derive(Debug, Clone, Copy, PartialEq, Eq, Structural)]
pub struct ApiKey {
    pub id: i32,
    pub image_limit: i16,
    pub name_limit: i16,
}

/// The decision on one request.
#[derive(Debug, Clone, Copy, PartialEq, Eq, Structural)]
pub enum RateLimit {
    /// The request is admitted; it is the given one in its window.
    Available(i16),
    /// The quota of the window is used up.
    Limited,
}

/// The counter of one key and class: the window it counts in, and the
/// requests admitted in that window.
#[derive(Debug, Clone, Copy, PartialEq, Eq, Structural)]
pub struct QuotaCounter {
    pub window: i64,
    pub count: i16,
}

/// The start of the window that the second `timestamp` lies in.
pub open spec fn window_of(timestamp: int) -> int {
    if timestamp >= 0 {
        timestamp - timestamp % 60
    } else {
        timestamp + (-timestamp) % 60
    }
}

/// The ceiling of a key for a class of requests.
pub open spec fn ceiling_of(key: ApiKey, class: OperationClass) -> i16 {
    match class {
        OperationClass::Image => key.image_limit,
        OperationClass::Name => key.name_limit,
    }
}

/// The decision on a request that brought the count of its window to
/// `count`, under the ceiling `limit`.
pub open spec fn decision(count: i16, limit: i16) -> RateLimit {
    if count > limit {
        RateLimit::Limited
    } else {
        RateLimit::Available(count)
    }
}

/// The requests that a counter has admitted in `window` so far.
pub open spec fn used_in(counter: QuotaCounter, window: i64) -> int {
    if counter.window == window {
        counter.count as int
    } else {
        0
    }
}

/// Whether a request in `window` is admitted at `counter` under `ceiling`.
pub open spec fn admits(counter: QuotaCounter, window: i64, ceiling: i16) -> bool {
    used_in(counter, window) < ceiling
}

/// The counter after a request in `window` under `ceiling`: a request in a
/// new window starts the count afresh, and only an admitted request is
/// counted.
pub open spec fn counter_after(counter: QuotaCounter, window: i64, ceiling: i16) -> QuotaCounter {
    QuotaCounter {
        window,
        count: if admits(counter, window, ceiling) {
            (used_in(counter, window) + 1) as i16
        } else {
            used_in(counter, window) as i16
        },
    }
}

/// How many of `n` successive requests in `window` a counter admits under
/// `ceiling`.
pub open spec fn admitted_of(counter: QuotaCounter, window: i64, ceiling: i16, n: nat) -> nat
    decreases n,
{
    if n == 0 {
        0
    } else {
        (if admits(counter, window, ceiling) {
            1nat
        } else {
            0nat
        }) + admitted_of(counter_after(counter, window, ceiling), window, ceiling, (n - 1) as nat)
    }
}

/// How many of the `n` requests that bring the count of a window from
/// `start` to `start + n` are admitted under `limit`, where the store
/// counts every request and each is decided from the count after it.
pub open spec fn available_of(start: int, limit: i16, n: nat) -> nat
    decreases n,
{
    if n == 0 {
        0
    } else {
        available_of(start, limit, (n - 1) as nat) + if decision((start + n) as i16, limit)
            != RateLimit::Limited {
            1nat
        } else {
            0nat
        }
    }
}

/// The name under which the counters of a class are kept.
pub fn group_name(class: OperationClass) -> (name: &'static str)
    ensures
        name@ == (match class {
            OperationClass::Image => "image"@,
            OperationClass::Name => "file"@,
        }),
{
    match class {
        OperationClass::Image => "image",
        OperationClass::Name => "file",
    }
}

/// The ceiling of a key for a class of requests.
pub fn ceiling(key: &ApiKey, class: OperationClass) -> (limit: i16)
    ensures
        limit == ceiling_of(*key, class),
{
    match class {
        OperationClass::Image => key.image_limit,
        OperationClass::Name => key.name_limit,
    }
}

/// The start of the window that the second `timestamp` lies in.
pub fn time_window(timestamp: i64) -> (window: i64)
    ensures
        window == window_of(timestamp as int),
        timestamp >= 0 ==> timestamp - 60 < window <= timestamp,
        timestamp < 0 ==> timestamp <= window < timestamp + 60,
{
    if timestamp >= 0 {
        timestamp - timestamp % 60
    } else if timestamp == i64::MIN {
        // The lowest second of all lies eight seconds below a multiple of sixty.
        timestamp + 8
    } else {
        let back: i64 = -timestamp;
        timestamp + back % 60
    }
}

/// Checks that the key of a request is known, and gives its identifier and
/// its ceiling for the class of the request.
pub fn authorize(key: Option<ApiKey>, class: OperationClass) -> (r: Result<(i32, i16), Error>)
    ensures
        match key {
            Some(k) => r == Ok::<(i32, i16), Error>((k.id, ceiling_of(k, class))),
            None => r == Err::<(i32, i16), Error>(Error::ApiKey),
        },
{
    match key {
        Some(k) => Ok((k.id, ceiling(&k, class))),
        None => Err(Error::ApiKey),
    }
}

/// Checks the key of a request from the answer of the key store. A store
/// that failed vouches for no key.
pub fn authorize_answer(answer: Result<Option<ApiKey>, StoreFailure>, class: OperationClass) -> (r:
    Result<(i32, i16), Error>)
    ensures
        r == authorization_of(answer, class),
{
    match answer {
        Err(_) => Err(Error::QuotaStore),
        Ok(key) => authorize(key, class),
    }
}

/// Decides on a request from the count that the counter store returned for
/// it after counting it.
pub fn judge(count: i16, limit: i16) -> (r: RateLimit)
    ensures
        r == decision(count, limit),
{
    if count > limit {
        RateLimit::Limited
    } else {
        RateLimit::Available(count)
    }
}

/// The decision on a request for the answer of the counter store: a store
/// that failed admits nothing, and a count above the ceiling is refused.
pub open spec fn admission_of(answer: Result<i16, StoreFailure>, limit: i16) -> Result<
    i16,
    Error,
> {
    match answer {
        Err(_) => Err(Error::QuotaStore),
        Ok(count) => if count > limit {
            Err(Error::RateLimit)
        } else {
            Ok(count)
        },
    }
}

/// The identifier and ceiling of the key of a request for the answer of the
/// key store: a store that failed vouches for no key, and a key that it
/// does not know is refused.
pub open spec fn authorization_of(
    answer: Result<Option<ApiKey>, StoreFailure>,
    class: OperationClass,
) -> Result<(i32, i16), Error> {
    match answer {
        Err(_) => Err(Error::QuotaStore),
        Ok(None) => Err(Error::ApiKey),
        Ok(Some(k)) => Ok((k.id, ceiling_of(k, class))),
    }
}

/// Decides on a request from the answer of the counter store. A store that
/// failed admits nothing.
pub fn admission(answer: Result<i16, StoreFailure>, limit: i16) -> (r: Result<i16, Error>)
    ensures
        r == admission_of(answer, limit),
{
    match answer {
        Err(_) => Err(Error::QuotaStore),
        Ok(count) => match judge(count, limit) {
            RateLimit::Limited => Err(Error::RateLimit),
            RateLimit::Available(n) => Ok(n),
        },
    }
}

impl QuotaCounter {
    /// A counter never holds a negative count.
    pub open spec fn wf(&self) -> bool {
        self.count >= 0
    }

    /// A counter that has admitted nothing.
    pub fn new(window: i64) -> (counter: QuotaCounter)
        ensures
            counter.wf(),
            counter.window == window,
            counter.count == 0,
    {
        QuotaCounter { window, count: 0 }
    }

    /// Checks one request in `window` against `ceiling` and counts it if it
    /// is admitted. The check and the count are one step: the exclusive
    /// borrow keeps every other request out until both are done.
    pub fn request(&mut self, window: i64, ceiling: i16) -> (r: RateLimit)
        requires
            old(self).wf(),
        ensures
            final(self).wf(),
            *final(self) == counter_after(*old(self), window, ceiling),
            r == (if admits(*old(self), window, ceiling) {
                RateLimit::Available(final(self).count)
            } else {
                RateLimit::Limited
            }),
    {
        let used: i16 = if self.window == window {
            self.count
        } else {
            0
        };
        self.window = window;
        if used < ceiling {
            self.count = used + 1;
            RateLimit::Available(used + 1)
        } else {
            self.count = used;
            RateLimit::Limited
        }
    }
}

/// The counter of one key and class in a gate.
#[derive(Debug, Clone, Copy, PartialEq, Eq, Structural)]
pub struct QuotaEntry {
    pub key: i32,
    pub class: OperationClass,
    pub counter: QuotaCounter,
}

/// A gate that keeps the counters of all keys and classes itself.
#[derive(Debug, Clone, PartialEq, Eq)]
pub struct QuotaGate {
    entries: Vec<QuotaEntry>,
}

/// Whether an entry is the one of `key` and `class`.
pub open spec fn is_entry_of(entry: QuotaEntry, key: i32, class: OperationClass) -> bool {
    entry.key == key && entry.class == class
}

/// The counter of the first entry of `key` and `class` at or after `from`.
pub open spec fn lookup_from(
    entries: Seq<QuotaEntry>,
    from: int,
    key: i32,
    class: OperationClass,
) -> Option<QuotaCounter>
    decreases entries.len() - from,
{
    if from < 0 || from >= entries.len() {
        None
    } else if is_entry_of(entries[from], key, class) {
        Some(entries[from].counter)
    } else {
        lookup_from(entries, from + 1, key, class)
    }
}

impl QuotaGate {
    /// The counters that are kept.
    pub closed spec fn entries(&self) -> Seq<QuotaEntry> {
        self.entries@
    }

    /// Every counter is well formed.
    pub open spec fn wf(&self) -> bool {
        forall|i: int|
            0 <= i < self.entries().len() ==> (#[trigger] self.entries()[i]).counter.wf()
    }

    /// Whether a counter is kept for `key` and `class`.
    pub open spec fn tracks(&self, key: i32, class: OperationClass) -> bool {
        lookup_from(self.entries(), 0, key, class).is_some()
    }

    /// The counter of `key` and `class`. One that is not kept yet
    /// has admitted nothing.
    pub open spec fn counter_at(&self, key: i32, class: OperationClass) -> QuotaCounter {
        match lookup_from(self.entries(), 0, key, class) {
            Some(counter) => counter,
            None => QuotaCounter { window: 0, count: 0 },
        }
    }

    /// Whether two gates hold the same counter for every key and class but
    /// for `key` and `class`.
    pub open spec fn agrees_elsewhere(
        &self,
        other: QuotaGate,
        key: i32,
        class: OperationClass,
    ) -> bool {
        forall|k: i32, c: OperationClass|
            !(k == key && c == class) ==> #[trigger] lookup_from(self.entries(), 0, k, c)
                == lookup_from(other.entries(), 0, k, c)
    }

    /// A gate that has seen no request.
    pub fn new() -> (gate: QuotaGate)
        ensures
            gate.wf(),
            gate.entries().len() == 0,
            forall|key: i32, class: OperationClass| !gate.tracks(key, class),
    {
        QuotaGate { entries: Vec::new() }
    }

    fn position(&self, key: i32, class: OperationClass) -> (at: Option<usize>)
        ensures
            at.is_some() == self.tracks(key, class),
            at.is_some() ==> at.unwrap() < self.entries().len() && is_entry_of(
                self.entries()[at.unwrap() as int],
                key,
                class,
            ) && self.entries()[at.unwrap() as int].counter == self.counter_at(key, class),
            at.is_some() ==> forall|j: int|
                0 <= j < at.unwrap() ==> !is_entry_of(#[trigger] self.entries()[j], key, class),
            at.is_none() ==> forall|j: int|
                0 <= j < self.entries().len() ==> !is_entry_of(
                    #[trigger] self.entries()[j],
                    key,
                    class,
                ),
    {
        let mut i: usize = 0;
        while i < self.entries.len()
            invariant
                i <= self.entries.len(),
                forall|j: int| 0 <= j < i ==> !is_entry_of(#[trigger] self.entries()[j], key, class),
            decreases self.entries.len() - i,
        {
            if self.entries[i].key == key && self.entries[i].class == class {
                proof {
                    lemma_lookup_first(self.entries(), 0, i as int, key, class);
                }
                return Some(i);
            }
            i = i + 1;
        }
        proof {
            lemma_lookup_none(self.entries(), 0, key, class);
        }
        None
    }

    /// The requests of `key` and `class` that were admitted in
    /// `window`.
    pub fn used(&self, key: i32, class: OperationClass, window: i64) -> (n: i16)
        requires
            self.wf(),
        ensures
            n == used_in(self.counter_at(key, class), window),
            n >= 0,
    {
        match self.position(key, class) {
            Some(i) => {
                let counter = self.entries[i].counter;
                if counter.window == window {
                    counter.count
                } else {
                    0
                }
            },
            None => 0,
        }
    }

    /// Checks one request of `key` for `class` at the second `timestamp`
    /// against the key's ceiling and counts it if it is admitted. The
    /// counters of other keys and classes stay as they are.
    pub fn request(&mut self, key: &ApiKey, class: OperationClass, timestamp: i64) -> (r:
        RateLimit)
        requires
            old(self).wf(),
        ensures
            final(self).wf(),
            final(self).tracks(key.id, class),
            final(self).counter_at(key.id, class) == counter_after(
                old(self).counter_at(key.id, class),
                window_of(timestamp as int) as i64,
                ceiling_of(*key, class),
            ),
            final(self).agrees_elsewhere(*old(self), key.id, class),
            r == (if admits(
                old(self).counter_at(key.id, class),
                window_of(timestamp as int) as i64,
                ceiling_of(*key, class),
            ) {
                RateLimit::Available(final(self).counter_at(key.id, class).count)
            } else {
                RateLimit::Limited
            }),
    {
        let window = time_window(timestamp);
        let limit = ceiling(key, class);
        let ghost before = self.entries();
        match self.position(key.id, class) {
            Some(i) => {
                let mut counter = self.entries[i].counter;
                let r = counter.request(window, limit);
                self.entries[i] = QuotaEntry { key: key.id, class, counter };
                proof {
                    let after = self.entries();
                    lemma_lookup_first(after, 0, i as int, key.id, class);
                    assert forall|k: i32, c: OperationClass|
                        !(k == key.id && c == class) implies #[trigger] lookup_from(
                        after,
                        0,
                        k,
                        c,
                    ) == lookup_from(before, 0, k, c) by {
                        lemma_lookup_agrees(before, after, 0, k, c);
                    }
                }
                r
            },
            None => {
                let mut counter = QuotaCounter::new(window);
                let r = counter.request(window, limit);
                self.entries.push(QuotaEntry { key: key.id, class, counter });
                proof {
                    let after = self.entries();
                    lemma_lookup_first(after, 0, before.len() as int, key.id, class);
                    assert forall|k: i32, c: OperationClass|
                        !(k == key.id && c == class) implies #[trigger] lookup_from(
                        after,
                        0,
                        k,
                        c,
                    ) == lookup_from(before, 0, k, c) by {
                        lemma_lookup_agrees(before, after, 0, k, c);
                    }
                }
                r
            },
        }
    }
}

proof fn lemma_lookup_first(
    entries: Seq<QuotaEntry>,
    from: int,
    at: int,
    key: i32,
    class: OperationClass,
)
    requires
        0 <= from <= at < entries.len(),
        is_entry_of(entries[at], key, class),
        forall|j: int| from <= j < at ==> !is_entry_of(#[trigger] entries[j], key, class),
    ensures
        lookup_from(entries, from, key, class) == Some(entries[at].counter),
    decreases at - from,
{
    if from < at {
        lemma_lookup_first(entries, from + 1, at, key, class);
    }
}

proof fn lemma_lookup_none(entries: Seq<QuotaEntry>, from: int, key: i32, class: OperationClass)
    requires
        0 <= from,
        forall|j: int| from <= j < entries.len() ==> !is_entry_of(#[trigger] entries[j], key, class),
    ensures
        lookup_from(entries, from, key, class).is_none(),
    decreases entries.len() - from,
{
    if from < entries.len() {
        lemma_lookup_none(entries, from + 1, key, class);
    }
}

proof fn lemma_lookup_agrees(
    before: Seq<QuotaEntry>,
    after: Seq<QuotaEntry>,
    from: int,
    key: i32,
    class: OperationClass,
)
    requires
        0 <= from,
        before.len() <= after.len(),
        forall|j: int|
            from <= j < after.len() && is_entry_of(#[trigger] after[j], key, class) ==> j
                < before.len() && before[j] == after[j],
        forall|j: int|
            from <= j < before.len() && is_entry_of(#[trigger] before[j], key, class) ==> before[j]
                == after[j],
    ensures
        lookup_from(before, from, key, class) == lookup_from(after, from, key, class),
    decreases after.len() - from,
{
    if from < after.len() {
        lemma_lookup_agrees(before, after, from + 1, key, class);
    }
}

/// Of any number of successive requests in one window, a counter admits as
/// many as its ceiling leaves room for, and no more.
pub proof fn lemma_admitted_of(counter: QuotaCounter, window: i64, ceiling: i16, n: nat)
    requires
        counter.wf(),
    ensures
        admitted_of(counter, window, ceiling, n) == (if used_in(counter, window) >= ceiling {
            0
        } else if n <= ceiling - used_in(counter, window) {
            n as int
        } else {
            ceiling - used_in(counter, window)
        }),
    decreases n,
{
    if n > 0 {
        lemma_admitted_of(counter_after(counter, window, ceiling), window, ceiling, (n - 1) as nat);
    }
}

/// Where the store counts every request and each is decided from the count
/// after it, no more requests of a window are admitted than the ceiling
/// leaves room for.
pub proof fn lemma_available_of(start: int, limit: i16, n: nat)
    requires
        0 <= start,
        start + n <= i16::MAX,
    ensures
        available_of(start, limit, n) == (if limit <= start {
            0
        } else if start + n <= limit {
            n as int
        } else {
            limit - start
        }),
        limit >= 0 ==> available_of(start, limit, n) <= limit,
    decreases n,
{
    if n > 0 {
        lemma_available_of(start, limit, (n - 1) as nat);
    }
}

/// However many requests are made for one key and class in one window, no
/// more than the ceiling are admitted.
pub proof fn lemma_never_over_admits(counter: QuotaCounter, window: i64, ceiling: i16, n: nat)
    requires
        counter.wf(),
        ceiling >= 0,
    ensures
        admitted_of(counter, window, ceiling, n) <= ceiling,
        used_in(counter, window) + admitted_of(counter, window, ceiling, n) <= (if used_in(
            counter,
            window,
        ) >= ceiling {
            used_in(counter, window)
        } else {
            ceiling as int
        }),
{
    lemma_admitted_of(counter, window, ceiling, n);
}

} // verus!
