//! How many connections an address may open, and how many packets a client may send.
use vstd::prelude::*;

use crate::network::address::IpAddress;

verus! {

broadcast use vstd::seq::group_seq_axioms;

// ---------------------------------------------------------------------------
// Connections
// ---------------------------------------------------------------------------

/// Above so many buckets the old ones are dropped.
pub const MAX_BUCKETS: usize = 10_000;

/// A bucket is old after so many nanoseconds without a connection.
pub const BUCKET_LIFETIME_NANOS: u128 = 60_000_000_000;

/// The tokens that an address has left, counted in `T`.
#[derive(Debug, Clone, Copy)]
pub struct TokenBucket<T> {
    pub ip: IpAddress,
    pub tokens: T,
    /// When it was last used, in nanoseconds
    pub last_update: u128,
}

/// The nanoseconds since a moment; none where the moment is yet to come.
pub open spec fn nanos_since(last: u128, now: u128) -> u128 {
    if now >= last {
        (now - last) as u128
    } else {
        0
    }
}

/// The buckets that are not old, in their order.
pub open spec fn recent<T>(buckets: Seq<TokenBucket<T>>, now: u128) -> Seq<TokenBucket<T>>
    decreases buckets.len(),
{
    if buckets.len() == 0 {
        buckets
    } else {
        let before = recent(buckets.drop_last(), now);
        if nanos_since(buckets.last().last_update, now) < BUCKET_LIFETIME_NANOS {
            before.push(buckets.last())
        } else {
            before
        }
    }
}

/// What is left of the buckets before another one is opened.
pub open spec fn pruned<T>(buckets: Seq<TokenBucket<T>>, now: u128) -> Seq<TokenBucket<T>> {
    if buckets.len() > MAX_BUCKETS {
        recent(buckets, now)
    } else {
        buckets
    }
}

/// Where an address stands, or the length of the list.
pub open spec fn place_of<T>(buckets: Seq<TokenBucket<T>>, ip: IpAddress) -> nat
    decreases buckets.len(),
{
    if buckets.len() == 0 || buckets[0].ip == ip {
        0
    } else {
        place_of(buckets.skip(1), ip) + 1
    }
}

pub proof fn lemma_place_of<T>(buckets: Seq<TokenBucket<T>>, ip: IpAddress)
    ensures
        place_of(buckets, ip) <= buckets.len(),
        place_of(buckets, ip) < buckets.len() ==> buckets[place_of(buckets, ip) as int].ip == ip,
        forall|j: int| 0 <= j < place_of(buckets, ip) ==> (#[trigger] buckets[j]).ip != ip,
    decreases buckets.len(),
{
    if buckets.len() > 0 && buckets[0].ip != ip {
        lemma_place_of(buckets.skip(1), ip);
        assert forall|j: int| 0 <= j < place_of(buckets, ip) implies (#[trigger] buckets[j]).ip
            != ip by {
            if j > 0 {
                assert(buckets.skip(1)[j - 1] == buckets[j]);
            }
        }
    }
}

/// With a bucket for an address: a full one where it had none.
pub open spec fn opened<T>(
    buckets: Seq<TokenBucket<T>>,
    ip: IpAddress,
    burst: T,
    now: u128,
) -> Seq<TokenBucket<T>> {
    if place_of(buckets, ip) < buckets.len() {
        buckets
    } else {
        buckets.push(TokenBucket { ip, tokens: burst, last_update: now })
    }
}

/// With other tokens in the bucket of an address, as of now.
pub open spec fn refilled<T>(
    buckets: Seq<TokenBucket<T>>,
    ip: IpAddress,
    tokens: T,
    now: u128,
) -> Seq<TokenBucket<T>> {
    let p = place_of(buckets, ip);
    if p < buckets.len() {
        buckets.update(p as int, TokenBucket { ip, tokens, last_update: now })
    } else {
        buckets
    }
}

/// What is to be decided about a connection.
#[derive(Debug, Clone, Copy)]
pub enum ConnectionCheck<T> {
    /// Nothing: it is allowed
    Allowed,
    /// Whether a token can be taken, `elapsed` nanoseconds after there were `tokens`
    Consume { tokens: T, elapsed: u128 },
}

/// The buckets after a connection has come from an address, and what is to be decided about it.
pub open spec fn checked<T>(
    enabled: bool,
    buckets: Seq<TokenBucket<T>>,
    burst: T,
    ip: IpAddress,
    now: u128,
) -> (Seq<TokenBucket<T>>, ConnectionCheck<T>) {
    if !enabled {
        (buckets, ConnectionCheck::Allowed)
    } else {
        let all = opened(pruned(buckets, now), ip, burst, now);
        let b = all[place_of(all, ip) as int];
        (
            all,
            ConnectionCheck::Consume {
                tokens: b.tokens,
                elapsed: nanos_since(b.last_update, now),
            },
        )
    }
}

/// One bucket of tokens for each address. How tokens come back and are taken is up to the
/// owner, who counts them in `T`.
#[derive(Debug)]
pub struct ConnectionRateLimiter<T> {
    pub enabled: bool,
    /// The tokens that come back in a second
    pub rate_per_sec: T,
    /// The tokens in a full bucket
    pub burst: T,
    pub buckets: Vec<TokenBucket<T>>,
}

impl<T: Copy> ConnectionRateLimiter<T> {
    pub fn new(enabled: bool, rate_per_sec: T, burst: T) -> (r: Self)
        ensures
            r.enabled == enabled,
            r.rate_per_sec == rate_per_sec,
            r.burst == burst,
            r.buckets@ == Seq::<TokenBucket<T>>::empty(),
    {
        let buckets: Vec<TokenBucket<T>> = Vec::new();
        assert(buckets@ =~= Seq::empty());
        ConnectionRateLimiter { enabled, rate_per_sec, burst, buckets }
    }

    fn find(&self, ip: IpAddress) -> (r: usize)
        ensures
            r == place_of(self.buckets@, ip),
    {
        let mut i: usize = 0;
        assert(self.buckets@.skip(0) == self.buckets@);
        while i < self.buckets.len() && self.buckets[i].ip != ip
            invariant
                i <= self.buckets@.len(),
                place_of(self.buckets@, ip) == place_of(self.buckets@.skip(i as int), ip) + i,
            decreases self.buckets.len() - i,
        {
            assert(self.buckets@.skip(i as int).skip(1) == self.buckets@.skip(i + 1));
            i = i + 1;
        }
        i
    }

    fn keep_recent(&mut self, now: u128)
        ensures
            final(self).enabled == old(self).enabled,
            final(self).rate_per_sec == old(self).rate_per_sec,
            final(self).burst == old(self).burst,
            final(self).buckets@ == recent(old(self).buckets@, now),
    {
        let ghost all = self.buckets@;
        let mut kept: Vec<TokenBucket<T>> = Vec::new();
        let mut i: usize = 0;
        assert(all.take(0) == Seq::<TokenBucket<T>>::empty());
        assert(kept@ == Seq::<TokenBucket<T>>::empty());
        while i < self.buckets.len()
            invariant
                i <= all.len(),
                *self == *old(self),
                all == self.buckets@,
                kept@ == recent(all.take(i as int), now),
            decreases self.buckets.len() - i,
        {
            let b = self.buckets[i];
            assert(all.take(i + 1).drop_last() == all.take(i as int));
            assert(all.take(i + 1).last() == b);
            let since: u128 = if now >= b.last_update {
                now - b.last_update
            } else {
                0
            };
            if since < BUCKET_LIFETIME_NANOS {
                kept.push(b);
            }
            i = i + 1;
        }
        assert(all.take(all.len() as int) == all);
        self.buckets = kept;
    }

    /// A connection has come from an address.
    pub fn check_connection(&mut self, ip: IpAddress, now: u128) -> (r: ConnectionCheck<T>)
        ensures
            final(self).enabled == old(self).enabled,
            final(self).rate_per_sec == old(self).rate_per_sec,
            final(self).burst == old(self).burst,
            (final(self).buckets@, r) == checked(
                old(self).enabled,
                old(self).buckets@,
                old(self).burst,
                ip,
                now,
            ),
            old(self).enabled ==> place_of(final(self).buckets@, ip) < final(self).buckets@.len(),
    {
        if !self.enabled {
            return ConnectionCheck::Allowed;
        }
        if self.buckets.len() > MAX_BUCKETS {
            self.keep_recent(now);
        }
        let p: usize = self.find(ip);
        if p == self.buckets.len() {
            proof {
                lemma_place_of(self.buckets@, ip);
                lemma_opened(self.buckets@, ip, self.burst, now);
            }
            self.buckets.push(TokenBucket { ip, tokens: self.burst, last_update: now });
        }
        proof {
            lemma_place_of(self.buckets@, ip);
        }
        let b = self.buckets[p];
        ConnectionCheck::Consume {
            tokens: b.tokens,
            elapsed: if now >= b.last_update {
                now - b.last_update
            } else {
                0
            },
        }
    }

    /// The owner has decided: this is what the address has left.
    pub fn settle(&mut self, ip: IpAddress, tokens: T, now: u128)
        ensures
            final(self).enabled == old(self).enabled,
            final(self).rate_per_sec == old(self).rate_per_sec,
            final(self).burst == old(self).burst,
            final(self).buckets@ == refilled(old(self).buckets@, ip, tokens, now),
    {
        let p: usize = self.find(ip);
        proof {
            lemma_place_of(self.buckets@, ip);
        }
        if p < self.buckets.len() {
            self.buckets.set(p, TokenBucket { ip, tokens, last_update: now });
        }
    }
}

proof fn lemma_opened<T>(buckets: Seq<TokenBucket<T>>, ip: IpAddress, burst: T, now: u128)
    requires
        place_of(buckets, ip) == buckets.len(),
    ensures
        place_of(buckets.push(TokenBucket { ip, tokens: burst, last_update: now }), ip)
            == buckets.len(),
{
    let all = buckets.push(TokenBucket { ip, tokens: burst, last_update: now });
    lemma_place_of(buckets, ip);
    lemma_place_of(all, ip);
    let p = place_of(all, ip);
    if p < buckets.len() {
        assert(all[p as int] == buckets[p as int]);
    }
    if p > buckets.len() {
        assert(all[buckets.len() as int].ip != ip);
    }
}

/// What an address has left is what it was given last, and no other address is touched.
pub proof fn law_settled_is_kept<T>(
    buckets: Seq<TokenBucket<T>>,
    ip: IpAddress,
    tokens: T,
    now: u128,
    i: int,
)
    requires
        place_of(buckets, ip) < buckets.len(),
        0 <= i < buckets.len(),
    ensures
        place_of(refilled(buckets, ip, tokens, now), ip) == place_of(buckets, ip),
        refilled(buckets, ip, tokens, now)[place_of(buckets, ip) as int].tokens == tokens,
        buckets[i].ip != ip ==> refilled(buckets, ip, tokens, now)[i] == buckets[i],
{
    let all = refilled(buckets, ip, tokens, now);
    let p = place_of(buckets, ip);
    lemma_place_of(buckets, ip);
    lemma_place_of(all, ip);
    let q = place_of(all, ip);
    if q < p {
        assert(all[q as int] == buckets[q as int]);
    }
    if q > p {
        assert(all[p as int].ip != ip);
    }
}

/// Dropping the old buckets drops no bucket that was used within the last minute.
pub proof fn law_recent_buckets_stay<T>(buckets: Seq<TokenBucket<T>>, now: u128, i: int)
    requires
        0 <= i < buckets.len(),
        nanos_since(buckets[i].last_update, now) < BUCKET_LIFETIME_NANOS,
    ensures
        recent(buckets, now).contains(buckets[i]),
        pruned(buckets, now).contains(buckets[i]),
    decreases buckets.len(),
{
    let kept = recent(buckets, now);
    let before = recent(buckets.drop_last(), now);
    if i == buckets.len() - 1 {
        assert(kept[kept.len() - 1] == buckets[i]);
    } else {
        law_recent_buckets_stay(buckets.drop_last(), now, i);
        let j = choose|j: int| 0 <= j < before.len() && before[j] == buckets[i];
        assert(kept[j] == buckets[i]);
    }
    assert(buckets.contains(buckets[i]));
}

// ---------------------------------------------------------------------------
// Packets
// ---------------------------------------------------------------------------

/// A point in time.
#[verifier::external_type_specification]
#[verifier::external_body]
pub struct ExInstant(std::time::Instant);

/// `Instant::now`. Nothing is said of the result: it is the time.
#[verifier::external_body]
fn instant_now() -> (r: std::time::Instant) {
    std::time::Instant::now()
}

/// `Instant::elapsed`, in nanoseconds. Nothing is said of the result: it rests on the clock.
#[verifier::external_body]
fn nanos_elapsed(start: &std::time::Instant) -> (r: u128) {
    start.elapsed().as_nanos()
}

/// Packets are counted in windows of so many nanoseconds: one second.
pub const WINDOW_NANOS: u128 = 1_000_000_000;

/// When the window of a packet at `now` began: a packet that comes a full second or more after
/// its window began opens a new one.
pub open spec fn next_window(window: u128, now: u128) -> u128 {
    if nanos_since(window, now) >= WINDOW_NANOS {
        now
    } else {
        window
    }
}

/// How many packets the window has seen after one more, `elapsed` nanoseconds into it: the
/// packet that opens a new window is the first of it.
pub open spec fn next_count(count: int, elapsed: u128) -> int {
    if elapsed >= WINDOW_NANOS {
        1
    } else {
        count + 1
    }
}

/// The beginning of the window and the packets in it after packets at these times.
pub open spec fn window_after(window: u128, count: int, times: Seq<u128>) -> (u128, int)
    decreases times.len(),
{
    if times.len() == 0 {
        (window, count)
    } else {
        let (w, n) = window_after(window, count, times.drop_last());
        (next_window(w, times.last()), next_count(n, nanos_since(w, times.last())))
    }
}

/// Whether the last of these packets is allowed.
pub open spec fn last_allowed(limit: u32, window: u128, count: int, times: Seq<u128>) -> bool {
    window_after(window, count, times).1 <= limit
}

/// The packet at place `first` opens a window, and those behind it are in that window.
pub open spec fn one_window(window: u128, count: int, times: Seq<u128>, first: int) -> bool {
    &&& 0 <= first < times.len()
    &&& nanos_since(window_after(window, count, times.take(first)).0, times[first]) >= WINDOW_NANOS
    &&& forall|i: int|
        first < i < times.len() ==> nanos_since(times[first], #[trigger] times[i]) < WINDOW_NANOS
}

proof fn lemma_counted(window: u128, count: int, times: Seq<u128>)
    requires
        forall|i: int|
            0 <= i < times.len() ==> nanos_since(window, #[trigger] times[i]) < WINDOW_NANOS,
    ensures
        window_after(window, count, times) == (window, count + times.len()),
    decreases times.len(),
{
    if times.len() > 0 {
        let front = times.drop_last();
        assert forall|i: int| 0 <= i < front.len() implies nanos_since(window, #[trigger] front[i])
            < WINDOW_NANOS by {
            assert(front[i] == times[i]);
        }
        lemma_counted(window, count, front);
        assert(times.last() == times[times.len() - 1]);
    }
}

proof fn lemma_window_after_split(window: u128, count: int, times: Seq<u128>, k: int)
    requires
        0 <= k <= times.len(),
    ensures
        ({
            let (w, n) = window_after(window, count, times.take(k));
            window_after(window, count, times) == window_after(w, n, times.skip(k))
        }),
    decreases times.len() - k,
{
    if k == times.len() {
        assert(times.take(k) == times);
        assert(times.skip(k) == Seq::<u128>::empty());
    } else {
        let front = times.drop_last();
        lemma_window_after_split(window, count, front, k);
        assert(front.take(k) == times.take(k));
        assert(front.skip(k) == times.skip(k).drop_last());
        assert(times.skip(k).last() == times.last());
    }
}

/// In the window that a limiter is made with, the k-th packet is allowed exactly where k is at
/// most the limit. Packets that were refused count too.
pub proof fn law_first_window_is_limited(limit: u32, window: u128, times: Seq<u128>)
    requires
        times.len() > 0,
        forall|i: int|
            0 <= i < times.len() ==> nanos_since(window, #[trigger] times[i]) < WINDOW_NANOS,
    ensures
        last_allowed(limit, window, 0, times) <==> times.len() <= limit,
{
    lemma_counted(window, 0, times);
}

/// In every later window, the k-th packet is allowed exactly where k is at most the limit: the
/// packet that opens the window is the first, packets that were refused count too, and those of
/// earlier windows do not.
pub proof fn law_later_window_is_limited(
    limit: u32,
    window: u128,
    count: int,
    times: Seq<u128>,
    first: int,
)
    requires
        one_window(window, count, times, first),
    ensures
        last_allowed(limit, window, count, times) <==> times.len() - first <= limit,
        window_after(window, count, times).0 == times[first],
{
    let upto = times.take(first + 1);
    let rest = times.skip(first + 1);
    assert(upto.drop_last() == times.take(first));
    assert(upto.last() == times[first]);
    lemma_window_after_split(window, count, times, first + 1);
    assert forall|i: int| 0 <= i < rest.len() implies nanos_since(times[first], #[trigger] rest[i])
        < WINDOW_NANOS by {
        assert(rest[i] == times[first + 1 + i]);
    }
    lemma_counted(times[first], 1, rest);
}

/// Per-connection packet rate limiter to detect packet floods.
pub struct PacketRateLimiter {
    max_packets_per_sec: u32,
    packet_count: u32,
    window_start: u128,
    origin: std::time::Instant,
}

impl PacketRateLimiter {
    pub closed spec fn limit(&self) -> u32 {
        self.max_packets_per_sec
    }

    /// Packets in the current window of one second.
    pub closed spec fn count(&self) -> u32 {
        self.packet_count
    }

    /// When the current window began, in nanoseconds since the limiter was made.
    pub closed spec fn window(&self) -> u128 {
        self.window_start
    }

    /// When the limiter was made.
    pub closed spec fn origin(&self) -> std::time::Instant {
        self.origin
    }

    /// A limiter whose first window begins now.
    pub fn new(max_packets_per_sec: u32) -> (r: Self)
        ensures
            r.limit() == max_packets_per_sec,
            r.count() == 0,
            r.window() == 0,
    {
        PacketRateLimiter {
            max_packets_per_sec,
            packet_count: 0,
            window_start: 0,
            origin: instant_now(),
        }
    }

    /// How many packets the current window has seen.
    pub fn packet_count(&self) -> (r: u32)
        ensures
            r == self.count(),
    {
        self.packet_count
    }

    /// Records a packet `now` nanoseconds after the limiter was made, and returns false if the
    /// limit is exceeded.
    pub fn record_packet_at(&mut self, now: u128) -> (r: bool)
        requires
            old(self).count() < u32::MAX,
        ensures
            final(self).limit() == old(self).limit(),
            final(self).origin() == old(self).origin(),
            final(self).window() == next_window(old(self).window(), now),
            final(self).count() == next_count(
                old(self).count() as int,
                nanos_since(old(self).window(), now),
            ),
            r == (final(self).count() <= old(self).limit()),
    {
        let elapsed: u128 = if now >= self.window_start {
            now - self.window_start
        } else {
            0
        };
        if elapsed >= WINDOW_NANOS {
            self.window_start = now;
            self.packet_count = 1;
        } else {
            self.packet_count = self.packet_count + 1;
        }
        self.packet_count <= self.max_packets_per_sec
    }

    /// Records a packet at the present time and returns false if the limit is exceeded. The time
    /// rests on the clock; what comes of it is up to `record_packet_at`.
    pub fn record_packet(&mut self) -> (r: bool)
        requires
            old(self).count() < u32::MAX,
        ensures
            final(self).limit() == old(self).limit(),
            final(self).origin() == old(self).origin(),
            r == (final(self).count() <= old(self).limit()),
            exists|now: u128|
                final(self).window() == #[trigger] next_window(old(self).window(), now)
                    && final(self).count() == next_count(
                    old(self).count() as int,
                    nanos_since(old(self).window(), now),
                ),
    {
        let now: u128 = nanos_elapsed(&self.origin);
        self.record_packet_at(now)
    }
}

/// An address without a bucket gets a full one, as of now; one that has a bucket keeps it, and so
/// does every other address.
pub proof fn law_new_addresses_get_a_full_bucket<T>(
    buckets: Seq<TokenBucket<T>>,
    ip: IpAddress,
    burst: T,
    now: u128,
    i: int,
)
    requires
        0 <= i < buckets.len(),
    ensures
        ({
            let all = opened(buckets, ip, burst, now);
            let b = all[place_of(all, ip) as int];
            &&& place_of(all, ip) < all.len()
            &&& b.ip == ip
            &&& all[i] == buckets[i]
            &&& (forall|j: int| 0 <= j < buckets.len() ==> (#[trigger] buckets[j]).ip != ip) ==> {
                &&& all.len() == buckets.len() + 1
                &&& b.tokens == burst
                &&& b.last_update == now
            }
            &&& (exists|j: int| 0 <= j < buckets.len() && (#[trigger] buckets[j]).ip == ip) ==> all
                == buckets
        }),
{
    lemma_place_of(buckets, ip);
    let all = opened(buckets, ip, burst, now);
    lemma_place_of(all, ip);
    if place_of(buckets, ip) == buckets.len() {
        lemma_opened(buckets, ip, burst, now);
    }
}

/// Old buckets are dropped only where there are too many, and then every old one is.
pub proof fn law_old_buckets_are_dropped<T>(buckets: Seq<TokenBucket<T>>, now: u128, i: int)
    ensures
        buckets.len() <= 10_000 ==> pruned(buckets, now) == buckets,
        buckets.len() > 10_000 && 0 <= i < pruned(buckets, now).len() ==> buckets.contains(
            pruned(buckets, now)[i],
        ) && (now < pruned(buckets, now)[i].last_update || now - pruned(
            buckets,
            now,
        )[i].last_update < 60_000_000_000),
{
    if buckets.len() > 10_000 && 0 <= i < pruned(buckets, now).len() {
        lemma_recent(buckets, now, i);
    }
}

proof fn lemma_recent<T>(buckets: Seq<TokenBucket<T>>, now: u128, i: int)
    requires
        0 <= i < recent(buckets, now).len(),
    ensures
        buckets.contains(recent(buckets, now)[i]),
        nanos_since(recent(buckets, now)[i].last_update, now) < BUCKET_LIFETIME_NANOS,
    decreases buckets.len(),
{
    if buckets.len() > 0 {
        let front = buckets.drop_last();
        let before = recent(front, now);
        if i < before.len() {
            lemma_recent(front, now, i);
            let j = choose|j: int| 0 <= j < front.len() && front[j] == before[i];
            assert(buckets[j] == before[i]);
        } else {
            assert(buckets[buckets.len() - 1] == recent(buckets, now)[i]);
        }
    }
}

/// A packet opens a new window exactly a full second or more after the last one began; times that
/// run backwards open none.
pub proof fn law_windows_last_a_second(window: u128, count: int, now: u128)
    ensures
        now >= window && now - window >= 1_000_000_000 ==> next_window(window, now) == now
            && next_count(count, nanos_since(window, now)) == 1,
        now < window || now - window < 1_000_000_000 ==> next_window(window, now) == window
            && next_count(count, nanos_since(window, now)) == count + 1,
{
}

/// A limiter that is switched off allows every connection and remembers none.
pub proof fn law_disabled_limiter_allows_all<T>(
    buckets: Seq<TokenBucket<T>>,
    burst: T,
    ip: IpAddress,
    now: u128,
)
    ensures
        checked(false, buckets, burst, ip, now).1 == ConnectionCheck::<T>::Allowed,
        checked(false, buckets, burst, ip, now).0 == buckets,
{
}

/// The first connection of an address is checked against a full bucket, with no time gone by.
pub proof fn law_first_connection_finds_a_full_bucket<T>(
    buckets: Seq<TokenBucket<T>>,
    burst: T,
    ip: IpAddress,
    now: u128,
)
    requires
        forall|j: int| 0 <= j < buckets.len() ==> (#[trigger] buckets[j]).ip != ip,
        buckets.len() <= 10_000,
    ensures
        checked(true, buckets, burst, ip, now).1 == (ConnectionCheck::Consume {
            tokens: burst,
            elapsed: 0,
        }),
{
    lemma_place_of(buckets, ip);
    lemma_opened(buckets, ip, burst, now);
}

/// What an address was left with is what its next connection is checked against, with the time that
/// has gone by since. Connections of other addresses do not touch it.
pub proof fn law_tokens_are_remembered<T>(
    buckets: Seq<TokenBucket<T>>,
    burst: T,
    ip: IpAddress,
    tokens: T,
    now: u128,
    later: u128,
)
    requires
        place_of(buckets, ip) < buckets.len(),
        buckets.len() <= 10_000,
        now <= later,
    ensures
        checked(true, refilled(buckets, ip, tokens, now), burst, ip, later).1 == (
        ConnectionCheck::Consume { tokens, elapsed: (later - now) as u128 }),
        checked(true, refilled(buckets, ip, tokens, now), burst, ip, later).0 == refilled(
            buckets,
            ip,
            tokens,
            now,
        ),
{
    lemma_place_of(buckets, ip);
    law_settled_is_kept(buckets, ip, tokens, now, place_of(buckets, ip) as int);
}

} // verus!
