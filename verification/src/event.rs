//! Topic-based publish/subscribe event bus.
//!
//! Topics and patterns are dot-separated segment strings. A pattern segment
//! `*` matches any topic segment; when it is the pattern's final segment it
//! matches every remaining topic segment as well, so `system.*` covers
//! `system.cpu` and `system.cpu.usage`. A `*` before the end merely skips
//! one segment; it does not consume several — a documented quirk of the
//! matcher, kept as observed behaviour.

use vstd::prelude::*;

verus! {

/// Index of the first `.` at or after position `i`, or the string's length
/// when no dot follows.
pub open spec fn seg_end(s: Seq<char>, i: int) -> int
    decreases s.len() - i,
{
    if i >= s.len() {
        i
    } else if s[i] == '.' {
        i
    } else {
        seg_end(s, i + 1)
    }
}

/// A segment never ends before it starts.
pub proof fn lemma_seg_end_ge(s: Seq<char>, i: int)
    ensures
        seg_end(s, i) >= i,
    decreases s.len() - i,
{
    if i < s.len() && s[i] != '.' {
        lemma_seg_end_ge(s, i + 1);
    }
}

#[via_fn]
proof fn split_from_dec(s: Seq<char>, i: int) {
    lemma_seg_end_ge(s, i);
}

/// The dot-separated segments of `s` from position `i` on. Splitting any
/// string yields at least one (possibly empty) segment.
pub open spec fn split_from(s: Seq<char>, i: int) -> Seq<Seq<char>>
    decreases s.len() - i,
        via split_from_dec
{
    let e = seg_end(s, i);
    if e >= s.len() {
        seq![s.subrange(i, s.len() as int)]
    } else {
        seq![s.subrange(i, e)] + split_from(s, e + 1)
    }
}

/// The dot-separated segments of a whole topic or pattern string.
pub open spec fn segments_of(s: Seq<char>) -> Seq<Seq<char>> {
    split_from(s, 0)
}

/// The wildcard segment.
pub open spec fn wild() -> Seq<char> {
    seq!['*']
}

/// Whether pattern segment `i` accepts topic segment `i`: a wildcard
/// accepts anything, any other segment only its equal.
pub open spec fn seg_ok(t: Seq<Seq<char>>, p: Seq<Seq<char>>, i: int) -> bool {
    p[i] == wild() || p[i] == t[i]
}

/// Segment-level matching: the pattern must not have more segments than the
/// topic, every pattern segment before the last must accept its topic
/// segment, and the last pattern segment either is the wildcard or equals
/// its topic segment with no topic segments left over.
pub open spec fn segs_match(t: Seq<Seq<char>>, p: Seq<Seq<char>>) -> bool {
    &&& p.len() <= t.len()
    &&& (forall|i: int| 0 <= i < p.len() - 1 ==> seg_ok(t, p, i))
    &&& (p.len() > 0 ==> (p[p.len() - 1] == wild() || (t.len() == p.len() && seg_ok(
        t,
        p,
        p.len() - 1,
    ))))
}

/// Whether a topic string matches a pattern string.
pub open spec fn topic_matches_spec(topic: Seq<char>, pattern: Seq<char>) -> bool {
    segs_match(segments_of(topic), segments_of(pattern))
}

/// Splitting yields at least one segment.
pub proof fn lemma_split_nonempty(s: Seq<char>, i: int)
    ensures
        split_from(s, i).len() >= 1,
{
}

/// The segment boundary is the first dot: `seg_end` points at a dot (or the
/// end), and nothing before it is one.
pub proof fn lemma_seg_end_props(s: Seq<char>, i: int)
    requires
        0 <= i <= s.len(),
    ensures
        i <= seg_end(s, i) <= s.len(),
        seg_end(s, i) < s.len() ==> s[seg_end(s, i)] == '.',
        forall|k: int| i <= k < seg_end(s, i) ==> s[k] != '.',
    decreases s.len() - i,
{
    if i < s.len() && s[i] != '.' {
        lemma_seg_end_props(s, i + 1);
    }
}

/// A position known to be the first dot after `i` is the segment boundary.
pub proof fn lemma_seg_end_at(s: Seq<char>, i: int, j: int)
    requires
        0 <= i <= j < s.len(),
        forall|k: int| i <= k < j ==> s[k] != '.',
        s[j] == '.',
    ensures
        seg_end(s, i) == j,
    decreases j - i,
{
    if i < j {
        lemma_seg_end_at(s, i + 1, j);
    }
}

/// With no dot from `i` on, the last segment runs to the end.
pub proof fn lemma_seg_end_none(s: Seq<char>, i: int)
    requires
        0 <= i <= s.len(),
        forall|k: int| i <= k < s.len() ==> s[k] != '.',
    ensures
        seg_end(s, i) == s.len(),
    decreases s.len() - i,
{
    if i < s.len() {
        lemma_seg_end_none(s, i + 1);
    }
}

/// Dot-separated segments of a string, one `String` per segment, in order.
fn split_segments(s: &str) -> (r: Vec<String>)
    ensures
        r@.map_values(|seg: String| seg@) == segments_of(s@),
{
    let n = s.unicode_len();
    let mut segs: Vec<String> = Vec::new();
    let mut start: usize = 0;
    let mut j: usize = 0;
    proof {
        assert(Seq::<String>::empty().map_values(|seg: String| seg@) + split_from(s@, 0)
            =~= split_from(s@, 0));
    }
    while j < n
        invariant
            n == s@.len(),
            start <= j <= n,
            forall|k: int| start <= k < j ==> s@[k] != '.',
            split_from(s@, 0) == segs@.map_values(|seg: String| seg@) + split_from(
                s@,
                start as int,
            ),
        decreases n - j,
    {
        let c = s.get_char(j);
        if c == '.' {
            let ghost prev = segs@;
            let piece = s.substring_char(start, j).to_owned();
            segs.push(piece);
            proof {
                lemma_seg_end_at(s@, start as int, j as int);
                assert(split_from(s@, start as int) == seq![s@.subrange(start as int, j as int)]
                    + split_from(s@, j as int + 1));
                assert(segs@.map_values(|seg: String| seg@) =~= prev.map_values(
                    |seg: String| seg@,
                ) + seq![piece@]);
                assert(split_from(s@, 0) =~= segs@.map_values(|seg: String| seg@) + split_from(
                    s@,
                    j as int + 1,
                ));
            }
            start = j + 1;
        }
        j = j + 1;
    }
    let ghost prev = segs@;
    let piece = s.substring_char(start, n).to_owned();
    segs.push(piece);
    proof {
        lemma_seg_end_none(s@, start as int);
        assert(split_from(s@, start as int) == seq![s@.subrange(start as int, n as int)]);
        assert(segs@.map_values(|seg: String| seg@) =~= prev.map_values(|seg: String| seg@)
            + seq![piece@]);
        assert(segs@.map_values(|seg: String| seg@) =~= split_from(s@, 0));
    }
    segs
}

/// Whether a segment is the wildcard `*`.
fn is_wild(seg: &String) -> (b: bool)
    ensures
        b == (seg@ == wild()),
{
    if seg.as_str().unicode_len() == 1 {
        let c = seg.as_str().get_char(0);
        if c == '*' {
            proof {
                assert(seg@ =~= wild());
            }
            true
        } else {
            proof {
                assert(seg@ != wild());
            }
            false
        }
    } else {
        proof {
            assert(seg@ != wild());
        }
        false
    }
}

/// Whether a topic string matches a pattern string: the segment walk of
/// [`segs_match`], executed.
pub fn topic_matches(topic: &str, pattern: &str) -> (r: bool)
    ensures
        r == topic_matches_spec(topic@, pattern@),
{
    let ghost ts = segments_of(topic@);
    let ghost ps = segments_of(pattern@);
    let t = split_segments(topic);
    let p = split_segments(pattern);
    proof {
        assert(t@.len() == ts.len());
        assert(p@.len() == ps.len());
    }
    if p.len() > t.len() {
        return false;
    }
    let mut i: usize = 0;
    while i < p.len()
        invariant
            t@.map_values(|seg: String| seg@) == ts,
            p@.map_values(|seg: String| seg@) == ps,
            ts == segments_of(topic@),
            ps == segments_of(pattern@),
            p@.len() == ps.len(),
            t@.len() == ts.len(),
            ps.len() <= ts.len(),
            i <= ps.len(),
            forall|j: int| 0 <= j < i ==> seg_ok(ts, ps, j),
            forall|j: int| 0 <= j < i && j == ps.len() - 1 ==> ps[j] != wild(),
        decreases p@.len() - i,
    {
        proof {
            assert(p@[i as int]@ == ps[i as int]);
            assert(t@[i as int]@ == ts[i as int]);
        }
        if is_wild(&p[i]) {
            if i == p.len() - 1 {
                proof {
                    assert(segs_match(ts, ps));
                }
                return true;
            }
        } else {
            if !p[i].eq(&t[i]) {
                proof {
                    assert(!seg_ok(ts, ps, i as int));
                    assert(!segs_match(ts, ps));
                }
                return false;
            }
        }
        i = i + 1;
    }
    proof {
        lemma_split_nonempty(pattern@, 0);
    }
    let res = t.len() == p.len();
    proof {
        assert(ps[ps.len() - 1] != wild());
        assert(res == segs_match(ts, ps));
    }
    res
}

/// A dynamically typed event payload, shared by reference count between the
/// publisher and every subscriber. What it holds is opaque to the verifier
/// and reachable only through [`EventPayload::downcast`].
#[verifier::external_body]
pub struct EventPayload {
    inner: std::sync::Arc<dyn core::any::Any + Send + Sync>,
}

impl EventPayload {
    /// Relies on `Arc::new` of std: wraps a value as a shared payload.
    #[verifier::external_body]
    pub fn new<T: core::any::Any + Send + Sync>(data: T) -> EventPayload {
        EventPayload { inner: std::sync::Arc::new(data) }
    }

    /// Relies on `Arc::downcast` of std: hands back the payload as `Some`
    /// shared value of the requested type exactly when that is the type it
    /// was built with, and `None` otherwise.
    #[verifier::external_body]
    pub fn downcast<T: core::any::Any + Send + Sync>(&self) -> Option<std::sync::Arc<T>> {
        std::sync::Arc::downcast(self.inner.clone()).ok()
    }
}

impl Clone for EventPayload {
    /// Relies on `Arc::clone` of std: the copy shares the same payload value.
    #[verifier::external_body]
    fn clone(&self) -> (r: Self)
        ensures
            r == *self,
    {
        EventPayload { inner: self.inner.clone() }
    }
}

/// An event: a topic naming its subject and a shared payload.
#[derive(Clone)]
pub struct Event {
    pub topic: String,
    pub payload: EventPayload,
}

impl Event {
    /// Build an event on `topic` carrying `data`.
    pub fn new<T: core::any::Any + Send + Sync>(topic: String, data: T) -> (r: Event)
        ensures
            r.topic@ == topic@,
    {
        Event { topic, payload: EventPayload::new(data) }
    }
}

/// A change of the checked-out git branch, published on the bus.
#[derive(Debug, Clone)]
pub struct GitBranchChange {
    pub from: String,
    pub to: String,
    pub repo_path: String,
}

#[verifier::external_type_specification]
#[verifier::external_body]
#[verifier::reject_recursive_types(T)]
pub struct ExSender<T>(crossbeam::channel::Sender<T>);

#[verifier::external_type_specification]
#[verifier::external_body]
#[verifier::reject_recursive_types(T)]
pub struct ExReceiver<T>(crossbeam::channel::Receiver<T>);

/// Relies on crossbeam's `unbounded`: a connected channel pair whose sending
/// half never blocks.
#[verifier::external_body]
fn channel_pair() -> (crossbeam::channel::Sender<Event>, crossbeam::channel::Receiver<Event>) {
    crossbeam::channel::unbounded()
}

/// Relies on crossbeam's `Sender::send`: hands a copy of the event to the
/// channel; the only failure is a dropped receiving end, which delivery
/// treats as "subscriber gone" and ignores.
#[verifier::external_body]
fn send_event(tx: &crossbeam::channel::Sender<Event>, event: &Event) {
    let _ = tx.send(event.clone());
}

/// One live subscription in the bus table.
struct Subscriber {
    id: u64,
    pattern: String,
    sender: crossbeam::channel::Sender<Event>,
}

/// Capability token for one subscription. Delivery to its receiving end
/// continues exactly until the token is handed back to
/// [`EventBus::unsubscribe`].
pub struct Subscription {
    id: u64,
}

impl Subscription {
    /// The identity of this subscription in the bus table.
    pub closed spec fn id(&self) -> u64 {
        self.id
    }
}

/// The event bus: a table of live subscriptions, each a pattern and the
/// sending half of that subscriber's queue. Publishing walks the table and
/// delivers to every matching entry.
pub struct EventBus {
    subscribers: Vec<Subscriber>,
    next_id: u64,
}

impl EventBus {
    /// The live subscriptions, each as its identity and pattern, in
    /// subscription order.
    pub closed spec fn subscriptions(&self) -> Seq<(u64, Seq<char>)> {
        self.subscribers@.map_values(|s: Subscriber| (s.id, s.pattern@))
    }

    /// How many more subscriptions this bus can still hand out before its
    /// identity counter is exhausted.
    pub closed spec fn sub_budget(&self) -> int {
        u64::MAX - self.next_id
    }

    /// Well-formed bus: every identity is below the counter, and no two
    /// entries share one.
    pub closed spec fn wf(&self) -> bool {
        &&& (forall|j: int|
            0 <= j < self.subscribers@.len() ==> #[trigger] self.subscribers@[j].id
                < self.next_id)
        &&& (forall|j: int, k: int|
            0 <= j < k < self.subscribers@.len() ==> self.subscribers@[j].id
                != self.subscribers@[k].id)
    }

    /// A fresh bus with no subscriptions.
    pub fn new() -> (r: EventBus)
        ensures
            r.wf(),
            r.subscriptions() == Seq::<(u64, Seq<char>)>::empty(),
            r.sub_budget() == u64::MAX,
    {
        let r = EventBus { subscribers: Vec::new(), next_id: 0 };
        proof {
            assert(r.subscriptions() =~= Seq::<(u64, Seq<char>)>::empty());
        }
        r
    }

    /// Whether a topic string matches a pattern string (`*` as the final
    /// pattern segment matches every remaining topic segment).
    pub fn topic_matches(topic: &str, pattern: &str) -> (r: bool)
        ensures
            r == topic_matches_spec(topic@, pattern@),
    {
        topic_matches(topic, pattern)
    }

    /// Subscribe to every topic matching `pattern`: appends a fresh entry to
    /// the table and returns the capability token together with the
    /// receiving end of the new subscriber queue.
    pub fn subscribe(&mut self, pattern: String) -> (r: (
        Subscription,
        crossbeam::channel::Receiver<Event>,
    ))
        requires
            old(self).wf(),
            old(self).sub_budget() > 0,
        ensures
            final(self).wf(),
            final(self).sub_budget() == old(self).sub_budget() - 1,
            final(self).subscriptions() == old(self).subscriptions().push((r.0.id(), pattern@)),
            forall|j: int|
                0 <= j < old(self).subscriptions().len() ==> (#[trigger] old(
                    self,
                ).subscriptions()[j]).0 != r.0.id(),
    {
        let (tx, rx) = channel_pair();
        let id = self.next_id;
        self.next_id = self.next_id + 1;
        self.subscribers.push(Subscriber { id, pattern, sender: tx });
        proof {
            assert(final(self).subscriptions() =~= old(self).subscriptions().push(
                (id, final(self).subscribers@.last().pattern@),
            ));
        }
        (Subscription { id }, rx)
    }

    /// Drop a subscription: removes its entry from the table (closing the
    /// subscriber queue's sending half), so no later publish reaches it.
    /// Handing back a token that the table no longer holds changes nothing.
    pub fn unsubscribe(&mut self, sub: Subscription)
        requires
            old(self).wf(),
        ensures
            final(self).wf(),
            final(self).sub_budget() == old(self).sub_budget(),
            (forall|j: int|
                0 <= j < old(self).subscriptions().len() ==> (#[trigger] old(
                    self,
                ).subscriptions()[j]).0 != sub.id()) ==> final(self).subscriptions() == old(
                self,
            ).subscriptions(),
            forall|k: int|
                0 <= k < old(self).subscriptions().len() && (#[trigger] old(
                    self,
                ).subscriptions()[k]).0 == sub.id() ==> final(self).subscriptions() == old(
                self,
            ).subscriptions().remove(k),
    {
        let n = self.subscribers.len();
        let mut i: usize = 0;
        while i < n
            invariant
                old(self).wf(),
                n == self.subscribers@.len(),
                i <= n,
                *self == *old(self),
                forall|j: int| 0 <= j < i ==> (#[trigger] self.subscribers@[j].id) != sub.id,
            decreases n - i,
        {
            if self.subscribers[i].id == sub.id {
                self.subscribers.remove(i);
                proof {
                    assert((old(self).subscriptions()[i as int]).0 == sub.id());
                    assert(final(self).subscriptions() =~= old(self).subscriptions().remove(
                        i as int,
                    ));
                    assert forall|k: int|
                        0 <= k < old(self).subscriptions().len() && (#[trigger] old(
                            self,
                        ).subscriptions()[k]).0 == sub.id() implies final(self).subscriptions()
                        == old(self).subscriptions().remove(k) by {
                        assert(old(self).subscribers@[k].id == old(self).subscribers@[i as int].id);
                        assert(k == i as int);
                    }
                }
                return ;
            }
            i = i + 1;
        }
    }

    /// Publish an event: hands a copy to the queue of every subscription
    /// whose pattern matches the event's topic, in table order. A subscriber
    /// whose receiving end is gone is skipped silently; the table itself is
    /// untouched.
    pub fn publish(&self, event: Event) {
        let n = self.subscribers.len();
        let mut i: usize = 0;
        while i < n
            invariant
                n == self.subscribers@.len(),
            decreases n - i,
        {
            if topic_matches(event.topic.as_str(), self.subscribers[i].pattern.as_str()) {
                send_event(&self.subscribers[i].sender, &event);
            }
            i = i + 1;
        }
    }
}

/// The segments of a string joined back together with dots.
pub open spec fn dotted(segs: Seq<Seq<char>>) -> Seq<char>
    decreases segs.len(),
{
    if segs.len() == 0 {
        Seq::empty()
    } else if segs.len() == 1 {
        segs[0]
    } else {
        segs[0] + seq!['.'] + dotted(segs.skip(1))
    }
}

/// Splitting and rejoining gives the original string back.
pub proof fn lemma_split_join(s: Seq<char>, i: int)
    requires
        0 <= i <= s.len(),
    ensures
        dotted(split_from(s, i)) == s.subrange(i, s.len() as int),
    decreases s.len() - i,
{
    lemma_seg_end_props(s, i);
    let e = seg_end(s, i);
    if e >= s.len() {
    } else {
        lemma_split_join(s, e + 1);
        let rest = split_from(s, e + 1);
        lemma_split_nonempty(s, e + 1);
        let whole = seq![s.subrange(i, e)] + rest;
        assert(whole.skip(1) =~= rest);
        assert(dotted(whole) == s.subrange(i, e) + seq!['.'] + dotted(rest));
        assert(s.subrange(i, e) + seq!['.'] + s.subrange(e + 1, s.len() as int) =~= s.subrange(
            i,
            s.len() as int,
        ));
    }
}

/// Two strings with the same segments are the same string.
pub proof fn lemma_segments_injective(a: Seq<char>, b: Seq<char>)
    requires
        segments_of(a) == segments_of(b),
    ensures
        a == b,
{
    lemma_split_join(a, 0);
    lemma_split_join(b, 0);
    assert(a.subrange(0, a.len() as int) =~= a);
    assert(b.subrange(0, b.len() as int) =~= b);
}

/// For a pattern whose only wildcard segment, if any, is its final one, a
/// topic matches exactly when it equals the pattern outright, or the
/// pattern ends in `*`, has no more segments than the topic, and every
/// pattern segment before the `*` equals the topic segment at its position.
/// (The final `*` must cover at least one topic segment: `system.*` does
/// not match the bare topic `system`.)
pub proof fn lemma_topic_match_characterization(topic: Seq<char>, pattern: Seq<char>)
    requires
        forall|i: int|
            0 <= i < segments_of(pattern).len() - 1 ==> segments_of(pattern)[i] != wild(),
    ensures
        topic_matches_spec(topic, pattern) <==> (topic == pattern || {
            let t = segments_of(topic);
            let p = segments_of(pattern);
            &&& p[p.len() - 1] == wild()
            &&& p.len() <= t.len()
            &&& (forall|i: int| 0 <= i < p.len() - 1 ==> p[i] == t[i])
        }),
{
    let t = segments_of(topic);
    let p = segments_of(pattern);
    lemma_split_nonempty(topic, 0);
    lemma_split_nonempty(pattern, 0);
    if topic_matches_spec(topic, pattern) {
        if p[p.len() - 1] == wild() {
            assert forall|i: int| 0 <= i < p.len() - 1 implies p[i] == t[i] by {
                assert(seg_ok(t, p, i));
            }
        } else {
            assert(t.len() == p.len());
            assert forall|i: int| 0 <= i < p.len() implies p[i] == t[i] by {
                if i < p.len() - 1 {
                    assert(seg_ok(t, p, i));
                } else {
                    assert(seg_ok(t, p, p.len() - 1));
                }
            }
            assert(t =~= p);
            lemma_segments_injective(topic, pattern);
        }
    }
    if topic == pattern {
        assert(t == p);
        assert(forall|i: int| 0 <= i < p.len() - 1 ==> #[trigger] seg_ok(t, p, i));
        assert(seg_ok(t, p, p.len() - 1));
        assert(segs_match(t, p));
    }
    if p[p.len() - 1] == wild() && p.len() <= t.len() && (forall|i: int|
        0 <= i < p.len() - 1 ==> p[i] == t[i]) {
        assert(forall|i: int| 0 <= i < p.len() - 1 ==> #[trigger] seg_ok(t, p, i));
        assert(segs_match(t, p));
    }
}

/// Dropping a subscription stops delivery at the table: when a bus with
/// distinct identities removes the entry at `k`, no remaining entry carries
/// that identity, so no later publish can select the dropped subscriber's
/// queue. (Delivery before the drop sits in the queue and stays readable.)
pub proof fn lemma_removed_subscription_is_gone(entries: Seq<(u64, Seq<char>)>, k: int)
    requires
        0 <= k < entries.len(),
        forall|i: int, j: int| 0 <= i < j < entries.len() ==> entries[i].0 != entries[j].0,
    ensures
        forall|j: int|
            0 <= j < entries.remove(k).len() ==> (#[trigger] entries.remove(k)[j]).0
                != entries[k].0,
{
    assert forall|j: int|
        0 <= j < entries.remove(k).len() implies (#[trigger] entries.remove(k)[j]).0
        != entries[k].0 by {
        if j < k {
            assert(entries.remove(k)[j] == entries[j]);
        } else {
            assert(entries.remove(k)[j] == entries[j + 1]);
        }
    }
}

} // verus!
