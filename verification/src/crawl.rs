//! The crawl engine: transitive resolution of a seed list of vendor-index
//! URLs into a deduplicated list of package references. The caller fetches
//! each URL the crawler hands out and reports the outcome; a failed URL is
//! retried up to three times, a fetched one never again.

use vstd::prelude::*;

use crate::pack_index::{PdscRef, PdscRefV, Vidx};

verus! {

/// Views of string lists and count tables.
pub open spec fn sv(v: Seq<String>) -> Seq<Seq<char>> {
    v.map_values(|s: String| s@)
}

pub open spec fn kv(v: Seq<(String, u64)>) -> Seq<(Seq<char>, u64)> {
    v.map_values(|p: (String, u64)| (p.0@, p.1))
}

pub open spec fn in_seq(s: Seq<Seq<char>>, x: Seq<char>) -> bool {
    exists|i: int| 0 <= i < s.len() && s[i] == x
}

pub open spec fn distinct(s: Seq<Seq<char>>) -> bool {
    forall|i: int, j: int| 0 <= i < j < s.len() ==> s[i] != s[j]
}

/// The keys of a count table.
pub open spec fn keys_of(ks: Seq<(Seq<char>, u64)>) -> Seq<Seq<char>> {
    ks.map_values(|p: (Seq<char>, u64)| p.0)
}

/// The number of failures recorded for a URL, zero when unknown.
pub open spec fn count_of(ks: Seq<(Seq<char>, u64)>, u: Seq<char>) -> u64
    decreases ks.len(),
{
    if ks.len() == 0 {
        0
    } else if ks[0].0 == u {
        ks[0].1
    } else {
        count_of(ks.drop_first(), u)
    }
}

/// The total number of failures recorded.
pub open spec fn sum_counts(ks: Seq<(Seq<char>, u64)>) -> int
    decreases ks.len(),
{
    if ks.len() == 0 {
        0
    } else {
        sum_counts(ks.drop_first()) + ks[0].1
    }
}

/// The list with later repetitions of a URL removed.
pub open spec fn spec_dedup(s: Seq<Seq<char>>) -> Seq<Seq<char>>
    decreases s.len(),
{
    if s.len() == 0 {
        Seq::empty()
    } else {
        let rest = spec_dedup(s.drop_last());
        if in_seq(rest, s.last()) {
            rest
        } else {
            rest.push(s.last())
        }
    }
}

proof fn lemma_dedup_distinct(s: Seq<Seq<char>>)
    ensures
        distinct(spec_dedup(s)),
    decreases s.len(),
{
    if s.len() > 0 {
        lemma_dedup_distinct(s.drop_last());
    }
}

/// The crawler's state: a work queue, the URL handed out and not yet
/// reported, the fetched URLs, a failure-count table of every URL ever
/// seen, and the package references collected so far.
pub struct Crawler {
    pub queue: Vec<String>,
    pub in_flight: Option<String>,
    pub fetched: Vec<String>,
    pub known: Vec<(String, u64)>,
    pub pdscs: Vec<PdscRef>,
    /// Every URL handed out, in order.
    pub issued: Ghost<Seq<Seq<char>>>,
    /// The seed list the crawl started from.
    pub seeds: Ghost<Seq<Seq<char>>>,
}

impl Crawler {
    /// The URLs waiting or in flight.
    pub open spec fn pending(self) -> Seq<Seq<char>> {
        match self.in_flight {
            Some(u) => seq![u@] + sv(self.queue@),
            None => sv(self.queue@),
        }
    }

    /// The crawler's invariant.
    pub open spec fn inv(self) -> bool {
        &&& distinct(keys_of(kv(self.known@)))
        &&& distinct(self.pending())
        &&& distinct(sv(self.fetched@))
        // every pending or fetched URL is known
        &&& forall|u: Seq<char>| in_seq(self.pending(), u) ==> in_seq(
            keys_of(kv(self.known@)),
            u,
        )
        &&& forall|u: Seq<char>| in_seq(sv(self.fetched@), u) ==> in_seq(
            keys_of(kv(self.known@)),
            u,
        )
        // nothing pending was fetched
        &&& forall|u: Seq<char>| in_seq(self.pending(), u) ==> !in_seq(sv(self.fetched@), u)
        // failure counts: at most two for pending URLs, at most three ever,
        // and exactly three for a known URL that is neither pending nor
        // fetched
        &&& forall|u: Seq<char>|
            in_seq(self.pending(), u) ==> count_of(kv(self.known@), u) <= 2
        &&& forall|i: int|
            0 <= i < kv(self.known@).len() ==> (#[trigger] kv(self.known@)[i].1) <= 3
        &&& forall|i: int|
            0 <= i < kv(self.known@).len() && !in_seq(self.pending(), kv(self.known@)[i].0)
                && !in_seq(sv(self.fetched@), (#[trigger] kv(self.known@)[i]).0) ==> kv(
                self.known@,
            )[i].1 == 3
        // the issue count splits into failures, successes, and the one in
        // flight
        &&& self.issued@.len() == sum_counts(kv(self.known@)) + sv(self.fetched@).len() + (
        match self.in_flight {
            Some(_) => 1int,
            None => 0int,
        })
        // while nothing succeeded, the known URLs are the deduplicated seeds
        &&& (sv(self.fetched@).len() == 0 ==> keys_of(kv(self.known@)) == spec_dedup(
            self.seeds@,
        ))
    }

    /// Whether the crawl is over: nothing queued and nothing in flight.
    pub open spec fn spec_done(self) -> bool {
        self.queue@.len() == 0 && self.in_flight is None
    }

    pub fn done(&self) -> (r: bool)
        ensures
            r == self.spec_done(),
    {
        self.queue.len() == 0 && match self.in_flight {
            Some(_) => false,
            None => true,
        }
    }
}

/// Whether the list holds the string.
fn contains_str(v: &Vec<String>, x: &str) -> (r: bool)
    ensures
        r == in_seq(sv(v@), x@),
{
    let n = v.len();
    let mut i: usize = 0;
    while i < n
        invariant
            0 <= i <= n == v@.len(),
            forall|j: int| 0 <= j < i ==> sv(v@)[j] != x@,
        decreases n - i,
    {
        if crate::numbers::str_eq(v[i].as_str(), x) {
            assert(sv(v@)[i as int] == x@);
            return true;
        }
        i = i + 1;
    }
    false
}

/// Whether the count table knows the URL.
fn known_has(v: &Vec<(String, u64)>, x: &str) -> (r: bool)
    ensures
        r == in_seq(keys_of(kv(v@)), x@),
{
    let n = v.len();
    let mut i: usize = 0;
    while i < n
        invariant
            0 <= i <= n == v@.len(),
            forall|j: int| 0 <= j < i ==> keys_of(kv(v@))[j] != x@,
        decreases n - i,
    {
        if crate::numbers::str_eq(v[i].0.as_str(), x) {
            assert(keys_of(kv(v@))[i as int] == x@);
            return true;
        }
        i = i + 1;
    }
    false
}

impl Crawler {
    /// Starts a crawl from a seed list; repeated seed URLs are dropped, so
    /// each unique URL is worked on once.
    pub fn new(seeds: Vec<String>) -> (r: Crawler)
        ensures
            r.inv(),
            r.seeds@ == sv(seeds@),
            r.issued@ == Seq::<Seq<char>>::empty(),
            sv(r.fetched@).len() == 0,
            r.pdscs@.len() == 0,
            sv(r.queue@) == spec_dedup(sv(seeds@)),
    {
        let n = seeds.len();
        let mut queue: Vec<String> = Vec::new();
        let mut known: Vec<(String, u64)> = Vec::new();
        let mut i: usize = 0;
        proof {
            assert(sv(seeds@).subrange(0, 0) =~= Seq::<Seq<char>>::empty());
            assert(sv(queue@) =~= Seq::<Seq<char>>::empty());
            assert(spec_dedup(Seq::<Seq<char>>::empty()) =~= Seq::<Seq<char>>::empty());
        }
        while i < n
            invariant
                0 <= i <= n == seeds@.len(),
                sv(queue@) == spec_dedup(sv(seeds@).subrange(0, i as int)),
                keys_of(kv(known@)) == sv(queue@),
                forall|j: int| 0 <= j < kv(known@).len() ==> (#[trigger] kv(known@)[j]).1 == 0,
            decreases n - i,
        {
            let u = seeds[i].clone();
            proof {
                let pref = sv(seeds@).subrange(0, i as int + 1);
                assert(pref.drop_last() =~= sv(seeds@).subrange(0, i as int));
                assert(pref.last() == sv(seeds@)[i as int]);
            }
            if !contains_str(&queue, u.as_str()) {
                let u2 = u.clone();
                let ghost k0 = known@;
                queue.push(u);
                known.push((u2, 0));
                proof {
                    assert(sv(queue@) =~= spec_dedup(sv(seeds@).subrange(0, i as int)).push(
                        sv(seeds@)[i as int],
                    ));
                    assert(keys_of(kv(known@)) =~= sv(queue@));
                    assert forall|j: int|
                        0 <= j < kv(known@).len() implies (#[trigger] kv(known@)[j]).1 == 0 by {
                        if j < k0.len() {
                            assert(known@[j] == k0[j]);
                            assert(kv(k0)[j].1 == 0);
                        } else {
                            assert(known@[j].1 == 0);
                        }
                    }
                }
            }
            i = i + 1;
        }
        proof {
            assert(sv(seeds@).subrange(0, n as int) =~= sv(seeds@));
        }
        let r = Crawler {
            queue,
            in_flight: None,
            fetched: Vec::new(),
            known,
            pdscs: Vec::new(),
            issued: Ghost(Seq::empty()),
            seeds: Ghost(sv(seeds@)),
        };
        proof {
            lemma_dedup_distinct(sv(seeds@));
            assert(r.pending() =~= sv(r.queue@));
            assert(sv(r.fetched@) =~= Seq::<Seq<char>>::empty());
            lemma_sum_zero(kv(r.known@));
            assert forall|u: Seq<char>|
                in_seq(r.pending(), u) implies count_of(kv(r.known@), u) <= 2 by {
                lemma_count_all_zero(kv(r.known@), u);
            }
            assert forall|i2: int|
                0 <= i2 < kv(r.known@).len() implies in_seq(
                r.pending(),
                (#[trigger] kv(r.known@)[i2]).0,
            ) by {
                assert(keys_of(kv(r.known@))[i2] == kv(r.known@)[i2].0);
            }
        }
        r
    }

    /// Hands the next URL to fetch out, if any; each call issues one fetch
    /// attempt, and never one for a URL that was already fetched.
    pub fn next_url(&mut self) -> (r: Option<String>)
        requires
            old(self).inv(),
            old(self).in_flight is None,
        ensures
            final(self).inv(),
            final(self).seeds@ == old(self).seeds@,
            final(self).pdscs@ == old(self).pdscs@,
            final(self).fetched@ == old(self).fetched@,
            match r {
                Some(u) => sv(old(self).queue@).len() > 0 && u@ == sv(old(self).queue@)[0]
                    && !in_seq(sv(old(self).fetched@), u@) && final(self).issued@ == old(
                    self,
                ).issued@.push(u@) && final(self).in_flight == Some(u),
                None => old(self).spec_done() && *final(self) == *old(self),
            },
    {
        if self.queue.len() == 0 {
            return None;
        }
        let u = self.queue.remove(0);
        let out = u.clone();
        proof {
            assert(sv(old(self).queue@)[0] == u@);
            assert(in_seq(old(self).pending(), u@));
        }
        self.in_flight = Some(u);
        proof {
            self.issued@ = self.issued@.push(out@);
        }
        proof {
            assert(sv(self.queue@) =~= sv(old(self).queue@).drop_first());
            assert(self.pending() =~= old(self).pending());
            assert(self.issued@.len() == old(self).issued@.len() + 1);
        }
        Some(out)
    }
}

proof fn lemma_count_all_zero(ks: Seq<(Seq<char>, u64)>, u: Seq<char>)
    requires
        forall|j: int| 0 <= j < ks.len() ==> (#[trigger] ks[j]).1 == 0,
    ensures
        count_of(ks, u) == 0,
    decreases ks.len(),
{
    if ks.len() > 0 {
        lemma_count_all_zero(ks.drop_first(), u);
    }
}

proof fn lemma_sum_zero(ks: Seq<(Seq<char>, u64)>)
    requires
        forall|j: int| 0 <= j < ks.len() ==> (#[trigger] ks[j]).1 == 0,
    ensures
        sum_counts(ks) == 0,
    decreases ks.len(),
{
    if ks.len() > 0 {
        lemma_sum_zero(ks.drop_first());
    }
}

} // verus!

verus! {

pub proof fn lemma_count_of_at(ks: Seq<(Seq<char>, u64)>, u: Seq<char>, i: int)
    requires
        0 <= i < ks.len(),
        ks[i].0 == u,
        forall|j: int| 0 <= j < i ==> ks[j].0 != u,
    ensures
        count_of(ks, u) == ks[i].1,
    decreases i,
{
    if i > 0 {
        lemma_count_of_at(ks.drop_first(), u, i - 1);
    }
}

pub proof fn lemma_count_of_update_other(ks: Seq<(Seq<char>, u64)>, i: int, c: u64, u: Seq<char>)
    requires
        0 <= i < ks.len(),
        u != ks[i].0,
    ensures
        count_of(ks.update(i, (ks[i].0, c)), u) == count_of(ks, u),
    decreases i,
{
    let ks2 = ks.update(i, (ks[i].0, c));
    if i == 0 {
        assert(ks2.drop_first() =~= ks.drop_first());
    } else {
        assert(ks2.drop_first() =~= ks.drop_first().update(i - 1, (ks.drop_first()[i - 1].0, c)));
        lemma_count_of_update_other(ks.drop_first(), i - 1, c, u);
    }
}

pub proof fn lemma_sum_update(ks: Seq<(Seq<char>, u64)>, i: int, c: u64)
    requires
        0 <= i < ks.len(),
    ensures
        sum_counts(ks.update(i, (ks[i].0, c))) == sum_counts(ks) - ks[i].1 + c,
    decreases i,
{
    let ks2 = ks.update(i, (ks[i].0, c));
    if i == 0 {
        assert(ks2.drop_first() =~= ks.drop_first());
    } else {
        assert(ks2.drop_first() =~= ks.drop_first().update(i - 1, (ks.drop_first()[i - 1].0, c)));
        lemma_sum_update(ks.drop_first(), i - 1, c);
    }
}

pub proof fn lemma_sum_push_zero(ks: Seq<(Seq<char>, u64)>, u: Seq<char>)
    ensures
        sum_counts(ks.push((u, 0))) == sum_counts(ks),
    decreases ks.len(),
{
    reveal_with_fuel(sum_counts, 3);
    if ks.len() == 0 {
        assert(ks.push((u, 0)).drop_first() =~= Seq::<(Seq<char>, u64)>::empty());
    } else {
        assert(ks.push((u, 0)).drop_first() =~= ks.drop_first().push((u, 0)));
        lemma_sum_push_zero(ks.drop_first(), u);
    }
}

proof fn lemma_sum_all_three(ks: Seq<(Seq<char>, u64)>)
    requires
        forall|j: int| 0 <= j < ks.len() ==> (#[trigger] ks[j]).1 == 3,
    ensures
        sum_counts(ks) == 3 * ks.len(),
    decreases ks.len(),
{
    if ks.len() > 0 {
        lemma_sum_all_three(ks.drop_first());
    }
}

} // verus!

verus! {

/// Enqueueing the vendor-index URLs a fetched index names: each URL not
/// yet known is recorded with a zero failure count and queued.
pub open spec fn spec_enqueue(
    known: Seq<(Seq<char>, u64)>,
    queue: Seq<Seq<char>>,
    ps: Seq<crate::pack_index::PidxV>,
) -> (Seq<(Seq<char>, u64)>, Seq<Seq<char>>)
    decreases ps.len(),
{
    if ps.len() == 0 {
        (known, queue)
    } else {
        let u = crate::pack_index::spec_pidx_url(ps[0]);
        if in_seq(keys_of(known), u) {
            spec_enqueue(known, queue, ps.drop_first())
        } else {
            spec_enqueue(known.push((u, 0)), queue.push(u), ps.drop_first())
        }
    }
}

pub proof fn lemma_count_of_push(ks: Seq<(Seq<char>, u64)>, u: Seq<char>, c: u64, w: Seq<char>)
    ensures
        in_seq(keys_of(ks), w) ==> count_of(ks.push((u, c)), w) == count_of(ks, w),
        !in_seq(keys_of(ks), w) && w == u ==> count_of(ks.push((u, c)), w) == c,
        !in_seq(keys_of(ks), w) && w != u ==> count_of(ks.push((u, c)), w) == 0,
    decreases ks.len(),
{
    reveal_with_fuel(count_of, 3);
    if ks.len() == 0 {
        assert(ks.push((u, c)).drop_first() =~= Seq::<(Seq<char>, u64)>::empty());
    } else {
        assert(ks.push((u, c)).drop_first() =~= ks.drop_first().push((u, c)));
        lemma_count_of_push(ks.drop_first(), u, c, w);
        assert(in_seq(keys_of(ks), w) <==> (ks[0].0 == w || in_seq(
            keys_of(ks.drop_first()),
            w,
        ))) by {
            if in_seq(keys_of(ks), w) {
                let ix = choose|ix: int| 0 <= ix < keys_of(ks).len() && keys_of(ks)[ix] == w;
                if ix > 0 {
                    assert(keys_of(ks.drop_first())[ix - 1] == w);
                }
            }
            if in_seq(keys_of(ks.drop_first()), w) {
                let ix = choose|ix: int|
                    0 <= ix < keys_of(ks.drop_first()).len() && keys_of(ks.drop_first())[ix] == w;
                assert(keys_of(ks)[ix + 1] == w);
            }
            if ks[0].0 == w {
                assert(keys_of(ks)[0] == w);
            }
        }
    }
}

} // verus!

verus! {

impl Crawler {
    /// Records one newly discovered vendor-index URL.
    fn enqueue_new(&mut self, u2: String)
        requires
            old(self).inv(),
            old(self).in_flight is None,
            sv(old(self).fetched@).len() > 0,
            !in_seq(keys_of(kv(old(self).known@)), u2@),
        ensures
            final(self).inv(),
            final(self).in_flight is None,
            final(self).fetched == old(self).fetched,
            final(self).pdscs == old(self).pdscs,
            final(self).issued@ == old(self).issued@,
            final(self).seeds@ == old(self).seeds@,
            kv(final(self).known@) == kv(old(self).known@).push((u2@, 0)),
            sv(final(self).queue@) == sv(old(self).queue@).push(u2@),
    {
        let ghost uv = u2@;
        let ghost k0 = kv(self.known@);
        let ghost q0 = sv(self.queue@);
        let ghost f0 = sv(self.fetched@);
        let u3 = u2.clone();
        self.known.push((u2, 0));
        self.queue.push(u3);
        proof {
            let k1 = kv(self.known@);
            let q1 = sv(self.queue@);
            assert(k1 =~= k0.push((uv, 0u64)));
            assert(q1 =~= q0.push(uv));
            assert(keys_of(k1) =~= keys_of(k0).push(uv));
            assert(old(self).pending() =~= q0);
            assert(self.pending() =~= q1);
            // membership carries over a push
            assert forall|w: Seq<char>| in_seq(q0, w) implies in_seq(q1, w) by {
                let ix = choose|ix: int| 0 <= ix < q0.len() && q0[ix] == w;
                assert(q1[ix] == w);
            }
            assert forall|w: Seq<char>| in_seq(keys_of(k0), w) implies in_seq(
                keys_of(k1),
                w,
            ) by {
                let ix = choose|ix: int| 0 <= ix < keys_of(k0).len() && keys_of(k0)[ix] == w;
                assert(keys_of(k1)[ix] == w);
            }
            assert(in_seq(keys_of(k1), uv)) by {
                assert(keys_of(k1)[keys_of(k1).len() - 1] == uv);
            }
            assert(in_seq(q1, uv)) by {
                assert(q1[q1.len() - 1] == uv);
            }
            // the new URL was neither queued nor fetched
            assert(!in_seq(q0, uv)) by {
                if in_seq(q0, uv) {
                    assert(in_seq(keys_of(k0), uv));
                }
            }
            assert(!in_seq(f0, uv)) by {
                if in_seq(f0, uv) {
                    assert(in_seq(keys_of(k0), uv));
                }
            }
            // distinctness
            assert forall|ix: int, jx: int|
                0 <= ix < jx < q1.len() implies q1[ix] != q1[jx] by {
                if jx == q1.len() - 1 {
                    if q1[ix] == uv {
                        assert(q0[ix] == uv);
                        assert(in_seq(q0, uv));
                    }
                }
            }
            assert forall|ix: int, jx: int|
                0 <= ix < jx < keys_of(k1).len() implies keys_of(k1)[ix] != keys_of(k1)[jx] by {
                if jx == keys_of(k1).len() - 1 {
                    if keys_of(k1)[ix] == uv {
                        assert(keys_of(k0)[ix] == uv);
                        assert(in_seq(keys_of(k0), uv));
                    }
                }
            }
            // pending URLs are known
            assert forall|w: Seq<char>| in_seq(q1, w) implies in_seq(keys_of(k1), w) by {
                let ix = choose|ix: int| 0 <= ix < q1.len() && q1[ix] == w;
                if ix < q0.len() {
                    assert(in_seq(q0, w));
                }
            }
            // fetched URLs are known, and pending ones were not fetched
            assert forall|w: Seq<char>| in_seq(f0, w) implies in_seq(keys_of(k1), w) by {
                assert(in_seq(keys_of(k0), w));
            }
            assert forall|w: Seq<char>| in_seq(q1, w) implies !in_seq(f0, w) by {
                let ix = choose|ix: int| 0 <= ix < q1.len() && q1[ix] == w;
                if ix < q0.len() {
                    assert(in_seq(q0, w));
                }
            }
            // counts
            assert forall|w: Seq<char>| in_seq(q1, w) implies count_of(k1, w) <= 2 by {
                lemma_count_of_push(k0, uv, 0, w);
                let ix = choose|ix: int| 0 <= ix < q1.len() && q1[ix] == w;
                if ix < q0.len() {
                    assert(in_seq(q0, w));
                    assert(in_seq(keys_of(k0), w));
                }
            }
            assert forall|ix: int|
                0 <= ix < k1.len() implies (#[trigger] k1[ix].1) <= 3 by {
                if ix < k0.len() {
                    assert(k1[ix] == k0[ix]);
                }
            }
            assert forall|ix: int|
                0 <= ix < k1.len() && !in_seq(self.pending(), k1[ix].0) && !in_seq(
                    f0,
                    (#[trigger] k1[ix]).0,
                ) implies k1[ix].1 == 3 by {
                if ix < k0.len() {
                    assert(k1[ix] == k0[ix]);
                    if in_seq(q0, k0[ix].0) {
                        assert(in_seq(q1, k0[ix].0));
                    }
                } else {
                    assert(k1[ix].0 == uv);
                    assert(in_seq(q1, uv));
                }
            }
            lemma_sum_push_zero(k0, uv);
        }
    }

    /// Reports that the URL in flight was fetched and parsed: the crawler
    /// records its package references and enqueues every vendor-index URL
    /// the index names that it has not seen before.
    pub fn report_success(&mut self, vidx: &Vidx)
        requires
            old(self).inv(),
            old(self).in_flight is Some,
        ensures
            final(self).inv(),
            final(self).in_flight is None,
            final(self).seeds@ == old(self).seeds@,
            final(self).issued@ == old(self).issued@,
            sv(final(self).fetched@) == sv(old(self).fetched@).push(
                old(self).in_flight.unwrap()@,
            ),
            final(self).pdscs@.map_values(|p: PdscRef| p@) == old(self).pdscs@.map_values(
                |p: PdscRef| p@,
            ) + vidx@.pdsc_index,
            (kv(final(self).known@), sv(final(self).queue@)) == spec_enqueue(
                kv(old(self).known@),
                sv(old(self).queue@),
                vidx@.vendor_index,
            ),
    {
        let ghost k0 = kv(self.known@);
        let ghost q0 = sv(self.queue@);
        let ghost uv = old(self).in_flight.unwrap()@;
        let u = match &self.in_flight {
            Some(s) => s.clone(),
            None => {
                proof {
                    assert(false);
                }
                String::new()
            },
        };
        self.in_flight = None;
        self.fetched.push(u);
        proof {
            let f1 = sv(self.fetched@);
            let f0 = sv(old(self).fetched@);
            assert(f1 =~= f0.push(uv));
            assert(old(self).pending() =~= seq![uv] + q0);
            assert(self.pending() =~= q0);
            assert(in_seq(old(self).pending(), uv)) by {
                assert(old(self).pending()[0] == uv);
            }
            assert(!in_seq(q0, uv)) by {
                if in_seq(q0, uv) {
                    let ix = choose|ix: int| 0 <= ix < q0.len() && q0[ix] == uv;
                    assert(old(self).pending()[ix + 1] == uv);
                    assert(old(self).pending()[0] == uv);
                    assert(false);
                }
            }
            assert(!in_seq(f0, uv));
            // fetched distinct and known
            assert forall|ix: int, jx: int|
                0 <= ix < jx < f1.len() implies f1[ix] != f1[jx] by {
                if jx == f1.len() - 1 {
                    if f1[ix] == uv {
                        assert(f0[ix] == uv);
                        assert(in_seq(f0, uv));
                    }
                }
            }
            assert forall|w: Seq<char>| in_seq(f1, w) implies in_seq(keys_of(k0), w) by {
                let ix = choose|ix: int| 0 <= ix < f1.len() && f1[ix] == w;
                if ix < f0.len() {
                    assert(in_seq(f0, w));
                } else {
                    assert(in_seq(old(self).pending(), uv));
                }
            }
            // pending URLs remain unfetched and within bounds
            assert forall|w: Seq<char>| in_seq(q0, w) implies in_seq(
                old(self).pending(),
                w,
            ) by {
                let ix = choose|ix: int| 0 <= ix < q0.len() && q0[ix] == w;
                assert(old(self).pending()[ix + 1] == w);
            }
            assert forall|w: Seq<char>| in_seq(q0, w) implies !in_seq(f1, w) by {
                assert(in_seq(old(self).pending(), w));
                if in_seq(f1, w) {
                    let ix = choose|ix: int| 0 <= ix < f1.len() && f1[ix] == w;
                    if ix < f0.len() {
                        assert(in_seq(f0, w));
                    } else {
                        let jx = choose|jx: int| 0 <= jx < q0.len() && q0[jx] == uv;
                    }
                }
            }
            assert forall|ix: int|
                0 <= ix < k0.len() && !in_seq(self.pending(), k0[ix].0) && !in_seq(
                    f1,
                    (#[trigger] k0[ix]).0,
                ) implies k0[ix].1 == 3 by {
                if !in_seq(f1, k0[ix].0) {
                    if in_seq(f0, k0[ix].0) {
                        let ix2 = choose|ix2: int| 0 <= ix2 < f0.len() && f0[ix2] == k0[ix].0;
                        assert(f1[ix2] == k0[ix].0);
                    }
                    if in_seq(old(self).pending(), k0[ix].0) {
                        let ix3 = choose|ix3: int|
                            0 <= ix3 < old(self).pending().len() && old(self).pending()[ix3] == k0[
                                ix
                            ].0;
                        if ix3 == 0 {
                            assert(k0[ix].0 == uv);
                            assert(f1[f1.len() - 1] == uv);
                        } else {
                            assert(q0[ix3 - 1] == k0[ix].0);
                        }
                    }
                }
            }
            assert forall|ix: int, jx: int|
                0 <= ix < jx < q0.len() implies q0[ix] != q0[jx] by {
                assert(old(self).pending()[ix + 1] == q0[ix]);
                assert(old(self).pending()[jx + 1] == q0[jx]);
            }
            assert forall|w: Seq<char>| in_seq(q0, w) implies in_seq(keys_of(k0), w)
                && count_of(k0, w) <= 2 by {
                assert(in_seq(old(self).pending(), w));
            }
            assert(self.inv());
        }
        // append the package references
        let ghost before_p = self.pdscs@.map_values(|p: PdscRef| p@);
        let pn = vidx.pdsc_index.len();
        let mut m: usize = 0;
        while m < pn
            invariant
                0 <= m <= pn == vidx.pdsc_index@.len(),
                self.pdscs@.map_values(|p: PdscRef| p@) == before_p + vidx@.pdsc_index.subrange(
                    0,
                    m as int,
                ),
                self.queue == old(self).queue,
                self.known == old(self).known,
                kv(self.known@) == k0,
                sv(self.queue@) == q0,
                self.inv(),
                self.in_flight is None,
                sv(self.fetched@) == sv(old(self).fetched@).push(uv),
                self.issued@ == old(self).issued@,
                self.seeds@ == old(self).seeds@,
            decreases pn - m,
        {
            let p = vidx.pdsc_index[m].clone();
            let ghost pv = p@;
            assert(pv == vidx@.pdsc_index[m as int]);
            self.pdscs.push(p);
            m = m + 1;
            proof {
                let f = |p: PdscRef| p@;
                assert(self.pdscs@.map_values(f) =~= (before_p + vidx@.pdsc_index.subrange(
                    0,
                    m - 1 as int,
                )).push(pv));
                assert(vidx@.pdsc_index.subrange(0, m as int) =~= vidx@.pdsc_index.subrange(
                    0,
                    m - 1 as int,
                ).push(pv));
                assert((before_p + vidx@.pdsc_index.subrange(0, m - 1 as int)).push(pv)
                    =~= before_p + vidx@.pdsc_index.subrange(0, m - 1 as int).push(pv));
                assert(self.pdscs@.map_values(|p: PdscRef| p@) =~= before_p
                    + vidx@.pdsc_index.subrange(0, m as int));
            }
        }
        proof {
            assert(vidx@.pdsc_index.subrange(0, pn as int) =~= vidx@.pdsc_index);
        }
        proof {
            assert(vidx@.vendor_index.skip(0) =~= vidx@.vendor_index);
        }
        let ghost fin_p = self.pdscs@;
        let ghost fin_f = self.fetched@;
        let vn = vidx.vendor_index.len();
        let mut m2: usize = 0;
        while m2 < vn
            invariant
                0 <= m2 <= vn == vidx.vendor_index@.len(),
                self.inv(),
                self.in_flight is None,
                self.pdscs@ == fin_p,
                self.fetched@ == fin_f,
                sv(self.fetched@).len() > 0,
                self.issued@ == old(self).issued@,
                self.seeds@ == old(self).seeds@,
                spec_enqueue(kv(self.known@), sv(self.queue@), vidx@.vendor_index.skip(m2 as int))
                    == spec_enqueue(k0, q0, vidx@.vendor_index),
            decreases vn - m2,
        {
            let ghost pre = vidx@.vendor_index.skip(m2 as int);
            assert(pre[0] == vidx@.vendor_index[m2 as int]);
            assert(pre.drop_first() =~= vidx@.vendor_index.skip(m2 as int + 1));
            let u2 = crate::pack_index::pidx_url(&vidx.vendor_index[m2]);
            assert(u2@ == crate::pack_index::spec_pidx_url(vidx@.vendor_index[m2 as int]));
            if !known_has(&self.known, u2.as_str()) {
                self.enqueue_new(u2);
            }
            m2 = m2 + 1;
        }
        proof {
            assert(vidx@.vendor_index.skip(vn as int) =~= Seq::<crate::pack_index::PidxV>::empty());
        }
    }
}

} // verus!

verus! {

/// The index of a URL's entry in the count table, with nothing before it
/// bearing the same key.
pub fn find_key(v: &Vec<(String, u64)>, x: &str) -> (r: Option<usize>)
    ensures
        match r {
            Some(i) => i < v@.len() && kv(v@)[i as int].0 == x@ && forall|j: int|
                0 <= j < i ==> kv(v@)[j].0 != x@,
            None => forall|j: int| 0 <= j < kv(v@).len() ==> kv(v@)[j].0 != x@,
        },
{
    let n = v.len();
    let mut i: usize = 0;
    while i < n
        invariant
            0 <= i <= n == v@.len(),
            forall|j: int| 0 <= j < i ==> kv(v@)[j].0 != x@,
        decreases n - i,
    {
        if crate::numbers::str_eq(v[i].0.as_str(), x) {
            assert(kv(v@)[i as int].0 == x@);
            return Some(i);
        }
        i = i + 1;
    }
    None
}

impl Crawler {
    /// Reports that the URL in flight failed to fetch: its failure count
    /// rises by one, and it is requeued exactly when fewer than three
    /// attempts have now been made.
    pub fn report_failure(&mut self)
        requires
            old(self).inv(),
            old(self).in_flight is Some,
        ensures
            final(self).inv(),
            final(self).in_flight is None,
            final(self).seeds@ == old(self).seeds@,
            final(self).issued@ == old(self).issued@,
            final(self).fetched == old(self).fetched,
            final(self).pdscs == old(self).pdscs,
            ({
                let u = old(self).in_flight.unwrap()@;
                let c0 = count_of(kv(old(self).known@), u);
                count_of(kv(final(self).known@), u) == c0 + 1 && (c0 + 1 < 3 ==> sv(
                    final(self).queue@,
                ) == sv(old(self).queue@).push(u)) && (c0 + 1 >= 3 ==> final(self).queue == old(
                    self,
                ).queue)
            }),
    {
        let ghost k0 = kv(self.known@);
        let ghost q0 = sv(self.queue@);
        let ghost f0 = sv(self.fetched@);
        let ghost uv = old(self).in_flight.unwrap()@;
        let u = match &self.in_flight {
            Some(s) => s.clone(),
            None => {
                proof {
                    assert(false);
                }
                String::new()
            },
        };
        self.in_flight = None;
        proof {
            assert(old(self).pending() =~= seq![uv] + q0);
            assert(in_seq(old(self).pending(), uv)) by {
                assert(old(self).pending()[0] == uv);
            }
            assert(!in_seq(q0, uv)) by {
                if in_seq(q0, uv) {
                    let ix = choose|ix: int| 0 <= ix < q0.len() && q0[ix] == uv;
                    assert(old(self).pending()[ix + 1] == uv);
                    assert(old(self).pending()[0] == uv);
                    assert(false);
                }
            }
            assert(in_seq(keys_of(k0), uv));
            assert(count_of(k0, uv) <= 2);
        }
        // find the URL's entry in the count table
        let n = self.known.len();
        let found = match find_key(&self.known, u.as_str()) {
            Some(i) => i,
            None => {
                proof {
                    let ix = choose|ix: int|
                        0 <= ix < keys_of(k0).len() && keys_of(k0)[ix] == uv;
                    assert(k0[ix].0 == uv);
                    assert(false);
                }
                0
            },
        };
        assert(found < n);
        assert(k0[found as int].0 == uv);
        assert(forall|j: int| 0 <= j < found ==> k0[j].0 != uv);
        proof {
            lemma_count_of_at(k0, uv, found as int);
        }
        let c = self.known[found].1;
        assert(c == k0[found as int].1);
        assert(c <= 2);
        let key = self.known[found].0.clone();
        let c1 = c + 1;
        self.known[found] = (key, c1);
        proof {
            assert(kv(self.known@) =~= k0.update(found as int, (uv, c1)));
            lemma_count_of_at(k0.update(found as int, (uv, c1)), uv, found as int);
            lemma_sum_update(k0, found as int, c1);
        }
        let ghost k1 = kv(self.known@);
        if c1 < 3 {
            let u2 = u;
            self.queue.push(u2);
            proof {
                assert(sv(self.queue@) =~= q0.push(uv));
            }
        }
        proof {
            let q1 = sv(self.queue@);
            assert(self.pending() =~= q1);
            // membership between the old and the new queue
            assert forall|w: Seq<char>| in_seq(q1, w) implies in_seq(
                old(self).pending(),
                w,
            ) by {
                let ix = choose|ix: int| 0 <= ix < q1.len() && q1[ix] == w;
                if ix < q0.len() {
                    assert(old(self).pending()[ix + 1] == w);
                } else {
                    assert(old(self).pending()[0] == w);
                }
            }
            assert forall|w: Seq<char>| in_seq(q0, w) implies in_seq(q1, w) by {
                let ix = choose|ix: int| 0 <= ix < q0.len() && q0[ix] == w;
                assert(q1[ix] == w);
            }
            // distinctness of the new queue
            assert forall|ix: int, jx: int|
                0 <= ix < jx < q1.len() implies q1[ix] != q1[jx] by {
                if jx < q0.len() {
                    assert(old(self).pending()[ix + 1] == q1[ix]);
                    assert(old(self).pending()[jx + 1] == q1[jx]);
                } else {
                    if q1[ix] == uv {
                        assert(in_seq(q0, uv));
                    }
                }
            }
            // keys unchanged
            assert(keys_of(k1) =~= keys_of(k0));
            assert forall|w: Seq<char>| in_seq(q1, w) implies in_seq(keys_of(k1), w) by {
                assert(in_seq(old(self).pending(), w));
                let ix = choose|ix: int|
                    0 <= ix < keys_of(k0).len() && keys_of(k0)[ix] == w;
                assert(keys_of(k1)[ix] == w);
            }
            assert forall|w: Seq<char>| in_seq(f0, w) implies in_seq(keys_of(k1), w) by {
                let ix = choose|ix: int|
                    0 <= ix < keys_of(k0).len() && keys_of(k0)[ix] == w;
                assert(keys_of(k1)[ix] == w);
            }
            assert forall|w: Seq<char>| in_seq(q1, w) implies !in_seq(f0, w) by {
                assert(in_seq(old(self).pending(), w));
            }
            // counts
            assert forall|w: Seq<char>| in_seq(q1, w) implies count_of(k1, w) <= 2 by {
                assert(in_seq(old(self).pending(), w));
                if w != uv {
                    lemma_count_of_update_other(k0, found as int, c1, w);
                }
            }
            assert forall|ix: int|
                0 <= ix < k1.len() implies (#[trigger] k1[ix].1) <= 3 by {
                if ix != found {
                    assert(k1[ix] == k0[ix]);
                }
            }
            assert forall|ix: int|
                0 <= ix < k1.len() && !in_seq(self.pending(), k1[ix].0) && !in_seq(
                    f0,
                    (#[trigger] k1[ix]).0,
                ) implies k1[ix].1 == 3 by {
                if ix == found {
                    if c1 < 3 {
                        assert(in_seq(q1, uv)) by {
                            assert(q1[q1.len() - 1] == uv);
                        }
                    }
                } else {
                    assert(k1[ix] == k0[ix]);
                    if in_seq(old(self).pending(), k0[ix].0) {
                        let ix3 = choose|ix3: int|
                            0 <= ix3 < old(self).pending().len() && old(self).pending()[ix3] == k0[
                                ix
                            ].0;
                        if ix3 == 0 {
                            assert(k0[ix].0 == uv);
                            assert(k1[ix].0 == k0[ix].0);
                            assert(keys_of(k0)[ix] == uv);
                            assert(keys_of(k0)[found as int] == uv);
                            if ix != found {
                                assert(false);
                            }
                        } else {
                            assert(q0[ix3 - 1] == k0[ix].0);
                            assert(in_seq(q1, k0[ix].0));
                        }
                    }
                }
            }
        }
    }
}

} // verus!

verus! {

/// The deduplication key of a package reference: its canonical descriptor
/// URL, which ignores the version.
pub open spec fn pdsc_key(p: PdscRefV) -> Seq<char> {
    crate::pack_index::spec_pdsc_url(p.url, p.vendor, p.name)
}

pub open spec fn has_pdsc_key(s: Seq<PdscRefV>, k: Seq<char>) -> bool {
    exists|i: int| 0 <= i < s.len() && pdsc_key(s[i]) == k
}

/// The reference list with every later entry of an already seen key
/// removed.
pub open spec fn spec_dedup_pdscs(s: Seq<PdscRefV>) -> Seq<PdscRefV>
    decreases s.len(),
{
    if s.len() == 0 {
        Seq::empty()
    } else {
        let rest = spec_dedup_pdscs(s.drop_last());
        if has_pdsc_key(rest, pdsc_key(s.last())) {
            rest
        } else {
            rest.push(s.last())
        }
    }
}

/// No two entries of a deduplicated list share a key, so no two carry the
/// same URL, vendor, and name.
pub proof fn lemma_results_distinct(s: Seq<PdscRefV>)
    ensures
        forall|i: int, j: int|
            0 <= i < j < spec_dedup_pdscs(s).len() ==> !((#[trigger] spec_dedup_pdscs(s)[i]).url
                == (#[trigger] spec_dedup_pdscs(s)[j]).url && spec_dedup_pdscs(s)[i].vendor
                == spec_dedup_pdscs(s)[j].vendor && spec_dedup_pdscs(s)[i].name
                == spec_dedup_pdscs(s)[j].name),
    decreases s.len(),
{
    if s.len() > 0 {
        lemma_results_distinct(s.drop_last());
        let rest = spec_dedup_pdscs(s.drop_last());
        let d = spec_dedup_pdscs(s);
        if !has_pdsc_key(rest, pdsc_key(s.last())) {
            assert forall|i: int, j: int|
                0 <= i < j < d.len() implies !((#[trigger] d[i]).url == (#[trigger] d[j]).url
                && d[i].vendor == d[j].vendor && d[i].name == d[j].name) by {
                if j == d.len() - 1 {
                    if d[i].url == d[j].url && d[i].vendor == d[j].vendor && d[i].name
                        == d[j].name {
                        assert(pdsc_key(d[i]) == pdsc_key(s.last()));
                        assert(rest[i] == d[i]);
                        assert(has_pdsc_key(rest, pdsc_key(s.last())));
                    }
                } else {
                    assert(d[i] == rest[i] && d[j] == rest[j]);
                }
            }
        }
    }
}

impl Crawler {
    /// Hands the collected package references out, deduplicated by their
    /// canonical descriptor URL; the first occurrence stays.
    pub fn into_results(self) -> (r: Vec<PdscRef>)
        ensures
            r@.map_values(|p: PdscRef| p@) == spec_dedup_pdscs(
                self.pdscs@.map_values(|p: PdscRef| p@),
            ),
    {
        let ghost sp = self.pdscs@.map_values(|p: PdscRef| p@);
        let n = self.pdscs.len();
        let mut out: Vec<PdscRef> = Vec::new();
        let mut keys: Vec<String> = Vec::new();
        let mut i: usize = 0;
        proof {
            assert(sp.subrange(0, 0) =~= Seq::<PdscRefV>::empty());
        }
        while i < n
            invariant
                0 <= i <= n == self.pdscs@.len(),
                sp == self.pdscs@.map_values(|p: PdscRef| p@),
                out@.map_values(|p: PdscRef| p@) == spec_dedup_pdscs(sp.subrange(0, i as int)),
                keys@.len() == out@.len(),
                forall|j: int|
                    0 <= j < out@.len() ==> (#[trigger] sv(keys@)[j]) == pdsc_key(
                        out@.map_values(|p: PdscRef| p@)[j],
                    ),
            decreases n - i,
        {
            let p = self.pdscs[i].clone();
            let ghost pv = p@;
            assert(pv == sp[i as int]);
            let key = crate::pack_index::pdsc_url(&p);
            let ghost ov = out@.map_values(|p2: PdscRef| p2@);
            proof {
                let pref = sp.subrange(0, i as int + 1);
                assert(pref.drop_last() =~= sp.subrange(0, i as int));
                assert(pref.last() == sp[i as int]);
            }
            let seen = contains_str(&keys, key.as_str());
            proof {
                assert(seen == has_pdsc_key(ov, pdsc_key(pv))) by {
                    if seen {
                        let ix = choose|ix: int|
                            0 <= ix < sv(keys@).len() && sv(keys@)[ix] == key@;
                        assert(pdsc_key(ov[ix]) == pdsc_key(pv));
                    }
                    if has_pdsc_key(ov, pdsc_key(pv)) {
                        let ix = choose|ix: int|
                            0 <= ix < ov.len() && pdsc_key(ov[ix]) == pdsc_key(pv);
                        assert(sv(keys@)[ix] == key@);
                    }
                }
            }
            if !seen {
                let ghost kv0 = sv(keys@);
                let ghost keyv = key@;
                out.push(p);
                keys.push(key);
                proof {
                    assert(out@.map_values(|p2: PdscRef| p2@) =~= ov.push(pv));
                    assert(sv(keys@) =~= kv0.push(keyv));
                    assert forall|j: int|
                        0 <= j < out@.len() implies (#[trigger] sv(keys@)[j]) == pdsc_key(
                        out@.map_values(|p2: PdscRef| p2@)[j],
                    ) by {
                        if j < ov.len() {
                            assert(sv(keys@)[j] == kv0[j]);
                            assert(out@.map_values(|p2: PdscRef| p2@)[j] == ov[j]);
                        } else {
                            assert(sv(keys@)[j] == keyv);
                            assert(out@.map_values(|p2: PdscRef| p2@)[j] == pv);
                        }
                    }
                }
            }
            i = i + 1;
        }
        proof {
            assert(sp.subrange(0, n as int) =~= sp);
        }
        out
    }

    /// When every URL eventually failed, the number of fetch attempts is
    /// exactly three per unique seed URL: nothing else was ever discovered,
    /// each unique URL was tried to the retry bound, and no attempt was
    /// spent elsewhere.
    pub proof fn lemma_exhausted_attempts(&self)
        requires
            self.inv(),
            self.spec_done(),
            sv(self.fetched@).len() == 0,
        ensures
            self.issued@.len() == 3 * spec_dedup(self.seeds@).len(),
    {
        let k = kv(self.known@);
        assert(self.pending() =~= sv(self.queue@));
        assert forall|ix: int| 0 <= ix < k.len() implies (#[trigger] k[ix]).1 == 3 by {
            if in_seq(self.pending(), k[ix].0) {
                let j = choose|j: int|
                    0 <= j < self.pending().len() && self.pending()[j] == k[ix].0;
            }
            if in_seq(sv(self.fetched@), k[ix].0) {
                let j = choose|j: int|
                    0 <= j < sv(self.fetched@).len() && sv(self.fetched@)[j] == k[ix].0;
            }
        }
        lemma_sum_all_three(k);
        assert(keys_of(k).len() == k.len());
        assert(self.issued@.len() == sum_counts(k));
    }

    /// A URL is fetched at most once: the fetched list never repeats an
    /// entry, and the crawler never hands a fetched URL out again.
    pub proof fn lemma_fetched_once(&self)
        requires
            self.inv(),
        ensures
            distinct(sv(self.fetched@)),
            forall|u: Seq<char>| in_seq(self.pending(), u) ==> !in_seq(sv(self.fetched@), u),
    {
    }
}

} // verus!
