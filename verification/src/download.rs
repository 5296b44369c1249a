//! The bounded downloader: schedules a fixed set of downloads under a
//! global in-flight cap and a per-host cap, defers jobs of saturated
//! hosts, skips destinations that already exist without any request, and
//! reports one completion per job.

use vstd::prelude::*;

use crate::crawl::{count_of, distinct, keys_of, kv, lemma_count_of_at, lemma_sum_update,
    sum_counts, sv};

verus! {

/// The global cap on in-flight downloads.
pub open spec fn global_cap() -> u64 {
    32
}

/// The per-host cap on in-flight downloads.
pub open spec fn host_cap() -> u64 {
    6
}

/// One download to perform.
#[derive(Debug)]
pub struct DownloadJob {
    pub url: String,
    pub host: String,
    pub dest: String,
}

/// The mathematical image of a job.
#[verifier::ext_equal]
pub struct JobV {
    pub url: Seq<char>,
    pub host: Seq<char>,
    pub dest: Seq<char>,
}

impl View for DownloadJob {
    type V = JobV;

    open spec fn view(&self) -> JobV {
        JobV { url: self.url@, host: self.host@, dest: self.dest@ }
    }
}

impl Clone for DownloadJob {
    fn clone(&self) -> (r: DownloadJob)
        ensures
            r@ == self@,
    {
        DownloadJob { url: self.url.clone(), host: self.host.clone(), dest: self.dest.clone() }
    }
}

pub open spec fn jv(v: Seq<DownloadJob>) -> Seq<JobV> {
    v.map_values(|j: DownloadJob| j@)
}

/// One scheduling pass over the queue: jobs of saturated hosts are set
/// aside in order until a runnable job is found; the pass yields the
/// deferred jobs, the job to stage, and the remaining queue.
pub open spec fn spec_take(
    queue: Seq<JobV>,
    hosts: Seq<(Seq<char>, u64)>,
) -> (Seq<JobV>, Option<JobV>, Seq<JobV>)
    decreases queue.len(),
{
    if queue.len() == 0 {
        (Seq::empty(), None, Seq::empty())
    } else if count_of(hosts, queue[0].host) >= host_cap() {
        let rest = spec_take(queue.drop_first(), hosts);
        (seq![queue[0]] + rest.0, rest.1, rest.2)
    } else {
        (Seq::empty(), Some(queue[0]), queue.drop_first())
    }
}

/// The scheduler's state: the work queue, the jobs deferred because their
/// host was saturated, the job staged for its existence probe, the
/// per-host in-flight counts, the total in-flight count, the completed
/// destinations, and the number of completion notifications.
pub struct Downloader {
    pub queue: Vec<DownloadJob>,
    pub wait: Vec<DownloadJob>,
    pub staged: Option<DownloadJob>,
    pub hosts: Vec<(String, u64)>,
    pub in_flight: u64,
    pub results: Vec<String>,
    pub completes: u64,
    /// How many jobs the downloader was given.
    pub total: Ghost<int>,
}

impl Downloader {
    /// The scheduler's invariant: both caps hold at every instant, the
    /// in-flight count agrees with the host table, and every job is in
    /// exactly one place.
    pub open spec fn inv(self) -> bool {
        &&& distinct(keys_of(kv(self.hosts@)))
        &&& self.in_flight == sum_counts(kv(self.hosts@))
        &&& self.in_flight <= global_cap()
        &&& forall|i: int|
            0 <= i < kv(self.hosts@).len() ==> (#[trigger] kv(self.hosts@)[i]).1 <= host_cap()
        &&& self.completes + self.queue@.len() + self.wait@.len() + (match self.staged {
            Some(_) => 1int,
            None => 0int,
        }) + self.in_flight == self.total@
        &&& 0 <= self.total@ <= usize::MAX
    }

    /// Whether the work is over: nothing queued, deferred, staged, or in
    /// flight.
    pub open spec fn spec_done(self) -> bool {
        self.queue@.len() == 0 && self.wait@.len() == 0 && self.staged is None
            && self.in_flight == 0
    }

    pub fn done(&self) -> (r: bool)
        ensures
            r == self.spec_done(),
    {
        self.queue.len() == 0 && self.wait.len() == 0 && self.in_flight == 0 && match self.staged {
            Some(_) => false,
            None => true,
        }
    }

    /// Takes a fresh job list; the announced size for progress reporting
    /// is the job count.
    pub fn new(jobs: Vec<DownloadJob>) -> (r: Downloader)
        ensures
            r.inv(),
            r.total@ == jobs@.len(),
            jv(r.queue@) == jv(jobs@),
            r.completes == 0,
            r.results@.len() == 0,
            r.in_flight == 0,
            r.staged is None,
            r.wait@.len() == 0,
    {
        let n = jobs.len();
        let ghost t = n as int;
        let r = Downloader {
            queue: jobs,
            wait: Vec::new(),
            staged: None,
            hosts: Vec::new(),
            in_flight: 0,
            results: Vec::new(),
            completes: 0,
            total: Ghost(t),
        };
        proof {
            assert(kv(r.hosts@) =~= Seq::<(Seq<char>, u64)>::empty());
            assert(keys_of(kv(r.hosts@)) =~= Seq::<Seq<char>>::empty());
            assert(sum_counts(Seq::<(Seq<char>, u64)>::empty()) == 0);
        }
        r
    }

    /// The in-flight count of one host.
    fn host_count(&self, host: &str) -> (r: u64)
        ensures
            r == count_of(kv(self.hosts@), host@),
    {
        let n = self.hosts.len();
        let mut i: usize = 0;
        while i < n
            invariant
                0 <= i <= n == self.hosts@.len(),
                forall|j: int| 0 <= j < i ==> kv(self.hosts@)[j].0 != host@,
            decreases n - i,
        {
            if crate::numbers::str_eq(self.hosts[i].0.as_str(), host) {
                assert(kv(self.hosts@)[i as int].0 == host@);
                proof {
                    lemma_count_of_at(kv(self.hosts@), host@, i as int);
                }
                return self.hosts[i].1;
            }
            i = i + 1;
        }
        proof {
            lemma_count_of_absent(kv(self.hosts@), host@);
        }
        0
    }

    /// Stages the next runnable job: jobs whose host is saturated are
    /// deferred to the wait list in order, and nothing is staged while the
    /// global cap is reached.
    pub fn take_job(&mut self) -> (r: Option<DownloadJob>)
        requires
            old(self).inv(),
            old(self).staged is None,
        ensures
            final(self).inv(),
            final(self).hosts == old(self).hosts,
            final(self).in_flight == old(self).in_flight,
            final(self).completes == old(self).completes,
            final(self).results == old(self).results,
            final(self).total@ == old(self).total@,
            old(self).in_flight >= global_cap() ==> r is None && *final(self) == *old(self),
            old(self).in_flight < global_cap() ==> ({
                let plan = spec_take(jv(old(self).queue@), kv(old(self).hosts@));
                &&& jv(final(self).wait@) == jv(old(self).wait@) + plan.0
                &&& (match (r, plan.1) {
                    (Some(j), Some(pj)) => j@ == pj && final(self).staged is Some
                        && final(self).staged.unwrap()@ == pj,
                    (None, None) => final(self).staged is None,
                    _ => false,
                })
                &&& jv(final(self).queue@) == plan.2
            }),
            match r {
                Some(j) => count_of(kv(final(self).hosts@), j@.host) < host_cap()
                    && final(self).in_flight < global_cap(),
                None => final(self).staged is None,
            },
    {
        if self.in_flight >= 32 {
            return None;
        }
        let ghost q0 = jv(self.queue@);
        let ghost w0 = jv(self.wait@);
        let ghost h0 = kv(self.hosts@);
        loop
            invariant
                self.inv(),
                self.staged is None,
                self.hosts == old(self).hosts,
                self.in_flight == old(self).in_flight,
                self.completes == old(self).completes,
                self.results == old(self).results,
                self.total@ == old(self).total@,
                self.in_flight < global_cap(),
                q0 == jv(old(self).queue@),
                w0 == jv(old(self).wait@),
                h0 == kv(old(self).hosts@),
                h0 == kv(self.hosts@),
                spec_take(q0, h0).1 == spec_take(jv(self.queue@), h0).1,
                spec_take(q0, h0).2 == spec_take(jv(self.queue@), h0).2,
                jv(self.wait@) + spec_take(jv(self.queue@), h0).0 == w0 + spec_take(q0, h0).0,
            decreases self.queue@.len(),
        {
            if self.queue.len() == 0 {
                proof {
                    assert(spec_take(jv(self.queue@), h0).0 =~= Seq::<JobV>::empty());
                    assert(jv(self.wait@) + Seq::<JobV>::empty() =~= jv(self.wait@));
                    assert(w0 + spec_take(q0, h0).0 =~= jv(self.wait@));
                }
                return None;
            }
            let ghost qq = jv(self.queue@);
            assert(qq[0] == jv(self.queue@)[0]);
            let job = self.queue.remove(0);
            let ghost jvv = job@;
            proof {
                assert(jv(self.queue@) =~= qq.drop_first());
            }
            let c = self.host_count(job.host.as_str());
            if c >= 6 {
                let ghost wbefore = jv(self.wait@);
                self.wait.push(job);
                proof {
                    assert(jv(self.wait@) =~= wbefore.push(jvv));
                    assert(spec_take(qq, h0).0 =~= seq![jvv] + spec_take(qq.drop_first(), h0).0);
                    assert(wbefore.push(jvv) + spec_take(qq.drop_first(), h0).0 =~= wbefore + (
                    seq![jvv] + spec_take(qq.drop_first(), h0).0));
                }
            } else {
                let out = job.clone();
                self.staged = Some(job);
                proof {
                    assert(spec_take(qq, h0).1 == Some(jvv));
                    assert(spec_take(qq, h0).2 == qq.drop_first());
                    assert(spec_take(qq, h0).0 =~= Seq::<JobV>::empty());
                    assert(jv(self.wait@) + Seq::<JobV>::empty() =~= jv(self.wait@));
                    assert(w0 + spec_take(q0, h0).0 =~= jv(self.wait@));
                }
                return Some(out);
            }
        }
    }

    /// Completes the staged job without any request because its
    /// destination already exists: the destination is recorded, one
    /// completion is reported, and no counter moves.
    pub fn skip_existing(&mut self)
        requires
            old(self).inv(),
            old(self).staged is Some,
        ensures
            final(self).inv(),
            final(self).staged is None,
            final(self).hosts == old(self).hosts,
            final(self).in_flight == old(self).in_flight,
            final(self).completes == old(self).completes + 1,
            sv(final(self).results@) == sv(old(self).results@).push(
                old(self).staged.unwrap()@.dest,
            ),
            final(self).queue == old(self).queue,
            final(self).wait == old(self).wait,
            final(self).total@ == old(self).total@,
    {
        let job = match self.staged.take() {
            Some(j) => j,
            None => {
                proof {
                    assert(false);
                }
                DownloadJob { url: String::new(), host: String::new(), dest: String::new() }
            },
        };
        let ghost dv = job@.dest;
        self.results.push(job.dest);
        self.completes = self.completes + 1;
        proof {
            assert(sv(self.results@) =~= sv(old(self).results@).push(dv));
        }
    }

    /// Launches the staged job: the host's count and the total in-flight
    /// count rise by one, and both stay within their caps.
    pub fn launch(&mut self) -> (r: DownloadJob)
        requires
            old(self).inv(),
            old(self).staged is Some,
            count_of(kv(old(self).hosts@), old(self).staged.unwrap()@.host) < host_cap(),
            old(self).in_flight < global_cap(),
        ensures
            final(self).inv(),
            final(self).staged is None,
            r@ == old(self).staged.unwrap()@,
            final(self).in_flight == old(self).in_flight + 1,
            count_of(kv(final(self).hosts@), r@.host) == count_of(
                kv(old(self).hosts@),
                r@.host,
            ) + 1,
            final(self).completes == old(self).completes,
            final(self).results == old(self).results,
            final(self).queue == old(self).queue,
            final(self).wait == old(self).wait,
            final(self).total@ == old(self).total@,
    {
        let job = match self.staged.take() {
            Some(j) => j,
            None => {
                proof {
                    assert(false);
                }
                DownloadJob { url: String::new(), host: String::new(), dest: String::new() }
            },
        };
        let ghost hv = job@.host;
        let ghost k0 = kv(self.hosts@);
        match crate::crawl::find_key(&self.hosts, job.host.as_str()) {
            Some(i) => {
                proof {
                    lemma_count_of_at(k0, hv, i as int);
                }
                let c = self.hosts[i].1;
                let key = self.hosts[i].0.clone();
                self.hosts[i] = (key, c + 1);
                proof {
                    assert(kv(self.hosts@) =~= k0.update(i as int, (hv, (c + 1) as u64)));
                    lemma_count_of_at(kv(self.hosts@), hv, i as int);
                    lemma_sum_update(k0, i as int, (c + 1) as u64);
                    assert(keys_of(kv(self.hosts@)) =~= keys_of(k0));
                    assert forall|ix: int|
                        0 <= ix < kv(self.hosts@).len() implies (#[trigger] kv(
                        self.hosts@,
                    )[ix]).1 <= host_cap() by {
                        if ix != i {
                            assert(kv(self.hosts@)[ix] == k0[ix]);
                        }
                    }
                }
            },
            None => {
                proof {
                    lemma_count_of_absent(k0, hv);
                }
                let key = job.host.clone();
                self.hosts.push((key, 1));
                proof {
                    assert(kv(self.hosts@) =~= k0.push((hv, 1u64)));
                    lemma_count_of_push_one(k0, hv);
                    assert(keys_of(kv(self.hosts@)) =~= keys_of(k0).push(hv));
                    assert forall|ix: int, jx: int|
                        0 <= ix < jx < keys_of(kv(self.hosts@)).len() implies keys_of(
                        kv(self.hosts@),
                    )[ix] != keys_of(kv(self.hosts@))[jx] by {
                        if jx == keys_of(kv(self.hosts@)).len() - 1 {
                            if keys_of(kv(self.hosts@))[ix] == hv {
                                assert(k0[ix].0 == hv);
                            }
                        }
                    }
                    assert forall|ix: int|
                        0 <= ix < kv(self.hosts@).len() implies (#[trigger] kv(
                        self.hosts@,
                    )[ix]).1 <= host_cap() by {
                        if ix < k0.len() {
                            assert(kv(self.hosts@)[ix] == k0[ix]);
                        }
                    }
                }
            },
        }
        self.in_flight = self.in_flight + 1;
        job
    }

    /// Records one finished task: its host's count and the total count
    /// fall by one, one completion is reported, and a successful task's
    /// destination joins the results.
    pub fn task_finished(&mut self, host: &str, dest: Option<String>)
        requires
            old(self).inv(),
            count_of(kv(old(self).hosts@), host@) >= 1,
            old(self).in_flight >= 1,
        ensures
            final(self).inv(),
            final(self).in_flight == old(self).in_flight - 1,
            count_of(kv(final(self).hosts@), host@) == count_of(kv(old(self).hosts@), host@) - 1,
            final(self).completes == old(self).completes + 1,
            final(self).staged == old(self).staged,
            final(self).queue == old(self).queue,
            final(self).wait == old(self).wait,
            final(self).total@ == old(self).total@,
            match dest {
                Some(d) => sv(final(self).results@) == sv(old(self).results@).push(d@),
                None => final(self).results == old(self).results,
            },
    {
        let ghost k0 = kv(self.hosts@);
        match crate::crawl::find_key(&self.hosts, host) {
            Some(i) => {
                proof {
                    lemma_count_of_at(k0, host@, i as int);
                }
                let c = self.hosts[i].1;
                assert(c >= 1);
                let key = self.hosts[i].0.clone();
                self.hosts[i] = (key, c - 1);
                proof {
                    assert(kv(self.hosts@) =~= k0.update(i as int, (host@, (c - 1) as u64)));
                    lemma_count_of_at(kv(self.hosts@), host@, i as int);
                    lemma_sum_update(k0, i as int, (c - 1) as u64);
                    assert(keys_of(kv(self.hosts@)) =~= keys_of(k0));
                    assert forall|ix: int|
                        0 <= ix < kv(self.hosts@).len() implies (#[trigger] kv(
                        self.hosts@,
                    )[ix]).1 <= host_cap() by {
                        if ix != i {
                            assert(kv(self.hosts@)[ix] == k0[ix]);
                        }
                    }
                }
            },
            None => {
                proof {
                    lemma_count_of_absent(k0, host@);
                    assert(false);
                }
            },
        }
        self.in_flight = self.in_flight - 1;
        self.completes = self.completes + 1;
        match dest {
            Some(d) => {
                let ghost dv = d@;
                self.results.push(d);
                proof {
                    assert(sv(self.results@) =~= sv(old(self).results@).push(dv));
                }
            },
            None => {},
        }
    }

    /// Returns the deferred jobs to the work queue at the end of a round.
    pub fn round_end(&mut self)
        requires
            old(self).inv(),
        ensures
            final(self).inv(),
            jv(final(self).queue@) == jv(old(self).queue@) + jv(old(self).wait@),
            final(self).wait@.len() == 0,
            final(self).staged == old(self).staged,
            final(self).hosts == old(self).hosts,
            final(self).in_flight == old(self).in_flight,
            final(self).completes == old(self).completes,
            final(self).results == old(self).results,
            final(self).total@ == old(self).total@,
    {
        let ghost q0 = jv(self.queue@);
        let ghost w0 = jv(self.wait@);
        self.queue.append(&mut self.wait);
        proof {
            assert(jv(self.queue@) =~= q0 + w0);
        }
    }

    /// One completion is reported for every job: when the work is over,
    /// the number of completion notifications equals the number of jobs
    /// given, whether their destinations existed beforehand or not.
    pub proof fn lemma_all_complete(&self)
        requires
            self.inv(),
            self.spec_done(),
        ensures
            self.completes == self.total@,
    {
    }

    /// Both caps hold at every instant: no host runs more than six
    /// downloads at once, and no more than thirty-two run in all.
    pub proof fn lemma_caps(&self)
        requires
            self.inv(),
        ensures
            forall|h: Seq<char>| count_of(kv(self.hosts@), h) <= host_cap(),
            self.in_flight <= global_cap(),
    {
        assert forall|h: Seq<char>| count_of(kv(self.hosts@), h) <= host_cap() by {
            lemma_count_of_bounded(kv(self.hosts@), h);
        }
    }
}

pub proof fn lemma_count_of_absent(ks: Seq<(Seq<char>, u64)>, u: Seq<char>)
    requires
        forall|j: int| 0 <= j < ks.len() ==> (#[trigger] ks[j]).0 != u,
    ensures
        count_of(ks, u) == 0,
    decreases ks.len(),
{
    if ks.len() > 0 {
        lemma_count_of_absent(ks.drop_first(), u);
    }
}

proof fn lemma_count_of_push_one(ks: Seq<(Seq<char>, u64)>, u: Seq<char>)
    requires
        forall|j: int| 0 <= j < ks.len() ==> (#[trigger] ks[j]).0 != u,
    ensures
        count_of(ks.push((u, 1)), u) == 1,
        sum_counts(ks.push((u, 1))) == sum_counts(ks) + 1,
    decreases ks.len(),
{
    reveal_with_fuel(count_of, 3);
    reveal_with_fuel(sum_counts, 3);
    if ks.len() == 0 {
        assert(ks.push((u, 1)).drop_first() =~= Seq::<(Seq<char>, u64)>::empty());
    } else {
        assert(ks.push((u, 1)).drop_first() =~= ks.drop_first().push((u, 1)));
        lemma_count_of_push_one(ks.drop_first(), u);
    }
}

proof fn lemma_count_of_bounded(ks: Seq<(Seq<char>, u64)>, u: Seq<char>)
    requires
        forall|j: int| 0 <= j < ks.len() ==> (#[trigger] ks[j]).1 <= 6,
    ensures
        count_of(ks, u) <= 6,
    decreases ks.len(),
{
    if ks.len() > 0 {
        lemma_count_of_bounded(ks.drop_first(), u);
    }
}

} // verus!
