//! The trace recorder: per-process and per-thread registries, monotonic
//! sample timestamps, label interning and sample emission.

use fxprof_processed_profile::{CategoryPairHandle, ProcessHandle, Profile, StringHandle, ThreadHandle};
use std::collections::HashMap;
use std::time::Instant;
use vstd::prelude::*;
use vstd::seq_lib::*;

use crate::clock::{elapsed_nanos, instant_now};
use crate::labels::{format_label, intern_seq, label_of, lemma_intern_one_shape, lemma_intern_seq_push, lemma_intern_seq_shape};
use crate::sink;
use crate::sink::{categories_of, category_slot, interval_nanos_of, json_of, pids_of, proc_starts_of, process_slot, product_of, same_metadata, samples_of, string_slot, strings_of, thread_slot, threads_of};
use crate::trace::{StackTrace, StackTraceView};

verus! {

broadcast use vstd::std_specs::hash::group_hash_axioms;

proof fn lemma_push_contains<A>(s: Seq<A>, x: A, y: A)
    ensures
        s.push(x).contains(y) <==> s.contains(y) || y == x,
{
    assert(s.push(x)[s.len() as int] == x);
    if s.contains(y) {
        let i = choose|i: int| 0 <= i < s.len() && s[i] == y;
        assert(s.push(x)[i] == y);
    }
    if s.push(x).contains(y) {
        let i = choose|i: int| 0 <= i < s.push(x).len() && s.push(x)[i] == y;
        if i < s.len() {
            assert(s[i] == y);
        }
    }
}

proof fn lemma_push_keeps_distinct<A>(s: Seq<A>, x: A)
    requires
        s.no_duplicates(),
        !s.contains(x),
    ensures
        s.push(x).no_duplicates(),
{
    assert forall|i: int, j: int|
        0 <= i < s.push(x).len() && 0 <= j < s.push(x).len() && i != j implies s.push(x)[i]
        != s.push(x)[j] by {
        if i < s.len() && j < s.len() {
        } else if i < s.len() {
            assert(s.push(x)[i] == s[i]);
            assert(s.push(x)[j] == x);
            assert(s[i] != x);
        } else {
            assert(s.push(x)[i] == x);
            assert(s.push(x)[j] == s[j]);
            assert(s[j] != x);
        }
    }
}

/// The labels of a trace's frames in emission order: the exact reverse of
/// the input's leaf-first frame order.
pub open spec fn emitted_labels(t: StackTraceView, show: bool) -> Seq<Seq<char>> {
    Seq::new(t.frames.len(), |j: int| label_of(t.frames[t.frames.len() - 1 - j], show))
}

/// The recorder's error for a profile that could not be serialized.
#[derive(Debug, PartialEq, Eq, Structural)]
pub enum WriteError {
    Serialization,
}

/// The stateful trace recorder.  Each call to `increment` appends exactly
/// one sample to the profile; `write` renders the accumulated profile.
pub struct Geckotrace {
    start_ts: Instant,
    show_linenumbers: bool,
    category: CategoryPairHandle,
    last_ns: u64,
    processes: HashMap<u32, ProcessHandle>,
    threads: HashMap<u64, ThreadHandle>,
    profile: Profile,
}

impl Geckotrace {
    /// The pids of the profile's process records, in registration order.
    pub closed spec fn pids(&self) -> Seq<u32> {
        pids_of(self.profile)
    }

    /// The creation times (ns) of the profile's process records, parallel
    /// to `pids()`.
    pub closed spec fn proc_starts(&self) -> Seq<u64> {
        proc_starts_of(self.profile)
    }

    /// The profile's thread records: owning process slot, tid, display
    /// name, creation time (ns), is-main flag.
    pub closed spec fn thread_recs(&self) -> Seq<(int, u32, Option<Seq<char>>, u64, bool)> {
        threads_of(self.profile)
    }

    /// The profile's interned-string table.
    pub closed spec fn strings(&self) -> Seq<Seq<char>> {
        strings_of(self.profile)
    }

    /// The profile's samples: thread slot, timestamp (ns), frames in
    /// emission order — each a (string slot, category slot) pair — CPU
    /// delta (whole us), weight.
    pub closed spec fn samples(&self) -> Seq<(int, u64, Seq<(int, int)>, u64, int)> {
        samples_of(self.profile)
    }

    /// The names of the profile's category records.
    pub closed spec fn categories(&self) -> Seq<Seq<char>> {
        categories_of(self.profile)
    }

    /// The category record that every sample frame is tagged with.
    pub closed spec fn sample_category(&self) -> int {
        category_slot(self.category)
    }

    /// The profile's product label.
    pub closed spec fn product(&self) -> Seq<char> {
        product_of(self.profile)
    }

    /// The profile's sampling-interval hint, in nanoseconds.
    pub closed spec fn interval_nanos(&self) -> u64 {
        interval_nanos_of(self.profile)
    }

    /// The JSON document that `write` produces for the current state.
    pub closed spec fn serialized(&self) -> Seq<u8> {
        json_of(self.profile)
    }

    /// The set of process ids observed so far.
    pub closed spec fn seen_pids(&self) -> Set<u32> {
        self.processes@.dom()
    }

    /// The set of thread ids observed so far.
    pub closed spec fn seen_tids(&self) -> Set<u64> {
        self.threads@.dom()
    }

    /// The process-record index registered for an observed pid.
    pub closed spec fn pid_slot(&self, pid: u32) -> int {
        process_slot(self.processes@[pid])
    }

    /// The thread-record index registered for an observed thread id.
    pub closed spec fn tid_slot(&self, tid: u64) -> int {
        thread_slot(self.threads@[tid])
    }

    /// Nanoseconds from construction to the most recent tick (0 before the
    /// first one).
    pub closed spec fn last_nanos(&self) -> u64 {
        self.last_ns
    }

    /// Whether labels carry `filename:line` annotations.
    pub closed spec fn show(&self) -> bool {
        self.show_linenumbers
    }

    /// The recorder's invariant, established by `new` and kept by every
    /// `increment`.
    pub closed spec fn wf(&self) -> bool {
        &&& self.strings().no_duplicates()
        &&& self.pids().no_duplicates()
        &&& self.pids().len() == self.seen_pids().len()
        &&& self.proc_starts().len() == self.pids().len()
        &&& self.categories() == seq![("Other")@, ("Python")@]
        &&& self.sample_category() == 1
        &&& self.product() == ("python")@
        &&& self.interval_nanos() == 10_000_000
        &&& (forall|pid: u32|
            #[trigger] self.seen_pids().contains(pid) <==> self.pids().contains(pid))
        &&& (forall|pid: u32| #[trigger]
            self.seen_pids().contains(pid) ==> 0 <= self.pid_slot(pid) < self.pids().len()
                && self.pids()[self.pid_slot(pid)] == pid)
        &&& self.thread_recs().len() == self.seen_tids().len()
        &&& (forall|tid: u64| #[trigger]
            self.seen_tids().contains(tid) ==> 0 <= self.tid_slot(tid)
                < self.thread_recs().len())
        &&& (forall|k: int|
            0 <= k < self.samples().len() ==> {
                &&& 0 <= (#[trigger] self.samples()[k]).0 < self.thread_recs().len()
                &&& (forall|j: int|
                    0 <= j < self.samples()[k].2.len() ==> 0 <= (
                    #[trigger] self.samples()[k].2[j]).0 < self.strings().len() && self.samples()[k].2[j].1
                        == self.sample_category())
                &&& self.samples()[k].4 == 1
                &&& self.samples()[k].1 <= self.last_nanos()
            })
        &&& (forall|i: int, j: int|
            0 <= i <= j < self.samples().len() ==> (#[trigger] self.samples()[i]).1 <= (
            #[trigger] self.samples()[j]).1)
        &&& (self.samples().len() == 0 ==> self.last_nanos() == 0)
        &&& (self.samples().len() > 0 ==> self.samples().last().1 == self.last_nanos())
        &&& (self.samples().len() > 0 ==> self.samples()[0].3 == self.samples()[0].1 as int / 1000)
        &&& (forall|k: int|
            0 < k < self.samples().len() ==> (#[trigger] self.samples()[k]).3 == (
            self.samples()[k].1 - self.samples()[k - 1].1) / 1000)
    }

    /// Builds an empty recorder around a fresh profile: no processes, no
    /// threads, no samples, nothing interned, and exactly one category —
    /// beyond the store's built-in one — registered for every future
    /// sample's frames; the product label is "python" and the
    /// sampling-interval hint 10 ms (100 Hz nominal).
    pub fn new(show_linenumbers: bool) -> (r: Geckotrace)
        ensures
            r.wf(),
            r.show() == show_linenumbers,
            r.pids() == Seq::<u32>::empty(),
            r.proc_starts() == Seq::<u64>::empty(),
            r.thread_recs() == Seq::<(int, u32, Option<Seq<char>>, u64, bool)>::empty(),
            r.strings() == Seq::<Seq<char>>::empty(),
            r.samples() == Seq::<(int, u64, Seq<(int, int)>, u64, int)>::empty(),
            r.seen_pids() == Set::<u32>::empty(),
            r.seen_tids() == Set::<u64>::empty(),
            r.last_nanos() == 0,
            r.categories() == seq![("Other")@, ("Python")@],
            r.sample_category() == 1,
            r.product() == ("python")@,
            r.interval_nanos() == 10_000_000,
    {
        let now = instant_now();
        let mut profile = sink::new_profile();
        let category = sink::add_category(&mut profile);
        let r = Geckotrace {
            start_ts: now,
            last_ns: 0,
            show_linenumbers,
            processes: HashMap::new(),
            threads: HashMap::new(),
            profile,
            category,
        };
        proof {
            assert(r.seen_pids() =~= Set::<u32>::empty());
            assert(r.seen_tids() =~= Set::<u64>::empty());
            assert(seq![("Other")@].push(("Python")@) =~= seq![("Other")@, ("Python")@]);
        }
        r
    }

    /// Resolves the process handle for a pid, registering a new process
    /// record on first observation.
    fn resolve_process(&mut self, pid: u32, now_ns: u64) -> (h: ProcessHandle)
        requires
            old(self).wf(),
        ensures
            final(self).wf(),
            final(self).seen_pids() == old(self).seen_pids().insert(pid),
            final(self).pids() == (if old(self).seen_pids().contains(pid) {
                old(self).pids()
            } else {
                old(self).pids().push(pid)
            }),
            final(self).proc_starts() == (if old(self).seen_pids().contains(pid) {
                old(self).proc_starts()
            } else {
                old(self).proc_starts().push(now_ns)
            }),
            final(self).thread_recs() == old(self).thread_recs(),
            final(self).strings() == old(self).strings(),
            final(self).samples() == old(self).samples(),
            final(self).seen_tids() == old(self).seen_tids(),
            final(self).last_nanos() == old(self).last_nanos(),
            final(self).show() == old(self).show(),
            final(self).threads == old(self).threads,
            final(self).category == old(self).category,
            final(self).start_ts == old(self).start_ts,
            0 <= process_slot(h) < final(self).pids().len(),
            final(self).pids()[process_slot(h)] == pid,
            final(self).pid_slot(pid) == process_slot(h),
            forall|q: u32| #[trigger]
                old(self).seen_pids().contains(q) ==> final(self).pid_slot(q) == old(
                    self,
                ).pid_slot(q),
    {
        if self.processes.contains_key(&pid) {
            let h = *self.processes.get(&pid).unwrap();
            proof {
                assert(old(self).seen_pids().insert(pid) =~= old(self).seen_pids());
            }
            h
        } else {
            let h = sink::add_process(&mut self.profile, pid, now_ns);
            self.processes.insert(pid, h);
            proof {
                let pre = *old(self);
                assert(pre.pids().push(pid)[pre.pids().len() as int] == pid);
                assert forall|q: u32| #[trigger] self.seen_pids().contains(q) implies 0
                    <= self.pid_slot(q) < self.pids().len() && self.pids()[self.pid_slot(q)]
                    == q by {
                    if q == pid {
                    } else {
                        assert(pre.seen_pids().contains(q));
                        assert(self.processes@[q] == pre.processes@[q]);
                        assert(pre.pids().push(pid)[pre.pid_slot(q)] == pre.pids()[pre.pid_slot(
                            q,
                        )]);
                    }
                }
                assert(!pre.pids().contains(pid));
                assert forall|q: u32|
                    self.seen_pids().contains(q) <==> self.pids().contains(q) by {
                    lemma_push_contains(pre.pids(), pid, q);
                }
                lemma_push_keeps_distinct(pre.pids(), pid);
                vstd::set::axiom_set_insert_len(pre.seen_pids(), pid);
            }
            h
        }
    }

    /// Resolves the thread handle for a thread id, registering a new thread
    /// record under `process` on first observation — with the tick's
    /// timestamp as creation time and marked as a main thread — and
    /// attaching the display name, if any, at creation time only.
    fn resolve_thread(
        &mut self,
        tid: u64,
        name: &Option<String>,
        process: ProcessHandle,
        now_ns: u64,
    ) -> (h: ThreadHandle)
        requires
            old(self).wf(),
            0 <= process_slot(process) < old(self).pids().len(),
        ensures
            final(self).wf(),
            final(self).seen_tids() == old(self).seen_tids().insert(tid),
            final(self).thread_recs() == (if old(self).seen_tids().contains(tid) {
                old(self).thread_recs()
            } else {
                old(self).thread_recs().push(
                    (
                        process_slot(process),
                        tid as u32,
                        match *name {
                            Some(n) => Some(n@),
                            None => None::<Seq<char>>,
                        },
                        now_ns,
                        true,
                    ),
                )
            }),
            final(self).pids() == old(self).pids(),
            final(self).proc_starts() == old(self).proc_starts(),
            final(self).strings() == old(self).strings(),
            final(self).samples() == old(self).samples(),
            final(self).seen_pids() == old(self).seen_pids(),
            final(self).last_nanos() == old(self).last_nanos(),
            final(self).show() == old(self).show(),
            final(self).processes == old(self).processes,
            final(self).category == old(self).category,
            final(self).start_ts == old(self).start_ts,
            0 <= thread_slot(h) < final(self).thread_recs().len(),
            final(self).tid_slot(tid) == thread_slot(h),
    {
        if self.threads.contains_key(&tid) {
            let h = *self.threads.get(&tid).unwrap();
            proof {
                assert(old(self).seen_tids().insert(tid) =~= old(self).seen_tids());
            }
            h
        } else {
            let tid32: u32 = #[verifier::truncate] (tid as u32);
            let h = sink::add_thread(&mut self.profile, process, tid32, now_ns, true);
            match name {
                Some(n) => {
                    sink::set_thread_name(&mut self.profile, h, n.as_str());
                    proof {
                        let pre = *old(self);
                        let bare = pre.thread_recs().push(
                            (process_slot(process), tid32, None::<Seq<char>>, now_ns, true),
                        );
                        assert(bare.update(
                            pre.thread_recs().len() as int,
                            (process_slot(process), tid32, Some(n@), now_ns, true),
                        ) =~= pre.thread_recs().push(
                            (process_slot(process), tid32, Some(n@), now_ns, true),
                        ));
                    }
                },
                None => {},
            }
            self.threads.insert(tid, h);
            proof {
                let pre = *old(self);
                assert forall|q: u64| #[trigger] self.seen_tids().contains(q) implies 0
                    <= self.tid_slot(q) < self.thread_recs().len() by {
                    if q != tid {
                        assert(pre.seen_tids().contains(q));
                        assert(self.threads@[q] == pre.threads@[q]);
                    }
                }
                vstd::set::axiom_set_insert_len(pre.seen_tids(), tid);
            }
            h
        }
    }

    /// Records one tick at the given raw clock reading (nanoseconds since
    /// construction).  The timestamp used is the reading clamped to be no
    /// earlier than the previous tick, so recorded timestamps never go
    /// backwards whatever the reading; exactly one sample is appended.
    pub fn record_at(&mut self, trace: &StackTrace, raw_now_ns: u64) -> (r: std::io::Result<()>)
        requires
            old(self).wf(),
        ensures
            final(self).wf(),
            r is Ok,
            final(self).last_nanos() == (if raw_now_ns >= old(self).last_nanos() {
                raw_now_ns
            } else {
                old(self).last_nanos()
            }),
            tick_post(*old(self), *final(self), trace@, final(self).last_nanos()),
    {
        let now_ns: u64 = if raw_now_ns >= self.last_ns {
            raw_now_ns
        } else {
            self.last_ns
        };
        let ghost pre = *old(self);

        let process = self.resolve_process(trace.pid, now_ns);
        let thread = self.resolve_thread(trace.thread_id, &trace.thread_name, process, now_ns);
        let ghost after_t = *self;

        let ghost rev = emitted_labels(trace@, pre.show());
        let n = trace.frames.len();
        let mut handles: Vec<StringHandle> = Vec::new();
        let mut i = n;
        while i > 0
            invariant
                i <= n,
                n == trace.frames.len(),
                handles@.len() == n - i,
                rev == emitted_labels(trace@, after_t.show()),
                rev.len() == n,
                strings_of(self.profile) == intern_seq(strings_of(after_t.profile), rev.take(n - i)),
                strings_of(after_t.profile).no_duplicates(),
                strings_of(self.profile).no_duplicates(),
                forall|j: int|
                    0 <= j < handles@.len() ==> 0 <= string_slot(#[trigger] handles@[j])
                        < strings_of(self.profile).len() && strings_of(self.profile)[string_slot(
                        handles@[j],
                    )] == rev[j],
                pids_of(self.profile) == pids_of(after_t.profile),
                proc_starts_of(self.profile) == proc_starts_of(after_t.profile),
                threads_of(self.profile) == threads_of(after_t.profile),
                samples_of(self.profile) == samples_of(after_t.profile),
                same_metadata(after_t.profile, self.profile),
                self.processes == after_t.processes,
                self.threads == after_t.threads,
                self.last_ns == after_t.last_ns,
                self.show_linenumbers == after_t.show_linenumbers,
                self.category == after_t.category,
                self.start_ts == after_t.start_ts,
            decreases i,
        {
            i = i - 1;
            let label = format_label(&trace.frames[i], self.show_linenumbers);
            let ghost strings_before = strings_of(self.profile);
            let ghost k = handles@.len() as int;
            let h = sink::intern_string(&mut self.profile, label.as_str());
            handles.push(h);
            proof {
                assert(trace@.frames[i as int] == trace.frames@.map_values(|f: crate::trace::Frame| f@)[i as int]);
                assert(rev[k] == label_of(trace@.frames[n - 1 - k], after_t.show()));
                assert(n - 1 - k == i as int);
                assert(label@ == rev[k]);
                assert(rev.take(k + 1) =~= rev.take(k).push(rev[k]));
                lemma_intern_seq_push(strings_of(after_t.profile), rev.take(k), rev[k]);
                lemma_intern_one_shape(strings_before, rev[k]);
                assert forall|j: int| 0 <= j < handles@.len() implies 0 <= string_slot(
                    #[trigger] handles@[j],
                ) < strings_of(self.profile).len() && strings_of(self.profile)[string_slot(
                    handles@[j],
                )] == rev[j] by {
                    if j < k {
                        assert(handles@[j] == handles@.drop_last()[j]);
                        assert(strings_before.is_prefix_of(strings_of(self.profile)));
                        assert(strings_of(self.profile)[string_slot(handles@[j])]
                            == strings_before[string_slot(handles@[j])]);
                    } else {
                        assert(handles@[j] == h);
                    }
                }
            }
        }
        proof {
            assert(rev.take(n as int) =~= rev);
            lemma_intern_seq_shape(strings_of(after_t.profile), rev);
        }

        let delta_ns: u64 = now_ns - self.last_ns;
        sink::add_sample(&mut self.profile, thread, now_ns, &handles, self.category, delta_ns, 1);
        self.last_ns = now_ns;

        proof {
            let post = *self;
            let s = post.samples().last();
            assert(post.samples().drop_last() =~= pre.samples());
            assert(s.2 == handles@.map_values(
                |hh: StringHandle| (string_slot(hh), category_slot(after_t.category)),
            ));
            assert(category_slot(after_t.category) == pre.sample_category());
            assert forall|j: int| 0 <= j < s.2.len() implies 0 <= (#[trigger] s.2[j]).0
                < post.strings().len() && post.strings()[s.2[j].0] == emitted_labels(
                trace@,
                pre.show(),
            )[j] && s.2[j].1 == pre.sample_category() by {
                assert(s.2[j] == (string_slot(handles@[j]), category_slot(after_t.category)));
            }
            assert forall|k: int| 0 <= k < post.samples().len() implies {
                &&& 0 <= (#[trigger] post.samples()[k]).0 < post.thread_recs().len()
                &&& (forall|j: int|
                    0 <= j < post.samples()[k].2.len() ==> 0 <= (
                    #[trigger] post.samples()[k].2[j]).0 < post.strings().len()
                        && post.samples()[k].2[j].1 == post.sample_category())
                &&& post.samples()[k].4 == 1
                &&& post.samples()[k].1 <= post.last_nanos()
            } by {
                if k < pre.samples().len() {
                    assert(post.samples()[k] == pre.samples()[k]);
                    assert(pre.strings().is_prefix_of(post.strings()));
                    assert(forall|j: int|
                        0 <= j < pre.samples()[k].2.len() ==> 0 <= (
                        #[trigger] pre.samples()[k].2[j]).0 < pre.strings().len()
                            && pre.samples()[k].2[j].1 == pre.sample_category());
                } else {
                    assert(post.samples()[k] == s);
                }
            }
            assert forall|a: int, b: int| 0 <= a <= b < post.samples().len() implies (
            #[trigger] post.samples()[a]).1 <= (#[trigger] post.samples()[b]).1 by {
                if b < pre.samples().len() {
                    assert(pre.samples()[a].1 <= pre.samples()[b].1);
                } else if a < pre.samples().len() {
                    assert(pre.samples()[a].1 <= pre.last_nanos());
                }
            }
            if pre.samples().len() > 0 {
                assert(post.samples()[0] == pre.samples()[0]);
                assert(post.samples()[0].3 == post.samples()[0].1 as int / 1000);
            }
            assert forall|k: int| 0 < k < post.samples().len() implies (
            #[trigger] post.samples()[k]).3 == (post.samples()[k].1 - post.samples()[k - 1].1)
                / 1000 by {
                if k < pre.samples().len() {
                    assert(post.samples()[k] == pre.samples()[k]);
                    assert(post.samples()[k - 1] == pre.samples()[k - 1]);
                } else {
                    assert(post.samples()[k] == s);
                    if k > 0 {
                        assert(post.samples()[k - 1] == pre.samples()[k - 1]);
                        assert(pre.samples()[k - 1] == pre.samples().last());
                    }
                }
            }
        }
        Ok(())
    }

    /// Records one sample for the given snapshot, stamped with the current
    /// monotonic-clock offset from construction.  Cannot fail; the `Result`
    /// exists for interface uniformity with I/O-performing callers.
    pub fn increment(&mut self, trace: &StackTrace) -> (r: std::io::Result<()>)
        requires
            old(self).wf(),
        ensures
            final(self).wf(),
            r is Ok,
            final(self).last_nanos() >= old(self).last_nanos(),
            tick_post(*old(self), *final(self), trace@, final(self).last_nanos()),
    {
        let now = instant_now();
        let raw: u64 = elapsed_nanos(&now, &self.start_ts);
        self.record_at(trace, raw)
    }

    /// Renders the accumulated profile as one JSON document appended to
    /// `out`.  Reads the recorder without changing it, always succeeds on a
    /// byte-buffer sink, and appends exactly the profile's serialization —
    /// so a repeated call on an unchanged recorder appends the same bytes.
    pub fn write(&self, out: &mut Vec<u8>) -> (r: Result<(), WriteError>)
        ensures
            r is Ok,
            final(out)@ == old(out)@ + self.serialized(),
    {
        match sink::write_json(&self.profile, out) {
            Ok(()) => Ok(()),
            Err(_) => Err(WriteError::Serialization),
        }
    }

    /// The number of process records registered so far: one per distinct
    /// observed pid.
    pub fn process_count(&self) -> (n: usize)
        ensures
            n == self.seen_pids().len(),
    {
        self.processes.len()
    }

    /// The number of thread records registered so far: one per distinct
    /// observed thread id.
    pub fn thread_count(&self) -> (n: usize)
        ensures
            n == self.seen_tids().len(),
    {
        self.threads.len()
    }

    /// Law: the profile holds exactly one process record per distinct pid
    /// observed, and one thread record per distinct thread id observed,
    /// whatever the call order or repetition.
    pub proof fn lemma_one_record_per_id(&self)
        requires
            self.wf(),
        ensures
            self.pids().no_duplicates(),
            self.pids().len() == self.seen_pids().len(),
            self.thread_recs().len() == self.seen_tids().len(),
            forall|pid: u32| self.seen_pids().contains(pid) <==> self.pids().contains(pid),
    {
    }

    /// Law: sample timestamps never decrease across the recorder's lifetime.
    pub proof fn lemma_timestamps_nondecreasing(&self, i: int, j: int)
        requires
            self.wf(),
            0 <= i <= j < self.samples().len(),
        ensures
            self.samples()[i].1 <= self.samples()[j].1,
    {
    }

    /// Law: the string table never holds a label twice; every frame of
    /// every sample points into it and is tagged with the single category
    /// registered at construction; and two frames whose labels are equal
    /// share one table entry.
    pub proof fn lemma_frames_share_interned_entries(&self, k1: int, j1: int, k2: int, j2: int)
        requires
            self.wf(),
            0 <= k1 < self.samples().len(),
            0 <= j1 < self.samples()[k1].2.len(),
            0 <= k2 < self.samples().len(),
            0 <= j2 < self.samples()[k2].2.len(),
        ensures
            self.strings().no_duplicates(),
            0 <= self.samples()[k1].2[j1].0 < self.strings().len(),
            self.samples()[k1].2[j1].1 == self.sample_category(),
            self.strings()[self.samples()[k1].2[j1].0] == self.strings()[self.samples()[k2].2[j2].0]
                ==> self.samples()[k1].2[j1].0 == self.samples()[k2].2[j2].0,
    {
        let a = self.samples()[k1].2[j1].0;
        let b = self.samples()[k2].2[j2].0;
        if self.strings()[a] == self.strings()[b] && a != b {
            assert(self.strings()[a] != self.strings()[b]);
        }
    }

    /// Law: with line numbers off, a tick's emitted labels are exactly its
    /// frames' function names, so the table afterwards holds the old labels
    /// plus those names and nothing else: it never grows per distinct
    /// (filename, line) location.
    pub proof fn lemma_table_grows_by_names_only(
        pre: Geckotrace,
        post: Geckotrace,
        t: StackTraceView,
        ts: u64,
    )
        requires
            !pre.show(),
            tick_post(pre, post, t, ts),
        ensures
            forall|x: Seq<char>|
                post.strings().contains(x) <==> pre.strings().contains(x) || (exists|i: int|
                    0 <= i < t.frames.len() && (#[trigger] t.frames[i]).name == x),
    {
        let labels = emitted_labels(t, false);
        lemma_intern_seq_shape(pre.strings(), labels);
        assert forall|x: Seq<char>|
            labels.contains(x) <==> (exists|i: int|
                0 <= i < t.frames.len() && (#[trigger] t.frames[i]).name == x) by {
            if labels.contains(x) {
                let j = choose|j: int| 0 <= j < labels.len() && labels[j] == x;
                assert(t.frames[t.frames.len() - 1 - j].name == x);
            }
            if exists|i: int| 0 <= i < t.frames.len() && (#[trigger] t.frames[i]).name == x {
                let i = choose|i: int| 0 <= i < t.frames.len() && (#[trigger] t.frames[i]).name
                    == x;
                assert(labels[t.frames.len() - 1 - i] == x);
            }
        }
    }

    /// Law: construction fixes the profile metadata for the recorder's
    /// lifetime: the category table holds the store's built-in entry plus
    /// the one category registered at construction — the one every sample
    /// frame is tagged with — the product label is "python" and the
    /// sampling-interval hint is 10 ms.
    pub proof fn lemma_construction_metadata_fixed(&self)
        requires
            self.wf(),
        ensures
            self.categories() == seq![("Other")@, ("Python")@],
            0 <= self.sample_category() < self.categories().len(),
            self.categories()[self.sample_category()] == ("Python")@,
            self.product() == ("python")@,
            self.interval_nanos() == 10_000_000,
            self.proc_starts().len() == self.pids().len(),
    {
    }

    /// Law: a sample's CPU delta is the wall-clock gap, in whole
    /// microseconds, between its tick and the previous one; the first
    /// sample's delta is the gap since construction.
    pub proof fn lemma_cpu_delta_is_tick_gap(&self, k: int)
        requires
            self.wf(),
            0 <= k < self.samples().len(),
        ensures
            k == 0 ==> self.samples()[k].3 == self.samples()[k].1 as int / 1000,
            k > 0 ==> self.samples()[k].3 == (self.samples()[k].1 - self.samples()[k - 1].1)
                / 1000,
    {
    }
}

/// What one recorded tick promises, relating the recorder before (`pre`) and
/// after (`post`) a call that observed `t` and stamped it `ts`:
/// - the pid and thread id are registered, with a record appended only on
///   first observation; a new record carries `ts` as its creation time, and
///   a new thread is linked to its pid's record and marked as main;
/// - the emitted frame labels are interned in emission order, labels already
///   in the table leaving it unchanged;
/// - exactly one sample is appended, on the observed thread's record, whose
///   frame labels are the trace's frame labels in exactly reversed order,
///   each frame tagged with the category registered at construction.
pub open spec fn tick_post(pre: Geckotrace, post: Geckotrace, t: StackTraceView, ts: u64) -> bool {
    &&& post.show() == pre.show()
    &&& post.sample_category() == pre.sample_category()
    &&& post.last_nanos() == ts
    &&& post.seen_pids() == pre.seen_pids().insert(t.pid)
    &&& post.pids() == (if pre.seen_pids().contains(t.pid) {
        pre.pids()
    } else {
        pre.pids().push(t.pid)
    })
    &&& post.proc_starts() == (if pre.seen_pids().contains(t.pid) {
        pre.proc_starts()
    } else {
        pre.proc_starts().push(ts)
    })
    &&& post.pids()[post.pid_slot(t.pid)] == t.pid
    &&& post.seen_tids() == pre.seen_tids().insert(t.thread_id)
    &&& post.thread_recs() == (if pre.seen_tids().contains(t.thread_id) {
        pre.thread_recs()
    } else {
        pre.thread_recs().push(
            (post.pid_slot(t.pid), t.thread_id as u32, t.thread_name, ts, true),
        )
    })
    &&& post.strings() == intern_seq(pre.strings(), emitted_labels(t, pre.show()))
    &&& post.samples().drop_last() == pre.samples()
    &&& post.samples().len() == pre.samples().len() + 1
    &&& post.samples().last().0 == post.tid_slot(t.thread_id)
    &&& post.samples().last().1 == ts
    &&& post.samples().last().3 == (ts - pre.last_nanos()) / 1000
    &&& post.samples().last().4 == 1
    &&& post.samples().last().2.len() == t.frames.len()
    &&& (forall|j: int|
        0 <= j < t.frames.len() ==> post.strings()[(#[trigger] post.samples().last().2[j]).0]
            == emitted_labels(t, pre.show())[j] && post.samples().last().2[j].1
            == pre.sample_category())
}

} // verus!

