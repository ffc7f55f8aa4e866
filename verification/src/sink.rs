//! The trusted boundary to the profile store and serializer.
//!
//! The recorder's output lives in `fxprof_processed_profile::Profile`, an
//! opaque store of category, process, thread, sample and interned-string
//! records plus fixed construction metadata.  Its contents are modelled by
//! uninterpreted projection functions, and each method the recorder calls is
//! wrapped in a function whose contract states, over those projections, what
//! the crate's source shows the method doing.
//!
//! Record shapes used by the projections:
//! - a process record is the pid it was registered with (`pids_of`) together
//!   with its creation time in ns (`proc_starts_of`, a parallel sequence);
//! - a thread record is `(process slot, tid, display name, creation time in
//!   ns, is-main flag)`;
//! - a sample record is `(thread slot, timestamp in ns, frames in
//!   caller-first order — each a (string slot, category slot) pair — cpu
//!   delta in whole us, weight)`;
//! - a category record is its name.
//!
//! A "slot" is the index of the record that a handle designates.

use fxprof_processed_profile::{
    CategoryColor, CategoryPairHandle, CpuDelta, Frame, FrameFlags, FrameInfo, ProcessHandle,
    Profile, ReferenceTimestamp, SamplingInterval, StringHandle, ThreadHandle, Timestamp,
};
use std::time::SystemTime;
use vstd::prelude::*;

verus! {

#[verifier::external_type_specification]
#[verifier::external_body]
pub struct ExProfile(Profile);

#[verifier::external_type_specification]
#[verifier::external_body]
pub struct ExProcessHandle(ProcessHandle);

#[verifier::external_type_specification]
#[verifier::external_body]
pub struct ExThreadHandle(ThreadHandle);

#[verifier::external_type_specification]
#[verifier::external_body]
pub struct ExStringHandle(StringHandle);

#[verifier::external_type_specification]
#[verifier::external_body]
pub struct ExCategoryPairHandle(CategoryPairHandle);

#[verifier::external_type_specification]
#[verifier::external_body]
pub struct ExJsonError(serde_json::Error);

#[verifier::external_type_specification]
#[verifier::external_body]
pub struct ExIoError(std::io::Error);

/// The pids of the profile's process records, in registration order.
pub uninterp spec fn pids_of(p: Profile) -> Seq<u32>;

/// The creation times (ns) of the profile's process records, parallel to
/// `pids_of`.
pub uninterp spec fn proc_starts_of(p: Profile) -> Seq<u64>;

/// The profile's thread records, in registration order.
pub uninterp spec fn threads_of(p: Profile) -> Seq<(int, u32, Option<Seq<char>>, u64, bool)>;

/// The profile's interned-string table, in interning order.
pub uninterp spec fn strings_of(p: Profile) -> Seq<Seq<char>>;

/// The profile's samples, in append order.
pub uninterp spec fn samples_of(p: Profile) -> Seq<(int, u64, Seq<(int, int)>, u64, int)>;

/// The names of the profile's category records, in registration order.
pub uninterp spec fn categories_of(p: Profile) -> Seq<Seq<char>>;

/// The profile's product label.
pub uninterp spec fn product_of(p: Profile) -> Seq<char>;

/// The profile's sampling-interval hint, in nanoseconds.
pub uninterp spec fn interval_nanos_of(p: Profile) -> u64;

/// The JSON rendering of a profile value.  Well-defined: every serialized
/// table is `Vec`-backed and nothing iterates a hash map, so the bytes are a
/// function of the profile value alone.
pub uninterp spec fn json_of(p: Profile) -> Seq<u8>;

/// The index of the process record a handle designates.
pub uninterp spec fn process_slot(h: ProcessHandle) -> int;

/// The index of the thread record a handle designates.
pub uninterp spec fn thread_slot(h: ThreadHandle) -> int;

/// The index of the string-table entry a handle designates.
pub uninterp spec fn string_slot(h: StringHandle) -> int;

/// The index of the category record a category-pair handle designates.
pub uninterp spec fn category_slot(c: CategoryPairHandle) -> int;

/// The construction metadata — product label, sampling interval, category
/// list — that no recorder operation after construction touches.
pub open spec fn same_metadata(a: Profile, b: Profile) -> bool {
    &&& categories_of(b) == categories_of(a)
    &&& product_of(b) == product_of(a)
    &&& interval_nanos_of(b) == interval_nanos_of(a)
}

/// Relies on `Profile::new`: a fresh profile holds no process, thread or
/// sample records and no interned strings; its category list holds only the
/// store's built-in "Other" category; its product label is "python" and its
/// sampling-interval hint 10 ms (100 Hz nominal).  The reference timestamp
/// is the wall clock at construction (zero if the clock reads before the
/// Unix epoch), which no projection names: it is environment-chosen.
#[verifier::external_body]
pub(crate) fn new_profile() -> (p: Profile)
    ensures
        pids_of(p) == Seq::<u32>::empty(),
        proc_starts_of(p) == Seq::<u64>::empty(),
        threads_of(p) == Seq::<(int, u32, Option<Seq<char>>, u64, bool)>::empty(),
        strings_of(p) == Seq::<Seq<char>>::empty(),
        samples_of(p) == Seq::<(int, u64, Seq<(int, int)>, u64, int)>::empty(),
        categories_of(p) == seq![("Other")@],
        product_of(p) == ("python")@,
        interval_nanos_of(p) == 10_000_000,
{
    let since_epoch = SystemTime::now()
        .duration_since(SystemTime::UNIX_EPOCH)
        .unwrap_or(std::time::Duration::from_secs(0));
    Profile::new(
        "python",
        ReferenceTimestamp::from_duration_since_unix_epoch(since_epoch),
        SamplingInterval::from_millis(10),
    )
}

/// Relies on `Profile::add_category`: appends one category record named
/// "Python" and returns its handle, touching no other record.  The handle
/// indexes this profile's category list; it must not be used with a profile
/// it did not come from.
#[verifier::external_body]
pub(crate) fn add_category(p: &mut Profile) -> (c: CategoryPairHandle)
    ensures
        categories_of(*final(p)) == categories_of(*old(p)).push(("Python")@),
        category_slot(c) == categories_of(*old(p)).len() as int,
        product_of(*final(p)) == product_of(*old(p)),
        interval_nanos_of(*final(p)) == interval_nanos_of(*old(p)),
        pids_of(*final(p)) == pids_of(*old(p)),
        proc_starts_of(*final(p)) == proc_starts_of(*old(p)),
        threads_of(*final(p)) == threads_of(*old(p)),
        strings_of(*final(p)) == strings_of(*old(p)),
        samples_of(*final(p)) == samples_of(*old(p)),
{
    p.add_category("Python", CategoryColor::Yellow).into()
}

/// Relies on `Profile::add_process`: appends one process record with the
/// given pid and creation time and returns a handle to the new record.
#[verifier::external_body]
pub(crate) fn add_process(p: &mut Profile, pid: u32, start_ns: u64) -> (h: ProcessHandle)
    ensures
        pids_of(*final(p)) == pids_of(*old(p)).push(pid),
        proc_starts_of(*final(p)) == proc_starts_of(*old(p)).push(start_ns),
        process_slot(h) == pids_of(*old(p)).len() as int,
        threads_of(*final(p)) == threads_of(*old(p)),
        strings_of(*final(p)) == strings_of(*old(p)),
        samples_of(*final(p)) == samples_of(*old(p)),
        same_metadata(*old(p), *final(p)),
{
    p.add_process("python", pid, Timestamp::from_nanos_since_reference(start_ns))
}

/// Relies on `Profile::add_thread`: appends one thread record under the
/// process record that `process` designates, with the given creation time
/// and is-main flag and no display name yet, and returns a handle to the new
/// record.  It indexes the process list with the handle, so the slot must be
/// in range.
#[verifier::external_body]
pub(crate) fn add_thread(
    p: &mut Profile,
    process: ProcessHandle,
    tid: u32,
    start_ns: u64,
    is_main: bool,
) -> (h: ThreadHandle)
    requires
        0 <= process_slot(process) < pids_of(*old(p)).len(),
    ensures
        threads_of(*final(p)) == threads_of(*old(p)).push(
            (process_slot(process), tid, None::<Seq<char>>, start_ns, is_main),
        ),
        thread_slot(h) == threads_of(*old(p)).len() as int,
        pids_of(*final(p)) == pids_of(*old(p)),
        proc_starts_of(*final(p)) == proc_starts_of(*old(p)),
        strings_of(*final(p)) == strings_of(*old(p)),
        samples_of(*final(p)) == samples_of(*old(p)),
        same_metadata(*old(p), *final(p)),
{
    p.add_thread(process, tid, Timestamp::from_nanos_since_reference(start_ns), is_main)
}

/// Relies on `Profile::set_thread_name`: replaces the display name of the
/// thread record that `thread` designates, leaving its other components as
/// they are.  It indexes the thread list with the handle, so the slot must
/// be in range.
#[verifier::external_body]
pub(crate) fn set_thread_name(p: &mut Profile, thread: ThreadHandle, name: &str)
    requires
        0 <= thread_slot(thread) < threads_of(*old(p)).len(),
    ensures
        threads_of(*final(p)) == threads_of(*old(p)).update(
            thread_slot(thread),
            (
                threads_of(*old(p))[thread_slot(thread)].0,
                threads_of(*old(p))[thread_slot(thread)].1,
                Some(name@),
                threads_of(*old(p))[thread_slot(thread)].3,
                threads_of(*old(p))[thread_slot(thread)].4,
            ),
        ),
        pids_of(*final(p)) == pids_of(*old(p)),
        proc_starts_of(*final(p)) == proc_starts_of(*old(p)),
        strings_of(*final(p)) == strings_of(*old(p)),
        samples_of(*final(p)) == samples_of(*old(p)),
        same_metadata(*old(p), *final(p)),
{
    p.set_thread_name(thread, name);
}

/// Relies on `Profile::intern_string`: deduplicating interning into the
/// profile-wide string table.  A string already in the table leaves the
/// table unchanged; a new one is appended; either way the returned handle
/// holds the index of the string's entry.
#[verifier::external_body]
pub(crate) fn intern_string(p: &mut Profile, s: &str) -> (h: StringHandle)
    ensures
        strings_of(*final(p)) == (if strings_of(*old(p)).contains(s@) {
            strings_of(*old(p))
        } else {
            strings_of(*old(p)).push(s@)
        }),
        0 <= string_slot(h) < strings_of(*final(p)).len(),
        strings_of(*final(p))[string_slot(h)] == s@,
        pids_of(*final(p)) == pids_of(*old(p)),
        proc_starts_of(*final(p)) == proc_starts_of(*old(p)),
        threads_of(*final(p)) == threads_of(*old(p)),
        samples_of(*final(p)) == samples_of(*old(p)),
        same_metadata(*old(p), *final(p)),
{
    p.intern_string(s)
}

/// Relies on `Profile::intern_stack_frames` and `Profile::add_sample`:
/// appends one sample to the thread record that `thread` designates, with
/// the given timestamp, the label frames in caller-first order — each tagged
/// with the category record that `category` designates — the CPU delta
/// stored in whole microseconds, and the given weight.  Both methods index
/// the thread list with the handle, and each label handle's string-table
/// entry is looked up and unwrapped, so all slots must be in range.
#[verifier::external_body]
pub(crate) fn add_sample(
    p: &mut Profile,
    thread: ThreadHandle,
    ts_ns: u64,
    frames: &Vec<StringHandle>,
    category: CategoryPairHandle,
    delta_ns: u64,
    weight: i32,
)
    requires
        0 <= thread_slot(thread) < threads_of(*old(p)).len(),
        forall|j: int|
            0 <= j < frames@.len() ==> 0 <= string_slot(#[trigger] frames@[j]) < strings_of(
                *old(p),
            ).len(),
    ensures
        samples_of(*final(p)) == samples_of(*old(p)).push(
            (
                thread_slot(thread),
                ts_ns,
                frames@.map_values(|h: StringHandle| (string_slot(h), category_slot(category))),
                delta_ns / 1000,
                weight as int,
            ),
        ),
        pids_of(*final(p)) == pids_of(*old(p)),
        proc_starts_of(*final(p)) == proc_starts_of(*old(p)),
        threads_of(*final(p)) == threads_of(*old(p)),
        strings_of(*final(p)) == strings_of(*old(p)),
        same_metadata(*old(p), *final(p)),
{
    let infos = frames.iter().map(|h| FrameInfo {
        frame: Frame::Label(*h),
        category_pair: category,
        flags: FrameFlags::empty(),
    });
    let stack = p.intern_stack_frames(thread, infos);
    p.add_sample(thread, Timestamp::from_nanos_since_reference(ts_ns), stack, CpuDelta::from_nanos(delta_ns), weight);
}

/// Relies on `serde_json::to_writer`: renders the profile as one JSON
/// document appended to `out`.  It always succeeds here: every serialized
/// table of the profile is `Vec`-backed, all map keys are strings, and
/// `io::Write` for `Vec<u8>` cannot fail; the bytes depend on the profile
/// value alone, so they are named by `json_of`.
#[verifier::external_body]
pub(crate) fn write_json(p: &Profile, out: &mut Vec<u8>) -> (r: Result<(), serde_json::Error>)
    ensures
        r is Ok,
        final(out)@ == old(out)@ + json_of(*p),
{
    serde_json::to_writer(&mut *out, p)
}

} // verus!
