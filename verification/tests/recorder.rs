use gecko_recorder::recorder::Geckotrace;
use gecko_recorder::trace::{Frame, StackTrace};
use serde_json::Value;
use std::collections::BTreeSet;

fn frame(name: &str, file: &str, line: u32) -> Frame {
    Frame { name: name.to_string(), filename: file.to_string(), line }
}

fn trace(pid: u32, tid: u64, name: Option<&str>, frames: Vec<Frame>) -> StackTrace {
    StackTrace { pid, thread_id: tid, thread_name: name.map(|s| s.to_string()), frames }
}

fn written_json(rec: &Geckotrace) -> Value {
    let mut out: Vec<u8> = Vec::new();
    rec.write(&mut out).unwrap();
    serde_json::from_slice(&out).unwrap()
}

/// The labels of one emitted sample, caller-most frame first, resolved
/// through the stack, frame and function tables.
fn sample_labels(thread: &Value, sample_index: usize) -> Vec<String> {
    let stacks = thread["samples"]["stack"].as_array().unwrap();
    let prefixes = thread["stackTable"]["prefix"].as_array().unwrap();
    let stack_frames = thread["stackTable"]["frame"].as_array().unwrap();
    let frame_funcs = thread["frameTable"]["func"].as_array().unwrap();
    let func_names = thread["funcTable"]["name"].as_array().unwrap();
    let strings = thread["stringArray"].as_array().unwrap();
    let mut labels: Vec<String> = Vec::new();
    let mut cur = stacks[sample_index].clone();
    while !cur.is_null() {
        let si = cur.as_u64().unwrap() as usize;
        let fi = stack_frames[si].as_u64().unwrap() as usize;
        let func = frame_funcs[fi].as_u64().unwrap() as usize;
        let name_index = func_names[func].as_u64().unwrap() as usize;
        labels.push(strings[name_index].as_str().unwrap().to_string());
        cur = prefixes[si].clone();
    }
    labels.reverse();
    labels
}

fn string_array_set(thread: &Value) -> BTreeSet<String> {
    thread["stringArray"]
        .as_array()
        .unwrap()
        .iter()
        .map(|v| v.as_str().unwrap().to_string())
        .collect()
}

#[test]
fn end_to_end_two_samples_one_thread() {
    let mut rec = Geckotrace::new(false);
    rec.increment(&trace(1, 100, None, vec![frame("foo", "a.py", 1), frame("bar", "a.py", 2)]))
        .unwrap();
    rec.increment(&trace(1, 100, None, vec![frame("bar", "a.py", 2)])).unwrap();
    assert_eq!(rec.process_count(), 1);
    assert_eq!(rec.thread_count(), 1);

    let json = written_json(&rec);
    let threads = json["threads"].as_array().unwrap();
    assert_eq!(threads.len(), 1);
    let thread = &threads[0];
    assert_eq!(thread["samples"]["length"].as_u64().unwrap(), 2);

    let mut expected = BTreeSet::new();
    expected.insert("foo".to_string());
    expected.insert("bar".to_string());
    assert_eq!(string_array_set(thread), expected);

    assert_eq!(sample_labels(thread, 0), vec!["bar".to_string(), "foo".to_string()]);
    assert_eq!(sample_labels(thread, 1), vec!["bar".to_string()]);
}

#[test]
fn distinct_pids_make_distinct_processes_even_when_tids_collide() {
    let mut rec = Geckotrace::new(false);
    rec.increment(&trace(1, 7, None, vec![frame("foo", "a.py", 1)])).unwrap();
    rec.increment(&trace(2, 7, None, vec![frame("foo", "a.py", 1)])).unwrap();
    assert_eq!(rec.process_count(), 2);
    assert_eq!(rec.thread_count(), 1);

    let json = written_json(&rec);
    let threads = json["threads"].as_array().unwrap();
    assert_eq!(threads.len(), 1);
    assert_eq!(threads[0]["pid"].as_str().unwrap(), "1");
    assert_eq!(threads[0]["samples"]["length"].as_u64().unwrap(), 2);
}

#[test]
fn repeated_ids_register_once() {
    let mut rec = Geckotrace::new(false);
    for _ in 0..5 {
        rec.increment(&trace(3, 30, None, vec![frame("f", "a.py", 1)])).unwrap();
        rec.increment(&trace(4, 40, None, vec![frame("g", "b.py", 2)])).unwrap();
    }
    assert_eq!(rec.process_count(), 2);
    assert_eq!(rec.thread_count(), 2);
}

#[test]
fn without_line_numbers_location_is_ignored() {
    let mut rec = Geckotrace::new(false);
    rec.increment(&trace(1, 1, None, vec![frame("f", "a.py", 1)])).unwrap();
    rec.increment(&trace(1, 1, None, vec![frame("f", "b.py", 99)])).unwrap();
    let json = written_json(&rec);
    let thread = &json["threads"].as_array().unwrap()[0];
    let mut expected = BTreeSet::new();
    expected.insert("f".to_string());
    assert_eq!(string_array_set(thread), expected);
    assert_eq!(sample_labels(thread, 0), vec!["f".to_string()]);
    assert_eq!(sample_labels(thread, 1), vec!["f".to_string()]);
}

#[test]
fn with_line_numbers_locations_are_distinguished() {
    let mut rec = Geckotrace::new(true);
    rec.increment(&trace(1, 1, None, vec![frame("f", "a.py", 1)])).unwrap();
    rec.increment(&trace(1, 1, None, vec![frame("f", "b.py", 99)])).unwrap();
    let json = written_json(&rec);
    let thread = &json["threads"].as_array().unwrap()[0];
    let mut expected = BTreeSet::new();
    expected.insert("f a.py:1".to_string());
    expected.insert("f b.py:99".to_string());
    assert_eq!(string_array_set(thread), expected);
    assert_eq!(sample_labels(thread, 0), vec!["f a.py:1".to_string()]);
    assert_eq!(sample_labels(thread, 1), vec!["f b.py:99".to_string()]);
}

#[test]
fn multi_digit_line_numbers_render_in_decimal() {
    let mut rec = Geckotrace::new(true);
    rec.increment(&trace(1, 1, None, vec![frame("f", "a.py", 12345)])).unwrap();
    let json = written_json(&rec);
    let thread = &json["threads"].as_array().unwrap()[0];
    assert_eq!(sample_labels(thread, 0), vec!["f a.py:12345".to_string()]);
}

#[test]
fn timestamps_and_cpu_deltas_follow_the_ticks() {
    let mut rec = Geckotrace::new(false);
    let t = trace(1, 1, None, vec![frame("f", "a.py", 1)]);
    rec.record_at(&t, 5_000_000).unwrap();
    rec.record_at(&t, 12_000_000).unwrap();
    let json = written_json(&rec);
    let thread = &json["threads"].as_array().unwrap()[0];
    let time_deltas = thread["samples"]["timeDeltas"].as_array().unwrap();
    assert_eq!(time_deltas[0].as_f64().unwrap(), 5.0);
    assert_eq!(time_deltas[1].as_f64().unwrap(), 7.0);
    let deltas = thread["samples"]["threadCPUDelta"].as_array().unwrap();
    assert_eq!(deltas[0].as_u64().unwrap(), 5_000);
    assert_eq!(deltas[1].as_u64().unwrap(), 7_000);
}

#[test]
fn a_clock_reading_going_backwards_never_lowers_timestamps() {
    let mut rec = Geckotrace::new(false);
    let t = trace(1, 1, None, vec![frame("f", "a.py", 1)]);
    rec.record_at(&t, 12_000_000).unwrap();
    rec.record_at(&t, 3_000_000).unwrap();
    let json = written_json(&rec);
    let thread = &json["threads"].as_array().unwrap()[0];
    let time_deltas = thread["samples"]["timeDeltas"].as_array().unwrap();
    assert_eq!(time_deltas[0].as_f64().unwrap(), 12.0);
    assert_eq!(time_deltas[1].as_f64().unwrap(), 0.0);
    let deltas = thread["samples"]["threadCPUDelta"].as_array().unwrap();
    assert_eq!(deltas[1].as_u64().unwrap(), 0);
}

#[test]
fn main_threads_display_the_process_name() {
    // Every thread is registered as a main thread, and the output format
    // displays a main thread under its process's name, whatever display
    // name was attached at registration.
    let mut rec = Geckotrace::new(false);
    rec.increment(&trace(1, 1, Some("worker"), vec![frame("f", "a.py", 1)])).unwrap();
    rec.increment(&trace(1, 1, Some("other"), vec![frame("f", "a.py", 1)])).unwrap();
    let json = written_json(&rec);
    let thread = &json["threads"].as_array().unwrap()[0];
    assert_eq!(thread["name"].as_str().unwrap(), "python");
    assert_eq!(thread["isMainThread"].as_bool().unwrap(), true);
}

#[test]
fn a_trace_with_no_frames_still_appends_a_sample() {
    let mut rec = Geckotrace::new(false);
    rec.increment(&trace(1, 1, None, Vec::new())).unwrap();
    let json = written_json(&rec);
    let thread = &json["threads"].as_array().unwrap()[0];
    assert_eq!(thread["samples"]["length"].as_u64().unwrap(), 1);
    assert!(thread["samples"]["stack"].as_array().unwrap()[0].is_null());
}

#[test]
fn writing_twice_produces_identical_bytes() {
    let mut rec = Geckotrace::new(false);
    rec.increment(&trace(1, 100, None, vec![frame("foo", "a.py", 1), frame("bar", "a.py", 2)]))
        .unwrap();
    let mut first: Vec<u8> = Vec::new();
    let mut second: Vec<u8> = Vec::new();
    rec.write(&mut first).unwrap();
    rec.write(&mut second).unwrap();
    assert!(!first.is_empty());
    assert_eq!(first, second);
}

#[test]
fn construction_metadata_is_fixed() {
    let rec = Geckotrace::new(false);
    let json = written_json(&rec);
    assert_eq!(json["meta"]["product"].as_str().unwrap(), "python");
    assert_eq!(json["meta"]["interval"].as_f64().unwrap(), 10.0);
    let categories = json["meta"]["categories"].as_array().unwrap();
    assert!(categories.iter().any(|c| c["name"].as_str() == Some("Python")));
    assert_eq!(json["threads"].as_array().unwrap().len(), 0);
}
