use std::sync::{Arc, Mutex};

use mod_level_filter::filter::{dropped_result, observe_entry, wrap_forwarded};
use mod_level_filter::{Level, ModLevelFilter, ModLevelMap};

/// A stand-in downstream sink: it records every message it is given, or
/// fails on each call, so tests can observe exactly what reaches it.
enum TestDrain {
    Recording(Arc<Mutex<Vec<String>>>),
    Failing(String),
}

impl TestDrain {
    fn log(&self, msg: &str) -> Result<(), String> {
        match self {
            TestDrain::Recording(output) => {
                if !msg.contains("YES") && !msg.contains("NO") {
                    panic!("{}", msg);
                }
                output.lock().unwrap().push(msg.to_string());
                Ok(())
            }
            TestDrain::Failing(e) => Err(e.clone()),
        }
    }
}

/// Drives one record through the filter the way a sink decorator would:
/// walk the record's key-value context for the module key (skipped when no
/// module has its own level), decide, and only on a pass invoke the
/// downstream sink.
fn send(
    filter: &ModLevelFilter<TestDrain>,
    severity: Level,
    kvs: &[(&str, &str)],
    msg: &str,
) -> Result<Option<()>, Option<String>> {
    let mut found: Option<String> = None;
    if filter.has_overrides() {
        for (k, v) in kvs {
            found = observe_entry(found, filter.mod_key(), k, v);
        }
    }
    if filter.should_forward(severity, found.as_deref()) {
        wrap_forwarded(filter.drain().log(msg))
    } else {
        dropped_result()
    }
}

fn example_filter(out: &Arc<Mutex<Vec<String>>>) -> ModLevelFilter<TestDrain> {
    let drain = TestDrain::Recording(out.clone());
    let mut vmodule = ModLevelMap::new();
    vmodule.insert("foo", Level::Debug);
    vmodule.insert("bar", Level::Error);
    ModLevelFilter::new(drain, "module".to_string(), Level::Warning, vmodule)
}

#[test]
fn test_vmodule_filter() {
    let out = Arc::new(Mutex::new(vec![]));
    let filter = example_filter(&out);

    // Context of each logger: the root logger names no module.
    let root: &[(&str, &str)] = &[];
    let foo: &[(&str, &str)] = &[("module", "foo")];
    let bar: &[(&str, &str)] = &[("module", "bar")];
    let foobar: &[(&str, &str)] = &[("module", "foobar")];

    let _ = send(&filter, Level::Debug, root, "NO: filtered, default filter level is Warning");
    let _ = send(&filter, Level::Debug, foo, "YES: unfiltered, foo's filter level is Debug");
    let _ = send(&filter, Level::Debug, bar, "NO: filtered, bar's filter level is Error");
    let _ = send(&filter, Level::Debug, foobar, "NO: filtered, same filter level as root");

    let _ = send(&filter, Level::Info, root, "NO: filtered");
    let _ = send(&filter, Level::Info, foo, "YES: unfiltered");
    let _ = send(&filter, Level::Info, bar, "NO: filtered");
    let _ = send(&filter, Level::Info, foobar, "NO: filtered");

    let _ = send(&filter, Level::Warning, root, "YES: unfiltered, default filter level Warning");
    let _ = send(&filter, Level::Warning, foo, "YES: unfiltered");
    let _ = send(&filter, Level::Warning, bar, "NO: filtered, higher level than default");
    let _ = send(&filter, Level::Warning, foobar, "YES: unfiltered, same as root");

    let _ = send(&filter, Level::Error, root, "YES: unfiltered");
    let _ = send(&filter, Level::Error, foo, "YES: unfiltered");
    let _ = send(&filter, Level::Error, bar, "YES: unfiltered, meets bar's filter level");
    let _ = send(&filter, Level::Error, foobar, "YES: unfiltered");

    println!("resulting output: {:#?}", *out.lock().unwrap());

    assert_eq!(out.lock().unwrap().len(), 9);
}

#[test]
fn test_default_level_passthrough() {
    // With an empty map, only the default level decides, whatever module a
    // record names.
    let out = Arc::new(Mutex::new(vec![]));
    let drain = TestDrain::Recording(out.clone());
    let filter =
        ModLevelFilter::new(drain, "module".to_string(), Level::Warning, ModLevelMap::new());

    assert!(!filter.has_overrides());
    assert!(!filter.should_forward(Level::Debug, None));
    assert!(!filter.should_forward(Level::Info, Some("foo")));
    assert!(filter.should_forward(Level::Warning, None));
    assert!(filter.should_forward(Level::Error, Some("foo")));
    assert!(filter.should_forward(Level::Critical, Some("bar")));
}

#[test]
fn test_module_override_precedence() {
    let out = Arc::new(Mutex::new(vec![]));
    let filter = example_filter(&out);

    // foo has its own, lower, threshold.
    assert!(filter.should_forward(Level::Debug, Some("foo")));
    // bar has its own, higher, threshold.
    assert!(!filter.should_forward(Level::Debug, Some("bar")));
    assert!(!filter.should_forward(Level::Warning, Some("bar")));
    // foobar is untracked and falls back to the default.
    assert!(!filter.should_forward(Level::Debug, Some("foobar")));
    assert!(filter.should_forward(Level::Warning, Some("foobar")));
}

#[test]
fn test_boundary_severity_forwarded() {
    // A severity exactly at the effective threshold passes.
    let out = Arc::new(Mutex::new(vec![]));
    let filter = example_filter(&out);

    assert!(filter.should_forward(Level::Debug, Some("foo")));
    assert!(filter.should_forward(Level::Error, Some("bar")));
    assert!(filter.should_forward(Level::Warning, None));
    assert!(!filter.should_forward(Level::Trace, Some("foo")));
    assert!(!filter.should_forward(Level::Warning, Some("bar")));
    assert!(!filter.should_forward(Level::Info, None));
}

#[test]
fn test_dropped_record_reaches_no_downstream() {
    // A dropped record must leave the downstream sink uninvoked.
    let out = Arc::new(Mutex::new(vec![]));
    let filter = example_filter(&out);

    let r = send(&filter, Level::Trace, &[("module", "foo")], "NO: filtered");
    assert_eq!(r, Ok(None));
    assert_eq!(out.lock().unwrap().len(), 0);
}

#[test]
fn test_forwarded_record_reported_distinctly() {
    let out = Arc::new(Mutex::new(vec![]));
    let filter = example_filter(&out);

    let r = send(&filter, Level::Critical, &[], "YES: unfiltered");
    assert_eq!(r, Ok(Some(())));
    assert_eq!(out.lock().unwrap().len(), 1);
}

#[test]
fn test_downstream_error_propagates() {
    // A failure of the downstream sink surfaces unchanged in kind.
    let drain = TestDrain::Failing("downstream failed".to_string());
    let filter =
        ModLevelFilter::new(drain, "module".to_string(), Level::Warning, ModLevelMap::new());

    let r = send(&filter, Level::Error, &[], "boom");
    assert_eq!(r, Err(Some("downstream failed".to_string())));
}

#[test]
fn test_observe_entry_last_match_wins() {
    // A later context layer with the module key overwrites an earlier one.
    let first = observe_entry(None, "module", "module", "foo");
    assert_eq!(first, Some("foo".to_string()));
    let second = observe_entry(first, "module", "module", "bar");
    assert_eq!(second, Some("bar".to_string()));
}

#[test]
fn test_observe_entry_other_keys_ignored() {
    let kept = observe_entry(Some("foo".to_string()), "module", "peer", "10.0.0.1");
    assert_eq!(kept, Some("foo".to_string()));
    let none = observe_entry(None, "module", "peer", "10.0.0.1");
    assert_eq!(none, None);
}

#[test]
fn test_level_order() {
    let levels = [
        Level::Trace,
        Level::Debug,
        Level::Info,
        Level::Warning,
        Level::Error,
        Level::Critical,
    ];
    for (i, a) in levels.iter().enumerate() {
        for (j, b) in levels.iter().enumerate() {
            assert_eq!(a.is_at_least(*b), i >= j);
        }
    }
}

#[test]
fn test_wrap_forwarded_keeps_kind() {
    let ok: Result<u32, String> = Ok(7);
    assert_eq!(wrap_forwarded(ok), Ok(Some(7)));
    let err: Result<u32, String> = Err("e".to_string());
    assert_eq!(wrap_forwarded(err), Err(Some("e".to_string())));
    let dropped: Result<Option<u32>, Option<String>> = dropped_result();
    assert_eq!(dropped, Ok(None));
}
