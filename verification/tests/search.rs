use windows_registry_search::{
    any_term_matches, run_thread, EntryCounts, KeyListing, RegistryValue, RunAction, RunEvent,
    StringSet, Wake, WorkStep, WorkerEvent, WorkerManager,
};

const NONE: EntryCounts = EntryCounts { keys: 0, values: 0 };

fn strings(list: &[&str]) -> Vec<String> {
    list.iter().map(|text| text.to_string()).collect()
}

fn listed(set: &StringSet) -> Vec<String> {
    (0..set.len()).map(|place| set.get(place).to_string()).collect()
}

fn value(name: &str, data: &str, kind: &str) -> Result<RegistryValue, String> {
    Ok(RegistryValue {
        name: name.to_string(),
        data: data.to_string(),
        kind: kind.to_string(),
    })
}

fn taken(step: WorkStep) -> Option<String> {
    match step {
        WorkStep::Process(key) => Some(key),
        WorkStep::Wait | WorkStep::Stop => None,
    }
}

#[test]
fn terms_match_in_any_case() {
    let manager = WorkerManager::new(strings(&["Google Chrome", "7-ZIP"]), 4);
    assert!(manager.string_matches("the GOOGLE chrome browser"));
    assert!(manager.string_matches("C:\\7-zip\\7z.exe"));
    assert!(!manager.string_matches("google  chrome"));
    assert!(!manager.string_matches(""));
}

#[test]
fn case_is_ignored_beyond_ascii() {
    let manager = WorkerManager::new(strings(&["\u{dc}BER"]), 1);
    assert!(manager.string_matches("\u{fc}ber"));
    assert!(manager.string_matches("\u{dc}ber alles"));
    assert!(!manager.string_matches("uber"));
}

#[test]
fn either_string_may_match() {
    let manager = WorkerManager::new(strings(&["zip"]), 1);
    assert!(manager.any_string_matches("7-Zip", "other"));
    assert!(manager.any_string_matches("other", "7-Zip"));
    assert!(!manager.any_string_matches("z", "ip"));
}

#[test]
fn no_terms_match_nothing_and_an_empty_term_everything() {
    let none = WorkerManager::new(Vec::new(), 1);
    assert!(!none.string_matches("anything"));
    assert!(!none.string_matches(""));
    let empty = WorkerManager::new(strings(&[""]), 1);
    assert!(empty.string_matches("anything"));
    assert!(empty.string_matches(""));
}

#[test]
fn terms_that_differ_in_case_start_the_same_search() {
    let lower = WorkerManager::new(strings(&["mixed"]), 1);
    let upper = WorkerManager::new(strings(&["MiXeD"]), 1);
    for text in ["mixed", "MIXED", "a Mixed bag", "max"] {
        assert_eq!(lower.string_matches(text), upper.string_matches(text));
    }
}

#[test]
fn ascii_case_makes_no_difference() {
    let terms = ["Zip [@`{z", "C:\\"];
    let as_given = WorkerManager::new(strings(&terms), 1);
    let uppered: Vec<String> = terms.iter().map(|term| term.to_ascii_uppercase()).collect();
    let in_upper_case = WorkerManager::new(uppered, 1);
    for (text, expected) in [("7-zIP [@`{Z", true), ("c:\\x", true), ("zip {@", false)] {
        assert_eq!(as_given.string_matches(text), expected);
        assert_eq!(as_given.string_matches(&text.to_ascii_uppercase()), expected);
        assert_eq!(as_given.string_matches(&text.to_ascii_lowercase()), expected);
        assert_eq!(in_upper_case.string_matches(text), expected);
    }
}

#[test]
fn a_longer_path_keeps_matching() {
    let manager = WorkerManager::new(strings(&["zip"]), 1);
    assert!(manager.string_matches("7-Zip"));
    assert!(manager.string_matches("7-Zip\\Options"));
    assert!(manager.string_matches("Software\\7-Zip"));
}

#[test]
fn counts_go_on_from_search_to_search() {
    let mut counts = NONE;
    let opened = Ok(KeyListing { subkeys: vec![Ok("k".to_string())], values: Vec::new() });
    for visits in 1..3 {
        let mut manager = WorkerManager::new(Vec::new(), 1);
        assert_eq!(manager.feed_queue_and_process_values("K", &opened, &mut counts), Ok(()));
        assert_eq!(counts, EntryCounts { keys: visits, values: 0 });
    }
}

#[test]
fn more_terms_match_more() {
    let few = WorkerManager::new(strings(&["a"]), 1);
    let more = WorkerManager::new(strings(&["b", "a"]), 1);
    assert!(few.string_matches("xax") && more.string_matches("xax"));
    assert!(!few.string_matches("xbx") && more.string_matches("xbx"));
}

#[test]
fn terms_are_looked_for_as_they_stand() {
    let terms = strings(&["ab", "cd"]);
    assert!(any_term_matches(&terms, "xxcdxx"));
    assert!(any_term_matches(&terms, "ab"));
    assert!(!any_term_matches(&terms, "AB"));
    assert!(!any_term_matches(&terms, "a b"));
}

#[test]
fn keys_leave_in_the_order_they_came() {
    let mut manager = WorkerManager::new(Vec::new(), 1);
    manager.feed_queue(strings(&["a", "b"]));
    manager.feed_queue(strings(&["c", "a"]));
    let keys: Vec<Option<String>> = (0..4).map(|_| taken(manager.get_work(Wake::Asked))).collect();
    assert_eq!(
        keys,
        strings(&["a", "b", "c", "a"]).into_iter().map(Some).collect::<Vec<_>>()
    );
    assert!(matches!(manager.get_work(Wake::Asked), WorkStep::Wait));
}

#[test]
fn a_visit_reports_what_matches() {
    let mut manager = WorkerManager::new(strings(&["zip"]), 1);
    let opened = Ok(KeyListing {
        subkeys: vec![
            Ok("First".to_string()),
            Err("denied".to_string()),
            Ok("Second".to_string()),
        ],
        values: vec![
            value("Path", "\"C:\\7-Zip\"", "REG_SZ"),
            value("", "zip code", "REG_DWORD"),
            value("Other", "nothing", "REG_SZ"),
            Err("broken".to_string()),
            value("ZIP", "1", "REG_QWORD"),
        ],
    });
    let mut counts = NONE;
    assert_eq!(
        manager.feed_queue_and_process_values("Software\\7-Zip", &opened, &mut counts),
        Ok(())
    );
    assert_eq!(
        listed(&manager.results),
        vec![
            "HKEY_LOCAL_MACHINE\\Software\\7-Zip",
            "HKEY_LOCAL_MACHINE\\Software\\7-Zip\\Path = \"\"C:\\7-Zip\"\" (REG_SZ)",
            "HKEY_LOCAL_MACHINE\\Software\\7-Zip\\(Default) = \"zip code\" (REG_DWORD)",
            "HKEY_LOCAL_MACHINE\\Software\\7-Zip\\ZIP = \"1\" (REG_QWORD)",
        ]
    );
    assert_eq!(
        listed(&manager.errors),
        vec![
            "Software\\7-Zip, Subkey error: \"denied\"",
            "Software\\7-Zip, Value error: \"broken\"",
        ]
    );
    assert_eq!(counts, EntryCounts { keys: 3, values: 5 });
    assert_eq!(
        taken(manager.get_work(Wake::Asked)),
        Some("Software\\7-Zip\\First".to_string())
    );
    assert_eq!(
        taken(manager.get_work(Wake::Asked)),
        Some("Software\\7-Zip\\Second".to_string())
    );
    assert_eq!(taken(manager.get_work(Wake::Asked)), None);
}

#[test]
fn the_steps_of_a_visit_stand_alone() {
    let mut manager = WorkerManager::new(strings(&["x"]), 1);
    let mut counts = EntryCounts { keys: 7, values: usize::MAX };
    manager.feed_subkeys("K", &vec![Ok("x".to_string())], &mut counts);
    assert_eq!(manager.results.len(), 0);
    assert_eq!(counts, EntryCounts { keys: 8, values: usize::MAX });
    manager.process_values("K", &vec![value("n", "x", "REG_SZ")], &mut counts);
    assert_eq!(
        listed(&manager.results),
        vec!["HKEY_LOCAL_MACHINE\\K\\n = \"x\" (REG_SZ)"]
    );
    assert_eq!(counts, EntryCounts { keys: 8, values: 0 });
}

#[test]
fn a_key_that_does_not_open_is_still_reported() {
    let mut manager = WorkerManager::new(strings(&["zip"]), 1);
    let opened = Err("access denied".to_string());
    let mut counts = NONE;
    let outcome = manager.feed_queue_and_process_values("7-Zip", &opened, &mut counts);
    assert_eq!(outcome, Err("access denied".to_string()));
    assert_eq!(listed(&manager.results), vec!["HKEY_LOCAL_MACHINE\\7-Zip"]);
    assert_eq!(manager.errors.len(), 0);
    assert_eq!(counts, NONE);
    let step = run_thread(
        &mut manager,
        WorkerEvent::Processed { key_path: "7-Zip".to_string(), outcome },
    );
    assert!(matches!(step, WorkStep::Wait));
    assert_eq!(
        listed(&manager.errors),
        vec!["7-Zip, Key error: \"access denied\""]
    );
}

#[test]
fn matches_are_reported_once() {
    let mut manager = WorkerManager::new(strings(&["zip"]), 1);
    let opened = Ok(KeyListing { subkeys: Vec::new(), values: Vec::new() });
    for _ in 0..2 {
        let outcome = manager.feed_queue_and_process_values("Zip", &opened, &mut NONE.clone());
        assert_eq!(outcome, Ok(()));
    }
    assert_eq!(listed(&manager.results), vec!["HKEY_LOCAL_MACHINE\\Zip"]);
}

#[test]
fn the_supervisor_finishes_when_all_wait_and_nothing_is_queued() {
    let mut manager = WorkerManager::new(Vec::new(), 2);
    assert_eq!(manager.run(RunEvent::Started), RunAction::Spawn(2));
    assert_eq!(manager.run(RunEvent::Look), RunAction::Pause);
    assert!(matches!(run_thread(&mut manager, WorkerEvent::Started), WorkStep::Wait));
    assert_eq!(manager.run(RunEvent::Look), RunAction::Pause);
    assert!(matches!(run_thread(&mut manager, WorkerEvent::Started), WorkStep::Wait));
    manager.feed_queue(strings(&["k"]));
    assert_eq!(manager.run(RunEvent::Look), RunAction::WakeWorkers);
    assert_eq!(
        taken(run_thread(&mut manager, WorkerEvent::WorkReady)),
        Some("k".to_string())
    );
    assert_eq!(manager.run(RunEvent::Look), RunAction::Pause);
    assert!(matches!(run_thread(&mut manager, WorkerEvent::WorkReady), WorkStep::Wait));
    assert_eq!(manager.run(RunEvent::Look), RunAction::Pause);
    let done = WorkerEvent::Processed { key_path: "k".to_string(), outcome: Ok(()) };
    assert!(matches!(run_thread(&mut manager, done), WorkStep::Wait));
    assert_eq!(manager.run(RunEvent::Look), RunAction::Finish);
    assert!(matches!(run_thread(&mut manager, WorkerEvent::NoWorkLeft), WorkStep::Stop));
    assert_eq!(manager.run(RunEvent::Look), RunAction::Finish);
}

/// A small registry: `Software`, with two subkeys of which one does not open.
fn read_key(path: &str) -> Result<KeyListing, String> {
    match path {
        "Software" => Ok(KeyListing {
            subkeys: vec![Ok("7-Zip".to_string()), Ok("Locked".to_string())],
            values: vec![value("Zipped", "no", "REG_SZ")],
        }),
        "Software\\7-Zip" => Ok(KeyListing {
            subkeys: vec![Ok("Options".to_string()), Err("lost".to_string())],
            values: Vec::new(),
        }),
        "Software\\7-Zip\\Options" => Ok(KeyListing {
            subkeys: Vec::new(),
            values: vec![value("", "0", "REG_DWORD"), Err("torn".to_string())],
        }),
        _ => Err("access denied".to_string()),
    }
}

#[test]
fn a_search_ends_complete() {
    let mut counts = NONE;
    for threads in 1..4usize {
        let mut manager = WorkerManager::new(strings(&["ZIP"]), threads);
        manager.feed_queue(strings(&["Software"]));
        let mut reads: Vec<String> = Vec::new();
        let mut steps: Vec<WorkStep> = (0..threads)
            .map(|_| run_thread(&mut manager, WorkerEvent::Started))
            .collect();
        loop {
            for step in steps.iter_mut() {
                let event = match step {
                    WorkStep::Process(key_path) => {
                        reads.push(key_path.to_string());
                        let outcome = manager.feed_queue_and_process_values(
                            key_path,
                            &read_key(key_path),
                            &mut counts,
                        );
                        WorkerEvent::Processed { key_path: key_path.to_string(), outcome }
                    }
                    WorkStep::Wait => WorkerEvent::WorkReady,
                    WorkStep::Stop => unreachable!(),
                };
                *step = run_thread(&mut manager, event);
            }
            if manager.run(RunEvent::Look) == RunAction::Finish {
                break;
            }
        }
        let mut results = listed(&manager.results);
        results.sort();
        assert_eq!(
            results,
            vec![
                "HKEY_LOCAL_MACHINE\\Software\\7-Zip",
                "HKEY_LOCAL_MACHINE\\Software\\7-Zip\\Options",
                "HKEY_LOCAL_MACHINE\\Software\\Zipped = \"no\" (REG_SZ)",
            ]
        );
        let mut errors = listed(&manager.errors);
        errors.sort();
        assert_eq!(
            errors,
            vec![
                "Software\\7-Zip, Subkey error: \"lost\"",
                "Software\\7-Zip\\Options, Value error: \"torn\"",
                "Software\\Locked, Key error: \"access denied\"",
            ]
        );
        reads.sort();
        assert_eq!(
            reads,
            vec![
                "Software",
                "Software\\7-Zip",
                "Software\\7-Zip\\Options",
                "Software\\Locked",
            ]
        );
        assert_eq!(counts, EntryCounts { keys: 4 * threads, values: 3 * threads });
    }
}
