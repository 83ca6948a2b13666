use base64::Engine;
use component_mgr::backend::dids::DidNumbers;
use component_mgr::backend::setup::{ComponentBackend, ComponentConfig};
use component_mgr::banks::BankSet;
use component_mgr::error::BackendError;
use component_mgr::logs::agent::{agent_entries, agent_request, qenc};
use component_mgr::logs::cursor::{LogCursor, SourceMap, SourcePos};
use component_mgr::logs::dumps::{
    all_dumps, host_dump_logs, plan_log_content, plan_log_delete, resolve_dump_path, sidecar_name, DumpFile,
    EntryAction,
};
use component_mgr::logs::entry::{
    priority_from_name, priority_name, LogEntry, LogFilter, LogPriority, LogStatus, Timestamp,
};
use component_mgr::logs::files::{glob_matches, next_boot_epoch, parse_glob, LogGlob};
use component_mgr::logs::ids::{dump_log_id, find_log_entry, line_log_id, parse_log_id, ParsedLogId};
use component_mgr::logs::lines::{read_lines_from, tail_file_lines};
use component_mgr::logs::listing::{get_logs, paged_globs, terminal_page, LogSource};
use component_mgr::logs::lookup::{all_host_lines, get_log};
use component_mgr::logs::order::path_order;
use component_mgr::logs::paging::{host_file_logs, host_file_logs_paged, resume_offset, LogFile};
use component_mgr::paths::is_volatile;

fn ts(secs: i64) -> Timestamp {
    Timestamp::new(secs, 0).unwrap()
}

fn file(path: &str, text: &str) -> LogFile {
    LogFile { path: path.into(), mtime: ts(1_700_000_000), bytes: Some(text.as_bytes().to_vec()) }
}

fn numbers() -> DidNumbers {
    DidNumbers {
        active_bank: 0xFD00,
        committed: 0xFD01,
        min_security_ver: 0xFD02,
        current_security_ver: 0xFD03,
        boot_count: 0xFD04,
        guest_state: 0xFD10,
        heartbeat_seq: 0xFD11,
    }
}

fn backend(log_sources: Vec<LogSource>) -> ComponentBackend {
    let config = ComponentConfig { log_sources, ..ComponentConfig::default() };
    ComponentBackend::new(BankSet::Vm1, None, config, numbers())
}

fn b64url(bytes: &[u8]) -> String {
    base64::engine::general_purpose::URL_SAFE_NO_PAD.encode(bytes)
}

fn messages(entries: &[LogEntry]) -> Vec<String> {
    entries.iter().map(|e| e.message.clone()).collect()
}

#[test]
fn logs_unsupported_without_source() {
    assert!(!backend(vec![]).capabilities().logs);
    assert!(get_logs(vec![]).is_empty());
}

/// The names in a directory that a pattern takes.
fn matched(pattern: &str, names: &[&str]) -> Vec<String> {
    match parse_glob(pattern) {
        LogGlob::File { path } => vec![path],
        LogGlob::Directory { prefix, suffix, .. } => names
            .iter()
            .filter(|n| glob_matches(n, &prefix, &suffix))
            .map(|n| n.to_string())
            .collect(),
    }
}

#[test]
fn logs_host_files_globs_and_filters() {
    let taken = matched("/logs/*.log", &["supernova.log", "other.log", "skip.txt"]);
    assert_eq!(taken, vec!["supernova.log".to_string(), "other.log".into()]);
    match parse_glob("/logs/*.log") {
        LogGlob::Directory { dir, .. } => assert_eq!(dir, "/logs"),
        other => panic!("{other:?}"),
    }
    assert!(backend(vec![LogSource::HostFiles { globs: vec!["/logs/*.log".into()] }])
        .capabilities()
        .logs);

    let files = vec![
        file("/logs/supernova.log", "one\ntwo\nthree\n"),
        file("/logs/other.log", "alpha\nbeta\n"),
    ];
    let all = get_logs(vec![Some(host_file_logs(&files, &LogFilter::default()))]);
    assert_eq!(all.len(), 5);
    assert!(all.iter().all(|e| e.priority == LogPriority::Info));

    let filtered = host_file_logs(
        &files,
        &LogFilter {
            source: Some("supernova".into()),
            pattern: Some("t".into()),
            tail: Some(1),
            ..LogFilter::default()
        },
    );
    assert_eq!(filtered.len(), 1);
    assert_eq!(filtered[0].message, "three");
    assert_eq!(filtered[0].source.as_deref(), Some("supernova"));
}

#[test]
fn logs_guest_agent_proxy_and_degrade() {
    let body = r#"[{"timestamp":"2026-07-18T12:00:00Z","priority":"warning","message":"hb late","source":"vhealth"}]"#;
    let resp = format!(
        "HTTP/1.1 200 OK\r\nContent-Type: application/json\r\nContent-Length: {}\r\nConnection: close\r\n\r\n{body}",
        body.len()
    );
    let got = agent_entries(&resp.into_bytes()).expect("the agent answered");
    assert_eq!(got.len(), 1);
    assert_eq!(got[0].message, "hb late");
    assert_eq!(got[0].priority, LogPriority::Warning);
    assert_eq!(got[0].source.as_deref(), Some("vhealth"));
    assert_eq!(got[0].timestamp, ts(1_784_376_000));

    assert!(agent_entries(&Vec::new()).is_none());
    assert!(get_logs(vec![None]).is_empty(), "an agent that is down makes no error");

    let q = agent_request("http://10.0.0.2:8080", &LogFilter::default());
    assert_eq!(q.host, "10.0.0.2:8080");
    assert!(q.request.starts_with("GET /"), "{}", q.request);
    assert_eq!(qenc("a b&c"), "a%20b%26c");
}

#[test]
fn logs_standard_line_id_round_trips() {
    let files = vec![file("/logs/svc.log", "hello world\nsecond line\n")];
    let listed = host_file_logs(&files, &LogFilter::default());
    assert_eq!(listed.len(), 2);
    assert!(listed.iter().all(|e| e.id.starts_with("line:svc:")));
    let one = listed[0].clone();
    let again = host_file_logs(&files, &LogFilter::default());
    let fetched = find_log_entry(again, &one.id).unwrap();
    assert_eq!(fetched.id, one.id);
    assert_eq!(fetched.message, one.message);
    assert!(matches!(plan_log_content(&one.id).unwrap(), EntryAction::Line));
    assert!(matches!(plan_log_delete(&one.id), Err(BackendError::NotSupported(_))));
    assert_ne!(
        line_log_id("svc", ts(1), "hello world"),
        line_log_id("svc", ts(1), "second line")
    );
}

#[test]
fn logs_priority_filter_is_and_above() {
    let files = vec![file("/logs/svc.log", "an info line\n")];
    let at = |p| LogFilter { priority: Some(p), ..LogFilter::default() };
    assert_eq!(host_file_logs(&files, &at(LogPriority::Debug)).len(), 1);
    assert!(host_file_logs(&files, &at(LogPriority::Warning)).is_empty());
}

#[test]
fn priorities_have_names() {
    for p in [
        LogPriority::Emergency,
        LogPriority::Alert,
        LogPriority::Critical,
        LogPriority::Error,
        LogPriority::Warning,
        LogPriority::Notice,
        LogPriority::Info,
        LogPriority::Debug,
    ] {
        assert_eq!(priority_from_name(priority_name(p)), p);
    }
    assert!(LogPriority::Alert.at_least(LogPriority::Error));
    assert!(!LogPriority::Debug.at_least(LogPriority::Info));
}

fn cursor(boot_epoch: u64, places: &[(&str, u64)]) -> LogCursor {
    let mut sources = SourceMap::new();
    for (name, offset) in places {
        sources.insert(name, SourcePos { gen: 0, offset: *offset });
    }
    LogCursor { boot_epoch, sources }
}

#[test]
fn log_cursor_round_trips() {
    let c = cursor(7, &[("svc", 42), ("kern", 1_000_000)]);
    let decoded = LogCursor::decode(&c.encode()).expect("round-trips");
    assert!(decoded == c);
    assert_eq!(decoded.boot_epoch, 7);
    assert_eq!(decoded.sources.get("svc").unwrap().offset, 42);
    assert_eq!(decoded.sources.get("kern").unwrap().offset, 1_000_000);
}

#[test]
fn log_cursor_bad_token_is_none() {
    assert!(LogCursor::decode("").is_none());
    assert!(LogCursor::decode("!!!not-base64!!!").is_none());
    assert!(LogCursor::decode(&b64url(b"\xff\xfe\x00garbage")).is_none());
}

#[test]
fn a_cursor_of_another_make_is_read() {
    let token = b64url(br#"{"b":3,"s":{"svc":{"g":0,"o":9}}}"#);
    let c = LogCursor::decode(&token).expect("a cursor");
    assert_eq!(c.boot_epoch, 3);
    assert_eq!(c.sources.get("svc"), Some(SourcePos { gen: 0, offset: 9 }));
}

#[test]
fn records_may_be_written_as_lists() {
    let c = LogCursor::decode(&b64url(br#"[3,{"svc":[0,9]}]"#)).expect("a cursor");
    assert_eq!(c.boot_epoch, 3);
    assert_eq!(c.sources.get("svc"), Some(SourcePos { gen: 0, offset: 9 }));
    assert!(LogCursor::decode(&b64url(br#"[3,{"svc":[0,9,1]}]"#)).is_none());
    assert!(LogCursor::decode(&b64url(br#"[3]"#)).is_none());
    let body = "HTTP/1.1 200 OK\r\n\r\n[[\"2026-07-18T12:00:00Z\",\"warning\",\"late\",\"hb\"]]";
    let got = agent_entries(&body.as_bytes().to_vec()).expect("the agent answered");
    assert_eq!(got[0].message, "late");
    assert_eq!(got[0].source.as_deref(), Some("hb"));
    let listed = host_dump_logs(
        &vec![
            dump("a.bin", 1, Some(r#"["trace","retrieved"]"#)),
            dump("b.bin", 1, Some(r#"["trace"]"#)),
            dump("c.bin", 1, Some(r#"["trace","retrieved",1]"#)),
        ],
        &LogFilter::default(),
    );
    assert_eq!(listed[0].log_type.as_deref(), Some("trace"));
    assert_eq!(listed[0].status, Some(LogStatus::Retrieved));
    assert_eq!(listed[1].log_type.as_deref(), Some("trace"));
    assert_eq!(listed[1].status, Some(LogStatus::Pending));
    assert_eq!(listed[2].log_type, None);
}

#[test]
fn a_pattern_may_end_in_a_separator() {
    for pattern in ["/logs/*.log", "/logs/*.log/", "/logs/*.log/.", "/logs//*.log", "/logs/./*.log"] {
        match parse_glob(pattern) {
            LogGlob::Directory { dir, prefix, suffix } => {
                assert_eq!(dir, "/logs", "{pattern}");
                assert_eq!(prefix, "");
                assert_eq!(suffix, ".log");
            }
            other => panic!("{pattern}: {other:?}"),
        }
    }
    assert!(matches!(parse_glob("/*.log"), LogGlob::Directory { ref dir, .. } if dir == "/"));
    assert!(matches!(parse_glob("/logs/a.log"), LogGlob::File { ref path } if path == "/logs/a.log"));
}

#[test]
fn every_listed_dump_can_be_fetched() {
    let files =
        vec![dump("a..bin", 1, None), dump("..hidden", 1, None), dump("x", 1, None)];
    let listed = host_dump_logs(&files, &LogFilter::default());
    assert_eq!(messages(&listed), vec!["a..bin", "..hidden", "x"]);
    for e in &listed {
        match plan_log_content(&e.id).unwrap() {
            EntryAction::Dump { file } => assert_eq!(file, e.message),
            other => panic!("{other:?}"),
        }
        assert_eq!(plan_log_delete(&e.id).unwrap(), e.message);
        let again = host_dump_logs(&files, &LogFilter::default());
        assert_eq!(find_log_entry(again, &e.id).unwrap().message, e.message);
    }
    for name in ["", "..", "../../etc/passwd", "a/b"] {
        assert!(plan_log_content(&dump_log_id(name)).is_err(), "{name}");
    }
    assert!(matches!(
        parse_log_id(&dump_log_id(".")),
        Some(ParsedLogId::HostDump { ref file }) if file == "."
    ));
}

#[test]
fn following_the_cursors_reads_every_file() {
    let files = vec![
        file("/logs/a.log", "a1\n\na2\na3\n\n"),
        file("/logs/b.log", ""),
        file("/logs/c.log", "c1\nc2\ntorn"),
        file("/logs/d.log", "d1\n"),
    ];
    for limit in 1..8 {
        let mut all = Vec::new();
        let mut after = None;
        let mut pages = 0;
        loop {
            let f = LogFilter { limit: Some(limit), after, ..LogFilter::default() };
            let page = host_file_logs_paged(&files, &f, 1);
            all.extend(messages(&page.items));
            pages += 1;
            after = page.next_cursor;
            if after.is_none() {
                break;
            }
        }
        assert_eq!(all, vec!["a1", "a2", "a3", "c1", "c2", "d1"], "{limit}");
        assert!(pages < 20);
    }
}

#[test]
fn log_paging_batches_disjoint_and_terminates() {
    let files = vec![file("/logs/svc.log", "l1\nl2\nl3\nl4\nl5\n")];
    let f = |after: Option<String>| LogFilter { limit: Some(2), after, ..LogFilter::default() };
    let p1 = host_file_logs_paged(&files, &f(None), 1);
    assert_eq!(messages(&p1.items), vec!["l1", "l2"]);
    assert!(p1.next_cursor.is_some());
    assert!(p1.oldest_cursor.is_some());
    let p2 = host_file_logs_paged(&files, &f(p1.next_cursor.clone()), 1);
    assert_eq!(messages(&p2.items), vec!["l3", "l4"]);
    let p3 = host_file_logs_paged(&files, &f(p2.next_cursor.clone()), 1);
    assert_eq!(messages(&p3.items), vec!["l5"]);
    let p4 = host_file_logs_paged(&files, &f(p3.next_cursor.clone()), 1);
    assert!(p4.items.is_empty());
    assert!(p4.next_cursor.is_none());
    let grown = vec![file("/logs/svc.log", "l1\nl2\nl3\nl4\nl5\nl6\nl7\n")];
    let p5 = host_file_logs_paged(&grown, &f(p3.next_cursor.clone()), 1);
    assert_eq!(messages(&p5.items), vec!["l6", "l7"]);
}

#[test]
fn log_volatile_source_invalidated_across_reboot() {
    assert!(is_volatile("/dev/shmem/foo.log"));
    assert!(!is_volatile("/var/log/foo.log"));
    let stale = cursor(1, &[("persist", 4)]);
    let page = host_file_logs_paged(
        &vec![file("/var/log/persist.log", "a\nb\nc\nd\n")],
        &LogFilter { after: Some(stale.encode()), ..LogFilter::default() },
        2,
    );
    assert_eq!(messages(&page.items), vec!["c", "d"]);
    let page = host_file_logs_paged(
        &vec![file("/dev/shmem/persist.log", "a\nb\nc\nd\n")],
        &LogFilter { after: Some(stale.encode()), ..LogFilter::default() },
        2,
    );
    assert_eq!(messages(&page.items), vec!["a", "b", "c", "d"]);
    assert_eq!(resume_offset(&Some(stale), 1, "/dev/shmem/persist.log", 8), 4);
}

#[test]
fn log_paging_truncation_restarts_from_oldest() {
    let cur = cursor(5, &[("svc", 9999)]);
    let page = host_file_logs_paged(
        &vec![file("/logs/svc.log", "fresh1\nfresh2\n")],
        &LogFilter { after: Some(cur.encode()), ..LogFilter::default() },
        5,
    );
    assert_eq!(messages(&page.items), vec!["fresh1", "fresh2"]);
}

#[test]
fn boot_epoch_file_increments_and_persists() {
    let first = next_boot_epoch(&None);
    assert_eq!(first, 1);
    assert_eq!(next_boot_epoch(&Some(format!("{first}\n"))), 2);
    assert_eq!(next_boot_epoch(&Some("not a number".into())), 1);
}

#[test]
fn logs_paged_multisource_falls_back_to_terminal_page() {
    let sources = vec![
        LogSource::HostFiles { globs: vec!["/logs/*.log".into()] },
        LogSource::HostDumps { dir: "/logs".into() },
    ];
    assert!(paged_globs(&sources).is_none());
    let lines = host_file_logs(
        &vec![file("/logs/svc.log", "one\ntwo\n")],
        &LogFilter::default(),
    );
    let page = terminal_page(get_logs(vec![Some(lines), Some(vec![])]));
    assert!(page.next_cursor.is_none());
    assert!(page.items.iter().any(|e| e.message == "one"));
}

#[test]
fn logs_paged_pure_hostfiles_paginates() {
    let sources = vec![LogSource::HostFiles { globs: vec!["/logs/*.log".into()] }];
    assert_eq!(paged_globs(&sources), Some(vec!["/logs/*.log".to_string()]));
    let body: String = (0..10).map(|i| format!("line{i}\n")).collect();
    let page = host_file_logs_paged(
        &vec![file("/logs/svc.log", &body)],
        &LogFilter { limit: Some(3), ..LogFilter::default() },
        1,
    );
    assert_eq!(page.items.len(), 3);
    assert!(page.next_cursor.is_some());
    assert!(page.oldest_cursor.is_some());
}

fn dump(name: &str, size: u64, sidecar: Option<&str>) -> DumpFile {
    DumpFile {
        name: name.into(),
        size: Some(size),
        mtime: ts(1_700_000_000),
        sidecar: sidecar.map(|s| s.as_bytes().to_vec()),
    }
}

#[test]
fn logs_host_dumps_catalog_content_and_delete() {
    let meta = r#"{"type":"engine_dump","status":"pending"}"#;
    let files = vec![
        dump("crash-001.bin", 13, Some(meta)),
        dump("crash-001.bin.meta.json", meta.len() as u64, None),
    ];
    let listed = host_dump_logs(&files, &LogFilter::default());
    assert_eq!(listed.len(), 1, "sidecar is not itself an entry");
    let d = &listed[0];
    assert!(d.id.starts_with("dump:host:"));
    assert_eq!(d.log_type.as_deref(), Some("engine_dump"));
    assert_eq!(d.status, Some(LogStatus::Pending));
    assert_eq!(d.size, Some(13));
    match plan_log_content(&d.id).unwrap() {
        EntryAction::Dump { file } => assert_eq!(file, "crash-001.bin"),
        other => panic!("{other:?}"),
    }
    let by_type = |t: &str| LogFilter { log_type: Some(t.into()), ..LogFilter::default() };
    assert_eq!(host_dump_logs(&files, &by_type("engine_dump")).len(), 1);
    assert_eq!(host_dump_logs(&files, &by_type("other")).len(), 0);
    let name = plan_log_delete(&d.id).unwrap();
    assert_eq!(name, "crash-001.bin");
    assert_eq!(sidecar_name(&name), "crash-001.bin.meta.json");
}

#[test]
fn logs_dump_id_cannot_escape_dir() {
    let evil = format!("dump:host:{}", b64url(b"../../etc/passwd"));
    assert!(parse_log_id(&evil).is_none(), "traversal name must not parse");
    let missing = dump_log_id("ghost.bin");
    assert!(matches!(
        parse_log_id(&missing),
        Some(ParsedLogId::HostDump { ref file }) if file == "ghost.bin"
    ));
    assert!(matches!(
        resolve_dump_path(vec![None, None], &missing),
        Err(BackendError::EntityNotFound(_))
    ));
    assert_eq!(resolve_dump_path(vec![None, Some("/d/ghost.bin".into())], &missing).unwrap(), "/d/ghost.bin");
}

#[test]
fn lines_are_whole_lines() {
    let data = b"one\ntwo\r\nthr";
    let (lines, at) = read_lines_from(data, 0, 10);
    assert_eq!(lines[0], "one");
    assert_eq!(lines[1], "two");
    assert!(at <= data.len() as u64);
    assert_eq!(tail_file_lines(b"a\nb\n\nc\n", 64), vec!["a".to_string(), "b".into(), "c".into()]);
    let two = vec!["b".to_string(), "c".into()];
    assert_eq!(tail_file_lines(b"a\nb\nc\n", 4), two, "a line that starts at the cut is whole");
    assert_eq!(tail_file_lines(b"aa\nb\nc\n", 5), two, "only the torn line is left out");
    assert_eq!(tail_file_lines(b"a\nb\nc\n", 3), vec!["c".to_string()], "a torn line is left out");
    assert_eq!(tail_file_lines(b"a \nb\nc\n", 5), two, "and no other for it where it is blank");
    assert_eq!(tail_file_lines(b"a\nlonger", 3), Vec::<String>::new(), "none is whole");
    assert_eq!(tail_file_lines(b"a\r\nb\r\r\nc\r", 64), vec!["a".to_string(), "b\r".into(), "c\r".into()]);
}

#[test]
fn the_oldest_cursor_starts_every_file_over() {
    let files = vec![file("/var/log/a.log", "1\n2\n3\n"), file("/var/log/b.log", "4\n")];
    let filter = LogFilter { limit: Some(2), ..LogFilter::default() };
    let page = host_file_logs_paged(&files, &filter, 7);
    assert_eq!(messages(&page.items), vec!["1", "2"]);
    let oldest = LogCursor::decode(&page.oldest_cursor.unwrap()).unwrap();
    assert_eq!(oldest.boot_epoch, 7);
    assert_eq!(oldest.sources.get("a"), Some(SourcePos { gen: 0, offset: 0 }));
    assert_eq!(oldest.sources.get("b"), Some(SourcePos { gen: 0, offset: 0 }));
    assert_eq!(oldest.sources.get("c"), None);
}

#[test]
fn what_was_shown_is_found_again() {
    let mut text = String::new();
    for i in 0..9000 {
        text.push_str(&format!("line {i}\r\n"));
    }
    text.push_str("odd\r\r\nunfinished");
    assert!(text.len() > 65536);
    let files = vec![file("/var/log/a.log", &text), file("/var/log/b.log", "x\ny\n")];

    let filter = LogFilter { limit: Some(3), ..LogFilter::default() };
    let page = host_file_logs_paged(&files, &filter, 1);
    assert_eq!(messages(&page.items), vec!["line 0", "line 1", "line 2"]);
    let second = LogFilter { after: page.next_cursor.clone(), ..filter.clone() };
    let next = host_file_logs_paged(&files, &second, 1);
    assert_eq!(messages(&next.items), vec!["line 3", "line 4", "line 5"]);
    let only = LogFilter { pattern: Some("odd".into()), ..LogFilter::default() };
    let tail = host_file_logs(&files, &only);
    assert_eq!(messages(&tail), vec!["odd\r"]);
    let only = LogFilter { pattern: Some("unfinished".into()), ..LogFilter::default() };
    let last = host_file_logs(&files, &only);
    assert_eq!(messages(&last), vec!["unfinished"]);

    let all = || get_logs(vec![Some(all_host_lines(&files)), None]);
    let shown = page.items.iter().chain(&next.items).chain(&tail).chain(&last);
    for e in shown {
        let again = get_log(all(), &e.id).unwrap();
        assert_eq!(again.id, e.id);
        assert_eq!(again.message, e.message);
    }
    let shorter = vec![file("/var/log/b.log", "x\n")];
    for id in [tail[0].id.as_str(), "line", "nonsense:x:y"] {
        match get_log(all_host_lines(&shorter), id) {
            Err(BackendError::EntityNotFound(said)) => assert_eq!(said, id),
            other => panic!("{other:?}"),
        }
    }
}

#[test]
fn a_dump_is_found_again_however_many_there_are() {
    let mut files = Vec::new();
    for i in 0..2100 {
        files.push(dump(&format!("d{i}.bin"), i, None));
    }
    files.push(dump("last.bin", 5, Some(r#"{"type":"core"}"#)));
    files.push(dump("last.bin.meta.json", 1, None));
    assert_eq!(host_dump_logs(&files, &LogFilter::default()).len(), 2000);
    assert_eq!(all_dumps(&files).len(), 2101);
    let cores = LogFilter { log_type: Some("core".into()), ..LogFilter::default() };
    let listed = host_dump_logs(&files, &cores);
    assert_eq!(messages(&listed), vec!["last.bin"]);
    let again = get_log(all_dumps(&files), &listed[0].id).unwrap();
    assert_eq!(again.message, "last.bin");
    assert_eq!(again.size, Some(5));
}

#[test]
fn files_are_read_in_the_order_of_their_paths() {
    let order = |paths: &[&str]| {
        let owned: Vec<String> = paths.iter().map(|p| p.to_string()).collect();
        path_order(&owned).into_iter().map(|i| paths[i].to_string()).collect::<Vec<_>>()
    };
    assert_eq!(
        order(&["/log/b", "/log/a.log", "/log-old/c", "/log/a.log", "/log//./b", "/log"]),
        vec!["/log", "/log/a.log", "/log/b", "/log-old/c"]
    );
    assert_eq!(order(&["a", "../a", "./a", "/a"]), vec!["/a", "./a", "../a", "a"]);
    for paths in [
        vec!["/log/b", "/log/a.log", "/log-old/c", "/log", "a", "../a", "./a", ".", "..", "/"],
        vec!["x/\u{e9}", "x/z", "x/\u{1f600}", "x/\u{ffff}", "x", "", "x/.", "x/..", ".x"],
    ] {
        let mut expected: Vec<std::path::PathBuf> = paths.iter().map(|p| p.into()).collect();
        expected.sort();
        expected.dedup();
        let found: Vec<std::path::PathBuf> =
            order(&paths).into_iter().map(|p| p.into()).collect();
        assert_eq!(found, expected);
    }
}

#[test]
fn the_newest_entries_come_first_and_ties_keep_their_order() {
    let entry = |m: &str, at: i64| LogEntry {
        id: m.into(),
        timestamp: ts(at),
        priority: LogPriority::Info,
        message: m.into(),
        source: None,
        log_type: None,
        size: None,
        status: None,
    };
    let merged = get_logs(vec![
        Some(vec![entry("old", 1), entry("new", 3)]),
        None,
        Some(vec![entry("mid", 2), entry("tie", 3)]),
    ]);
    assert_eq!(messages(&merged), vec!["new", "tie", "mid", "old"]);
}
