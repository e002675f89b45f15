use hbbs::blocker::BlockEntry;
use hbbs::command::{check_cmd, cmd_ok, cmd_report, BlockLine, ChangeLine, CmdReport};
use hbbs::report::render_report;
use hbbs::rendezvous::Registry;

const SEC: u64 = 1_000_000_000;
const T: u64 = 100_000 * SEC;

fn registry() -> Registry {
    let mut reg = Registry::new();
    for i in 0..15 {
        let ip = format!("10.0.0.{}", i);
        reg.blocker.check_ip_blocker(&ip, &"peer".to_string(), T);
    }
    // a stale record
    reg.blocker.entries.insert(
        "9.9.9.9".to_string(),
        BlockEntry { hits: 3, hits_at: 0, ids: vec![], ids_at: 0 },
    );
    reg
}

#[test]
fn help_and_unknown() {
    let mut reg = registry();
    assert!(matches!(cmd_report(&mut reg, " h ", 0), CmdReport::Help));
    assert!(matches!(cmd_report(&mut reg, "x", 0), CmdReport::Nothing));
    assert!(matches!(cmd_report(&mut reg, "", 0), CmdReport::Nothing));
    assert_eq!(reg.blocker.entries.len(), 16);
}

#[test]
fn blocker_first_page() {
    let mut reg = registry();
    match cmd_report(&mut reg, "ib", T + 5) {
        CmdReport::Blocker { count, detail, rows } => {
            assert_eq!(count, 15);
            assert!(detail.is_none());
            assert_eq!(rows.len(), 10);
            assert_eq!(rows[0].0, "10.0.0.0");
            assert_eq!(rows[9].0, "10.0.0.9");
            assert_eq!((rows[0].1.hits, rows[0].1.hits_secs, rows[0].1.ids, rows[0].1.ids_secs), (0, 0, 0, 0));
        }
        _ => panic!("expected a blocker report"),
    }
    // the stale record was dropped
    assert_eq!(reg.blocker.entries.len(), 15);
}

#[test]
fn blocker_later_page() {
    let mut reg = registry();
    match cmd_report(&mut reg, "ip-blocker 12", T) {
        CmdReport::Blocker { count, detail, rows } => {
            assert_eq!(count, 15);
            assert!(detail.is_none());
            let names: Vec<&str> = rows.iter().map(|r| r.0.as_str()).collect();
            assert_eq!(names, vec!["10.0.0.12", "10.0.0.13", "10.0.0.14"]);
        }
        _ => panic!("expected a blocker report"),
    }
}

#[test]
fn blocker_detail_and_removal() {
    let mut reg = registry();
    match cmd_report(&mut reg, "ib 10.0.0.3", T + 3 * SEC) {
        CmdReport::Blocker { detail, rows, .. } => {
            let d = detail.unwrap();
            assert_eq!((d.hits, d.hits_secs, d.ids, d.ids_secs), (0, 3, 0, 3));
            assert!(rows.is_empty());
        }
        _ => panic!("expected a blocker report"),
    }
    assert_eq!(reg.blocker.entries.len(), 15);
    cmd_report(&mut reg, "ib 10.0.0.3 -", T + 3 * SEC);
    assert_eq!(reg.blocker.entries.len(), 14);
    match cmd_report(&mut reg, "ib 10.0.0.3", T + 3 * SEC) {
        CmdReport::Blocker { count, detail, .. } => {
            assert_eq!(count, 14);
            assert!(detail.is_none());
        }
        _ => panic!("expected a blocker report"),
    }
}

#[test]
fn changes_listing() {
    let mut reg = Registry::new();
    let id = "peer".to_string();
    reg.changes.record(&id, &"1.1.1.1".to_string(), 0);
    reg.changes.record(&id, &"2.2.2.2".to_string(), SEC);
    let single = "single".to_string();
    reg.changes.record(&single, &"3.3.3.3".to_string(), 0);
    match cmd_report(&mut reg, "ic", 10 * SEC) {
        CmdReport::Changes { count, detail, rows } => {
            assert_eq!(count, 1);
            assert!(detail.is_none());
            assert_eq!(rows.len(), 1);
            assert_eq!(rows[0].0, "peer");
            assert_eq!(rows[0].1.secs, 10);
            assert_eq!(rows[0].1.ips, vec![("1.1.1.1".to_string(), 1), ("2.2.2.2".to_string(), 1)]);
        }
        _ => panic!("expected a changes report"),
    }
    match cmd_report(&mut reg, "ip-changes peer", 10 * SEC) {
        CmdReport::Changes { detail, rows, .. } => {
            assert_eq!(detail.unwrap().ips.len(), 2);
            assert!(rows.is_empty());
        }
        _ => panic!("expected a changes report"),
    }
    // a page start past ten million names a peer and lists a page
    match cmd_report(&mut reg, "ic 20000000", 10 * SEC) {
        CmdReport::Changes { detail, rows, .. } => {
            assert!(detail.is_none());
            assert!(rows.is_empty());
        }
        _ => panic!("expected a changes report"),
    }
    cmd_report(&mut reg, "ic peer -", 10 * SEC);
    assert_eq!(reg.changes.entries.len(), 0);
    // histories older than twice the change window are dropped
    reg.changes.record(&id, &"1.1.1.1".to_string(), 0);
    reg.changes.record(&id, &"2.2.2.2".to_string(), 0);
    match cmd_report(&mut reg, "ic", 361 * SEC) {
        CmdReport::Changes { count, .. } => assert_eq!(count, 0),
        _ => panic!("expected a changes report"),
    }
}

#[test]
fn page_start_near_the_limit_is_refused_only_for_listings() {
    assert!(cmd_ok("ib 2147483637"));
    assert!(!cmd_ok("ib 2147483638"));
    assert!(!cmd_ok(" ip-changes 2147483647 "));
    assert!(cmd_ok("ic 1.2.3.4"));
    assert!(cmd_ok("h 2147483647"));
    assert!(cmd_ok("something 2147483647"));
}

const HELP: &str = "relay-servers(rs) <separated by ,>\nreload-geo(rg)\nip-blocker(ib) [<ip>|<number>] [-]\nip-changes(ic) [<id>|<number>] [-]\nalways-use-relay(aur)\ntest-geo(tg) <ip1> <ip2>\n";

#[test]
fn help_text() {
    let mut reg = registry();
    assert_eq!(check_cmd(&mut reg, "h\n", 0), HELP);
    assert_eq!(check_cmd(&mut reg, "what", 0), "");
}

#[test]
fn blocker_listing_text() {
    let mut reg = registry();
    let text = check_cmd(&mut reg, "ib 12", T + 5 * SEC);
    assert_eq!(text, "15\n10.0.0.12: 0/5s 0/5s\n10.0.0.13: 0/5s 0/5s\n10.0.0.14: 0/5s 0/5s\n");
    let text = check_cmd(&mut reg, "ib 10.0.0.3", T + 5 * SEC);
    assert_eq!(text, "15\n0/5s 0/5s\n");
}

#[test]
fn report_lines_are_formatted() {
    let r = CmdReport::Blocker {
        count: 2,
        detail: Some(BlockLine { hits: 31, hits_secs: 7, ids: 300, ids_secs: 86400 }),
        rows: vec![("1.2.3.4".to_string(), BlockLine { hits: 0, hits_secs: 0, ids: 1, ids_secs: 12 })],
    };
    assert_eq!(render_report(&r), "2\n31/7s 300/86400s\n1.2.3.4: 0/0s 1/12s\n");
    let r = CmdReport::Changes {
        count: 1,
        detail: Some(ChangeLine { secs: 3, ips: vec![] }),
        rows: vec![(
            "peer".to_string(),
            ChangeLine { secs: 10, ips: vec![("1.1.1.1".to_string(), 2), ("2.2.2.2".to_string(), -1)] },
        )],
    };
    assert_eq!(render_report(&r), "1\n3s {}\npeer: 10s {\"1.1.1.1\": 2, \"2.2.2.2\": -1}\n");
    // the map text is what a one-entry map prints in Debug form
    let one: std::collections::HashMap<String, i32> = [("9.9.9.9".to_string(), 4)].into_iter().collect();
    let r = CmdReport::Changes {
        count: 0,
        detail: None,
        rows: vec![("x".to_string(), ChangeLine { secs: 0, ips: vec![("9.9.9.9".to_string(), 4)] })],
    };
    assert_eq!(render_report(&r), format!("0\nx: 0s {:?}\n", one));
    assert_eq!(render_report(&CmdReport::Nothing), "");
    assert_eq!(render_report(&CmdReport::Help), HELP);
}
