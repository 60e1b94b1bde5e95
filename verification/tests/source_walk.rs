use mapcopy::args::{parse_args, ArgAction};
use mapcopy::commands::{clean_backup_commands, logfile_dir_command, spec_file_path};
use mapcopy::filemap::FileMap;
use mapcopy::params::{params_from_fields, Platform, RunParams};
use mapcopy::source::{source_entry_step, EntryKind, WalkStep};
use mapcopy::walk::{ListedEntry, SourceWalk, WalkAction};

fn params() -> RunParams {
    RunParams {
        dry_run: false,
        force_yes: true,
        platform: Platform::Other,
        mode: "dev".to_string(),
        swap_dir: "/swap".to_string(),
        target: "web".to_string(),
        build_name: "b1".to_string(),
        backup_dir: "/swap/base_backup_BUILD_web".to_string(),
        build_dir: "/build".to_string(),
        logfile_dir: "/swap/rsync_log".to_string(),
        source_dir: "/build".to_string(),
        config_dir: "/cfg".to_string(),
        file_map: FileMap::new(),
        file_source_map: FileMap::new(),
    }
}

fn named(name: &str, kind: EntryKind, mode: i32) -> ListedEntry {
    ListedEntry::Named { name: name.to_string(), kind, mode }
}

fn scan_of(a: &WalkAction) -> (String, String, i32) {
    match a {
        WalkAction::Scan { cur_dir, full_dir, level } => (cur_dir.clone(), full_dir.clone(), *level),
        other => panic!("expected a scan, got {:?}", other),
    }
}

#[test]
fn entry_step_records_a_file_under_the_joined_path() {
    let mut src = FileMap::new();
    let r = source_entry_step(&mut src, "/etc", "/build/etc", 2, "hosts", EntryKind::File, 644);
    assert!(matches!(r, Ok(WalkStep::Recorded)));
    let d = src.get("/etc/hosts").unwrap();
    assert_eq!(d.file_type, 'f');
    assert_eq!(d.file_level, 2);
    assert_eq!(d.file_mode, 644);
    assert_eq!(d.file_user, "");
}

#[test]
fn entry_step_refuses_a_file_of_mode_zero() {
    let mut src = FileMap::new();
    let r = source_entry_step(&mut src, "/etc", "/build/etc", 0, "hosts", EntryKind::File, 0);
    assert_eq!(r.unwrap_err(), "scan_source_dir: file name '/build/etc/hosts' mode returned zero.");
    assert_eq!(src.len(), 0);
}

#[test]
fn entry_step_descends_into_a_directory_one_level_deeper() {
    let mut src = FileMap::new();
    match source_entry_step(&mut src, "/etc", "/build/etc", 1, "ssl", EntryKind::Directory, 0) {
        Ok(WalkStep::Descend { key, level }) => {
            assert_eq!(key, "/etc/ssl");
            assert_eq!(level, 2);
        }
        other => panic!("expected a descent, got {:?}", other),
    }
    assert_eq!(src.len(), 0);
}

#[test]
fn entry_step_passes_over_other_entries() {
    let mut src = FileMap::new();
    let r = source_entry_step(&mut src, "/etc", "/build/etc", 1, "fifo", EntryKind::Other, 0);
    assert!(matches!(r, Ok(WalkStep::Skipped)));
    assert_eq!(src.len(), 0);
}

#[test]
fn walk_goes_depth_first_and_records_everything() {
    let g = params();
    let mut src = FileMap::new();
    let (mut walk, first) = SourceWalk::start(&g, "/etc", 0);
    assert_eq!(scan_of(&first), ("/etc".to_string(), "/build/etc".to_string(), 0));
    let root = vec![
        named("ssl", EntryKind::Directory, 0),
        named("hosts", EntryKind::File, 644),
    ];
    let next = walk.dir_listed(&mut src, 755, Some(root));
    assert_eq!(scan_of(&next), ("/etc/ssl".to_string(), "/build/etc/ssl".to_string(), 1));
    assert!(src.get("/etc/hosts").is_none());
    let sub = vec![named("cert.pem", EntryKind::File, 600)];
    let done = walk.dir_listed(&mut src, 700, Some(sub));
    assert!(matches!(done, WalkAction::Finished));
    assert_eq!(src.len(), 4);
    assert_eq!(src.entry(0).0, "/etc");
    assert_eq!(src.entry(1).0, "/etc/ssl");
    assert_eq!(src.entry(2).0, "/etc/ssl/cert.pem");
    assert_eq!(src.entry(3).0, "/etc/hosts");
    assert_eq!(src.get("/etc").unwrap().file_type, 'd');
    assert_eq!(src.get("/etc/ssl").unwrap().file_level, 1);
    assert_eq!(src.get("/etc/ssl/cert.pem").unwrap().file_mode, 600);
    assert_eq!(src.get("/etc/hosts").unwrap().file_level, 0);
}

#[test]
fn walk_wraps_a_nested_error_once_per_enclosing_directory() {
    let g = params();
    let mut src = FileMap::new();
    let (mut walk, _) = SourceWalk::start(&g, "/etc", 0);
    let a = walk.dir_listed(&mut src, 755, Some(vec![named("ssl", EntryKind::Directory, 0)]));
    scan_of(&a);
    let b = walk.dir_listed(&mut src, 755, Some(vec![named("private", EntryKind::Directory, 0)]));
    assert_eq!(scan_of(&b).0, "/etc/ssl/private");
    match walk.dir_listed(&mut src, 0, None) {
        WalkAction::Failed(e) => assert_eq!(
            e,
            "scan_source_dir: ERROR: scan_source_dir raised err: scan_source_dir: ERROR: scan_source_dir raised err: scan_source_dir: full_dir '/build/etc/ssl/private' mode was zero!  "
        ),
        other => panic!("expected a failure, got {:?}", other),
    }
    assert!(src.contains_key("/etc"));
    assert!(src.contains_key("/etc/ssl"));
    assert!(!src.contains_key("/etc/ssl/private"));
}

#[test]
fn walk_fails_on_an_unreadable_directory_and_a_bad_name() {
    let g = params();
    let mut src = FileMap::new();
    let (mut walk, _) = SourceWalk::start(&g, "/etc", 0);
    match walk.dir_listed(&mut src, 755, None) {
        WalkAction::Failed(e) => assert_eq!(e, "scan_source_dir: ERROR: cannot read dir: '/build/etc'"),
        other => panic!("expected a failure, got {:?}", other),
    }
    assert!(src.contains_key("/etc"));

    let mut src = FileMap::new();
    let (mut walk, _) = SourceWalk::start(&g, "/etc", 0);
    let listing = vec![named("a", EntryKind::File, 644), ListedEntry::Unnamed, named("b", EntryKind::File, 644)];
    match walk.dir_listed(&mut src, 755, Some(listing)) {
        WalkAction::Failed(e) => assert_eq!(e, "scan_source_dir: could not convert file_name() into String "),
        other => panic!("expected a failure, got {:?}", other),
    }
    assert!(src.contains_key("/etc/a"));
    assert!(!src.contains_key("/etc/b"));
}

#[test]
fn walk_keeps_paths_already_in_the_map() {
    let g = params();
    let mut src = FileMap::new();
    let (mut walk, _) = SourceWalk::start(&g, "/etc", 0);
    walk.dir_listed(&mut src, 755, Some(vec![named("hosts", EntryKind::File, 644)]));
    let (mut walk2, _) = SourceWalk::start(&g, "/var", 0);
    let r = walk2.dir_listed(&mut src, 755, Some(vec![named("log", EntryKind::File, 0)]));
    assert!(matches!(r, WalkAction::Failed(_)));
    assert!(src.contains_key("/etc"));
    assert!(src.contains_key("/etc/hosts"));
    assert!(src.contains_key("/var"));
}

fn args(v: &[&str]) -> Vec<String> {
    v.iter().map(|s| s.to_string()).collect()
}

#[test]
fn the_mode_value_changes_nothing_but_the_mode() {
    let a = parse_args(&args(&["prog", "-f", "-l", "debug", "-m", "dev", "-d"]));
    let b = parse_args(&args(&["prog", "-f", "-l", "debug", "-m", "live", "-d"]));
    assert_eq!(a.log_levels, b.log_levels);
    match (a.action, b.action) {
        (
            ArgAction::Proceed { force_yes: f1, dry_run: d1, mode: m1 },
            ArgAction::Proceed { force_yes: f2, dry_run: d2, mode: m2 },
        ) => {
            assert_eq!((f1, d1), (f2, d2));
            assert!(f1 && d1);
            assert_eq!(m1, "dev");
            assert_eq!(m2, "live");
        }
        other => panic!("expected both to proceed, got {:?}", other),
    }
}

#[test]
fn settings_made_from_two_modes_give_the_same_commands() {
    let fields = vec![
        ("swapdir".to_string(), "/swap".to_string()),
        ("target".to_string(), "web".to_string()),
        ("buildname".to_string(), "b7".to_string()),
        ("build_dir".to_string(), "/build".to_string()),
        ("configdir".to_string(), "/cfg".to_string()),
    ];
    let g1 = params_from_fields(true, false, "dev", &fields, Platform::Other);
    let g2 = params_from_fields(true, false, "live", &fields, Platform::Other);
    assert_eq!(g1.mode, "dev");
    assert_eq!(g2.mode, "live");
    assert_eq!(clean_backup_commands(&g1), clean_backup_commands(&g2));
    assert_eq!(logfile_dir_command(&g1), logfile_dir_command(&g2));
    assert_eq!(logfile_dir_command(&g1), "echo mkdir -p /swap/rsync_log");
    assert_eq!(spec_file_path(&g1, "/etc"), spec_file_path(&g2, "/etc"));
}
