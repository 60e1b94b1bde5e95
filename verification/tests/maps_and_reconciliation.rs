use mapcopy::filemap::{FileData, FileMap};
use mapcopy::params::{Platform, RunParams};
use mapcopy::prelim::{get_parent_perms, prompt_answer, reconcile_source_map, PromptAnswer};
use mapcopy::source::{join_path, record_source_dir, record_source_file};

fn data(level: i32, t: char, user: &str, group: &str, mode: i32, du: &str, dg: &str, dm: i32) -> FileData {
    FileData {
        file_level: level,
        file_type: t,
        file_user: user.to_string(),
        file_group: group.to_string(),
        file_mode: mode,
        default_file_user: du.to_string(),
        default_file_group: dg.to_string(),
        default_file_mode: dm,
    }
}

fn params() -> RunParams {
    RunParams {
        dry_run: false,
        force_yes: true,
        platform: Platform::Other,
        mode: "dev".to_string(),
        swap_dir: "/swap".to_string(),
        target: "web".to_string(),
        build_name: "b1".to_string(),
        backup_dir: "/swap/base_backup_BUILD_web".to_string(),
        build_dir: "/build".to_string(),
        logfile_dir: "/swap/rsync_log".to_string(),
        source_dir: "/build".to_string(),
        config_dir: "/cfg".to_string(),
        file_map: FileMap::new(),
        file_source_map: FileMap::new(),
    }
}

#[test]
fn insert_then_get_gives_the_value_back() {
    let mut m = FileMap::new();
    m.insert("/etc".to_string(), data(0, 'd', "root", "root", 755, "root", "root", 644));
    m.insert("/etc/a".to_string(), data(0, 'f', "u", "g", 600, "", "", 0));
    assert_eq!(m.len(), 2);
    m.insert("/etc".to_string(), data(1, 'd', "x", "y", 700, "", "", 0));
    assert_eq!(m.len(), 2);
    assert_eq!(m.get("/etc").unwrap().file_mode, 700);
    assert_eq!(m.get("/etc/a").unwrap().file_mode, 600);
    assert!(m.get("/nope").is_none());
    assert_eq!(m.entry(0).0, "/etc");
    assert!(m.contains_key("/etc/a"));
}

#[test]
fn parent_perms_of_a_path() {
    let mut g = params();
    g.file_map.insert("/etc/postfix".to_string(), data(0, 'd', "root", "root", 755, "root", "postfix", 640));
    let (d, dir) = get_parent_perms(&g, "/etc/postfix/main.cf").unwrap();
    assert_eq!(dir, "/etc/postfix");
    assert_eq!(d.default_file_group, "postfix");
    assert_eq!(
        get_parent_perms(&g, "main.cf").unwrap_err(),
        "get_parent_perms: ERROR: empty last_dir (from: key_path)"
    );
    assert_eq!(
        get_parent_perms(&g, "/top").unwrap_err(),
        "get_parent_perms: ERROR: empty last_dir (from: key_path)"
    );
    assert_eq!(
        get_parent_perms(&g, "/etc/other/x").unwrap_err(),
        "ERROR: get_parent_perms: there is no key in the XML spec tree for '/etc/other'"
    );
}

#[test]
fn reconcile_overrides_and_fills_in_missing_paths() {
    let mut spec = FileMap::new();
    spec.insert("/etc/postfix".to_string(), data(0, 'd', "root", "root", 755, "root", "postfix", 640));
    spec.insert("/etc/postfix/main.cf".to_string(), data(0, 'f', "root", "postfix", 644, "root", "postfix", 640));
    spec.insert("/etc/postfix/gone".to_string(), data(0, 'f', "a", "b", 600, "root", "postfix", 640));
    let mut src = FileMap::new();
    src.insert("/etc/postfix".to_string(), data(0, 'd', "", "", 755, "", "", 0));
    src.insert("/etc/postfix/main.cf".to_string(), data(0, 'f', "", "", 600, "", "", 0));
    src.insert("/etc/postfix/extra".to_string(), data(0, 'f', "", "", 664, "", "", 0));

    let report = reconcile_source_map(&spec, &mut src);
    assert!(report.error.is_none());
    assert_eq!(
        report.spec_lines,
        vec![
            "    <DIR>  L-0 '/etc/postfix' -->  root:root 755",
            "    <FILE> L-0 '/etc/postfix/main.cf' -->  root:postfix 644",
            "??? <FILE> L-0 '/etc/postfix/gone' -->  a:b 600",
        ]
    );
    assert_eq!(
        report.source_lines,
        vec![
            "    <DIR>  L-0 '/etc/postfix' : 755 ",
            "XXX <FILE> L-0 '/etc/postfix/main.cf' : 600 **OVERRIDE** 600 --> 644",
            "??? <FILE> L-0 '/etc/postfix/extra' : 664 **MISSING** (owner dir: '/etc/postfix')",
        ]
    );
    let main = src.get("/etc/postfix/main.cf").unwrap();
    assert_eq!((main.file_user.as_str(), main.file_group.as_str(), main.file_mode), ("root", "postfix", 644));
    let extra = src.get("/etc/postfix/extra").unwrap();
    assert_eq!((extra.file_user.as_str(), extra.file_group.as_str(), extra.file_mode), ("root", "postfix", 640));

    // reconciling a second time changes nothing more
    let again = reconcile_source_map(&spec, &mut src);
    assert!(again.error.is_none());
    assert_eq!(src.get("/etc/postfix/extra").unwrap().file_mode, 640);
    assert_eq!(src.get("/etc/postfix/main.cf").unwrap().file_mode, 644);
    assert_eq!(again.source_lines[1], "    <FILE> L-0 '/etc/postfix/main.cf' root:postfix 644 ");
}

#[test]
fn reconcile_errors_leave_the_source_map_alone() {
    let mut spec = FileMap::new();
    spec.insert("/etc".to_string(), data(0, 'd', "root", "root", 755, "root", "root", 0));
    let mut src = FileMap::new();
    src.insert("/etc/x".to_string(), data(1, 'f', "", "", 600, "", "", 0));
    let report = reconcile_source_map(&spec, &mut src);
    assert_eq!(report.error.unwrap(), "show_prelim: ERROR : default_file_mode was zero ! ");
    assert_eq!(src.get("/etc/x").unwrap().file_mode, 600);

    let mut src2 = FileMap::new();
    src2.insert("/var/x".to_string(), data(1, 'f', "", "", 600, "", "", 0));
    let report = reconcile_source_map(&spec, &mut src2);
    assert_eq!(
        report.error.unwrap(),
        "show_prelim: ERROR in get_parent_perms: 'ERROR: get_parent_perms: there is no key in the XML spec tree for '/var''"
    );
    assert!(report.source_lines.is_empty());
}

#[test]
fn prompt_answers() {
    assert!(matches!(prompt_answer("y\n"), PromptAnswer::Proceed));
    assert!(matches!(prompt_answer("Y"), PromptAnswer::Proceed));
    assert!(matches!(prompt_answer("n\n"), PromptAnswer::Bail));
    assert!(matches!(prompt_answer("\n"), PromptAnswer::Bail));
    match prompt_answer("maybe\n") {
        PromptAnswer::Unclear(a) => assert_eq!(a, "maybe"),
        _ => panic!("expected an unclear answer"),
    }
}

#[test]
fn source_records() {
    let mut src = FileMap::new();
    assert_eq!(
        record_source_dir(&mut src, "/etc", "/build/etc", 0, 0).unwrap_err(),
        "scan_source_dir: full_dir '/build/etc' mode was zero!"
    );
    assert_eq!(src.len(), 0);
    record_source_dir(&mut src, "/etc", "/build/etc", 0, 755).unwrap();
    assert_eq!(
        record_source_file(&mut src, "/etc/a", "/build/etc/a", 0, 0).unwrap_err(),
        "scan_source_dir: file name '/build/etc/a' mode returned zero."
    );
    record_source_file(&mut src, "/etc/a", "/build/etc/a", 0, 644).unwrap();
    assert_eq!(src.len(), 2);
    assert_eq!(src.get("/etc/a").unwrap().file_type, 'f');
    assert_eq!(src.get("/etc").unwrap().file_type, 'd');
}

#[test]
fn joins_like_path_join() {
    assert_eq!(join_path("/etc", "a"), "/etc/a");
    assert_eq!(join_path("/etc/", "a"), "/etc/a");
    assert_eq!(join_path("", "a"), "a");
    assert_eq!(join_path("/etc", "/abs"), "/abs");
}
