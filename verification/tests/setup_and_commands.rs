use mapcopy::args::{log_level, parse_args, ArgAction, LogLevel};
use mapcopy::base::{base_fields_from_output, base_setup_command, lines_have_separator, BaseFields};
use mapcopy::commands::{
    clean_backup_commands, command_parts, copy_jobs, copy_tree_commands, logfile_dir_command,
    mode_from_stat, permission_commands, simple_copy_plan, simple_copy_source, spec_file_path,
    stat_command, target_prefix, CopyJob,
};
use mapcopy::filemap::{FileData, FileMap};
use mapcopy::params::{check_settings, classify_platform, field, params_from_fields, Platform, RunParams};

fn args(v: &[&str]) -> Vec<String> {
    v.iter().map(|s| s.to_string()).collect()
}

fn params(dry_run: bool) -> RunParams {
    let fields = vec![
        ("swapdir".to_string(), "/swap".to_string()),
        ("target".to_string(), "web".to_string()),
        ("buildname".to_string(), "b1".to_string()),
        ("build_dir".to_string(), "/build".to_string()),
        ("configdir".to_string(), "/cfg".to_string()),
    ];
    params_from_fields(dry_run, false, "dev", &fields, Platform::Other)
}

#[test]
fn arguments_set_switches_and_mode() {
    let p = parse_args(&args(&["prog", "-d", "-m", "live", "-f", "-l", "debug", "--loglevel", "off"]));
    assert_eq!(p.log_levels, vec!["debug", "off"]);
    match p.action {
        ArgAction::Proceed { force_yes, dry_run, mode } => {
            assert!(force_yes && dry_run);
            assert_eq!(mode, "live");
        }
        other => panic!("unexpected {:?}", other),
    }
}

#[test]
fn arguments_that_stop_the_run() {
    assert!(matches!(parse_args(&args(&["prog"])).action, ArgAction::Help));
    assert!(matches!(parse_args(&args(&["prog", "-m", "x", "--help"])).action, ArgAction::Help));
    assert!(matches!(parse_args(&args(&["prog", "-v", "-h"])).action, ArgAction::Version));
    assert!(matches!(parse_args(&args(&["prog", "-d"])).action, ArgAction::NoMode));
    assert!(matches!(parse_args(&args(&["prog", "-m"])).action, ArgAction::NoMode));
    // the value of -m is also read as a switch on the next step
    match parse_args(&args(&["prog", "-m", "-d"])).action {
        ArgAction::Proceed { dry_run, mode, .. } => {
            assert!(dry_run);
            assert_eq!(mode, "-d");
        }
        other => panic!("unexpected {:?}", other),
    }
}

#[test]
fn log_level_names() {
    assert_eq!(log_level("warn"), LogLevel::Warn);
    assert_eq!(log_level("trace"), LogLevel::Trace);
    assert_eq!(log_level("off"), LogLevel::Off);
    assert_eq!(log_level("loud"), LogLevel::Error);
}

#[test]
fn base_output_is_read_into_fields() {
    match base_fields_from_output(true, "swapdir: /swap\ntarget: web: two\nconfigdir: \n") {
        BaseFields::Fields(f) => {
            assert_eq!(f.len(), 3);
            assert_eq!(field(&f, "target"), "web: two");
            assert_eq!(field(&f, "configdir"), "");
            assert_eq!(field(&f, "missing"), "");
        }
        other => panic!("unexpected {:?}", other),
    }
}

#[test]
fn base_output_errors() {
    match base_fields_from_output(true, "a: 1\nb: 2\na: 3\n") {
        BaseFields::Failed(e) => {
            assert_eq!(e, "Something's wrong: shell script lines : '3' , hashmap length: '2'")
        }
        other => panic!("unexpected {:?}", other),
    }
    assert!(!lines_have_separator("a: 1\nno separator\n"));
    assert!(!lines_have_separator("a: 1\n\n"));
    assert!(lines_have_separator("a: 1\nb: \n"));
    assert!(lines_have_separator(""));
    match base_fields_from_output(false, "boom") {
        BaseFields::Failed(e) => assert_eq!(e, "get_base: not okay: 'boom' "),
        other => panic!("unexpected {:?}", other),
    }
    assert_eq!(base_setup_command("/usr/bin/x"), "./base_setup.sh -s /usr/bin/x ");
}

#[test]
fn settings_from_fields() {
    let g = params(false);
    assert_eq!(g.backup_dir, "/swap/base_backup_BUILD_web");
    assert_eq!(g.logfile_dir, "/swap/rsync_log");
    assert_eq!(g.source_dir, "/build");
    assert!(check_settings(&g, "http"));
    assert!(!check_settings(&g, ""));
    let empty = params_from_fields(false, false, "dev", &Vec::new(), Platform::Other);
    assert!(!check_settings(&empty, "http"));
}

#[test]
fn platforms() {
    assert_eq!(classify_platform("OpenBSD host 7.4 GENERIC amd64"), (Platform::OpenBSD, "www".to_string()));
    assert_eq!(classify_platform("Linux box 6.6.8-0-lts #1-Alpine alpine x86_64"), (Platform::Alpine, "apache".to_string()));
    assert_eq!(classify_platform("Linux arch 6.7"), (Platform::Other, "http".to_string()));
}

#[test]
fn backup_and_log_commands() {
    let g = params(false);
    let (rm, mk) = clean_backup_commands(&g).unwrap();
    assert_eq!(rm, "rm -rf /swap/base_backup_BUILD_web");
    assert_eq!(mk, "mkdir -p /swap/base_backup_BUILD_web");
    assert_eq!(logfile_dir_command(&g), "mkdir -p /swap/rsync_log");
    let mut d = params(true);
    assert_eq!(logfile_dir_command(&d), "echo mkdir -p /swap/rsync_log");
    d.backup_dir = "/".to_string();
    assert!(clean_backup_commands(&d).is_none());
}

#[test]
fn plain_copy_commands() {
    let g = params(true);
    assert_eq!(simple_copy_source(&g, "/etc/ssl_self"), "/build/etc/ssl_self");
    let plan = simple_copy_plan(&g, "/etc/ssl_self", false, "root", "root", true, 1700000000);
    assert_eq!(plan.mkdir.unwrap(), "echo mkdir -p /home/troy/Downloads/mapcopy_test/etc/ssl_self");
    assert_eq!(
        plan.rsync,
        "rsync --dry-run -v -a --human-readable --chown=root:root --backup --backup-dir=/swap/base_backup_BUILD_web/etc/ssl_self --log-file=/swap/rsync_log/_etc_ssl_self_1700000000.log /build/etc/ssl_self/ /home/troy/Downloads/mapcopy_test/etc/ssl_self"
    );
    let g = params(false);
    let plan = simple_copy_plan(&g, "/etc/redis.conf", true, "", "redis", false, 5);
    assert!(plan.mkdir.is_none());
    assert_eq!(
        plan.rsync,
        "rsync -v -a --human-readable --delete --backup --backup-dir=/swap/base_backup_BUILD_web/etc/redis.conf --log-file=/swap/rsync_log/_etc_redis.conf_5.log /build/etc/redis.conf /home/troy/Downloads/mapcopy_test/etc/redis.conf"
    );
}

#[test]
fn tree_copy_commands() {
    let mut g = params(true);
    g.file_source_map.insert(
        "/etc/postfix/main.cf".to_string(),
        FileData {
            file_level: 0,
            file_type: 'f',
            file_user: "root".to_string(),
            file_group: "postfix".to_string(),
            file_mode: 640,
            default_file_user: String::new(),
            default_file_group: String::new(),
            default_file_mode: 0,
        },
    );
    assert_eq!(
        permission_commands(&g),
        vec![(
            "echo chown root:postfix /build/etc/postfix/main.cf".to_string(),
            "echo chmod 640 /build/etc/postfix/main.cf".to_string()
        )]
    );
    let (mk, rsync) = copy_tree_commands(&g, "/etc/postfix", false, 42);
    assert_eq!(mk, "echo mkdir -p /home/troy/Downloads/mapcopy_test/etc/postfix");
    let plain = params(false);
    assert_eq!(copy_tree_commands(&plain, "/etc/postfix", false, 42).0, "mkdir -p /home/troy/Downloads/mapcopy_test/etc/postfix");
    assert_eq!(
        rsync,
        "rsync --dry-run -a --human-readable --verbose --backup --backup-dir=/swap/base_backup_BUILD_web/etc/postfix --log-file=/swap/rsync_log/_etc_postfix_42.log /build/etc/postfix/ /home/troy/Downloads/mapcopy_test/etc/postfix"
    );
    assert_eq!(target_prefix(), "/home/troy/Downloads/mapcopy_test");
    assert_eq!(spec_file_path(&g, "/etc/logrotate.d"), "/cfg/tree_definitions/spec_etc_logrotate_d.xml");
}

#[test]
fn stat_commands_and_modes() {
    assert_eq!(stat_command(Platform::OpenBSD, "/x").unwrap(), "stat -n -f %OLp /x");
    assert_eq!(stat_command(Platform::Alpine, "/x").unwrap(), "stat -c %a /x");
    assert_eq!(stat_command(Platform::Other, "/x").unwrap(), "stat -c %a /x");
    assert!(stat_command(Platform::Other, "").is_none());
    assert_eq!(mode_from_stat(true, "755"), 755);
    assert_eq!(mode_from_stat(true, "755\n"), 755);
    assert_eq!(mode_from_stat(true, "644\r\n"), 644);
    assert_eq!(mode_from_stat(true, "644\n\n"), 0);
    assert_eq!(mode_from_stat(true, "rwx\n"), 0);
    assert_eq!(mode_from_stat(false, "755"), 0);
    assert_eq!(command_parts("stat -c %a /x"), vec!["stat", "-c", "%a", "/x"]);
}

#[test]
fn the_copy_tasks() {
    let jobs = copy_jobs("www");
    assert_eq!(jobs.len(), 19);
    match &jobs[0] {
        CopyJob::Simple { path_dir, delete, file_user, file_group } => {
            assert_eq!(path_dir, "/var/www/html/sites/default");
            assert!(!delete);
            assert_eq!((file_user.as_str(), file_group.as_str()), ("www", "www"));
        }
        other => panic!("unexpected {:?}", other),
    }
    assert!(matches!(&jobs[5], CopyJob::Mapped { path_dir, delete: false } if path_dir == "/etc/postfix"));
    assert!(matches!(&jobs[16], CopyJob::Simple { path_dir, .. } if path_dir == "/etc/redis.conf"));
    let _ = FileMap::new();
}

#[test]
fn command_pieces_join_back() {
    for c in ["rsync -a  /x /y", "ls", "", "a b "] {
        assert_eq!(command_parts(c).join(" "), c);
    }
}

#[test]
fn tree_rsync_has_single_spaces() {
    for dry in [false, true] {
        let g = params(dry);
        for delete in [false, true] {
            let (mkdir, rsync) = copy_tree_commands(&g, "/etc/php8", delete, 7);
            assert_eq!(mkdir.starts_with("echo "), dry);
            assert!(!rsync.contains("  "), "{}", rsync);
            if dry {
                assert!(rsync.starts_with("rsync --dry-run "));
            }
        }
    }
}
