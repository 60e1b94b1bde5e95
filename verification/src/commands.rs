//! The shell commands that a run gives: clearing the backup directory, preparing the
//! log directory, setting owners and modes, and the `rsync` copies.

use vstd::prelude::*;
use crate::number::{decimal, i32_decimal, signed_decimal, u64_decimal};
use crate::params::{Platform, RunParams};
use crate::text::{cat, concat2, concat3, owned, replace_char, replace_char_str, str_eq};

verus! {

/// Where copies land: every target path is put under this directory.
pub open spec fn test_prefix() -> Seq<char> {
    "/home/troy/Downloads/mapcopy_test"@
}

/// Where copies land (see `test_prefix`).
pub fn target_prefix() -> (r: &'static str)
    ensures
        r@ == test_prefix(),
{
    "/home/troy/Downloads/mapcopy_test"
}

/// What goes in front of a command on a dry run, so that it is only echoed.
pub open spec fn echo_prefix(dry_run: bool) -> Seq<char> {
    if dry_run {
        "echo "@
    } else {
        Seq::empty()
    }
}

fn echo_prefix_exec(dry_run: bool) -> (r: String)
    ensures
        r@ == echo_prefix(dry_run),
{
    if dry_run {
        owned("echo ")
    } else {
        proof {
            reveal_strlit("");
        }
        owned("")
    }
}

/// The commands that empty the backup directory: remove it, then make it again; none
/// when the backup directory is `/`.
pub fn clean_backup_commands(g: &RunParams) -> (r: Option<(String, String)>)
    ensures
        g.backup_dir@ == "/"@ ==> r is None,
        g.backup_dir@ != "/"@ ==> (r matches Some((rm, mk))
            && rm@ == echo_prefix(g.dry_run) + "rm -rf "@ + g.backup_dir@
            && mk@ == echo_prefix(g.dry_run) + "mkdir -p "@ + g.backup_dir@),
{
    if str_eq(g.backup_dir.as_str(), "/") {
        return None;
    }
    let e = echo_prefix_exec(g.dry_run);
    let rm = concat3(e.as_str(), "rm -rf ", g.backup_dir.as_str());
    let mk = concat3(e.as_str(), "mkdir -p ", g.backup_dir.as_str());
    Some((rm, mk))
}

/// The command that makes the log directory.
pub fn logfile_dir_command(g: &RunParams) -> (r: String)
    ensures
        r@ == echo_prefix(g.dry_run) + "mkdir -p "@ + g.logfile_dir@,
{
    let e = echo_prefix_exec(g.dry_run);
    concat3(e.as_str(), "mkdir -p ", g.logfile_dir.as_str())
}

/// A path turned into a part of a log file name: every `/` becomes `_`.
pub open spec fn log_name_part(path_dir: Seq<char>) -> Seq<char> {
    replace_char(path_dir, '/', '_')
}

/// The `--log-file` switch of a copy of `path_dir` started at `seconds_now`.
pub open spec fn log_file_switch(g_logfile_dir: Seq<char>, path_dir: Seq<char>, seconds_now: u64) -> Seq<char> {
    " --log-file="@ + g_logfile_dir + "/"@ + log_name_part(path_dir) + "_"@ + decimal(seconds_now as nat) + ".log"@
}

fn log_file_switch_exec(g: &RunParams, path_dir: &str, seconds_now: u64) -> (r: String)
    ensures
        r@ == log_file_switch(g.logfile_dir@, path_dir@, seconds_now),
{
    let part = replace_char_str(path_dir, '/', '_');
    let mut r = owned(" --log-file=");
    r.append(g.logfile_dir.as_str());
    r.append("/");
    r.append(part.as_str());
    r.append("_");
    r.append(u64_decimal(seconds_now).as_str());
    r.append(".log");
    r
}

/// The `--backup` switches of a copy of `path_dir`.
pub open spec fn backup_switch(backup_dir: Seq<char>, path_dir: Seq<char>) -> Seq<char> {
    " --backup --backup-dir="@ + backup_dir + path_dir
}

/// The `--dry-run` switch, on a dry run.
pub open spec fn dry_run_switch(dry_run: bool) -> Seq<char> {
    if dry_run {
        "--dry-run "@
    } else {
        Seq::empty()
    }
}

/// The `--delete` switch, when extra files are to be deleted.
pub open spec fn delete_switch(delete: bool) -> Seq<char> {
    if delete {
        " --delete"@
    } else {
        Seq::empty()
    }
}

fn flag_text(on: bool, text: &str) -> (r: String)
    ensures
        r@ == (if on { text@ } else { Seq::empty() }),
{
    if on {
        owned(text)
    } else {
        proof {
            reveal_strlit("");
        }
        owned("")
    }
}

/// The commands of a plain copy: a `mkdir` of the target when the source is a directory,
/// and the `rsync` call.
#[derive(Debug)]
pub struct SimpleCopyPlan {
    pub mkdir: Option<String>,
    pub rsync: String,
}

/// The source of a plain copy of `path_dir`.
pub fn simple_copy_source(g: &RunParams, path_dir: &str) -> (r: String)
    ensures
        r@ == g.source_dir@ + path_dir@,
{
    concat2(g.source_dir.as_str(), path_dir)
}

/// The `rsync` call of a plain copy of `path_dir` (see `simple_copy_plan`).
pub open spec fn simple_rsync(
    g: &RunParams,
    path_dir: Seq<char>,
    delete: bool,
    file_user: Seq<char>,
    file_group: Seq<char>,
    source_is_dir: bool,
    seconds_now: u64,
) -> Seq<char> {
    let source = g.source_dir@ + path_dir + (if source_is_dir { "/"@ } else { Seq::empty() });
    let target = test_prefix() + path_dir;
    let chown = if file_user.len() != 0 && file_group.len() != 0 {
        " --chown="@ + file_user + ":"@ + file_group
    } else {
        Seq::empty()
    };
    let switches = dry_run_switch(g.dry_run) + "-v -a --human-readable"@ + delete_switch(delete) + chown
        + backup_switch(g.backup_dir@, path_dir) + log_file_switch(g.logfile_dir@, path_dir, seconds_now);
    "rsync "@ + switches + " "@ + source + " "@ + target
}

/// A plain copy hands `rsync` the owner before the group: when both are given, the call
/// holds ` --chown=<owner>:<group>`; when either is missing, the call is the one made
/// with neither.
pub proof fn lemma_simple_rsync_chown(
    g: &RunParams,
    path_dir: Seq<char>,
    delete: bool,
    file_user: Seq<char>,
    file_group: Seq<char>,
    source_is_dir: bool,
    seconds_now: u64,
)
    ensures
        file_user.len() != 0 && file_group.len() != 0 ==> crate::text::contains_seq(
            simple_rsync(g, path_dir, delete, file_user, file_group, source_is_dir, seconds_now),
            (" --chown="@ + file_user) + (":"@ + file_group),
        ),
        file_user.len() == 0 || file_group.len() == 0 ==> simple_rsync(g, path_dir, delete, file_user, file_group, source_is_dir, seconds_now)
            == simple_rsync(g, path_dir, delete, Seq::empty(), Seq::empty(), source_is_dir, seconds_now),
{
    if file_user.len() != 0 && file_group.len() != 0 {
        let source = g.source_dir@ + path_dir + (if source_is_dir { "/"@ } else { Seq::empty() });
        let target = test_prefix() + path_dir;
        let chown = (" --chown="@ + file_user) + (":"@ + file_group);
        let pre = "rsync "@ + (dry_run_switch(g.dry_run) + "-v -a --human-readable"@ + delete_switch(delete));
        let post = backup_switch(g.backup_dir@, path_dir) + log_file_switch(g.logfile_dir@, path_dir, seconds_now) + " "@
            + source + " "@ + target;
        let whole = simple_rsync(g, path_dir, delete, file_user, file_group, source_is_dir, seconds_now);
        assert(whole =~= pre + chown + post);
        assert((pre + chown + post).subrange(pre.len() as int, (pre.len() + chown.len()) as int) =~= chown);
        assert(crate::text::occurs_at(whole, chown, pre.len() as int));
    } else {
        let e: Seq<char> = Seq::empty();
        assert(e.len() == 0);
    }
}

/// The commands that copy `path_dir` from the source directory into place as it is,
/// owned by `file_user`:`file_group` when both are given, keeping what it replaces in
/// the backup directory and logging to the log directory. A source directory gets a
/// `/` so that its contents are copied, and its target is made first.
pub fn simple_copy_plan(
    g: &RunParams,
    path_dir: &str,
    delete: bool,
    file_user: &str,
    file_group: &str,
    source_is_dir: bool,
    seconds_now: u64,
) -> (r: SimpleCopyPlan)
    ensures
        source_is_dir ==> (r.mkdir matches Some(m) && m@ == echo_prefix(g.dry_run) + "mkdir -p "@ + test_prefix() + path_dir@),
        !source_is_dir ==> r.mkdir is None,
        r.rsync@ == simple_rsync(g, path_dir@, delete, file_user@, file_group@, source_is_dir, seconds_now),
{
    let target = concat2(target_prefix(), path_dir);
    let source = cat(simple_copy_source(g, path_dir), flag_text(source_is_dir, "/").as_str());
    let mkdir = if source_is_dir {
        let e = echo_prefix_exec(g.dry_run);
        Some(concat3(e.as_str(), "mkdir -p ", target.as_str()))
    } else {
        None
    };
    let chown = if !file_user.is_empty() && !file_group.is_empty() {
        let mut c = owned(" --chown=");
        c.append(file_user);
        c.append(":");
        c.append(file_group);
        c
    } else {
        proof {
            reveal_strlit("");
        }
        owned("")
    };
    let mut switches = flag_text(g.dry_run, "--dry-run ");
    switches.append("-v -a --human-readable");
    switches.append(flag_text(delete, " --delete").as_str());
    switches.append(chown.as_str());
    switches.append(concat3(" --backup --backup-dir=", g.backup_dir.as_str(), path_dir).as_str());
    switches.append(log_file_switch_exec(g, path_dir, seconds_now).as_str());
    let mut rsync = owned("rsync ");
    rsync.append(switches.as_str());
    rsync.append(" ");
    rsync.append(source.as_str());
    rsync.append(" ");
    rsync.append(target.as_str());
    SimpleCopyPlan { mkdir, rsync }
}

/// The `chown` and `chmod` commands that give a source path the owner, group and mode
/// recorded for it.
pub open spec fn permission_pair(dry_run: bool, source_dir: Seq<char>, key: Seq<char>, d: crate::filemap::FileDataView) -> (Seq<char>, Seq<char>) {
    let file = source_dir + key;
    (
        echo_prefix(dry_run) + "chown "@ + d.file_user + ":"@ + d.file_group + " "@ + file,
        echo_prefix(dry_run) + "chmod "@ + signed_decimal(d.file_mode as int) + " "@ + file,
    )
}

/// For every entry of the source map, in order, the `chown` and `chmod` commands that
/// set its owner, group and mode in the source directory.
pub fn permission_commands(g: &RunParams) -> (r: Vec<(String, String)>)
    ensures
        r@.len() == g.file_source_map@.len(),
        forall|q: int| 0 <= q < r@.len() ==> ((#[trigger] r@[q]).0@, r@[q].1@) == permission_pair(
            g.dry_run,
            g.source_dir@,
            g.file_source_map@[q].0,
            g.file_source_map@[q].1,
        ),
{
    let mut out: Vec<(String, String)> = Vec::new();
    let n = g.file_source_map.len();
    let mut i: usize = 0;
    while i < n
        invariant
            n == g.file_source_map@.len(),
            i <= n,
            out@.len() == i,
            forall|q: int| 0 <= q < i ==> ((#[trigger] out@[q]).0@, out@[q].1@) == permission_pair(
                g.dry_run,
                g.source_dir@,
                g.file_source_map@[q].0,
                g.file_source_map@[q].1,
            ),
        decreases n - i,
    {
        let (k, d) = g.file_source_map.entry(i);
        let e = echo_prefix_exec(g.dry_run);
        let file = concat2(g.source_dir.as_str(), k.as_str());
        let mut chown = concat2(e.as_str(), "chown ");
        chown.append(d.file_user.as_str());
        chown.append(":");
        chown.append(d.file_group.as_str());
        chown.append(" ");
        chown.append(file.as_str());
        let mut chmod = concat2(e.as_str(), "chmod ");
        chmod.append(i32_decimal(d.file_mode).as_str());
        chmod.append(" ");
        chmod.append(file.as_str());
        out.push((chown, chmod));
        i = i + 1;
    }
    out
}

/// On a live run the owner and mode are set, not echoed: the `chown` is exactly
/// `chown <user>:<group> <source dir><path>` (owner first, then group) and the `chmod`
/// exactly `chmod <mode> <source dir><path>`, the mode in decimal; on a dry run each is
/// the live command behind `echo `.
pub proof fn lemma_permission_pair_live_and_dry(source_dir: Seq<char>, key: Seq<char>, d: crate::filemap::FileDataView)
    ensures
        permission_pair(false, source_dir, key, d).0 == "chown "@ + d.file_user + ":"@ + d.file_group + " "@ + source_dir + key,
        permission_pair(false, source_dir, key, d).1 == "chmod "@ + signed_decimal(d.file_mode as int) + " "@ + source_dir + key,
        permission_pair(true, source_dir, key, d).0 == "echo "@ + permission_pair(false, source_dir, key, d).0,
        permission_pair(true, source_dir, key, d).1 == "echo "@ + permission_pair(false, source_dir, key, d).1,
{
    let file = source_dir + key;
    let c = "chown "@ + d.file_user + ":"@ + d.file_group + " "@ + file;
    let m = "chmod "@ + signed_decimal(d.file_mode as int) + " "@ + file;
    assert(Seq::<char>::empty() + "chown "@ + d.file_user + ":"@ + d.file_group + " "@ + file =~= c);
    assert(Seq::<char>::empty() + "chmod "@ + signed_decimal(d.file_mode as int) + " "@ + file =~= m);
    assert("chown "@ + d.file_user + ":"@ + d.file_group + " "@ + source_dir + key =~= c);
    assert("chmod "@ + signed_decimal(d.file_mode as int) + " "@ + source_dir + key =~= m);
    assert("echo "@ + "chown "@ + d.file_user + ":"@ + d.file_group + " "@ + file =~= "echo "@ + c);
    assert("echo "@ + "chmod "@ + signed_decimal(d.file_mode as int) + " "@ + file =~= "echo "@ + m);
}

/// The `mkdir` of the target and the `rsync` call that copy the prepared source tree
/// of `path_dir` into place (see `copy_tree_commands`).
pub open spec fn tree_copy(g: &RunParams, path_dir: Seq<char>, delete: bool, seconds_now: u64) -> (Seq<char>, Seq<char>) {
    let target = test_prefix() + path_dir;
    (
        echo_prefix(g.dry_run) + "mkdir -p "@ + target,
        "rsync "@ + dry_run_switch(g.dry_run) + "-a --human-readable --verbose"@ + delete_switch(delete)
            + backup_switch(g.backup_dir@, path_dir) + log_file_switch(g.logfile_dir@, path_dir, seconds_now) + " "@
            + g.source_dir@ + path_dir + "/"@ + " "@ + target,
    )
}

/// The command that makes the target of `path_dir` (only echoed on a dry run) and the
/// `rsync` call that copies the contents of its source directory there.
pub fn copy_tree_commands(g: &RunParams, path_dir: &str, delete: bool, seconds_now: u64) -> (r: (String, String))
    ensures
        (r.0@, r.1@) == tree_copy(g, path_dir@, delete, seconds_now),
{
    let target = concat2(target_prefix(), path_dir);
    let mkdir = concat3(echo_prefix_exec(g.dry_run).as_str(), "mkdir -p ", target.as_str());
    let mut rsync = owned("rsync ");
    rsync.append(flag_text(g.dry_run, "--dry-run ").as_str());
    rsync.append("-a --human-readable --verbose");
    rsync.append(flag_text(delete, " --delete").as_str());
    rsync.append(concat3(" --backup --backup-dir=", g.backup_dir.as_str(), path_dir).as_str());
    rsync.append(log_file_switch_exec(g, path_dir, seconds_now).as_str());
    rsync.append(" ");
    rsync.append(g.source_dir.as_str());
    rsync.append(path_dir);
    rsync.append("/");
    rsync.append(" ");
    rsync.append(target.as_str());
    (mkdir, rsync)
}

/// The specification file of `path_dir`: under the configuration directory, named after
/// the path with every `/` and `.` turned into `_`.
pub open spec fn spec_file_path_of(config_dir: Seq<char>, path_dir: Seq<char>) -> Seq<char> {
    config_dir + "/tree_definitions/spec"@ + replace_char(replace_char(path_dir, '/', '_'), '.', '_') + ".xml"@
}

/// The specification file of `path_dir` (see `spec_file_path_of`).
pub fn spec_file_path(g: &RunParams, path_dir: &str) -> (r: String)
    ensures
        r@ == spec_file_path_of(g.config_dir@, path_dir@),
{
    let part = replace_char_str(replace_char_str(path_dir, '/', '_').as_str(), '.', '_');
    let mut r = concat2(g.config_dir.as_str(), "/tree_definitions/spec");
    r.append(part.as_str());
    r.append(".xml");
    r
}

/// The command that prints the mode of `uri` as octal digits on `platform`; none for an
/// empty path.
pub open spec fn stat_command_of(platform: Platform, uri: Seq<char>) -> Option<Seq<char>> {
    if uri.len() == 0 {
        None
    } else if platform == Platform::OpenBSD {
        Some("stat -n -f %OLp "@ + uri)
    } else {
        Some("stat -c %a "@ + uri)
    }
}

/// The command that prints the mode of `uri` (see `stat_command_of`).
pub fn stat_command(platform: Platform, uri: &str) -> (r: Option<String>)
    ensures
        match r {
            Some(c) => stat_command_of(platform, uri@) == Some(c@),
            None => stat_command_of(platform, uri@) is None,
        },
{
    if uri.is_empty() {
        None
    } else if platform == Platform::OpenBSD {
        Some(concat2("stat -n -f %OLp ", uri))
    } else {
        Some(concat2("stat -c %a ", uri))
    }
}

/// `s` without the line break at its end (`"\n"` or `"\r\n"`), if it has one.
pub open spec fn without_line_break(s: Seq<char>) -> Seq<char> {
    if s.len() > 0 && s.last() == '\n' {
        crate::text::strip_cr(s.drop_last())
    } else {
        s
    }
}

/// The mode that the output of the `stat` command gives: its text without the line
/// break at its end read as a number, and zero when the command failed or what remains
/// is no number.
pub fn mode_from_stat(ok: bool, raw_output: &str) -> (r: i32)
    ensures
        r == (if ok { crate::spectree::mode_of(without_line_break(raw_output@)) } else { 0 }),
{
    if !ok {
        return 0;
    }
    let v = crate::text::chars_of(raw_output);
    let mut end = v.len();
    if end > 0 && v[end - 1] == '\n' {
        end = end - 1;
        if end > 0 && v[end - 1] == '\r' {
            end = end - 1;
        }
    }
    let text = crate::text::string_of(&v.as_slice()[0..end]);
    assert(text@ =~= without_line_break(raw_output@));
    crate::spectree::mode_number(text.as_str())
}

/// One copy task of a run: a plain copy of a path with a given owner and group, or a
/// copy of a path whose owners and modes come from its tree specification. `delete`
/// says whether files missing from the source are deleted from the target.
#[derive(Debug)]
pub enum CopyJob {
    Simple { path_dir: String, delete: bool, file_user: String, file_group: String },
    Mapped { path_dir: String, delete: bool },
}

/// The value of a copy task: path, delete, and for a plain copy owner and group.
pub enum JobView {
    Simple(Seq<char>, bool, Seq<char>, Seq<char>),
    Mapped(Seq<char>, bool),
}

pub open spec fn job_view(j: CopyJob) -> JobView {
    match j {
        CopyJob::Simple { path_dir, delete, file_user, file_group } => JobView::Simple(path_dir@, delete, file_user@, file_group@),
        CopyJob::Mapped { path_dir, delete } => JobView::Mapped(path_dir@, delete),
    }
}

/// The copy tasks of a run, in order: the default web sites (owned by the web owner),
/// the configuration and home directories that have tree specifications, then Redis,
/// the self-signed certificates and Let's Encrypt (owned by `redis` and `root`). None
/// deletes anything.
pub open spec fn copy_jobs_of(owner: Seq<char>) -> Seq<JobView> {
    seq![
        JobView::Simple("/var/www/html/sites/default"@, false, owner, owner),
        JobView::Simple("/var/www/html/sites/default_http"@, false, owner, owner),
        JobView::Simple("/var/www/html/sites/default_https"@, false, owner, owner),
        JobView::Mapped("/etc/httpd/conf"@, false),
        JobView::Mapped("/etc/apache2"@, false),
        JobView::Mapped("/etc/postfix"@, false),
        JobView::Mapped("/etc/postgresql"@, false),
        JobView::Mapped("/etc/php"@, false),
        JobView::Mapped("/etc/php8"@, false),
        JobView::Mapped("/var/lib/postgres"@, false),
        JobView::Mapped("/var/lib/postgresql"@, false),
        JobView::Mapped("/root"@, false),
        JobView::Mapped("/home/vagrant"@, false),
        JobView::Mapped("/home/arch"@, false),
        JobView::Mapped("/home/alpine"@, false),
        JobView::Mapped("/etc/logrotate.d"@, false),
        JobView::Simple("/etc/redis.conf"@, false, "redis"@, "redis"@),
        JobView::Simple("/etc/ssl_self"@, false, "root"@, "root"@),
        JobView::Simple("/etc/letsencrypt"@, false, "root"@, "root"@),
    ]
}

fn simple_job(path_dir: &str, file_user: &str, file_group: &str) -> (r: CopyJob)
    ensures
        job_view(r) == JobView::Simple(path_dir@, false, file_user@, file_group@),
{
    CopyJob::Simple { path_dir: owned(path_dir), delete: false, file_user: owned(file_user), file_group: owned(file_group) }
}

fn mapped_job(path_dir: &str) -> (r: CopyJob)
    ensures
        job_view(r) == JobView::Mapped(path_dir@, false),
{
    CopyJob::Mapped { path_dir: owned(path_dir), delete: false }
}

/// The copy tasks of a run (see `copy_jobs_of`), the web area owned by `web_owner`.
pub fn copy_jobs(web_owner: &str) -> (r: Vec<CopyJob>)
    ensures
        r@.map_values(|j: CopyJob| job_view(j)) == copy_jobs_of(web_owner@),
{
    let mut v: Vec<CopyJob> = Vec::new();
    v.push(simple_job("/var/www/html/sites/default", web_owner, web_owner));
    v.push(simple_job("/var/www/html/sites/default_http", web_owner, web_owner));
    v.push(simple_job("/var/www/html/sites/default_https", web_owner, web_owner));
    v.push(mapped_job("/etc/httpd/conf"));
    v.push(mapped_job("/etc/apache2"));
    v.push(mapped_job("/etc/postfix"));
    v.push(mapped_job("/etc/postgresql"));
    v.push(mapped_job("/etc/php"));
    v.push(mapped_job("/etc/php8"));
    v.push(mapped_job("/var/lib/postgres"));
    v.push(mapped_job("/var/lib/postgresql"));
    v.push(mapped_job("/root"));
    v.push(mapped_job("/home/vagrant"));
    v.push(mapped_job("/home/arch"));
    v.push(mapped_job("/home/alpine"));
    v.push(mapped_job("/etc/logrotate.d"));
    v.push(simple_job("/etc/redis.conf", "redis", "redis"));
    v.push(simple_job("/etc/ssl_self", "root", "root"));
    v.push(simple_job("/etc/letsencrypt", "root", "root"));
    assert(v@.map_values(|j: CopyJob| job_view(j)) =~= copy_jobs_of(web_owner@));
    v
}

/// The program and the arguments of a command line: the pieces between single spaces
/// (see `spec_split`), the first being the program.
pub fn command_parts(command: &str) -> (r: Vec<String>)
    ensures
        crate::text::views(r@) == crate::text::spec_split(command@, ' '),
        r@.len() >= 1,
{
    crate::text::split_char(command, ' ')
}

/// On a dry run nothing is changed by the commands the run gives that go through the
/// shell: the backup, log directory, `chown`, `chmod` and `mkdir` commands are only
/// echoed, and every `rsync` call is a `--dry-run`.
pub proof fn lemma_dry_run_only_echoes(
    g: &RunParams,
    path_dir: Seq<char>,
    delete: bool,
    file_user: Seq<char>,
    file_group: Seq<char>,
    source_is_dir: bool,
    seconds_now: u64,
    key: Seq<char>,
    d: crate::filemap::FileDataView,
)
    requires
        g.dry_run,
    ensures
        (echo_prefix(g.dry_run) + "rm -rf "@ + g.backup_dir@).take(5) == "echo "@,
        (echo_prefix(g.dry_run) + "mkdir -p "@ + g.backup_dir@).take(5) == "echo "@,
        (echo_prefix(g.dry_run) + "mkdir -p "@ + g.logfile_dir@).take(5) == "echo "@,
        (echo_prefix(g.dry_run) + "mkdir -p "@ + test_prefix() + path_dir).take(5) == "echo "@,
        permission_pair(g.dry_run, g.source_dir@, key, d).0.take(5) == "echo "@,
        permission_pair(g.dry_run, g.source_dir@, key, d).1.take(5) == "echo "@,
        simple_rsync(g, path_dir, delete, file_user, file_group, source_is_dir, seconds_now).take(16)
            == "rsync --dry-run "@,
        tree_copy(g, path_dir, delete, seconds_now).0.take(5) == "echo "@,
        tree_copy(g, path_dir, delete, seconds_now).1.take(16) == "rsync --dry-run "@,
{
    reveal_strlit("echo ");
    reveal_strlit("rsync ");
    reveal_strlit("--dry-run ");
    reveal_strlit("rsync --dry-run ");
    assert(("rsync "@ + "--dry-run "@) =~= "rsync --dry-run "@);
    let e = echo_prefix(g.dry_run);
    assert((e + "rm -rf "@ + g.backup_dir@).take(5) =~= "echo "@);
    assert((e + "mkdir -p "@ + g.backup_dir@).take(5) =~= "echo "@);
    assert((e + "mkdir -p "@ + g.logfile_dir@).take(5) =~= "echo "@);
    assert((e + "mkdir -p "@ + test_prefix() + path_dir).take(5) =~= "echo "@);
    assert(permission_pair(g.dry_run, g.source_dir@, key, d).0.take(5) =~= "echo "@);
    assert(permission_pair(g.dry_run, g.source_dir@, key, d).1.take(5) =~= "echo "@);
    assert(simple_rsync(g, path_dir, delete, file_user, file_group, source_is_dir, seconds_now).take(16) =~= "rsync --dry-run "@);
    assert(tree_copy(g, path_dir, delete, seconds_now).0.take(5) =~= "echo "@);
    assert(tree_copy(g, path_dir, delete, seconds_now).1.take(16) =~= "rsync --dry-run "@);
}

/// Whether `s` holds no space.
pub open spec fn no_space(s: Seq<char>) -> bool {
    forall|i: int| 0 <= i < s.len() ==> s[i] != ' '
}

/// Whether no two spaces follow each other in `s`.
pub open spec fn single_spaced(s: Seq<char>) -> bool {
    forall|i: int, j: int| 0 <= i && j == i + 1 && j < s.len() ==> !(#[trigger] s[i] == ' ' && #[trigger] s[j] == ' ')
}

/// Whether `s` does not end with a space.
pub open spec fn no_trailing_space(s: Seq<char>) -> bool {
    s.len() == 0 || s.last() != ' '
}

proof fn lemma_join_single_spaced(a: Seq<char>, b: Seq<char>)
    requires
        single_spaced(a),
        single_spaced(b),
        no_trailing_space(a) || (b.len() > 0 && b[0] != ' '),
    ensures
        single_spaced(a + b),
        no_trailing_space(b) && (b.len() > 0 || no_trailing_space(a)) ==> no_trailing_space(a + b),
{
    let c = a + b;
    assert forall|i: int, j: int| 0 <= i && j == i + 1 && j < c.len() implies !(#[trigger] c[i] == ' ' && #[trigger] c[j] == ' ') by {
        if j < a.len() {
            assert(c[i] == a[i] && c[j] == a[j]);
        } else if i >= a.len() {
            assert(c[i] == b[i - a.len()] && c[j] == b[j - a.len()]);
        } else {
            assert(c[i] == a[a.len() - 1]);
            assert(c[j] == b[0]);
        }
    }
}

proof fn lemma_no_space(s: Seq<char>)
    requires
        no_space(s),
    ensures
        single_spaced(s),
        no_trailing_space(s),
{
}

/// Joins `acc` with `b`, which holds no space.
proof fn lemma_add_no_space(acc: Seq<char>, b: Seq<char>)
    requires
        single_spaced(acc),
        no_trailing_space(acc),
        no_space(b),
    ensures
        single_spaced(acc + b),
        no_trailing_space(acc + b),
{
    lemma_no_space(b);
    lemma_join_single_spaced(acc, b);
}

/// Joins `acc` with the text `b`, which begins with a space and has no two spaces in a row.
proof fn lemma_add_spaced(acc: Seq<char>, b: Seq<char>)
    requires
        single_spaced(acc),
        no_trailing_space(acc),
        single_spaced(b),
        b.len() > 0,
        no_trailing_space(b),
    ensures
        single_spaced(acc + b),
        no_trailing_space(acc + b),
{
    lemma_join_single_spaced(acc, b);
}

/// The `rsync` call that copies a prepared source tree never has two spaces in a row
/// when the directories and the path hold no space, so that `rsync` sees every
/// argument where it belongs.
pub proof fn lemma_tree_rsync_single_spaced(g: &RunParams, path_dir: Seq<char>, delete: bool, seconds_now: u64)
    requires
        no_space(g.backup_dir@),
        no_space(g.logfile_dir@),
        no_space(g.source_dir@),
        no_space(path_dir),
    ensures
        single_spaced(tree_copy(g, path_dir, delete, seconds_now).1),
{
    reveal_strlit("rsync ");
    reveal_strlit("--dry-run ");
    reveal_strlit("-a --human-readable --verbose");
    reveal_strlit(" --delete");
    reveal_strlit(" --backup --backup-dir=");
    reveal_strlit(" --log-file=");
    reveal_strlit("/");
    reveal_strlit("_");
    reveal_strlit(".log");
    reveal_strlit(" ");
    reveal_strlit("/home/troy/Downloads/mapcopy_test");
    crate::number::lemma_decimal_digits(seconds_now as nat);
    let dec = decimal(seconds_now as nat);
    assert(no_space(dec)) by {
        assert forall|i: int| 0 <= i < dec.len() implies dec[i] != ' ' by {
            assert(crate::number::is_digit(dec[i]));
        }
    }
    let part = log_name_part(path_dir);
    assert(no_space(part));

    let x0 = "rsync "@;
    let dry = dry_run_switch(g.dry_run);
    assert(single_spaced(x0));
    let x1 = x0 + dry;
    if g.dry_run {
        assert(single_spaced(dry));
        lemma_join_single_spaced(x0, dry);
    } else {
        assert(x1 =~= x0);
    }
    let lit = "-a --human-readable --verbose"@;
    assert(single_spaced(lit));
    assert(no_trailing_space(lit));
    lemma_join_single_spaced(x1, lit);
    let x2 = x1 + lit;
    let del = delete_switch(delete);
    let x3 = x2 + del;
    if delete {
        assert(single_spaced(del));
        lemma_add_spaced(x2, del);
    } else {
        assert(x3 =~= x2);
    }
    let b0 = " --backup --backup-dir="@;
    assert(single_spaced(b0));
    lemma_add_no_space(b0, g.backup_dir@);
    lemma_add_no_space(b0 + g.backup_dir@, path_dir);
    let bs = backup_switch(g.backup_dir@, path_dir);
    lemma_add_spaced(x3, bs);
    let x4 = x3 + bs;
    let l0 = " --log-file="@;
    assert(single_spaced(l0));
    lemma_add_no_space(l0, g.logfile_dir@);
    lemma_add_no_space(l0 + g.logfile_dir@, "/"@);
    lemma_add_no_space(l0 + g.logfile_dir@ + "/"@, part);
    lemma_add_no_space(l0 + g.logfile_dir@ + "/"@ + part, "_"@);
    lemma_add_no_space(l0 + g.logfile_dir@ + "/"@ + part + "_"@, dec);
    lemma_add_no_space(l0 + g.logfile_dir@ + "/"@ + part + "_"@ + dec, ".log"@);
    let ls = log_file_switch(g.logfile_dir@, path_dir, seconds_now);
    lemma_add_spaced(x4, ls);
    let x5 = x4 + ls;
    let sp = " "@;
    lemma_join_single_spaced(x5, sp);
    let x6 = x5 + sp;
    let x7 = x6 + g.source_dir@;
    let x8 = x7 + path_dir;
    let x9 = x8 + "/"@;
    let src = g.source_dir@ + path_dir + "/"@;
    assert(no_space(src));
    lemma_no_space(src);
    if src.len() > 0 {
        lemma_join_single_spaced(x6, src);
    }
    assert(x9 =~= x6 + src);
    let x10 = x9 + sp;
    lemma_join_single_spaced(x9, sp);
    let target = test_prefix() + path_dir;
    assert(no_space(target));
    lemma_no_space(target);
    lemma_join_single_spaced(x10, target);
}

/// Whether two settings are the same but for the mode.
pub open spec fn same_but_mode(g1: &RunParams, g2: &RunParams) -> bool {
    &&& g1.dry_run == g2.dry_run
    &&& g1.force_yes == g2.force_yes
    &&& g1.platform == g2.platform
    &&& g1.swap_dir@ == g2.swap_dir@
    &&& g1.target@ == g2.target@
    &&& g1.build_name@ == g2.build_name@
    &&& g1.backup_dir@ == g2.backup_dir@
    &&& g1.build_dir@ == g2.build_dir@
    &&& g1.logfile_dir@ == g2.logfile_dir@
    &&& g1.source_dir@ == g2.source_dir@
    &&& g1.config_dir@ == g2.config_dir@
    &&& g1.file_map@ == g2.file_map@
    &&& g1.file_source_map@ == g2.file_source_map@
}

/// The mode is only required to be set: it selects nothing. Two settings that differ
/// only in the mode pass or fail the settings check alike, and give the same copy
/// commands, the same specification file, the same reading of a specification and the
/// same reconciliation.
pub proof fn lemma_mode_selects_nothing(
    g1: &RunParams,
    g2: &RunParams,
    web_owner: Seq<char>,
    path_dir: Seq<char>,
    delete: bool,
    file_user: Seq<char>,
    file_group: Seq<char>,
    source_is_dir: bool,
    seconds_now: u64,
    cs: Seq<crate::xmltree::XmlTree>,
)
    requires
        same_but_mode(g1, g2),
    ensures
        crate::params::settings_complete(g1, web_owner) == crate::params::settings_complete(g2, web_owner),
        echo_prefix(g1.dry_run) + "rm -rf "@ + g1.backup_dir@ == echo_prefix(g2.dry_run) + "rm -rf "@ + g2.backup_dir@,
        echo_prefix(g1.dry_run) + "mkdir -p "@ + g1.logfile_dir@ == echo_prefix(g2.dry_run) + "mkdir -p "@ + g2.logfile_dir@,
        simple_rsync(g1, path_dir, delete, file_user, file_group, source_is_dir, seconds_now)
            == simple_rsync(g2, path_dir, delete, file_user, file_group, source_is_dir, seconds_now),
        tree_copy(g1, path_dir, delete, seconds_now) == tree_copy(g2, path_dir, delete, seconds_now),
        spec_file_path_of(g1.config_dir@, path_dir) == spec_file_path_of(g2.config_dir@, path_dir),
        forall|q: int| 0 <= q < g1.file_source_map@.len() ==> #[trigger] permission_pair(
            g1.dry_run,
            g1.source_dir@,
            g1.file_source_map@[q].0,
            g1.file_source_map@[q].1,
        ) == permission_pair(g2.dry_run, g2.source_dir@, g2.file_source_map@[q].0, g2.file_source_map@[q].1),
        crate::spectree::load_roots(g1.file_map@, cs) == crate::spectree::load_roots(g2.file_map@, cs),
        crate::prelim::reconcile_from(g1.file_map@, g1.file_source_map@, 0)
            == crate::prelim::reconcile_from(g2.file_map@, g2.file_source_map@, 0),
{
}

/// The mode on the command line selects nothing in a run. Take two command lines that
/// differ only in the value after their last mode switch, both values non-empty and
/// neither a switch, and the settings `g1` and `g2` that a run makes from each reading
/// that goes on, with the same setup fields and platform: both readings go on or
/// neither does, and where they go on the settings are the same but for the mode, which
/// is the value each command line gave (so `lemma_mode_selects_nothing` applies).
pub proof fn lemma_command_line_mode_selects_nothing(
    a1: Seq<Seq<char>>,
    a2: Seq<Seq<char>>,
    p: int,
    fields: Seq<(Seq<char>, Seq<char>)>,
    platform: Platform,
    g1: &RunParams,
    g2: &RunParams,
)
    requires
        a1.len() == a2.len(),
        1 <= p < a1.len(),
        forall|j: int| 0 <= j < a1.len() && j != p ==> a1[j] == a2[j],
        crate::args::is_mode_switch(a1[p - 1]),
        a1[p].len() > 0,
        a2[p].len() > 0,
        !crate::args::is_switch(a1[p]),
        !crate::args::is_switch(a2[p]),
        forall|j: int| p < j < a1.len() ==> !crate::args::is_mode_switch(#[trigger] a1[j]),
        crate::args::args_from(a1, 0, false, false, Seq::empty(), Seq::empty()) matches
            crate::args::ArgsSpec::Proceed { force_yes, dry_run, mode, .. }
            ==> crate::params::settings_from(g1, dry_run, force_yes, mode, fields, platform),
        crate::args::args_from(a2, 0, false, false, Seq::empty(), Seq::empty()) matches
            crate::args::ArgsSpec::Proceed { force_yes, dry_run, mode, .. }
            ==> crate::params::settings_from(g2, dry_run, force_yes, mode, fields, platform),
    ensures
        (crate::args::args_from(a1, 0, false, false, Seq::empty(), Seq::empty()) is Proceed)
            == (crate::args::args_from(a2, 0, false, false, Seq::empty(), Seq::empty()) is Proceed),
        crate::args::args_from(a1, 0, false, false, Seq::empty(), Seq::empty()) is Proceed ==> {
            &&& same_but_mode(g1, g2)
            &&& g1.mode@ == a1[p]
            &&& g2.mode@ == a2[p]
        },
{
    crate::args::lemma_mode_value_selects_nothing(a1, a2, p);
    if crate::args::args_from(a1, 0, false, false, Seq::empty(), Seq::empty()) is Proceed {
        assert(g1.file_map@ =~= g2.file_map@);
        assert(g1.file_source_map@ =~= g2.file_source_map@);
    }
}

} // verus!
