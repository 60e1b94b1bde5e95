//! The settings of one run and the platform it runs on.

use vstd::prelude::*;
use crate::filemap::FileMap;
use crate::text::{cat, contains_seq, contains_str, owned, str_eq};

verus! {

/// The kind of system the copies are made on; it decides the `stat` command and who owns
/// the web area.
#[derive(PartialEq, Eq, Structural, Clone, Copy, Debug)]
pub enum Platform {
    Alpine,
    OpenBSD,
    Other,
}

/// Everything a run works with: the switches, the directories taken from the base setup,
/// and the two maps of paths (the tree specification, and what the source tree holds).
pub struct RunParams {
    pub dry_run: bool,
    pub force_yes: bool,
    pub platform: Platform,
    pub mode: String,
    pub swap_dir: String,
    pub target: String,
    pub build_name: String,
    pub backup_dir: String,
    pub build_dir: String,
    pub logfile_dir: String,
    pub source_dir: String,
    pub config_dir: String,
    pub file_map: FileMap,
    pub file_source_map: FileMap,
}

/// The platform that the output of `uname -a` names, and the owner of the web area there.
pub open spec fn platform_of(uname: Seq<char>) -> (Platform, Seq<char>) {
    if contains_seq(uname, "OpenBSD"@) {
        (Platform::OpenBSD, "www"@)
    } else if contains_seq(uname, "alpine"@) {
        (Platform::Alpine, "apache"@)
    } else {
        (Platform::Other, "http"@)
    }
}

/// The platform that the output of `uname -a` names (`OpenBSD`, else `alpine`, else any
/// other), and the owner of the web area there (`www`, `apache`, `http`).
pub fn classify_platform(uname: &str) -> (r: (Platform, String))
    ensures
        (r.0, r.1@) == platform_of(uname@),
{
    if contains_str(uname, "OpenBSD") {
        (Platform::OpenBSD, owned("www"))
    } else if contains_str(uname, "alpine") {
        (Platform::Alpine, owned("apache"))
    } else {
        (Platform::Other, owned("http"))
    }
}

/// The value under `key` among the base setup fields, or the empty text.
pub open spec fn field_value(fields: Seq<(Seq<char>, Seq<char>)>, key: Seq<char>) -> Seq<char>
    decreases fields.len(),
{
    if fields.len() == 0 {
        Seq::empty()
    } else if fields[0].0 == key {
        fields[0].1
    } else {
        field_value(fields.skip(1), key)
    }
}

pub open spec fn pair_view(p: (String, String)) -> (Seq<char>, Seq<char>) {
    (p.0@, p.1@)
}

pub open spec fn fields_view(v: Seq<(String, String)>) -> Seq<(Seq<char>, Seq<char>)> {
    v.map_values(|p: (String, String)| pair_view(p))
}

/// The value under `key` among the base setup fields, or the empty text.
pub fn field(fields: &Vec<(String, String)>, key: &str) -> (r: String)
    ensures
        r@ == field_value(fields_view(fields@), key@),
{
    let ghost f = fields_view(fields@);
    let n = fields.len();
    let mut i: usize = 0;
    assert(f.skip(0) =~= f);
    while i < n
        invariant
            n == fields@.len(),
            f == fields_view(fields@),
            i <= n,
            field_value(f.skip(i as int), key@) == field_value(f, key@),
        decreases n - i,
    {
        assert(f.skip(i as int)[0] == pair_view(fields@[i as int]));
        assert(f.skip(i as int).skip(1) =~= f.skip(i + 1));
        if str_eq(fields[i].0.as_str(), key) {
            return fields[i].1.clone();
        }
        i = i + 1;
    }
    proof {
        reveal_strlit("");
    }
    owned("")
}

/// Whether `g` holds the settings that a run takes from the switches `dry_run` and
/// `force_yes`, the mode `mode`, the base setup fields `fields` and the platform: the
/// fields `swapdir`, `target`, `buildname`, `build_dir` (also the source directory) and
/// `configdir`; the backup directory `<swapdir>/base_backup_BUILD_<target>` and the log
/// directory `<swapdir>/rsync_log`; both maps empty.
pub open spec fn settings_from(
    g: &RunParams,
    dry_run: bool,
    force_yes: bool,
    mode: Seq<char>,
    fields: Seq<(Seq<char>, Seq<char>)>,
    platform: Platform,
) -> bool {
    &&& g.dry_run == dry_run
    &&& g.force_yes == force_yes
    &&& g.platform == platform
    &&& g.mode@ == mode
    &&& g.swap_dir@ == field_value(fields, "swapdir"@)
    &&& g.target@ == field_value(fields, "target"@)
    &&& g.build_name@ == field_value(fields, "buildname"@)
    &&& g.backup_dir@ == g.swap_dir@ + "/base_backup_BUILD_"@ + g.target@
    &&& g.build_dir@ == field_value(fields, "build_dir"@)
    &&& g.logfile_dir@ == g.swap_dir@ + "/rsync_log"@
    &&& g.source_dir@ == g.build_dir@
    &&& g.config_dir@ == field_value(fields, "configdir"@)
    &&& g.file_map@.len() == 0
    &&& g.file_source_map@.len() == 0
}

/// The settings that a run takes from the switches, the mode, the base setup fields and
/// the platform (see `settings_from`).
pub fn params_from_fields(
    dry_run: bool,
    force_yes: bool,
    mode: &str,
    fields: &Vec<(String, String)>,
    platform: Platform,
) -> (g: RunParams)
    ensures
        settings_from(&g, dry_run, force_yes, mode@, fields_view(fields@), platform),
{
    let swap_dir = field(fields, "swapdir");
    let target = field(fields, "target");
    let build_name = field(fields, "buildname");
    let backup_dir = cat(cat(owned(swap_dir.as_str()), "/base_backup_BUILD_"), target.as_str());
    let build_dir = field(fields, "build_dir");
    let logfile_dir = cat(owned(swap_dir.as_str()), "/rsync_log");
    let source_dir = owned(build_dir.as_str());
    let config_dir = field(fields, "configdir");
    RunParams {
        dry_run,
        force_yes,
        platform,
        mode: owned(mode),
        swap_dir,
        target,
        build_name,
        backup_dir,
        build_dir,
        logfile_dir,
        source_dir,
        config_dir,
        file_map: FileMap::new(),
        file_source_map: FileMap::new(),
    }
}

/// Whether every setting that a run needs is set (not empty), the web owner included.
pub open spec fn settings_complete(g: &RunParams, web_owner: Seq<char>) -> bool {
    &&& g.target@.len() != 0
    &&& g.swap_dir@.len() != 0
    &&& g.build_dir@.len() != 0
    &&& g.build_name@.len() != 0
    &&& g.backup_dir@.len() != 0
    &&& g.logfile_dir@.len() != 0
    &&& g.source_dir@.len() != 0
    &&& g.config_dir@.len() != 0
    &&& web_owner.len() != 0
}

/// Whether every setting that a run needs is set.
pub fn check_settings(g: &RunParams, web_owner: &str) -> (r: bool)
    ensures
        r == settings_complete(g, web_owner@),
{
    !(g.target.as_str().is_empty() || g.swap_dir.as_str().is_empty() || g.build_dir.as_str().is_empty()
        || g.build_name.as_str().is_empty() || g.backup_dir.as_str().is_empty()
        || g.logfile_dir.as_str().is_empty() || g.source_dir.as_str().is_empty()
        || g.config_dir.as_str().is_empty() || web_owner.is_empty())
}

} // verus!
