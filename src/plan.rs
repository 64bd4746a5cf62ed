//! Installer planning: the download tasks that a library list or an asset
//! index calls for, so that repeated installs fetch only what is missing.

use vstd::prelude::*;
use crate::classpath::contains_string;
use crate::download::{DownloadError, DownloadTask};
use crate::launch::{find_key, lookup_key, path_join, path_join_spec};
use crate::maven::{
    append_classifier_to_maven_coord, join_base_and_rel_url, join_url_spec, maven_path_spec,
    maven_to_path, with_classifier_spec,
};
use crate::models::{Library, LibraryArtifact, LibraryDownloads};
use crate::platform::{current_os_key, os_key, OsKind};
use crate::rules::{check_library_rules, engine_rules_allow, library_rules_allow, rules_allow_spec};
use crate::models::{AssetIndexFile, AssetObject, VersionDetails, VersionManifest};
use crate::text::str_eq;
use crate::text::{chars_of, concat2, concat3, slice_string, views};

verus! {

/// The content of a task: url, destination, size, SHA-1, SHA-512.
pub type TaskView = (Seq<char>, Seq<char>, Option<u64>, Option<Seq<char>>, Option<Seq<char>>);

pub open spec fn opt_str(o: Option<String>) -> Option<Seq<char>> {
    match o {
        Some(s) => Some(s@),
        None => None,
    }
}

pub open spec fn task_view(t: DownloadTask) -> TaskView {
    (t.url@, t.path@, t.size, opt_str(t.sha1), opt_str(t.sha512))
}

pub open spec fn task_views(v: Seq<DownloadTask>) -> Seq<TaskView> {
    v.map_values(|t: DownloadTask| task_view(t))
}

/// The repository that a library without direct downloads is fetched from.
pub open spec fn repo_base(lib: Library) -> Seq<char> {
    match lib.url {
        Some(u) => u@,
        None => "https://libraries.minecraft.net/"@,
    }
}

/// The task for an artifact with a known location.
pub open spec fn artifact_task(a: LibraryArtifact, dir: Seq<char>) -> TaskView {
    (a.url@, path_join_spec(dir, a.path@), a.size, opt_str(a.sha1), None)
}

/// The task for a repository-relative path.
pub open spec fn repo_task(base: Seq<char>, rel: Seq<char>, dir: Seq<char>) -> TaskView {
    (join_url_spec(base, rel), path_join_spec(dir, rel), None, None, None)
}

/// The main jar of a library: its direct artifact, else its coordinate
/// under its repository.
pub open spec fn main_task(lib: Library, dir: Seq<char>) -> Option<TaskView> {
    match lib.downloads {
        Some(d) if d.artifact is Some => Some(artifact_task(d.artifact->0, dir)),
        _ => match maven_path_spec(lib.name@) {
            Some(rel) => Some(repo_task(repo_base(lib), rel, dir)),
            None => None,
        },
    }
}

/// The native jar of a library for `os`: from its classifier downloads if
/// it has them, else from its coordinate with the classifier.
pub open spec fn native_task(lib: Library, dir: Seq<char>, os: OsKind) -> Option<TaskView> {
    match lib.natives {
        Some(n) => match lookup_key(n@, os_key(os)) {
            Some(ck) => match lib.downloads {
                Some(d) if d.classifiers is Some => match lookup_key(d.classifiers->0@, ck@) {
                    Some(a) => Some(artifact_task(a, dir)),
                    None => None,
                },
                _ => match with_classifier_spec(lib.name@, ck@) {
                    Some(coord) => match maven_path_spec(coord) {
                        Some(rel) => Some(repo_task(repo_base(lib), rel, dir)),
                        None => None,
                    },
                    None => None,
                },
            },
            None => None,
        },
        None => None,
    }
}

pub open spec fn opt_seq<T>(o: Option<T>) -> Seq<T> {
    match o {
        Some(x) => seq![x],
        None => Seq::empty(),
    }
}

/// The tasks one library calls for on `os`.
pub open spec fn lib_candidates(lib: Library, dir: Seq<char>, os: OsKind) -> Seq<TaskView> {
    if rules_allow_spec(lib.rules@, os) {
        opt_seq(main_task(lib, dir)) + opt_seq(native_task(lib, dir, os))
    } else {
        Seq::empty()
    }
}

/// The tasks a library list calls for, in order.
pub open spec fn candidates(libs: Seq<Library>, dir: Seq<char>, os: OsKind) -> Seq<TaskView>
    decreases libs.len(),
{
    if libs.len() == 0 {
        Seq::empty()
    } else {
        candidates(libs.drop_last(), dir, os) + lib_candidates(libs.last(), dir, os)
    }
}

/// Tasks with each destination once, the first task for it kept.
pub open spec fn dedup_dest(ts: Seq<TaskView>) -> Seq<TaskView>
    decreases ts.len(),
{
    if ts.len() == 0 {
        Seq::empty()
    } else {
        let r = dedup_dest(ts.drop_last());
        if exists|k: int| 0 <= k < ts.len() - 1 && (#[trigger] ts[k]).1 == ts.last().1 {
            r
        } else {
            r.push(ts.last())
        }
    }
}

fn artifact_task_exec(a: &LibraryArtifact, dir: &str) -> (r: DownloadTask)
    ensures
        task_view(r) == artifact_task(*a, dir@),
{
    DownloadTask {
        url: a.url.clone(),
        path: path_join(dir, a.path.as_str()),
        size: a.size,
        sha1: a.sha1.clone(),
        sha512: None,
    }
}

fn repo_task_exec(lib: &Library, rel: &str, dir: &str) -> (r: DownloadTask)
    ensures
        task_view(r) == repo_task(repo_base(*lib), rel@, dir@),
{
    let url = match &lib.url {
        Some(u) => join_base_and_rel_url(u.as_str(), rel),
        None => join_base_and_rel_url("https://libraries.minecraft.net/", rel),
    };
    DownloadTask { url, path: path_join(dir, rel), size: None, sha1: None, sha512: None }
}

fn main_task_exec(lib: &Library, dir: &str) -> (r: Option<DownloadTask>)
    ensures
        match r {
            Some(t) => main_task(*lib, dir@) == Some(task_view(t)),
            None => main_task(*lib, dir@) is None,
        },
{
    if let Some(d) = &lib.downloads {
        if let Some(a) = &d.artifact {
            return Some(artifact_task_exec(a, dir));
        }
    }
    match maven_to_path(lib.name.as_str()) {
        Some(rel) => Some(repo_task_exec(lib, rel.as_str(), dir)),
        None => None,
    }
}

fn native_task_exec(lib: &Library, dir: &str, os: OsKind) -> (r: Option<DownloadTask>)
    ensures
        match r {
            Some(t) => native_task(*lib, dir@, os) == Some(task_view(t)),
            None => native_task(*lib, dir@, os) is None,
        },
{
    let n = match &lib.natives {
        Some(n) => n,
        None => {
            return None;
        },
    };
    let ni = match find_key(n.as_slice(), current_os_key(os)) {
        Some(i) => i,
        None => {
            return None;
        },
    };
    let ck = n[ni].1.as_str();
    if let Some(d) = &lib.downloads {
        if let Some(c) = &d.classifiers {
            return match find_key(c.as_slice(), ck) {
                Some(ci) => Some(artifact_task_exec(&c[ci].1, dir)),
                None => None,
            };
        }
    }
    match append_classifier_to_maven_coord(lib.name.as_str(), ck) {
        Some(coord) => match maven_to_path(coord.as_str()) {
            Some(rel) => Some(repo_task_exec(lib, rel.as_str(), dir)),
            None => None,
        },
        None => None,
    }
}

/// Keeps the first task for each destination.
pub fn dedup_tasks(ts: Vec<DownloadTask>) -> (r: Vec<DownloadTask>)
    ensures
        task_views(r@) == dedup_dest(task_views(ts@)),
{
    let ghost a = task_views(ts@);
    let mut seen: Vec<String> = Vec::new();
    let mut out: Vec<DownloadTask> = Vec::new();
    let mut i: usize = 0;
    let rest = ts;
    let ghost all = rest@;
    while i < rest.len()
        invariant
            a == task_views(all),
            rest@ == all,
            i <= all.len(),
            seen.len() == i,
            forall|k: int| 0 <= k < i ==> #[trigger] seen@[k]@ == a[k].1,
            task_views(out@) == dedup_dest(a.subrange(0, i as int)),
        decreases rest.len() - i,
    {
        let ghost pre = a.subrange(0, i + 1);
        proof {
            assert(pre.drop_last() =~= a.subrange(0, i as int));
            assert(pre.last() == a[i as int]);
        }
        let t = rest[i].clone_task();
        let dup = contains_string(seen.as_slice(), t.path.as_str());
        proof {
            if dup {
                let j = choose|j: int| 0 <= j < views(seen@).len() && views(seen@)[j] == t.path@;
                assert(seen@[j]@ == t.path@);
                assert(pre[j].1 == pre.last().1);
            } else {
                assert forall|k: int| 0 <= k < pre.len() - 1 implies (#[trigger] pre[k]).1 != pre.last().1 by {
                    assert(views(seen@)[k] == seen@[k]@);
                }
            }
        }
        let p = t.path.clone();
        if !dup {
            let ghost before = out@;
            out.push(t);
            proof {
                assert(task_views(out@) =~= task_views(before).push(pre.last()));
            }
        }
        seen.push(p);
        i += 1;
    }
    proof {
        assert(a.subrange(0, a.len() as int) =~= a);
    }
    out
}

/// The tasks that a library list calls for on `os`: each applicable
/// library's main jar and native jar, each destination once. The caller
/// drops those whose destination already exists.
pub fn plan_library_downloads(libs: &[Library], libraries_dir: &str, os: OsKind) -> (r: Vec<DownloadTask>)
    ensures
        task_views(r@) == dedup_dest(candidates(libs@, libraries_dir@, os)),
{
    let mut cands: Vec<DownloadTask> = Vec::new();
    let mut i: usize = 0;
    while i < libs.len()
        invariant
            i <= libs.len(),
            task_views(cands@) == candidates(libs@.subrange(0, i as int), libraries_dir@, os),
        decreases libs.len() - i,
    {
        proof {
            assert(libs@.subrange(0, i + 1).drop_last() =~= libs@.subrange(0, i as int));
        }
        let lib = &libs[i];
        let ghost before = task_views(cands@);
        if library_rules_allow(lib, os) {
            let m = main_task_exec(lib, libraries_dir);
            let ghost mid = task_views(cands@);
            match m {
                Some(t) => {
                    cands.push(t);
                    proof {
                        assert(task_views(cands@) =~= mid.push(task_view(t)));
                    }
                },
                None => {},
            }
            let ghost mid2 = task_views(cands@);
            let nt = native_task_exec(lib, libraries_dir, os);
            match nt {
                Some(t) => {
                    cands.push(t);
                    proof {
                        assert(task_views(cands@) =~= mid2.push(task_view(t)));
                    }
                },
                None => {},
            }
            proof {
                assert(task_views(cands@) =~= before + lib_candidates(*lib, libraries_dir@, os));
            }
        } else {
            proof {
                assert(task_views(cands@) =~= before + lib_candidates(*lib, libraries_dir@, os));
            }
        }
        i += 1;
    }
    proof {
        assert(libs@.subrange(0, libs@.len() as int) =~= libs@);
    }
    dedup_tasks(cands)
}

/// The tasks whose destination is not present; `present[i]` tells whether
/// the destination of `tasks[i]` exists.
pub open spec fn missing_spec(ts: Seq<TaskView>, present: Seq<bool>) -> Seq<TaskView>
    decreases ts.len(),
{
    if ts.len() == 0 || present.len() < ts.len() {
        Seq::empty()
    } else if present[ts.len() - 1] {
        missing_spec(ts.drop_last(), present)
    } else {
        missing_spec(ts.drop_last(), present).push(ts.last())
    }
}

/// Keeps the tasks whose destination is missing.
pub fn select_missing(tasks: Vec<DownloadTask>, present: &[bool]) -> (r: Vec<DownloadTask>)
    requires
        present.len() == tasks.len(),
    ensures
        task_views(r@) == missing_spec(task_views(tasks@), present@),
{
    let ghost a = task_views(tasks@);
    let mut out: Vec<DownloadTask> = Vec::new();
    let mut i: usize = 0;
    while i < tasks.len()
        invariant
            a == task_views(tasks@),
            present.len() == tasks.len(),
            i <= tasks.len(),
            task_views(out@) == missing_spec(a.subrange(0, i as int), present@),
        decreases tasks.len() - i,
    {
        let ghost pre = a.subrange(0, i + 1);
        proof {
            assert(pre.drop_last() =~= a.subrange(0, i as int));
        }
        if !present[i] {
            let ghost before = out@;
            let t = tasks[i].clone_task();
            out.push(t);
            proof {
                assert(task_views(out@) =~= task_views(before).push(a[i as int]));
            }
        }
        i += 1;
    }
    proof {
        assert(a.subrange(0, a.len() as int) =~= a);
    }
    out
}

/// The task of one asset object: sharded by the first two characters of
/// its hash, checked by that hash and its size.
pub open spec fn asset_task(o: AssetObject, objects_dir: Seq<char>) -> TaskView {
    let prefix = o.hash@.subrange(0, 2);
    (
        "https://resources.download.minecraft.net/"@ + prefix + "/"@ + o.hash@,
        path_join_spec(path_join_spec(objects_dir, prefix), o.hash@),
        Some(o.size),
        Some(o.hash@),
        None,
    )
}

pub open spec fn asset_tasks_spec(objs: Seq<(String, AssetObject)>, objects_dir: Seq<char>) -> Seq<TaskView> {
    objs.map_values(|e: (String, AssetObject)| asset_task(e.1, objects_dir))
}

/// Plans the download of every object of an asset index into the
/// content-addressed objects store.
pub fn asset_download_tasks(index: &AssetIndexFile, objects_dir: &str) -> (r: Vec<DownloadTask>)
    requires
        forall|i: int| 0 <= i < index.objects@.len() ==> (#[trigger] index.objects@[i]).1.hash@.len() >= 2,
    ensures
        task_views(r@) == asset_tasks_spec(index.objects@, objects_dir@),
{
    let objs = &index.objects;
    let mut out: Vec<DownloadTask> = Vec::new();
    let mut i: usize = 0;
    while i < objs.len()
        invariant
            i <= objs.len(),
            forall|k: int| 0 <= k < objs@.len() ==> (#[trigger] objs@[k]).1.hash@.len() >= 2,
            task_views(out@) == asset_tasks_spec(objs@.subrange(0, i as int), objects_dir@),
        decreases objs.len() - i,
    {
        let o = &objs[i].1;
        assert(o.hash@.len() >= 2);
        let h = chars_of(o.hash.as_str());
        let prefix = slice_string(h.as_slice(), 0, 2);
        let mut url = concat3("https://resources.download.minecraft.net/", prefix.as_str(), "/");
        url.append(o.hash.as_str());
        let dir = path_join(objects_dir, prefix.as_str());
        let t = DownloadTask {
            url,
            path: path_join(dir.as_str(), o.hash.as_str()),
            size: Some(o.size),
            sha1: Some(o.hash.clone()),
            sha512: None,
        };
        let ghost before = out@;
        out.push(t);
        i += 1;
        proof {
            assert(task_views(out@) =~= task_views(before).push(task_view(t)));
            assert(asset_tasks_spec(objs@.subrange(0, i as int), objects_dir@) =~= asset_tasks_spec(
                objs@.subrange(0, i - 1),
                objects_dir@,
            ).push(asset_task(objs@[i - 1].1, objects_dir@)));
        }
    }
    proof {
        assert(objs@.subrange(0, objs@.len() as int) =~= objs@);
    }
    out
}

/// The task of a version's client jar.
pub fn client_download_task(details: &VersionDetails, jar_path: &str) -> (r: DownloadTask)
    ensures
        task_view(r) == (details.downloads.client.url@, jar_path@, Some(details.downloads.client.size), Some(details.downloads.client.sha1@), None::<Seq<char>>),
{
    DownloadTask {
        url: details.downloads.client.url.clone(),
        path: String::from_str(jar_path),
        size: Some(details.downloads.client.size),
        sha1: Some(details.downloads.client.sha1.clone()),
        sha512: None,
    }
}

/// The task of a version's asset index: `<indexes_dir>/<id>.json`.
pub fn asset_index_task(details: &VersionDetails, indexes_dir: &str) -> (r: DownloadTask)
    ensures
        task_view(r) == (
            details.asset_index.url@,
            path_join_spec(indexes_dir@, details.asset_index.id@ + ".json"@),
            Some(details.asset_index.size),
            Some(details.asset_index.sha1@),
            None::<Seq<char>>,
        ),
{
    let name = concat2(details.asset_index.id.as_str(), ".json");
    DownloadTask {
        url: details.asset_index.url.clone(),
        path: path_join(indexes_dir, name.as_str()),
        size: Some(details.asset_index.size),
        sha1: Some(details.asset_index.sha1.clone()),
        sha512: None,
    }
}

/// The tasks of one library for the engine installer: its direct artifact
/// and its native jar for `os`, both from its download records.
pub open spec fn engine_lib_tasks(lib: Library, dir: Seq<char>, os: OsKind) -> Seq<TaskView> {
    if !engine_rules_allow(lib.rules@, os) {
        Seq::empty()
    } else {
        match lib.downloads {
            Some(d) => {
                let main = match d.artifact {
                    Some(a) => seq![artifact_task(a, dir)],
                    None => Seq::empty(),
                };
                let native = match (lib.natives, d.classifiers) {
                    (Some(n), Some(c)) => match lookup_key(n@, os_key(os)) {
                        Some(ck) => match lookup_key(c@, ck@) {
                            Some(a) => seq![artifact_task(a, dir)],
                            None => Seq::empty(),
                        },
                        None => Seq::empty(),
                    },
                    _ => Seq::empty(),
                };
                main + native
            },
            None => Seq::empty(),
        }
    }
}

pub open spec fn engine_tasks_spec(libs: Seq<Library>, dir: Seq<char>, os: OsKind) -> Seq<TaskView>
    decreases libs.len(),
{
    if libs.len() == 0 {
        Seq::empty()
    } else {
        engine_tasks_spec(libs.drop_last(), dir, os) + engine_lib_tasks(libs.last(), dir, os)
    }
}

fn engine_native_task(lib: &Library, d: &LibraryDownloads, dir: &str, os: OsKind) -> (r: Option<DownloadTask>)
    requires
        lib.downloads == Some(*d),
    ensures
        match r {
            Some(t) => (match (lib.natives, d.classifiers) {
                (Some(n), Some(c)) => match lookup_key(n@, os_key(os)) {
                    Some(ck) => lookup_key(c@, ck@) matches Some(a) && task_view(t) == artifact_task(a, dir@),
                    None => false,
                },
                _ => false,
            }),
            None => (match (lib.natives, d.classifiers) {
                (Some(n), Some(c)) => match lookup_key(n@, os_key(os)) {
                    Some(ck) => lookup_key(c@, ck@) is None,
                    None => true,
                },
                _ => true,
            }),
        },
{
    if let Some(n) = &lib.natives {
        if let Some(c) = &d.classifiers {
            if let Some(ni) = find_key(n.as_slice(), current_os_key(os)) {
                if let Some(ci) = find_key(c.as_slice(), n[ni].1.as_str()) {
                    return Some(artifact_task_exec(&c[ci].1, dir));
                }
            }
        }
    }
    None
}

/// The downloads the engine installer issues for a library list.
pub fn engine_library_tasks(libs: &[Library], libraries_dir: &str, os: OsKind) -> (r: Vec<DownloadTask>)
    ensures
        task_views(r@) == engine_tasks_spec(libs@, libraries_dir@, os),
{
    let mut out: Vec<DownloadTask> = Vec::new();
    let mut i: usize = 0;
    while i < libs.len()
        invariant
            i <= libs.len(),
            task_views(out@) == engine_tasks_spec(libs@.subrange(0, i as int), libraries_dir@, os),
        decreases libs.len() - i,
    {
        proof {
            assert(libs@.subrange(0, i + 1).drop_last() =~= libs@.subrange(0, i as int));
        }
        let lib = &libs[i];
        let ghost before = task_views(out@);
        if check_library_rules(lib, os) {
            if let Some(d) = &lib.downloads {
                let ghost b0 = task_views(out@);
                if let Some(a) = &d.artifact {
                    let t = artifact_task_exec(a, libraries_dir);
                    out.push(t);
                    proof {
                        assert(task_views(out@) =~= b0.push(task_view(t)));
                    }
                }
                let ghost b1 = task_views(out@);
                match engine_native_task(lib, d, libraries_dir, os) {
                    Some(t) => {
                        out.push(t);
                        proof {
                            assert(task_views(out@) =~= b1.push(task_view(t)));
                        }
                    },
                    None => {},
                }
                proof {
                    assert(task_views(out@) =~= before + engine_lib_tasks(*lib, libraries_dir@, os));
                }
            } else {
                proof {
                    assert(task_views(out@) =~= before + Seq::<TaskView>::empty());
                }
            }
        } else {
            proof {
                assert(task_views(out@) =~= before + Seq::<TaskView>::empty());
            }
        }
        i += 1;
    }
    proof {
        assert(libs@.subrange(0, libs@.len() as int) =~= libs@);
    }
    out
}

/// Finds a version in the manifest by id: the first entry listed under it.
pub fn find_version_info(manifest: &VersionManifest, id: &str) -> (r: Option<usize>)
    ensures
        match r {
            Some(i) => i < manifest.versions.len() && manifest.versions@[i as int].id@ == id@
                && forall|j: int| 0 <= j < i ==> manifest.versions@[j].id@ != id@,
            None => forall|j: int| 0 <= j < manifest.versions.len() ==> manifest.versions@[j].id@ != id@,
        },
{
    let vs = &manifest.versions;
    let mut i: usize = 0;
    while i < vs.len()
        invariant
            vs@ == manifest.versions@,
            i <= vs.len(),
            forall|j: int| 0 <= j < i ==> vs@[j].id@ != id@,
        decreases vs.len() - i,
    {
        if str_eq(vs[i].id.as_str(), id) {
            assert(manifest.versions@[i as int].id@ == id@);
            return Some(i);
        }
        i += 1;
    }
    None
}

/// Why the library reconciliation of an installed loader failed.
#[derive(Clone, Debug)]
pub enum InstallError {
    /// Some library downloads failed; `failed` of them.
    LibrariesFailed { failed: usize },
}

impl InstallError {
    /// The error as text.
    pub fn message(&self) -> (r: String)
        ensures
            r@ == "Some NeoForge libraries failed to download"@,
    {
        String::from_str("Some NeoForge libraries failed to download")
    }
}

/// The number of failed downloads among the results.
pub open spec fn failure_count(rs: Seq<Result<(), DownloadError>>) -> nat
    decreases rs.len(),
{
    if rs.len() == 0 {
        0
    } else {
        failure_count(rs.drop_last()) + if rs.last() is Err {
            1nat
        } else {
            0nat
        }
    }
}

proof fn lemma_failure_count_bound(rs: Seq<Result<(), DownloadError>>)
    ensures
        failure_count(rs) <= rs.len(),
    decreases rs.len(),
{
    if rs.len() > 0 {
        lemma_failure_count_bound(rs.drop_last());
    }
}

/// The outcome of a reconciliation from the per-task results of its
/// downloads: success when every task succeeded, else the number of
/// failures. Every task has run; none is cut short.
pub fn libraries_outcome(results: &[Result<(), DownloadError>]) -> (r: Result<(), InstallError>)
    ensures
        r is Ok <==> failure_count(results@) == 0,
        r matches Err(InstallError::LibrariesFailed { failed }) ==> failed == failure_count(results@),
{
    let mut failed: usize = 0;
    let mut i: usize = 0;
    while i < results.len()
        invariant
            i <= results.len(),
            failed == failure_count(results@.subrange(0, i as int)),
        decreases results.len() - i,
    {
        proof {
            assert(results@.subrange(0, i + 1).drop_last() =~= results@.subrange(0, i as int));
            lemma_failure_count_bound(results@.subrange(0, i as int));
        }
        if results[i].is_err() {
            failed = failed + 1;
        }
        i += 1;
    }
    proof {
        assert(results@.subrange(0, results@.len() as int) =~= results@);
    }
    if failed == 0 {
        Ok(())
    } else {
        Err(InstallError::LibrariesFailed { failed })
    }
}

} // verus!
