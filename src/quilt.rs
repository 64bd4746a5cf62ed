//! Loader metadata of the Quilt family.

use vstd::prelude::*;
use crate::download::{clone_opt, DownloadTask};
use crate::launch::{path_join, path_join_spec};
use crate::maven::{maven_path_spec, maven_to_path};
use crate::plan::{opt_str, task_view, task_views, TaskView};
use crate::text::{concat2, str_eq};

verus! {

#[derive(Clone, Debug)]
pub struct QuiltLoaderVersion {
    pub loader: QuiltLoaderInfo,
    pub hashed: Option<HashedInfo>,
    pub intermediary: Option<IntermediaryInfo>,
    pub launcher_meta: QuiltLauncherMeta,
}

#[derive(Clone, Debug)]
pub struct QuiltLoaderInfo {
    pub separator: String,
    pub build: u32,
    pub maven: String,
    pub version: String,
}

#[derive(Clone, Debug)]
pub struct HashedInfo {
    pub maven: String,
    pub version: String,
}

#[derive(Clone, Debug)]
pub struct IntermediaryInfo {
    pub maven: String,
    pub version: String,
}

#[derive(Clone, Debug)]
pub struct QuiltLauncherMeta {
    pub version: u32,
    pub min_java_version: Option<u32>,
    pub libraries: QuiltLibraries,
    pub main_class: QuiltMainClass,
}

#[derive(Clone, Debug)]
pub struct QuiltLibraries {
    pub client: Vec<QuiltLibrary>,
    pub common: Vec<QuiltLibrary>,
    pub server: Vec<QuiltLibrary>,
}

#[derive(Clone, Debug)]
pub struct QuiltLibrary {
    pub name: String,
    pub url: String,
    pub sha1: Option<String>,
    pub size: Option<u64>,
}

/// A main class, one for both sides or one per side.
#[derive(Clone, Debug)]
pub enum QuiltMainClass {
    Simple(String),
    Complex { client: String, server: String },
}

impl QuiltMainClass {
    /// The client-side main class.
    pub fn client(&self) -> (r: &str)
        ensures
            r@ == match self {
                QuiltMainClass::Simple(s) => s@,
                QuiltMainClass::Complex { client, .. } => client@,
            },
    {
        match self {
            QuiltMainClass::Simple(s) => s.as_str(),
            QuiltMainClass::Complex { client, .. } => client.as_str(),
        }
    }
}
/// Picks the loader build: the first with the requested version, else
/// (none requested) the first listed.
pub fn select_quilt_loader(versions: &[QuiltLoaderVersion], requested: Option<&str>) -> (r: Option<usize>)
    ensures
        match requested {
            Some(v) => match r {
                Some(i) => i < versions.len() && versions@[i as int].loader.version@ == v@ && forall|j: int|
                    0 <= j < i ==> versions@[j].loader.version@ != v@,
                None => forall|j: int| 0 <= j < versions.len() ==> versions@[j].loader.version@ != v@,
            },
            None => r == (if versions.len() > 0 { Some(0usize) } else { None }),
        },
{
    let mut i: usize = 0;
    while i < versions.len()
        invariant
            i <= versions.len(),
            match requested {
                Some(v) => forall|j: int| 0 <= j < i ==> versions@[j].loader.version@ != v@,
                None => i == 0,
            },
        decreases versions.len() - i,
    {
        let hit = match requested {
            Some(v) => str_eq(versions[i].loader.version.as_str(), v),
            None => true,
        };
        if hit {
            return Some(i);
        }
        i += 1;
    }
    None
}

/// The downloads of the Quilt libraries: each coordinate appended to its
/// repository URL.
pub open spec fn quilt_lib_tasks(libs: Seq<QuiltLibrary>, dir: Seq<char>) -> Seq<TaskView>
    decreases libs.len(),
{
    if libs.len() == 0 {
        Seq::empty()
    } else {
        let l = libs.last();
        quilt_lib_tasks(libs.drop_last(), dir) + match maven_path_spec(l.name@) {
            Some(p) => seq![(l.url@ + p, path_join_spec(dir, p), l.size, opt_str(l.sha1), None)],
            None => Seq::empty(),
        }
    }
}

/// The download of an artifact from the Quilt release repository.
pub open spec fn quilt_repo_task(coord: Seq<char>, dir: Seq<char>) -> Seq<TaskView> {
    match maven_path_spec(coord) {
        Some(p) => seq![("https://maven.quiltmc.org/repository/release/"@ + p, path_join_spec(dir, p), None, None, None)],
        None => Seq::empty(),
    }
}

fn push_quilt_lib_tasks(tasks: &mut Vec<DownloadTask>, libs: &Vec<QuiltLibrary>, dir: &str)
    ensures
        task_views(final(tasks)@) == task_views(old(tasks)@) + quilt_lib_tasks(libs@, dir@),
{
    let ghost start = task_views(tasks@);
    let mut i: usize = 0;
    while i < libs.len()
        invariant
            i <= libs.len(),
            task_views(tasks@) == start + quilt_lib_tasks(libs@.subrange(0, i as int), dir@),
        decreases libs.len() - i,
    {
        proof {
            assert(libs@.subrange(0, i + 1).drop_last() =~= libs@.subrange(0, i as int));
        }
        let l = &libs[i];
        let ghost before = task_views(tasks@);
        match maven_to_path(l.name.as_str()) {
            Some(rel) => {
                let t = DownloadTask {
                    url: concat2(l.url.as_str(), rel.as_str()),
                    path: path_join(dir, rel.as_str()),
                    size: l.size,
                    sha1: clone_opt(&l.sha1),
                    sha512: None,
                };
                tasks.push(t);
                proof {
                    assert(task_views(tasks@) =~= before + seq![task_view(t)]);
                }
            },
            None => {
                proof {
                    assert(task_views(tasks@) =~= before + Seq::<TaskView>::empty());
                }
            },
        }
        i += 1;
    }
    proof {
        assert(libs@.subrange(0, libs@.len() as int) =~= libs@);
    }
}

fn push_quilt_repo_task(tasks: &mut Vec<DownloadTask>, coord: &str, dir: &str)
    ensures
        task_views(final(tasks)@) == task_views(old(tasks)@) + quilt_repo_task(coord@, dir@),
{
    let ghost before = task_views(tasks@);
    match maven_to_path(coord) {
        Some(rel) => {
            let t = DownloadTask {
                url: concat2("https://maven.quiltmc.org/repository/release/", rel.as_str()),
                path: path_join(dir, rel.as_str()),
                size: None,
                sha1: None,
                sha512: None,
            };
            tasks.push(t);
            proof {
                assert(task_views(tasks@) =~= before + seq![task_view(t)]);
            }
        },
        None => {
            proof {
                assert(task_views(tasks@) =~= before + Seq::<TaskView>::empty());
            }
        },
    }
}

/// Plans the downloads of a Quilt loader build: common and client
/// libraries, the hashed mappings if listed, and the loader itself.
pub fn quilt_download_tasks(lv: &QuiltLoaderVersion, libraries_dir: &str) -> (r: Vec<DownloadTask>)
    ensures
        task_views(r@) == quilt_lib_tasks(lv.launcher_meta.libraries.common@, libraries_dir@)
            + quilt_lib_tasks(lv.launcher_meta.libraries.client@, libraries_dir@)
            + match lv.hashed {
                Some(h) => quilt_repo_task(h.maven@, libraries_dir@),
                None => Seq::empty(),
            }
            + quilt_repo_task(lv.loader.maven@, libraries_dir@),
{
    let mut tasks: Vec<DownloadTask> = Vec::new();
    proof {
        assert(task_views(tasks@) =~= Seq::<TaskView>::empty());
    }
    push_quilt_lib_tasks(&mut tasks, &lv.launcher_meta.libraries.common, libraries_dir);
    push_quilt_lib_tasks(&mut tasks, &lv.launcher_meta.libraries.client, libraries_dir);
    let ghost mid = task_views(tasks@);
    match &lv.hashed {
        Some(h) => push_quilt_repo_task(&mut tasks, h.maven.as_str(), libraries_dir),
        None => {
            proof {
                assert(task_views(tasks@) =~= mid + Seq::<TaskView>::empty());
            }
        },
    }
    push_quilt_repo_task(&mut tasks, lv.loader.maven.as_str(), libraries_dir);
    proof {
        let a = quilt_lib_tasks(lv.launcher_meta.libraries.common@, libraries_dir@);
        assert(Seq::<TaskView>::empty() + a =~= a);
    }
    tasks
}

} // verus!
