//! The decisions of one launch request: who plays, which loader strategy
//! applies, the classpaths and argument vector of the direct launch modes,
//! and how an installed loader version is recognised.

use vstd::prelude::*;
use crate::account::Account;
use crate::args::{append_jvm_preset_args, preset_flags};
use crate::classpath::{lower_of, lowercase};
use crate::download::{clone_opt, DownloadTask};
use crate::fabric::{FabricLibrary, FabricLoaderVersion};
use crate::launch::{path_join, path_join_spec};
use crate::maven::{maven_path_spec, maven_to_path};
use crate::models::VersionDetails;
use crate::plan::{opt_str, task_view, task_views, TaskView};
use crate::platform::{cp_sep_char, get_cp_sep, OsKind};
use crate::profile::{CreateProfileRequest, ModLoader, Profile};
use crate::text::{
    concat2, concat3, contains_seq, contains_str, decimal, decimal_string, join_seq, join_with,
    split_whitespace_words, starts_with_seq, starts_with_str, str_eq, trim_seq, trim_str, views,
    words,
};

verus! {

/// Who plays: the identity handed to the game.
#[derive(Clone, Debug)]
pub struct LaunchIdentity {
    pub username: String,
    pub uuid: String,
    pub access_token: String,
    pub user_type: String,
}

/// The name-based (version 3) UUID of `name` in the nil namespace, in its
/// hyphenated text form.
pub uninterp spec fn uuid_v3_nil(name: Seq<char>) -> Seq<char>;

/// Relies on `uuid::Uuid::new_v3` with `Uuid::nil()` as namespace, and the
/// hyphenated text form (36 characters); the value depends on `name` alone.
#[verifier::external_body]
fn uuid_v3_in_nil_namespace(name: &str) -> (r: String)
    ensures
        r@ == uuid_v3_nil(name@),
        r@.len() == 36,
{
    uuid::Uuid::new_v3(&uuid::Uuid::nil(), name.as_bytes()).to_string()
}

/// The offline UUID of a player name: derived from `OfflinePlayer:<name>`.
pub fn generate_offline_uuid(username: &str) -> (r: String)
    ensures
        r@ == uuid_v3_nil("OfflinePlayer:"@ + username@),
        r@.len() == 36,
{
    let name = concat2("OfflinePlayer:", username);
    uuid_v3_in_nil_namespace(name.as_str())
}

/// The identity of a launch: the active account's, else an offline player.
pub fn launch_identity(active: Option<&Account>) -> (r: LaunchIdentity)
    ensures
        match active {
            Some(a) => r.username@ == a.username@ && r.uuid@ == a.uuid@ && r.access_token@
                == a.access_token@ && r.user_type@ == "msa"@,
            None => r.username@ == "Player"@ && r.uuid@ == uuid_v3_nil("OfflinePlayer:"@ + "Player"@)
                && r.access_token@ == "offline_token"@ && r.user_type@ == "legacy"@,
        },
{
    match active {
        Some(a) => LaunchIdentity {
            username: a.username.clone(),
            uuid: a.uuid.clone(),
            access_token: a.access_token.clone(),
            user_type: String::from_str("msa"),
        },
        None => LaunchIdentity {
            username: String::from_str("Player"),
            uuid: generate_offline_uuid("Player"),
            access_token: String::from_str("offline_token"),
            user_type: String::from_str("legacy"),
        },
    }
}

/// How a profile is launched.
#[derive(Clone, Copy, Debug, PartialEq, Eq, Structural)]
pub enum LaunchStrategy {
    /// The engine's own main class on the engine classpath.
    Vanilla,
    /// The Fabric main class; on failure the caller falls back to vanilla.
    FabricWithVanillaFallback,
    /// Arguments assembled from the installed loader descriptor; no fallback.
    FromDescriptor,
}

/// The strategy for a loader family; none for families that cannot be
/// launched yet.
pub fn launch_strategy(loader: ModLoader) -> (r: Option<LaunchStrategy>)
    ensures
        r == match loader {
            ModLoader::Vanilla => Some(LaunchStrategy::Vanilla),
            ModLoader::Fabric => Some(LaunchStrategy::FabricWithVanillaFallback),
            ModLoader::NeoForge => Some(LaunchStrategy::FromDescriptor),
            _ => None,
        },
{
    match loader {
        ModLoader::Vanilla => Some(LaunchStrategy::Vanilla),
        ModLoader::Fabric => Some(LaunchStrategy::FabricWithVanillaFallback),
        ModLoader::NeoForge => Some(LaunchStrategy::FromDescriptor),
        _ => None,
    }
}

/// The engine classpath: each library's direct artifact, then the client jar.
pub open spec fn vanilla_cp_spec(libs: Seq<crate::models::Library>, dir: Seq<char>) -> Seq<Seq<char>>
    decreases libs.len(),
{
    if libs.len() == 0 {
        Seq::empty()
    } else {
        vanilla_cp_spec(libs.drop_last(), dir) + match crate::launch::artifact_path(libs.last()) {
            Some(p) => seq![path_join_spec(dir, p)],
            None => Seq::empty(),
        }
    }
}

pub fn vanilla_classpath(details: &VersionDetails, libraries_dir: &str, client_jar: &str) -> (r: Vec<String>)
    ensures
        views(r@) == vanilla_cp_spec(details.libraries@, libraries_dir@).push(client_jar@),
{
    let libs = &details.libraries;
    let mut cp: Vec<String> = Vec::new();
    let mut i: usize = 0;
    while i < libs.len()
        invariant
            i <= libs.len(),
            views(cp@) == vanilla_cp_spec(libs@.subrange(0, i as int), libraries_dir@),
        decreases libs.len() - i,
    {
        proof {
            assert(libs@.subrange(0, i + 1).drop_last() =~= libs@.subrange(0, i as int));
        }
        let ghost before = views(cp@);
        let mut added = false;
        if let Some(d) = &libs[i].downloads {
            if let Some(a) = &d.artifact {
                let p = path_join(libraries_dir, a.path.as_str());
                cp.push(p);
                added = true;
                proof {
                    assert(views(cp@) =~= before + seq![p@]);
                }
            }
        }
        if !added {
            proof {
                assert(views(cp@) =~= before + Seq::<Seq<char>>::empty());
            }
        }
        i += 1;
    }
    proof {
        assert(libs@.subrange(0, libs@.len() as int) =~= libs@);
    }
    let ghost before = views(cp@);
    let j = String::from_str(client_jar);
    cp.push(j);
    proof {
        assert(views(cp@) =~= before.push(client_jar@));
    }
    cp
}

/// The store paths of maven coordinates that have one, under `dir`.
pub open spec fn coord_paths(names: Seq<Seq<char>>, dir: Seq<char>) -> Seq<Seq<char>>
    decreases names.len(),
{
    if names.len() == 0 {
        Seq::empty()
    } else {
        coord_paths(names.drop_last(), dir) + match maven_path_spec(names.last()) {
            Some(p) => seq![path_join_spec(dir, p)],
            None => Seq::empty(),
        }
    }
}

/// The coordinates of the Fabric libraries a client needs: the common ones,
/// then the client ones, then the intermediary mappings and the loader.
pub open spec fn fabric_coords(lv: FabricLoaderVersion) -> Seq<Seq<char>> {
    lv.launcher_meta.libraries.common@.map_values(|l: FabricLibrary| l.name@)
        + lv.launcher_meta.libraries.client@.map_values(|l: FabricLibrary| l.name@)
        + seq![lv.intermediary.maven@, lv.loader.maven@]
}

fn push_coord_path(cp: &mut Vec<String>, name: &str, dir: &str)
    ensures
        views(final(cp)@) == views(old(cp)@) + match maven_path_spec(name@) {
            Some(p) => seq![path_join_spec(dir@, p)],
            None => Seq::<Seq<char>>::empty(),
        },
{
    let ghost before = views(cp@);
    match maven_to_path(name) {
        Some(rel) => {
            let p = path_join(dir, rel.as_str());
            cp.push(p);
            proof {
                assert(views(cp@) =~= before + seq![p@]);
            }
        },
        None => {
            proof {
                assert(views(cp@) =~= before + Seq::<Seq<char>>::empty());
            }
        },
    }
}

proof fn lemma_coord_paths_append(a: Seq<Seq<char>>, b: Seq<Seq<char>>, dir: Seq<char>)
    ensures
        coord_paths(a + b, dir) == coord_paths(a, dir) + coord_paths(b, dir),
    decreases b.len(),
{
    if b.len() == 0 {
        assert(a + b =~= a);
        assert(coord_paths(a, dir) + coord_paths(b, dir) =~= coord_paths(a, dir));
    } else {
        lemma_coord_paths_append(a, b.drop_last(), dir);
        assert((a + b).drop_last() =~= a + b.drop_last());
        assert((a + b).last() == b.last());
    }
}

fn push_library_paths(cp: &mut Vec<String>, libs: &Vec<FabricLibrary>, dir: &str)
    ensures
        views(final(cp)@) == views(old(cp)@) + coord_paths(libs@.map_values(|l: FabricLibrary| l.name@), dir@),
{
    let ghost start = views(cp@);
    let ghost names = libs@.map_values(|l: FabricLibrary| l.name@);
    let mut i: usize = 0;
    while i < libs.len()
        invariant
            i <= libs.len(),
            names == libs@.map_values(|l: FabricLibrary| l.name@),
            views(cp@) == start + coord_paths(names.subrange(0, i as int), dir@),
        decreases libs.len() - i,
    {
        proof {
            assert(names.subrange(0, i + 1).drop_last() =~= names.subrange(0, i as int));
            assert(names.subrange(0, i + 1).last() == libs@[i as int].name@);
        }
        push_coord_path(cp, libs[i].name.as_str(), dir);
        i += 1;
    }
    proof {
        assert(names.subrange(0, names.len() as int) =~= names);
    }
}

/// The Fabric classpath: the engine classpath, then the loader's libraries.
pub fn fabric_classpath(base: Vec<String>, lv: &FabricLoaderVersion, libraries_dir: &str) -> (r: Vec<String>)
    ensures
        views(r@) == views(base@) + coord_paths(fabric_coords(*lv), libraries_dir@),
{
    let mut cp = base;
    push_library_paths(&mut cp, &lv.launcher_meta.libraries.common, libraries_dir);
    push_library_paths(&mut cp, &lv.launcher_meta.libraries.client, libraries_dir);
    push_coord_path(&mut cp, lv.intermediary.maven.as_str(), libraries_dir);
    push_coord_path(&mut cp, lv.loader.maven.as_str(), libraries_dir);
    proof {
        let c = lv.launcher_meta.libraries.common@.map_values(|l: FabricLibrary| l.name@);
        let k = lv.launcher_meta.libraries.client@.map_values(|l: FabricLibrary| l.name@);
        let tail = seq![lv.intermediary.maven@, lv.loader.maven@];
        lemma_coord_paths_append(c, k, libraries_dir@);
        lemma_coord_paths_append(c + k, tail, libraries_dir@);
        let ti = seq![lv.intermediary.maven@];
        assert(tail.drop_last() =~= ti);
        assert(ti.drop_last() =~= Seq::<Seq<char>>::empty());
        assert(coord_paths(Seq::<Seq<char>>::empty(), libraries_dir@) == Seq::<Seq<char>>::empty());
        assert(coord_paths(ti, libraries_dir@) =~= match maven_path_spec(lv.intermediary.maven@) {
            Some(p) => seq![path_join_spec(libraries_dir@, p)],
            None => Seq::<Seq<char>>::empty(),
        });
        assert(fabric_coords(*lv) == c + k + tail);
        assert(views(cp@) =~= views(base@) + coord_paths(fabric_coords(*lv), libraries_dir@));
    }
    cp
}

/// Picks the Fabric loader build: `r` is the first build with the requested
/// version, or (none requested) the first stable build, else the first.
pub fn select_fabric_loader(versions: &[FabricLoaderVersion], requested: Option<&str>) -> (r: Option<usize>)
    ensures
        match requested {
            Some(v) => match r {
                Some(i) => i < versions.len() && versions@[i as int].loader.version@ == v@ && forall|j: int|
                    0 <= j < i ==> versions@[j].loader.version@ != v@,
                None => forall|j: int| 0 <= j < versions.len() ==> versions@[j].loader.version@ != v@,
            },
            None => match r {
                Some(i) => i < versions.len() && ((versions@[i as int].loader.stable && forall|j: int|
                    0 <= j < i ==> !versions@[j].loader.stable) || (i == 0 && forall|j: int|
                    0 <= j < versions.len() ==> !versions@[j].loader.stable)),
                None => versions.len() == 0,
            },
        },
{
    let mut i: usize = 0;
    while i < versions.len()
        invariant
            i <= versions.len(),
            match requested {
                Some(v) => forall|j: int| 0 <= j < i ==> versions@[j].loader.version@ != v@,
                None => forall|j: int| 0 <= j < i ==> !versions@[j].loader.stable,
            },
        decreases versions.len() - i,
    {
        let hit = match requested {
            Some(v) => str_eq(versions[i].loader.version.as_str(), v),
            None => versions[i].loader.stable,
        };
        if hit {
            return Some(i);
        }
        i += 1;
    }
    match requested {
        Some(_) => None,
        None => if versions.len() > 0 {
            Some(0)
        } else {
            None
        },
    }
}

/// The downloads a Fabric install needs: each library with a repository
/// (its coordinate appended to the repository URL), then the intermediary
/// mappings and the loader from the Fabric repository.
pub open spec fn fabric_lib_tasks(libs: Seq<FabricLibrary>, dir: Seq<char>) -> Seq<TaskView>
    decreases libs.len(),
{
    if libs.len() == 0 {
        Seq::empty()
    } else {
        let l = libs.last();
        fabric_lib_tasks(libs.drop_last(), dir) + match (l.url, maven_path_spec(l.name@)) {
            (Some(u), Some(p)) => seq![(u@ + p, path_join_spec(dir, p), l.size, opt_str(l.sha1), None)],
            _ => Seq::empty(),
        }
    }
}

pub open spec fn fabric_repo_task(coord: Seq<char>, dir: Seq<char>) -> Seq<TaskView> {
    match maven_path_spec(coord) {
        Some(p) => seq![("https://maven.fabricmc.net/"@ + p, path_join_spec(dir, p), None, None, None)],
        None => Seq::empty(),
    }
}

fn push_fabric_lib_tasks(tasks: &mut Vec<DownloadTask>, libs: &Vec<FabricLibrary>, dir: &str)
    ensures
        task_views(final(tasks)@) == task_views(old(tasks)@) + fabric_lib_tasks(libs@, dir@),
{
    let ghost start = task_views(tasks@);
    let mut i: usize = 0;
    while i < libs.len()
        invariant
            i <= libs.len(),
            task_views(tasks@) == start + fabric_lib_tasks(libs@.subrange(0, i as int), dir@),
        decreases libs.len() - i,
    {
        proof {
            assert(libs@.subrange(0, i + 1).drop_last() =~= libs@.subrange(0, i as int));
        }
        let l = &libs[i];
        let ghost before = task_views(tasks@);
        let mut added = false;
        if let Some(u) = &l.url {
            if let Some(rel) = maven_to_path(l.name.as_str()) {
                let t = DownloadTask {
                    url: concat2(u.as_str(), rel.as_str()),
                    path: path_join(dir, rel.as_str()),
                    size: l.size,
                    sha1: clone_opt(&l.sha1),
                    sha512: None,
                };
                tasks.push(t);
                added = true;
                proof {
                    assert(task_views(tasks@) =~= before + seq![task_view(t)]);
                }
            }
        }
        if !added {
            proof {
                assert(task_views(tasks@) =~= before + Seq::<TaskView>::empty());
            }
        }
        i += 1;
    }
    proof {
        assert(libs@.subrange(0, libs@.len() as int) =~= libs@);
    }
}

fn push_fabric_repo_task(tasks: &mut Vec<DownloadTask>, coord: &str, dir: &str)
    ensures
        task_views(final(tasks)@) == task_views(old(tasks)@) + fabric_repo_task(coord@, dir@),
{
    let ghost before = task_views(tasks@);
    match maven_to_path(coord) {
        Some(rel) => {
            let t = DownloadTask {
                url: concat2("https://maven.fabricmc.net/", rel.as_str()),
                path: path_join(dir, rel.as_str()),
                size: None,
                sha1: None,
                sha512: None,
            };
            tasks.push(t);
            proof {
                assert(task_views(tasks@) =~= before + seq![task_view(t)]);
            }
        },
        None => {
            proof {
                assert(task_views(tasks@) =~= before + Seq::<TaskView>::empty());
            }
        },
    }
}

/// Plans the downloads of a Fabric loader build.
pub fn fabric_download_tasks(lv: &FabricLoaderVersion, libraries_dir: &str) -> (r: Vec<DownloadTask>)
    ensures
        task_views(r@) == fabric_lib_tasks(lv.launcher_meta.libraries.common@, libraries_dir@)
            + fabric_lib_tasks(lv.launcher_meta.libraries.client@, libraries_dir@)
            + fabric_repo_task(lv.intermediary.maven@, libraries_dir@)
            + fabric_repo_task(lv.loader.maven@, libraries_dir@),
{
    let mut tasks: Vec<DownloadTask> = Vec::new();
    proof {
        assert(task_views(tasks@) =~= Seq::<TaskView>::empty());
    }
    push_fabric_lib_tasks(&mut tasks, &lv.launcher_meta.libraries.common, libraries_dir);
    push_fabric_lib_tasks(&mut tasks, &lv.launcher_meta.libraries.client, libraries_dir);
    push_fabric_repo_task(&mut tasks, lv.intermediary.maven.as_str(), libraries_dir);
    push_fabric_repo_task(&mut tasks, lv.loader.maven.as_str(), libraries_dir);
    proof {
        let a = fabric_lib_tasks(lv.launcher_meta.libraries.common@, libraries_dir@);
        assert(Seq::<TaskView>::empty() + a =~= a);
    }
    tasks
}

/// What a direct (vanilla-style) launch needs.
#[derive(Clone, Debug)]
pub struct DirectLaunch {
    pub identity: LaunchIdentity,
    pub max_memory_mb: u32,
    pub jvm_preset: Option<String>,
    pub custom_jvm_args: Option<String>,
    pub natives_dir: String,
    pub main_class: String,
    pub version_name: String,
    pub game_dir: String,
    pub assets_dir: String,
    pub asset_index_id: String,
}

/// Memory flag, the first-thread flag on macOS, preset flags and custom
/// flags (split at whitespace).
pub open spec fn direct_head_spec(d: DirectLaunch, os: OsKind) -> Seq<Seq<char>> {
    let mac = if os == OsKind::Osx {
        seq!["-XstartOnFirstThread"@]
    } else {
        Seq::empty()
    };
    let preset = match d.jvm_preset {
        Some(p) => preset_flags(p@, d.max_memory_mb as nat),
        None => Seq::empty(),
    };
    let custom = match d.custom_jvm_args {
        Some(c) => words(c@),
        None => Seq::empty(),
    };
    seq!["-Xmx"@ + decimal(d.max_memory_mb as nat) + "M"@] + mac + preset + custom
}

/// Native path, `-cp` with the classpath, main class, then the identity and
/// directory game arguments.
pub open spec fn direct_tail_spec(d: DirectLaunch, classpath: Seq<Seq<char>>, os: OsKind) -> Seq<Seq<char>> {
    seq![
        "-Djava.library.path="@ + d.natives_dir@,
        "-cp"@,
        join_seq(classpath, seq![cp_sep_char(os)]),
        d.main_class@,
        "--username"@, d.identity.username@,
        "--version"@, d.version_name@,
        "--gameDir"@, d.game_dir@,
        "--assetsDir"@, d.assets_dir@,
        "--assetIndex"@, d.asset_index_id@,
        "--uuid"@, d.identity.uuid@,
        "--accessToken"@, d.identity.access_token@,
        "--userType"@, d.identity.user_type@,
    ]
}

/// The argument vector of a direct (vanilla-style) launch.
pub open spec fn direct_args_spec(d: DirectLaunch, classpath: Seq<Seq<char>>, os: OsKind) -> Seq<Seq<char>> {
    direct_head_spec(d, os) + direct_tail_spec(d, classpath, os)
}

fn push_str(v: &mut Vec<String>, s: String)
    ensures
        views(final(v)@) == views(old(v)@).push(s@),
{
    let ghost a = v@;
    v.push(s);
    proof {
        assert(views(v@) =~= views(a).push(s@));
    }
}

fn direct_head(d: &DirectLaunch, os: OsKind) -> (r: Vec<String>)
    ensures
        views(r@) == direct_head_spec(*d, os),
{
    let mut args: Vec<String> = Vec::new();
    let mem = decimal_string(d.max_memory_mb as u64);
    push_str(&mut args, concat3("-Xmx", mem.as_str(), "M"));
    let ghost s1 = views(args@);
    if os == OsKind::Osx {
        push_str(&mut args, String::from_str("-XstartOnFirstThread"));
    }
    let ghost s2 = views(args@);
    match &d.jvm_preset {
        Some(p) => append_jvm_preset_args(&mut args, p.as_str(), d.max_memory_mb),
        None => {},
    }
    let ghost s3 = views(args@);
    match &d.custom_jvm_args {
        Some(c) => {
            let mut w = split_whitespace_words(c.as_str());
            let ghost wv = views(w@);
            let ghost a = args@;
            args.append(&mut w);
            proof {
                assert(views(args@) =~= views(a) + wv);
            }
        },
        None => {},
    }
    proof {
        if os == OsKind::Osx {
            assert(s2 =~= s1 + seq!["-XstartOnFirstThread"@]);
        } else {
            assert(s2 =~= s1 + Seq::<Seq<char>>::empty());
        }
        if d.jvm_preset is None {
            assert(s3 =~= s2 + Seq::<Seq<char>>::empty());
        }
        if d.custom_jvm_args is None {
            assert(views(args@) =~= s3 + Seq::<Seq<char>>::empty());
        }
    }
    args
}

fn direct_tail(d: &DirectLaunch, classpath: &[String], os: OsKind) -> (r: Vec<String>)
    ensures
        views(r@) == direct_tail_spec(*d, views(classpath@), os),
{
    let mut args: Vec<String> = Vec::new();
    push_str(&mut args, concat2("-Djava.library.path=", d.natives_dir.as_str()));
    push_str(&mut args, String::from_str("-cp"));
    push_str(&mut args, join_with(classpath, get_cp_sep(os)));
    push_str(&mut args, d.main_class.clone());
    push_str(&mut args, String::from_str("--username"));
    push_str(&mut args, d.identity.username.clone());
    push_str(&mut args, String::from_str("--version"));
    push_str(&mut args, d.version_name.clone());
    push_str(&mut args, String::from_str("--gameDir"));
    push_str(&mut args, d.game_dir.clone());
    push_str(&mut args, String::from_str("--assetsDir"));
    push_str(&mut args, d.assets_dir.clone());
    push_str(&mut args, String::from_str("--assetIndex"));
    push_str(&mut args, d.asset_index_id.clone());
    push_str(&mut args, String::from_str("--uuid"));
    push_str(&mut args, d.identity.uuid.clone());
    push_str(&mut args, String::from_str("--accessToken"));
    push_str(&mut args, d.identity.access_token.clone());
    push_str(&mut args, String::from_str("--userType"));
    push_str(&mut args, d.identity.user_type.clone());
    proof {
        assert(views(args@) =~= direct_tail_spec(*d, views(classpath@), os));
    }
    args
}

/// Builds the argument vector of a direct launch.
pub fn vanilla_style_args(d: &DirectLaunch, classpath: &[String], os: OsKind) -> (r: Vec<String>)
    ensures
        views(r@) == direct_args_spec(*d, views(classpath@), os),
{
    let mut head = direct_head(d, os);
    let mut tail = direct_tail(d, classpath, os);
    let ghost h = head@;
    let ghost t = tail@;
    head.append(&mut tail);
    proof {
        assert(views(head@) =~= views(h) + views(t));
    }
    head
}

/// The compatibility flags of a descriptor launch on modern Java: the
/// vector incubator module, the first-thread flag on macOS, and the
/// package openings that popular mods need.
pub open spec fn compat_flags_spec(os: OsKind) -> Seq<Seq<char>> {
    seq!["--add-modules=jdk.incubator.vector"@] + (if os == OsKind::Osx {
        seq!["-XstartOnFirstThread"@]
    } else {
        Seq::empty()
    }) + seq![
        "--add-opens=java.base/java.util.jar=ALL-UNNAMED"@,
        "--add-opens=java.base/java.lang=ALL-UNNAMED"@,
        "--add-opens=java.base/java.util=ALL-UNNAMED"@,
        "--add-opens=java.base/java.io=ALL-UNNAMED"@,
        "--add-opens=java.base/java.net=ALL-UNNAMED"@,
        "--add-opens=java.base/java.nio=ALL-UNNAMED"@,
        "--add-opens=java.desktop/sun.awt=ALL-UNNAMED"@,
        "--add-opens=java.desktop/sun.font=ALL-UNNAMED"@,
    ]
}

pub fn neoforge_compat_flags(os: OsKind) -> (r: Vec<String>)
    ensures
        views(r@) == compat_flags_spec(os),
{
    let mut v: Vec<String> = Vec::new();
    push_str(&mut v, String::from_str("--add-modules=jdk.incubator.vector"));
    let ghost s1 = views(v@);
    if os == OsKind::Osx {
        push_str(&mut v, String::from_str("-XstartOnFirstThread"));
    }
    let ghost s2 = views(v@);
    push_str(&mut v, String::from_str("--add-opens=java.base/java.util.jar=ALL-UNNAMED"));
    push_str(&mut v, String::from_str("--add-opens=java.base/java.lang=ALL-UNNAMED"));
    push_str(&mut v, String::from_str("--add-opens=java.base/java.util=ALL-UNNAMED"));
    push_str(&mut v, String::from_str("--add-opens=java.base/java.io=ALL-UNNAMED"));
    push_str(&mut v, String::from_str("--add-opens=java.base/java.net=ALL-UNNAMED"));
    push_str(&mut v, String::from_str("--add-opens=java.base/java.nio=ALL-UNNAMED"));
    push_str(&mut v, String::from_str("--add-opens=java.desktop/sun.awt=ALL-UNNAMED"));
    push_str(&mut v, String::from_str("--add-opens=java.desktop/sun.font=ALL-UNNAMED"));
    proof {
        if os == OsKind::Osx {
            assert(s2 =~= s1 + seq!["-XstartOnFirstThread"@]);
        } else {
            assert(s2 =~= s1 + Seq::<Seq<char>>::empty());
        }
        assert(views(v@) =~= compat_flags_spec(os));
    }
    v
}

/// A loader version as stored in a profile, trimmed and without a
/// `neoforge-` prefix.
pub open spec fn bare_loader_version(v: Seq<char>) -> Seq<char> {
    let t = trim_seq(v);
    if starts_with_seq(t, "neoforge-"@) {
        t.subrange(9, t.len() as int)
    } else {
        t
    }
}

/// The version id that the loader installer gives a loader version.
pub fn neoforge_version_id(loader_version: &str) -> (r: String)
    ensures
        r@ == "neoforge-"@ + bare_loader_version(loader_version@),
{
    let bare = normalize_loader_version(loader_version);
    concat2("neoforge-", bare.as_str())
}

/// A profile's loader version, trimmed and without a `neoforge-` prefix.
pub fn normalize_loader_version(loader_version: &str) -> (r: String)
    ensures
        r@ == bare_loader_version(loader_version@),
{
    proof {
        reveal_strlit("neoforge-");
    }
    let t = trim_str(loader_version);
    if starts_with_str(t.as_str(), "neoforge-") {
        let x = crate::text::chars_of(t.as_str());
        crate::text::slice_string(x.as_slice(), 9, x.len())
    } else {
        t
    }
}

/// Where the loader installer of a version may be fetched, in the order
/// tried: the releases repository path, then the plain one.
pub fn installer_url_candidates(neoforge_version: &str) -> (r: Vec<String>)
    ensures
        views(r@) == seq![
            "https://maven.neoforged.net/releases/"@ + crate::maven::installer_path_spec(neoforge_version@),
            "https://maven.neoforged.net/"@ + crate::maven::installer_path_spec(neoforge_version@),
        ],
{
    let rel = crate::maven::neoforge_installer_maven_path(neoforge_version);
    let mut v: Vec<String> = Vec::new();
    push_str(&mut v, concat2("https://maven.neoforged.net/releases/", rel.as_str()));
    push_str(&mut v, concat2("https://maven.neoforged.net/", rel.as_str()));
    proof {
        assert(views(v@) =~= seq![
            "https://maven.neoforged.net/releases/"@ + crate::maven::installer_path_spec(neoforge_version@),
            "https://maven.neoforged.net/"@ + crate::maven::installer_path_spec(neoforge_version@),
        ]);
    }
    v
}

/// The per-instance folders created with every profile.
pub fn profile_subdirectories() -> (r: Vec<&'static str>)
    ensures
        r@.map_values(|x: &str| x@) == seq![
            "mods"@, "config"@, "saves"@, "resourcepacks"@, "shaderpacks"@, "logs"@,
            "crash-reports"@, "screenshots"@,
        ],
{
    let v = vec!["mods", "config", "saves", "resourcepacks", "shaderpacks", "logs", "crash-reports", "screenshots"];
    proof {
        assert(v@.map_values(|x: &str| x@) =~= seq![
            "mods"@, "config"@, "saves"@, "resourcepacks"@, "shaderpacks"@, "logs"@,
            "crash-reports"@, "screenshots"@,
        ]);
    }
    v
}

/// A new profile from a creation request, under the id chosen for it;
/// everything the request does not set starts empty.
pub fn new_profile(req: CreateProfileRequest, id: String) -> (r: Profile)
    ensures
        r.id == id,
        r.name == req.name,
        r.version == req.version,
        r.loader == req.loader,
        r.loader_version == req.loader_version,
        r.source_id == req.source_id,
        r.jvm_preset == req.jvm_preset,
        r.custom_jvm_args == req.custom_jvm_args,
        r.icon is None && r.last_played is None && r.play_time is None && r.java_path is None,
        r.jvm_args is None && r.min_memory is None && r.max_memory is None,
        r.resolution is None && r.modpack_version is None,
{
    Profile {
        id,
        name: req.name,
        version: req.version,
        loader: req.loader,
        loader_version: req.loader_version,
        icon: None,
        last_played: None,
        play_time: None,
        java_path: None,
        jvm_args: None,
        min_memory: None,
        max_memory: None,
        resolution: None,
        source_id: req.source_id,
        modpack_version: None,
        jvm_preset: req.jvm_preset,
        custom_jvm_args: req.custom_jvm_args,
    }
}

/// Whether an installed version directory looks like the loader install
/// for a game version and loader version.
pub open spec fn neoforge_dir_spec(name: Seq<char>, mc: Seq<char>, nf: Seq<char>) -> bool {
    let lc = lower_of(name);
    contains_seq(lc, "neoforge"@) && (contains_seq(lc, lower_of(mc)) || contains_seq(lc, nf))
}

pub fn looks_like_neoforge_dir(name: &str, mc_version: &str, neoforge_version: &str) -> (r: bool)
    ensures
        r == neoforge_dir_spec(name@, mc_version@, neoforge_version@),
{
    let lc = lowercase(name);
    let mc = lowercase(mc_version);
    contains_str(lc.as_str(), "neoforge") && (contains_str(lc.as_str(), mc.as_str()) || contains_str(
        lc.as_str(),
        neoforge_version,
    ))
}

/// The candidate runtime chosen among `(major, path)` pairs: only those of
/// the required major when one is required; the highest major wins, the
/// earliest among equals.
pub open spec fn best_java(cands: Seq<(i32, String)>, required: Option<i32>) -> Option<int>
    decreases cands.len(),
{
    if cands.len() == 0 {
        None
    } else {
        let b = best_java(cands.drop_last(), required);
        let c = cands.last();
        if required matches Some(r) && c.0 != r {
            b
        } else {
            match b {
                Some(i) if c.0 <= cands[i].0 => Some(i),
                _ => Some(cands.len() - 1),
            }
        }
    }
}

/// The Java executable for a profile: the explicit path if it is set
/// (trimmed, non-empty) and exists; else the best detected runtime; else
/// `java` from the search path.
pub open spec fn java_choice(
    required: Option<i32>,
    explicit: Option<Seq<char>>,
    explicit_exists: bool,
    cands: Seq<(i32, String)>,
) -> Seq<char> {
    if explicit matches Some(e) && trim_seq(e).len() > 0 && explicit_exists {
        trim_seq(explicit->0)
    } else {
        match best_java(cands, required) {
            Some(i) => cands[i].1@,
            None => "java"@,
        }
    }
}

/// Chooses the Java executable. `explicit_exists` tells whether the
/// trimmed explicit path exists; `candidates` are the detected runtimes
/// with their major release.
pub fn find_java_for_profile(
    required_major: Option<i32>,
    explicit: Option<&str>,
    explicit_exists: bool,
    candidates: &[(i32, String)],
) -> (r: String)
    ensures
        r@ == java_choice(required_major, match explicit {
            Some(e) => Some(e@),
            None => None,
        }, explicit_exists, candidates@),
{
    if let Some(p) = explicit {
        let t = trim_str(p);
        if t.as_str().unicode_len() > 0 && explicit_exists {
            return t;
        }
    }
    let mut best: Option<usize> = None;
    let mut i: usize = 0;
    while i < candidates.len()
        invariant
            i <= candidates.len(),
            match best {
                Some(b) => best_java(candidates@.subrange(0, i as int), required_major) == Some(b as int) && b < i,
                None => best_java(candidates@.subrange(0, i as int), required_major) is None,
            },
        decreases candidates.len() - i,
    {
        let ghost pre = candidates@.subrange(0, i + 1);
        proof {
            assert(pre.drop_last() =~= candidates@.subrange(0, i as int));
            assert(pre.last() == candidates@[i as int]);
            if let Some(b) = best {
                assert(pre[b as int] == candidates@[b as int]);
            }
        }
        let major = candidates[i].0;
        let eligible = match required_major {
            Some(r) => major == r,
            None => true,
        };
        if eligible {
            match best {
                Some(b) => {
                    if major > candidates[b].0 {
                        best = Some(i);
                    }
                },
                None => {
                    best = Some(i);
                },
            }
        }
        i += 1;
    }
    proof {
        assert(candidates@.subrange(0, candidates@.len() as int) =~= candidates@);
    }
    match best {
        Some(b) => candidates[b].1.clone(),
        None => String::from_str("java"),
    }
}

} // verus!
