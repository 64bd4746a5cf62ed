//! Launch assembly: the classpath of a merged descriptor, the native jars
//! to unpack, the placeholder table and the final argument vector.

use vstd::prelude::*;
use crate::descriptor::{DescriptorView, VersionDescriptor};
use crate::maven::{maven_path_spec, maven_to_path};
use crate::models::{Library, LibraryArtifact};
use crate::platform::{current_os_key, os_key, OsKind};
use crate::rules::{library_rules_allow, rules_allow_spec};
use crate::args::{
    append_jvm_preset_args, extract_arguments, filter_jvm_args, filter_jvm_spec,
    filter_unresolved_game_args, filter_unresolved_spec, flatten_spec, pair_views, preset_flags,
    subst_all, substitute_all,
};
use crate::classpath::{
    dedup_module_args_spec, dedup_preserve_order, dedup_spec, deduplicate_module_path_args,
    extract_module_path_libraries, filter_classpath_conflicts, filter_cp_spec, module_libs_spec,
};
use crate::platform::{cp_sep_char, get_cp_sep};
use crate::text::{
    concat2, concat3, decimal, decimal_string, ends_with_seq, ends_with_str, join_seq, join_with,
    starts_with_seq, starts_with_str, str_eq, views,
};

verus! {

/// `rel` under the directory `dir`.
pub open spec fn path_join_spec(dir: Seq<char>, rel: Seq<char>) -> Seq<char> {
    if ends_with_seq(dir, "/"@) {
        dir + rel
    } else {
        dir + "/"@ + rel
    }
}

/// Joins a relative path under a directory with a forward slash.
pub fn path_join(dir: &str, rel: &str) -> (r: String)
    ensures
        r@ == path_join_spec(dir@, rel@),
{
    if ends_with_str(dir, "/") {
        concat2(dir, rel)
    } else {
        concat3(dir, "/", rel)
    }
}

/// The main class of the strict module-path bootstrap.
pub open spec fn bootstrap_main() -> Seq<char> {
    "cpw.mods.bootstraplauncher.BootstrapLauncher"@
}

/// The relative path of a library's direct artifact, if it has one.
pub open spec fn artifact_path(lib: Library) -> Option<Seq<char>> {
    match lib.downloads {
        Some(d) => match d.artifact {
            Some(a) => Some(a.path@),
            None => None,
        },
        None => None,
    }
}

/// A library's classpath entry on `os`: its direct artifact, else the path
/// derived from its coordinate; none when its rules deny it.
pub open spec fn lib_cp_entry(lib: Library, dir: Seq<char>, os: OsKind) -> Option<Seq<char>> {
    if !rules_allow_spec(lib.rules@, os) {
        None
    } else {
        match artifact_path(lib) {
            Some(p) => Some(path_join_spec(dir, p)),
            None => match maven_path_spec(lib.name@) {
                Some(p) => Some(path_join_spec(dir, p)),
                None => None,
            },
        }
    }
}

/// The classpath entries of the libraries, in order.
pub open spec fn lib_entries(libs: Seq<Library>, dir: Seq<char>, os: OsKind) -> Seq<Seq<char>>
    decreases libs.len(),
{
    if libs.len() == 0 {
        Seq::empty()
    } else {
        lib_entries(libs.drop_last(), dir, os) + match lib_cp_entry(libs.last(), dir, os) {
            Some(e) => seq![e],
            None => Seq::empty(),
        }
    }
}

/// The client jar entry: the version's own jar if present; else the
/// ancestor's jar, unless the main class is the module-path bootstrap,
/// which would then see the engine module twice.
pub open spec fn client_jar_entry(
    d: DescriptorView,
    own_jar: Option<Seq<char>>,
    parent_jar: Option<Seq<char>>,
) -> Seq<Seq<char>> {
    match own_jar {
        Some(j) => seq![j],
        None => if d.inherits_from is Some && !(d.main_class matches Some(m) && m@
            == bootstrap_main()) && parent_jar is Some {
            seq![parent_jar->0]
        } else {
            Seq::empty()
        },
    }
}

/// The classpath of a merged descriptor before de-duplication.
pub open spec fn classpath_spec(
    d: DescriptorView,
    dir: Seq<char>,
    own_jar: Option<Seq<char>>,
    parent_jar: Option<Seq<char>>,
    os: OsKind,
) -> Seq<Seq<char>> {
    lib_entries(d.libraries, dir, os) + client_jar_entry(d, own_jar, parent_jar)
}

pub open spec fn opt_view(o: Option<String>) -> Option<Seq<char>> {
    match o {
        Some(s) => Some(s@),
        None => None,
    }
}

/// Builds the classpath of a merged descriptor. `own_jar` is the version's
/// own client jar if one exists; `parent_jar` the ancestor's client jar if
/// it exists.
pub fn build_classpath_from_version_json(
    merged: &VersionDescriptor,
    libraries_dir: &str,
    own_jar: Option<String>,
    parent_jar: Option<String>,
    os: OsKind,
) -> (r: Vec<String>)
    ensures
        views(r@) == classpath_spec(merged@, libraries_dir@, opt_view(own_jar), opt_view(parent_jar), os),
{
    let libs = &merged.libraries;
    let mut cp: Vec<String> = Vec::new();
    let mut i: usize = 0;
    while i < libs.len()
        invariant
            i <= libs.len(),
            views(cp@) == lib_entries(libs@.subrange(0, i as int), libraries_dir@, os),
        decreases libs.len() - i,
    {
        proof {
            assert(libs@.subrange(0, i + 1).drop_last() =~= libs@.subrange(0, i as int));
        }
        let lib = &libs[i];
        let ghost before = views(cp@);
        if library_rules_allow(lib, os) {
            let mut direct: Option<String> = None;
            if let Some(d) = &lib.downloads {
                if let Some(a) = &d.artifact {
                    direct = Some(path_join(libraries_dir, a.path.as_str()));
                }
            }
            match direct {
                Some(p) => {
                    cp.push(p);
                    proof {
                        assert(views(cp@) =~= before + seq![p@]);
                    }
                },
                None => {
                    match maven_to_path(lib.name.as_str()) {
                        Some(rel) => {
                            let p = path_join(libraries_dir, rel.as_str());
                            cp.push(p);
                            proof {
                                assert(views(cp@) =~= before + seq![p@]);
                            }
                        },
                        None => {
                            proof {
                                assert(views(cp@) =~= before + Seq::<Seq<char>>::empty());
                            }
                        },
                    }
                },
            }
        } else {
            proof {
                assert(views(cp@) =~= before + Seq::<Seq<char>>::empty());
            }
        }
        i += 1;
    }
    proof {
        assert(libs@.subrange(0, libs@.len() as int) =~= libs@);
    }
    let ghost before = views(cp@);
    match own_jar {
        Some(j) => {
            cp.push(j);
            proof {
                assert(views(cp@) =~= before + seq![j@]);
            }
        },
        None => {
            let boot = match &merged.main_class {
                Some(m) => str_eq(m.as_str(), "cpw.mods.bootstraplauncher.BootstrapLauncher"),
                None => false,
            };
            if merged.inherits_from.is_some() && !boot && parent_jar.is_some() {
                let p = parent_jar.unwrap();
                cp.push(p);
                proof {
                    assert(views(cp@) =~= before + seq![p@]);
                }
            } else {
                proof {
                    assert(views(cp@) =~= before + Seq::<Seq<char>>::empty());
                }
            }
        },
    }
    cp
}

/// The first value that `v` pairs with `k`, if any.
pub open spec fn lookup_key<T>(v: Seq<(String, T)>, k: Seq<char>) -> Option<T>
    decreases v.len(),
{
    if v.len() == 0 {
        None
    } else if v[0].0@ == k {
        Some(v[0].1)
    } else {
        lookup_key(v.drop_first(), k)
    }
}

/// The position of the first pair of `v` keyed `k`.
pub fn find_key<T>(v: &[(String, T)], k: &str) -> (r: Option<usize>)
    ensures
        match r {
            Some(i) => i < v.len() && lookup_key(v@, k@) == Some(v@[i as int].1),
            None => lookup_key(v@, k@) is None,
        },
{
    let mut i: usize = 0;
    proof {
        assert(v@.subrange(0, v@.len() as int) =~= v@);
    }
    while i < v.len()
        invariant
            i <= v.len(),
            lookup_key(v@, k@) == lookup_key(v@.subrange(i as int, v@.len() as int), k@),
        decreases v.len() - i,
    {
        proof {
            assert(v@.subrange(i as int, v@.len() as int).drop_first() =~= v@.subrange(
                i + 1,
                v@.len() as int,
            ));
        }
        if str_eq(v[i].0.as_str(), k) {
            return Some(i);
        }
        i += 1;
    }
    None
}

/// The native jar of a library for `os`: its natives map names a
/// classifier for the platform, and its classifier downloads hold it.
pub open spec fn native_artifact(lib: Library, os: OsKind) -> Option<LibraryArtifact> {
    match lib.natives {
        Some(n) => match lookup_key(n@, os_key(os)) {
            Some(classifier) => match lib.downloads {
                Some(d) => match d.classifiers {
                    Some(c) => lookup_key(c@, classifier@),
                    None => None,
                },
                None => None,
            },
            None => None,
        },
        None => None,
    }
}

/// A native jar to unpack, with the entry prefixes to leave out.
#[derive(Clone, Debug)]
pub struct NativeJar {
    pub jar_path: String,
    pub excludes: Vec<String>,
}

/// The exclusion prefixes of a library.
pub open spec fn lib_excludes(lib: Library) -> Seq<Seq<char>> {
    match lib.extract {
        Some(e) => views(e.exclude@),
        None => Seq::empty(),
    }
}

/// The native jars of `libs` for `os`: path under `dir`, with excludes.
pub open spec fn native_jars_spec(libs: Seq<Library>, dir: Seq<char>, os: OsKind) -> Seq<(Seq<char>, Seq<Seq<char>>)>
    decreases libs.len(),
{
    if libs.len() == 0 {
        Seq::empty()
    } else {
        native_jars_spec(libs.drop_last(), dir, os) + match native_artifact(libs.last(), os) {
            Some(a) => seq![(path_join_spec(dir, a.path@), lib_excludes(libs.last()))],
            None => Seq::empty(),
        }
    }
}

pub open spec fn native_jar_views(v: Seq<NativeJar>) -> Seq<(Seq<char>, Seq<Seq<char>>)> {
    v.map_values(|j: NativeJar| (j.jar_path@, views(j.excludes@)))
}

fn clone_strings(v: &Vec<String>) -> (r: Vec<String>)
    ensures
        views(r@) == views(v@),
{
    let mut out: Vec<String> = Vec::new();
    let mut i: usize = 0;
    while i < v.len()
        invariant
            i <= v.len(),
            views(out@) == views(v@).subrange(0, i as int),
        decreases v.len() - i,
    {
        let ghost before = out@;
        let s = v[i].clone();
        out.push(s);
        i += 1;
        proof {
            assert(views(v@)[i - 1] == v@[i - 1]@);
            assert(views(out@) =~= views(before).push(s@));
            assert(views(out@) =~= views(v@).subrange(0, i as int));
        }
    }
    proof {
        assert(views(v@).subrange(0, v@.len() as int) =~= views(v@));
    }
    out
}

/// Selects the native jars that the libraries of a merged descriptor
/// provide for `os`, to be unpacked into the version's natives directory.
pub fn native_jars_for(merged: &VersionDescriptor, libraries_dir: &str, os: OsKind) -> (r: Vec<NativeJar>)
    ensures
        native_jar_views(r@) == native_jars_spec(merged.libraries@, libraries_dir@, os),
{
    let libs = &merged.libraries;
    let key = current_os_key(os);
    let mut out: Vec<NativeJar> = Vec::new();
    let mut i: usize = 0;
    while i < libs.len()
        invariant
            i <= libs.len(),
            key@ == os_key(os),
            native_jar_views(out@) == native_jars_spec(libs@.subrange(0, i as int), libraries_dir@, os),
        decreases libs.len() - i,
    {
        proof {
            assert(libs@.subrange(0, i + 1).drop_last() =~= libs@.subrange(0, i as int));
        }
        let lib = &libs[i];
        let ghost before = out@;
        let mut found: Option<String> = None;
        if let Some(n) = &lib.natives {
            if let Some(ni) = find_key(n.as_slice(), key) {
                if let Some(d) = &lib.downloads {
                    if let Some(c) = &d.classifiers {
                        if let Some(ci) = find_key(c.as_slice(), n[ni].1.as_str()) {
                            found = Some(path_join(libraries_dir, c[ci].1.path.as_str()));
                        }
                    }
                }
            }
        }
        match found {
            Some(p) => {
                let excludes = match &lib.extract {
                    Some(e) => clone_strings(&e.exclude),
                    None => Vec::new(),
                };
                let j = NativeJar { jar_path: p, excludes };
                out.push(j);
                proof {
                    assert(views(j.excludes@) == lib_excludes(*lib)) by {
                        if lib.extract is None {
                            assert(views(j.excludes@) =~= Seq::<Seq<char>>::empty());
                        }
                    }
                    assert(native_jar_views(out@) =~= native_jar_views(before) + seq![(j.jar_path@, views(j.excludes@))]);
                }
            },
            None => {
                proof {
                    assert(native_jar_views(out@) =~= native_jar_views(before) + Seq::<(Seq<char>, Seq<Seq<char>>)>::empty());
                }
            },
        }
        i += 1;
    }
    proof {
        assert(libs@.subrange(0, libs@.len() as int) =~= libs@);
    }
    out
}

/// Whether a jar entry is unpacked: not a directory, not metadata, and
/// under none of the excluded prefixes.
pub open spec fn extract_entry_spec(name: Seq<char>, excludes: Seq<Seq<char>>) -> bool {
    &&& !ends_with_seq(name, "/"@)
    &&& !starts_with_seq(name, "META-INF/"@)
    &&& forall|k: int| 0 <= k < excludes.len() ==> !starts_with_seq(name, #[trigger] excludes[k])
}

/// Decides whether a jar entry is unpacked into the natives directory.
pub fn should_extract_entry(name: &str, excludes: &[String]) -> (r: bool)
    ensures
        r == extract_entry_spec(name@, views(excludes@)),
{
    if ends_with_str(name, "/") || starts_with_str(name, "META-INF/") {
        return false;
    }
    let mut i: usize = 0;
    while i < excludes.len()
        invariant
            i <= excludes.len(),
            forall|k: int| 0 <= k < i ==> !starts_with_seq(name@, #[trigger] views(excludes@)[k]),
        decreases excludes.len() - i,
    {
        if starts_with_str(name, excludes[i].as_str()) {
            assert(views(excludes@)[i as int] == excludes@[i as int]@);
            return false;
        }
        assert(views(excludes@)[i as int] == excludes@[i as int]@);
        i += 1;
    }
    true
}

/// What one launch needs besides the merged descriptor: identity, version,
/// directories, memory, resolution and the JVM flags chosen for it.
#[derive(Clone, Debug)]
pub struct LaunchContext {
    pub version_id: String,
    pub username: String,
    pub uuid: String,
    pub access_token: String,
    pub user_type: String,
    pub game_dir: String,
    pub assets_dir: String,
    pub asset_index_id: String,
    pub max_memory_mb: u32,
    pub resolution: Option<(u32, u32)>,
    pub extra_jvm_args: Vec<String>,
    pub jvm_preset: Option<String>,
    pub custom_jvm_args: Vec<String>,
    pub launcher_name: String,
    pub launcher_version: String,
}

/// Why no argument vector could be built.
#[derive(Clone, Debug, PartialEq, Eq, Structural)]
pub enum LaunchError {
    /// The merged descriptor names no main class.
    MissingMainClass,
}

/// The resolution used when none is configured.
pub open spec fn resolution_or_default(r: Option<(u32, u32)>) -> (u32, u32) {
    match r {
        Some(wh) => wh,
        None => (854u32, 480u32),
    }
}

/// The placeholder table of one launch.
pub open spec fn launch_vars_spec(
    ctx: LaunchContext,
    version_type: Seq<char>,
    natives_dir: Seq<char>,
    libraries_dir: Seq<char>,
    cp_string: Seq<char>,
    os: OsKind,
) -> Seq<(Seq<char>, Seq<char>)> {
    let wh = resolution_or_default(ctx.resolution);
    seq![
        ("auth_player_name"@, ctx.username@),
        ("auth_uuid"@, ctx.uuid@),
        ("auth_access_token"@, ctx.access_token@),
        ("user_type"@, ctx.user_type@),
        ("version_name"@, ctx.version_id@),
        ("game_directory"@, ctx.game_dir@),
        ("assets_root"@, ctx.assets_dir@),
        ("assets_index_name"@, ctx.asset_index_id@),
        ("natives_directory"@, natives_dir),
        ("library_directory"@, libraries_dir),
        ("classpath"@, cp_string),
        ("classpath_separator"@, seq![cp_sep_char(os)]),
        ("launcher_name"@, ctx.launcher_name@),
        ("launcher_version"@, ctx.launcher_version@),
        ("user_properties"@, "{}"@),
        ("clientid"@, ""@),
        ("auth_xuid"@, "0"@),
        ("version_type"@, version_type),
        ("resolution_width"@, decimal(wh.0 as nat)),
        ("resolution_height"@, decimal(wh.1 as nat)),
        ("quickPlayPath"@, ""@),
        ("quickPlaySingleplayer"@, ""@),
        ("quickPlayMultiplayer"@, ""@),
        ("quickPlayRealms"@, ""@),
    ]
}

fn push_var(v: &mut Vec<(String, String)>, k: &str, val: String)
    ensures
        pair_views(final(v)@) == pair_views(old(v)@).push((k@, val@)),
{
    let ghost before = v@;
    let key = String::from_str(k);
    v.push((key, val));
    proof {
        assert(pair_views(v@) =~= pair_views(before).push((k@, val@)));
    }
}

/// Builds the placeholder table of one launch.
pub fn launch_vars(
    ctx: &LaunchContext,
    version_type: &str,
    natives_dir: &str,
    libraries_dir: &str,
    cp_string: &str,
    os: OsKind,
) -> (r: Vec<(String, String)>)
    ensures
        pair_views(r@) == launch_vars_spec(*ctx, version_type@, natives_dir@, libraries_dir@, cp_string@, os),
{
    let (w, h) = match ctx.resolution {
        Some(wh) => wh,
        None => (854u32, 480u32),
    };
    let mut v: Vec<(String, String)> = Vec::new();
    push_var(&mut v, "auth_player_name", ctx.username.clone());
    push_var(&mut v, "auth_uuid", ctx.uuid.clone());
    push_var(&mut v, "auth_access_token", ctx.access_token.clone());
    push_var(&mut v, "user_type", ctx.user_type.clone());
    push_var(&mut v, "version_name", ctx.version_id.clone());
    push_var(&mut v, "game_directory", ctx.game_dir.clone());
    push_var(&mut v, "assets_root", ctx.assets_dir.clone());
    push_var(&mut v, "assets_index_name", ctx.asset_index_id.clone());
    push_var(&mut v, "natives_directory", String::from_str(natives_dir));
    push_var(&mut v, "library_directory", String::from_str(libraries_dir));
    push_var(&mut v, "classpath", String::from_str(cp_string));
    push_var(&mut v, "classpath_separator", String::from_str(get_cp_sep(os)));
    push_var(&mut v, "launcher_name", ctx.launcher_name.clone());
    push_var(&mut v, "launcher_version", ctx.launcher_version.clone());
    push_var(&mut v, "user_properties", String::from_str("{}"));
    push_var(&mut v, "clientid", String::from_str(""));
    push_var(&mut v, "auth_xuid", String::from_str("0"));
    push_var(&mut v, "version_type", String::from_str(version_type));
    push_var(&mut v, "resolution_width", decimal_string(w as u64));
    push_var(&mut v, "resolution_height", decimal_string(h as u64));
    push_var(&mut v, "quickPlayPath", String::from_str(""));
    push_var(&mut v, "quickPlaySingleplayer", String::from_str(""));
    push_var(&mut v, "quickPlayMultiplayer", String::from_str(""));
    push_var(&mut v, "quickPlayRealms", String::from_str(""));
    proof {
        assert(pair_views(v@) =~= launch_vars_spec(*ctx, version_type@, natives_dir@, libraries_dir@, cp_string@, os));
    }
    v
}

/// Whether the template already sets the native library path.
pub open spec fn sets_library_path(jvm: Seq<Seq<char>>) -> bool {
    exists|k: int| 0 <= k < jvm.len() && starts_with_seq(#[trigger] jvm[k], "-Djava.library.path="@)
}

/// The game arguments used when the descriptor templates none.
pub open spec fn fallback_game_args(ctx: LaunchContext) -> Seq<Seq<char>> {
    seq![
        "--username"@, ctx.username@,
        "--version"@, ctx.version_id@,
        "--gameDir"@, ctx.game_dir@,
        "--assetsDir"@, ctx.assets_dir@,
        "--assetIndex"@, ctx.asset_index_id@,
        "--uuid"@, ctx.uuid@,
        "--accessToken"@, ctx.access_token@,
        "--userType"@, ctx.user_type@,
    ]
}

/// The version type placeholder value: the descriptor's, else `release`.
pub open spec fn version_type_or_release(d: DescriptorView) -> Seq<char> {
    match d.version_type {
        Some(t) => t@,
        None => "release"@,
    }
}

/// The classpath string of a launch: entries de-duplicated, joined with the
/// platform separator.
pub open spec fn cp_string_spec(
    d: DescriptorView,
    libraries_dir: Seq<char>,
    own_jar: Option<Seq<char>>,
    parent_jar: Option<Seq<char>>,
    os: OsKind,
) -> Seq<char> {
    join_seq(dedup_spec(classpath_spec(d, libraries_dir, own_jar, parent_jar, os), os), seq![cp_sep_char(os)])
}

/// The JVM template after substitution, without classpath flags.
pub open spec fn jvm_spec(d: DescriptorView, vars: Seq<(Seq<char>, Seq<char>)>, os: OsKind) -> Seq<Seq<char>> {
    filter_jvm_spec(subst_all(flatten_spec(d.jvm, os), vars))
}

/// The game template after substitution.
pub open spec fn game_spec(d: DescriptorView, vars: Seq<(Seq<char>, Seq<char>)>, os: OsKind) -> Seq<Seq<char>> {
    subst_all(flatten_spec(d.game, os), vars)
}

/// Memory flag, extra flags, preset flags, custom flags, and the native
/// library path unless the template sets it.
pub open spec fn head_spec(ctx: LaunchContext, jvm: Seq<Seq<char>>, natives_dir: Seq<char>) -> Seq<Seq<char>> {
    let preset = match ctx.jvm_preset {
        Some(p) => preset_flags(p@, ctx.max_memory_mb as nat),
        None => Seq::empty(),
    };
    let libpath = if sets_library_path(jvm) {
        Seq::empty()
    } else {
        seq!["-Djava.library.path="@ + natives_dir]
    };
    seq!["-Xmx"@ + decimal(ctx.max_memory_mb as nat) + "M"@] + views(ctx.extra_jvm_args@) + preset
        + views(ctx.custom_jvm_args@) + libpath
}

/// The JVM template with de-duplicated module paths, `-cp`, the classpath
/// without module-path entries, and the main class.
pub open spec fn body_spec(jvm: Seq<Seq<char>>, cp_string: Seq<char>, main: Seq<char>, os: OsKind) -> Seq<Seq<char>> {
    let module_libs = dedup_spec(module_libs_spec(jvm, os), os);
    dedup_module_args_spec(jvm, os) + seq!["-cp"@, filter_cp_spec(cp_string, module_libs, os), main]
}

/// The game arguments without unresolved ones, or the fallback set when
/// the descriptor templates none.
pub open spec fn tail_spec(ctx: LaunchContext, game: Seq<Seq<char>>) -> Seq<Seq<char>> {
    if game.len() == 0 {
        fallback_game_args(ctx)
    } else {
        filter_unresolved_spec(game)
    }
}

/// The argument vector of a launch, in order: head, body, game arguments.
pub open spec fn launch_args_spec(
    d: DescriptorView,
    main: Seq<char>,
    ctx: LaunchContext,
    libraries_dir: Seq<char>,
    natives_dir: Seq<char>,
    own_jar: Option<Seq<char>>,
    parent_jar: Option<Seq<char>>,
    os: OsKind,
) -> Seq<Seq<char>> {
    let cp_string = cp_string_spec(d, libraries_dir, own_jar, parent_jar, os);
    let vars = launch_vars_spec(ctx, version_type_or_release(d), natives_dir, libraries_dir, cp_string, os);
    let jvm = jvm_spec(d, vars, os);
    head_spec(ctx, jvm, natives_dir) + body_spec(jvm, cp_string, main, os) + tail_spec(ctx, game_spec(d, vars, os))
}

/// In every launch vector `-cp` stands right after the head and the
/// module-path JVM arguments, followed at once by the classpath string (the
/// de-duplicated entries, without module-path entries) and the main class.
pub proof fn lemma_cp_position(
    d: DescriptorView,
    main: Seq<char>,
    ctx: LaunchContext,
    libraries_dir: Seq<char>,
    natives_dir: Seq<char>,
    own_jar: Option<Seq<char>>,
    parent_jar: Option<Seq<char>>,
    os: OsKind,
)
    ensures
        ({
            let v = launch_args_spec(d, main, ctx, libraries_dir, natives_dir, own_jar, parent_jar, os);
            let cp_string = cp_string_spec(d, libraries_dir, own_jar, parent_jar, os);
            let vars = launch_vars_spec(ctx, version_type_or_release(d), natives_dir, libraries_dir, cp_string, os);
            let jvm = jvm_spec(d, vars, os);
            let k = (head_spec(ctx, jvm, natives_dir).len() + dedup_module_args_spec(jvm, os).len()) as int;
            &&& v[k] == "-cp"@
            &&& v[k + 1] == filter_cp_spec(cp_string, dedup_spec(module_libs_spec(jvm, os), os), os)
            &&& v[k + 2] == main
        }),
{
}

fn append_views(out: &mut Vec<String>, more: Vec<String>)
    ensures
        views(final(out)@) == views(old(out)@) + views(more@),
{
    let ghost a = out@;
    let mut m = more;
    let ghost b = m@;
    out.append(&mut m);
    proof {
        assert(views(out@) =~= views(a) + views(b));
    }
}

fn push_view(out: &mut Vec<String>, s: String)
    ensures
        views(final(out)@) == views(old(out)@).push(s@),
{
    let ghost a = out@;
    out.push(s);
    proof {
        assert(views(out@) =~= views(a).push(s@));
    }
}

fn has_library_path(jvm: &Vec<String>) -> (r: bool)
    ensures
        r == sets_library_path(views(jvm@)),
{
    let mut i: usize = 0;
    while i < jvm.len()
        invariant
            i <= jvm.len(),
            forall|k: int| 0 <= k < i ==> !starts_with_seq(#[trigger] views(jvm@)[k], "-Djava.library.path="@),
        decreases jvm.len() - i,
    {
        assert(views(jvm@)[i as int] == jvm@[i as int]@);
        if starts_with_str(jvm[i].as_str(), "-Djava.library.path=") {
            return true;
        }
        i += 1;
    }
    false
}

fn launch_head(ctx: &LaunchContext, jvm: &Vec<String>, natives_dir: &str) -> (r: Vec<String>)
    ensures
        views(r@) == head_spec(*ctx, views(jvm@), natives_dir@),
{
    let mut args: Vec<String> = Vec::new();
    let mem = decimal_string(ctx.max_memory_mb as u64);
    push_view(&mut args, concat3("-Xmx", mem.as_str(), "M"));
    append_views(&mut args, clone_strings(&ctx.extra_jvm_args));
    let ghost before_preset = views(args@);
    match &ctx.jvm_preset {
        Some(p) => append_jvm_preset_args(&mut args, p.as_str(), ctx.max_memory_mb),
        None => {
            proof {
                assert(views(args@) =~= before_preset + Seq::<Seq<char>>::empty());
            }
        },
    }
    append_views(&mut args, clone_strings(&ctx.custom_jvm_args));
    let ghost before_libpath = views(args@);
    if !has_library_path(jvm) {
        push_view(&mut args, concat2("-Djava.library.path=", natives_dir));
    } else {
        proof {
            assert(views(args@) =~= before_libpath + Seq::<Seq<char>>::empty());
        }
    }
    proof {
        assert(views(args@) =~= head_spec(*ctx, views(jvm@), natives_dir@));
    }
    args
}

fn launch_body(jvm: Vec<String>, cp_string: &str, main_class: String, os: OsKind) -> (r: Vec<String>)
    ensures
        views(r@) == body_spec(views(jvm@), cp_string@, main_class@, os),
{
    let module_libs = dedup_preserve_order(extract_module_path_libraries(jvm.as_slice(), os), os);
    let filtered_cp = filter_classpath_conflicts(cp_string, module_libs.as_slice(), os);
    let mut args = deduplicate_module_path_args(jvm, os);
    push_view(&mut args, String::from_str("-cp"));
    push_view(&mut args, filtered_cp);
    push_view(&mut args, main_class);
    proof {
        assert(views(args@) =~= body_spec(views(jvm@), cp_string@, main_class@, os));
    }
    args
}

fn launch_tail(ctx: &LaunchContext, game: Vec<String>) -> (r: Vec<String>)
    ensures
        views(r@) == tail_spec(*ctx, views(game@)),
{
    if game.len() == 0 {
        let mut fb: Vec<String> = Vec::new();
        push_view(&mut fb, String::from_str("--username"));
        push_view(&mut fb, ctx.username.clone());
        push_view(&mut fb, String::from_str("--version"));
        push_view(&mut fb, ctx.version_id.clone());
        push_view(&mut fb, String::from_str("--gameDir"));
        push_view(&mut fb, ctx.game_dir.clone());
        push_view(&mut fb, String::from_str("--assetsDir"));
        push_view(&mut fb, ctx.assets_dir.clone());
        push_view(&mut fb, String::from_str("--assetIndex"));
        push_view(&mut fb, ctx.asset_index_id.clone());
        push_view(&mut fb, String::from_str("--uuid"));
        push_view(&mut fb, ctx.uuid.clone());
        push_view(&mut fb, String::from_str("--accessToken"));
        push_view(&mut fb, ctx.access_token.clone());
        push_view(&mut fb, String::from_str("--userType"));
        push_view(&mut fb, ctx.user_type.clone());
        proof {
            assert(views(fb@) =~= fallback_game_args(*ctx));
        }
        fb
    } else {
        filter_unresolved_game_args(game)
    }
}

/// Assembles the full argument vector of a launch from a merged descriptor.
/// `natives_dir` is the per-version natives directory (already unpacked);
/// `own_jar` and `parent_jar` are the client jars that exist on disk.
pub fn build_args_from_version_json(
    merged: &VersionDescriptor,
    ctx: &LaunchContext,
    libraries_dir: &str,
    natives_dir: &str,
    own_jar: Option<String>,
    parent_jar: Option<String>,
    os: OsKind,
) -> (r: Result<Vec<String>, LaunchError>)
    ensures
        merged.main_class is None <==> r is Err,
        r matches Ok(v) ==> views(v@) == launch_args_spec(
            merged@,
            merged.main_class->0@,
            *ctx,
            libraries_dir@,
            natives_dir@,
            opt_view(own_jar),
            opt_view(parent_jar),
            os,
        ),
{
    let main_class = match &merged.main_class {
        Some(m) => m.clone(),
        None => {
            return Err(LaunchError::MissingMainClass);
        },
    };
    let ghost own_v = opt_view(own_jar);
    let ghost parent_v = opt_view(parent_jar);
    let classpath = build_classpath_from_version_json(merged, libraries_dir, own_jar, parent_jar, os);
    let classpath = dedup_preserve_order(classpath, os);
    let cp_string = join_with(classpath.as_slice(), get_cp_sep(os));
    let version_type = match &merged.version_type {
        Some(t) => t.clone(),
        None => String::from_str("release"),
    };
    let vars = launch_vars(ctx, version_type.as_str(), natives_dir, libraries_dir, cp_string.as_str(), os);
    let ghost vs = pair_views(vars@);
    let (jvm_raw, game_raw) = extract_arguments(&merged.arguments, os);
    let jvm = filter_jvm_args(substitute_all(jvm_raw, vars.as_slice()));
    let game = substitute_all(game_raw, vars.as_slice());
    proof {
        assert(cp_string@ == cp_string_spec(merged@, libraries_dir@, own_v, parent_v, os));
        assert(version_type@ == version_type_or_release(merged@));
        assert(views(jvm@) == jvm_spec(merged@, vs, os));
        assert(views(game@) == game_spec(merged@, vs, os));
    }
    let mut args = launch_head(ctx, &jvm, natives_dir);
    let mut body = launch_body(jvm, cp_string.as_str(), main_class, os);
    let mut tail = launch_tail(ctx, game);
    let ghost h = args@;
    let ghost b = body@;
    let ghost t = tail@;
    args.append(&mut body);
    args.append(&mut tail);
    proof {
        assert(views(args@) =~= views(h) + views(b) + views(t));
    }
    Ok(args)
}

} // verus!
