use launcher_core::models::{AssetIndex, DownloadInfo, Downloads, VersionDetails};
use launcher_core::quilt::{
    quilt_download_tasks, select_quilt_loader, HashedInfo, QuiltLauncherMeta, QuiltLibraries,
    QuiltLibrary, QuiltLoaderInfo, QuiltLoaderVersion, QuiltMainClass,
};
use launcher_core::profile::CreateProfileRequest;
use launcher_core::session::{find_java_for_profile, installer_url_candidates, new_profile, normalize_loader_version, profile_subdirectories};
use launcher_core::fabric::{FabricLibrary, FabricLoaderVersion, IntermediaryInfo, LauncherMeta, LibrariesSection, LoaderInfo, MainClass};
use launcher_core::models::{AssetIndexFile, AssetObject, Library, LibraryArtifact, LibraryDownloads, OsRule, Rule};
use launcher_core::plan::{asset_download_tasks, engine_library_tasks};
use launcher_core::platform::OsKind;
use launcher_core::profile::ModLoader;
use launcher_core::rules::check_library_rules;
use launcher_core::session::{
    fabric_classpath, fabric_download_tasks, generate_offline_uuid, launch_identity, launch_strategy,
    looks_like_neoforge_dir, neoforge_compat_flags, neoforge_version_id, select_fabric_loader,
    vanilla_style_args, DirectLaunch, LaunchStrategy,
};
use launcher_core::text::split_whitespace_words;

fn s(x: &str) -> String {
    x.to_string()
}

fn fabric_version(v: &str, stable: bool) -> FabricLoaderVersion {
    FabricLoaderVersion {
        loader: LoaderInfo { separator: s("."), build: 1, maven: format!("net.fabricmc:fabric-loader:{}", v), version: s(v), stable },
        intermediary: IntermediaryInfo { maven: s("net.fabricmc:intermediary:1.21.1"), version: s("1.21.1"), stable: true },
        launcher_meta: LauncherMeta {
            version: 1,
            min_java_version: None,
            libraries: LibrariesSection {
                client: vec![],
                common: vec![FabricLibrary { name: s("org.ow2.asm:asm:9.6"), url: Some(s("https://maven.fabricmc.net/")), md5: None, sha1: Some(s("aa")), sha256: None, sha512: None, size: Some(5) }],
                server: vec![],
                development: vec![],
            },
            main_class: MainClass::Simple(s("net.fabricmc.loader.impl.launch.knot.KnotClient")),
        },
    }
}

#[test]
fn offline_uuid_is_stable() {
    let a = generate_offline_uuid("Player");
    assert_eq!(a.len(), 36);
    assert_eq!(a, generate_offline_uuid("Player"));
    assert_ne!(a, generate_offline_uuid("Other"));
    let id = launch_identity(None);
    assert_eq!(id.username, "Player");
    assert_eq!(id.user_type, "legacy");
    assert_eq!(id.uuid, a);
}

#[test]
fn strategies_per_loader() {
    assert_eq!(launch_strategy(ModLoader::NeoForge), Some(LaunchStrategy::FromDescriptor));
    assert_eq!(launch_strategy(ModLoader::Fabric), Some(LaunchStrategy::FabricWithVanillaFallback));
    assert_eq!(launch_strategy(ModLoader::Forge), None);
}

#[test]
fn fabric_choice_and_plan() {
    let vs = vec![fabric_version("0.17.0", false), fabric_version("0.16.9", true)];
    assert_eq!(select_fabric_loader(&vs, None), Some(1));
    assert_eq!(select_fabric_loader(&vs, Some("0.17.0")), Some(0));
    assert_eq!(select_fabric_loader(&vs, Some("9")), None);
    assert_eq!(select_fabric_loader(&[], None), None);
    let tasks = fabric_download_tasks(&vs[1], "/lib");
    assert_eq!(tasks.len(), 3);
    assert_eq!(tasks[0].url, "https://maven.fabricmc.net/org/ow2/asm/asm/9.6/asm-9.6.jar");
    assert_eq!(tasks[2].path, "/lib/net/fabricmc/fabric-loader/0.16.9/fabric-loader-0.16.9.jar");
    let cp = fabric_classpath(vec![s("/v/1.21.1.jar")], &vs[1], "/lib");
    assert_eq!(cp.len(), 4);
    assert_eq!(cp[1], "/lib/org/ow2/asm/asm/9.6/asm-9.6.jar");
}

#[test]
fn direct_launch_vector() {
    let d = DirectLaunch {
        identity: launch_identity(None),
        max_memory_mb: 2048,
        jvm_preset: Some(s("low_memory")),
        custom_jvm_args: Some(s("  -Da=1   -Db=2 ")),
        natives_dir: s("/n"),
        main_class: s("net.minecraft.client.main.Main"),
        version_name: s("1.21.1"),
        game_dir: s("/g"),
        assets_dir: s("/a"),
        asset_index_id: s("17"),
    };
    let args = vanilla_style_args(&d, &[s("/x.jar"), s("/y.jar")], OsKind::Linux);
    assert_eq!(args[..7].to_vec(), vec![s("-Xmx2048M"), s("-XX:+UseSerialGC"), s("-Da=1"), s("-Db=2"), s("-Djava.library.path=/n"), s("-cp"), s("/x.jar:/y.jar")]);
    assert_eq!(args.len(), 24);
    let mac = vanilla_style_args(&d, &[], OsKind::Osx);
    assert_eq!(mac[1], "-XstartOnFirstThread");
}

#[test]
fn words_split_at_whitespace() {
    assert_eq!(split_whitespace_words(" a  b\tc "), vec![s("a"), s("b"), s("c")]);
    assert!(split_whitespace_words("   ").is_empty());
}

#[test]
fn neoforge_ids() {
    assert_eq!(neoforge_version_id(" neoforge-21.1.77 "), "neoforge-21.1.77");
    assert_eq!(neoforge_version_id("21.1.77"), "neoforge-21.1.77");
    assert!(looks_like_neoforge_dir("NeoForge-21.1.77", "1.21.1", "21.1.77"));
    assert!(!looks_like_neoforge_dir("fabric-1.21.1", "1.21.1", "21.1.77"));
    let f = neoforge_compat_flags(OsKind::Linux);
    assert_eq!(f.len(), 9);
    assert_eq!(neoforge_compat_flags(OsKind::Osx).len(), 10);
}

#[test]
fn engine_rules_last_match_wins() {
    let r = |a: &str, os: Option<&str>| Rule { action: s(a), features: None, os: os.map(|n| OsRule { name: Some(s(n)), version: None, arch: None }) };
    let mut l = Library { name: s("a:b:1"), downloads: None, url: None, rules: vec![r("allow", None), r("disallow", Some("osx"))], natives: None, extract: None };
    assert!(check_library_rules(&l, OsKind::Linux));
    assert!(!check_library_rules(&l, OsKind::Osx));
    l.rules = vec![];
    assert!(check_library_rules(&l, OsKind::Osx));
    let art = LibraryArtifact { path: s("a/b.jar"), sha1: Some(s("ff")), size: Some(1), url: s("https://u/a/b.jar") };
    l.downloads = Some(LibraryDownloads { artifact: Some(art), classifiers: None });
    let tasks = engine_library_tasks(&[l], "/lib", OsKind::Linux);
    assert_eq!(tasks.len(), 1);
    assert_eq!(tasks[0].path, "/lib/a/b.jar");
}

#[test]
fn asset_objects_sharded_by_hash() {
    let idx = AssetIndexFile { objects: vec![(s("icons/a.png"), AssetObject { hash: s("ab12cd"), size: 9 })] };
    let t = asset_download_tasks(&idx, "/assets/objects");
    assert_eq!(t[0].url, "https://resources.download.minecraft.net/ab/ab12cd");
    assert_eq!(t[0].path, "/assets/objects/ab/ab12cd");
    assert_eq!(t[0].sha1, Some(s("ab12cd")));
    assert_eq!(t[0].size, Some(9));
}

#[test]
fn quilt_choice_and_plan() {
    let v = QuiltLoaderVersion {
        loader: QuiltLoaderInfo { separator: s("."), build: 1, maven: s("org.quiltmc:quilt-loader:0.26.0"), version: s("0.26.0") },
        hashed: Some(HashedInfo { maven: s("org.quiltmc:hashed:1.21.1"), version: s("1.21.1") }),
        intermediary: None,
        launcher_meta: QuiltLauncherMeta {
            version: 1,
            min_java_version: None,
            libraries: QuiltLibraries {
                client: vec![],
                common: vec![QuiltLibrary { name: s("a:b:1"), url: s("https://r/"), sha1: None, size: None }],
                server: vec![],
            },
            main_class: QuiltMainClass::Simple(s("org.quiltmc.loader.impl.launch.knot.KnotClient")),
        },
    };
    assert_eq!(select_quilt_loader(&[v.clone()], None), Some(0));
    assert_eq!(select_quilt_loader(&[v.clone()], Some("0.26.0")), Some(0));
    assert_eq!(select_quilt_loader(&[v.clone()], Some("0.1")), None);
    let t = quilt_download_tasks(&v, "/lib");
    assert_eq!(t.len(), 3);
    assert_eq!(t[0].url, "https://r/a/b/1/b-1.jar");
    assert_eq!(t[1].url, "https://maven.quiltmc.org/repository/release/org/quiltmc/hashed/1.21.1/hashed-1.21.1.jar");
    assert_eq!(v.launcher_meta.main_class.client(), "org.quiltmc.loader.impl.launch.knot.KnotClient");
}

#[test]
fn profile_creation_pieces() {
    let req = CreateProfileRequest {
        name: s("Pack"),
        version: s("1.21.1"),
        loader: ModLoader::NeoForge,
        loader_version: Some(s("21.1.77")),
        source_id: None,
        modpack_version: None,
        jvm_preset: Some(s("zgc")),
        custom_jvm_args: None,
    };
    let p = new_profile(req, s("pack"));
    assert_eq!(p.id, "pack");
    assert_eq!(p.loader, ModLoader::NeoForge);
    assert!(p.max_memory.is_none());
    assert_eq!(profile_subdirectories().len(), 8);
    assert_eq!(normalize_loader_version(" neoforge-21.1.77"), "21.1.77");
    let c = installer_url_candidates("21.1.77");
    assert_eq!(c[0], "https://maven.neoforged.net/releases/net/neoforged/neoforge/21.1.77/neoforge-21.1.77-installer.jar");
    assert_eq!(c[1], "https://maven.neoforged.net/net/neoforged/neoforge/21.1.77/neoforge-21.1.77-installer.jar");
}

#[test]
fn java_selection() {
    let c = vec![(17, s("/j17/java")), (21, s("/j21a/java")), (21, s("/j21b/java"))];
    assert_eq!(find_java_for_profile(Some(21), None, false, &c), "/j21a/java");
    assert_eq!(find_java_for_profile(Some(17), None, false, &c), "/j17/java");
    assert_eq!(find_java_for_profile(None, None, false, &c), "/j21a/java");
    assert_eq!(find_java_for_profile(Some(8), None, false, &c), "java");
    assert_eq!(find_java_for_profile(Some(21), Some("  /custom/java "), true, &c), "/custom/java");
    assert_eq!(find_java_for_profile(Some(21), Some("  "), true, &c), "/j21a/java");
    assert_eq!(find_java_for_profile(Some(21), Some("/missing"), false, &c), "/j21a/java");
}

#[test]
fn engine_records_planned() {
    let details = VersionDetails {
        id: s("1.21.1"),
        main_class: s("net.minecraft.client.main.Main"),
        minimum_launcher_version: None,
        release_time: s("t"),
        time: s("t"),
        version_type: s("release"),
        arguments: None,
        minecraft_arguments: None,
        asset_index: AssetIndex { id: s("17"), sha1: s("ai"), size: 3, total_size: 9, url: s("https://m/17.json") },
        assets: s("17"),
        downloads: Downloads { client: DownloadInfo { sha1: s("cc"), size: 7, url: s("https://m/client.jar") }, client_mappings: None, server: None, server_mappings: None },
        libraries: vec![Library {
            name: s("a:b:1"),
            downloads: Some(LibraryDownloads { artifact: Some(LibraryArtifact { path: s("a/b/1/b-1.jar"), sha1: None, size: None, url: s("u") }), classifiers: None }),
            url: None,
            rules: vec![],
            natives: None,
            extract: None,
        }],
        logging: None,
        java_version: None,
    };
    let c = launcher_core::plan::client_download_task(&details, "/v/1.21.1/1.21.1.jar");
    assert_eq!(c.url, "https://m/client.jar");
    assert_eq!(c.sha1, Some(s("cc")));
    let i = launcher_core::plan::asset_index_task(&details, "/assets/indexes");
    assert_eq!(i.path, "/assets/indexes/17.json");
    let cp = launcher_core::session::vanilla_classpath(&details, "/lib", "/v/1.21.1/1.21.1.jar");
    assert_eq!(cp, vec![s("/lib/a/b/1/b-1.jar"), s("/v/1.21.1/1.21.1.jar")]);
}
