use launcher_core::args::{
    append_jvm_preset_args, filter_jvm_args, filter_unresolved_game_args, flatten_argument_array,
    redact_sensitive_args, strip_game_timestamp, substitute_vars,
};
use launcher_core::classpath::{
    dedup_preserve_order, deduplicate_module_path_args, extract_module_path_libraries,
    filter_classpath_conflicts, normalize_path_for_compare,
};
use launcher_core::descriptor::{load_merged_version_json, merge_version_json, VersionDescriptor};
use launcher_core::launch::{
    build_args_from_version_json, build_classpath_from_version_json, native_jars_for,
    should_extract_entry, LaunchContext, LaunchError,
};
use launcher_core::models::{
    ArgumentString, ArgumentValue, Arguments, ComplexArgument, ExtractRules, Library,
    LibraryArtifact, LibraryDownloads, OsRule, Rule,
};
use launcher_core::platform::{get_cp_sep, OsKind};
use launcher_core::rules::rules_allow;

fn s(x: &str) -> String {
    x.to_string()
}

fn strs(v: &[&str]) -> Vec<String> {
    v.iter().map(|x| x.to_string()).collect()
}

fn rule(action: &str, os: Option<&str>) -> Rule {
    Rule {
        action: s(action),
        features: None,
        os: os.map(|n| OsRule { name: Some(s(n)), version: None, arch: None }),
    }
}

fn lib(name: &str) -> Library {
    Library { name: s(name), downloads: None, url: None, rules: vec![], natives: None, extract: None }
}

fn empty_descriptor() -> VersionDescriptor {
    VersionDescriptor {
        id: None,
        main_class: None,
        inherits_from: None,
        version_type: None,
        libraries: vec![],
        arguments: Arguments { game: vec![], jvm: vec![] },
        asset_index: None,
        assets: None,
        downloads: None,
        java_version: None,
        minecraft_arguments: None,
    }
}

fn context() -> LaunchContext {
    LaunchContext {
        version_id: s("neoforge-21.1.77"),
        username: s("Steve"),
        uuid: s("uuid-1"),
        access_token: s("tok"),
        user_type: s("msa"),
        game_dir: s("/g"),
        assets_dir: s("/a"),
        asset_index_id: s("17"),
        max_memory_mb: 4096,
        resolution: None,
        extra_jvm_args: strs(&["-Dextra=1"]),
        jvm_preset: Some(s("zgc")),
        custom_jvm_args: strs(&["-Dcustom=1"]),
        launcher_name: s("Launcher"),
        launcher_version: s("1.0"),
    }
}

#[test]
fn rules_empty_list_allows() {
    assert!(rules_allow(&[], OsKind::Linux));
}

#[test]
fn rules_matching_disallow_wins() {
    let rules = vec![rule("allow", None), rule("disallow", Some("linux"))];
    assert!(!rules_allow(&rules, OsKind::Linux));
    let rules = vec![rule("disallow", Some("linux")), rule("allow", Some("linux"))];
    assert!(!rules_allow(&rules, OsKind::Linux));
    assert!(rules_allow(&rules, OsKind::Windows) == false);
}

#[test]
fn rules_default_deny_without_matching_allow() {
    let rules = vec![rule("allow", Some("osx"))];
    assert!(!rules_allow(&rules, OsKind::Linux));
    assert!(rules_allow(&rules, OsKind::Osx));
}

#[test]
fn classpath_dedup_case_insensitive_target() {
    let items = strs(&["/a/b.jar", "/a/b.jar", "/A/B.JAR"]);
    assert_eq!(dedup_preserve_order(items, OsKind::Windows), strs(&["/a/b.jar"]));
}

#[test]
fn classpath_dedup_case_sensitive_target() {
    let items = strs(&["/a/b.jar", "/a/b.jar", "/A/B.JAR"]);
    assert_eq!(dedup_preserve_order(items, OsKind::Linux), strs(&["/a/b.jar", "/A/B.JAR"]));
}

#[test]
fn normalize_collapses_slashes() {
    assert_eq!(normalize_path_for_compare("  C:\\x\\\\y//z.jar ", OsKind::Linux), "C:/x/y/z.jar");
    assert_eq!(normalize_path_for_compare("C:\\X\\Y.JAR", OsKind::Windows), "c:/x/y.jar");
}

#[test]
fn timestamp_is_stripped() {
    assert_eq!(
        strip_game_timestamp("[14:03:04.930] [Render thread/INFO]: Hello"),
        "[Render thread/INFO]: Hello"
    );
}

#[test]
fn line_without_timestamp_is_unchanged() {
    assert_eq!(strip_game_timestamp("[Render thread/INFO]: Hello"), "[Render thread/INFO]: Hello");
    assert_eq!(strip_game_timestamp("plain line"), "plain line");
    assert_eq!(strip_game_timestamp("[2025-12-24 14:03:04] ok"), "ok");
}

#[test]
fn unresolved_flag_and_value_dropped_together() {
    let game = strs(&["--width", "${resolution_width}", "--demo"]);
    assert_eq!(filter_unresolved_game_args(game), strs(&["--demo"]));
}

#[test]
fn unresolved_plain_token_dropped() {
    let game = strs(&["--username", "Steve", "${unknown}", "--height", "480"]);
    assert_eq!(
        filter_unresolved_game_args(game),
        strs(&["--username", "Steve", "--height", "480"])
    );
}

#[test]
fn substitution_with_and_without_binding() {
    let vars = vec![(s("resolution_width"), s("854")), (s("user"), s("Steve"))];
    assert_eq!(substitute_vars("--w=${resolution_width}", &vars), "--w=854");
    assert_eq!(substitute_vars("${user}-${nope}-${user}", &vars), "Steve-${nope}-Steve");
    assert_eq!(substitute_vars("${unclosed", &vars), "${unclosed");
    let b = vec![(s("b"), s("B"))];
    assert_eq!(substitute_vars("${a${b}}", &b), "${aB}");
    assert_eq!(substitute_vars("$${b}x", &b), "$Bx");
    assert_eq!(substitute_vars("plain text", &b), "plain text");
    let none: Vec<(String, String)> = vec![];
    assert_eq!(substitute_vars("${resolution_width}", &none), "${resolution_width}");
}

#[test]
fn jvm_classpath_flags_are_dropped() {
    let jvm = strs(&["-cp", "x.jar", "-Da=1", "-classpath", "y", "${classpath}", "-Db=2"]);
    assert_eq!(filter_jvm_args(jvm), strs(&["-Da=1", "-Db=2"]));
}

#[test]
fn access_token_is_redacted() {
    let args = strs(&["--username", "Steve", "--accessToken", "secret", "--accessToken", "x"]);
    assert_eq!(
        redact_sensitive_args(&args),
        strs(&["--username", "Steve", "--accessToken", "<redacted>", "--accessToken", "x"])
    );
}

#[test]
fn presets_expand_in_order() {
    let mut a = strs(&["-Xmx4096M"]);
    append_jvm_preset_args(&mut a, "zgc_gen", 4096);
    assert_eq!(a, strs(&["-Xmx4096M", "-XX:+UseZGC", "-XX:+ZGenerational"]));
    let mut b: Vec<String> = vec![];
    append_jvm_preset_args(&mut b, "aikars", 6144);
    assert_eq!(b.len(), 19);
    assert_eq!(b[0], "-XX:+UseG1GC");
    assert_eq!(b[18], "-Xms6144M");
    let mut c: Vec<String> = vec![];
    append_jvm_preset_args(&mut c, "unknown", 1);
    assert!(c.is_empty());
}

#[test]
fn module_path_entries_deduplicated() {
    let jvm = strs(&["-p", "/l/a.jar:/l/b.jar: /l/a.jar :", "--add-modules", "ALL"]);
    assert_eq!(
        deduplicate_module_path_args(jvm.clone(), OsKind::Linux),
        strs(&["-p", "/l/a.jar:/l/b.jar", "--add-modules", "ALL"])
    );
    assert_eq!(
        extract_module_path_libraries(&jvm, OsKind::Linux),
        strs(&["/l/a.jar", "/l/b.jar", "/l/a.jar"])
    );
}

#[test]
fn classpath_conflicts_removed() {
    let libs = strs(&["/l/a.jar"]);
    assert_eq!(filter_classpath_conflicts("/l/a.jar:/l/c.jar", &libs, OsKind::Linux), "/l/c.jar");
    assert_eq!(filter_classpath_conflicts("/l/a.jar:/l/c.jar", &[], OsKind::Linux), "/l/a.jar:/l/c.jar");
}

#[test]
fn conditional_tokens_flattened() {
    let arr = vec![
        ArgumentValue::Simple(s("--a")),
        ArgumentValue::Complex(ComplexArgument {
            rules: vec![rule("allow", Some("linux"))],
            value: ArgumentString::Multiple(strs(&["-x", "-y"])),
        }),
        ArgumentValue::Complex(ComplexArgument {
            rules: vec![rule("allow", Some("windows"))],
            value: ArgumentString::Single(s("-win")),
        }),
    ];
    assert_eq!(flatten_argument_array(&arr, OsKind::Linux), strs(&["--a", "-x", "-y"]));
    assert_eq!(flatten_argument_array(&arr, OsKind::Windows), strs(&["--a", "-win"]));
}

#[test]
fn merge_child_over_parent() {
    let mut parent = empty_descriptor();
    parent.id = Some(s("1.21.1"));
    parent.main_class = Some(s("net.minecraft.client.main.Main"));
    parent.libraries = vec![lib("a:b:1")];
    parent.assets = Some(s("17"));
    parent.arguments.game = vec![ArgumentValue::Simple(s("--p"))];
    let mut child = empty_descriptor();
    child.id = Some(s("neoforge-21.1.77"));
    child.inherits_from = Some(s("1.21.1"));
    child.libraries = vec![lib("c:d:2")];
    child.arguments.game = vec![ArgumentValue::Simple(s("--c"))];
    let m = merge_version_json(parent, child);
    assert_eq!(m.id, Some(s("neoforge-21.1.77")));
    assert_eq!(m.main_class, Some(s("net.minecraft.client.main.Main")));
    assert_eq!(m.assets, Some(s("17")));
    let names: Vec<String> = m.libraries.iter().map(|l| l.name.clone()).collect();
    assert_eq!(names, strs(&["a:b:1", "c:d:2"]));
    assert_eq!(m.arguments.game.len(), 2);
}

#[test]
fn merged_chain_takes_nearest_main_class() {
    let mut root = empty_descriptor();
    root.main_class = Some(s("root.Main"));
    root.libraries = vec![lib("r:r:1")];
    let mut mid = empty_descriptor();
    mid.main_class = Some(s("mid.Main"));
    mid.libraries = vec![lib("m:m:1")];
    let mut leaf = empty_descriptor();
    leaf.libraries = vec![lib("l:l:1")];
    let merged = load_merged_version_json(vec![leaf, mid, root]).unwrap();
    assert_eq!(merged.main_class, Some(s("mid.Main")));
    let names: Vec<String> = merged.libraries.iter().map(|l| l.name.clone()).collect();
    assert_eq!(names, strs(&["r:r:1", "m:m:1", "l:l:1"]));
    assert!(load_merged_version_json(vec![]).is_none());
}

#[test]
fn classpath_skips_inherited_jar_for_bootstrap() {
    let mut d = empty_descriptor();
    d.inherits_from = Some(s("1.21.1"));
    d.main_class = Some(s("cpw.mods.bootstraplauncher.BootstrapLauncher"));
    d.libraries = vec![lib("org.example:artifact:1.0")];
    let cp = build_classpath_from_version_json(&d, "/lib", None, Some(s("/v/1.21.1.jar")), OsKind::Linux);
    assert_eq!(cp, strs(&["/lib/org/example/artifact/1.0/artifact-1.0.jar"]));
    d.main_class = Some(s("other.Main"));
    let cp = build_classpath_from_version_json(&d, "/lib/", None, Some(s("/v/1.21.1.jar")), OsKind::Linux);
    assert_eq!(cp, strs(&["/lib/org/example/artifact/1.0/artifact-1.0.jar", "/v/1.21.1.jar"]));
}

#[test]
fn natives_selected_for_platform() {
    let art = LibraryArtifact { path: s("n/lwjgl-natives-linux.jar"), sha1: None, size: None, url: s("u") };
    let mut l = lib("org.lwjgl:lwjgl:3.3.3");
    l.natives = Some(vec![(s("linux"), s("natives-linux"))]);
    l.downloads = Some(LibraryDownloads { artifact: None, classifiers: Some(vec![(s("natives-linux"), art)]) });
    l.extract = Some(ExtractRules { exclude: strs(&["META-INF/"]) });
    let mut d = empty_descriptor();
    d.libraries = vec![l];
    let jars = native_jars_for(&d, "/lib", OsKind::Linux);
    assert_eq!(jars.len(), 1);
    assert_eq!(jars[0].jar_path, "/lib/n/lwjgl-natives-linux.jar");
    assert_eq!(jars[0].excludes, strs(&["META-INF/"]));
    assert!(native_jars_for(&d, "/lib", OsKind::Windows).is_empty());
}

#[test]
fn jar_entries_filtered() {
    let ex = strs(&["org/lwjgl/"]);
    assert!(should_extract_entry("liblwjgl.so", &ex));
    assert!(!should_extract_entry("META-INF/MANIFEST.MF", &ex));
    assert!(!should_extract_entry("dir/", &ex));
    assert!(!should_extract_entry("org/lwjgl/x.class", &ex));
}

#[test]
fn launch_vector_has_one_cp_followed_by_classpath() {
    let mut d = empty_descriptor();
    d.main_class = Some(s("cpw.mods.bootstraplauncher.BootstrapLauncher"));
    d.inherits_from = Some(s("1.21.1"));
    d.libraries = vec![lib("net.neoforged:fancymodloader:1.0"), lib("net.neoforged:fancymodloader:1.0"), lib("a:b:2")];
    d.arguments.jvm = vec![
        ArgumentValue::Simple(s("-p")),
        ArgumentValue::Simple(s("${library_directory}/a/b/2/b-2.jar")),
        ArgumentValue::Simple(s("-cp")),
        ArgumentValue::Simple(s("${classpath}")),
    ];
    d.arguments.game = vec![
        ArgumentValue::Simple(s("--username")),
        ArgumentValue::Simple(s("${auth_player_name}")),
        ArgumentValue::Simple(s("--quickPlayPath")),
        ArgumentValue::Simple(s("${quickPlayPath}")),
        ArgumentValue::Simple(s("--width")),
        ArgumentValue::Simple(s("${resolution_width}")),
    ];
    let ctx = context();
    let args = build_args_from_version_json(&d, &ctx, "/lib", "/nat/v", None, Some(s("/v/1.21.1.jar")), OsKind::Linux).unwrap();
    let cp_positions: Vec<usize> = args.iter().enumerate().filter(|(_, a)| a.as_str() == "-cp").map(|(i, _)| i).collect();
    assert_eq!(cp_positions.len(), 1);
    let i = cp_positions[0];
    assert_eq!(args[i + 1], "/lib/net/neoforged/fancymodloader/1.0/fancymodloader-1.0.jar");
    assert_eq!(args[i + 2], "cpw.mods.bootstraplauncher.BootstrapLauncher");
    assert_eq!(
        args[..6].to_vec(),
        strs(&["-Xmx4096M", "-Dextra=1", "-XX:+UseZGC", "-Dcustom=1", "-Djava.library.path=/nat/v", "-p"])
    );
    assert_eq!(args[6], "/lib/a/b/2/b-2.jar");
    assert_eq!(args[i + 3..].to_vec(), strs(&["--username", "Steve", "--quickPlayPath", "", "--width", "854"]));
    assert_eq!(get_cp_sep(OsKind::Linux), ":");
}

#[test]
fn launch_fallback_game_args_and_missing_main_class() {
    let mut d = empty_descriptor();
    let ctx = context();
    assert!(matches!(
        build_args_from_version_json(&d, &ctx, "/lib", "/n", None, None, OsKind::Linux),
        Err(LaunchError::MissingMainClass)
    ));
    d.main_class = Some(s("M"));
    let args = build_args_from_version_json(&d, &ctx, "/lib", "/n", Some(s("/v/x.jar")), None, OsKind::Windows).unwrap();
    let i = args.iter().position(|a| a == "-cp").unwrap();
    assert_eq!(args[i + 1], "/v/x.jar");
    assert_eq!(args[i + 2], "M");
    assert_eq!(args[i + 3..].len(), 16);
    assert_eq!(args[i + 3], "--username");
    assert_eq!(args[args.len() - 1], "msa");
}
