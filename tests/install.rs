use launcher_core::plan::{libraries_outcome, InstallError};
use launcher_core::versions::parse_java_major;
use launcher_core::models::{LatestVersions, VersionInfo, VersionManifest};
use launcher_core::plan::find_version_info;
use launcher_core::download::{
    already_satisfied, digest_matches, judge_download, progress_file_name, AttemptOutcome,
    DownloadError, DownloadTask, ExistingFile, RetryDecision, RetryState,
};
use launcher_core::maven::{
    append_classifier_to_maven_coord, join_base_and_rel_url, maven_to_path,
    neoforge_installer_maven_path,
};
use launcher_core::models::{Library, LibraryArtifact, LibraryDownloads};
use launcher_core::plan::{plan_library_downloads, select_missing};
use launcher_core::platform::OsKind;
use launcher_core::versions::{
    calculate_default_max_memory, compare_version_desc, extract_versions_from_maven_metadata,
    is_stable_version, latest_stable_for_mc, mc_to_neoforge_prefix, parse_i64,
    required_java_major_for_mc, VersionError,
};
use std::cmp::Ordering;

fn s(x: &str) -> String {
    x.to_string()
}

fn task(sha1: Option<&str>, size: Option<u64>) -> DownloadTask {
    DownloadTask { url: s("http://h/f.jar"), path: s("/lib/f.jar"), size, sha1: sha1.map(s), sha512: None }
}

fn mismatch() -> AttemptOutcome {
    AttemptOutcome::Mismatch(DownloadError::HashMismatch { expected: s("aa"), actual: s("bb") })
}

#[test]
fn populated_store_needs_no_fetch() {
    let t = task(Some("ABCDEF"), Some(10));
    let present = ExistingFile::Present { sha1_hex: Some(s("abcdef")), sha512_hex: None, size: 3 };
    assert!(already_satisfied(&t, &present));
    assert!(!already_satisfied(&t, &ExistingFile::Missing));
    let stale = ExistingFile::Present { sha1_hex: Some(s("000000")), sha512_hex: None, size: 10 };
    assert!(!already_satisfied(&t, &stale));
    let by_size = task(None, Some(10));
    assert!(already_satisfied(&by_size, &stale));
    assert!(!already_satisfied(&task(None, None), &stale));
}

#[test]
fn digest_compare_ignores_ascii_case() {
    assert!(digest_matches("DeadBeef", "deadbeef"));
    assert!(!digest_matches("deadbee", "deadbeef"));
}

#[test]
fn retry_succeeds_on_third_attempt() {
    let mut st = RetryState::new();
    assert!(matches!(st.on_attempt(mismatch()), RetryDecision::RetryAfter { delay_ms: 500 }));
    assert!(matches!(st.on_attempt(mismatch()), RetryDecision::RetryAfter { delay_ms: 1000 }));
    assert!(matches!(st.on_attempt(AttemptOutcome::Verified), RetryDecision::Succeeded));
}

#[test]
fn retry_exhausted_after_three_mismatches() {
    let mut st = RetryState::new();
    st.on_attempt(mismatch());
    st.on_attempt(mismatch());
    match st.on_attempt(mismatch()) {
        RetryDecision::GiveUp(DownloadError::RetryExhausted { attempts, message }) => {
            assert_eq!(attempts, 3);
            assert_eq!(message, "Hash mismatch: expected aa, got bb");
        }
        _ => panic!("expected exhaustion"),
    }
}

#[test]
fn error_messages() {
    assert_eq!(DownloadError::Http(s("404")).message(), "HTTP error: 404");
    assert_eq!(DownloadError::Io(s("denied")).message(), "IO error: denied");
    assert_eq!(
        DownloadError::RetryExhausted { attempts: 3, message: s("x") }.message(),
        "Download failed after 3 attempts: x"
    );
}

#[test]
fn fresh_download_judged_by_digest() {
    let t = task(Some("aa"), None);
    assert!(matches!(judge_download(&t, Some(s("AA")), None), AttemptOutcome::Verified));
    match judge_download(&t, Some(s("bb")), None) {
        AttemptOutcome::Mismatch(DownloadError::HashMismatch { expected, actual }) => {
            assert_eq!(expected, "aa");
            assert_eq!(actual, "bb");
        }
        _ => panic!("expected mismatch"),
    }
}

#[test]
fn progress_name_is_last_segment() {
    assert_eq!(progress_file_name("/lib/a/b/c.jar"), "c.jar");
    assert_eq!(progress_file_name("c.jar"), "c.jar");
}

#[test]
fn maven_paths() {
    assert_eq!(maven_to_path("org.example:artifact:1.0").unwrap(), "org/example/artifact/1.0/artifact-1.0.jar");
    assert_eq!(
        maven_to_path("org.lwjgl:lwjgl:3.3.3:natives-windows@jar").unwrap(),
        "org/lwjgl/lwjgl/3.3.3/lwjgl-3.3.3-natives-windows.jar"
    );
    assert_eq!(maven_to_path("a.b:c:1:cls:zip").unwrap(), "a/b/c/1/c-1-cls.zip");
    assert_eq!(maven_to_path("a:b:1@txt").unwrap(), "a/b/1/b-1.txt");
    assert!(maven_to_path("a:b").is_none());
}

#[test]
fn classifier_coordinates() {
    assert_eq!(append_classifier_to_maven_coord("a:b:1", "natives-linux").unwrap(), "a:b:1:natives-linux");
    assert_eq!(append_classifier_to_maven_coord("a:b:1@zip", "c").unwrap(), "a:b:1:c@zip");
    assert_eq!(append_classifier_to_maven_coord("a:b:1:x:ext", "c").unwrap(), "a:b:1:c@ext");
    assert!(append_classifier_to_maven_coord("a", "c").is_none());
}

#[test]
fn urls_and_installer_path() {
    assert_eq!(join_base_and_rel_url("https://m/", "a/b.jar"), "https://m/a/b.jar");
    assert_eq!(join_base_and_rel_url("https://m", "a/b.jar"), "https://m/a/b.jar");
    assert_eq!(
        neoforge_installer_maven_path("21.1.77"),
        "net/neoforged/neoforge/21.1.77/neoforge-21.1.77-installer.jar"
    );
}

#[test]
fn library_plan_dedups_destinations() {
    let art = LibraryArtifact { path: s("x/y.jar"), sha1: Some(s("ff")), size: Some(5), url: s("https://r/x/y.jar") };
    let direct = Library {
        name: s("x:y:1"),
        downloads: Some(LibraryDownloads { artifact: Some(art), classifiers: None }),
        url: None,
        rules: vec![],
        natives: None,
        extract: None,
    };
    let by_coord = Library { name: s("g.h:i:2"), downloads: None, url: Some(s("https://maven.example")), rules: vec![], natives: None, extract: None };
    let plan = plan_library_downloads(&[direct.clone(), by_coord, direct], "/lib", OsKind::Linux);
    assert_eq!(plan.len(), 2);
    assert_eq!(plan[0].path, "/lib/x/y.jar");
    assert_eq!(plan[0].sha1, Some(s("ff")));
    assert_eq!(plan[1].url, "https://maven.example/g/h/i/2/i-2.jar");
    assert_eq!(plan[1].path, "/lib/g/h/i/2/i-2.jar");
    let missing = select_missing(plan, &[true, false]);
    assert_eq!(missing.len(), 1);
    assert_eq!(missing[0].path, "/lib/g/h/i/2/i-2.jar");
}

#[test]
fn version_order_and_stability() {
    assert_eq!(compare_version_desc("21.1.77", "21.1.9"), Ordering::Less);
    assert_eq!(compare_version_desc("21.1", "21.1.0"), Ordering::Greater);
    assert_eq!(compare_version_desc("1.2", "1.2"), Ordering::Equal);
    assert!(is_stable_version("21.1.77"));
    assert!(!is_stable_version("21.1.0-Beta"));
    assert_eq!(parse_i64("-42"), Some(-42));
    assert_eq!(parse_i64("+7"), Some(7));
    assert_eq!(parse_i64("9223372036854775808"), None);
    assert_eq!(parse_i64("x1"), None);
}

#[test]
fn latest_stable_from_metadata() {
    let xml = "<metadata><versioning><versions><version>21.1.9</version><version>21.1.77</version>\
               <version>21.1.80-beta</version><version>21.10.1</version><version> 20.4.1 </version>\
               </versions></versioning></metadata>";
    assert_eq!(
        extract_versions_from_maven_metadata(xml),
        vec![s("21.1.9"), s("21.1.77"), s("21.1.80-beta"), s("21.10.1"), s("20.4.1")]
    );
    assert_eq!(latest_stable_for_mc(xml, "1.21.1").unwrap(), "21.1.77");
    assert!(matches!(latest_stable_for_mc(xml, "1.19.2"), Err(VersionError::NoStableVersion { .. })));
    assert!(matches!(latest_stable_for_mc(xml, "1.21"), Err(VersionError::InvalidGameVersion(_))));
    assert_eq!(mc_to_neoforge_prefix("1.21.1").unwrap(), "21.1");
}

#[test]
fn java_major_rule() {
    assert_eq!(required_java_major_for_mc("1.21.1"), Some(21));
    assert_eq!(required_java_major_for_mc("1.20.5"), Some(21));
    assert_eq!(required_java_major_for_mc("1.20.4"), Some(17));
    assert_eq!(required_java_major_for_mc("1.18"), Some(17));
    assert_eq!(required_java_major_for_mc("1"), None);
}

#[test]
fn default_memory_by_system_memory() {
    assert_eq!(calculate_default_max_memory(32768), 14336);
    assert_eq!(calculate_default_max_memory(16384), 10240);
    assert_eq!(calculate_default_max_memory(8192), 6144);
    assert_eq!(calculate_default_max_memory(4000), 4096);
}

#[test]
fn java_major_from_version_output() {
    assert_eq!(parse_java_major("openjdk version \"21.0.1\" 2023-10-17\nOpenJDK Runtime"), Some(21));
    assert_eq!(parse_java_major("java version \"1.8.0_381\""), Some(1));
    assert_eq!(parse_java_major("no version here"), None);
}

#[test]
fn manifest_lookup() {
    let info = |id: &str| VersionInfo {
        id: s(id),
        version_type: s("release"),
        url: s("u"),
        time: s("t"),
        release_time: s("t"),
        sha1: s("h"),
        compliance_level: None,
    };
    let m = VersionManifest { latest: LatestVersions { release: s("1.21.1"), snapshot: s("x") }, versions: vec![info("1.21.1"), info("1.20.4")] };
    assert_eq!(find_version_info(&m, "1.20.4"), Some(1));
    assert_eq!(find_version_info(&m, "9.9"), None);
}

#[test]
fn reconciliation_outcome() {
    assert!(libraries_outcome(&[Ok(()), Ok(())]).is_ok());
    let r = libraries_outcome(&[Ok(()), Err(DownloadError::Http(s("x"))), Err(DownloadError::Io(s("y")))]);
    match r {
        Err(e @ InstallError::LibrariesFailed { failed: 2 }) => assert_eq!(e.message(), "Some NeoForge libraries failed to download"),
        _ => panic!("expected two failures"),
    }
}
