use launcher_core::account::find_active_account;
use launcher_core::profile::find_profile;
use launcher_core::progress::{band_percent, should_emit};
use launcher_core::account::AccountStorage;
use launcher_core::profile::ProfileStorage;
use launcher_core::account::Account;
use launcher_core::fabric::MainClass;
use launcher_core::modpack::{CurseForgeModLoader, ModrinthDependencies};
use launcher_core::names::{get_unique_id, slugify, unique_id_from_base};
use launcher_core::paths::{
    get_game_data_dir, get_java_dir, get_libraries_dir, get_version_jar, get_version_json,
    launcher_directories, set_game_data_path, LauncherPaths,
};
use launcher_core::profile::{is_log_file, is_priority_file, is_screenshot, LauncherSettings, ModLoader};
use launcher_core::supervisor::{
    clear_presence, disconnect, presence_texts, PresenceAction, PresenceState, ProcessState,
    Supervisor,
};

fn s(x: &str) -> String {
    x.to_string()
}

#[test]
fn loader_ids_map_to_families() {
    let l = CurseForgeModLoader { id: s("NeoForge-21.1.77"), primary: true };
    let (kind, version) = l.to_mod_loader();
    assert_eq!(kind, ModLoader::NeoForge);
    assert_eq!(version, "21.1.77");
    let l = CurseForgeModLoader { id: s("forge-47.2.0"), primary: true };
    assert_eq!(l.to_mod_loader().0, ModLoader::Forge);
    let l = CurseForgeModLoader { id: s("liteloader"), primary: true };
    assert_eq!(l.to_mod_loader(), (ModLoader::Vanilla, String::new()));
}

#[test]
fn modpack_dependencies_pick_loader() {
    let d = ModrinthDependencies { minecraft: s("1.21.1"), fabric_loader: None, forge: None, neoforge: Some(s("21.1.77")), quilt_loader: Some(s("0.1")) };
    assert_eq!(d.get_loader(), (ModLoader::NeoForge, Some(s("21.1.77"))));
}

#[test]
fn main_class_client_side() {
    assert_eq!(MainClass::Simple(s("a.Main")).client(), "a.Main");
    assert_eq!(MainClass::Complex { client: s("c"), server: s("s") }.client(), "c");
}

#[test]
fn log_files_and_screenshots() {
    assert!(is_log_file("latest.log"));
    assert!(is_log_file("2024-01-01-1.log.gz"));
    assert!(!is_log_file("options.cfg"));
    assert!(is_priority_file("debug.log"));
    assert!(!is_priority_file("other.log"));
    assert!(is_screenshot("/i/p/screenshots/a.png", '/'));
    assert!(!is_screenshot("/i/p/screenshots/a.jpg", '/'));
    assert!(!is_screenshot("/i/p/shots/a.png", '/'));
}

#[test]
fn paths_follow_custom_data_root() {
    let mut p = LauncherPaths::new(s("/home/u/.launcher"));
    assert_eq!(get_libraries_dir(&p), "/home/u/.launcher/libraries");
    set_game_data_path(&mut p, Some(s("/data")));
    assert_eq!(get_game_data_dir(&p), "/data");
    assert_eq!(get_version_jar(&p, "1.21.1"), "/data/versions/1.21.1/1.21.1.jar");
    assert_eq!(get_version_json(&p, "1.21.1"), "/data/versions/1.21.1/1.21.1.json");
    assert_eq!(get_java_dir(&p, 21), "/data/runtimes/java-21");
    assert_eq!(launcher_directories(&p)[0], "/home/u/.launcher");
}

#[test]
fn ids_are_unique() {
    let taken = vec![s("my-pack"), s("my-pack-1")];
    assert_eq!(unique_id_from_base("my-pack", &taken), "my-pack-2");
    assert_eq!(get_unique_id("My Pack!", &taken), "my-pack-2");
    assert_eq!(slugify("  Hello,  World "), "hello-world");
    assert_eq!(slugify("???").len(), 36);
}

#[test]
fn supervisor_lifecycle() {
    let mut sv = Supervisor::new(s("pack"));
    let started = sv.spawned(Some(42));
    assert!(started.is_running);
    assert_eq!(started.profile_id, "pack");
    assert_eq!(started.pid, Some(42));
    assert!(sv.is_running());
    let done = sv.exited(Some(1));
    assert!(done.scan_for_crash);
    assert_eq!(done.signal.pid, None);
    assert_eq!(done.signal.profile_id, "pack");
    assert!(!done.signal.is_running);
    assert_eq!(sv.state, ProcessState::Exited { code: Some(1) });
    let mut sv = Supervisor::new(s("other"));
    sv.spawned(None);
    assert!(!sv.exited(Some(0)).scan_for_crash);
}

#[test]
fn presence_decisions() {
    let mut st = PresenceState { connected: true };
    assert_eq!(clear_presence(&st), PresenceAction::ShowIdle);
    assert_eq!(disconnect(&mut st), PresenceAction::Close);
    assert_eq!(disconnect(&mut st), PresenceAction::Nothing);
    let (details, state) = presence_texts("Pack", "1.21.1", "Vanilla");
    assert_eq!(details, "Playing Pack");
    assert_eq!(state, "Minecraft 1.21.1");
    assert_eq!(presence_texts("Pack", "1.21.1", "NeoForge").1, "1.21.1 \u{2022} NeoForge");
}

#[test]
fn account_expiry() {
    let a = Account { uuid: s("u"), username: s("n"), access_token: s("t"), refresh_token: s("r"), expires_at: 1000, is_active: true, skin_url: None };
    assert!(a.is_expired(1000));
    assert!(!a.is_expired(999));
    assert!(a.needs_refresh(700));
    assert!(!a.needs_refresh(699));
}

#[test]
fn initial_settings() {
    let st = LauncherSettings::initial(16384);
    assert_eq!(st.default_max_memory, 10240);
    assert_eq!(st.theme, "dark");
    assert_eq!(st.skin_pose, "cool");
}

#[test]
fn progress_bands_and_throttle() {
    assert_eq!(band_percent(0, 10, 50, 90), 50);
    assert_eq!(band_percent(5, 10, 50, 90), 70);
    assert_eq!(band_percent(10, 10, 50, 90), 90);
    assert!(should_emit(100, 50, 10, 10));
    assert!(!should_emit(120, 50, 3, 10));
    assert!(should_emit(150, 50, 3, 10));
}

#[test]
fn empty_storages() {
    assert!(AccountStorage::default().accounts.is_empty());
    assert!(ProfileStorage::default().profiles.is_empty());
    assert_eq!(ModLoader::default(), ModLoader::Vanilla);
    assert_eq!(ModLoader::NeoForge.as_str(), "neoforge");
}

#[test]
fn lookups_in_state() {
    let acc = |name: &str, active: bool| Account { uuid: s("u"), username: s(name), access_token: s("t"), refresh_token: s("r"), expires_at: 0, is_active: active, skin_url: None };
    assert_eq!(find_active_account(&[acc("a", false), acc("b", true), acc("c", true)]), Some(1));
    assert_eq!(find_active_account(&[acc("a", false)]), None);
    let mut st = ProfileStorage::default();
    assert_eq!(find_profile(&st.profiles, "x"), None);
    st.profiles.push(launcher_core::session::new_profile(
        launcher_core::profile::CreateProfileRequest {
            name: s("X"),
            version: s("1.21.1"),
            loader: ModLoader::Vanilla,
            loader_version: None,
            source_id: None,
            modpack_version: None,
            jvm_preset: None,
            custom_jvm_args: None,
        },
        s("x"),
    ));
    assert_eq!(find_profile(&st.profiles, "x"), Some(0));
}
