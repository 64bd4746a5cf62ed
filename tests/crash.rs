use launcher_core::crash::analyze_log;

#[test]
fn out_of_memory_recognised() {
    let r = analyze_log("Exception: java.lang.OutOfMemoryError: heap").unwrap();
    assert_eq!(r.title, "Out of Memory");
}

#[test]
fn missing_dependency_names_the_mod() {
    let r = analyze_log("Mod foo requires   fabric_api of   fabric-api-1.0").unwrap();
    assert_eq!(r.title, "Missing Dependency");
    assert_eq!(r.description, "A mod requires 'fabric_api' to be installed.");
}

#[test]
fn amd_driver_needs_both_markers() {
    assert_eq!(
        analyze_log("EXCEPTION_ACCESS_VIOLATION in atio6axx.dll").unwrap().title,
        "Graphics Driver Crash (AMD)"
    );
    assert!(analyze_log("EXCEPTION_ACCESS_VIOLATION only").is_none());
}

#[test]
fn clean_log_has_no_report() {
    assert!(analyze_log("[Render thread/INFO]: Stopping!").is_none());
}
