//! Recognition of known crash signatures in a game log, for the report
//! shown after an abnormal exit.

use vstd::prelude::*;
use crate::names::{regex_group, regex_group_of, regex_valid};
use crate::profile::CrashReport;
use crate::text::{concat3, contains_seq, contains_str};

verus! {

/// The pattern of a missing-dependency message; group 1 is the mod.
pub open spec fn missing_dep_pattern() -> Seq<char> {
    "requires\\s+([a-zA-Z0-9_]+)\\s+of\\s+([a-zA-Z0-9_\\-\\.]+)"@
}

pub open spec fn oom(log: Seq<char>) -> bool {
    contains_seq(log, "java.lang.OutOfMemoryError"@) || contains_seq(log, "Out of memory"@)
}

pub open spec fn class_version(log: Seq<char>) -> bool {
    contains_seq(log, "UnsupportedClassVersionError"@) || contains_seq(
        log,
        "has been compiled by a more recent version"@,
    )
}

pub open spec fn mixin(log: Seq<char>) -> bool {
    contains_seq(log, "Mixin apply failed"@) || contains_seq(
        log,
        "org.spongepowered.asm.mixin.transformer.throwables.MixinTransformerError"@,
    )
}

pub open spec fn incompatible(log: Seq<char>) -> bool {
    contains_seq(
        log,
        "net.fabricmc.loader.impl.FormattedException: Mod resolution encountered an incompatible mod"@,
    )
}

pub open spec fn amd_driver(log: Seq<char>) -> bool {
    contains_seq(log, "EXCEPTION_ACCESS_VIOLATION"@) && contains_seq(log, "atio6axx.dll"@)
}

/// The description of a missing-dependency report: the mod named by the
/// pattern's first group, or `Unknown`.
pub open spec fn missing_dep_description(log: Seq<char>) -> Option<Seq<char>> {
    match regex_group_of(missing_dep_pattern(), log, 1) {
        Some(g) => Some("A mod requires '"@ + match g {
            Some(name) => name,
            None => "Unknown"@,
        } + "' to be installed."@),
        None => None,
    }
}

/// The title of the report for a log, if a signature is recognised; the
/// pattern check needs the pattern to compile, else the scan gives up.
pub open spec fn crash_title(log: Seq<char>) -> Option<Seq<char>> {
    if oom(log) {
        Some("Out of Memory"@)
    } else if class_version(log) {
        Some("Java Version Mismatch"@)
    } else if mixin(log) {
        Some("Mod Incompatibility (Mixin)"@)
    } else if !regex_valid(missing_dep_pattern()) {
        None
    } else if regex_group_of(missing_dep_pattern(), log, 1) is Some {
        Some("Missing Dependency"@)
    } else if incompatible(log) {
        Some("Incompatible Mod"@)
    } else if amd_driver(log) {
        Some("Graphics Driver Crash (AMD)"@)
    } else {
        None
    }
}

fn report(title: &str, description: &str, solution: &str) -> (r: CrashReport)
    ensures
        r.title@ == title@,
        r.description@ == description@,
        r.solution@ == solution@,
{
    CrashReport {
        title: String::from_str(title),
        description: String::from_str(description),
        solution: String::from_str(solution),
    }
}

/// Scans a log for a known crash signature and describes it with advice.
/// For a missing dependency the description names the mod (`Unknown` if
/// the pattern's group is absent).
pub fn analyze_log(log_content: &str) -> (r: Option<CrashReport>)
    ensures
        match r {
            Some(c) => crash_title(log_content@) == Some(c.title@),
            None => crash_title(log_content@) is None,
        },
        !oom(log_content@) && !class_version(log_content@) && !mixin(log_content@) && regex_valid(
            missing_dep_pattern(),
        ) && missing_dep_description(log_content@) is Some ==> (r matches Some(c) && Some(
            c.description@,
        ) == missing_dep_description(log_content@)),
{
    let log = log_content;
    if contains_str(log, "java.lang.OutOfMemoryError") || contains_str(log, "Out of memory") {
        return Some(report(
            "Out of Memory",
            "The game ran out of dedicated RAM.",
            "Increase the maximum memory allocation in Settings. We recommend at least 4GB for modern modpacks, or 6-8GB for large packs.",
        ));
    }
    if contains_str(log, "UnsupportedClassVersionError") || contains_str(log, "has been compiled by a more recent version") {
        return Some(report(
            "Java Version Mismatch",
            "A mod requires a newer version of Java than what is currently used.",
            "Go to Settings and ensure you are using the correct Java version. For older versions (1.16 and below) use Java 8/11. For 1.17+, use Java 17 or 21/25.",
        ));
    }
    if contains_str(log, "Mixin apply failed") || contains_str(log, "org.spongepowered.asm.mixin.transformer.throwables.MixinTransformerError") {
        return Some(report(
            "Mod Incompatibility (Mixin)",
            "A core mod failed to apply its changes to the game code.",
            "This is usually caused by conflicting mods. Check if you have duplicate versions of the same mod or incompatible optimization mods (like OptiFine with Sodium/Rubidium).",
        ));
    }
    let found = match regex_group("requires\\s+([a-zA-Z0-9_]+)\\s+of\\s+([a-zA-Z0-9_\\-\\.]+)", log, 1) {
        Some(f) => f,
        None => {
            return None;
        },
    };
    if let Some(group) = found {
        let name = match group {
            Some(n) => n,
            None => String::from_str("Unknown"),
        };
        let mut crash = report(
            "Missing Dependency",
            "",
            "Please look for the missing mod on CurseForge/Modrinth and add it to your profile.",
        );
        crash.description = concat3("A mod requires '", name.as_str(), "' to be installed.");
        return Some(crash);
    }
    if contains_str(log, "net.fabricmc.loader.impl.FormattedException: Mod resolution encountered an incompatible mod") {
        return Some(report(
            "Incompatible Mod",
            "Fabric Loader found an incompatible mod.",
            "Read the error log closely usually listed just below 'Incompatible mod'. Remove the conflicting mod.",
        ));
    }
    if contains_str(log, "EXCEPTION_ACCESS_VIOLATION") && contains_str(log, "atio6axx.dll") {
        return Some(report(
            "Graphics Driver Crash (AMD)",
            "AMD OpenGL driver crash detected.",
            "Update your AMD graphics drivers. If that doesn't work, try allocating LESS RAM (weirdly enough) or disable Mipmaps in options.txt.",
        ));
    }
    None
}

} // verus!
