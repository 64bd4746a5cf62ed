//! The host platform as a value: its key in descriptors, its classpath
//! separator and whether its file system ignores case.

use vstd::prelude::*;

verus! {

/// The operating systems that descriptors distinguish.
#[derive(Clone, Copy, Debug, PartialEq, Eq, Structural)]
pub enum OsKind {
    Windows,
    Osx,
    Linux,
}

/// The key that descriptors use for `os`.
pub open spec fn os_key(os: OsKind) -> Seq<char> {
    match os {
        OsKind::Windows => "windows"@,
        OsKind::Osx => "osx"@,
        OsKind::Linux => "linux"@,
    }
}

/// The separator between classpath and module-path entries on `os`.
pub open spec fn cp_sep_char(os: OsKind) -> char {
    match os {
        OsKind::Windows => ';',
        _ => ':',
    }
}

/// Whether paths on `os` compare without regard to case.
pub open spec fn case_insensitive(os: OsKind) -> bool {
    os == OsKind::Windows
}

/// The descriptor key of `os`.
pub fn current_os_key(os: OsKind) -> (r: &'static str)
    ensures
        r@ == os_key(os),
{
    match os {
        OsKind::Windows => "windows",
        OsKind::Osx => "osx",
        OsKind::Linux => "linux",
    }
}

/// Whether a rule's OS name designates `os`.
pub fn matches_os_name(name: &str, os: OsKind) -> (r: bool)
    ensures
        r == (name@ == os_key(os)),
{
    crate::text::str_eq(name, current_os_key(os))
}

/// The classpath separator of `os`, as a character.
pub fn cp_sep(os: OsKind) -> (r: char)
    ensures
        r == cp_sep_char(os),
{
    match os {
        OsKind::Windows => ';',
        _ => ':',
    }
}

/// The classpath separator of `os`, as a string of one character.
pub fn get_cp_sep(os: OsKind) -> (r: &'static str)
    ensures
        r@ == seq![cp_sep_char(os)],
{
    proof {
        reveal_strlit(";");
        reveal_strlit(":");
    }
    match os {
        OsKind::Windows => ";",
        _ => ":",
    }
}

} // verus!
