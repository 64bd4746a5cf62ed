//! Argument templates: flattening rule-gated tokens, dropping conflicting
//! or unresolved arguments, JVM presets and console-line cleanup.

use vstd::prelude::*;
use crate::models::{ArgumentString, ArgumentValue, Arguments};
use crate::platform::OsKind;
use crate::rules::{rules_allow, rules_allow_spec};
use crate::text::{
    chars_of, contains_seq, contains_str, find_char, first_index, str_eq, trim_start_seq,
    trim_start_str, views, slice_string, decimal, decimal_string, concat3, find_char_from, string_of,
};

verus! {

/// The strings that one token contributes on `os`.
pub open spec fn token_strings(t: ArgumentValue, os: OsKind) -> Seq<Seq<char>> {
    match t {
        ArgumentValue::Simple(s) => seq![s@],
        ArgumentValue::Complex(c) => if rules_allow_spec(c.rules@, os) {
            match c.value {
                ArgumentString::Single(s) => seq![s@],
                ArgumentString::Multiple(v) => views(v@),
            }
        } else {
            Seq::empty()
        },
    }
}

/// The strings of a token list on `os`, in order.
pub open spec fn flatten_spec(ts: Seq<ArgumentValue>, os: OsKind) -> Seq<Seq<char>>
    decreases ts.len(),
{
    if ts.len() == 0 {
        Seq::empty()
    } else {
        flatten_spec(ts.drop_last(), os) + token_strings(ts.last(), os)
    }
}

/// Flattens a token list: literals pass, conditional tokens contribute
/// their value(s) only when their rules allow on `os`.
pub fn flatten_argument_array(arr: &[ArgumentValue], os: OsKind) -> (r: Vec<String>)
    ensures
        views(r@) == flatten_spec(arr@, os),
{
    let mut out: Vec<String> = Vec::new();
    let mut i: usize = 0;
    while i < arr.len()
        invariant
            i <= arr.len(),
            views(out@) == flatten_spec(arr@.subrange(0, i as int), os),
        decreases arr.len() - i,
    {
        let ghost before = views(out@);
        proof {
            assert(arr@.subrange(0, i + 1).drop_last() =~= arr@.subrange(0, i as int));
        }
        match &arr[i] {
            ArgumentValue::Simple(s) => {
                out.push(s.clone());
                proof {
                    assert(views(out@) =~= before + seq![s@]);
                }
            },
            ArgumentValue::Complex(c) => {
                if rules_allow(c.rules.as_slice(), os) {
                    match &c.value {
                        ArgumentString::Single(s) => {
                            out.push(s.clone());
                            proof {
                                assert(views(out@) =~= before + seq![s@]);
                            }
                        },
                        ArgumentString::Multiple(v) => {
                            let mut k: usize = 0;
                            while k < v.len()
                                invariant
                                    k <= v.len(),
                                    views(out@) == before + views(v@.subrange(0, k as int)),
                                decreases v.len() - k,
                            {
                                let ghost mid = out@;
                                let item = v[k].clone();
                                out.push(item);
                                k += 1;
                                proof {
                                    assert(v@.subrange(0, k as int) =~= v@.subrange(0, k - 1).push(item));
                                    assert(views(v@.subrange(0, k as int)) =~= views(v@.subrange(0, k - 1)).push(item@));
                                    assert(views(out@) =~= views(mid).push(item@));
                                    assert(views(out@) =~= before + views(v@.subrange(0, k as int)));
                                }
                            }
                            proof {
                                assert(v@.subrange(0, v@.len() as int) =~= v@);
                            }
                        },
                    }
                } else {
                    proof {
                        assert(views(out@) =~= before + Seq::<Seq<char>>::empty());
                    }
                }
            },
        }
        i += 1;
    }
    proof {
        assert(arr@.subrange(0, arr@.len() as int) =~= arr@);
    }
    out
}

/// The JVM and game argument strings of `args` on `os`.
pub fn extract_arguments(args: &Arguments, os: OsKind) -> (r: (Vec<String>, Vec<String>))
    ensures
        views(r.0@) == flatten_spec(args.jvm@, os),
        views(r.1@) == flatten_spec(args.game@, os),
{
    (flatten_argument_array(args.jvm.as_slice(), os), flatten_argument_array(args.game.as_slice(), os))
}

/// JVM arguments without any classpath flag and its value, and without
/// tokens that still hold a classpath placeholder.
pub open spec fn filter_jvm_spec(a: Seq<Seq<char>>) -> Seq<Seq<char>>
    decreases a.len(),
{
    if a.len() == 0 {
        Seq::empty()
    } else if a[0] == "-cp"@ || a[0] == "-classpath"@ {
        if a.len() >= 2 {
            filter_jvm_spec(a.subrange(2, a.len() as int))
        } else {
            Seq::empty()
        }
    } else if contains_seq(a[0], "${classpath}"@) {
        filter_jvm_spec(a.drop_first())
    } else {
        seq![a[0]] + filter_jvm_spec(a.drop_first())
    }
}

/// The template's own classpath flags never survive: no `-cp` or
/// `-classpath` is left after filtering.
pub proof fn lemma_filter_jvm_drops_classpath_flags(a: Seq<Seq<char>>)
    ensures
        forall|i: int| 0 <= i < filter_jvm_spec(a).len() ==> #[trigger] filter_jvm_spec(a)[i] != "-cp"@
            && filter_jvm_spec(a)[i] != "-classpath"@,
    decreases a.len(),
{
    if a.len() > 0 {
        if a[0] == "-cp"@ || a[0] == "-classpath"@ {
            if a.len() >= 2 {
                lemma_filter_jvm_drops_classpath_flags(a.subrange(2, a.len() as int));
                assert(filter_jvm_spec(a) == filter_jvm_spec(a.subrange(2, a.len() as int)));
            } else {
                assert(filter_jvm_spec(a).len() == 0);
            }
        } else {
            lemma_filter_jvm_drops_classpath_flags(a.drop_first());
            if contains_seq(a[0], "${classpath}"@) {
                assert(filter_jvm_spec(a) == filter_jvm_spec(a.drop_first()));
            }
            if !contains_seq(a[0], "${classpath}"@) {
                let r = filter_jvm_spec(a.drop_first());
                assert(filter_jvm_spec(a) == seq![a[0]] + r);
                assert forall|i: int| 0 <= i < filter_jvm_spec(a).len() implies #[trigger] filter_jvm_spec(a)[i] != "-cp"@
                    && filter_jvm_spec(a)[i] != "-classpath"@ by {
                    if i > 0 {
                        assert(filter_jvm_spec(a)[i] == r[i - 1]);
                    } else {
                        assert(filter_jvm_spec(a)[0] == a[0]);
                    }
                }
            }
        }
    }
}

/// Drops the template's own classpath flags (the assembler supplies one).
pub fn filter_jvm_args(args: Vec<String>) -> (r: Vec<String>)
    ensures
        views(r@) == filter_jvm_spec(views(args@)),
{
    let ghost a = views(args@);
    let mut out: Vec<String> = Vec::new();
    let mut i: usize = 0;
    proof {
        assert(a.subrange(0, a.len() as int) =~= a);
        assert(views(out@) + a =~= a);
    }
    while i < args.len()
        invariant
            a == views(args@),
            i <= args.len(),
            views(out@) + filter_jvm_spec(a.subrange(i as int, a.len() as int)) == filter_jvm_spec(a),
        decreases args.len() - i,
    {
        let ghost rest = a.subrange(i as int, a.len() as int);
        let ghost before = views(out@);
        let s = args[i].as_str();
        assert(rest[0] == s@);
        if str_eq(s, "-cp") || str_eq(s, "-classpath") {
            if i + 1 < args.len() {
                proof {
                    assert(rest.subrange(2, rest.len() as int) =~= a.subrange(i + 2, a.len() as int));
                }
                i += 2;
            } else {
                proof {
                    assert(a.subrange(args.len() as int, a.len() as int) =~= Seq::<Seq<char>>::empty());
                }
                i += 1;
            }
        } else if contains_str(s, "${classpath}") {
            proof {
                assert(rest.drop_first() =~= a.subrange(i + 1, a.len() as int));
            }
            i += 1;
        } else {
            out.push(args[i].clone());
            proof {
                assert(rest.drop_first() =~= a.subrange(i + 1, a.len() as int));
                assert(views(out@) =~= before + seq![s@]);
            }
            i += 1;
        }
    }
    proof {
        assert(a.subrange(a.len() as int, a.len() as int) =~= Seq::<Seq<char>>::empty());
        assert(views(out@) + Seq::<Seq<char>>::empty() =~= views(out@));
    }
    out
}

/// The game flags that take a value in the next token.
pub open spec fn value_flag(s: Seq<char>) -> bool {
    ||| s == "--width"@
    ||| s == "--height"@
    ||| s == "--clientId"@
    ||| s == "--xuid"@
    ||| s == "--versionType"@
    ||| s == "--quickPlayPath"@
    ||| s == "--quickPlaySingleplayer"@
    ||| s == "--quickPlayMultiplayer"@
    ||| s == "--quickPlayRealms"@
}

/// Whether a token still holds a placeholder.
pub open spec fn unresolved(s: Seq<char>) -> bool {
    contains_seq(s, "${"@)
}

/// Game arguments without unresolved tokens; a value-taking flag goes
/// together with its value when either is unresolved.
pub open spec fn filter_unresolved_spec(a: Seq<Seq<char>>) -> Seq<Seq<char>>
    decreases a.len(),
{
    if a.len() == 0 {
        Seq::empty()
    } else if value_flag(a[0]) && a.len() >= 2 && (unresolved(a[0]) || unresolved(a[1])) {
        filter_unresolved_spec(a.subrange(2, a.len() as int))
    } else if unresolved(a[0]) {
        filter_unresolved_spec(a.drop_first())
    } else {
        seq![a[0]] + filter_unresolved_spec(a.drop_first())
    }
}

fn is_value_flag(s: &str) -> (r: bool)
    ensures
        r == value_flag(s@),
{
    str_eq(s, "--width") || str_eq(s, "--height") || str_eq(s, "--clientId") || str_eq(s, "--xuid")
        || str_eq(s, "--versionType") || str_eq(s, "--quickPlayPath") || str_eq(
        s,
        "--quickPlaySingleplayer",
    ) || str_eq(s, "--quickPlayMultiplayer") || str_eq(s, "--quickPlayRealms")
}

/// Drops game arguments that still hold a placeholder, and value-taking
/// flags whose value is unresolved, so no flag is left without its value.
pub fn filter_unresolved_game_args(game_args: Vec<String>) -> (r: Vec<String>)
    ensures
        views(r@) == filter_unresolved_spec(views(game_args@)),
{
    let ghost a = views(game_args@);
    let mut out: Vec<String> = Vec::new();
    let mut i: usize = 0;
    proof {
        assert(a.subrange(0, a.len() as int) =~= a);
        assert(views(out@) + a =~= a);
    }
    while i < game_args.len()
        invariant
            a == views(game_args@),
            i <= game_args.len(),
            views(out@) + filter_unresolved_spec(a.subrange(i as int, a.len() as int))
                == filter_unresolved_spec(a),
        decreases game_args.len() - i,
    {
        let ghost rest = a.subrange(i as int, a.len() as int);
        let ghost before = views(out@);
        let s = game_args[i].as_str();
        assert(rest[0] == s@);
        proof {
            assert(rest.drop_first() =~= a.subrange(i + 1, a.len() as int));
        }
        let unres = contains_str(s, "${");
        if is_value_flag(s) && i + 1 < game_args.len() && (unres || contains_str(
            game_args[i + 1].as_str(),
            "${",
        )) {
            proof {
                assert(rest[1] == game_args@[i + 1]@);
                assert(rest.subrange(2, rest.len() as int) =~= a.subrange(i + 2, a.len() as int));
            }
            i += 2;
        } else if unres {
            i += 1;
        } else {
            out.push(game_args[i].clone());
            proof {
                assert(views(out@) =~= before + seq![s@]);
            }
            i += 1;
        }
    }
    proof {
        assert(a.subrange(a.len() as int, a.len() as int) =~= Seq::<Seq<char>>::empty());
        assert(views(out@) + Seq::<Seq<char>>::empty() =~= views(out@));
    }
    out
}

/// Index of the first element of `a` equal to `t`, or the length of `a`.
pub open spec fn first_pos(a: Seq<Seq<char>>, t: Seq<char>) -> int
    decreases a.len(),
{
    if a.len() == 0 {
        0
    } else if a[0] == t {
        0
    } else {
        1 + first_pos(a.drop_first(), t)
    }
}

proof fn lemma_first_pos(a: Seq<Seq<char>>, t: Seq<char>, i: int)
    requires
        0 <= i <= a.len(),
        forall|j: int| 0 <= j < i ==> a[j] != t,
        i == a.len() || a[i] == t,
    ensures
        first_pos(a, t) == i,
    decreases i,
{
    if i > 0 {
        lemma_first_pos(a.drop_first(), t, i - 1);
    }
}

/// `a` with the value after the first `--accessToken` replaced.
pub open spec fn redacted_spec(a: Seq<Seq<char>>) -> Seq<Seq<char>> {
    let i = first_pos(a, "--accessToken"@);
    if i + 1 < a.len() {
        a.update(i + 1, "<redacted>"@)
    } else {
        a
    }
}

/// A copy of `args` fit for logging: the access token is masked.
pub fn redact_sensitive_args(args: &[String]) -> (r: Vec<String>)
    ensures
        views(r@) == redacted_spec(views(args@)),
{
    let ghost a = views(args@);
    let mut out: Vec<String> = Vec::new();
    let mut pos: usize = args.len();
    let mut i: usize = 0;
    while i < args.len()
        invariant
            a == views(args@),
            i <= args.len(),
            pos <= args.len(),
            views(out@) == a.subrange(0, i as int),
            pos == args.len() ==> forall|j: int| 0 <= j < i ==> a[j] != "--accessToken"@,
            pos < args.len() ==> pos < i && first_pos(a, "--accessToken"@) == pos,
        decreases args.len() - i,
    {
        if pos == args.len() && str_eq(args[i].as_str(), "--accessToken") {
            proof {
                lemma_first_pos(a, "--accessToken"@, i as int);
            }
            pos = i;
        }
        let ghost before = out@;
        let item = args[i].clone();
        out.push(item);
        i += 1;
        proof {
            assert(item@ == a[i - 1]);
            assert(views(out@) =~= views(before).push(item@));
            assert(a.subrange(0, i as int) =~= a.subrange(0, i - 1).push(a[i - 1]));
        }
    }
    proof {
        assert(a.len() == args.len());
        assert(a.subrange(0, a.len() as int) =~= a);
        assert(views(out@) == a);
        if pos == args.len() {
            lemma_first_pos(a, "--accessToken"@, a.len() as int);
        }
    }
    if pos < args.len() && pos + 1 < args.len() {
        let ghost before = views(out@);
        out.set(pos + 1, String::from_str("<redacted>"));
        proof {
            assert(views(out@) =~= before.update(pos + 1, "<redacted>"@));
        }
    }
    out
}

/// The characters that a leading console timestamp is made of.
pub open spec fn ts_char(c: char) -> bool {
    ||| ('0' <= c && c <= '9')
    ||| c == ':'
    ||| c == '.'
    ||| c == '-'
    ||| c == ' '
}

/// A console line without its leading bracketed timestamp, if it has one
/// (`[`, timestamp characters including a colon, `]`); else the line as is.
pub open spec fn strip_ts_spec(line: Seq<char>) -> Seq<char> {
    let t = trim_start_seq(line);
    let b = first_index(t, ']');
    if t.len() > 0 && t[0] == '[' && b < t.len() {
        let inner = t.subrange(1, b);
        if (forall|k: int| 0 <= k < inner.len() ==> ts_char(#[trigger] inner[k])) && inner.contains(
            ':',
        ) {
            trim_start_seq(t.subrange(b + 1, t.len() as int))
        } else {
            line
        }
    } else {
        line
    }
}

fn is_ts_char(c: char) -> (r: bool)
    ensures
        r == ts_char(c),
{
    ('0' <= c && c <= '9') || c == ':' || c == '.' || c == '-' || c == ' '
}

/// Removes the game's own leading timestamp from a console line.
pub fn strip_game_timestamp(line: &str) -> (r: String)
    ensures
        r@ == strip_ts_spec(line@),
{
    let trimmed = trim_start_str(line);
    let t = chars_of(trimmed.as_str());
    if t.len() > 0 && t[0] == '[' {
        let b = find_char(t.as_slice(), ']');
        if b < t.len() {
            assert(b >= 1);
            let ghost inner = t@.subrange(1, b as int);
            let mut all_ts = true;
            let mut has_colon = false;
            let mut k: usize = 1;
            while k < b
                invariant
                    1 <= k <= b,
                    b < t.len(),
                    inner == t@.subrange(1, b as int),
                    all_ts == forall|j: int| 0 <= j < k - 1 ==> ts_char(#[trigger] inner[j]),
                    has_colon == exists|j: int| 0 <= j < k - 1 && inner[j] == ':',
                decreases b - k,
            {
                let c = t[k];
                assert(inner[k - 1] == c);
                if !is_ts_char(c) {
                    all_ts = false;
                }
                if c == ':' {
                    has_colon = true;
                }
                k += 1;
            }
            proof {
                if has_colon {
                    let j = choose|j: int| 0 <= j < b - 1 && inner[j] == ':';
                    assert(inner[j] == ':');
                }
            }
            if all_ts && has_colon {
                let rest = slice_string(t.as_slice(), b + 1, t.len());
                return trim_start_str(rest.as_str());
            }
        }
    }
    String::from_str(line)
}

/// The views of a list of string slices.
pub open spec fn lits(v: Seq<&str>) -> Seq<Seq<char>> {
    v.map_values(|s: &str| s@)
}

fn push_all(args: &mut Vec<String>, flags: &[&str])
    ensures
        views(final(args)@) == views(old(args)@) + lits(flags@),
{
    let mut i: usize = 0;
    while i < flags.len()
        invariant
            i <= flags.len(),
            views(args@) == views(old(args)@) + lits(flags@.subrange(0, i as int)),
        decreases flags.len() - i,
    {
        let ghost before = args@;
        let item = String::from_str(flags[i]);
        args.push(item);
        i += 1;
        proof {
            assert(views(args@) =~= views(before).push(item@));
            assert(lits(flags@.subrange(0, i as int)) =~= lits(flags@.subrange(0, i - 1)).push(
                flags@[i - 1]@,
            ));
        }
    }
    proof {
        assert(flags@.subrange(0, flags@.len() as int) =~= flags@);
    }
}

pub open spec fn aikar_flags() -> Seq<Seq<char>> {
    seq![
        "-XX:+UseG1GC"@,
        "-XX:+ParallelRefProcEnabled"@,
        "-XX:MaxGCPauseMillis=200"@,
        "-XX:+UnlockExperimentalVMOptions"@,
        "-XX:+DisableExplicitGC"@,
        "-XX:+AlwaysPreTouch"@,
        "-XX:G1NewSizePercent=30"@,
        "-XX:G1MaxNewSizePercent=40"@,
        "-XX:G1HeapRegionSize=8M"@,
        "-XX:G1ReservePercent=20"@,
        "-XX:G1HeapWastePercent=5"@,
        "-XX:G1MixedGCCountTarget=4"@,
        "-XX:InitiatingHeapOccupancyPercent=15"@,
        "-XX:G1MixedGCLiveThresholdPercent=90"@,
        "-XX:G1RSetUpdatingPauseTimePercent=5"@,
        "-XX:SurvivorRatio=32"@,
        "-XX:+PerfDisableSharedMem"@,
        "-XX:MaxTenuringThreshold=1"@,
    ]
}

pub open spec fn ultimate_flags() -> Seq<Seq<char>> {
    seq![
        "-XX:+UseZGC"@,
        "-XX:+ZGenerational"@,
        "-XX:+UnlockExperimentalVMOptions"@,
        "-XX:+AlwaysPreTouch"@,
        "-XX:+DisableExplicitGC"@,
        "-XX:+PerfDisableSharedMem"@,
        "-XX:+UseStringDeduplication"@,
        "-Djava.net.preferIPv4Stack=true"@,
    ]
}

/// The JVM flags that the preset named `p` stands for; an unknown name
/// stands for none.
pub open spec fn preset_flags(p: Seq<char>, max_mem_mb: nat) -> Seq<Seq<char>> {
    if p == "low_memory"@ {
        seq!["-XX:+UseSerialGC"@]
    } else if p == "aikars"@ || p == "high_performance"@ {
        aikar_flags().push("-Xms"@ + decimal(max_mem_mb) + "M"@)
    } else if p == "zgc"@ {
        seq!["-XX:+UseZGC"@]
    } else if p == "zgc_gen"@ {
        seq!["-XX:+UseZGC"@, "-XX:+ZGenerational"@]
    } else if p == "ultimate"@ {
        ultimate_flags()
    } else if p == "shenandoah"@ {
        seq!["-XX:+UseShenandoahGC"@, "-XX:+AlwaysPreTouch"@]
    } else {
        Seq::empty()
    }
}

/// Appends the flags of the named JVM preset.
pub fn append_jvm_preset_args(args: &mut Vec<String>, preset: &str, max_mem_mb: u32)
    ensures
        views(final(args)@) == views(old(args)@) + preset_flags(preset@, max_mem_mb as nat),
{
    if str_eq(preset, "low_memory") {
        let f = ["-XX:+UseSerialGC"];
        push_all(args, &f);
        assert(lits(f@) =~= seq!["-XX:+UseSerialGC"@]);
    } else if str_eq(preset, "aikars") || str_eq(preset, "high_performance") {
        let f = [
            "-XX:+UseG1GC",
            "-XX:+ParallelRefProcEnabled",
            "-XX:MaxGCPauseMillis=200",
            "-XX:+UnlockExperimentalVMOptions",
            "-XX:+DisableExplicitGC",
            "-XX:+AlwaysPreTouch",
            "-XX:G1NewSizePercent=30",
            "-XX:G1MaxNewSizePercent=40",
            "-XX:G1HeapRegionSize=8M",
            "-XX:G1ReservePercent=20",
            "-XX:G1HeapWastePercent=5",
            "-XX:G1MixedGCCountTarget=4",
            "-XX:InitiatingHeapOccupancyPercent=15",
            "-XX:G1MixedGCLiveThresholdPercent=90",
            "-XX:G1RSetUpdatingPauseTimePercent=5",
            "-XX:SurvivorRatio=32",
            "-XX:+PerfDisableSharedMem",
            "-XX:MaxTenuringThreshold=1",
        ];
        push_all(args, &f);
        assert(lits(f@) =~= aikar_flags());
        let ghost mid = args@;
        let mem = decimal_string(max_mem_mb as u64);
        let xms = concat3("-Xms", mem.as_str(), "M");
        args.push(xms);
        assert(views(args@) =~= views(mid).push(xms@));
    } else if str_eq(preset, "zgc") {
        let f = ["-XX:+UseZGC"];
        push_all(args, &f);
        assert(lits(f@) =~= seq!["-XX:+UseZGC"@]);
    } else if str_eq(preset, "zgc_gen") {
        let f = ["-XX:+UseZGC", "-XX:+ZGenerational"];
        push_all(args, &f);
        assert(lits(f@) =~= seq!["-XX:+UseZGC"@, "-XX:+ZGenerational"@]);
    } else if str_eq(preset, "ultimate") {
        let f = [
            "-XX:+UseZGC",
            "-XX:+ZGenerational",
            "-XX:+UnlockExperimentalVMOptions",
            "-XX:+AlwaysPreTouch",
            "-XX:+DisableExplicitGC",
            "-XX:+PerfDisableSharedMem",
            "-XX:+UseStringDeduplication",
            "-Djava.net.preferIPv4Stack=true",
        ];
        push_all(args, &f);
        assert(lits(f@) =~= ultimate_flags());
    } else if str_eq(preset, "shenandoah") {
        let f = ["-XX:+UseShenandoahGC", "-XX:+AlwaysPreTouch"];
        push_all(args, &f);
        assert(lits(f@) =~= seq!["-XX:+UseShenandoahGC"@, "-XX:+AlwaysPreTouch"@]);
    } else {
        assert(views(args@) =~= views(args@) + Seq::<Seq<char>>::empty());
    }
}

/// The views of a variable table.
pub open spec fn pair_views(v: Seq<(String, String)>) -> Seq<(Seq<char>, Seq<char>)> {
    v.map_values(|p: (String, String)| (p.0@, p.1@))
}

/// The value bound to `name` in the table (its first binding), if any.
pub open spec fn lookup_var(vars: Seq<(Seq<char>, Seq<char>)>, name: Seq<char>) -> Option<
    Seq<char>,
>
    decreases vars.len(),
{
    if vars.len() == 0 {
        None
    } else if vars[0].0 == name {
        Some(vars[0].1)
    } else {
        lookup_var(vars.drop_first(), name)
    }
}

/// The binding of a placeholder `${name}` that starts `s`, if `s` starts
/// with one whose name (up to the first `}`) the table binds, with the
/// length of the placeholder.
pub open spec fn bound_placeholder(s: Seq<char>, vars: Seq<(Seq<char>, Seq<char>)>) -> Option<(Seq<char>, int)> {
    if s.len() >= 2 && s[0] == '$' && s[1] == '{' {
        let tail = s.subrange(2, s.len() as int);
        let j = first_index(tail, '}');
        if 0 <= j < tail.len() {
            match lookup_var(vars, tail.subrange(0, j)) {
                Some(v) => Some((v, j + 3)),
                None => None,
            }
        } else {
            None
        }
    } else {
        None
    }
}

/// `s` with every bound `${name}` replaced, scanning left to right: a
/// placeholder whose name is not bound stays as it is, and scanning goes on
/// right after its `$`, so placeholders inside it are still replaced.
pub open spec fn subst_spec(s: Seq<char>, vars: Seq<(Seq<char>, Seq<char>)>) -> Seq<char>
    decreases s.len(),
{
    if s.len() == 0 {
        Seq::empty()
    } else {
        match bound_placeholder(s, vars) {
            Some((v, n)) => if 3 <= n <= s.len() {
                v + subst_spec(s.subrange(n, s.len() as int), vars)
            } else {
                s
            },
            None => seq![s[0]] + subst_spec(s.drop_first(), vars),
        }
    }
}

/// The binding of `name` in the table.
pub fn lookup_var_exec(vars: &[(String, String)], name: &str) -> (r: Option<String>)
    ensures
        match r {
            Some(v) => lookup_var(pair_views(vars@), name@) == Some(v@),
            None => lookup_var(pair_views(vars@), name@) is None,
        },
{
    let ghost t = pair_views(vars@);
    let mut i: usize = 0;
    proof {
        assert(t.subrange(0, t.len() as int) =~= t);
    }
    while i < vars.len()
        invariant
            t == pair_views(vars@),
            i <= vars.len(),
            lookup_var(t, name@) == lookup_var(t.subrange(i as int, t.len() as int), name@),
        decreases vars.len() - i,
    {
        let ghost rest = t.subrange(i as int, t.len() as int);
        proof {
            assert(rest.drop_first() =~= t.subrange(i + 1, t.len() as int));
            assert(rest[0] == (vars@[i as int].0@, vars@[i as int].1@));
        }
        if str_eq(vars[i].0.as_str(), name) {
            return Some(vars[i].1.clone());
        }
        i += 1;
    }
    None
}

/// Replaces every `${name}` placeholder that the table binds.
pub fn substitute_vars(input: &str, vars: &[(String, String)]) -> (r: String)
    ensures
        r@ == subst_spec(input@, pair_views(vars@)),
{
    let x = chars_of(input);
    let ghost s = x@;
    let n = x.len();
    let mut out: Vec<char> = Vec::new();
    let mut i: usize = 0;
    proof {
        assert(s.subrange(0, n as int) =~= s);
        assert(out@ + s =~= s);
    }
    while i < n
        invariant
            s == x@,
            n == x.len(),
            i <= n,
            out@ + subst_spec(s.subrange(i as int, n as int), pair_views(vars@)) == subst_spec(
                s,
                pair_views(vars@),
            ),
        decreases n - i,
    {
        let ghost rest = s.subrange(i as int, n as int);
        let ghost before = out@;
        let mut replaced = false;
        if x[i] == '$' && i + 1 < n && x[i + 1] == '{' {
            let j = find_char_from(x.as_slice(), '}', i + 2);
            let ghost tail = rest.subrange(2, rest.len() as int);
            proof {
                assert(tail =~= s.subrange(i + 2, n as int));
            }
            if j < n {
                let name = slice_string(x.as_slice(), i + 2, j);
                proof {
                    assert(name@ =~= tail.subrange(0, j - (i + 2)));
                }
                match lookup_var_exec(vars, name.as_str()) {
                    Some(v) => {
                        let mut vc = chars_of(v.as_str());
                        out.append(&mut vc);
                        proof {
                            assert(rest.subrange(j - i + 1, rest.len() as int) =~= s.subrange(
                                j + 1,
                                n as int,
                            ));
                        }
                        i = j + 1;
                        replaced = true;
                    },
                    None => {},
                }
            }
        }
        if !replaced {
            proof {
                assert(bound_placeholder(rest, pair_views(vars@)) is None);
            }
            out.push(x[i]);
            proof {
                assert(rest.drop_first() =~= s.subrange(i + 1, n as int));
                assert(out@ =~= before + seq![rest[0]]);
            }
            i += 1;
        }
    }
    proof {
        assert(s.subrange(n as int, n as int) =~= Seq::<char>::empty());
        assert(out@ + Seq::<char>::empty() =~= out@);
    }
    string_of(out.as_slice())
}

/// Each string with its placeholders substituted.
pub open spec fn subst_all(a: Seq<Seq<char>>, vars: Seq<(Seq<char>, Seq<char>)>) -> Seq<Seq<char>> {
    a.map_values(|s: Seq<char>| subst_spec(s, vars))
}

/// Substitutes placeholders in every argument.
pub fn substitute_all(args: Vec<String>, vars: &[(String, String)]) -> (r: Vec<String>)
    ensures
        views(r@) == subst_all(views(args@), pair_views(vars@)),
{
    let mut out: Vec<String> = Vec::new();
    let mut i: usize = 0;
    while i < args.len()
        invariant
            i <= args.len(),
            views(out@) == subst_all(views(args@).subrange(0, i as int), pair_views(vars@)),
        decreases args.len() - i,
    {
        let ghost before = out@;
        let s = substitute_vars(args[i].as_str(), vars);
        out.push(s);
        i += 1;
        proof {
            let a = views(args@);
            assert(a[i - 1] == args@[i - 1]@);
            assert(views(out@) =~= views(before).push(s@));
            assert(subst_all(a.subrange(0, i as int), pair_views(vars@)) =~= subst_all(
                a.subrange(0, i - 1),
                pair_views(vars@),
            ).push(subst_spec(a[i - 1], pair_views(vars@))));
        }
    }
    proof {
        assert(views(args@).subrange(0, args@.len() as int) =~= views(args@));
    }
    out
}

} // verus!
