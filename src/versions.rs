//! Version strings: decimal parsing, numeric dotted comparison, stable
//! release selection from repository metadata, and the Java release that a
//! game version needs.

use vstd::prelude::*;
use core::cmp::Ordering;
use crate::classpath::{lower_of, lowercase};
use crate::text::{
    chars_of, concat2, concat3, contains_seq, contains_str, find_sub_from, first_occ, lemma_first_occ_occurs, occurs_at,
    slice_string, split_char, split_on, starts_with_seq, starts_with_str, str_eq, trim_seq,
    trim_str, views,
};

verus! {

pub open spec fn is_digit(c: char) -> bool {
    '0' <= c && c <= '9'
}

pub open spec fn digit_value(c: char) -> int {
    (c as u32) - ('0' as u32)
}

/// The value of a string of decimal digits.
pub open spec fn digits_value(s: Seq<char>) -> int
    decreases s.len(),
{
    if s.len() == 0 {
        0
    } else {
        10 * digits_value(s.drop_last()) + digit_value(s.last())
    }
}

pub open spec fn all_digits(s: Seq<char>) -> bool {
    s.len() >= 1 && forall|i: int| 0 <= i < s.len() ==> is_digit(#[trigger] s[i])
}

/// What a decimal integer literal (optional sign, at least one digit)
/// denotes, without a bound.
pub open spec fn decimal_value(s: Seq<char>) -> Option<int> {
    if s.len() >= 1 && (s[0] == '+' || s[0] == '-') {
        let d = s.drop_first();
        if all_digits(d) {
            if s[0] == '-' {
                Some(-digits_value(d))
            } else {
                Some(digits_value(d))
            }
        } else {
            None
        }
    } else if all_digits(s) {
        Some(digits_value(s))
    } else {
        None
    }
}

/// A decimal literal that fits an `i64`.
pub open spec fn parse_i64_spec(s: Seq<char>) -> Option<int> {
    match decimal_value(s) {
        Some(v) if i64::MIN <= v <= i64::MAX => Some(v),
        _ => None,
    }
}

proof fn lemma_digits_value_nonneg_mono(s: Seq<char>, k: int)
    requires
        0 <= k <= s.len(),
        forall|i: int| 0 <= i < s.len() ==> is_digit(#[trigger] s[i]),
    ensures
        0 <= digits_value(s.subrange(0, k)) <= digits_value(s),
    decreases s.len(),
{
    if s.len() > 0 {
        assert(forall|i: int| 0 <= i < s.drop_last().len() ==> is_digit(#[trigger] s.drop_last()[i]) ) by {
            assert forall|i: int| 0 <= i < s.drop_last().len() implies is_digit(#[trigger] s.drop_last()[i]) by {
                assert(s.drop_last()[i] == s[i]);
            }
        }
        if k == s.len() {
            assert(s.subrange(0, k) =~= s);
            lemma_digits_value_nonneg_mono(s.drop_last(), 0);
        } else {
            lemma_digits_value_nonneg_mono(s.drop_last(), k);
            assert(s.drop_last().subrange(0, k) =~= s.subrange(0, k));
        }
        assert(is_digit(s.last()));
    } else {
        assert(s.subrange(0, k) =~= s);
    }
}

/// Magnitude of the digits `v[from..]`, if it fits a `u64`.
fn digits_magnitude(v: &[char], from: usize) -> (r: Option<u64>)
    requires
        from <= v.len(),
    ensures
        all_digits(v@.subrange(from as int, v@.len() as int)) && digits_value(
            v@.subrange(from as int, v@.len() as int),
        ) <= u64::MAX ==> r == Some(digits_value(v@.subrange(from as int, v@.len() as int)) as u64),
        r matches Some(m) ==> all_digits(v@.subrange(from as int, v@.len() as int)) && m as int
            == digits_value(v@.subrange(from as int, v@.len() as int)),
{
    let ghost s = v@.subrange(from as int, v@.len() as int);
    if from == v.len() {
        return None;
    }
    let mut acc: u64 = 0;
    let mut i: usize = from;
    while i < v.len()
        invariant
            from <= i <= v.len(),
            s == v@.subrange(from as int, v@.len() as int),
            forall|k: int| 0 <= k < i - from ==> is_digit(#[trigger] s[k]),
            acc as int == digits_value(s.subrange(0, i - from)),
        decreases v.len() - i,
    {
        let c = v[i];
        assert(s[i - from] == c);
        if !('0' <= c && c <= '9') {
            return None;
        }
        let d = (c as u32 - '0' as u32) as u64;
        proof {
            assert(s.subrange(0, i - from + 1).drop_last() =~= s.subrange(0, i - from));
        }
        if acc > (u64::MAX - d) / 10 {
            proof {
                assert(forall|k: int| 0 <= k < i - from + 1 ==> is_digit(#[trigger] s[k]));
                if all_digits(s) {
                    lemma_digits_value_nonneg_mono(s, i - from + 1);
                    assert(digits_value(s.subrange(0, i - from + 1)) == 10 * acc + d);
                    assert(10 * acc + d > u64::MAX) by (nonlinear_arith)
                        requires acc > (u64::MAX - d) / 10, d <= 9;
                }
            }
            return None;
        }
        assert(10 * acc + d <= u64::MAX) by (nonlinear_arith)
            requires acc <= (u64::MAX - d) / 10, d <= 9;
        acc = acc * 10 + d;
        i += 1;
    }
    proof {
        assert(s.subrange(0, s.len() as int) =~= s);
    }
    Some(acc)
}

/// Parses a decimal integer as `str::parse::<i64>` does: optional sign,
/// at least one ASCII digit, and the value must fit.
pub fn parse_i64(s: &str) -> (r: Option<i64>)
    ensures
        match r {
            Some(v) => parse_i64_spec(s@) == Some(v as int),
            None => parse_i64_spec(s@) is None,
        },
{
    let x = chars_of(s);
    if x.len() == 0 {
        return None;
    }
    let signed = x[0] == '+' || x[0] == '-';
    let from: usize = if signed { 1 } else { 0 };
    proof {
        assert(x@.subrange(1, x@.len() as int) =~= s@.drop_first());
        assert(x@.subrange(0, x@.len() as int) =~= s@);
    }
    match digits_magnitude(x.as_slice(), from) {
        Some(m) => {
            if x[0] == '-' {
                if m <= 9223372036854775808u64 {
                    if m == 9223372036854775808u64 {
                        Some(i64::MIN)
                    } else {
                        Some(-(m as i64))
                    }
                } else {
                    None
                }
            } else if m <= 9223372036854775807u64 {
                Some(m as i64)
            } else {
                None
            }
        },
        None => None,
    }
}

/// A dotted version as numbers: each segment parsed, `-1` where a segment
/// is not a number.
pub open spec fn segment_value(seg: Seq<char>) -> int {
    match parse_i64_spec(seg) {
        Some(v) => v,
        None => -1,
    }
}

pub open spec fn version_key(v: Seq<char>) -> Seq<int> {
    split_on(v, '.').map_values(|seg: Seq<char>| segment_value(seg))
}

/// Segment `i` of a key, `-1` past its end.
pub open spec fn key_at(k: Seq<int>, i: int) -> int {
    if 0 <= i < k.len() {
        k[i]
    } else {
        -1
    }
}

/// Numeric comparison of keys from segment `i` on: the first differing
/// segment decides.
pub open spec fn key_cmp_from(a: Seq<int>, b: Seq<int>, i: nat) -> Ordering
    decreases (if a.len() > b.len() { a.len() } else { b.len() }) - i,
{
    if i >= a.len() && i >= b.len() {
        Ordering::Equal
    } else if key_at(a, i as int) < key_at(b, i as int) {
        Ordering::Less
    } else if key_at(a, i as int) > key_at(b, i as int) {
        Ordering::Greater
    } else {
        key_cmp_from(a, b, i + 1)
    }
}

/// The numeric order of two dotted versions.
pub open spec fn version_cmp(a: Seq<char>, b: Seq<char>) -> Ordering {
    key_cmp_from(version_key(a), version_key(b), 0)
}

pub open spec fn reverse(o: Ordering) -> Ordering {
    match o {
        Ordering::Less => Ordering::Greater,
        Ordering::Greater => Ordering::Less,
        Ordering::Equal => Ordering::Equal,
    }
}

fn version_key_exec(v: &str) -> (r: Vec<i64>)
    ensures
        r@.map_values(|x: i64| x as int) == version_key(v@),
{
    let segs = split_char(v, '.');
    let mut out: Vec<i64> = Vec::new();
    let mut i: usize = 0;
    while i < segs.len()
        invariant
            i <= segs.len(),
            out@.map_values(|x: i64| x as int) == views(segs@).subrange(0, i as int).map_values(
                |seg: Seq<char>| segment_value(seg),
            ),
        decreases segs.len() - i,
    {
        let val = match parse_i64(segs[i].as_str()) {
            Some(n) => n,
            None => -1,
        };
        let ghost before = out@;
        out.push(val);
        i += 1;
        proof {
            assert(views(segs@)[i - 1] == segs@[i - 1]@);
            assert(val as int == segment_value(segs@[i - 1]@));
            assert(out@.map_values(|x: i64| x as int) =~= before.map_values(|x: i64| x as int).push(val as int));
            assert(views(segs@).subrange(0, i as int).map_values(|seg: Seq<char>| segment_value(seg)) =~= views(segs@).subrange(0, i - 1).map_values(|seg: Seq<char>| segment_value(seg)).push(segment_value(segs@[i - 1]@)));
            assert(out@.map_values(|x: i64| x as int) =~= views(segs@).subrange(0, i as int).map_values(
                |seg: Seq<char>| segment_value(seg),
            ));
        }
    }
    proof {
        assert(views(segs@).subrange(0, segs@.len() as int) =~= views(segs@));
    }
    out
}

/// Compares two dotted versions numerically, greatest first: `Less` when
/// `a` is the newer one.
pub fn compare_version_desc(a: &str, b: &str) -> (r: Ordering)
    ensures
        r == reverse(version_cmp(a@, b@)),
{
    let pa = version_key_exec(a);
    let pb = version_key_exec(b);
    let ghost ka = version_key(a@);
    let ghost kb = version_key(b@);
    let n = if pa.len() > pb.len() { pa.len() } else { pb.len() };
    let mut i: usize = 0;
    assert(version_cmp(a@, b@) == key_cmp_from(ka, kb, 0));
    assert(key_cmp_from(ka, kb, 0) == key_cmp_from(ka, kb, i as nat));
    while i < n
        invariant
            ka == version_key(a@),
            kb == version_key(b@),
            ka == pa@.map_values(|x: i64| x as int),
            kb == pb@.map_values(|x: i64| x as int),
            n == (if pa.len() > pb.len() { pa.len() } else { pb.len() }),
            i <= n,
            key_cmp_from(ka, kb, 0) == key_cmp_from(ka, kb, i as nat),
        decreases n - i,
    {
        let va: i64 = if i < pa.len() { pa[i] } else { -1 };
        let vb: i64 = if i < pb.len() { pb[i] } else { -1 };
        assert(va as int == key_at(ka, i as int));
        assert(vb as int == key_at(kb, i as int));
        assert(ka.len() == pa.len() && kb.len() == pb.len());
        assert(!(i >= ka.len() && i >= kb.len()));
        if va < vb {
            assert(key_cmp_from(ka, kb, i as nat) == Ordering::Less);
            assert(version_cmp(a@, b@) == Ordering::Less);
            return Ordering::Greater;
        }
        if va > vb {
            assert(key_cmp_from(ka, kb, i as nat) == Ordering::Greater);
            return Ordering::Less;
        }
        i += 1;
    }
    assert(ka.len() == pa.len() && kb.len() == pb.len());
    Ordering::Equal
}

/// The text of each `<version>` element, trimmed, empty ones left out, in
/// document order; an unclosed element ends the scan.
pub open spec fn metadata_versions(s: Seq<char>) -> Seq<Seq<char>>
    decreases s.len(),
{
    match first_occ(s, "<version>"@) {
        None => Seq::empty(),
        Some(i) => {
            let after = s.subrange(i + 9, s.len() as int);
            match first_occ(after, "</version>"@) {
                None => Seq::empty(),
                Some(j) => {
                    let v = trim_seq(after.subrange(0, j));
                    let rest = after.subrange(j + 10, after.len() as int);
                    if 0 <= i && 0 <= j && i + 9 <= s.len() && j + 10 <= after.len() {
                        (if v.len() > 0 {
                            seq![v]
                        } else {
                            Seq::empty()
                        }) + metadata_versions(rest)
                    } else {
                        Seq::empty()
                    }
                },
            }
        },
    }
}

/// Reads the version list out of repository metadata XML.
pub fn extract_versions_from_maven_metadata(xml: &str) -> (r: Vec<String>)
    ensures
        views(r@) == metadata_versions(xml@),
{
    let x = chars_of(xml);
    let open_tag = chars_of("<version>");
    let close_tag = chars_of("</version>");
    proof {
        reveal_strlit("<version>");
        reveal_strlit("</version>");
    }
    let mut out: Vec<String> = Vec::new();
    let mut pos: usize = 0;
    proof {
        assert(x@.subrange(0, x@.len() as int) =~= xml@);
        assert(views(out@) + metadata_versions(xml@) =~= metadata_versions(xml@));
    }
    while pos <= x.len()
        invariant
            x@ == xml@,
            open_tag@ == "<version>"@,
            close_tag@ == "</version>"@,
            open_tag@.len() == 9,
            close_tag@.len() == 10,
            pos <= x.len(),
            views(out@) + metadata_versions(x@.subrange(pos as int, x@.len() as int)) == metadata_versions(xml@),
        decreases x.len() - pos,
    {
        let ghost s = x@.subrange(pos as int, x@.len() as int);
        let i = match find_sub_from(x.as_slice(), open_tag.as_slice(), pos) {
            Some(i) => i,
            None => {
                proof {
                    assert(views(out@) + Seq::<Seq<char>>::empty() =~= views(out@));
                }
                return out;
            },
        };
        proof {
            let k = (i - pos) as int;
            assert(first_occ(s, open_tag@) == Some(k));
            lemma_first_occ_occurs(s, open_tag@);
        }
        let start = i + 9;
        let ghost after = s.subrange(i - pos + 9, s.len() as int);
        proof {
            assert(after =~= x@.subrange(start as int, x@.len() as int));
        }
        let j = match find_sub_from(x.as_slice(), close_tag.as_slice(), start) {
            Some(j) => j,
            None => {
                proof {
                    assert(views(out@) + Seq::<Seq<char>>::empty() =~= views(out@));
                }
                return out;
            },
        };
        proof {
            let k = (j - start) as int;
            assert(first_occ(after, close_tag@) == Some(k));
            lemma_first_occ_occurs(after, close_tag@);
        }
        let raw = slice_string(x.as_slice(), start, j);
        let v = trim_str(raw.as_str());
        let ghost before = views(out@);
        proof {
            assert(raw@ =~= after.subrange(0, (j - start) as int));
            assert(after.subrange((j - start) + 10, after.len() as int) =~= x@.subrange(j + 10, x@.len() as int));
        }
        if v.as_str().unicode_len() > 0 {
            out.push(v);
            proof {
                assert(views(out@) =~= before + seq![v@]);
            }
        }
        pos = j + 10;
        proof {
            assert(views(out@) + metadata_versions(x@.subrange(pos as int, x@.len() as int)) =~= metadata_versions(xml@));
        }
    }
    out
}

/// A release without a pre-release or snapshot marker (any case).
pub open spec fn stable_spec(v: Seq<char>) -> bool {
    let lc = lower_of(v);
    !(contains_seq(lc, "alpha"@) || contains_seq(lc, "beta"@) || contains_seq(lc, "rc"@)
        || contains_seq(lc, "snapshot"@))
}

pub fn is_stable_version(v: &str) -> (r: bool)
    ensures
        r == stable_spec(v@),
{
    let lc = lowercase(v);
    let s = lc.as_str();
    !(contains_str(s, "alpha") || contains_str(s, "beta") || contains_str(s, "rc") || contains_str(
        s,
        "snapshot",
    ))
}

/// Why no loader version could be chosen.
#[derive(Clone, Debug)]
pub enum VersionError {
    /// The game version is not of the form `major.minor.patch`.
    InvalidGameVersion(String),
    /// No stable loader release exists for the game version.
    NoStableVersion { game_version: String, prefix: String },
}

/// The loader version prefix of a game version: `1.21.1` gives `21.1`.
pub open spec fn neoforge_prefix_spec(mc: Seq<char>) -> Option<Seq<char>> {
    let parts = split_on(mc, '.');
    if parts.len() < 3 {
        None
    } else {
        Some(parts[1] + "."@ + parts[2])
    }
}

pub fn mc_to_neoforge_prefix(mc_version: &str) -> (r: Result<String, VersionError>)
    ensures
        match r {
            Ok(p) => neoforge_prefix_spec(mc_version@) == Some(p@),
            Err(e) => neoforge_prefix_spec(mc_version@) is None && (e matches VersionError::InvalidGameVersion(v) && v@ == mc_version@),
        },
{
    let parts = split_char(mc_version, '.');
    if parts.len() < 3 {
        return Err(VersionError::InvalidGameVersion(String::from_str(mc_version)));
    }
    proof {
        assert(views(parts@)[1] == parts@[1]@);
        assert(views(parts@)[2] == parts@[2]@);
    }
    Ok(concat3(parts[1].as_str(), ".", parts[2].as_str()))
}

/// Whether `v` is a release of the loader line `prefix`.
pub open spec fn in_line(v: Seq<char>, prefix: Seq<char>) -> bool {
    starts_with_seq(v, prefix + "."@) || v == prefix
}

/// The stable releases of the line, in order.
pub open spec fn candidates_spec(vs: Seq<Seq<char>>, prefix: Seq<char>) -> Seq<Seq<char>>
    decreases vs.len(),
{
    if vs.len() == 0 {
        Seq::empty()
    } else {
        let r = candidates_spec(vs.drop_last(), prefix);
        if in_line(vs.last(), prefix) && stable_spec(vs.last()) {
            r.push(vs.last())
        } else {
            r
        }
    }
}

/// The position of the newest version: the first one that no later one
/// exceeds.
pub open spec fn newest_index(vs: Seq<Seq<char>>) -> int
    decreases vs.len(),
{
    if vs.len() <= 1 {
        0
    } else {
        let b = newest_index(vs.drop_last());
        if version_cmp(vs.last(), vs[b]) == Ordering::Greater {
            vs.len() - 1
        } else {
            b
        }
    }
}

pub open spec fn max3(a: int, b: int, c: int) -> int {
    if a >= b && a >= c {
        a
    } else if b >= c {
        b
    } else {
        c
    }
}

/// Swapping the operands reverses the comparison.
pub proof fn lemma_key_cmp_antisym(a: Seq<int>, b: Seq<int>, i: nat)
    ensures
        key_cmp_from(a, b, i) == reverse(key_cmp_from(b, a, i)),
    decreases (if a.len() > b.len() { a.len() } else { b.len() }) - i,
{
    if !(i >= a.len() && i >= b.len()) && key_at(a, i as int) == key_at(b, i as int) {
        lemma_key_cmp_antisym(a, b, i + 1);
    }
}

/// A key compares equal to itself.
pub proof fn lemma_key_cmp_refl(a: Seq<int>, i: nat)
    ensures
        key_cmp_from(a, a, i) == Ordering::Equal,
    decreases a.len() - i,
{
    if i < a.len() {
        lemma_key_cmp_refl(a, i + 1);
    }
}

/// "Not greater" is transitive.
pub proof fn lemma_key_cmp_trans(a: Seq<int>, b: Seq<int>, c: Seq<int>, i: nat)
    requires
        key_cmp_from(a, b, i) != Ordering::Greater,
        key_cmp_from(b, c, i) != Ordering::Greater,
    ensures
        key_cmp_from(a, c, i) != Ordering::Greater,
    decreases max3(a.len() as int, b.len() as int, c.len() as int) - i,
{
    let (x, y, z) = (key_at(a, i as int), key_at(b, i as int), key_at(c, i as int));
    if i >= a.len() && i >= c.len() {
    } else {
        if !(i >= a.len() && i >= b.len()) {
            assert(x <= y);
        }
        if !(i >= b.len() && i >= c.len()) {
            assert(y <= z);
        }
        if x == z {
            assert(x == y && y == z);
            if !(i >= a.len() && i >= b.len()) {
                assert(key_cmp_from(a, b, i + 1) == key_cmp_from(a, b, i));
            }
            if !(i >= b.len() && i >= c.len()) {
                assert(key_cmp_from(b, c, i + 1) == key_cmp_from(b, c, i));
            }
            lemma_key_cmp_trans(a, b, c, i + 1);
        }
    }
}

/// Picks the newest of a non-empty list of versions: the first one that
/// no other version exceeds.
pub fn newest_version(vs: &[String]) -> (r: usize)
    requires
        vs.len() >= 1,
    ensures
        r == newest_index(views(vs@)),
        r < vs.len(),
        forall|j: int| 0 <= j < vs.len() ==> version_cmp(#[trigger] vs@[j]@, vs@[r as int]@) != Ordering::Greater,
{
    let ghost a = views(vs@);
    let mut best: usize = 0;
    let mut i: usize = 1;
    proof {
        lemma_key_cmp_refl(version_key(vs@[0]@), 0);
    }
    while i < vs.len()
        invariant
            a == views(vs@),
            1 <= i <= vs.len(),
            best < i,
            best == newest_index(a.subrange(0, i as int)),
            forall|j: int| 0 <= j < i ==> version_cmp(#[trigger] vs@[j]@, vs@[best as int]@) != Ordering::Greater,
        decreases vs.len() - i,
    {
        let ghost pre = a.subrange(0, i + 1);
        proof {
            assert(pre.drop_last() =~= a.subrange(0, i as int));
            assert(pre.last() == vs@[i as int]@);
            assert(pre[best as int] == vs@[best as int]@);
        }
        let ghost old_best = best;
        match compare_version_desc(vs[i].as_str(), vs[best].as_str()) {
            Ordering::Less => {
                best = i;
                proof {
                    let ki = version_key(vs@[i as int]@);
                    let kb = version_key(vs@[old_best as int]@);
                    lemma_key_cmp_antisym(kb, ki, 0);
                    lemma_key_cmp_refl(ki, 0);
                    assert forall|j: int| 0 <= j < i + 1 implies version_cmp(#[trigger] vs@[j]@, vs@[best as int]@) != Ordering::Greater by {
                        if j < i {
                            lemma_key_cmp_trans(version_key(vs@[j]@), kb, ki, 0);
                        }
                    }
                }
            },
            _ => {
                proof {
                    assert(version_cmp(vs@[i as int]@, vs@[old_best as int]@) != Ordering::Greater);
                }
            },
        }
        i += 1;
    }
    proof {
        assert(a.subrange(0, a.len() as int) =~= a);
    }
    best
}

/// The newest stable loader release for a game version, from the
/// repository metadata.
pub open spec fn latest_stable_spec(xml: Seq<char>, mc: Seq<char>) -> Option<Seq<char>> {
    match neoforge_prefix_spec(mc) {
        Some(p) => {
            let c = candidates_spec(metadata_versions(xml), p);
            if c.len() == 0 {
                None
            } else {
                Some(c[newest_index(c)])
            }
        },
        None => None,
    }
}

/// Resolves the newest stable loader release for a game version from the
/// repository metadata; fails when the game version is malformed or no
/// stable release of its line exists.
pub fn latest_stable_for_mc(metadata_xml: &str, mc_version: &str) -> (r: Result<String, VersionError>)
    ensures
        match r {
            Ok(v) => latest_stable_spec(metadata_xml@, mc_version@) == Some(v@),
            Err(_) => latest_stable_spec(metadata_xml@, mc_version@) is None,
        },
        r matches Ok(v) ==> (neoforge_prefix_spec(mc_version@) matches Some(p) && forall|j: int|
            0 <= j < candidates_spec(metadata_versions(metadata_xml@), p).len() ==> version_cmp(
                #[trigger] candidates_spec(metadata_versions(metadata_xml@), p)[j],
                v@,
            ) != Ordering::Greater),
{
    let prefix = mc_to_neoforge_prefix(mc_version)?;
    let all = extract_versions_from_maven_metadata(metadata_xml);
    let ghost a = views(all@);
    let dotted = concat2(prefix.as_str(), ".");
    let mut cands: Vec<String> = Vec::new();
    let mut i: usize = 0;
    while i < all.len()
        invariant
            a == views(all@),
            dotted@ == prefix@ + "."@,
            i <= all.len(),
            views(cands@) == candidates_spec(a.subrange(0, i as int), prefix@),
        decreases all.len() - i,
    {
        let ghost pre = a.subrange(0, i + 1);
        proof {
            assert(pre.drop_last() =~= a.subrange(0, i as int));
            assert(pre.last() == all@[i as int]@);
        }
        let v = all[i].as_str();
        if (starts_with_str(v, dotted.as_str()) || str_eq(v, prefix.as_str())) && is_stable_version(v) {
            let ghost before = cands@;
            let item = all[i].clone();
            cands.push(item);
            proof {
                assert(views(cands@) =~= views(before).push(item@));
            }
        }
        i += 1;
    }
    proof {
        assert(a.subrange(0, a.len() as int) =~= a);
    }
    if cands.len() == 0 {
        return Err(VersionError::NoStableVersion { game_version: String::from_str(mc_version), prefix });
    }
    let b = newest_version(cands.as_slice());
    proof {
        assert(views(cands@)[b as int] == cands@[b as int]@);
        assert forall|j: int| 0 <= j < views(cands@).len() implies version_cmp(#[trigger] views(cands@)[j], cands@[b as int]@) != Ordering::Greater by {
            assert(views(cands@)[j] == cands@[j]@);
        }
    }
    Ok(cands[b].clone())
}

/// A decimal literal that fits an `i32`.
pub open spec fn parse_i32_spec(s: Seq<char>) -> Option<int> {
    match decimal_value(s) {
        Some(v) if i32::MIN <= v <= i32::MAX => Some(v),
        _ => None,
    }
}

/// Parses a decimal integer as `str::parse::<i32>` does.
pub fn parse_i32(s: &str) -> (r: Option<i32>)
    ensures
        match r {
            Some(v) => parse_i32_spec(s@) == Some(v as int),
            None => parse_i32_spec(s@) is None,
        },
{
    match parse_i64(s) {
        Some(v) => if -2147483648 <= v && v <= 2147483647 {
            Some(v as i32)
        } else {
            None
        },
        None => None,
    }
}

/// A segment as a number, 0 where it is missing or not a number.
pub open spec fn seg_or_zero(parts: Seq<Seq<char>>, i: int) -> int {
    if 0 <= i < parts.len() {
        match parse_i32_spec(parts[i]) {
            Some(v) => v,
            None => 0,
        }
    } else {
        0
    }
}

/// The Java release a game version needs: 21 from 1.20.5 on, else 17;
/// nothing for a version without a minor part.
pub open spec fn java_major_spec(mc: Seq<char>) -> Option<int> {
    let parts = split_on(mc, '.');
    if parts.len() < 2 {
        None
    } else {
        let minor = seg_or_zero(parts, 1);
        let patch = seg_or_zero(parts, 2);
        if minor > 20 || (minor == 20 && patch >= 5) {
            Some(21)
        } else {
            Some(17)
        }
    }
}

fn seg_or_zero_exec(parts: &Vec<String>, i: usize) -> (r: i32)
    ensures
        r as int == seg_or_zero(views(parts@), i as int),
{
    if i < parts.len() {
        assert(views(parts@)[i as int] == parts@[i as int]@);
        match parse_i32(parts[i].as_str()) {
            Some(v) => v,
            None => 0,
        }
    } else {
        0
    }
}

pub fn required_java_major_for_mc(mc_version: &str) -> (r: Option<i32>)
    ensures
        match r {
            Some(v) => java_major_spec(mc_version@) == Some(v as int),
            None => java_major_spec(mc_version@) is None,
        },
{
    let parts = split_char(mc_version, '.');
    if parts.len() < 2 {
        return None;
    }
    let minor = seg_or_zero_exec(&parts, 1);
    let patch = seg_or_zero_exec(&parts, 2);
    if minor > 20 {
        return Some(21);
    }
    if minor == 20 && patch >= 5 {
        return Some(21);
    }
    Some(17)
}

/// The default maximum memory for the game from the machine's memory:
/// 14 GiB from 24 GiB up, 10 GiB from 16 GiB, 6 GiB from 8 GiB, else 4 GiB.
pub open spec fn default_max_memory_spec(system_mb: u32) -> u32 {
    if system_mb >= 24576 {
        14336
    } else if system_mb >= 16384 {
        10240
    } else if system_mb >= 8192 {
        6144
    } else {
        4096
    }
}

pub fn calculate_default_max_memory(system_memory_mb: u32) -> (r: u32)
    ensures
        r == default_max_memory_spec(system_memory_mb),
{
    if system_memory_mb >= 24576 {
        14336
    } else if system_memory_mb >= 16384 {
        10240
    } else if system_memory_mb >= 8192 {
        6144
    } else {
        4096
    }
}

/// The major release a quoted version word names: `"21.0.1"` gives 21.
pub open spec fn word_major(w: Seq<char>) -> Option<int> {
    if w.len() > 2 && w[0] == '"' && w.last() == '"' {
        let inner = w.subrange(1, w.len() - 1);
        let k = crate::text::first_index(inner, '.');
        if 0 <= k < inner.len() {
            parse_i32_spec(inner.subrange(0, k))
        } else {
            None
        }
    } else {
        None
    }
}

/// The major release named by the first word that names one.
pub open spec fn java_major_of_words(ws: Seq<Seq<char>>) -> Option<int>
    decreases ws.len(),
{
    if ws.len() == 0 {
        None
    } else {
        match word_major(ws[0]) {
            Some(m) => Some(m),
            None => java_major_of_words(ws.drop_first()),
        }
    }
}

fn word_major_exec(w: &str) -> (r: Option<i32>)
    ensures
        match r {
            Some(m) => word_major(w@) == Some(m as int),
            None => word_major(w@) is None,
        },
{
    let x = chars_of(w);
    if x.len() > 2 && x[0] == '"' && x[x.len() - 1] == '"' {
        let inner = slice_string(x.as_slice(), 1, x.len() - 1);
        let y = chars_of(inner.as_str());
        let k = crate::text::find_char(y.as_slice(), '.');
        if k < y.len() {
            let major = slice_string(y.as_slice(), 0, k);
            return parse_i32(major.as_str());
        }
    }
    None
}

/// Reads the Java major release out of the text that `java -version`
/// prints (a quoted version such as `"21.0.1"`).
pub fn parse_java_major(text: &str) -> (r: Option<i32>)
    ensures
        match r {
            Some(m) => java_major_of_words(crate::text::words(text@)) == Some(m as int),
            None => java_major_of_words(crate::text::words(text@)) is None,
        },
{
    let ws = crate::text::split_whitespace_words(text);
    let ghost a = views(ws@);
    let mut i: usize = 0;
    proof {
        assert(a.subrange(0, a.len() as int) =~= a);
    }
    while i < ws.len()
        invariant
            a == views(ws@),
            a == crate::text::words(text@),
            i <= ws.len(),
            java_major_of_words(a) == java_major_of_words(a.subrange(i as int, a.len() as int)),
        decreases ws.len() - i,
    {
        let ghost rest = a.subrange(i as int, a.len() as int);
        proof {
            assert(rest[0] == ws@[i as int]@);
            assert(rest.drop_first() =~= a.subrange(i + 1, a.len() as int));
        }
        match word_major_exec(ws[i].as_str()) {
            Some(m) => {
                return Some(m);
            },
            None => {},
        }
        i += 1;
    }
    proof {
        assert(a.subrange(a.len() as int, a.len() as int) =~= Seq::<Seq<char>>::empty());
    }
    None
}

} // verus!
