//! Classpath and module-path handling: path normalisation for comparison,
//! order-preserving de-duplication and conflict filtering.

use vstd::prelude::*;
use crate::platform::{case_insensitive, cp_sep, cp_sep_char, get_cp_sep, OsKind};
use crate::text::{
    chars_of, join_seq, join_with, split_char, split_on, str_eq, string_of, trim_seq, trim_str,
    views,
};

verus! {

/// What `str::to_lowercase` returns for `s`.
pub uninterp spec fn lower_of(s: Seq<char>) -> Seq<char>;

/// Relies on `str::to_lowercase`: the lowercase mapping of each character,
/// which depends on the characters alone.
#[verifier::external_body]
pub(crate) fn lowercase(s: &str) -> (r: String)
    ensures
        r@ == lower_of(s@),
{
    s.to_lowercase()
}

/// Backslashes read as slashes.
pub open spec fn slash(c: char) -> char {
    if c == '\\' {
        '/'
    } else {
        c
    }
}

/// `s` with backslashes turned into slashes and each run of slashes
/// collapsed into one.
pub open spec fn collapse_slashes(s: Seq<char>) -> Seq<char>
    decreases s.len(),
{
    if s.len() == 0 {
        Seq::empty()
    } else {
        let r = collapse_slashes(s.drop_last());
        let c = slash(s.last());
        if c == '/' && r.len() > 0 && r.last() == '/' {
            r
        } else {
            r.push(c)
        }
    }
}

/// The form in which two paths are compared on `os`.
pub open spec fn normalize_spec(s: Seq<char>, os: OsKind) -> Seq<char> {
    let t = collapse_slashes(trim_seq(s));
    if case_insensitive(os) {
        lower_of(t)
    } else {
        t
    }
}

/// Normalises a path for comparison: trimmed, forward slashes, no doubled
/// slashes, and lower case where the file system ignores case.
pub fn normalize_path_for_compare(path: &str, os: OsKind) -> (r: String)
    ensures
        r@ == normalize_spec(path@, os),
{
    let t = trim_str(path);
    let x = chars_of(t.as_str());
    let mut out: Vec<char> = Vec::new();
    let mut i: usize = 0;
    while i < x.len()
        invariant
            i <= x.len(),
            out@ == collapse_slashes(x@.subrange(0, i as int)),
        decreases x.len() - i,
    {
        proof {
            assert(x@.subrange(0, i + 1).drop_last() =~= x@.subrange(0, i as int));
        }
        let c = if x[i] == '\\' {
            '/'
        } else {
            x[i]
        };
        let n = out.len();
        if !(c == '/' && n > 0 && out[n - 1] == '/') {
            out.push(c);
        }
        i += 1;
    }
    proof {
        assert(x@.subrange(0, x@.len() as int) =~= x@);
    }
    let s = string_of(out.as_slice());
    match os {
        OsKind::Windows => lowercase(s.as_str()),
        _ => s,
    }
}

/// Whether `s` is among `v`.
pub fn contains_string(v: &[String], s: &str) -> (r: bool)
    ensures
        r == views(v@).contains(s@),
{
    let mut i: usize = 0;
    while i < v.len()
        invariant
            i <= v.len(),
            forall|j: int| 0 <= j < i ==> v@[j]@ != s@,
        decreases v.len() - i,
    {
        if str_eq(v[i].as_str(), s) {
            assert(views(v@)[i as int] == s@);
            return true;
        }
        i += 1;
    }
    proof {
        if views(v@).contains(s@) {
            let j = choose|j: int| 0 <= j < views(v@).len() && views(v@)[j] == s@;
            assert(v@[j]@ == s@);
        }
    }
    false
}

/// The items of `a`, each kept only if no earlier item has the same
/// normalised form.
pub open spec fn dedup_spec(a: Seq<Seq<char>>, os: OsKind) -> Seq<Seq<char>>
    decreases a.len(),
{
    if a.len() == 0 {
        Seq::empty()
    } else {
        let r = dedup_spec(a.drop_last(), os);
        if exists|k: int|
            0 <= k < a.len() - 1 && normalize_spec(#[trigger] a[k], os) == normalize_spec(
                a.last(),
                os,
            ) {
            r
        } else {
            r.push(a.last())
        }
    }
}

proof fn lemma_dedup_subset(a: Seq<Seq<char>>, os: OsKind)
    ensures
        forall|i: int| 0 <= i < dedup_spec(a, os).len() ==> exists|k: int|
            0 <= k < a.len() && #[trigger] dedup_spec(a, os)[i] == a[k],
    decreases a.len(),
{
    if a.len() > 0 {
        lemma_dedup_subset(a.drop_last(), os);
        let r = dedup_spec(a.drop_last(), os);
        assert forall|i: int| 0 <= i < dedup_spec(a, os).len() implies exists|k: int|
            0 <= k < a.len() && #[trigger] dedup_spec(a, os)[i] == a[k] by {
            if i < r.len() {
                let k = choose|k: int| 0 <= k < a.drop_last().len() && r[i] == a.drop_last()[k];
                assert(a[k] == a.drop_last()[k]);
            } else {
                assert(dedup_spec(a, os)[i] == a.last());
            }
        }
    }
}

/// De-duplication leaves no two entries with the same normalised form:
/// the classpath handed to the game names each jar once.
pub proof fn lemma_dedup_distinct(a: Seq<Seq<char>>, os: OsKind)
    ensures
        forall|i: int, j: int|
            0 <= i < j < dedup_spec(a, os).len() ==> normalize_spec(#[trigger] dedup_spec(a, os)[i], os)
                != normalize_spec(#[trigger] dedup_spec(a, os)[j], os),
    decreases a.len(),
{
    if a.len() > 0 {
        lemma_dedup_distinct(a.drop_last(), os);
        lemma_dedup_subset(a.drop_last(), os);
        let r = dedup_spec(a.drop_last(), os);
        let d = dedup_spec(a, os);
        assert forall|i: int, j: int| 0 <= i < j < d.len() implies normalize_spec(#[trigger] d[i], os)
            != normalize_spec(#[trigger] d[j], os) by {
            if j < r.len() {
                assert(d[i] == r[i] && d[j] == r[j]);
            } else {
                assert(d[j] == a.last());
                assert(d[i] == r[i]);
                let k = choose|k: int| 0 <= k < a.drop_last().len() && r[i] == a.drop_last()[k];
                assert(a[k] == a.drop_last()[k]);
            }
        }
    }
}

/// Removes later duplicates, comparing normalised paths, and keeps the
/// first-seen order.
pub fn dedup_preserve_order(items: Vec<String>, os: OsKind) -> (r: Vec<String>)
    ensures
        views(r@) == dedup_spec(views(items@), os),
{
    let ghost a = views(items@);
    let mut keys: Vec<String> = Vec::new();
    let mut out: Vec<String> = Vec::new();
    let mut i: usize = 0;
    while i < items.len()
        invariant
            a == views(items@),
            i <= items.len(),
            keys.len() == i,
            forall|k: int| 0 <= k < i ==> #[trigger] keys@[k]@ == normalize_spec(a[k], os),
            views(out@) == dedup_spec(a.subrange(0, i as int), os),
        decreases items.len() - i,
    {
        let ghost pre = a.subrange(0, i + 1);
        proof {
            assert(pre.drop_last() =~= a.subrange(0, i as int));
            assert(pre.last() == a[i as int]);
        }
        let key = normalize_path_for_compare(items[i].as_str(), os);
        let seen = contains_string(keys.as_slice(), key.as_str());
        proof {
            if seen {
                let j = choose|j: int| 0 <= j < views(keys@).len() && views(keys@)[j] == key@;
                assert(keys@[j]@ == key@);
                assert(normalize_spec(pre[j], os) == normalize_spec(pre.last(), os));
            } else {
                assert forall|k: int| 0 <= k < pre.len() - 1 implies normalize_spec(
                    #[trigger] pre[k],
                    os,
                ) != normalize_spec(pre.last(), os) by {
                    assert(views(keys@)[k] == keys@[k]@);
                }
            }
        }
        if !seen {
            let ghost before = out@;
            let item = items[i].clone();
            out.push(item);
            proof {
                assert(views(out@) =~= views(before).push(item@));
            }
        }
        keys.push(key);
        i += 1;
    }
    proof {
        assert(a.subrange(0, a.len() as int) =~= a);
    }
    out
}

/// The module-path flags.
pub open spec fn module_path_flag(s: Seq<char>) -> bool {
    s == "-p"@ || s == "--module-path"@
}

/// The trimmed, non-empty pieces of `ps`.
pub open spec fn trimmed_pieces(ps: Seq<Seq<char>>) -> Seq<Seq<char>>
    decreases ps.len(),
{
    if ps.len() == 0 {
        Seq::empty()
    } else {
        let t = trim_seq(ps.last());
        if t.len() > 0 {
            trimmed_pieces(ps.drop_last()).push(t)
        } else {
            trimmed_pieces(ps.drop_last())
        }
    }
}

/// The normalised forms of `ps`.
pub open spec fn normalized_all(ps: Seq<Seq<char>>, os: OsKind) -> Seq<Seq<char>> {
    ps.map_values(|p: Seq<char>| normalize_spec(p, os))
}

/// The entries of one module-path value on `os`, trimmed, non-empty.
pub open spec fn module_path_entries(v: Seq<char>, os: OsKind) -> Seq<Seq<char>> {
    trimmed_pieces(split_on(v, cp_sep_char(os)))
}

/// The normalised entries of every module-path value in `a`, in order.
pub open spec fn module_libs_spec(a: Seq<Seq<char>>, os: OsKind) -> Seq<Seq<char>>
    decreases a.len(),
{
    if a.len() == 0 {
        Seq::empty()
    } else if module_path_flag(a[0]) && a.len() >= 2 {
        normalized_all(module_path_entries(a[1], os), os) + module_libs_spec(a.drop_first(), os)
    } else {
        module_libs_spec(a.drop_first(), os)
    }
}

fn is_module_path_flag(s: &str) -> (r: bool)
    ensures
        r == module_path_flag(s@),
{
    str_eq(s, "-p") || str_eq(s, "--module-path")
}

/// The entries of a module-path value, trimmed, empty ones left out.
pub fn module_path_entries_exec(v: &str, os: OsKind) -> (r: Vec<String>)
    ensures
        views(r@) == module_path_entries(v@, os),
{
    let pieces = split_char(v, cp_sep(os));
    let ghost ps = views(pieces@);
    let mut out: Vec<String> = Vec::new();
    let mut i: usize = 0;
    while i < pieces.len()
        invariant
            ps == views(pieces@),
            i <= pieces.len(),
            views(out@) == trimmed_pieces(ps.subrange(0, i as int)),
        decreases pieces.len() - i,
    {
        proof {
            assert(ps.subrange(0, i + 1).drop_last() =~= ps.subrange(0, i as int));
        }
        let t = trim_str(pieces[i].as_str());
        if t.as_str().unicode_len() > 0 {
            let ghost before = out@;
            out.push(t);
            proof {
                assert(views(out@) =~= views(before).push(t@));
            }
        }
        i += 1;
    }
    proof {
        assert(ps.subrange(0, ps.len() as int) =~= ps);
    }
    out
}

/// Collects the normalised entries of every module-path argument.
pub fn extract_module_path_libraries(jvm_args: &[String], os: OsKind) -> (r: Vec<String>)
    ensures
        views(r@) == module_libs_spec(views(jvm_args@), os),
{
    let ghost a = views(jvm_args@);
    let n = jvm_args.len();
    let mut i: usize = n;
    let mut out: Vec<String> = Vec::new();
    proof {
        assert(a.subrange(n as int, n as int) =~= Seq::<Seq<char>>::empty());
    }
    while i > 0
        invariant
            a == views(jvm_args@),
            n == jvm_args.len(),
            i <= n,
            views(out@) == module_libs_spec(a.subrange(i as int, n as int), os),
        decreases i,
    {
        i -= 1;
        let ghost rest = a.subrange(i as int, n as int);
        proof {
            assert(rest.drop_first() =~= a.subrange(i + 1, n as int));
            assert(rest[0] == jvm_args@[i as int]@);
        }
        if is_module_path_flag(jvm_args[i].as_str()) && i + 1 < n {
            assert(rest[1] == jvm_args@[i + 1]@);
            let entries = module_path_entries_exec(jvm_args[i + 1].as_str(), os);
            let mut normed: Vec<String> = Vec::new();
            let mut k: usize = 0;
            while k < entries.len()
                invariant
                    k <= entries.len(),
                    views(normed@) == normalized_all(views(entries@).subrange(0, k as int), os),
                decreases entries.len() - k,
            {
                let ghost before = normed@;
                let e = normalize_path_for_compare(entries[k].as_str(), os);
                normed.push(e);
                k += 1;
                proof {
                    let ea = views(entries@);
                    assert(ea[k - 1] == entries@[k - 1]@);
                    assert(views(normed@) =~= views(before).push(e@));
                    assert(normalized_all(ea.subrange(0, k as int), os) =~= normalized_all(
                        ea.subrange(0, k - 1),
                        os,
                    ).push(normalize_spec(ea[k - 1], os)));
                }
            }
            proof {
                assert(views(entries@).subrange(0, entries@.len() as int) =~= views(entries@));
            }
            let ghost nb = normed@;
            let ghost tail = out@;
            normed.append(&mut out);
            out = normed;
            proof {
                assert(views(out@) =~= views(nb) + views(tail));
            }
        }
    }
    proof {
        assert(a.subrange(0, n as int) =~= a);
    }
    out
}

/// A module-path value with its entries trimmed, de-duplicated and
/// re-joined with the separator of `os`.
pub open spec fn dedup_module_value(v: Seq<char>, os: OsKind) -> Seq<char> {
    join_seq(dedup_spec(module_path_entries(v, os), os), seq![cp_sep_char(os)])
}

/// JVM arguments with the value of every module-path flag de-duplicated.
pub open spec fn dedup_module_args_spec(a: Seq<Seq<char>>, os: OsKind) -> Seq<Seq<char>>
    decreases a.len(),
{
    if a.len() == 0 {
        Seq::empty()
    } else if module_path_flag(a[0]) && a.len() >= 2 {
        seq![a[0], dedup_module_value(a[1], os)] + dedup_module_args_spec(
            a.subrange(2, a.len() as int),
            os,
        )
    } else {
        seq![a[0]] + dedup_module_args_spec(a.drop_first(), os)
    }
}

/// De-duplicates the entries of each module-path argument, so that no
/// module is read twice.
pub fn deduplicate_module_path_args(jvm_args: Vec<String>, os: OsKind) -> (r: Vec<String>)
    ensures
        views(r@) == dedup_module_args_spec(views(jvm_args@), os),
{
    let ghost a = views(jvm_args@);
    let n = jvm_args.len();
    let mut out: Vec<String> = Vec::new();
    let mut i: usize = 0;
    proof {
        assert(a.subrange(0, n as int) =~= a);
        assert(views(out@) + a =~= a);
    }
    while i < n
        invariant
            a == views(jvm_args@),
            n == jvm_args.len(),
            i <= n,
            views(out@) + dedup_module_args_spec(a.subrange(i as int, n as int), os)
                == dedup_module_args_spec(a, os),
        decreases n - i,
    {
        let ghost rest = a.subrange(i as int, n as int);
        let ghost before = out@;
        proof {
            assert(rest[0] == jvm_args@[i as int]@);
            assert(rest.drop_first() =~= a.subrange(i + 1, n as int));
        }
        let flag = jvm_args[i].clone();
        if is_module_path_flag(flag.as_str()) && i + 1 < n {
            proof {
                assert(rest[1] == jvm_args@[i + 1]@);
                assert(rest.subrange(2, rest.len() as int) =~= a.subrange(i + 2, n as int));
            }
            let entries = module_path_entries_exec(jvm_args[i + 1].as_str(), os);
            let kept = dedup_preserve_order(entries, os);
            let sep = get_cp_sep(os);
            let value = join_with(kept.as_slice(), sep);
            out.push(flag);
            out.push(value);
            proof {
                assert(views(out@) =~= views(before) + seq![rest[0], value@]);
            }
            i += 2;
        } else {
            out.push(flag);
            proof {
                assert(views(out@) =~= views(before) + seq![rest[0]]);
            }
            i += 1;
        }
    }
    proof {
        assert(a.subrange(n as int, n as int) =~= Seq::<Seq<char>>::empty());
        assert(views(out@) + Seq::<Seq<char>>::empty() =~= views(out@));
    }
    out
}

/// The classpath entries whose normalised form is not among `libs`.
pub open spec fn keep_not_on_module_path(
    ps: Seq<Seq<char>>,
    libs: Seq<Seq<char>>,
    os: OsKind,
) -> Seq<Seq<char>>
    decreases ps.len(),
{
    if ps.len() == 0 {
        Seq::empty()
    } else {
        let r = keep_not_on_module_path(ps.drop_last(), libs, os);
        if libs.contains(normalize_spec(ps.last(), os)) {
            r
        } else {
            r.push(ps.last())
        }
    }
}

/// The classpath string without the entries that the module path holds.
pub open spec fn filter_cp_spec(cp: Seq<char>, libs: Seq<Seq<char>>, os: OsKind) -> Seq<char> {
    if libs.len() == 0 {
        cp
    } else {
        join_seq(
            keep_not_on_module_path(split_on(cp, cp_sep_char(os)), libs, os),
            seq![cp_sep_char(os)],
        )
    }
}

/// Removes from the classpath each entry that is exactly (after
/// normalisation) an entry of the module path.
pub fn filter_classpath_conflicts(cp_string: &str, module_libs: &[String], os: OsKind) -> (r:
    String)
    ensures
        r@ == filter_cp_spec(cp_string@, views(module_libs@), os),
{
    if module_libs.len() == 0 {
        return String::from_str(cp_string);
    }
    let pieces = split_char(cp_string, cp_sep(os));
    let ghost ps = views(pieces@);
    let mut kept: Vec<String> = Vec::new();
    let mut i: usize = 0;
    while i < pieces.len()
        invariant
            ps == views(pieces@),
            i <= pieces.len(),
            views(kept@) == keep_not_on_module_path(ps.subrange(0, i as int), views(module_libs@), os),
        decreases pieces.len() - i,
    {
        proof {
            assert(ps.subrange(0, i + 1).drop_last() =~= ps.subrange(0, i as int));
        }
        let key = normalize_path_for_compare(pieces[i].as_str(), os);
        if !contains_string(module_libs, key.as_str()) {
            let ghost before = kept@;
            let item = pieces[i].clone();
            kept.push(item);
            proof {
                assert(views(kept@) =~= views(before).push(item@));
            }
        }
        i += 1;
    }
    proof {
        assert(ps.subrange(0, ps.len() as int) =~= ps);
    }
    join_with(kept.as_slice(), get_cp_sep(os))
}

} // verus!
