//! Profile ids: a slug of the display name, made unique among the ids
//! already taken.

use vstd::prelude::*;
use crate::classpath::{contains_string, lower_of, lowercase};
use crate::text::{chars_of, concat3, decimal, decimal_string, slice_string, views};

verus! {

/// What `Regex::replace_all` returns for a pattern, a text and a
/// replacement.
pub uninterp spec fn regex_replaced(pattern: Seq<char>, text: Seq<char>, rep: Seq<char>) -> Seq<char>;

/// Whether `Regex::new` accepts a pattern.
pub uninterp spec fn regex_valid(pattern: Seq<char>) -> bool;

/// Relies on `regex::Regex::new` and `Regex::replace_all`: every
/// non-overlapping match of the pattern in the text replaced; `None` when
/// the pattern does not compile.
#[verifier::external_body]
fn regex_replace_all(pattern: &str, text: &str, rep: &str) -> (r: Option<String>)
    ensures
        r is Some <==> regex_valid(pattern@),
        r matches Some(s) ==> s@ == regex_replaced(pattern@, text@, rep@),
{
    match regex::Regex::new(pattern) {
        Ok(re) => Some(re.replace_all(text, rep).into_owned()),
        Err(_) => None,
    }
}

/// What `Regex::captures` finds for a pattern in a text, and then
/// `Captures::get` for a group: `None` when nothing matches, else the text
/// of the group if it took part in the first match.
pub uninterp spec fn regex_group_of(pattern: Seq<char>, text: Seq<char>, group: nat) -> Option<Option<Seq<char>>>;

pub open spec fn nested_view(m: Option<Option<String>>) -> Option<Option<Seq<char>>> {
    match m {
        Some(Some(s)) => Some(Some(s@)),
        Some(None) => Some(None),
        None => None,
    }
}

/// Relies on `regex::Regex::new`, `Regex::captures` and `Captures::get`:
/// the first match of the pattern and the text of one of its groups;
/// `None` when the pattern does not compile.
#[verifier::external_body]
pub(crate) fn regex_group(pattern: &str, text: &str, group: usize) -> (r: Option<Option<Option<String>>>)
    ensures
        r is Some <==> regex_valid(pattern@),
        r matches Some(m) ==> nested_view(m) == regex_group_of(pattern@, text@, group as nat),
{
    match regex::Regex::new(pattern) {
        Ok(re) => match re.captures(text) {
            Some(caps) => match caps.get(group) {
                Some(m) => Some(Some(Some(m.as_str().to_string()))),
                None => Some(Some(None)),
            },
            None => Some(None),
        },
        Err(_) => None,
    }
}

/// Relies on `uuid::Uuid::new_v4` and its hyphenated text form, which is
/// 36 characters long; the value is random.
#[verifier::external_body]
fn random_uuid_string() -> (r: String)
    ensures
        r@.len() == 36,
{
    uuid::Uuid::new_v4().to_string()
}

/// `s` without leading and trailing `c`.
pub open spec fn trim_char_spec(s: Seq<char>, c: char) -> Seq<char>
    decreases s.len(),
{
    if s.len() > 0 && s[0] == c {
        trim_char_spec(s.drop_first(), c)
    } else if s.len() > 0 && s.last() == c {
        trim_char_spec(s.drop_last(), c)
    } else {
        s
    }
}

/// Removes leading and trailing `c`.
pub fn trim_char(s: &str, c: char) -> (r: String)
    ensures
        r@ == trim_char_spec(s@, c),
{
    let x = chars_of(s);
    let mut lo: usize = 0;
    let mut hi: usize = x.len();
    proof {
        assert(x@.subrange(0, x@.len() as int) =~= s@);
    }
    while lo < hi && x[lo] == c
        invariant
            lo <= hi <= x.len(),
            hi == x.len(),
            trim_char_spec(s@, c) == trim_char_spec(x@.subrange(lo as int, hi as int), c),
        decreases hi - lo,
    {
        proof {
            assert(x@.subrange(lo as int, hi as int).drop_first() =~= x@.subrange(lo + 1, hi as int));
        }
        lo += 1;
    }
    while lo < hi && x[hi - 1] == c
        invariant
            lo <= hi <= x.len(),
            lo < hi ==> x@[lo as int] != c,
            trim_char_spec(s@, c) == trim_char_spec(x@.subrange(lo as int, hi as int), c),
        decreases hi - lo,
    {
        proof {
            let t = x@.subrange(lo as int, hi as int);
            assert(t.drop_last() =~= x@.subrange(lo as int, hi - 1));
            if t.len() > 1 {
                assert(t[0] == x@[lo as int]);
            } else {
                assert(t.len() == 1);
                assert(t[0] == c);
            }
        }
        hi -= 1;
    }
    proof {
        let t = x@.subrange(lo as int, hi as int);
        if t.len() > 0 {
            assert(t[0] == x@[lo as int]);
            assert(t.last() == x@[hi - 1]);
        }
    }
    slice_string(x.as_slice(), lo, hi)
}

/// The slug of a name: lowercased, each run of characters other than
/// `a-z0-9` turned into `-`, and `-` trimmed from both ends.
pub open spec fn slug_spec(name: Seq<char>) -> Seq<char> {
    trim_char_spec(regex_replaced("[^a-z0-9]+"@, lower_of(name), "-"@), '-')
}

/// The slug of a display name; a name with no usable character gets a
/// random id instead.
pub fn slugify(name: &str) -> (r: String)
    ensures
        regex_valid("[^a-z0-9]+"@) && slug_spec(name@).len() > 0 ==> r@ == slug_spec(name@),
        r@.len() > 0,
{
    let lower = lowercase(name);
    let slug = match regex_replace_all("[^a-z0-9]+", lower.as_str(), "-") {
        Some(s) => s,
        None => {
            return random_uuid_string();
        },
    };
    let trimmed = trim_char(slug.as_str(), '-');
    if trimmed.as_str().unicode_len() == 0 {
        return random_uuid_string();
    }
    trimmed
}

/// Candidate `k` for a base id: the base itself, then `base-1`, `base-2`, ...
pub open spec fn candidate(base: Seq<char>, k: nat) -> Seq<char> {
    if k == 0 {
        base
    } else {
        base + "-"@ + decimal(k)
    }
}

/// The first candidate not among `existing`: `r` is candidate `k`, every
/// earlier candidate is taken, and `r` is free unless all of the first
/// `existing.len() + 2` candidates were taken (which cannot be, as they
/// are distinct).
pub fn unique_id_from_base(base: &str, existing: &[String]) -> (r: String)
    requires
        existing.len() < usize::MAX,
    ensures
        exists|k: nat|
            k <= existing.len() + 1 && r@ == candidate(base@, k) && (forall|j: nat|
                j < k ==> views(existing@).contains(#[trigger] candidate(base@, j))) && (
            !views(existing@).contains(candidate(base@, k)) || k == existing.len() + 1),
{
    let mut cand = String::from_str(base);
    let mut k: usize = 0;
    while k <= existing.len() && contains_string(existing, cand.as_str())
        invariant
            existing.len() < usize::MAX,
            k <= existing.len() + 1,
            cand@ == candidate(base@, k as nat),
            forall|j: nat| j < k ==> views(existing@).contains(#[trigger] candidate(base@, j)),
        decreases existing.len() + 1 - k,
    {
        proof {
            assert(views(existing@).contains(candidate(base@, k as nat)));
        }
        k += 1;
        let n = decimal_string(k as u64);
        cand = concat3(base, "-", n.as_str());
    }
    cand
}

/// A profile id for a display name, unique among `existing_ids`.
pub fn get_unique_id(name: &str, existing_ids: &[String]) -> (r: String)
    requires
        existing_ids.len() < usize::MAX,
    ensures
        regex_valid("[^a-z0-9]+"@) && slug_spec(name@).len() > 0 ==> exists|k: nat|
            k <= existing_ids.len() + 1 && r@ == candidate(slug_spec(name@), k) && (forall|j: nat|
                j < k ==> views(existing_ids@).contains(#[trigger] candidate(slug_spec(name@), j)))
                && (!views(existing_ids@).contains(candidate(slug_spec(name@), k)) || k
                == existing_ids.len() + 1),
{
    let base = slugify(name);
    unique_id_from_base(base.as_str(), existing_ids)
}

} // verus!
