//! Maven coordinates: the relative store path of a coordinate, classifier
//! variants, and URLs under a repository base.

use vstd::prelude::*;
use crate::text::{
    chars_of, concat2, concat3, ends_with_seq, ends_with_str, slice_string, split_char, split_on,
    string_of, views,
};

verus! {

/// Index of the last `c` in `s`, or -1 when there is none.
pub open spec fn last_index(s: Seq<char>, c: char) -> int
    decreases s.len(),
{
    if s.len() == 0 {
        -1
    } else if s.last() == c {
        s.len() - 1
    } else {
        last_index(s.drop_last(), c)
    }
}

/// The coordinate without an `@ext` suffix, and that extension, split at
/// the last `@`.
pub open spec fn coord_part(s: Seq<char>) -> Seq<char> {
    let k = last_index(s, '@');
    if k >= 0 {
        s.subrange(0, k)
    } else {
        s
    }
}

pub open spec fn at_ext(s: Seq<char>) -> Option<Seq<char>> {
    let k = last_index(s, '@');
    if k >= 0 {
        Some(s.subrange(k + 1, s.len() as int))
    } else {
        None
    }
}

/// A group id as a directory path: dots become slashes.
pub open spec fn group_dirs(g: Seq<char>) -> Seq<char> {
    g.map_values(|c: char| if c == '.' { '/' } else { c })
}

/// The relative store path of a maven coordinate
/// `group:artifact:version[:classifier[:ext]][@ext]`, if it has at least
/// three parts.
pub open spec fn maven_path_spec(coordinate: Seq<char>) -> Option<Seq<char>> {
    let parts = split_on(coord_part(coordinate), ':');
    if parts.len() < 3 {
        None
    } else {
        let artifact = parts[1];
        let version = parts[2];
        let ext = match at_ext(coordinate) {
            Some(e) => e,
            None => if parts.len() >= 5 {
                parts[4]
            } else {
                "jar"@
            },
        };
        let stem = if parts.len() >= 4 && parts[3].len() > 0 {
            artifact + "-"@ + version + "-"@ + parts[3]
        } else {
            artifact + "-"@ + version
        };
        Some(group_dirs(parts[0]) + "/"@ + artifact + "/"@ + version + "/"@ + stem + "."@ + ext)
    }
}

/// Splits at the last `@`: the coordinate and the extension after it.
fn split_ext(s: &str) -> (r: (String, Option<String>))
    ensures
        r.0@ == coord_part(s@),
        match r.1 {
            Some(e) => at_ext(s@) == Some(e@),
            None => at_ext(s@) is None,
        },
{
    let x = chars_of(s);
    let mut i: usize = x.len();
    proof {
        assert(s@.subrange(0, i as int) =~= s@);
    }
    while i > 0
        invariant
            i <= x.len(),
            x@ == s@,
            last_index(s@, '@') == last_index(s@.subrange(0, i as int), '@'),
        decreases i,
    {
        if x[i - 1] == '@' {
            proof {
                assert(s@.subrange(0, i as int).last() == '@');
            }
            let c = slice_string(x.as_slice(), 0, i - 1);
            let e = slice_string(x.as_slice(), i, x.len());
            return (c, Some(e));
        }
        proof {
            assert(s@.subrange(0, i as int).drop_last() =~= s@.subrange(0, i - 1));
        }
        i -= 1;
    }
    (String::from_str(s), None)
}

fn group_to_dirs(g: &str) -> (r: String)
    ensures
        r@ == group_dirs(g@),
{
    let x = chars_of(g);
    let mut out: Vec<char> = Vec::new();
    let mut i: usize = 0;
    while i < x.len()
        invariant
            i <= x.len(),
            x@ == g@,
            out@ == group_dirs(g@.subrange(0, i as int)),
        decreases x.len() - i,
    {
        if x[i] == '.' {
            out.push('/');
        } else {
            out.push(x[i]);
        }
        i += 1;
        proof {
            assert(out@ =~= group_dirs(g@.subrange(0, i as int)));
        }
    }
    proof {
        assert(g@.subrange(0, x@.len() as int) =~= g@);
    }
    string_of(out.as_slice())
}

/// Converts a maven coordinate to its path in a maven repository layout,
/// e.g. `org.example:artifact:1.0` to `org/example/artifact/1.0/artifact-1.0.jar`.
pub fn maven_to_path(coordinate: &str) -> (r: Option<String>)
    ensures
        match r {
            Some(p) => maven_path_spec(coordinate@) == Some(p@),
            None => maven_path_spec(coordinate@) is None,
        },
{
    let (coord, ext_at) = split_ext(coordinate);
    let parts = split_char(coord.as_str(), ':');
    let ghost ps = views(parts@);
    if parts.len() < 3 {
        return None;
    }
    let artifact = parts[1].as_str();
    let version = parts[2].as_str();
    let ext: String = match ext_at {
        Some(e) => e,
        None => if parts.len() >= 5 {
            parts[4].clone()
        } else {
            String::from_str("jar")
        },
    };
    let mut stem = concat3(artifact, "-", version);
    if parts.len() >= 4 && parts[3].as_str().unicode_len() > 0 {
        stem.append("-");
        stem.append(parts[3].as_str());
    }
    let mut out = group_to_dirs(parts[0].as_str());
    out.append("/");
    out.append(artifact);
    out.append("/");
    out.append(version);
    out.append("/");
    out.append(stem.as_str());
    out.append(".");
    out.append(ext.as_str());
    proof {
        assert(ps[0] == parts@[0]@);
        assert(ps[1] == parts@[1]@);
        assert(ps[2] == parts@[2]@);
        if parts.len() >= 4 {
            assert(ps[3] == parts@[3]@);
        }
        if parts.len() >= 5 {
            assert(ps[4] == parts@[4]@);
        }
    }
    Some(out)
}

/// The coordinate with `classifier` in the classifier position, keeping an
/// explicit extension (from `@ext` or the fifth part) as `@ext`.
pub open spec fn with_classifier_spec(name: Seq<char>, classifier: Seq<char>) -> Option<Seq<char>> {
    let parts = split_on(coord_part(name), ':');
    if parts.len() < 3 {
        None
    } else {
        let base = parts[0] + ":"@ + parts[1] + ":"@ + parts[2] + ":"@ + classifier;
        match at_ext(name) {
            Some(e) => Some(base + "@"@ + e),
            None => if parts.len() >= 5 {
                Some(base + "@"@ + parts[4])
            } else {
                Some(base)
            },
        }
    }
}

/// Replaces or adds the classifier of a maven coordinate.
pub fn append_classifier_to_maven_coord(name: &str, classifier: &str) -> (r: Option<String>)
    ensures
        match r {
            Some(p) => with_classifier_spec(name@, classifier@) == Some(p@),
            None => with_classifier_spec(name@, classifier@) is None,
        },
{
    let (coord, ext_at) = split_ext(name);
    let parts = split_char(coord.as_str(), ':');
    let ghost ps = views(parts@);
    if parts.len() < 3 {
        return None;
    }
    let mut out = concat3(parts[0].as_str(), ":", parts[1].as_str());
    out.append(":");
    out.append(parts[2].as_str());
    out.append(":");
    out.append(classifier);
    proof {
        assert(ps[0] == parts@[0]@);
        assert(ps[1] == parts@[1]@);
        assert(ps[2] == parts@[2]@);
        if parts.len() >= 5 {
            assert(ps[4] == parts@[4]@);
        }
    }
    match ext_at {
        Some(e) => {
            out.append("@");
            out.append(e.as_str());
        },
        None => {
            if parts.len() >= 5 {
                out.append("@");
                out.append(parts[4].as_str());
            }
        },
    }
    Some(out)
}

/// The store path of the loader installer jar of `version`.
pub open spec fn installer_path_spec(version: Seq<char>) -> Seq<char> {
    "net/neoforged/neoforge/"@ + version + "/neoforge-"@ + version + "-installer.jar"@
}

pub fn neoforge_installer_maven_path(neoforge_version: &str) -> (r: String)
    ensures
        r@ == installer_path_spec(neoforge_version@),
{
    let mut out = concat3("net/neoforged/neoforge/", neoforge_version, "/neoforge-");
    out.append(neoforge_version);
    out.append("-installer.jar");
    out
}

/// `rel` under the repository `base`, with exactly the one slash that
/// `base` may already end with.
pub open spec fn join_url_spec(base: Seq<char>, rel: Seq<char>) -> Seq<char> {
    if ends_with_seq(base, "/"@) {
        base + rel
    } else {
        base + "/"@ + rel
    }
}

pub fn join_base_and_rel_url(base: &str, rel: &str) -> (r: String)
    ensures
        r@ == join_url_spec(base@, rel@),
{
    if ends_with_str(base, "/") {
        concat2(base, rel)
    } else {
        concat3(base, "/", rel)
    }
}

} // verus!
