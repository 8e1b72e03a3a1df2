//! Package paths such as `wasi:io/streams@0.2.0-rc` and how they print.
use vstd::prelude::*;
use crate::numbers::{decimal, push_decimal};
use crate::text::{join, join_parts, push_range, push_str, string_of, views};

verus! {

/// A package version: `major.minor.patch`, with an optional pre-release tag.
pub struct PackageVersion {
    pub major: u64,
    pub minor: u64,
    pub patch: u64,
    pub prerelease: Option<String>,
}

/// A package path: namespace segments, name segments and an optional
/// version.
pub struct PackagePath {
    pub namespace: Vec<String>,
    pub name: Vec<String>,
    pub version: Option<PackageVersion>,
}

/// The views of a list of strings.
pub open spec fn segment_views(v: Seq<String>) -> Seq<Seq<char>> {
    v.map_values(|s: String| s@)
}

/// How a version prints: `major.minor.patch`, then `-` and the pre-release
/// tag if there is one.
pub open spec fn version_text(v: PackageVersion) -> Seq<char> {
    decimal(v.major as nat) + "."@ + decimal(v.minor as nat) + "."@ + decimal(v.patch as nat)
        + match v.prerelease {
        Some(p) => "-"@ + p@,
        None => Seq::empty(),
    }
}

/// How a package path prints: the namespace segments joined by `:` and
/// followed by `:` (when there are any), the name segments joined by `/`,
/// then `@` and the version if there is one.
pub open spec fn package_path_text(p: PackagePath) -> Seq<char> {
    let ns = segment_views(p.namespace@);
    (if ns.len() > 0 {
        join(ns, ":"@) + ":"@
    } else {
        Seq::empty()
    }) + join(segment_views(p.name@), "/"@) + match p.version {
        Some(v) => "@"@ + version_text(v),
        None => Seq::empty(),
    }
}

fn segment_chars(v: &Vec<String>) -> (r: Vec<Vec<char>>)
    ensures
        views(r@) == segment_views(v@),
{
    let mut r: Vec<Vec<char>> = Vec::new();
    let mut k: usize = 0;
    while k < v.len()
        invariant
            k <= v@.len(),
            views(r@) == segment_views(v@).take(k as int),
        decreases v@.len() - k,
    {
        let ghost before = views(r@);
        r.push(crate::text::chars_of(v[k].as_str()));
        assert(views(r@) =~= before.push(v@[k as int]@));
        assert(segment_views(v@).take(k + 1) =~= segment_views(v@).take(k as int).push(v@[k as int]@));
        k = k + 1;
    }
    assert(segment_views(v@).take(v@.len() as int) =~= segment_views(v@));
    r
}

fn push_all(out: &mut Vec<char>, s: &Vec<char>)
    ensures
        final(out)@ == old(out)@ + s@,
{
    push_range(out, s.as_slice(), 0, s.len());
    assert(s@.subrange(0, s@.len() as int) =~= s@);
}

/// The printed form of a package path.
pub fn package_path_to_string(path: &PackagePath) -> (r: String)
    ensures
        r@ == package_path_text(*path),
{
    let mut out: Vec<char> = Vec::new();
    if path.namespace.len() > 0 {
        let ns = segment_chars(&path.namespace);
        let joined = join_parts(&ns, ":");
        push_all(&mut out, &joined);
        push_str(&mut out, ":");
    }
    let name = segment_chars(&path.name);
    let joined = join_parts(&name, "/");
    push_all(&mut out, &joined);
    let ghost body = out@;
    match &path.version {
        Some(v) => {
            push_str(&mut out, "@");
            push_decimal(&mut out, v.major);
            push_str(&mut out, ".");
            push_decimal(&mut out, v.minor);
            push_str(&mut out, ".");
            push_decimal(&mut out, v.patch);
            match &v.prerelease {
                Some(p) => {
                    push_str(&mut out, "-");
                    push_str(&mut out, p.as_str());
                },
                None => {},
            }
            assert(out@ =~= body + ("@"@ + version_text(*v)));
        },
        None => {
            assert(out@ =~= body + Seq::<char>::empty());
        },
    }
    string_of(out.as_slice())
}

} // verus!
