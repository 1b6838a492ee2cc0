//! Discovery decisions: URL paths for discovered files, the fixed probe
//! order for a default function entrypoint, and the pattern rules for an
//! imported platform build.

use vstd::prelude::*;

use crate::middleware::flag_views;
use crate::json::{spec_u64_digits, u64_to_string};
use crate::strutil::{ends_with, spec_ends_with, spec_starts_with, starts_with, str_eq, substr};

verus! {

/// One discovered file, relative to the walked root: the directory names
/// down to it, and its file name.
#[derive(Debug)]
pub struct RelativeFile {
    pub segments: Vec<String>,
    pub name: String,
}

/// The URL path of a discovered file: the prefix, each directory name
/// followed by `/`, then the file name.
pub open spec fn spec_url_path(prefix: Seq<char>, segments: Seq<Seq<char>>, name: Seq<char>) -> Seq<
    char,
>
    decreases segments.len(),
{
    if segments.len() == 0 {
        prefix + name
    } else {
        spec_url_path(prefix + segments.first() + "/"@, segments.drop_first(), name)
    }
}

/// Maps discovered files to `(file index, url path)` pairs, in input
/// order.
pub open spec fn spec_discovered(prefix: Seq<char>, files: Seq<RelativeFile>) -> Seq<Seq<char>> {
    files.map_values(
        |f: RelativeFile| spec_url_path(prefix, flag_views(f.segments@), f.name@),
    )
}

fn url_path(prefix: &str, file: &RelativeFile) -> (r: String)
    ensures
        r@ == spec_url_path(prefix@, flag_views(file.segments@), file.name@),
{
    let ghost segs = flag_views(file.segments@);
    let mut out = String::from_str(prefix);
    proof {
        assert(segs.skip(0) =~= segs);
    }
    let n = file.segments.len();
    let mut i: usize = 0;
    while i < n
        invariant
            0 <= i <= n,
            n == file.segments@.len(),
            segs == flag_views(file.segments@),
            spec_url_path(out@, segs.skip(i as int), file.name@) == spec_url_path(
                prefix@,
                segs,
                file.name@,
            ),
        decreases n - i,
    {
        proof {
            assert(segs.skip(i as int).first() == segs[i as int]);
            assert(segs.skip(i as int).drop_first() =~= segs.skip(i + 1));
        }
        out.append(file.segments[i].as_str());
        out.append("/");
        i += 1;
    }
    proof {
        assert(segs.skip(n as int) =~= Seq::<Seq<char>>::empty());
    }
    out.append(file.name.as_str());
    out
}

/// The URL paths of the discovered files, rooted at the given prefix: each
/// directory name contributes its name and a slash, then the file name.
pub fn discover_files(prefix: &str, files: &Vec<RelativeFile>) -> (r: Vec<String>)
    ensures
        flag_views(r@) == spec_discovered(prefix@, files@),
{
    let mut out: Vec<String> = Vec::new();
    let n = files.len();
    let mut i: usize = 0;
    proof {
        assert(flag_views(out@) =~= spec_discovered(prefix@, files@).take(0));
    }
    while i < n
        invariant
            0 <= i <= n,
            n == files@.len(),
            flag_views(out@) =~= spec_discovered(prefix@, files@).take(i as int),
        decreases n - i,
    {
        let url = url_path(prefix, &files[i]);
        let ghost urlv = url@;
        let ghost old_out = out@;
        out.push(url);
        proof {
            assert(flag_views(out@) =~= flag_views(old_out).push(urlv));
            assert(urlv == spec_discovered(prefix@, files@)[i as int]);
            assert(spec_discovered(prefix@, files@).take(i + 1) =~= spec_discovered(
                prefix@,
                files@,
            ).take(i as int).push(spec_discovered(prefix@, files@)[i as int]));
            assert(flag_views(out@) =~= spec_discovered(prefix@, files@).take(i + 1));
        }
        i += 1;
    }
    proof {
        assert(spec_discovered(prefix@, files@).take(n as int) =~= spec_discovered(
            prefix@,
            files@,
        ));
    }
    out
}

// ---------------------------------------------------------------------------
// Default function entrypoint
// ---------------------------------------------------------------------------
/// The fixed candidate order for the default function entrypoint: a root
/// index file before a `src/` one, JavaScript before TypeScript at each
/// tier. The caller says which candidates exist; the first match wins, and
/// no match means no function.
pub fn resolve_function_entry(
    has_root_js: bool,
    has_root_ts: bool,
    has_src_js: bool,
    has_src_ts: bool,
) -> (r: Option<String>)
    ensures
        has_root_js ==> (r matches Some(p) && p@ == "index.js"@),
        !has_root_js && has_root_ts ==> (r matches Some(p) && p@ == "index.ts"@),
        !has_root_js && !has_root_ts && has_src_js ==> (r matches Some(p) && p@
            == "src/index.js"@),
        !has_root_js && !has_root_ts && !has_src_js && has_src_ts ==> (r matches Some(p) && p@
            == "src/index.ts"@),
        !has_root_js && !has_root_ts && !has_src_js && !has_src_ts ==> r is None,
{
    if has_root_js {
        Some(String::from_str("index.js"))
    } else if has_root_ts {
        Some(String::from_str("index.ts"))
    } else if has_src_js {
        Some(String::from_str("src/index.js"))
    } else if has_src_ts {
        Some(String::from_str("src/index.ts"))
    } else {
        None
    }
}

// ---------------------------------------------------------------------------
// Platform-build import patterns
// ---------------------------------------------------------------------------
/// A directory or file name that spells a dynamic segment.
pub open spec fn spec_bracketed(s: Seq<char>) -> bool {
    spec_starts_with(s, "["@) && spec_ends_with(s, "]"@)
}

fn bracketed(s: &str) -> (r: bool)
    ensures
        r == spec_bracketed(s@),
{
    starts_with(s, "[") && ends_with(s, "]")
}

/// The route pattern prefix the directories of one build-output file
/// contribute: `/`, then for each directory its name and a slash, with a
/// bracketed name becoming a wildcard segment.
pub open spec fn spec_worker_prefix(acc: Seq<char>, dirs: Seq<Seq<char>>) -> Seq<char>
    decreases dirs.len(),
{
    if dirs.len() == 0 {
        acc
    } else if spec_bracketed(dirs.first()) {
        spec_worker_prefix(acc + "*/"@, dirs.drop_first())
    } else {
        spec_worker_prefix(acc + dirs.first() + "/"@, dirs.drop_first())
    }
}

/// The pattern one build-output file contributes, if it is a function
/// file: the not-found convention at the root maps to the catch-all, the
/// index convention at the root maps to `/`, a bracketed stem becomes a
/// wildcard, and any other stem is appended to its directory pattern.
pub open spec fn spec_worker_pattern(dirs: Seq<Seq<char>>, name: Seq<char>) -> Option<Seq<char>> {
    if !spec_ends_with(name, ".func.js"@) {
        None
    } else {
        let prefix = spec_worker_prefix("/"@, dirs);
        if prefix == "/"@ && name == "_not-found.func.js"@ {
            Some("*"@)
        } else if prefix == "/"@ && name == "index.func.js"@ {
            Some("/"@)
        } else {
            let stem = name.take(name.len() - ".func.js"@.len());
            if spec_bracketed(stem) {
                Some(prefix + "*/"@)
            } else {
                Some(prefix + stem + "/"@)
            }
        }
    }
}

/// The `(pattern, file index)` pairs of an imported build output, in input
/// order; files that are not function files contribute nothing.
pub open spec fn spec_next_workers(files: Seq<RelativeFile>) -> Seq<(Seq<char>, int)>
    decreases files.len(),
{
    if files.len() == 0 {
        Seq::empty()
    } else {
        spec_next_workers(files.drop_last()) + (match spec_worker_pattern(
            flag_views(files.last().segments@),
            files.last().name@,
        ) {
            Some(p) => seq![(p, files.len() - 1)],
            None => Seq::empty(),
        })
    }
}

fn worker_prefix(dirs: &Vec<String>) -> (r: String)
    ensures
        r@ == spec_worker_prefix("/"@, flag_views(dirs@)),
{
    let ghost ds = flag_views(dirs@);
    let mut out = String::from_str("/");
    proof {
        assert(ds.skip(0) =~= ds);
    }
    let n = dirs.len();
    let mut i: usize = 0;
    while i < n
        invariant
            0 <= i <= n,
            n == dirs@.len(),
            ds == flag_views(dirs@),
            spec_worker_prefix(out@, ds.skip(i as int)) == spec_worker_prefix("/"@, ds),
        decreases n - i,
    {
        proof {
            assert(ds.skip(i as int).first() == ds[i as int]);
            assert(ds.skip(i as int).drop_first() =~= ds.skip(i + 1));
        }
        if bracketed(dirs[i].as_str()) {
            out.append("*/");
        } else {
            out.append(dirs[i].as_str());
            out.append("/");
        }
        i += 1;
    }
    proof {
        assert(ds.skip(n as int) =~= Seq::<Seq<char>>::empty());
    }
    out
}

/// The route patterns an imported build output contributes: one
/// `(pattern, file index)` pair per function file, in input order.
pub fn extract_next_worker(files: &Vec<RelativeFile>) -> (r: Vec<(String, usize)>)
    ensures
        r@.map_values(|p: (String, usize)| (p.0@, p.1 as int)) == spec_next_workers(files@),
{
    let mut out: Vec<(String, usize)> = Vec::new();
    let n = files.len();
    let mut i: usize = 0;
    proof {
        assert(out@.map_values(|p: (String, usize)| (p.0@, p.1 as int)) =~= spec_next_workers(
            files@.take(0),
        ));
    }
    while i < n
        invariant
            0 <= i <= n,
            n == files@.len(),
            out@.map_values(|p: (String, usize)| (p.0@, p.1 as int)) =~= spec_next_workers(
                files@.take(i as int),
            ),
        decreases n - i,
    {
        let f = &files[i];
        proof {
            assert(files@.take(i + 1).drop_last() =~= files@.take(i as int));
            assert(files@.take(i + 1).last() == files@[i as int]);
            assert(files@.take(i + 1).len() - 1 == i as int);
        }
        if ends_with(f.name.as_str(), ".func.js") {
            let prefix = worker_prefix(&f.segments);
            let pattern: String = if str_eq(prefix.as_str(), "/") && str_eq(
                f.name.as_str(),
                "_not-found.func.js",
            ) {
                String::from_str("*")
            } else if str_eq(prefix.as_str(), "/") && str_eq(f.name.as_str(), "index.func.js") {
                String::from_str("/")
            } else {
                let name_len = f.name.as_str().unicode_len();
                let stem = substr(f.name.as_str(), 0, name_len - ".func.js".unicode_len());
                proof {
                    assert(stem@ =~= f.name@.take(f.name@.len() - ".func.js"@.len()));
                }
                if bracketed(stem.as_str()) {
                    let mut p = prefix;
                    p.append("*/");
                    p
                } else {
                    let mut p = prefix;
                    p.append(stem.as_str());
                    p.append("/");
                    p
                }
            };
            out.push((pattern, i));
            proof {
                assert(out@.map_values(|p: (String, usize)| (p.0@, p.1 as int)) =~=
                    spec_next_workers(files@.take(i + 1)));
            }
        } else {
            proof {
                assert(out@.map_values(|p: (String, usize)| (p.0@, p.1 as int)) =~=
                    spec_next_workers(files@.take(i + 1)));
            }
        }
        i += 1;
    }
    proof {
        assert(files@.take(n as int) =~= files@);
    }
    out
}

// ---------------------------------------------------------------------------
// Platform-build import helpers
// ---------------------------------------------------------------------------
/// A fresh manifest for an imported platform build: schema version one,
/// tagged with the framework the build output belongs to.
pub fn platform_build_base() -> (r: crate::configuration::ConfigurationFile)
    ensures
        r.meta == Some(
            crate::configuration::Meta {
                technology: Some(crate::configuration::Technology::NextJs),
            },
        ),
        r.version == 1,
        r.functions@ =~= Seq::<crate::configuration::DynamicRoute>::empty(),
        r.assets@ =~= Seq::<crate::configuration::Asset>::empty(),
        r.preprocessors.puppets@ =~= Seq::<(String, String)>::empty(),
        r.preprocessors.redirects@ =~= Seq::<crate::configuration::Redirect>::empty(),
        r.preprocessors.guards@ =~= Seq::<crate::configuration::Guard>::empty(),
        r.postprocessors.interceptors@ =~= Seq::<crate::configuration::Interceptor>::empty(),
{
    let mut config = crate::configuration::ConfigurationFile::empty();
    config.version = 1;
    config.meta = Some(
        crate::configuration::Meta { technology: Some(crate::configuration::Technology::NextJs) },
    );
    config
}

/// Build-output paths that belong to the platform itself and are never
/// copied as assets: the worker bundle tree, the headers file, and the
/// internal CDN prefix.
pub fn is_internal_platform_path(rel: &str) -> (r: bool)
    ensures
        r == (spec_starts_with(rel@, "_worker.js/"@) || rel@ == "_headers"@ || spec_starts_with(
            rel@,
            "cdn-cgi"@,
        )),
{
    starts_with(rel, "_worker.js/") || str_eq(rel, "_headers") || starts_with(rel, "cdn-cgi")
}

/// The collision-resistant file name for one imported function: its stem,
/// the drawn number, and the module extension. The caller passes the drawn
/// number, so the contract holds whatever the generator produced.
pub fn generated_function_name(stem: &str, drawn: u64) -> (r: String)
    ensures
        r@ == stem@ + "."@ + spec_u64_digits(drawn as nat) + ".mjs"@,
{
    let mut out = String::from_str(stem);
    out.append(".");
    let digits = u64_to_string(drawn);
    out.append(digits.as_str());
    out.append(".mjs");
    proof {
        assert(out@ =~= stem@ + "."@ + spec_u64_digits(drawn as nat) + ".mjs"@);
    }
    out
}

/// Concatenates the fixed boilerplate snippet ahead of the bundled
/// function bytes.
pub fn prefix_function_bytes(boilerplate: &[u8], bundled: &[u8]) -> (r: Vec<u8>)
    ensures
        r@ == boilerplate@ + bundled@,
{
    let mut out: Vec<u8> = Vec::new();
    let n = boilerplate.len();
    let mut i: usize = 0;
    while i < n
        invariant
            0 <= i <= n,
            n == boilerplate@.len(),
            out@ =~= boilerplate@.take(i as int),
        decreases n - i,
    {
        out.push(boilerplate[i]);
        i += 1;
    }
    proof {
        assert(boilerplate@.take(n as int) =~= boilerplate@);
    }
    let m = bundled.len();
    let mut k: usize = 0;
    while k < m
        invariant
            0 <= k <= m,
            m == bundled@.len(),
            out@ =~= boilerplate@ + bundled@.take(k as int),
        decreases m - k,
    {
        out.push(bundled[k]);
        proof {
            assert(out@ =~= boilerplate@ + bundled@.take(k + 1));
        }
        k += 1;
    }
    proof {
        assert(bundled@.take(m as int) =~= bundled@);
    }
    out
}

} // verus!
