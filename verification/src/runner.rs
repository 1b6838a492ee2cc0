//! Preview-run decisions: when a file event restarts the run, how the
//! runtime entry script template is filled in, and the fixed bundler
//! invocation.

use vstd::prelude::*;

use crate::middleware::flag_views;
use crate::strutil::{match_at, push_char, str_eq};

verus! {

/// The watcher event kinds that can trigger a restart.
#[derive(Debug, Clone, Copy, PartialEq, Eq, Structural)]
pub enum WatchEvent {
    Create,
    Modify,
    Remove,
    Other,
}

/// True when one of the path's components keeps it from triggering a
/// restart: the packaged-output directory and the dependency directory are
/// never watched.
pub open spec fn spec_ignored_component(c: Seq<char>) -> bool {
    c == ".zugriff"@ || c == "node_modules"@
}

/// Whether a watcher event restarts the preview run: only creations,
/// modifications and removals count, and only for paths outside the
/// packaged-output and dependency directories.
pub fn should_restart(event: WatchEvent, components: &Vec<String>) -> (r: bool)
    ensures
        r == (!(event is Other) && forall|i: int|
            0 <= i < components@.len() ==> !spec_ignored_component(
                (#[trigger] components@[i])@,
            )),
{
    match event {
        WatchEvent::Other => {
            return false;
        },
        _ => {},
    }
    let n = components.len();
    let mut i: usize = 0;
    while i < n
        invariant
            0 <= i <= n,
            n == components@.len(),
            forall|j: int| 0 <= j < i ==> !spec_ignored_component((#[trigger] components@[j])@),
        decreases n - i,
    {
        if str_eq(components[i].as_str(), ".zugriff") || str_eq(
            components[i].as_str(),
            "node_modules",
        ) {
            return false;
        }
        i += 1;
    }
    true
}

/// `s` with every occurrence of `pat` replaced by `val`, scanning left to
/// right without re-examining replaced text.
pub open spec fn spec_replace_all(s: Seq<char>, pat: Seq<char>, val: Seq<char>) -> Seq<char>
    decreases s.len(),
{
    if pat.len() == 0 || s.len() < pat.len() {
        s
    } else if s.subrange(0, pat.len() as int) == pat {
        val + spec_replace_all(s.skip(pat.len() as int), pat, val)
    } else {
        seq![s.first()] + spec_replace_all(s.drop_first(), pat, val)
    }
}

/// Substitutes a placeholder throughout a template.
pub fn replace_all(s: &str, pat: &str, val: &str) -> (r: String)
    requires
        pat@.len() > 0,
    ensures
        r@ == spec_replace_all(s@, pat@, val@),
{
    let ghost goal = spec_replace_all(s@, pat@, val@);
    let len = s.unicode_len();
    let plen = pat.unicode_len();
    let mut out = String::new();
    let mut i: usize = 0;
    proof {
        assert(s@.skip(0) =~= s@);
        assert(Seq::<char>::empty() + spec_replace_all(s@, pat@, val@) =~= goal);
    }
    while i < len
        invariant
            0 <= i <= len,
            len == s@.len(),
            plen == pat@.len(),
            plen > 0,
            out@ + spec_replace_all(s@.skip(i as int), pat@, val@) =~= goal,
        decreases len - i,
    {
        let ghost cur = s@.skip(i as int);
        if len - i >= plen && match_at(s, pat, i) {
            proof {
                assert(cur.subrange(0, pat@.len() as int) =~= s@.subrange(i as int, i + pat@.len()));
                assert(cur.skip(pat@.len() as int) =~= s@.skip(i + plen));
            }
            out.append(val);
            i += plen;
        } else {
            proof {
                if cur.len() >= pat@.len() {
                    assert(cur.subrange(0, pat@.len() as int) =~= s@.subrange(
                        i as int,
                        i + pat@.len(),
                    ));
                }
                assert(cur.drop_first() =~= s@.skip(i + 1));
                assert(cur.first() == s@[i as int]);
            }
            let c = s.get_char(i);
            push_char(&mut out, c);
            i += 1;
        }
        proof {
            assert(out@ + spec_replace_all(s@.skip(i as int), pat@, val@) =~= goal);
        }
    }
    proof {
        assert(s@.skip(len as int) =~= Seq::<char>::empty());
        assert(out@ + Seq::<char>::empty() =~= out@);
    }
    out
}

/// A path spelled for an embedded script: every backslash doubled.
pub open spec fn spec_escape_backslashes(s: Seq<char>) -> Seq<char>
    decreases s.len(),
{
    if s.len() == 0 {
        Seq::empty()
    } else if s.first() == '\\' {
        seq!['\\', '\\'] + spec_escape_backslashes(s.drop_first())
    } else {
        seq![s.first()] + spec_escape_backslashes(s.drop_first())
    }
}

/// Doubles every backslash so the path survives inside a generated
/// script.
pub fn normalise_path_for_node(path: &str) -> (r: String)
    ensures
        r@ == spec_escape_backslashes(path@),
{
    let ghost goal = spec_escape_backslashes(path@);
    let len = path.unicode_len();
    let mut out = String::new();
    let mut i: usize = 0;
    proof {
        assert(path@.skip(0) =~= path@);
        assert(Seq::<char>::empty() + goal =~= goal);
    }
    while i < len
        invariant
            0 <= i <= len,
            len == path@.len(),
            out@ + spec_escape_backslashes(path@.skip(i as int)) =~= goal,
        decreases len - i,
    {
        let c = path.get_char(i);
        proof {
            assert(path@.skip(i as int).first() == path@[i as int]);
            assert(path@.skip(i as int).drop_first() =~= path@.skip(i + 1));
        }
        if c == '\\' {
            out.append("\\\\");
            proof {
                reveal_strlit("\\\\");
            }
        } else {
            push_char(&mut out, c);
        }
        proof {
            assert(out@ + spec_escape_backslashes(path@.skip(i + 1)) =~= goal);
        }
        i += 1;
    }
    proof {
        assert(path@.skip(len as int) =~= Seq::<char>::empty());
        assert(out@ + Seq::<char>::empty() =~= out@);
    }
    out
}

/// The fixed modules the bundler always externalizes, in invocation order.
pub open spec fn spec_default_externals() -> Seq<Seq<char>> {
    seq![
        "postgres"@,
        "ioredis"@,
        "nodemailer"@,
        "dotenv"@,
        "node:async_hooks"@,
        "async_hooks"@,
        "node:buffer"@,
        "buffer"@,
        "node:assert"@,
        "assert"@,
        "node:events"@,
        "events"@,
        "node:path"@,
        "path"@,
        "node:process"@,
        "process"@,
        "node:util"@,
        "util"@,
    ]
}

/// One `--external:` flag.
pub open spec fn spec_external_flag(name: Seq<char>) -> Seq<char> {
    "--external:"@ + name
}

pub open spec fn spec_external_flags(names: Seq<Seq<char>>) -> Seq<Seq<char>>
    decreases names.len(),
{
    if names.len() == 0 {
        Seq::empty()
    } else {
        spec_external_flags(names.drop_last()).push(spec_external_flag(names.last()))
    }
}

/// The full bundler argument list: the entrypoint, bundling on, the fixed
/// externals, the caller's externals, then minification with names kept,
/// the latest module target, a neutral platform, module output, and the
/// output file.
pub open spec fn spec_bundle_args(
    entrypoint: Seq<char>,
    externals: Seq<Seq<char>>,
    outfile: Seq<char>,
) -> Seq<Seq<char>> {
    seq![entrypoint, "--bundle"@] + spec_external_flags(spec_default_externals())
        + spec_external_flags(externals) + seq![
        "--minify"@,
        "--keep-names"@,
        "--target=esnext"@,
        "--platform=neutral"@,
        "--format=esm"@,
        ("--outfile="@ + outfile),
    ]
}

/// The fixed default externals as owned strings.
fn default_externals() -> (r: Vec<String>)
    ensures
        flag_views(r@) == spec_default_externals(),
{
    let mut v: Vec<String> = Vec::new();
    v.push(String::from_str("postgres"));
    v.push(String::from_str("ioredis"));
    v.push(String::from_str("nodemailer"));
    v.push(String::from_str("dotenv"));
    v.push(String::from_str("node:async_hooks"));
    v.push(String::from_str("async_hooks"));
    v.push(String::from_str("node:buffer"));
    v.push(String::from_str("buffer"));
    v.push(String::from_str("node:assert"));
    v.push(String::from_str("assert"));
    v.push(String::from_str("node:events"));
    v.push(String::from_str("events"));
    v.push(String::from_str("node:path"));
    v.push(String::from_str("path"));
    v.push(String::from_str("node:process"));
    v.push(String::from_str("process"));
    v.push(String::from_str("node:util"));
    v.push(String::from_str("util"));
    proof {
        assert(flag_views(v@) =~= spec_default_externals());
    }
    v
}

fn push_external(out: &mut Vec<String>, name: &str)
    ensures
        flag_views(final(out)@) == flag_views(old(out)@).push(spec_external_flag(name@)),
{
    let mut flag = String::from_str("--external:");
    flag.append(name);
    let ghost fv = flag@;
    out.push(flag);
    proof {
        assert(flag_views(out@) =~= flag_views(old(out)@).push(fv));
    }
}

/// Builds the bundler's argument list for one entrypoint.
pub fn bundle_args(entrypoint: &str, externals: &Vec<String>, outfile: &str) -> (r: Vec<String>)
    ensures
        flag_views(r@) == spec_bundle_args(entrypoint@, flag_views(externals@), outfile@),
{
    let mut out: Vec<String> = Vec::new();
    out.push(String::from_str(entrypoint));
    out.push(String::from_str("--bundle"));
    let ghost head = seq![entrypoint@, "--bundle"@];
    proof {
        assert(flag_views(out@) =~= head);
        assert(spec_external_flags(spec_default_externals().take(0)) =~= Seq::<Seq<char>>::empty());
        assert(head + spec_external_flags(spec_default_externals().take(0)) =~= head);
    }
    let defaults = default_externals();
    let ghost dvs = flag_views(defaults@);
    let nd = defaults.len();
    let mut k: usize = 0;
    while k < nd
        invariant
            0 <= k <= nd,
            nd == defaults@.len(),
            dvs == flag_views(defaults@),
            dvs == spec_default_externals(),
            head == seq![entrypoint@, "--bundle"@],
            flag_views(out@) =~= head + spec_external_flags(dvs.take(k as int)),
        decreases nd - k,
    {
        push_external(&mut out, defaults[k].as_str());
        proof {
            assert(dvs.take(k + 1).drop_last() =~= dvs.take(k as int));
            assert(dvs.take(k + 1).last() == dvs[k as int]);
            assert(spec_external_flags(dvs.take(k + 1)) =~= spec_external_flags(
                dvs.take(k as int),
            ).push(spec_external_flag(dvs[k as int])));
            assert(flag_views(out@) =~= head + spec_external_flags(dvs.take(k + 1)));
        }
        k += 1;
    }
    proof {
        assert(dvs.take(nd as int) =~= dvs);
    }
    let ghost base = head + spec_external_flags(spec_default_externals());
    let ghost evs = flag_views(externals@);
    let n = externals.len();
    let mut i: usize = 0;
    proof {
        assert(spec_external_flags(evs.take(0)) =~= Seq::<Seq<char>>::empty());
        assert(flag_views(out@) =~= base + spec_external_flags(evs.take(0)));
    }
    while i < n
        invariant
            0 <= i <= n,
            n == externals@.len(),
            evs == flag_views(externals@),
            base == seq![entrypoint@, "--bundle"@] + spec_external_flags(spec_default_externals()),
            flag_views(out@) =~= base + spec_external_flags(evs.take(i as int)),
        decreases n - i,
    {
        push_external(&mut out, externals[i].as_str());
        proof {
            assert(evs.take(i + 1).drop_last() =~= evs.take(i as int));
            assert(evs.take(i + 1).last() == evs[i as int]);
            assert(spec_external_flags(evs.take(i + 1)) =~= spec_external_flags(
                evs.take(i as int),
            ).push(spec_external_flag(evs[i as int])));
            assert(flag_views(out@) =~= base + spec_external_flags(evs.take(i + 1)));
        }
        i += 1;
    }
    proof {
        assert(evs.take(n as int) =~= evs);
    }
    out.push(String::from_str("--minify"));
    out.push(String::from_str("--keep-names"));
    out.push(String::from_str("--target=esnext"));
    out.push(String::from_str("--platform=neutral"));
    out.push(String::from_str("--format=esm"));
    let mut outflag = String::from_str("--outfile=");
    outflag.append(outfile);
    let ghost ofv = outflag@;
    out.push(outflag);
    proof {
        assert(flag_views(out@) =~= spec_bundle_args(entrypoint@, evs, outfile@));
    }
    out
}

/// Whether a preview run packs afresh: when packing was asked for, or no
/// packaged output was found to reuse.
pub fn preview_should_pack(pack_requested: bool, found_packaged_output: bool) -> (r: bool)
    ensures
        r == (pack_requested || !found_packaged_output),
{
    pack_requested || !found_packaged_output
}

/// The runtime entry script rendered from its template: the debug flag,
/// the project base directory, the digest helper path, the packaged-output
/// directory and the bind address replace their placeholders in that
/// order, with backslashes doubled in the three paths.
pub open spec fn spec_render_entry_script(
    template: Seq<char>,
    debug: bool,
    base_dir: Seq<char>,
    digest_helper: Seq<char>,
    packaged_dir: Seq<char>,
    address: Seq<char>,
) -> Seq<char> {
    let with_debug = spec_replace_all(
        template,
        "<DEBUG>"@,
        if debug {
            "true"@
        } else {
            "false"@
        },
    );
    let with_base = spec_replace_all(with_debug, "<BASEDIR>"@, spec_escape_backslashes(base_dir));
    let with_helper = spec_replace_all(
        with_base,
        "<sha3.min.js>"@,
        spec_escape_backslashes(digest_helper),
    );
    let with_out = spec_replace_all(
        with_helper,
        "<DOT_ZUGRIFF>"@,
        spec_escape_backslashes(packaged_dir),
    );
    spec_replace_all(with_out, "<ADDRESS>"@, address)
}

/// Renders the runtime entry script.
pub fn render_entry_script(
    template: &str,
    debug: bool,
    base_dir: &str,
    digest_helper: &str,
    packaged_dir: &str,
    address: &str,
) -> (r: String)
    ensures
        r@ == spec_render_entry_script(
            template@,
            debug,
            base_dir@,
            digest_helper@,
            packaged_dir@,
            address@,
        ),
{
    proof {
        reveal_strlit("<DEBUG>");
        reveal_strlit("<BASEDIR>");
        reveal_strlit("<sha3.min.js>");
        reveal_strlit("<DOT_ZUGRIFF>");
        reveal_strlit("<ADDRESS>");
    }
    let flag = if debug {
        "true"
    } else {
        "false"
    };
    let with_debug = replace_all(template, "<DEBUG>", flag);
    let base_escaped = normalise_path_for_node(base_dir);
    let with_base = replace_all(with_debug.as_str(), "<BASEDIR>", base_escaped.as_str());
    let helper_escaped = normalise_path_for_node(digest_helper);
    let with_helper = replace_all(with_base.as_str(), "<sha3.min.js>", helper_escaped.as_str());
    let out_escaped = normalise_path_for_node(packaged_dir);
    let with_out = replace_all(with_helper.as_str(), "<DOT_ZUGRIFF>", out_escaped.as_str());
    replace_all(with_out.as_str(), "<ADDRESS>", address)
}

} // verus!
