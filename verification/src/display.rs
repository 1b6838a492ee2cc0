//! The textual lines the archive report prints: the file listing and one
//! line per middleware rule.

use vstd::prelude::*;

use crate::archive::{listing_views, size_text, size_text_of};
use crate::codec::{config_view, ConfigView};
use crate::configuration::ConfigurationFile;
use crate::middleware::{flag_views, spec_root_or};
use crate::json::{spec_u64_digits, u64_to_string};

verus! {

/// One file listing line: the entry name and its human-readable size.
pub open spec fn spec_file_line(name: Seq<char>, size: int) -> Seq<char> {
    name + " ("@ + size_text_of(size) + ")"@
}

pub open spec fn spec_file_lines(fs: Seq<(Seq<char>, int)>) -> Seq<Seq<char>>
    decreases fs.len(),
{
    if fs.len() == 0 {
        Seq::empty()
    } else {
        spec_file_lines(fs.drop_last()).push(spec_file_line(fs.last().0, fs.last().1))
    }
}

/// The file listing lines of a report, in entry order.
pub fn file_lines(files: &Vec<(String, u64)>) -> (r: Vec<String>)
    ensures
        flag_views(r@) == spec_file_lines(listing_views(files@)),
{
    let ghost fs = listing_views(files@);
    let mut out: Vec<String> = Vec::new();
    let n = files.len();
    let mut i: usize = 0;
    proof {
        assert(flag_views(out@) =~= spec_file_lines(fs.take(0)));
    }
    while i < n
        invariant
            0 <= i <= n,
            n == files@.len(),
            fs == listing_views(files@),
            flag_views(out@) =~= spec_file_lines(fs.take(i as int)),
        decreases n - i,
    {
        let mut line = files[i].0.clone();
        line.append(" (");
        let size = size_text(files[i].1);
        line.append(size.as_str());
        line.append(")");
        out.push(line);
        proof {
            assert(fs.take(i + 1).drop_last() =~= fs.take(i as int));
            assert(fs.take(i + 1).last() == fs[i as int]);
            assert(fs[i as int] == (files@[i as int].0@, files@[i as int].1 as int));
            assert(flag_views(out@) =~= spec_file_lines(fs.take(i + 1)));
        }
        i += 1;
    }
    proof {
        assert(fs.take(n as int) =~= fs);
    }
    out
}

// ---------------------------------------------------------------------------
// Middleware lines
// ---------------------------------------------------------------------------
pub open spec fn spec_puppet_line(p: (Seq<char>, Seq<char>)) -> Seq<char> {
    spec_root_or(p.0) + " → "@ + p.1 + " (Puppet)"@
}

pub open spec fn spec_puppet_lines(ps: Seq<(Seq<char>, Seq<char>)>) -> Seq<Seq<char>>
    decreases ps.len(),
{
    if ps.len() == 0 {
        Seq::empty()
    } else {
        spec_puppet_lines(ps.drop_last()).push(spec_puppet_line(ps.last()))
    }
}

pub open spec fn spec_redirect_line(r: (int, Seq<char>, Seq<char>)) -> Seq<char> {
    spec_root_or(r.1) + " → "@ + spec_u64_digits(r.0 as nat) + " → "@ + r.2 + " (Redirect)"@
}

pub open spec fn spec_redirect_lines(rs: Seq<(int, Seq<char>, Seq<char>)>) -> Seq<Seq<char>>
    decreases rs.len(),
{
    if rs.len() == 0 {
        Seq::empty()
    } else {
        spec_redirect_lines(rs.drop_last()).push(spec_redirect_line(rs.last()))
    }
}

pub open spec fn spec_interceptor_line(ic: (crate::configuration::Method, int, Seq<char>)) -> Seq<
    char,
> {
    "→ "@ + ic.0.spec_text() + " → "@ + spec_u64_digits(ic.1 as nat) + " → "@ + ic.2
        + " (Interceptor)"@
}

pub open spec fn spec_interceptor_lines(
    ics: Seq<(crate::configuration::Method, int, Seq<char>)>,
) -> Seq<Seq<char>>
    decreases ics.len(),
{
    if ics.len() == 0 {
        Seq::empty()
    } else {
        spec_interceptor_lines(ics.drop_last()).push(spec_interceptor_line(ics.last()))
    }
}

/// One line per pattern: the scheme, a passwordless marker when no
/// password hash is stored, and the pattern.
pub open spec fn spec_guard_line(passwordless: bool, pat: Seq<char>) -> Seq<char> {
    "Basic Auth"@ + (if passwordless {
        " (Passwordless)"@
    } else {
        Seq::empty()
    }) + " → "@ + pat + " (Guard)"@
}

pub open spec fn spec_one_guard_lines(passwordless: bool, pats: Seq<Seq<char>>) -> Seq<Seq<char>>
    decreases pats.len(),
{
    if pats.len() == 0 {
        Seq::empty()
    } else {
        spec_one_guard_lines(passwordless, pats.drop_last()).push(
            spec_guard_line(passwordless, pats.last()),
        )
    }
}

pub open spec fn spec_guard_lines(
    gs: Seq<(Seq<char>, Option<Seq<char>>, Seq<Seq<char>>)>,
) -> Seq<Seq<char>>
    decreases gs.len(),
{
    if gs.len() == 0 {
        Seq::empty()
    } else {
        spec_guard_lines(gs.drop_last()) + spec_one_guard_lines(
            gs.last().1 is None,
            gs.last().2,
        )
    }
}

/// Every middleware line of a manifest, in report order: puppets, then
/// redirects, then interceptors, then guards.
pub open spec fn spec_middleware_lines(v: ConfigView) -> Seq<Seq<char>> {
    spec_puppet_lines(v.puppets) + spec_redirect_lines(v.redirects) + spec_interceptor_lines(
        v.interceptors,
    ) + spec_guard_lines(v.guards)
}

/// Builds the middleware lines of a manifest.
pub fn middleware_lines(c: &ConfigurationFile) -> (r: Vec<String>)
    ensures
        flag_views(r@) == spec_middleware_lines(config_view(*c)),
{
    let ghost v = config_view(*c);
    let mut out: Vec<String> = Vec::new();
    let puppets = &c.preprocessors.puppets;
    let n = puppets.len();
    let mut i: usize = 0;
    proof {
        assert(flag_views(out@) =~= spec_puppet_lines(v.puppets.take(0)));
    }
    while i < n
        invariant
            0 <= i <= n,
            v == config_view(*c),
            n == c.preprocessors.puppets@.len(),
            puppets == c.preprocessors.puppets,
            flag_views(out@) =~= spec_puppet_lines(v.puppets.take(i as int)),
        decreases n - i,
    {
        let mut line = if puppets[i].0.as_str().unicode_len() == 0 {
            String::from_str("/")
        } else {
            puppets[i].0.clone()
        };
        line.append(" → ");
        line.append(puppets[i].1.as_str());
        line.append(" (Puppet)");
        out.push(line);
        proof {
            assert(v.puppets.take(i + 1).drop_last() =~= v.puppets.take(i as int));
            assert(v.puppets.take(i + 1).last() == v.puppets[i as int]);
            assert(flag_views(out@) =~= spec_puppet_lines(v.puppets.take(i + 1)));
        }
        i += 1;
    }
    let ghost base1 = spec_puppet_lines(v.puppets);
    proof {
        assert(v.puppets.take(n as int) =~= v.puppets);
    }
    let redirects = &c.preprocessors.redirects;
    let n = redirects.len();
    let mut i: usize = 0;
    proof {
        assert(flag_views(out@) =~= base1 + spec_redirect_lines(v.redirects.take(0)));
    }
    while i < n
        invariant
            0 <= i <= n,
            v == config_view(*c),
            n == c.preprocessors.redirects@.len(),
            redirects == c.preprocessors.redirects,
            base1 == spec_puppet_lines(v.puppets),
            flag_views(out@) =~= base1 + spec_redirect_lines(v.redirects.take(i as int)),
        decreases n - i,
    {
        let mut line = if redirects[i].path.as_str().unicode_len() == 0 {
            String::from_str("/")
        } else {
            redirects[i].path.clone()
        };
        line.append(" → ");
        let digits = u64_to_string(redirects[i].status as u64);
        line.append(digits.as_str());
        line.append(" → ");
        line.append(redirects[i].location.as_str());
        line.append(" (Redirect)");
        let ghost lv = line@;
        out.push(line);
        proof {
            assert(lv =~= spec_redirect_line(v.redirects[i as int]));
            assert(v.redirects.take(i + 1).drop_last() =~= v.redirects.take(i as int));
            assert(v.redirects.take(i + 1).last() == v.redirects[i as int]);
            assert(spec_redirect_lines(v.redirects.take(i + 1)) =~= spec_redirect_lines(
                v.redirects.take(i as int),
            ).push(spec_redirect_line(v.redirects[i as int])));
            assert(flag_views(out@) =~~= (base1 + spec_redirect_lines(
                v.redirects.take(i as int),
            )).push(lv));
            assert((base1 + spec_redirect_lines(v.redirects.take(i as int))).push(lv) =~~= base1
                + spec_redirect_lines(v.redirects.take(i + 1)));
            assert(flag_views(out@) =~~= base1 + spec_redirect_lines(v.redirects.take(i + 1)));
        }
        i += 1;
    }
    let ghost base2 = base1 + spec_redirect_lines(v.redirects);
    proof {
        assert(v.redirects.take(n as int) =~= v.redirects);
    }
    let interceptors = &c.postprocessors.interceptors;
    let n = interceptors.len();
    let mut i: usize = 0;
    proof {
        assert(flag_views(out@) =~= base2 + spec_interceptor_lines(v.interceptors.take(0)));
    }
    while i < n
        invariant
            0 <= i <= n,
            v == config_view(*c),
            n == c.postprocessors.interceptors@.len(),
            interceptors == c.postprocessors.interceptors,
            base2 == spec_puppet_lines(v.puppets) + spec_redirect_lines(v.redirects),
            flag_views(out@) =~= base2 + spec_interceptor_lines(v.interceptors.take(i as int)),
        decreases n - i,
    {
        let mut line = String::from_str("→ ");
        line.append(interceptors[i].method.text());
        line.append(" → ");
        let digits = u64_to_string(interceptors[i].status as u64);
        line.append(digits.as_str());
        line.append(" → ");
        line.append(interceptors[i].path.as_str());
        line.append(" (Interceptor)");
        let ghost lv = line@;
        out.push(line);
        proof {
            assert(lv =~= spec_interceptor_line(v.interceptors[i as int]));
            assert(v.interceptors.take(i + 1).drop_last() =~= v.interceptors.take(i as int));
            assert(v.interceptors.take(i + 1).last() == v.interceptors[i as int]);
            assert(spec_interceptor_lines(v.interceptors.take(i + 1)) =~= spec_interceptor_lines(
                v.interceptors.take(i as int),
            ).push(spec_interceptor_line(v.interceptors[i as int])));
            assert(flag_views(out@) =~~= (base2 + spec_interceptor_lines(
                v.interceptors.take(i as int),
            )).push(lv));
            assert((base2 + spec_interceptor_lines(v.interceptors.take(i as int))).push(lv) =~~=
                base2 + spec_interceptor_lines(v.interceptors.take(i + 1)));
            assert(flag_views(out@) =~~= base2 + spec_interceptor_lines(
                v.interceptors.take(i + 1),
            ));
        }
        i += 1;
    }
    let ghost base3 = base2 + spec_interceptor_lines(v.interceptors);
    proof {
        assert(v.interceptors.take(n as int) =~= v.interceptors);
    }
    let guards = &c.preprocessors.guards;
    let n = guards.len();
    let mut i: usize = 0;
    proof {
        assert(flag_views(out@) =~= base3 + spec_guard_lines(v.guards.take(0)));
    }
    while i < n
        invariant
            0 <= i <= n,
            v == config_view(*c),
            n == c.preprocessors.guards@.len(),
            guards == c.preprocessors.guards,
            base3 == spec_puppet_lines(v.puppets) + spec_redirect_lines(v.redirects)
                + spec_interceptor_lines(v.interceptors),
            flag_views(out@) =~= base3 + spec_guard_lines(v.guards.take(i as int)),
        decreases n - i,
    {
        let g = &guards[i];
        let passwordless = g.credentials.password.is_none();
        let ghost gv = v.guards[i as int];
        let pats = &g.patterns;
        let m = pats.len();
        let mut k: usize = 0;
        proof {
            assert(gv.2.take(0) =~= Seq::<Seq<char>>::empty());
            assert(flag_views(out@) =~= base3 + spec_guard_lines(v.guards.take(i as int))
                + spec_one_guard_lines(gv.1 is None, gv.2.take(0)));
        }
        while k < m
            invariant
                0 <= k <= m,
                v == config_view(*c),
                0 <= i < v.guards.len(),
                gv == v.guards[i as int],
                guards == c.preprocessors.guards,
                i < c.preprocessors.guards@.len(),
                g == c.preprocessors.guards@[i as int],
                pats == g.patterns,
                m == g.patterns@.len(),
                passwordless == (gv.1 is None),
                flag_views(out@) =~= base3 + spec_guard_lines(v.guards.take(i as int))
                    + spec_one_guard_lines(gv.1 is None, gv.2.take(k as int)),
            decreases m - k,
        {
            let mut line = String::from_str("Basic Auth");
            if passwordless {
                line.append(" (Passwordless)");
            }
            line.append(" → ");
            line.append(pats[k].as_str());
            line.append(" (Guard)");
            let ghost lv = line@;
            out.push(line);
            proof {
                assert(gv.2[k as int] == g.patterns@[k as int]@);
                assert(lv =~= spec_guard_line(gv.1 is None, gv.2[k as int]));
                assert(gv.2.take(k + 1).drop_last() =~= gv.2.take(k as int));
                assert(gv.2.take(k + 1).last() == gv.2[k as int]);
                assert(spec_one_guard_lines(gv.1 is None, gv.2.take(k + 1))
                    =~= spec_one_guard_lines(gv.1 is None, gv.2.take(k as int)).push(
                    spec_guard_line(gv.1 is None, gv.2[k as int]),
                ));
                assert(flag_views(out@) =~~= (base3 + spec_guard_lines(v.guards.take(i as int))
                    + spec_one_guard_lines(gv.1 is None, gv.2.take(k as int))).push(lv));
                assert((base3 + spec_guard_lines(v.guards.take(i as int)) + spec_one_guard_lines(
                    gv.1 is None,
                    gv.2.take(k as int),
                )).push(lv) =~~= base3 + spec_guard_lines(v.guards.take(i as int))
                    + spec_one_guard_lines(gv.1 is None, gv.2.take(k + 1)));
                assert(flag_views(out@) =~~= base3 + spec_guard_lines(v.guards.take(i as int))
                    + spec_one_guard_lines(gv.1 is None, gv.2.take(k + 1)));
            }
            k += 1;
        }
        proof {
            assert(gv.2.take(m as int) =~= gv.2);
            assert(v.guards.take(i + 1).drop_last() =~= v.guards.take(i as int));
            assert(v.guards.take(i + 1).last() == gv);
            assert(flag_views(out@) =~= base3 + (spec_guard_lines(v.guards.take(i as int))
                + spec_one_guard_lines(gv.1 is None, gv.2)));
            assert(flag_views(out@) =~= base3 + spec_guard_lines(v.guards.take(i + 1)));
        }
        i += 1;
    }
    proof {
        assert(v.guards.take(n as int) =~= v.guards);
        assert(flag_views(out@) =~= spec_middleware_lines(v));
    }
    out
}

/// How many middleware lines a manifest produces: one per puppet, redirect
/// and interceptor, and one per guard pattern.
pub open spec fn spec_guard_pattern_total(
    gs: Seq<(Seq<char>, Option<Seq<char>>, Seq<Seq<char>>)>,
) -> int
    decreases gs.len(),
{
    if gs.len() == 0 {
        0
    } else {
        spec_guard_pattern_total(gs.drop_last()) + gs.last().2.len()
    }
}

proof fn lemma_puppet_lines_len(ps: Seq<(Seq<char>, Seq<char>)>)
    ensures
        spec_puppet_lines(ps).len() == ps.len(),
    decreases ps.len(),
{
    if ps.len() > 0 {
        lemma_puppet_lines_len(ps.drop_last());
    }
}

proof fn lemma_redirect_lines_len(rs: Seq<(int, Seq<char>, Seq<char>)>)
    ensures
        spec_redirect_lines(rs).len() == rs.len(),
    decreases rs.len(),
{
    if rs.len() > 0 {
        lemma_redirect_lines_len(rs.drop_last());
    }
}

proof fn lemma_interceptor_lines_len(ics: Seq<(crate::configuration::Method, int, Seq<char>)>)
    ensures
        spec_interceptor_lines(ics).len() == ics.len(),
    decreases ics.len(),
{
    if ics.len() > 0 {
        lemma_interceptor_lines_len(ics.drop_last());
    }
}

proof fn lemma_one_guard_lines_len(passwordless: bool, pats: Seq<Seq<char>>)
    ensures
        spec_one_guard_lines(passwordless, pats).len() == pats.len(),
    decreases pats.len(),
{
    if pats.len() > 0 {
        lemma_one_guard_lines_len(passwordless, pats.drop_last());
    }
}

proof fn lemma_guard_lines_len(gs: Seq<(Seq<char>, Option<Seq<char>>, Seq<Seq<char>>)>)
    ensures
        spec_guard_lines(gs).len() == spec_guard_pattern_total(gs),
    decreases gs.len(),
{
    if gs.len() > 0 {
        lemma_guard_lines_len(gs.drop_last());
        lemma_one_guard_lines_len(gs.last().1 is None, gs.last().2);
    }
}

/// The middleware line counts reproduce the manifest's own collection
/// sizes: one line per puppet, per redirect and per interceptor, and one
/// per guard pattern. Together with the pack/report round trip this says
/// that reporting a packed archive prints exactly the middleware that was
/// compiled into the manifest.
pub proof fn lemma_middleware_line_count(v: ConfigView)
    ensures
        spec_middleware_lines(v).len() == v.puppets.len() + v.redirects.len()
            + v.interceptors.len() + spec_guard_pattern_total(v.guards),
{
    lemma_puppet_lines_len(v.puppets);
    lemma_redirect_lines_len(v.redirects);
    lemma_interceptor_lines_len(v.interceptors);
    lemma_guard_lines_len(v.guards);
}

} // verus!
