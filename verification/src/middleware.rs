//! The configuration compiler: turns middleware flags and the current asset
//! set into puppets, redirects, interceptors, guards and cache-control
//! entries, in the fixed order later steps may rely on.

use vstd::prelude::*;

use crate::configuration::{
    AuthCredentials, AuthScheme, Asset, Guard, Interceptor, Method, Redirect,
};
use crate::digest::{hash_credential, spec_hash64};
use crate::strutil::{ends_with, find_char, push_char, starts_with, str_eq, substr};

verus! {

/// Splits at the first `:`: the characters before it and the characters
/// after it.
pub open spec fn spec_split_colon(s: Seq<char>) -> Option<(Seq<char>, Seq<char>)>
    decreases s.len(),
{
    if s.len() == 0 {
        None
    } else if s.first() == ':' {
        Some((Seq::empty(), s.drop_first()))
    } else {
        match spec_split_colon(s.drop_first()) {
            None => None,
            Some((a, b)) => Some((seq![s.first()] + a, b)),
        }
    }
}

proof fn lemma_split_colon_at(s: Seq<char>, i: int)
    requires
        0 <= i < s.len(),
        s[i] == ':',
        forall|j: int| 0 <= j < i ==> s[j] != ':',
    ensures
        spec_split_colon(s) == Some((s.subrange(0, i), s.subrange(i + 1, s.len() as int))),
    decreases i,
{
    if i == 0 {
        assert(s.subrange(0, 0) =~= Seq::<char>::empty());
        assert(s.subrange(1, s.len() as int) =~= s.drop_first());
    } else {
        lemma_split_colon_at(s.drop_first(), i - 1);
        assert(s.drop_first().subrange(0, i - 1) =~= s.subrange(1, i));
        assert(s.drop_first().subrange(i, s.drop_first().len() as int) =~= s.subrange(
            i + 1,
            s.len() as int,
        ));
        assert(seq![s.first()] + s.subrange(1, i) =~= s.subrange(0, i));
    }
}

proof fn lemma_split_colon_none(s: Seq<char>)
    requires
        forall|j: int| 0 <= j < s.len() ==> s[j] != ':',
    ensures
        spec_split_colon(s) is None,
    decreases s.len(),
{
    if s.len() > 0 {
        lemma_split_colon_none(s.drop_first());
    }
}

/// Splits a flag of the shape `prefix:suffix` at the first colon, without
/// touching either side.
pub fn split_args_basic(input: &str) -> (r: Option<(String, String)>)
    ensures
        match r {
            Some((a, b)) => spec_split_colon(input@) == Some((a@, b@)),
            None => spec_split_colon(input@) is None,
        },
{
    let len = input.unicode_len();
    match find_char(input, ':') {
        Some(i) => {
            proof {
                lemma_split_colon_at(input@, i as int);
            }
            Some((substr(input, 0, i), substr(input, i + 1, len)))
        },
        None => {
            proof {
                lemma_split_colon_none(input@);
            }
            None
        },
    }
}

/// The `from` side of a flag, normalized: a leading `/` is added when
/// missing, and a trailing `/` is stripped unless the whole path is the
/// root.
pub open spec fn spec_normalize_from(s: Seq<char>) -> Seq<char> {
    let t = if !crate::strutil::spec_starts_with(s, "/"@) {
        "/"@ + s
    } else {
        s
    };
    if crate::strutil::spec_ends_with(t, "/"@) && t.len() > 1 {
        t.take(t.len() - 1)
    } else {
        t
    }
}

fn normalize_from(s: &str) -> (r: String)
    ensures
        r@ == spec_normalize_from(s@),
{
    let t: String = if !starts_with(s, "/") {
        let mut x = String::from_str("/");
        x.append(s);
        x
    } else {
        String::from_str(s)
    };
    let tlen = t.as_str().unicode_len();
    if ends_with(t.as_str(), "/") && tlen > 1 {
        let r = substr(t.as_str(), 0, tlen - 1);
        proof {
            assert(r@ =~= t@.take(t@.len() - 1));
        }
        r
    } else {
        t
    }
}

/// Splitting a `from:to` flag: the first colon separates the sides, and the
/// `from` side is normalized.
pub open spec fn spec_split_args(s: Seq<char>) -> Option<(Seq<char>, Seq<char>)> {
    match spec_split_colon(s) {
        None => None,
        Some((a, b)) => Some((spec_normalize_from(a), b)),
    }
}

/// Splits a `from:to` flag at the first colon and normalizes the `from`
/// side.
pub fn split_args(input: &str) -> (r: Option<(String, String)>)
    ensures
        match r {
            Some((a, b)) => spec_split_args(input@) == Some((a@, b@)),
            None => spec_split_args(input@) is None,
        },
{
    match split_args_basic(input) {
        Some((a, b)) => Some((normalize_from(a.as_str()), b)),
        None => None,
    }
}

// ---------------------------------------------------------------------------
// View sequences
// ---------------------------------------------------------------------------
/// The character sequences of a list of flag strings.
pub open spec fn flag_views(flags: Seq<String>) -> Seq<Seq<char>> {
    flags.map_values(|f: String| f@)
}

/// Puppet pairs as character sequences.
pub open spec fn puppet_views(ps: Seq<(String, String)>) -> Seq<(Seq<char>, Seq<char>)> {
    ps.map_values(|p: (String, String)| (p.0@, p.1@))
}

/// Redirects as `(status, path, location)` triples.
pub open spec fn redirect_views(rs: Seq<Redirect>) -> Seq<(int, Seq<char>, Seq<char>)> {
    rs.map_values(|r: Redirect| (r.status as int, r.path@, r.location@))
}

/// The paths of the asset list, in order.
pub open spec fn spec_asset_paths(assets: Seq<Asset>) -> Seq<Seq<char>> {
    assets.map_values(|a: Asset| a.spec_path())
}

// ---------------------------------------------------------------------------
// Step 1: implicit index routing
// ---------------------------------------------------------------------------
/// Strips one HTML-family extension off an asset path, if it has one.
pub open spec fn spec_html_strip(p: Seq<char>) -> Option<Seq<char>> {
    if crate::strutil::spec_ends_with(p, ".html"@) {
        Some(p.take(p.len() - ".html"@.len()))
    } else if crate::strutil::spec_ends_with(p, ".htm"@) {
        Some(p.take(p.len() - ".htm"@.len()))
    } else if crate::strutil::spec_ends_with(p, ".xhtml"@) {
        Some(p.take(p.len() - ".xhtml"@.len()))
    } else {
        None
    }
}

/// File-router source path: a trailing `/index` is stripped down to the
/// parent, and the root stays `/`.
pub open spec fn spec_file_router_from(s: Seq<char>) -> Seq<char> {
    if crate::strutil::spec_ends_with(s, "/index"@) {
        let t = s.take(s.len() - "/index"@.len());
        if t.len() == 0 {
            "/"@
        } else {
            t
        }
    } else {
        s
    }
}

/// Default-router source path: defined exactly for index files directly
/// under a directory; the directory is the source, the root maps to `/`.
pub open spec fn spec_default_router_from(p: Seq<char>) -> Option<Seq<char>> {
    if crate::strutil::spec_ends_with(p, "/index.html"@) {
        Some(spec_root_or(p.take(p.len() - "/index.html"@.len())))
    } else if crate::strutil::spec_ends_with(p, "/index.htm"@) {
        Some(spec_root_or(p.take(p.len() - "/index.htm"@.len())))
    } else if crate::strutil::spec_ends_with(p, "/index.xhtml"@) {
        Some(spec_root_or(p.take(p.len() - "/index.xhtml"@.len())))
    } else {
        None
    }
}

pub open spec fn spec_root_or(t: Seq<char>) -> Seq<char> {
    if t.len() == 0 {
        "/"@
    } else {
        t
    }
}

/// The `(from, to)` pairs the static router derives from the asset paths,
/// in asset order.
pub open spec fn spec_index_pairs(paths: Seq<Seq<char>>, file_router: bool) -> Seq<
    (Seq<char>, Seq<char>),
>
    decreases paths.len(),
{
    if paths.len() == 0 {
        Seq::empty()
    } else {
        spec_index_pairs(paths.drop_last(), file_router) + spec_index_pair_of(
            paths.last(),
            file_router,
        )
    }
}

/// The pair one asset path contributes: one element or none.
pub open spec fn spec_index_pair_of(p: Seq<char>, file_router: bool) -> Seq<
    (Seq<char>, Seq<char>),
> {
    if file_router {
        match spec_html_strip(p) {
            Some(s) => seq![(spec_file_router_from(s), p)],
            None => Seq::empty(),
        }
    } else {
        match spec_default_router_from(p) {
            Some(f) => seq![(f, p)],
            None => Seq::empty(),
        }
    }
}

fn html_strip(p: &str) -> (r: Option<String>)
    ensures
        match r {
            Some(s) => spec_html_strip(p@) == Some(s@),
            None => spec_html_strip(p@) is None,
        },
{
    let len = p.unicode_len();
    if ends_with(p, ".html") {
        Some(substr(p, 0, len - ".html".unicode_len()))
    } else if ends_with(p, ".htm") {
        Some(substr(p, 0, len - ".htm".unicode_len()))
    } else if ends_with(p, ".xhtml") {
        Some(substr(p, 0, len - ".xhtml".unicode_len()))
    } else {
        None
    }
}

fn file_router_from(s: &str) -> (r: String)
    ensures
        r@ == spec_file_router_from(s@),
{
    let len = s.unicode_len();
    if ends_with(s, "/index") {
        let cut = len - "/index".unicode_len();
        if cut == 0 {
            String::from_str("/")
        } else {
            substr(s, 0, cut)
        }
    } else {
        String::from_str(s)
    }
}

fn default_router_from(p: &str) -> (r: Option<String>)
    ensures
        match r {
            Some(f) => spec_default_router_from(p@) == Some(f@),
            None => spec_default_router_from(p@) is None,
        },
{
    let len = p.unicode_len();
    if ends_with(p, "/index.html") {
        let cut = len - "/index.html".unicode_len();
        Some(if cut == 0 {
            String::from_str("/")
        } else {
            substr(p, 0, cut)
        })
    } else if ends_with(p, "/index.htm") {
        let cut = len - "/index.htm".unicode_len();
        Some(if cut == 0 {
            String::from_str("/")
        } else {
            substr(p, 0, cut)
        })
    } else if ends_with(p, "/index.xhtml") {
        let cut = len - "/index.xhtml".unicode_len();
        Some(if cut == 0 {
            String::from_str("/")
        } else {
            substr(p, 0, cut)
        })
    } else {
        None
    }
}

/// Derives the implicit index-routing pairs from the current asset set.
pub fn derive_index_pairs(assets: &Vec<Asset>, file_router: bool) -> (r: Vec<(String, String)>)
    ensures
        puppet_views(r@) == spec_index_pairs(spec_asset_paths(assets@), file_router),
{
    let mut out: Vec<(String, String)> = Vec::new();
    let n = assets.len();
    let mut i: usize = 0;
    while i < n
        invariant
            0 <= i <= n,
            n == assets@.len(),
            puppet_views(out@) =~= spec_index_pairs(
                spec_asset_paths(assets@).take(i as int),
                file_router,
            ),
        decreases n - i,
    {
        let ghost done = spec_asset_paths(assets@).take(i as int);
        let path = assets[i].path();
        proof {
            assert(spec_asset_paths(assets@).take(i + 1).drop_last() =~= done);
            assert(spec_asset_paths(assets@).take(i + 1).last() == path@);
        }
        if file_router {
            match html_strip(path.as_str()) {
                Some(s) => {
                    let from = file_router_from(s.as_str());
                    let to = path.clone();
                    out.push((from, to));
                },
                None => {},
            }
        } else {
            match default_router_from(path.as_str()) {
                Some(f) => {
                    let to = path.clone();
                    out.push((f, to));
                },
                None => {},
            }
        }
        proof {
            assert(puppet_views(out@) =~= spec_index_pairs(
                spec_asset_paths(assets@).take(i + 1),
                file_router,
            ));
        }
        i += 1;
    }
    proof {
        assert(spec_asset_paths(assets@).take(n as int) =~= spec_asset_paths(assets@));
    }
    out
}

// ---------------------------------------------------------------------------
// Puppets: keyed upsert with last-write-wins semantics
// ---------------------------------------------------------------------------
/// Binds `from` to `to`: the first pair with the same key is replaced in
/// place, otherwise the pair is appended.
pub open spec fn spec_puppet_upsert(
    ps: Seq<(Seq<char>, Seq<char>)>,
    from: Seq<char>,
    to: Seq<char>,
) -> Seq<(Seq<char>, Seq<char>)>
    decreases ps.len(),
{
    if ps.len() == 0 {
        seq![(from, to)]
    } else if ps.first().0 == from {
        seq![(from, to)] + ps.drop_first()
    } else {
        seq![ps.first()] + spec_puppet_upsert(ps.drop_first(), from, to)
    }
}

proof fn lemma_upsert_at(ps: Seq<(Seq<char>, Seq<char>)>, i: int, from: Seq<char>, to: Seq<char>)
    requires
        0 <= i < ps.len(),
        ps[i].0 == from,
        forall|j: int| 0 <= j < i ==> (#[trigger] ps[j]).0 != from,
    ensures
        spec_puppet_upsert(ps, from, to) == ps.update(i, (from, to)),
    decreases i,
{
    if i == 0 {
        assert(seq![(from, to)] + ps.drop_first() =~= ps.update(0, (from, to)));
    } else {
        lemma_upsert_at(ps.drop_first(), i - 1, from, to);
        assert(seq![ps.first()] + ps.drop_first().update(i - 1, (from, to)) =~= ps.update(
            i,
            (from, to),
        ));
    }
}

proof fn lemma_upsert_missing(ps: Seq<(Seq<char>, Seq<char>)>, from: Seq<char>, to: Seq<char>)
    requires
        forall|j: int| 0 <= j < ps.len() ==> (#[trigger] ps[j]).0 != from,
    ensures
        spec_puppet_upsert(ps, from, to) == ps.push((from, to)),
    decreases ps.len(),
{
    if ps.len() == 0 {
        assert(seq![(from, to)] =~= ps.push((from, to)));
    } else {
        lemma_upsert_missing(ps.drop_first(), from, to);
        assert(seq![ps.first()] + ps.drop_first().push((from, to)) =~= ps.push((from, to)));
    }
}

/// Binds `from` to `to` in the puppet list, overwriting in place when the
/// key is present and appending otherwise.
pub fn puppet_insert(p: &mut Vec<(String, String)>, from: String, to: String)
    ensures
        puppet_views(final(p)@) == spec_puppet_upsert(puppet_views(old(p)@), from@, to@),
{
    let n = p.len();
    let mut i: usize = 0;
    while i < n
        invariant
            0 <= i <= n,
            n == p@.len(),
            p@ == old(p)@,
            forall|j: int| 0 <= j < i ==> (#[trigger] puppet_views(p@)[j]).0 != from@,
        decreases n - i,
    {
        if str_eq(p[i].0.as_str(), from.as_str()) {
            proof {
                lemma_upsert_at(puppet_views(p@), i as int, from@, to@);
            }
            p.set(i, (from, to));
            proof {
                assert(puppet_views(final(p)@) =~= puppet_views(old(p)@).update(
                    i as int,
                    (from@, to@),
                ));
            }
            return ;
        }
        i += 1;
    }
    proof {
        lemma_upsert_missing(puppet_views(p@), from@, to@);
    }
    p.push((from, to));
    proof {
        assert(puppet_views(final(p)@) =~= puppet_views(old(p)@).push((from@, to@)));
    }
}

/// Upserts every pair in order.
pub open spec fn spec_upsert_pairs(
    ps: Seq<(Seq<char>, Seq<char>)>,
    pairs: Seq<(Seq<char>, Seq<char>)>,
) -> Seq<(Seq<char>, Seq<char>)>
    decreases pairs.len(),
{
    if pairs.len() == 0 {
        ps
    } else {
        spec_upsert_pairs(
            spec_puppet_upsert(ps, pairs.first().0, pairs.first().1),
            pairs.drop_first(),
        )
    }
}

fn upsert_pairs(p: &mut Vec<(String, String)>, pairs: &Vec<(String, String)>)
    ensures
        puppet_views(final(p)@) == spec_upsert_pairs(puppet_views(old(p)@), puppet_views(pairs@)),
{
    let ghost goal = spec_upsert_pairs(puppet_views(old(p)@), puppet_views(pairs@));
    proof {
        assert(puppet_views(pairs@).skip(0) =~= puppet_views(pairs@));
    }
    let n = pairs.len();
    let mut i: usize = 0;
    while i < n
        invariant
            0 <= i <= n,
            n == pairs@.len(),
            spec_upsert_pairs(puppet_views(p@), puppet_views(pairs@).skip(i as int)) == goal,
        decreases n - i,
    {
        let ghost rem = puppet_views(pairs@).skip(i as int);
        proof {
            assert(rem.first() == puppet_views(pairs@)[i as int]);
            assert(rem.drop_first() =~= puppet_views(pairs@).skip(i + 1));
        }
        puppet_insert(p, pairs[i].0.clone(), pairs[i].1.clone());
        i += 1;
    }
    proof {
        assert(puppet_views(pairs@).skip(n as int) =~= Seq::<(Seq<char>, Seq<char>)>::empty());
    }
}

// ---------------------------------------------------------------------------
// Redirects: push deduplicated by the exact (status, path, location) triple
// ---------------------------------------------------------------------------
/// Appends `r` unless the exact triple is already present.
pub open spec fn spec_add_redirect(
    rs: Seq<(int, Seq<char>, Seq<char>)>,
    r: (int, Seq<char>, Seq<char>),
) -> Seq<(int, Seq<char>, Seq<char>)> {
    if rs.contains(r) {
        rs
    } else {
        rs.push(r)
    }
}

/// Materializes index pairs as 308 redirects, in order, deduplicated.
pub open spec fn spec_add_index_redirects(
    rs: Seq<(int, Seq<char>, Seq<char>)>,
    pairs: Seq<(Seq<char>, Seq<char>)>,
) -> Seq<(int, Seq<char>, Seq<char>)>
    decreases pairs.len(),
{
    if pairs.len() == 0 {
        rs
    } else {
        spec_add_index_redirects(
            spec_add_redirect(rs, (308, pairs.first().0, pairs.first().1)),
            pairs.drop_first(),
        )
    }
}

fn push_redirect_dedup(rs: &mut Vec<Redirect>, status: u16, path: String, location: String)
    ensures
        redirect_views(final(rs)@) == spec_add_redirect(
            redirect_views(old(rs)@),
            (status as int, path@, location@),
        ),
{
    let ghost r = (status as int, path@, location@);
    let n = rs.len();
    let mut i: usize = 0;
    while i < n
        invariant
            0 <= i <= n,
            n == rs@.len(),
            rs@ == old(rs)@,
            r == (status as int, path@, location@),
            forall|j: int| 0 <= j < i ==> #[trigger] redirect_views(rs@)[j] != r,
        decreases n - i,
    {
        let e = &rs[i];
        proof {
            assert(*e == rs@[i as int]);
            assert(redirect_views(rs@)[i as int] == (
                rs@[i as int].status as int,
                rs@[i as int].path@,
                rs@[i as int].location@,
            ));
        }
        let same_status = e.status == status;
        let same_path = str_eq(e.path.as_str(), path.as_str());
        let same_location = str_eq(e.location.as_str(), location.as_str());
        if same_status && same_path && same_location {
            proof {
                assert(rs@[i as int].status == status);
                assert(rs@[i as int].path@ == path@);
                assert(rs@[i as int].location@ == location@);
                assert(redirect_views(rs@)[i as int] =~= r);
                assert(redirect_views(rs@).contains(r));
            }
            return ;
        }
        proof {
            if redirect_views(rs@)[i as int] == r {
                assert((redirect_views(rs@)[i as int]).0 == r.0);
                assert((redirect_views(rs@)[i as int]).1 == r.1);
                assert((redirect_views(rs@)[i as int]).2 == r.2);
                assert(rs@[i as int].status == status);
                assert(rs@[i as int].path@ == path@);
                assert(rs@[i as int].location@ == location@);
            }
        }
        i += 1;
    }
    proof {
        assert(forall|j: int|
            0 <= j < redirect_views(rs@).len() ==> #[trigger] redirect_views(rs@)[j] != r);
        assert(!redirect_views(rs@).contains(r));
    }
    rs.push(Redirect { status, path, location });
    proof {
        assert(redirect_views(final(rs)@) =~= redirect_views(old(rs)@).push(r));
    }
}

fn add_index_redirects(rs: &mut Vec<Redirect>, pairs: Vec<(String, String)>)
    ensures
        redirect_views(final(rs)@) == spec_add_index_redirects(
            redirect_views(old(rs)@),
            puppet_views(pairs@),
        ),
{
    let ghost goal = spec_add_index_redirects(redirect_views(old(rs)@), puppet_views(pairs@));
    proof {
        assert(puppet_views(pairs@).skip(0) =~= puppet_views(pairs@));
    }
    let n = pairs.len();
    let mut i: usize = 0;
    while i < n
        invariant
            0 <= i <= n,
            n == pairs@.len(),
            spec_add_index_redirects(redirect_views(rs@), puppet_views(pairs@).skip(i as int))
                == goal,
        decreases n - i,
    {
        let ghost rem = puppet_views(pairs@).skip(i as int);
        proof {
            assert(rem.first() == puppet_views(pairs@)[i as int]);
            assert(rem.drop_first() =~= puppet_views(pairs@).skip(i + 1));
        }
        push_redirect_dedup(rs, 308, pairs[i].0.clone(), pairs[i].1.clone());
        i += 1;
    }
    proof {
        assert(puppet_views(pairs@).skip(n as int) =~= Seq::<(Seq<char>, Seq<char>)>::empty());
    }
}

// ---------------------------------------------------------------------------
// ASCII upper-casing (for method tokens)
// ---------------------------------------------------------------------------
/// Upper-cases one ASCII letter and leaves every other character alone.
pub open spec fn spec_upper_char(c: char) -> char {
    if c == 'a' { 'A' } else if c == 'b' { 'B' } else if c == 'c' { 'C' }
    else if c == 'd' { 'D' } else if c == 'e' { 'E' } else if c == 'f' { 'F' }
    else if c == 'g' { 'G' } else if c == 'h' { 'H' } else if c == 'i' { 'I' }
    else if c == 'j' { 'J' } else if c == 'k' { 'K' } else if c == 'l' { 'L' }
    else if c == 'm' { 'M' } else if c == 'n' { 'N' } else if c == 'o' { 'O' }
    else if c == 'p' { 'P' } else if c == 'q' { 'Q' } else if c == 'r' { 'R' }
    else if c == 's' { 'S' } else if c == 't' { 'T' } else if c == 'u' { 'U' }
    else if c == 'v' { 'V' } else if c == 'w' { 'W' } else if c == 'x' { 'X' }
    else if c == 'y' { 'Y' } else if c == 'z' { 'Z' } else { c }
}

fn upper_char(c: char) -> (r: char)
    ensures
        r == spec_upper_char(c),
{
    if c == 'a' { 'A' } else if c == 'b' { 'B' } else if c == 'c' { 'C' }
    else if c == 'd' { 'D' } else if c == 'e' { 'E' } else if c == 'f' { 'F' }
    else if c == 'g' { 'G' } else if c == 'h' { 'H' } else if c == 'i' { 'I' }
    else if c == 'j' { 'J' } else if c == 'k' { 'K' } else if c == 'l' { 'L' }
    else if c == 'm' { 'M' } else if c == 'n' { 'N' } else if c == 'o' { 'O' }
    else if c == 'p' { 'P' } else if c == 'q' { 'Q' } else if c == 'r' { 'R' }
    else if c == 's' { 'S' } else if c == 't' { 'T' } else if c == 'u' { 'U' }
    else if c == 'v' { 'V' } else if c == 'w' { 'W' } else if c == 'x' { 'X' }
    else if c == 'y' { 'Y' } else if c == 'z' { 'Z' } else { c }
}

/// ASCII upper-casing of a whole string.
pub open spec fn spec_upper(s: Seq<char>) -> Seq<char> {
    s.map_values(|c: char| spec_upper_char(c))
}

fn to_upper(s: &str) -> (r: String)
    ensures
        r@ == spec_upper(s@),
{
    let len = s.unicode_len();
    let mut out = String::new();
    let mut i: usize = 0;
    while i < len
        invariant
            0 <= i <= len,
            len == s@.len(),
            out@ =~= spec_upper(s@.take(i as int)),
        decreases len - i,
    {
        let c = s.get_char(i);
        push_char(&mut out, upper_char(c));
        proof {
            assert(out@ =~= spec_upper(s@.take(i + 1)));
        }
        i += 1;
    }
    proof {
        assert(s@.take(len as int) =~= s@);
    }
    out
}

// ---------------------------------------------------------------------------
// Step 5: interceptors
// ---------------------------------------------------------------------------
/// Interceptors as `(method, status, path)` triples.
pub open spec fn interceptor_views(ics: Seq<Interceptor>) -> Seq<(Method, int, Seq<char>)> {
    ics.map_values(|ic: Interceptor| (ic.method, ic.status as int, ic.path@))
}

/// Every supported method, in expansion order for a `*` flag.
pub open spec fn spec_all_methods() -> Seq<Method> {
    seq![
        Method::GET,
        Method::POST,
        Method::PUT,
        Method::DELETE,
        Method::HEAD,
        Method::OPTIONS,
        Method::CONNECT,
        Method::PATCH,
        Method::TRACE,
    ]
}

/// The status a normalized leading token spells, when it is a number that
/// fits an HTTP status field.
pub open spec fn spec_interceptor_status(st_norm: Seq<char>) -> Option<int> {
    if st_norm.len() == 0 {
        None
    } else {
        spec_token_status(st_norm.drop_first())
    }
}

/// The number a bare digit token spells, when it fits an HTTP status field.
pub open spec fn spec_token_status(st: Seq<char>) -> Option<int> {
    if crate::strutil::spec_all_digits(st) && crate::strutil::spec_digits_value(st) < 65536 {
        Some(crate::strutil::spec_digits_value(st) as int)
    } else {
        None
    }
}

/// The methods a normalized method token selects: `*` selects all of them.
pub open spec fn spec_methods_for_token(m_norm: Seq<char>) -> Option<Seq<Method>> {
    if m_norm.len() == 0 {
        None
    } else if m_norm == "/*"@ {
        Some(spec_all_methods())
    } else {
        match Method::spec_of(spec_upper(m_norm.drop_first())) {
            Some(m) => Some(seq![m]),
            None => None,
        }
    }
}

/// One `(method, status, path)` entry per selected method, in order.
pub open spec fn spec_items_for(ms: Seq<Method>, status: int, path: Seq<char>) -> Seq<
    (Method, int, Seq<char>),
>
    decreases ms.len(),
{
    if ms.len() == 0 {
        Seq::empty()
    } else {
        spec_items_for(ms.drop_last(), status, path).push((ms.last(), status, path))
    }
}

/// The interceptor entries one flag contributes, or nothing when the flag
/// is malformed or names a path that is not an asset.
pub open spec fn spec_interceptor_items(f: Seq<char>, paths: Seq<Seq<char>>) -> Option<
    Seq<(Method, int, Seq<char>)>,
> {
    match spec_split_args(f) {
        None => None,
        Some((st_norm, rest)) => match spec_interceptor_status(st_norm) {
            None => None,
            Some(status) => match spec_split_colon(rest) {
                Some(_) => match spec_split_args(rest) {
                    Some((m_norm, path)) => match spec_methods_for_token(m_norm) {
                        Some(ms) => if paths.contains(path) {
                            Some(spec_items_for(ms, status, path))
                        } else {
                            None
                        },
                        None => None,
                    },
                    None => None,
                },
                None => if paths.contains(rest) {
                    Some(seq![(Method::GET, status, rest)])
                } else {
                    None
                },
            },
        },
    }
}

/// Appends `item` unless the exact triple is already present.
pub open spec fn spec_add_interceptor(
    acc: Seq<(Method, int, Seq<char>)>,
    item: (Method, int, Seq<char>),
) -> Seq<(Method, int, Seq<char>)> {
    if acc.contains(item) {
        acc
    } else {
        acc.push(item)
    }
}

pub open spec fn spec_add_interceptors(
    acc: Seq<(Method, int, Seq<char>)>,
    items: Seq<(Method, int, Seq<char>)>,
) -> Seq<(Method, int, Seq<char>)>
    decreases items.len(),
{
    if items.len() == 0 {
        acc
    } else {
        spec_add_interceptors(spec_add_interceptor(acc, items.first()), items.drop_first())
    }
}

/// Folds every interceptor flag, in order, into a deduplicated list.
pub open spec fn spec_apply_interceptor_flags(
    acc: Seq<(Method, int, Seq<char>)>,
    flags: Seq<Seq<char>>,
    paths: Seq<Seq<char>>,
) -> Seq<(Method, int, Seq<char>)>
    decreases flags.len(),
{
    if flags.len() == 0 {
        acc
    } else {
        let next = match spec_interceptor_items(flags.first(), paths) {
            Some(items) => spec_add_interceptors(acc, items),
            None => acc,
        };
        spec_apply_interceptor_flags(next, flags.drop_first(), paths)
    }
}

/// How many interceptor flags are discarded with a warning.
pub open spec fn spec_count_bad_interceptors(flags: Seq<Seq<char>>, paths: Seq<Seq<char>>) -> int
    decreases flags.len(),
{
    if flags.len() == 0 {
        0
    } else {
        (match spec_interceptor_items(flags.first(), paths) {
            Some(_) => 0int,
            None => 1int,
        }) + spec_count_bad_interceptors(flags.drop_first(), paths)
    }
}

fn asset_contains_path(assets: &Vec<Asset>, path: &str) -> (r: bool)
    ensures
        r == spec_asset_paths(assets@).contains(path@),
{
    let n = assets.len();
    let mut i: usize = 0;
    while i < n
        invariant
            0 <= i <= n,
            n == assets@.len(),
            forall|j: int| 0 <= j < i ==> #[trigger] spec_asset_paths(assets@)[j] != path@,
        decreases n - i,
    {
        if str_eq(assets[i].path().as_str(), path) {
            proof {
                assert(spec_asset_paths(assets@)[i as int] == path@);
            }
            return true;
        }
        i += 1;
    }
    proof {
        assert(!spec_asset_paths(assets@).contains(path@));
    }
    false
}

fn push_interceptor_dedup(acc: &mut Vec<Interceptor>, method: Method, status: u16, path: String)
    ensures
        interceptor_views(final(acc)@) == spec_add_interceptor(
            interceptor_views(old(acc)@),
            (method, status as int, path@),
        ),
{
    let ghost item = (method, status as int, path@);
    let n = acc.len();
    let mut i: usize = 0;
    while i < n
        invariant
            0 <= i <= n,
            n == acc@.len(),
            acc@ == old(acc)@,
            item == (method, status as int, path@),
            forall|j: int| 0 <= j < i ==> #[trigger] interceptor_views(acc@)[j] != item,
        decreases n - i,
    {
        let e = &acc[i];
        proof {
            assert(*e == acc@[i as int]);
            assert(interceptor_views(acc@)[i as int] == (
                acc@[i as int].method,
                acc@[i as int].status as int,
                acc@[i as int].path@,
            ));
        }
        let same_method = e.method == method;
        let same_status = e.status == status;
        let same_path = str_eq(e.path.as_str(), path.as_str());
        if same_method && same_status && same_path {
            proof {
                assert(interceptor_views(acc@)[i as int] == item);
                assert(interceptor_views(acc@).contains(item));
            }
            return ;
        }
        proof {
            if interceptor_views(acc@)[i as int] == item {
                assert((interceptor_views(acc@)[i as int]).0 == item.0);
                assert((interceptor_views(acc@)[i as int]).1 == item.1);
                assert((interceptor_views(acc@)[i as int]).2 == item.2);
            }
        }
        i += 1;
    }
    proof {
        assert(!interceptor_views(acc@).contains(item));
    }
    acc.push(Interceptor { method, status, path });
    proof {
        assert(interceptor_views(final(acc)@) =~= interceptor_views(old(acc)@).push(item));
    }
}

// ---------------------------------------------------------------------------
// Step 6: guards
// ---------------------------------------------------------------------------
/// Guards as `(username hash, password hash, patterns)` triples.
pub open spec fn guard_views(gs: Seq<Guard>) -> Seq<
    (Seq<char>, Option<Seq<char>>, Seq<Seq<char>>),
> {
    gs.map_values(
        |g: Guard|
            (
                g.credentials.username@,
                match g.credentials.password {
                    Some(p) => Some(p@),
                    None => None,
                },
                g.patterns@.map_values(|s: String| s@),
            ),
    )
}

/// The hash stored for a password: absent when the password is empty.
pub open spec fn spec_password_hash(pw: Seq<char>) -> Option<Seq<char>> {
    if pw.len() == 0 {
        None
    } else {
        Some(spec_hash64(pw))
    }
}

/// The stored pattern: `*` when omitted or empty, otherwise the given
/// pattern with a trailing `/` appended unless it already ends in `*` or
/// `/`.
pub open spec fn spec_guard_pattern(pat: Seq<char>) -> Seq<char> {
    if pat.len() == 0 {
        "*"@
    } else if crate::strutil::spec_ends_with(pat, "*"@) || crate::strutil::spec_ends_with(
        pat,
        "/"@,
    ) {
        pat
    } else {
        pat.push('/')
    }
}

/// The guard one flag contributes, or nothing when the flag has no colon.
pub open spec fn spec_guard_of_flag(f: Seq<char>) -> Option<
    (Seq<char>, Option<Seq<char>>, Seq<Seq<char>>),
> {
    match spec_split_colon(f) {
        None => None,
        Some((user, rest)) => match spec_split_colon(rest) {
            Some((pw, pat)) => Some(
                (spec_hash64(user), spec_password_hash(pw), seq![spec_guard_pattern(pat)]),
            ),
            None => Some((spec_hash64(user), spec_password_hash(rest), seq!["*"@])),
        },
    }
}

/// The guards every flag contributes, in order, malformed flags skipped.
pub open spec fn spec_guards_of_flags(flags: Seq<Seq<char>>) -> Seq<
    (Seq<char>, Option<Seq<char>>, Seq<Seq<char>>),
>
    decreases flags.len(),
{
    if flags.len() == 0 {
        Seq::empty()
    } else {
        (match spec_guard_of_flag(flags.first()) {
            Some(g) => seq![g],
            None => Seq::empty(),
        }) + spec_guards_of_flags(flags.drop_first())
    }
}

/// How many guard flags are discarded with a warning.
pub open spec fn spec_count_bad_guards(flags: Seq<Seq<char>>) -> int
    decreases flags.len(),
{
    if flags.len() == 0 {
        0
    } else {
        (match spec_guard_of_flag(flags.first()) {
            Some(_) => 0int,
            None => 1int,
        }) + spec_count_bad_guards(flags.drop_first())
    }
}

// ---------------------------------------------------------------------------
// Steps 3 and 4: explicit puppet and redirect flags
// ---------------------------------------------------------------------------
/// Folds every puppet flag, in order; malformed flags change nothing.
pub open spec fn spec_apply_puppet_flags(
    ps: Seq<(Seq<char>, Seq<char>)>,
    flags: Seq<Seq<char>>,
) -> Seq<(Seq<char>, Seq<char>)>
    decreases flags.len(),
{
    if flags.len() == 0 {
        ps
    } else {
        let next = match spec_split_args(flags.first()) {
            Some((from, to)) => spec_puppet_upsert(ps, from, to),
            None => ps,
        };
        spec_apply_puppet_flags(next, flags.drop_first())
    }
}

/// How many puppet flags are discarded with a warning.
pub open spec fn spec_count_bad_puppets(flags: Seq<Seq<char>>) -> int
    decreases flags.len(),
{
    if flags.len() == 0 {
        0
    } else {
        (match spec_split_args(flags.first()) {
            Some(_) => 0int,
            None => 1int,
        }) + spec_count_bad_puppets(flags.drop_first())
    }
}

/// The redirect one flag contributes: when the part after the first colon
/// itself starts with a number-spelling token and a colon, that number is
/// the status and the remainder the location; otherwise the whole part is
/// the location and the status defaults to 308.
pub open spec fn spec_redirect_of_flag(f: Seq<char>) -> Option<(int, Seq<char>, Seq<char>)> {
    match spec_split_args(f) {
        None => None,
        Some((from, to)) => match spec_split_args(to) {
            Some((st_norm, loc)) => match spec_interceptor_status(st_norm) {
                Some(status) => Some((status, from, loc)),
                None => Some((308, from, to)),
            },
            None => Some((308, from, to)),
        },
    }
}

/// Folds every redirect flag, in order, deduplicated by the exact triple.
pub open spec fn spec_apply_redirect_flags(
    rs: Seq<(int, Seq<char>, Seq<char>)>,
    flags: Seq<Seq<char>>,
) -> Seq<(int, Seq<char>, Seq<char>)>
    decreases flags.len(),
{
    if flags.len() == 0 {
        rs
    } else {
        let next = match spec_redirect_of_flag(flags.first()) {
            Some(r) => spec_add_redirect(rs, r),
            None => rs,
        };
        spec_apply_redirect_flags(next, flags.drop_first())
    }
}

/// How many redirect flags are discarded with a warning.
pub open spec fn spec_count_bad_redirects(flags: Seq<Seq<char>>) -> int
    decreases flags.len(),
{
    if flags.len() == 0 {
        0
    } else {
        (match spec_redirect_of_flag(flags.first()) {
            Some(_) => 0int,
            None => 1int,
        }) + spec_count_bad_redirects(flags.drop_first())
    }
}

// ---------------------------------------------------------------------------
// Warnings
// ---------------------------------------------------------------------------
/// A recoverable per-flag failure: the offending flag is skipped and
/// compilation continues.
#[derive(Debug)]
pub enum CompileWarning {
    BadPuppet(String),
    BadRedirect(String),
    BadInterceptor(String),
    BadGuard(String),
    BadCacheControl(String),
    MissingCacheControlAsset(String),
}

impl CompileWarning {
    /// A human-readable description of the skipped flag.
    pub fn text(&self) -> String {
        let (label, flag) = match self {
            CompileWarning::BadPuppet(f) => ("unable to process puppet ", f),
            CompileWarning::BadRedirect(f) => ("unable to process redirect ", f),
            CompileWarning::BadInterceptor(f) => ("unable to process interceptor ", f),
            CompileWarning::BadGuard(f) => ("unable to process guard ", f),
            CompileWarning::BadCacheControl(f) => ("unable to attach cache-control header ", f),
            CompileWarning::MissingCacheControlAsset(f) => (
                "unable to locate the asset named by cache-control flag ",
                f,
            ),
        };
        let mut out = String::from_str(label);
        out.append("\"");
        out.append(flag.as_str());
        out.append("\"");
        out
    }
}

// ---------------------------------------------------------------------------
// Executable steps
// ---------------------------------------------------------------------------
fn token_status(st_norm: &str) -> (r: Option<u16>)
    ensures
        match r {
            Some(v) => spec_interceptor_status(st_norm@) == Some(v as int),
            None => spec_interceptor_status(st_norm@) is None,
        },
{
    let len = st_norm.unicode_len();
    if len == 0 {
        return None;
    }
    let st = st_norm.substring_char(1, len);
    proof {
        assert(st@ =~= st_norm@.drop_first());
    }
    match crate::strutil::parse_u64(st) {
        Some(v) => if v <= 65535 {
            Some(v as u16)
        } else {
            None
        },
        None => None,
    }
}

fn apply_puppet_flags(
    p: &mut Vec<(String, String)>,
    flags: &Vec<String>,
    warnings: &mut Vec<CompileWarning>,
)
    ensures
        puppet_views(final(p)@) == spec_apply_puppet_flags(
            puppet_views(old(p)@),
            flag_views(flags@),
        ),
        final(warnings)@.len() == old(warnings)@.len() + spec_count_bad_puppets(
            flag_views(flags@),
        ),
{
    let ghost fv = flag_views(flags@);
    let ghost goal = spec_apply_puppet_flags(puppet_views(old(p)@), fv);
    let ghost wgoal = old(warnings)@.len() + spec_count_bad_puppets(fv);
    proof {
        assert(fv.skip(0) =~= fv);
    }
    let n = flags.len();
    let mut i: usize = 0;
    while i < n
        invariant
            0 <= i <= n,
            n == flags@.len(),
            fv == flag_views(flags@),
            spec_apply_puppet_flags(puppet_views(p@), fv.skip(i as int)) == goal,
            warnings@.len() + spec_count_bad_puppets(fv.skip(i as int)) == wgoal,
        decreases n - i,
    {
        proof {
            assert(fv.skip(i as int).first() == fv[i as int]);
            assert(fv.skip(i as int).drop_first() =~= fv.skip(i + 1));
        }
        let flag = &flags[i];
        proof {
            assert(flag@ == fv[i as int]);
        }
        match split_args(flag.as_str()) {
            Some((from, to)) => {
                puppet_insert(p, from, to);
            },
            None => {
                warnings.push(CompileWarning::BadPuppet(flag.clone()));
            },
        }
        i += 1;
    }
    proof {
        assert(fv.skip(n as int) =~= Seq::<Seq<char>>::empty());
    }
}

fn apply_redirect_flags(
    rs: &mut Vec<Redirect>,
    flags: &Vec<String>,
    warnings: &mut Vec<CompileWarning>,
)
    ensures
        redirect_views(final(rs)@) == spec_apply_redirect_flags(
            redirect_views(old(rs)@),
            flag_views(flags@),
        ),
        final(warnings)@.len() == old(warnings)@.len() + spec_count_bad_redirects(
            flag_views(flags@),
        ),
{
    let ghost fv = flag_views(flags@);
    let ghost goal = spec_apply_redirect_flags(redirect_views(old(rs)@), fv);
    let ghost wgoal = old(warnings)@.len() + spec_count_bad_redirects(fv);
    proof {
        assert(fv.skip(0) =~= fv);
    }
    let n = flags.len();
    let mut i: usize = 0;
    while i < n
        invariant
            0 <= i <= n,
            n == flags@.len(),
            fv == flag_views(flags@),
            spec_apply_redirect_flags(redirect_views(rs@), fv.skip(i as int)) == goal,
            warnings@.len() + spec_count_bad_redirects(fv.skip(i as int)) == wgoal,
        decreases n - i,
    {
        proof {
            assert(fv.skip(i as int).first() == fv[i as int]);
            assert(fv.skip(i as int).drop_first() =~= fv.skip(i + 1));
        }
        let flag = &flags[i];
        proof {
            assert(flag@ == fv[i as int]);
        }
        match split_args(flag.as_str()) {
            Some((from, to)) => {
                match split_args(to.as_str()) {
                    Some((st_norm, loc)) => {
                        match token_status(st_norm.as_str()) {
                            Some(status) => {
                                push_redirect_dedup(rs, status, from, loc);
                            },
                            None => {
                                push_redirect_dedup(rs, 308, from, to);
                            },
                        }
                    },
                    None => {
                        push_redirect_dedup(rs, 308, from, to);
                    },
                }
            },
            None => {
                warnings.push(CompileWarning::BadRedirect(flag.clone()));
            },
        }
        i += 1;
    }
    proof {
        assert(fv.skip(n as int) =~= Seq::<Seq<char>>::empty());
    }
}

fn parse_interceptor_flag(flag: &str, assets: &Vec<Asset>) -> (r: Option<Vec<Interceptor>>)
    ensures
        match r {
            Some(v) => spec_interceptor_items(flag@, spec_asset_paths(assets@)) == Some(
                interceptor_views(v@),
            ),
            None => spec_interceptor_items(flag@, spec_asset_paths(assets@)) is None,
        },
{
    let parts = match split_args(flag) {
        Some(parts) => parts,
        None => {
            return None;
        },
    };
    let (st_norm, rest) = parts;
    let status = match token_status(st_norm.as_str()) {
        Some(status) => status,
        None => {
            return None;
        },
    };
    match find_char(rest.as_str(), ':') {
        Some(_) => {
            proof {
                lemma_split_colon_at(
                    rest@,
                    choose|k: int|
                        0 <= k < rest@.len() && rest@[k] == ':' && forall|j: int|
                            0 <= j < k ==> rest@[j] != ':',
                );
            }
            let inner = match split_args(rest.as_str()) {
                Some(inner) => inner,
                None => {
                    return None;
                },
            };
            let (m_norm, path) = inner;
            let mlen = m_norm.as_str().unicode_len();
            if mlen == 0 {
                return None;
            }
            let methods: Vec<Method> = if str_eq(m_norm.as_str(), "/*") {
                Method::all()
            } else {
                let upper = to_upper(m_norm.as_str().substring_char(1, mlen));
                proof {
                    assert(m_norm@.drop_first() =~= m_norm@.subrange(1, m_norm@.len() as int));
                }
                match Method::from_str(upper.as_str()) {
                    Ok(m) => {
                        let mut v: Vec<Method> = Vec::new();
                        v.push(m);
                        proof {
                            assert(v@ =~= seq![m]);
                        }
                        v
                    },
                    Err(_) => {
                        return None;
                    },
                }
            };
            if !asset_contains_path(assets, path.as_str()) {
                return None;
            }
            let mut out: Vec<Interceptor> = Vec::new();
            let nm = methods.len();
            let mut k: usize = 0;
            while k < nm
                invariant
                    0 <= k <= nm,
                    nm == methods@.len(),
                    interceptor_views(out@) =~= spec_items_for(
                        methods@.take(k as int),
                        status as int,
                        path@,
                    ),
                decreases nm - k,
            {
                let ghost old_out = out@;
                let cloned_path = path.clone();
                out.push(Interceptor { method: methods[k], status, path: cloned_path });
                proof {
                    assert(methods@.take(k + 1).drop_last() =~= methods@.take(k as int));
                    assert(methods@.take(k + 1).last() == methods@[k as int]);
                    assert(interceptor_views(out@) =~= interceptor_views(old_out).push(
                        (methods@[k as int], status as int, path@),
                    ));
                }
                k += 1;
            }
            proof {
                assert(methods@.take(nm as int) =~= methods@);
            }
            Some(out)
        },
        None => {
            proof {
                lemma_split_colon_none(rest@);
            }
            if !asset_contains_path(assets, rest.as_str()) {
                return None;
            }
            let mut out: Vec<Interceptor> = Vec::new();
            out.push(Interceptor { method: Method::GET, status, path: rest });
            proof {
                assert(interceptor_views(out@) =~= seq![
                    (Method::GET, status as int, out@[0].path@),
                ]);
            }
            Some(out)
        },
    }
}

fn apply_interceptor_flags(
    flags: &Vec<String>,
    assets: &Vec<Asset>,
    warnings: &mut Vec<CompileWarning>,
) -> (r: Vec<Interceptor>)
    ensures
        interceptor_views(r@) == spec_apply_interceptor_flags(
            Seq::empty(),
            flag_views(flags@),
            spec_asset_paths(assets@),
        ),
        final(warnings)@.len() == old(warnings)@.len() + spec_count_bad_interceptors(
            flag_views(flags@),
            spec_asset_paths(assets@),
        ),
{
    let ghost fv = flag_views(flags@);
    let ghost paths = spec_asset_paths(assets@);
    let ghost goal = spec_apply_interceptor_flags(Seq::empty(), fv, paths);
    let ghost wgoal = old(warnings)@.len() + spec_count_bad_interceptors(fv, paths);
    let mut acc: Vec<Interceptor> = Vec::new();
    proof {
        assert(fv.skip(0) =~= fv);
        assert(interceptor_views(acc@) =~= Seq::<(Method, int, Seq<char>)>::empty());
    }
    let n = flags.len();
    let mut i: usize = 0;
    while i < n
        invariant
            0 <= i <= n,
            n == flags@.len(),
            fv == flag_views(flags@),
            paths == spec_asset_paths(assets@),
            spec_apply_interceptor_flags(interceptor_views(acc@), fv.skip(i as int), paths)
                == goal,
            warnings@.len() + spec_count_bad_interceptors(fv.skip(i as int), paths) == wgoal,
        decreases n - i,
    {
        proof {
            assert(fv.skip(i as int).first() == fv[i as int]);
            assert(fv.skip(i as int).drop_first() =~= fv.skip(i + 1));
        }
        let flag = &flags[i];
        proof {
            assert(flag@ == fv[i as int]);
        }
        match parse_interceptor_flag(flag.as_str(), assets) {
            Some(items) => {
                let ghost iv = interceptor_views(items@);
                let ghost igoal = spec_add_interceptors(interceptor_views(acc@), iv);
                proof {
                    assert(iv.skip(0) =~= iv);
                }
                let nk = items.len();
                let mut k: usize = 0;
                while k < nk
                    invariant
                        0 <= k <= nk,
                        nk == items@.len(),
                        iv == interceptor_views(items@),
                        spec_add_interceptors(interceptor_views(acc@), iv.skip(k as int))
                            == igoal,
                    decreases nk - k,
                {
                    proof {
                        assert(iv.skip(k as int).first() == iv[k as int]);
                        assert(iv.skip(k as int).drop_first() =~= iv.skip(k + 1));
                    }
                    let item = &items[k];
                    proof {
                        assert(iv[k as int] == (item.method, item.status as int, item.path@));
                    }
                    push_interceptor_dedup(&mut acc, item.method, item.status, item.path.clone());
                    k += 1;
                }
                proof {
                    assert(iv.skip(nk as int) =~= Seq::<(Method, int, Seq<char>)>::empty());
                }
            },
            None => {
                warnings.push(CompileWarning::BadInterceptor(flag.clone()));
            },
        }
        i += 1;
    }
    proof {
        assert(fv.skip(n as int) =~= Seq::<Seq<char>>::empty());
    }
    acc
}

fn build_guards(flags: &Vec<String>, warnings: &mut Vec<CompileWarning>) -> (r: Vec<Guard>)
    ensures
        guard_views(r@) == spec_guards_of_flags(flag_views(flags@)),
        forall|j: int| 0 <= j < r@.len() ==> (#[trigger] r@[j]).scheme == AuthScheme::Basic,
        final(warnings)@.len() == old(warnings)@.len() + spec_count_bad_guards(flag_views(flags@)),
{
    let ghost fv = flag_views(flags@);
    let ghost wgoal = old(warnings)@.len() + spec_count_bad_guards(fv);
    let mut out: Vec<Guard> = Vec::new();
    proof {
        assert(fv.take(0) =~= Seq::<Seq<char>>::empty());
        assert(guard_views(out@) =~= Seq::<(Seq<char>, Option<Seq<char>>, Seq<Seq<char>>)>::empty());
    }
    let n = flags.len();
    let mut i: usize = 0;
    while i < n
        invariant
            0 <= i <= n,
            n == flags@.len(),
            fv == flag_views(flags@),
            guard_views(out@) == spec_guards_of_flags(fv.take(i as int)),
            forall|j: int| 0 <= j < out@.len() ==> (#[trigger] out@[j]).scheme == AuthScheme::Basic,
            warnings@.len() == old(warnings)@.len() + spec_count_bad_guards(fv.take(i as int)),
        decreases n - i,
    {
        let flag = &flags[i];
        proof {
            assert(flag@ == fv[i as int]);
            lemma_guards_take_step(fv, i as int);
        }
        match split_args_basic(flag.as_str()) {
            Some((user, rest)) => {
                let username = hash_credential(user.as_str());
                match split_args_basic(rest.as_str()) {
                    Some((pw, pat)) => {
                        let password = if pw.as_str().unicode_len() == 0 {
                            None
                        } else {
                            Some(hash_credential(pw.as_str()))
                        };
                        let pattern: String = if pat.as_str().unicode_len() == 0 {
                            String::from_str("*")
                        } else if ends_with(pat.as_str(), "*") || ends_with(pat.as_str(), "/") {
                            pat
                        } else {
                            let mut p = pat;
                            let ghost before = p@;
                            p.append("/");
                            proof {
                                reveal_strlit("/");
                                assert(p@ =~= before.push('/'));
                            }
                            p
                        };
                        let mut patterns: Vec<String> = Vec::new();
                        patterns.push(pattern);
                        let g = Guard {
                            credentials: AuthCredentials { username, password },
                            scheme: AuthScheme::Basic,
                            patterns,
                        };
                        let ghost gv = spec_guard_of_flag(fv[i as int]).unwrap();
                        proof {
                            assert(g.patterns@.map_values(|s: String| s@) =~= gv.2);
                        }
                        out.push(g);
                        proof {
                            assert(guard_views(out@) =~= spec_guards_of_flags(fv.take(i + 1)));
                        }
                    },
                    None => {
                        let password = if rest.as_str().unicode_len() == 0 {
                            None
                        } else {
                            Some(hash_credential(rest.as_str()))
                        };
                        let mut patterns: Vec<String> = Vec::new();
                        patterns.push(String::from_str("*"));
                        let g = Guard {
                            credentials: AuthCredentials { username, password },
                            scheme: AuthScheme::Basic,
                            patterns,
                        };
                        let ghost gv = spec_guard_of_flag(fv[i as int]).unwrap();
                        proof {
                            assert(g.patterns@.map_values(|s: String| s@) =~= gv.2);
                        }
                        out.push(g);
                        proof {
                            assert(guard_views(out@) =~= spec_guards_of_flags(fv.take(i + 1)));
                        }
                    },
                }
            },
            None => {
                warnings.push(CompileWarning::BadGuard(flag.clone()));
            },
        }
        i += 1;
    }
    proof {
        assert(fv.take(n as int) =~= fv);
    }
    out
}

/// Extending the processed prefix by one flag extends the folded guards by
/// at most that flag's contribution.
proof fn lemma_guards_take_step(fv: Seq<Seq<char>>, i: int)
    requires
        0 <= i < fv.len(),
    ensures
        spec_guards_of_flags(fv.take(i + 1)) == spec_guards_of_flags(fv.take(i)) + (
        match spec_guard_of_flag(fv[i]) {
            Some(g) => seq![g],
            None => Seq::empty(),
        }),
        spec_count_bad_guards(fv.take(i + 1)) == spec_count_bad_guards(fv.take(i)) + (
        match spec_guard_of_flag(fv[i]) {
            Some(_) => 0int,
            None => 1int,
        }),
    decreases i,
{
    if i == 0 {
        assert(fv.take(0) =~= Seq::<Seq<char>>::empty());
        assert(fv.take(1).first() == fv[0]);
        assert(fv.take(1).drop_first() =~= Seq::<Seq<char>>::empty());
    } else {
        lemma_guards_take_step(fv.drop_first(), i - 1);
        assert(fv.take(i + 1).first() == fv[0]);
        assert(fv.take(i + 1).drop_first() =~= fv.drop_first().take(i));
        assert(fv.take(i).first() == fv[0]);
        assert(fv.take(i).drop_first() =~= fv.drop_first().take(i - 1));
        assert(fv.drop_first()[i - 1] == fv[i]);
    }
}

// ---------------------------------------------------------------------------
// Step 7: asset cache-control, and path-keyed asset insertion
// ---------------------------------------------------------------------------
/// Assets as `(path, cache-control)` pairs.
pub open spec fn asset_views(assets: Seq<Asset>) -> Seq<(Seq<char>, Option<Seq<char>>)> {
    assets.map_values(|a: Asset| (a.spec_path(), a.spec_cache_control()))
}

/// Replaces the cache-control of the first asset whose path is `path`.
pub open spec fn spec_set_cache_control(
    avs: Seq<(Seq<char>, Option<Seq<char>>)>,
    path: Seq<char>,
    value: Seq<char>,
) -> Seq<(Seq<char>, Option<Seq<char>>)>
    decreases avs.len(),
{
    if avs.len() == 0 {
        avs
    } else if avs.first().0 == path {
        seq![(path, Some(value))] + avs.drop_first()
    } else {
        seq![avs.first()] + spec_set_cache_control(avs.drop_first(), path, value)
    }
}

proof fn lemma_set_cc_at(
    avs: Seq<(Seq<char>, Option<Seq<char>>)>,
    i: int,
    path: Seq<char>,
    value: Seq<char>,
)
    requires
        0 <= i < avs.len(),
        avs[i].0 == path,
        forall|j: int| 0 <= j < i ==> (#[trigger] avs[j]).0 != path,
    ensures
        spec_set_cache_control(avs, path, value) == avs.update(i, (path, Some(value))),
    decreases i,
{
    if i == 0 {
        assert(seq![(path, Some(value))] + avs.drop_first() =~= avs.update(0, (path, Some(value))));
    } else {
        lemma_set_cc_at(avs.drop_first(), i - 1, path, value);
        assert(seq![avs.first()] + avs.drop_first().update(i - 1, (path, Some(value))) =~= avs
            .update(i, (path, Some(value))));
    }
}

/// Whether some asset has the given path.
pub open spec fn spec_has_path(avs: Seq<(Seq<char>, Option<Seq<char>>)>, path: Seq<char>) -> bool {
    exists|i: int| 0 <= i < avs.len() && (#[trigger] avs[i]).0 == path
}

/// One cache-control flag: `value:path` with a valid value and a matching
/// asset updates that asset; anything else changes nothing.
pub open spec fn spec_apply_cc_flag(
    avs: Seq<(Seq<char>, Option<Seq<char>>)>,
    f: Seq<char>,
) -> Seq<(Seq<char>, Option<Seq<char>>)> {
    match spec_split_colon(f) {
        None => avs,
        Some((value, path)) => if !crate::configuration::valid_cache_control(value) {
            avs
        } else if spec_has_path(avs, path) {
            spec_set_cache_control(avs, path, value)
        } else {
            avs
        },
    }
}

pub open spec fn spec_apply_cc_flags(
    avs: Seq<(Seq<char>, Option<Seq<char>>)>,
    flags: Seq<Seq<char>>,
) -> Seq<(Seq<char>, Option<Seq<char>>)>
    decreases flags.len(),
{
    if flags.len() == 0 {
        avs
    } else {
        spec_apply_cc_flags(spec_apply_cc_flag(avs, flags.first()), flags.drop_first())
    }
}

/// Whether one cache-control flag draws a warning.
pub open spec fn spec_cc_flag_bad(
    avs: Seq<(Seq<char>, Option<Seq<char>>)>,
    f: Seq<char>,
) -> bool {
    match spec_split_colon(f) {
        None => true,
        Some((value, path)) => !crate::configuration::valid_cache_control(value) || !spec_has_path(
            avs,
            path,
        ),
    }
}

pub open spec fn spec_count_bad_cc(
    avs: Seq<(Seq<char>, Option<Seq<char>>)>,
    flags: Seq<Seq<char>>,
) -> int
    decreases flags.len(),
{
    if flags.len() == 0 {
        0
    } else {
        (if spec_cc_flag_bad(avs, flags.first()) {
            1int
        } else {
            0int
        }) + spec_count_bad_cc(spec_apply_cc_flag(avs, flags.first()), flags.drop_first())
    }
}

fn find_asset_by_path(assets: &Vec<Asset>, path: &str) -> (r: Option<usize>)
    ensures
        match r {
            Some(i) => 0 <= i < assets@.len() && asset_views(assets@)[i as int].0 == path@
                && forall|j: int| 0 <= j < i ==> (#[trigger] asset_views(assets@)[j]).0 != path@,
            None => !spec_has_path(asset_views(assets@), path@),
        },
{
    let n = assets.len();
    let mut i: usize = 0;
    while i < n
        invariant
            0 <= i <= n,
            n == assets@.len(),
            forall|j: int| 0 <= j < i ==> (#[trigger] asset_views(assets@)[j]).0 != path@,
        decreases n - i,
    {
        if str_eq(assets[i].path().as_str(), path) {
            proof {
                assert(asset_views(assets@)[i as int].0 == path@);
            }
            return Some(i);
        }
        i += 1;
    }
    None
}

/// Applies the cache-control flags to the asset list, in order: a flag
/// whose value is not a valid cache-control, or that names no asset, is
/// skipped with a warning.
pub fn attach_asset_cache_control(
    config: &mut crate::configuration::ConfigurationFile,
    asset_cache_control: Vec<String>,
) -> (warnings: Vec<CompileWarning>)
    ensures
        asset_views(final(config).assets@) == spec_apply_cc_flags(
            asset_views(old(config).assets@),
            flag_views(asset_cache_control@),
        ),
        final(config).functions@ == old(config).functions@,
        final(config).preprocessors == old(config).preprocessors,
        final(config).postprocessors == old(config).postprocessors,
        final(config).version == old(config).version,
        final(config).meta == old(config).meta,
        warnings@.len() == spec_count_bad_cc(
            asset_views(old(config).assets@),
            flag_views(asset_cache_control@),
        ),
{
    let mut warnings: Vec<CompileWarning> = Vec::new();
    let ghost fv = flag_views(asset_cache_control@);
    let ghost goal = spec_apply_cc_flags(asset_views(old(config).assets@), fv);
    let ghost wgoal = spec_count_bad_cc(asset_views(old(config).assets@), fv);
    proof {
        assert(fv.skip(0) =~= fv);
    }
    let n = asset_cache_control.len();
    let mut i: usize = 0;
    while i < n
        invariant
            0 <= i <= n,
            n == asset_cache_control@.len(),
            fv == flag_views(asset_cache_control@),
            spec_apply_cc_flags(asset_views(config.assets@), fv.skip(i as int)) == goal,
            warnings@.len() + spec_count_bad_cc(asset_views(config.assets@), fv.skip(i as int))
                == wgoal,
            config.functions@ == old(config).functions@,
            config.preprocessors == old(config).preprocessors,
            config.postprocessors == old(config).postprocessors,
            config.version == old(config).version,
            config.meta == old(config).meta,
        decreases n - i,
    {
        proof {
            assert(fv.skip(i as int).first() == fv[i as int]);
            assert(fv.skip(i as int).drop_first() =~= fv.skip(i + 1));
        }
        let flag = &asset_cache_control[i];
        proof {
            assert(flag@ == fv[i as int]);
        }
        match split_args_basic(flag.as_str()) {
            Some((value, path)) => {
                if !crate::configuration::validate_cache_control(value.as_str()) {
                    warnings.push(CompileWarning::BadCacheControl(flag.clone()));
                } else {
                    match find_asset_by_path(&config.assets, path.as_str()) {
                        Some(idx) => {
                            let ghost pathv = path@;
                            let ghost valuev = value@;
                            let ghost before = asset_views(config.assets@);
                            proof {
                                lemma_set_cc_at(before, idx as int, pathv, valuev);
                                assert(spec_has_path(before, pathv));
                            }
                            config.assets.set(
                                idx,
                                Asset::Advanced { path, cache_control: value },
                            );
                            proof {
                                assert(asset_views(config.assets@) =~= before.update(
                                    idx as int,
                                    (pathv, Some(valuev)),
                                ));
                            }
                        },
                        None => {
                            warnings.push(CompileWarning::MissingCacheControlAsset(flag.clone()));
                        },
                    }
                }
            },
            None => {
                warnings.push(CompileWarning::BadCacheControl(flag.clone()));
            },
        }
        i += 1;
    }
    proof {
        assert(fv.skip(n as int) =~= Seq::<Seq<char>>::empty());
    }
    warnings
}

/// Path-keyed insertion: the first asset with the same path is replaced in
/// place, otherwise the asset is appended. Asset identity ignores the
/// cache-control value.
pub open spec fn spec_asset_upsert(
    avs: Seq<(Seq<char>, Option<Seq<char>>)>,
    av: (Seq<char>, Option<Seq<char>>),
) -> Seq<(Seq<char>, Option<Seq<char>>)>
    decreases avs.len(),
{
    if avs.len() == 0 {
        seq![av]
    } else if avs.first().0 == av.0 {
        seq![av] + avs.drop_first()
    } else {
        seq![avs.first()] + spec_asset_upsert(avs.drop_first(), av)
    }
}

proof fn lemma_asset_upsert_at(
    avs: Seq<(Seq<char>, Option<Seq<char>>)>,
    i: int,
    av: (Seq<char>, Option<Seq<char>>),
)
    requires
        0 <= i < avs.len(),
        avs[i].0 == av.0,
        forall|j: int| 0 <= j < i ==> (#[trigger] avs[j]).0 != av.0,
    ensures
        spec_asset_upsert(avs, av) == avs.update(i, av),
    decreases i,
{
    if i == 0 {
        assert(seq![av] + avs.drop_first() =~= avs.update(0, av));
    } else {
        lemma_asset_upsert_at(avs.drop_first(), i - 1, av);
        assert(seq![avs.first()] + avs.drop_first().update(i - 1, av) =~= avs.update(i, av));
    }
}

proof fn lemma_asset_upsert_missing(
    avs: Seq<(Seq<char>, Option<Seq<char>>)>,
    av: (Seq<char>, Option<Seq<char>>),
)
    requires
        forall|j: int| 0 <= j < avs.len() ==> (#[trigger] avs[j]).0 != av.0,
    ensures
        spec_asset_upsert(avs, av) == avs.push(av),
    decreases avs.len(),
{
    if avs.len() == 0 {
        assert(seq![av] =~= avs.push(av));
    } else {
        lemma_asset_upsert_missing(avs.drop_first(), av);
        assert(seq![avs.first()] + avs.drop_first().push(av) =~= avs.push(av));
    }
}

/// Inserts an asset keyed by its path alone: an existing asset with the
/// same path is replaced, whatever either one's cache-control value.
pub fn insert_asset(assets: &mut Vec<Asset>, a: Asset)
    ensures
        asset_views(final(assets)@) == spec_asset_upsert(
            asset_views(old(assets)@),
            (a.spec_path(), a.spec_cache_control()),
        ),
{
    let ghost av = (a.spec_path(), a.spec_cache_control());
    match find_asset_by_path(assets, a.path().as_str()) {
        Some(idx) => {
            let ghost before = asset_views(assets@);
            proof {
                lemma_asset_upsert_at(before, idx as int, av);
            }
            assets.set(idx, a);
            proof {
                assert(asset_views(assets@) =~= before.update(idx as int, av));
            }
        },
        None => {
            let ghost before = asset_views(assets@);
            proof {
                lemma_asset_upsert_missing(before, av);
            }
            assets.push(a);
            proof {
                assert(asset_views(assets@) =~= before.push(av));
            }
        },
    }
}

/// Asset identity is path-keyed: inserting an asset whose path matches an
/// earlier insertion replaces that entry outright, so the earlier
/// cache-control value never survives and only one asset remains for the
/// path. Stated over the insertion model of `insert_asset`.
pub proof fn lemma_asset_identity_path_keyed(
    avs: Seq<(Seq<char>, Option<Seq<char>>)>,
    first: (Seq<char>, Option<Seq<char>>),
    second: (Seq<char>, Option<Seq<char>>),
)
    requires
        first.0 == second.0,
    ensures
        spec_asset_upsert(spec_asset_upsert(avs, first), second) == spec_asset_upsert(avs, second),
    decreases avs.len(),
{
    if avs.len() == 0 {
        assert(spec_asset_upsert(avs, first) =~= seq![first]);
        assert(spec_asset_upsert(seq![first], second) =~= seq![second] + Seq::<
            (Seq<char>, Option<Seq<char>>),
        >::empty());
        assert(seq![second] + Seq::<(Seq<char>, Option<Seq<char>>)>::empty() =~= seq![second]);
        assert(spec_asset_upsert(avs, second) =~= seq![second]);
    } else if avs.first().0 == first.0 {
        let once = seq![first] + avs.drop_first();
        assert(spec_asset_upsert(avs, first) == once);
        assert(once.first() == first);
        assert(once.drop_first() =~= avs.drop_first());
        assert(spec_asset_upsert(once, second) =~= seq![second] + avs.drop_first());
        assert(spec_asset_upsert(avs, second) =~= seq![second] + avs.drop_first());
    } else {
        lemma_asset_identity_path_keyed(avs.drop_first(), first, second);
        let once = seq![avs.first()] + spec_asset_upsert(avs.drop_first(), first);
        assert(spec_asset_upsert(avs, first) == once);
        assert(once.first() == avs.first());
        assert(once.drop_first() =~= spec_asset_upsert(avs.drop_first(), first));
        assert(spec_asset_upsert(once, second) =~= seq![avs.first()] + spec_asset_upsert(
            spec_asset_upsert(avs.drop_first(), first),
            second,
        ));
        assert(spec_asset_upsert(avs, second) =~= seq![avs.first()] + spec_asset_upsert(
            avs.drop_first(),
            second,
        ));
    }
}

/// Inserts one plain asset per discovered path, in order, path-keyed.
pub open spec fn spec_attach_assets(
    avs: Seq<(Seq<char>, Option<Seq<char>>)>,
    paths: Seq<Seq<char>>,
) -> Seq<(Seq<char>, Option<Seq<char>>)>
    decreases paths.len(),
{
    if paths.len() == 0 {
        avs
    } else {
        spec_attach_assets(spec_asset_upsert(avs, (paths.first(), None)), paths.drop_first())
    }
}

/// Adds every discovered asset path to the manifest as a plain asset,
/// deduplicated by path.
pub fn attach_assets(config: &mut crate::configuration::ConfigurationFile, paths: Vec<String>)
    ensures
        asset_views(final(config).assets@) == spec_attach_assets(
            asset_views(old(config).assets@),
            flag_views(paths@),
        ),
        final(config).functions@ == old(config).functions@,
        final(config).preprocessors == old(config).preprocessors,
        final(config).postprocessors == old(config).postprocessors,
        final(config).version == old(config).version,
        final(config).meta == old(config).meta,
{
    let ghost fv = flag_views(paths@);
    let ghost goal = spec_attach_assets(asset_views(old(config).assets@), fv);
    proof {
        assert(fv.skip(0) =~= fv);
    }
    let n = paths.len();
    let mut i: usize = 0;
    while i < n
        invariant
            0 <= i <= n,
            n == paths@.len(),
            fv == flag_views(paths@),
            spec_attach_assets(asset_views(config.assets@), fv.skip(i as int)) == goal,
            config.functions@ == old(config).functions@,
            config.preprocessors == old(config).preprocessors,
            config.postprocessors == old(config).postprocessors,
            config.version == old(config).version,
            config.meta == old(config).meta,
        decreases n - i,
    {
        proof {
            assert(fv.skip(i as int).first() == fv[i as int]);
            assert(fv.skip(i as int).drop_first() =~= fv.skip(i + 1));
        }
        insert_asset(&mut config.assets, Asset::Simple(paths[i].clone()));
        i += 1;
    }
    proof {
        assert(fv.skip(n as int) =~= Seq::<Seq<char>>::empty());
    }
}

// ---------------------------------------------------------------------------
// The rule engine
// ---------------------------------------------------------------------------
/// Runs the middleware steps of the configuration compiler in their fixed
/// order: implicit index routing over the current assets, then explicit
/// puppet flags, then redirect flags, then interceptor flags (validated
/// against the assets), then guard flags (which replace the guard list).
pub fn attach_middleware(
    config: &mut crate::configuration::ConfigurationFile,
    interceptors: Vec<String>,
    puppet: Vec<String>,
    redirect: Vec<String>,
    prefer_file_router: bool,
    prefer_puppets: bool,
    enable_static_router: bool,
    disable_static_router: bool,
    guards: Vec<String>,
) -> (warnings: Vec<CompileWarning>)
    ensures
        ({
            let router_on = !disable_static_router || enable_static_router;
            let pairs = if router_on {
                spec_index_pairs(spec_asset_paths(old(config).assets@), prefer_file_router)
            } else {
                Seq::empty()
            };
            let puppet_pairs = if prefer_puppets {
                pairs
            } else {
                Seq::empty()
            };
            let redirect_pairs = if prefer_puppets {
                Seq::empty()
            } else {
                pairs
            };
            let parsed = spec_apply_interceptor_flags(
                Seq::empty(),
                flag_views(interceptors@),
                spec_asset_paths(old(config).assets@),
            );
            &&& puppet_views(final(config).preprocessors.puppets@) == spec_apply_puppet_flags(
                spec_upsert_pairs(
                    puppet_views(old(config).preprocessors.puppets@),
                    puppet_pairs,
                ),
                flag_views(puppet@),
            )
            &&& redirect_views(final(config).preprocessors.redirects@)
                == spec_apply_redirect_flags(
                spec_add_index_redirects(
                    redirect_views(old(config).preprocessors.redirects@),
                    redirect_pairs,
                ),
                flag_views(redirect@),
            )
            &&& interceptor_views(final(config).postprocessors.interceptors@) == if parsed.len()
                > 0 {
                parsed
            } else {
                interceptor_views(old(config).postprocessors.interceptors@)
            }
            &&& guard_views(final(config).preprocessors.guards@) == spec_guards_of_flags(
                flag_views(guards@),
            )
            &&& forall|j: int|
                0 <= j < final(config).preprocessors.guards@.len() ==> (
                #[trigger] final(config).preprocessors.guards@[j]).scheme
                    == crate::configuration::AuthScheme::Basic
            &&& final(config).assets@ == old(config).assets@
            &&& final(config).functions@ == old(config).functions@
            &&& final(config).version == old(config).version
            &&& final(config).meta == old(config).meta
            &&& warnings@.len() == spec_count_bad_puppets(flag_views(puppet@))
                + spec_count_bad_redirects(flag_views(redirect@)) + spec_count_bad_interceptors(
                flag_views(interceptors@),
                spec_asset_paths(old(config).assets@),
            ) + spec_count_bad_guards(flag_views(guards@))
        }),
{
    let mut warnings: Vec<CompileWarning> = Vec::new();
    let router_on = !disable_static_router || enable_static_router;
    if router_on {
        let pairs = derive_index_pairs(&config.assets, prefer_file_router);
        if prefer_puppets {
            upsert_pairs(&mut config.preprocessors.puppets, &pairs);
        } else {
            add_index_redirects(&mut config.preprocessors.redirects, pairs);
        }
    }
    apply_puppet_flags(&mut config.preprocessors.puppets, &puppet, &mut warnings);
    apply_redirect_flags(&mut config.preprocessors.redirects, &redirect, &mut warnings);
    let parsed = apply_interceptor_flags(&interceptors, &config.assets, &mut warnings);
    if parsed.len() > 0 {
        config.postprocessors.interceptors = parsed;
    }
    config.preprocessors.guards = build_guards(&guards, &mut warnings);
    warnings
}

/// The paths of an asset view sequence.
pub open spec fn spec_paths_of(avs: Seq<(Seq<char>, Option<Seq<char>>)>) -> Seq<Seq<char>> {
    avs.map_values(|av: (Seq<char>, Option<Seq<char>>)| av.0)
}

/// One compile pass over discovered assets and middleware flags, in the
/// fixed order later steps rely on: the assets are inserted path-keyed,
/// then the cache-control flags apply, then the middleware steps run. The
/// static router is off when it is disabled (under either spelling) or a
/// function was found, unless it is explicitly enabled.
pub fn compile_configuration(
    assets: Vec<String>,
    interceptors: Vec<String>,
    puppet: Vec<String>,
    redirect: Vec<String>,
    disable_assets_default_index_html_redirect: bool,
    prefer_file_router: bool,
    prefer_puppets: bool,
    enable_static_router: bool,
    disable_static_router: bool,
    has_function: bool,
    guards: Vec<String>,
    asset_cache_control: Vec<String>,
) -> (r: (crate::configuration::ConfigurationFile, Vec<CompileWarning>))
    ensures
        ({
            let avs = spec_apply_cc_flags(
                spec_attach_assets(Seq::empty(), flag_views(assets@)),
                flag_views(asset_cache_control@),
            );
            let paths = spec_paths_of(avs);
            let router_off = disable_static_router || disable_assets_default_index_html_redirect
                || has_function;
            let router_on = !router_off || enable_static_router;
            let pairs = if router_on {
                spec_index_pairs(paths, prefer_file_router)
            } else {
                Seq::empty()
            };
            let puppet_pairs = if prefer_puppets {
                pairs
            } else {
                Seq::empty()
            };
            let redirect_pairs = if prefer_puppets {
                Seq::empty()
            } else {
                pairs
            };
            let parsed = spec_apply_interceptor_flags(
                Seq::empty(),
                flag_views(interceptors@),
                paths,
            );
            &&& r.0.version == 1
            &&& r.0.meta is None
            &&& r.0.functions@ =~= Seq::<crate::configuration::DynamicRoute>::empty()
            &&& asset_views(r.0.assets@) == avs
            &&& puppet_views(r.0.preprocessors.puppets@) == spec_apply_puppet_flags(
                spec_upsert_pairs(Seq::empty(), puppet_pairs),
                flag_views(puppet@),
            )
            &&& redirect_views(r.0.preprocessors.redirects@) == spec_apply_redirect_flags(
                spec_add_index_redirects(Seq::empty(), redirect_pairs),
                flag_views(redirect@),
            )
            &&& interceptor_views(r.0.postprocessors.interceptors@) == if parsed.len() > 0 {
                parsed
            } else {
                Seq::<(crate::configuration::Method, int, Seq<char>)>::empty()
            }
            &&& guard_views(r.0.preprocessors.guards@) == spec_guards_of_flags(flag_views(guards@))
            &&& r.1@.len() == spec_count_bad_cc(
                spec_attach_assets(Seq::empty(), flag_views(assets@)),
                flag_views(asset_cache_control@),
            ) + spec_count_bad_puppets(flag_views(puppet@)) + spec_count_bad_redirects(
                flag_views(redirect@),
            ) + spec_count_bad_interceptors(flag_views(interceptors@), paths)
                + spec_count_bad_guards(flag_views(guards@))
        }),
{
    let mut config = crate::configuration::ConfigurationFile::empty();
    config.version = 1;
    proof {
        assert(asset_views(config.assets@) =~= Seq::<(Seq<char>, Option<Seq<char>>)>::empty());
        assert(puppet_views(config.preprocessors.puppets@) =~= Seq::<
            (Seq<char>, Seq<char>),
        >::empty());
        assert(redirect_views(config.preprocessors.redirects@) =~= Seq::<
            (int, Seq<char>, Seq<char>),
        >::empty());
        assert(interceptor_views(config.postprocessors.interceptors@) =~= Seq::<
            (crate::configuration::Method, int, Seq<char>),
        >::empty());
    }
    attach_assets(&mut config, assets);
    let mut warnings = attach_asset_cache_control(&mut config, asset_cache_control);
    proof {
        assert(spec_asset_paths(config.assets@) =~= spec_paths_of(asset_views(config.assets@)));
    }
    let more = attach_middleware(
        &mut config,
        interceptors,
        puppet,
        redirect,
        prefer_file_router,
        prefer_puppets,
        enable_static_router,
        disable_static_router || disable_assets_default_index_html_redirect || has_function,
        guards,
    );
    let ghost first = warnings@;
    let mut more = more;
    warnings.append(&mut more);
    (config, warnings)
}

/// Records the bundled default function: the manifest gains the one
/// dynamic route that serves every request from the bundled entry file.
pub fn attach_function_route(config: &mut crate::configuration::ConfigurationFile)
    ensures
        crate::codec::route_views(final(config).functions@) == crate::codec::route_views(
            old(config).functions@,
        ).push(("/index.mjs"@, "*"@)),
        final(config).assets@ == old(config).assets@,
        final(config).preprocessors == old(config).preprocessors,
        final(config).postprocessors == old(config).postprocessors,
        final(config).version == old(config).version,
        final(config).meta == old(config).meta,
{
    let route = crate::configuration::DynamicRoute {
        path: String::from_str("/index.mjs"),
        pattern: String::from_str("*"),
    };
    let ghost rv = (route.path@, route.pattern@);
    config.functions.push(route);
    proof {
        assert(crate::codec::route_views(config.functions@) =~= crate::codec::route_views(
            old(config).functions@,
        ).push(rv));
    }
}

/// Marks the manifest with the recognized framework when the project's
/// dependency list names it; the caller says whether it does.
pub fn apply_technology_detection(
    config: &mut crate::configuration::ConfigurationFile,
    has_hono_dependency: bool,
)
    ensures
        final(config).meta == if has_hono_dependency {
            Some(
                crate::configuration::Meta {
                    technology: Some(crate::configuration::Technology::Hono),
                },
            )
        } else {
            old(config).meta
        },
        final(config).functions@ == old(config).functions@,
        final(config).assets@ == old(config).assets@,
        final(config).preprocessors == old(config).preprocessors,
        final(config).postprocessors == old(config).postprocessors,
        final(config).version == old(config).version,
{
    if has_hono_dependency {
        config.meta = Some(
            crate::configuration::Meta {
                technology: Some(crate::configuration::Technology::Hono),
            },
        );
    }
}

} // verus!

