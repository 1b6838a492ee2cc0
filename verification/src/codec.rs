//! The manifest file format: the canonical compact JSON this library writes
//! for `config.json`, and the parser that reads it back, current schema and
//! the legacy one before it.

use vstd::prelude::*;

use crate::configuration::{
    Asset, AuthCredentials, AuthScheme, ConfigurationFile, DynamicRoute, Guard, Interceptor,
    Legacy1ConfigurationFile, Meta, Method, Postprocessors, Preprocessors, Redirect, Technology,
};
use crate::json::{
    expect, parse_number, parse_string, spec_expect, spec_parse_number, spec_parse_string,
    spec_string_token, spec_u64_digits, u64_to_string, write_string_token,
};
use crate::strutil::str_eq;

verus! {

// ---------------------------------------------------------------------------
// Views
// ---------------------------------------------------------------------------
pub open spec fn route_view(r: DynamicRoute) -> (Seq<char>, Seq<char>) {
    (r.path@, r.pattern@)
}

pub open spec fn asset_view(a: Asset) -> (Seq<char>, Option<Seq<char>>) {
    (a.spec_path(), a.spec_cache_control())
}

pub open spec fn redirect_view(r: Redirect) -> (int, Seq<char>, Seq<char>) {
    (r.status as int, r.path@, r.location@)
}

pub open spec fn interceptor_view(ic: Interceptor) -> (Method, int, Seq<char>) {
    (ic.method, ic.status as int, ic.path@)
}

pub open spec fn guard_view(g: Guard) -> (Seq<char>, Option<Seq<char>>, Seq<Seq<char>>) {
    (
        g.credentials.username@,
        match g.credentials.password {
            Some(p) => Some(p@),
            None => None,
        },
        g.patterns@.map_values(|s: String| s@),
    )
}

// ---------------------------------------------------------------------------
// Names: technologies and methods as JSON strings
// ---------------------------------------------------------------------------
/// The wire name of a recognized framework.
pub open spec fn spec_technology_name(t: Technology) -> Seq<char> {
    match t {
        Technology::Astro => "Astro"@,
        Technology::SvelteKit => "SvelteKit"@,
        Technology::SolidStart => "SolidStart"@,
        Technology::Nuxt => "Nuxt"@,
        Technology::Nitro => "Nitro"@,
        Technology::NextJs => "Next.js"@,
        Technology::Hono => "hono"@,
        Technology::Remix => "Remix"@,
    }
}

fn technology_name(t: &Technology) -> (r: &'static str)
    ensures
        r@ == spec_technology_name(*t),
{
    match t {
        Technology::Astro => "Astro",
        Technology::SvelteKit => "SvelteKit",
        Technology::SolidStart => "SolidStart",
        Technology::Nuxt => "Nuxt",
        Technology::Nitro => "Nitro",
        Technology::NextJs => "Next.js",
        Technology::Hono => "hono",
        Technology::Remix => "Remix",
    }
}

/// The framework a wire name spells, if any.
pub open spec fn spec_technology_of(s: Seq<char>) -> Option<Technology> {
    if s == "Astro"@ {
        Some(Technology::Astro)
    } else if s == "SvelteKit"@ {
        Some(Technology::SvelteKit)
    } else if s == "SolidStart"@ {
        Some(Technology::SolidStart)
    } else if s == "Nuxt"@ {
        Some(Technology::Nuxt)
    } else if s == "Nitro"@ {
        Some(Technology::Nitro)
    } else if s == "Next.js"@ {
        Some(Technology::NextJs)
    } else if s == "hono"@ {
        Some(Technology::Hono)
    } else if s == "Remix"@ {
        Some(Technology::Remix)
    } else {
        None
    }
}

fn technology_of(s: &str) -> (r: Option<Technology>)
    ensures
        match r {
            Some(t) => spec_technology_of(s@) == Some(t),
            None => spec_technology_of(s@) is None,
        },
{
    if str_eq(s, "Astro") {
        Some(Technology::Astro)
    } else if str_eq(s, "SvelteKit") {
        Some(Technology::SvelteKit)
    } else if str_eq(s, "SolidStart") {
        Some(Technology::SolidStart)
    } else if str_eq(s, "Nuxt") {
        Some(Technology::Nuxt)
    } else if str_eq(s, "Nitro") {
        Some(Technology::Nitro)
    } else if str_eq(s, "Next.js") {
        Some(Technology::NextJs)
    } else if str_eq(s, "hono") {
        Some(Technology::Hono)
    } else if str_eq(s, "Remix") {
        Some(Technology::Remix)
    } else {
        None
    }
}

/// Round trip of a technology name through its string and back.
proof fn lemma_technology_name_of(t: Technology)
    ensures
        spec_technology_of(spec_technology_name(t)) == Some(t),
{
    reveal_strlit("Astro");
    reveal_strlit("SvelteKit");
    reveal_strlit("SolidStart");
    reveal_strlit("Nuxt");
    reveal_strlit("Nitro");
    reveal_strlit("Next.js");
    reveal_strlit("hono");
    reveal_strlit("Remix");
    match t {
        Technology::Astro => {
            assert(spec_technology_of("Astro"@) == Some(Technology::Astro));
        },
        Technology::SvelteKit => {
            assert("SvelteKit"@ != "Astro"@) by {
                assert("SvelteKit"@.len() == 9 && "Astro"@.len() == 5);
            }
            assert(spec_technology_of("SvelteKit"@) == Some(Technology::SvelteKit));
        },
        Technology::SolidStart => {
            assert("SolidStart"@ != "Astro"@) by {
                assert("SolidStart"@.len() == 10 && "Astro"@.len() == 5);
            }
            assert("SolidStart"@ != "SvelteKit"@) by {
                assert("SolidStart"@.len() == 10 && "SvelteKit"@.len() == 9);
            }
            assert(spec_technology_of("SolidStart"@) == Some(Technology::SolidStart));
        },
        Technology::Nuxt => {
            assert("Nuxt"@ != "Astro"@) by {
                assert("Nuxt"@.len() == 4 && "Astro"@.len() == 5);
            }
            assert("Nuxt"@ != "SvelteKit"@) by {
                assert("Nuxt"@.len() == 4 && "SvelteKit"@.len() == 9);
            }
            assert("Nuxt"@ != "SolidStart"@) by {
                assert("Nuxt"@.len() == 4 && "SolidStart"@.len() == 10);
            }
            assert(spec_technology_of("Nuxt"@) == Some(Technology::Nuxt));
        },
        Technology::Nitro => {
            assert("Nitro"@ != "Astro"@) by {
                assert("Nitro"@[0] == 'N' && "Astro"@[0] == 'A');
            }
            assert("Nitro"@ != "SvelteKit"@) by {
                assert("Nitro"@.len() == 5 && "SvelteKit"@.len() == 9);
            }
            assert("Nitro"@ != "SolidStart"@) by {
                assert("Nitro"@.len() == 5 && "SolidStart"@.len() == 10);
            }
            assert("Nitro"@ != "Nuxt"@) by {
                assert("Nitro"@.len() == 5 && "Nuxt"@.len() == 4);
            }
            assert(spec_technology_of("Nitro"@) == Some(Technology::Nitro));
        },
        Technology::NextJs => {
            assert("Next.js"@ != "Astro"@) by {
                assert("Next.js"@.len() == 7 && "Astro"@.len() == 5);
            }
            assert("Next.js"@ != "SvelteKit"@) by {
                assert("Next.js"@.len() == 7 && "SvelteKit"@.len() == 9);
            }
            assert("Next.js"@ != "SolidStart"@) by {
                assert("Next.js"@.len() == 7 && "SolidStart"@.len() == 10);
            }
            assert("Next.js"@ != "Nuxt"@) by {
                assert("Next.js"@.len() == 7 && "Nuxt"@.len() == 4);
            }
            assert("Next.js"@ != "Nitro"@) by {
                assert("Next.js"@.len() == 7 && "Nitro"@.len() == 5);
            }
            assert(spec_technology_of("Next.js"@) == Some(Technology::NextJs));
        },
        Technology::Hono => {
            assert("hono"@ != "Astro"@) by {
                assert("hono"@.len() == 4 && "Astro"@.len() == 5);
            }
            assert("hono"@ != "SvelteKit"@) by {
                assert("hono"@.len() == 4 && "SvelteKit"@.len() == 9);
            }
            assert("hono"@ != "SolidStart"@) by {
                assert("hono"@.len() == 4 && "SolidStart"@.len() == 10);
            }
            assert("hono"@ != "Nuxt"@) by {
                assert("hono"@[0] == 'h' && "Nuxt"@[0] == 'N');
            }
            assert("hono"@ != "Nitro"@) by {
                assert("hono"@.len() == 4 && "Nitro"@.len() == 5);
            }
            assert("hono"@ != "Next.js"@) by {
                assert("hono"@.len() == 4 && "Next.js"@.len() == 7);
            }
            assert(spec_technology_of("hono"@) == Some(Technology::Hono));
        },
        Technology::Remix => {
            assert("Remix"@ != "Astro"@) by {
                assert("Remix"@[0] == 'R' && "Astro"@[0] == 'A');
            }
            assert("Remix"@ != "SvelteKit"@) by {
                assert("Remix"@.len() == 5 && "SvelteKit"@.len() == 9);
            }
            assert("Remix"@ != "SolidStart"@) by {
                assert("Remix"@.len() == 5 && "SolidStart"@.len() == 10);
            }
            assert("Remix"@ != "Nuxt"@) by {
                assert("Remix"@.len() == 5 && "Nuxt"@.len() == 4);
            }
            assert("Remix"@ != "Nitro"@) by {
                assert("Remix"@[0] == 'R' && "Nitro"@[0] == 'N');
            }
            assert("Remix"@ != "Next.js"@) by {
                assert("Remix"@.len() == 5 && "Next.js"@.len() == 7);
            }
            assert("Remix"@ != "hono"@) by {
                assert("Remix"@.len() == 5 && "hono"@.len() == 4);
            }
            assert(spec_technology_of("Remix"@) == Some(Technology::Remix));
        },
    }
}

/// Round trip of a method name through its string and back.
proof fn lemma_method_name_of(m: Method)
    ensures
        Method::spec_of(m.spec_text()) == Some(m),
{
    reveal_strlit("GET");
    reveal_strlit("POST");
    reveal_strlit("PUT");
    reveal_strlit("DELETE");
    reveal_strlit("HEAD");
    reveal_strlit("OPTIONS");
    reveal_strlit("CONNECT");
    reveal_strlit("PATCH");
    reveal_strlit("TRACE");
    match m {
        Method::GET => {
            assert(Method::spec_of("GET"@) == Some(Method::GET));
        },
        Method::POST => {
            assert("POST"@ != "GET"@) by {
                assert("POST"@.len() == 4 && "GET"@.len() == 3);
            }
            assert(Method::spec_of("POST"@) == Some(Method::POST));
        },
        Method::PUT => {
            assert("PUT"@ != "GET"@) by {
                assert("PUT"@[0] == 'P' && "GET"@[0] == 'G');
            }
            assert("PUT"@ != "POST"@) by {
                assert("PUT"@.len() == 3 && "POST"@.len() == 4);
            }
            assert(Method::spec_of("PUT"@) == Some(Method::PUT));
        },
        Method::DELETE => {
            assert("DELETE"@ != "GET"@) by {
                assert("DELETE"@.len() == 6 && "GET"@.len() == 3);
            }
            assert("DELETE"@ != "POST"@) by {
                assert("DELETE"@.len() == 6 && "POST"@.len() == 4);
            }
            assert("DELETE"@ != "PUT"@) by {
                assert("DELETE"@.len() == 6 && "PUT"@.len() == 3);
            }
            assert(Method::spec_of("DELETE"@) == Some(Method::DELETE));
        },
        Method::HEAD => {
            assert("HEAD"@ != "GET"@) by {
                assert("HEAD"@.len() == 4 && "GET"@.len() == 3);
            }
            assert("HEAD"@ != "POST"@) by {
                assert("HEAD"@[0] == 'H' && "POST"@[0] == 'P');
            }
            assert("HEAD"@ != "PUT"@) by {
                assert("HEAD"@.len() == 4 && "PUT"@.len() == 3);
            }
            assert("HEAD"@ != "DELETE"@) by {
                assert("HEAD"@.len() == 4 && "DELETE"@.len() == 6);
            }
            assert(Method::spec_of("HEAD"@) == Some(Method::HEAD));
        },
        Method::OPTIONS => {
            assert("OPTIONS"@ != "GET"@) by {
                assert("OPTIONS"@.len() == 7 && "GET"@.len() == 3);
            }
            assert("OPTIONS"@ != "POST"@) by {
                assert("OPTIONS"@.len() == 7 && "POST"@.len() == 4);
            }
            assert("OPTIONS"@ != "PUT"@) by {
                assert("OPTIONS"@.len() == 7 && "PUT"@.len() == 3);
            }
            assert("OPTIONS"@ != "DELETE"@) by {
                assert("OPTIONS"@.len() == 7 && "DELETE"@.len() == 6);
            }
            assert("OPTIONS"@ != "HEAD"@) by {
                assert("OPTIONS"@.len() == 7 && "HEAD"@.len() == 4);
            }
            assert(Method::spec_of("OPTIONS"@) == Some(Method::OPTIONS));
        },
        Method::CONNECT => {
            assert("CONNECT"@ != "GET"@) by {
                assert("CONNECT"@.len() == 7 && "GET"@.len() == 3);
            }
            assert("CONNECT"@ != "POST"@) by {
                assert("CONNECT"@.len() == 7 && "POST"@.len() == 4);
            }
            assert("CONNECT"@ != "PUT"@) by {
                assert("CONNECT"@.len() == 7 && "PUT"@.len() == 3);
            }
            assert("CONNECT"@ != "DELETE"@) by {
                assert("CONNECT"@.len() == 7 && "DELETE"@.len() == 6);
            }
            assert("CONNECT"@ != "HEAD"@) by {
                assert("CONNECT"@.len() == 7 && "HEAD"@.len() == 4);
            }
            assert("CONNECT"@ != "OPTIONS"@) by {
                assert("CONNECT"@[0] == 'C' && "OPTIONS"@[0] == 'O');
            }
            assert(Method::spec_of("CONNECT"@) == Some(Method::CONNECT));
        },
        Method::PATCH => {
            assert("PATCH"@ != "GET"@) by {
                assert("PATCH"@.len() == 5 && "GET"@.len() == 3);
            }
            assert("PATCH"@ != "POST"@) by {
                assert("PATCH"@.len() == 5 && "POST"@.len() == 4);
            }
            assert("PATCH"@ != "PUT"@) by {
                assert("PATCH"@.len() == 5 && "PUT"@.len() == 3);
            }
            assert("PATCH"@ != "DELETE"@) by {
                assert("PATCH"@.len() == 5 && "DELETE"@.len() == 6);
            }
            assert("PATCH"@ != "HEAD"@) by {
                assert("PATCH"@.len() == 5 && "HEAD"@.len() == 4);
            }
            assert("PATCH"@ != "OPTIONS"@) by {
                assert("PATCH"@.len() == 5 && "OPTIONS"@.len() == 7);
            }
            assert("PATCH"@ != "CONNECT"@) by {
                assert("PATCH"@.len() == 5 && "CONNECT"@.len() == 7);
            }
            assert(Method::spec_of("PATCH"@) == Some(Method::PATCH));
        },
        Method::TRACE => {
            assert("TRACE"@ != "GET"@) by {
                assert("TRACE"@.len() == 5 && "GET"@.len() == 3);
            }
            assert("TRACE"@ != "POST"@) by {
                assert("TRACE"@.len() == 5 && "POST"@.len() == 4);
            }
            assert("TRACE"@ != "PUT"@) by {
                assert("TRACE"@.len() == 5 && "PUT"@.len() == 3);
            }
            assert("TRACE"@ != "DELETE"@) by {
                assert("TRACE"@.len() == 5 && "DELETE"@.len() == 6);
            }
            assert("TRACE"@ != "HEAD"@) by {
                assert("TRACE"@.len() == 5 && "HEAD"@.len() == 4);
            }
            assert("TRACE"@ != "OPTIONS"@) by {
                assert("TRACE"@.len() == 5 && "OPTIONS"@.len() == 7);
            }
            assert("TRACE"@ != "CONNECT"@) by {
                assert("TRACE"@.len() == 5 && "CONNECT"@.len() == 7);
            }
            assert("TRACE"@ != "PATCH"@) by {
                assert("TRACE"@[0] == 'T' && "PATCH"@[0] == 'P');
            }
            assert(Method::spec_of("TRACE"@) == Some(Method::TRACE));
        },
    }
}

// ---------------------------------------------------------------------------
// Redirect entries
// ---------------------------------------------------------------------------
/// The written form of one redirect entry.
pub open spec fn spec_write_redirect(v: (int, Seq<char>, Seq<char>)) -> Seq<char> {
    "{\"status\":"@ + spec_u64_digits(v.0 as nat) + ",\"path\":"@ + spec_string_token(v.1)
        + ",\"location\":"@ + spec_string_token(v.2) + "}"@
}

fn write_redirect_into(out: &mut String, r: &Redirect)
    ensures
        final(out)@ == old(out)@ + spec_write_redirect(redirect_view(*r)),
{
    out.append("{\"status\":");
    let digits = u64_to_string(r.status as u64);
    out.append(digits.as_str());
    out.append(",\"path\":");
    write_string_token(out, r.path.as_str());
    out.append(",\"location\":");
    write_string_token(out, r.location.as_str());
    out.append("}");
    proof {
        assert(final(out)@ =~= old(out)@ + spec_write_redirect(redirect_view(*r)));
    }
}

/// One redirect entry and the suffix after it.
pub open spec fn spec_parse_redirect(s: Seq<char>) -> Option<((int, Seq<char>, Seq<char>), Seq<char>)> {
    match spec_expect("{\"status\":"@, s) {
        None => None,
        Some(s1) => match spec_parse_number(s1) {
            None => None,
            Some((n, s2)) => if n > 65535 {
                None
            } else {
                match spec_expect(",\"path\":"@, s2) {
                    None => None,
                    Some(s3) => match spec_parse_string(s3) {
                        None => None,
                        Some((p, s4)) => match spec_expect(",\"location\":"@, s4) {
                            None => None,
                            Some(s5) => match spec_parse_string(s5) {
                                None => None,
                                Some((l, s6)) => match spec_expect("}"@, s6) {
                                    None => None,
                                    Some(s7) => Some(((n as int, p, l), s7)),
                                },
                            },
                        },
                    },
                }
            },
        },
    }
}

fn parse_redirect(s: &str, pos: usize) -> (r: Option<(Redirect, usize)>)
    requires
        pos <= s@.len(),
    ensures
        match r {
            Some((v, next)) => pos <= next <= s@.len() && spec_parse_redirect(s@.skip(pos as int))
                == Some((redirect_view(v), s@.skip(next as int))),
            None => spec_parse_redirect(s@.skip(pos as int)) is None,
        },
{
    let p1 = match expect(s, pos, "{\"status\":") {
        Some(p) => p,
        None => { return None; },
    };
    let (n, p2) = match parse_number(s, p1) {
        Some(v) => v,
        None => { return None; },
    };
    if n > 65535 {
        return None;
    }
    let p3 = match expect(s, p2, ",\"path\":") {
        Some(p) => p,
        None => { return None; },
    };
    let (path, p4) = match parse_string(s, p3) {
        Some(v) => v,
        None => { return None; },
    };
    let p5 = match expect(s, p4, ",\"location\":") {
        Some(p) => p,
        None => { return None; },
    };
    let (location, p6) = match parse_string(s, p5) {
        Some(v) => v,
        None => { return None; },
    };
    let p7 = match expect(s, p6, "}") {
        Some(p) => p,
        None => { return None; },
    };
    Some((Redirect { status: n as u16, path, location }, p7))
}

/// A written redirect entry followed by anything parses back to itself.
proof fn lemma_redirect_roundtrip(v: (int, Seq<char>, Seq<char>), t: Seq<char>)
    requires
        0 <= v.0 <= 65535,
    ensures
        spec_parse_redirect(spec_write_redirect(v) + t) == Some((v, t)),
{
    reveal_strlit(",\"path\":");
    reveal_strlit(",\"location\":");
    reveal_strlit("}");
    let k1 = "{\"status\":"@;
    let k2 = ",\"path\":"@;
    let k3 = ",\"location\":"@;
    let k4 = "}"@;
    let d = spec_u64_digits(v.0 as nat);
    let st1 = spec_string_token(v.1);
    let st2 = spec_string_token(v.2);
    let input = spec_write_redirect(v) + t;
    let r1 = d + (k2 + (st1 + (k3 + (st2 + (k4 + t)))));
    assert(input =~= k1 + r1);
    crate::json::lemma_expect_roundtrip(k1, r1);
    let r2 = k2 + (st1 + (k3 + (st2 + (k4 + t))));
    assert(r1 =~= d + r2);
    assert(r2[0] == ',');
    crate::json::lemma_parse_number_roundtrip(v.0 as nat, r2);
    let r3 = st1 + (k3 + (st2 + (k4 + t)));
    assert(r2 =~= k2 + r3);
    crate::json::lemma_expect_roundtrip(k2, r3);
    let r4 = k3 + (st2 + (k4 + t));
    assert(r3 =~= st1 + r4);
    crate::json::lemma_parse_string_roundtrip(v.1, r4);
    let r5 = st2 + (k4 + t);
    assert(r4 =~= k3 + r5);
    crate::json::lemma_expect_roundtrip(k3, r5);
    let r6 = k4 + t;
    assert(r5 =~= st2 + r6);
    crate::json::lemma_parse_string_roundtrip(v.2, r6);
    crate::json::lemma_expect_roundtrip(k4, t);
}

// ---------------------------------------------------------------------------
// Redirect lists
// ---------------------------------------------------------------------------
/// The written list body: entries joined with commas.
pub open spec fn spec_write_redirect_items(vs: Seq<(int, Seq<char>, Seq<char>)>) -> Seq<char>
    decreases vs.len(),
{
    if vs.len() == 0 {
        Seq::empty()
    } else if vs.len() == 1 {
        spec_write_redirect(vs[0])
    } else {
        spec_write_redirect(vs[0]) + ","@ + spec_write_redirect_items(vs.drop_first())
    }
}

/// The written list: the body between brackets.
pub open spec fn spec_write_redirect_array(vs: Seq<(int, Seq<char>, Seq<char>)>) -> Seq<char> {
    "["@ + spec_write_redirect_items(vs) + "]"@
}

fn write_redirect_array_into(out: &mut String, rs: &Vec<Redirect>)
    ensures
        final(out)@ == old(out)@ + spec_write_redirect_array(
            crate::middleware::redirect_views(rs@),
        ),
{
    let ghost vs = crate::middleware::redirect_views(rs@);
    out.append("[");
    let ghost start = out@;
    let n = rs.len();
    let mut i: usize = 0;
    proof {
        assert(vs.skip(0) =~= vs);
    }
    while i < n
        invariant
            0 <= i <= n,
            n == rs@.len(),
            vs == crate::middleware::redirect_views(rs@),
            start + spec_write_redirect_items(vs) =~= out@ + spec_write_redirect_items(
                vs.skip(i as int),
            ),
        decreases n - i,
    {
        let ghost rem = vs.skip(i as int);
        proof {
            assert(rem[0] == vs[i as int]);
            assert(rem.drop_first() =~= vs.skip(i + 1));
        }
        write_redirect_into(out, &rs[i]);
        if i + 1 < n {
            out.append(",");
            proof {
                assert(rem.len() > 1);
                assert(spec_write_redirect_items(rem) =~= spec_write_redirect(rem[0]) + ","@
                    + spec_write_redirect_items(rem.drop_first()));
                assert(start + spec_write_redirect_items(vs) =~= out@ + spec_write_redirect_items(
                    vs.skip(i + 1),
                ));
            }
        } else {
            proof {
                assert(rem.len() == 1);
                assert(vs.skip(i + 1) =~= Seq::<(int, Seq<char>, Seq<char>)>::empty());
                assert(start + spec_write_redirect_items(vs) =~= out@ + spec_write_redirect_items(
                    vs.skip(i + 1),
                ));
            }
        }
        i += 1;
    }
    proof {
        assert(vs.skip(n as int) =~= Seq::<(int, Seq<char>, Seq<char>)>::empty());
    }
    out.append("]");
    proof {
        assert(final(out)@ =~= old(out)@ + spec_write_redirect_array(vs));
    }
}

/// One or more written entries followed by the closing bracket.
pub open spec fn spec_parse_redirect_items(s: Seq<char>) -> Option<
    (Seq<(int, Seq<char>, Seq<char>)>, Seq<char>),
>
    decreases s.len(),
{
    match spec_parse_redirect(s) {
        None => None,
        Some((v, r1)) => match spec_expect(","@, r1) {
            Some(r2) => if r2.len() < s.len() {
                match spec_parse_redirect_items(r2) {
                    Some((vs, r3)) => Some((seq![v] + vs, r3)),
                    None => None,
                }
            } else {
                None
            },
            None => match spec_expect("]"@, r1) {
                Some(r2) => Some((seq![v], r2)),
                None => None,
            },
        },
    }
}

/// A whole written list, empty or not.
pub open spec fn spec_parse_redirect_array(s: Seq<char>) -> Option<
    (Seq<(int, Seq<char>, Seq<char>)>, Seq<char>),
> {
    match spec_expect("["@, s) {
        None => None,
        Some(s1) => match spec_expect("]"@, s1) {
            Some(s2) => Some((Seq::empty(), s2)),
            None => spec_parse_redirect_items(s1),
        },
    }
}

/// The loop relation of list parsing: what the whole body parses to is what
/// the remaining suffix parses to, prefixed by the entries read so far.
pub open spec fn redirect_items_invariant(
    whole: Seq<char>,
    cur: Seq<char>,
    acc: Seq<(int, Seq<char>, Seq<char>)>,
) -> bool {
    match spec_parse_redirect_items(cur) {
        Some((vs, rem)) => spec_parse_redirect_items(whole) == Some((acc + vs, rem)),
        None => spec_parse_redirect_items(whole) is None,
    }
}

proof fn redirect_items_invariant_init(whole: Seq<char>)
    ensures
        redirect_items_invariant(whole, whole, Seq::empty()),
{
    match spec_parse_redirect_items(whole) {
        Some((vs, rem)) => {
            assert(Seq::<(int, Seq<char>, Seq<char>)>::empty() + vs =~= vs);
        },
        None => {},
    }
}

proof fn redirect_items_step(
    whole: Seq<char>,
    cur: Seq<char>,
    nxt: Seq<char>,
    acc: Seq<(int, Seq<char>, Seq<char>)>,
    v: (int, Seq<char>, Seq<char>),
)
    requires
        redirect_items_invariant(whole, cur, acc),
        spec_parse_redirect_items(cur) == (match spec_parse_redirect_items(nxt) {
            Some((vs, rem)) => Some((seq![v] + vs, rem)),
            None => None::<(Seq<(int, Seq<char>, Seq<char>)>, Seq<char>)>,
        }),
    ensures
        redirect_items_invariant(whole, nxt, acc.push(v)),
{
    match spec_parse_redirect_items(nxt) {
        Some((vs, rem)) => {
            assert(acc + (seq![v] + vs) =~= acc.push(v) + vs);
        },
        None => {},
    }
}

fn parse_redirect_array(s: &str, pos: usize) -> (r: Option<(Vec<Redirect>, usize)>)
    requires
        pos <= s@.len(),
    ensures
        match r {
            Some((v, next)) => pos <= next <= s@.len() && spec_parse_redirect_array(
                s@.skip(pos as int),
            ) == Some((crate::middleware::redirect_views(v@), s@.skip(next as int))),
            None => spec_parse_redirect_array(s@.skip(pos as int)) is None,
        },
{
    let p1 = match expect(s, pos, "[") {
        Some(p) => p,
        None => { return None; },
    };
    match expect(s, p1, "]") {
        Some(p2) => {
            let out: Vec<Redirect> = Vec::new();
            proof {
                assert(crate::middleware::redirect_views(out@) =~= Seq::<
                    (int, Seq<char>, Seq<char>),
                >::empty());
            }
            return Some((out, p2));
        },
        None => {},
    }
    let ghost whole = s@.skip(p1 as int);
    let mut acc: Vec<Redirect> = Vec::new();
    let mut i = p1;
    proof {
        redirect_items_invariant_init(whole);
        assert(crate::middleware::redirect_views(acc@) =~= Seq::<
            (int, Seq<char>, Seq<char>),
        >::empty());
    }
    loop
        invariant
            p1 <= i <= s@.len(),
            whole == s@.skip(p1 as int),
            pos <= p1 <= s@.len(),
            spec_expect("["@, s@.skip(pos as int)) == Some(whole),
            spec_expect("]"@, whole) is None,
            redirect_items_invariant(whole, s@.skip(i as int), crate::middleware::redirect_views(
                acc@,
            )),
        decreases s@.len() - i,
    {
        let ghost cur = s@.skip(i as int);
        let (v, p2) = match parse_redirect(s, i) {
            Some(v) => v,
            None => { return None; },
        };
        let ghost vv = redirect_view(v);
        let ghost accv = crate::middleware::redirect_views(acc@);
        acc.push(v);
        proof {
            assert(crate::middleware::redirect_views(acc@) =~= accv.push(vv));
        }
        match expect(s, p2, ",") {
            Some(p3) => {
                proof {
                    reveal_strlit(",");
                    assert(p3 == p2 + 1 && p2 >= i);
                    assert(s@.skip(p3 as int).len() < cur.len());
                    assert(spec_parse_redirect_items(cur) == (
                    match spec_parse_redirect_items(s@.skip(p3 as int)) {
                        Some((vs, rem)) => Some((seq![vv] + vs, rem)),
                        None => None::<(Seq<(int, Seq<char>, Seq<char>)>, Seq<char>)>,
                    }));
                    redirect_items_step(whole, cur, s@.skip(p3 as int), accv, vv);
                }
                i = p3;
            },
            None => {
                match expect(s, p2, "]") {
                    Some(p4) => {
                        proof {
                            assert(spec_parse_redirect_items(cur) == Some(
                                (seq![vv], s@.skip(p4 as int)),
                            ));
                            assert(accv + seq![vv] =~= crate::middleware::redirect_views(acc@));
                        }
                        return Some((acc, p4));
                    },
                    None => { return None; },
                }
            },
        }
    }
}

/// A written list followed by anything parses back to itself.
proof fn lemma_redirect_array_roundtrip(vs: Seq<(int, Seq<char>, Seq<char>)>, t: Seq<char>)
    requires
        forall|i: int| 0 <= i < vs.len() ==> 0 <= (#[trigger] vs[i]).0 <= 65535,
    ensures
        spec_parse_redirect_array(spec_write_redirect_array(vs) + t) == Some((vs, t)),
{
    reveal_strlit("[");
    reveal_strlit("]");
    reveal_strlit(",");
    reveal_strlit("{\"status\":");
    let input = spec_write_redirect_array(vs) + t;
    if vs.len() == 0 {
        assert(input =~= "["@ + ("]"@ + t));
        crate::json::lemma_expect_roundtrip("["@, "]"@ + t);
        crate::json::lemma_expect_roundtrip("]"@, t);
    } else {
        let body = spec_write_redirect_items(vs) + ("]"@ + t);
        assert(input =~= "["@ + body);
        crate::json::lemma_expect_roundtrip("["@, body);
        assert(body[0] == spec_write_redirect(vs[0])[0]);
        assert(spec_write_redirect(vs[0])[0] == '{') by {
            assert(spec_write_redirect(vs[0])[0] == "{\"status\":"@[0]);
        }
        assert(spec_expect("]"@, body) is None) by {
            if crate::strutil::spec_starts_with(body, "]"@) {
                assert(body.subrange(0, 1)[0] == body[0]);
            }
        }
        lemma_redirect_items_roundtrip(vs, t);
    }
}

#[verifier::rlimit(50)]
proof fn lemma_redirect_items_roundtrip(vs: Seq<(int, Seq<char>, Seq<char>)>, t: Seq<char>)
    requires
        vs.len() > 0,
        forall|i: int| 0 <= i < vs.len() ==> 0 <= (#[trigger] vs[i]).0 <= 65535,
    ensures
        spec_parse_redirect_items(spec_write_redirect_items(vs) + ("]"@ + t)) == Some((vs, t)),
    decreases vs.len(),
{
    reveal_strlit("]");
    reveal_strlit(",");
    let input = spec_write_redirect_items(vs) + ("]"@ + t);
    if vs.len() == 1 {
        assert(input =~= spec_write_redirect(vs[0]) + ("]"@ + t));
        lemma_redirect_roundtrip(vs[0], "]"@ + t);
        assert(("]"@ + t)[0] == ']');
        assert(spec_expect(","@, "]"@ + t) is None) by {
            if crate::strutil::spec_starts_with("]"@ + t, ","@) {
                assert(("]"@ + t).subrange(0, 1)[0] == ("]"@ + t)[0]);
            }
        }
        crate::json::lemma_expect_roundtrip("]"@, t);
        assert(seq![vs[0]] =~= vs);
    } else {
        let rest_items = spec_write_redirect_items(vs.drop_first());
        assert(input =~= spec_write_redirect(vs[0]) + (","@ + (rest_items + ("]"@ + t))));
        lemma_redirect_roundtrip(vs[0], ","@ + (rest_items + ("]"@ + t)));
        let r1 = ","@ + (rest_items + ("]"@ + t));
        assert(r1[0] == ',');
        crate::json::lemma_expect_roundtrip(","@, rest_items + ("]"@ + t));
        assert forall|i: int| 0 <= i < vs.drop_first().len() implies 0 <= (
        #[trigger] vs.drop_first()[i]).0 <= 65535 by {
            assert(vs.drop_first()[i] == vs[i + 1]);
        }
        lemma_redirect_items_roundtrip(vs.drop_first(), t);
        assert((rest_items + ("]"@ + t)).len() < input.len());
        assert(seq![vs[0]] + vs.drop_first() =~= vs);
    }
}

// ---------------------------------------------------------------------------
// Route, interceptor, asset, credential and puppet entries
// ---------------------------------------------------------------------------
pub open spec fn route_views(rs: Seq<DynamicRoute>) -> Seq<(Seq<char>, Seq<char>)> {
    rs.map_values(|r: DynamicRoute| (r.path@, r.pattern@))
}

/// The written form of one dynamic route.
pub open spec fn spec_write_route(v: (Seq<char>, Seq<char>)) -> Seq<char> {
    "{\"path\":"@ + spec_string_token(v.0) + ",\"pattern\":"@ + spec_string_token(v.1) + "}"@
}

fn write_route_into(out: &mut String, r: &DynamicRoute)
    ensures
        final(out)@ == old(out)@ + spec_write_route(route_view(*r)),
{
    out.append("{\"path\":");
    write_string_token(out, r.path.as_str());
    out.append(",\"pattern\":");
    write_string_token(out, r.pattern.as_str());
    out.append("}");
    proof {
        assert(final(out)@ =~= old(out)@ + spec_write_route(route_view(*r)));
    }
}

pub open spec fn spec_parse_route(s: Seq<char>) -> Option<((Seq<char>, Seq<char>), Seq<char>)> {
    match spec_expect("{\"path\":"@, s) {
        None => None,
        Some(s1) => match spec_parse_string(s1) {
            None => None,
            Some((p, s2)) => match spec_expect(",\"pattern\":"@, s2) {
                None => None,
                Some(s3) => match spec_parse_string(s3) {
                    None => None,
                    Some((q, s4)) => match spec_expect("}"@, s4) {
                        None => None,
                        Some(s5) => Some(((p, q), s5)),
                    },
                },
            },
        },
    }
}

fn parse_route(s: &str, pos: usize) -> (r: Option<(DynamicRoute, usize)>)
    requires
        pos <= s@.len(),
    ensures
        match r {
            Some((v, next)) => pos <= next <= s@.len() && spec_parse_route(s@.skip(pos as int))
                == Some((route_view(v), s@.skip(next as int))),
            None => spec_parse_route(s@.skip(pos as int)) is None,
        },
{
    let p1 = match expect(s, pos, "{\"path\":") {
        Some(p) => p,
        None => { return None; },
    };
    let (path, p2) = match parse_string(s, p1) {
        Some(v) => v,
        None => { return None; },
    };
    let p3 = match expect(s, p2, ",\"pattern\":") {
        Some(p) => p,
        None => { return None; },
    };
    let (pattern, p4) = match parse_string(s, p3) {
        Some(v) => v,
        None => { return None; },
    };
    let p5 = match expect(s, p4, "}") {
        Some(p) => p,
        None => { return None; },
    };
    Some((DynamicRoute { path, pattern }, p5))
}

proof fn lemma_route_roundtrip(v: (Seq<char>, Seq<char>), t: Seq<char>)
    ensures
        spec_parse_route(spec_write_route(v) + t) == Some((v, t)),
{
    let k1 = "{\"path\":"@;
    let k2 = ",\"pattern\":"@;
    let k3 = "}"@;
    let st1 = spec_string_token(v.0);
    let st2 = spec_string_token(v.1);
    let input = spec_write_route(v) + t;
    let r1 = st1 + (k2 + (st2 + (k3 + t)));
    assert(input =~= k1 + r1);
    crate::json::lemma_expect_roundtrip(k1, r1);
    let r2 = k2 + (st2 + (k3 + t));
    assert(r1 =~= st1 + r2);
    crate::json::lemma_parse_string_roundtrip(v.0, r2);
    let r3 = st2 + (k3 + t);
    assert(r2 =~= k2 + r3);
    crate::json::lemma_expect_roundtrip(k2, r3);
    let r4 = k3 + t;
    assert(r3 =~= st2 + r4);
    crate::json::lemma_parse_string_roundtrip(v.1, r4);
    crate::json::lemma_expect_roundtrip(k3, t);
}

/// The written form of one interceptor entry.
pub open spec fn spec_write_interceptor(v: (Method, int, Seq<char>)) -> Seq<char> {
    "{\"method\":"@ + spec_string_token(v.0.spec_text()) + ",\"status\":"@ + spec_u64_digits(
        v.1 as nat,
    ) + ",\"path\":"@ + spec_string_token(v.2) + "}"@
}

fn write_interceptor_into(out: &mut String, ic: &Interceptor)
    ensures
        final(out)@ == old(out)@ + spec_write_interceptor(interceptor_view(*ic)),
{
    out.append("{\"method\":");
    write_string_token(out, ic.method.text());
    out.append(",\"status\":");
    let digits = u64_to_string(ic.status as u64);
    out.append(digits.as_str());
    out.append(",\"path\":");
    write_string_token(out, ic.path.as_str());
    out.append("}");
    proof {
        assert(final(out)@ =~= old(out)@ + spec_write_interceptor(interceptor_view(*ic)));
    }
}

pub open spec fn spec_parse_interceptor(s: Seq<char>) -> Option<
    ((Method, int, Seq<char>), Seq<char>),
> {
    match spec_expect("{\"method\":"@, s) {
        None => None,
        Some(s1) => match spec_parse_string(s1) {
            None => None,
            Some((name, s2)) => match Method::spec_of(name) {
                None => None,
                Some(m) => match spec_expect(",\"status\":"@, s2) {
                    None => None,
                    Some(s3) => match spec_parse_number(s3) {
                        None => None,
                        Some((n, s4)) => if n > 65535 {
                            None
                        } else {
                            match spec_expect(",\"path\":"@, s4) {
                                None => None,
                                Some(s5) => match spec_parse_string(s5) {
                                    None => None,
                                    Some((p, s6)) => match spec_expect("}"@, s6) {
                                        None => None,
                                        Some(s7) => Some(((m, n as int, p), s7)),
                                    },
                                },
                            }
                        },
                    },
                },
            },
        },
    }
}

fn parse_interceptor(s: &str, pos: usize) -> (r: Option<(Interceptor, usize)>)
    requires
        pos <= s@.len(),
    ensures
        match r {
            Some((v, next)) => pos <= next <= s@.len() && spec_parse_interceptor(
                s@.skip(pos as int),
            ) == Some((interceptor_view(v), s@.skip(next as int))),
            None => spec_parse_interceptor(s@.skip(pos as int)) is None,
        },
{
    let p1 = match expect(s, pos, "{\"method\":") {
        Some(p) => p,
        None => { return None; },
    };
    let (name, p2) = match parse_string(s, p1) {
        Some(v) => v,
        None => { return None; },
    };
    let method = match Method::from_str(name.as_str()) {
        Ok(m) => m,
        Err(_) => { return None; },
    };
    let p3 = match expect(s, p2, ",\"status\":") {
        Some(p) => p,
        None => { return None; },
    };
    let (n, p4) = match parse_number(s, p3) {
        Some(v) => v,
        None => { return None; },
    };
    if n > 65535 {
        return None;
    }
    let p5 = match expect(s, p4, ",\"path\":") {
        Some(p) => p,
        None => { return None; },
    };
    let (path, p6) = match parse_string(s, p5) {
        Some(v) => v,
        None => { return None; },
    };
    let p7 = match expect(s, p6, "}") {
        Some(p) => p,
        None => { return None; },
    };
    Some((Interceptor { method, status: n as u16, path }, p7))
}

proof fn lemma_interceptor_roundtrip(v: (Method, int, Seq<char>), t: Seq<char>)
    requires
        0 <= v.1 <= 65535,
    ensures
        spec_parse_interceptor(spec_write_interceptor(v) + t) == Some((v, t)),
{
    reveal_strlit(",\"status\":");
    reveal_strlit(",\"path\":");
    reveal_strlit("}");
    let k1 = "{\"method\":"@;
    let k2 = ",\"status\":"@;
    let k3 = ",\"path\":"@;
    let k4 = "}"@;
    let mt = spec_string_token(v.0.spec_text());
    let d = spec_u64_digits(v.1 as nat);
    let pt = spec_string_token(v.2);
    let input = spec_write_interceptor(v) + t;
    let r1 = mt + (k2 + (d + (k3 + (pt + (k4 + t)))));
    assert(input =~= k1 + r1);
    crate::json::lemma_expect_roundtrip(k1, r1);
    let r2 = k2 + (d + (k3 + (pt + (k4 + t))));
    assert(r1 =~= mt + r2);
    crate::json::lemma_parse_string_roundtrip(v.0.spec_text(), r2);
    lemma_method_name_of(v.0);
    let r3 = d + (k3 + (pt + (k4 + t)));
    assert(r2 =~= k2 + r3);
    crate::json::lemma_expect_roundtrip(k2, r3);
    let r4 = k3 + (pt + (k4 + t));
    assert(r3 =~= d + r4);
    assert(r4[0] == ',');
    crate::json::lemma_parse_number_roundtrip(v.1 as nat, r4);
    let r5 = pt + (k4 + t);
    assert(r4 =~= k3 + r5);
    crate::json::lemma_expect_roundtrip(k3, r5);
    let r6 = k4 + t;
    assert(r5 =~= pt + r6);
    crate::json::lemma_parse_string_roundtrip(v.2, r6);
    crate::json::lemma_expect_roundtrip(k4, t);
}

/// The written form of one asset: a bare string for a plain asset, an
/// object with a cache-control value for an advanced one.
pub open spec fn spec_write_asset(v: (Seq<char>, Option<Seq<char>>)) -> Seq<char> {
    match v.1 {
        None => spec_string_token(v.0),
        Some(cc) => "{\"path\":"@ + spec_string_token(v.0) + ",\"cacheControl\":"@
            + spec_string_token(cc) + "}"@,
    }
}

fn write_asset_into(out: &mut String, a: &Asset)
    ensures
        final(out)@ == old(out)@ + spec_write_asset(asset_view(*a)),
{
    match a {
        Asset::Simple(p) => {
            write_string_token(out, p.as_str());
        },
        Asset::Advanced { path, cache_control } => {
            out.append("{\"path\":");
            write_string_token(out, path.as_str());
            out.append(",\"cacheControl\":");
            write_string_token(out, cache_control.as_str());
            out.append("}");
            proof {
                assert(final(out)@ =~= old(out)@ + spec_write_asset(asset_view(*a)));
            }
        },
    }
}

pub open spec fn spec_parse_asset(s: Seq<char>) -> Option<
    ((Seq<char>, Option<Seq<char>>), Seq<char>),
> {
    match spec_expect("{\"path\":"@, s) {
        Some(s1) => match spec_parse_string(s1) {
            None => None,
            Some((p, s2)) => match spec_expect(",\"cacheControl\":"@, s2) {
                None => None,
                Some(s3) => match spec_parse_string(s3) {
                    None => None,
                    Some((cc, s4)) => match spec_expect("}"@, s4) {
                        None => None,
                        Some(s5) => Some(((p, Some(cc)), s5)),
                    },
                },
            },
        },
        None => match spec_parse_string(s) {
            None => None,
            Some((p, s1)) => Some(((p, None), s1)),
        },
    }
}

fn parse_asset(s: &str, pos: usize) -> (r: Option<(Asset, usize)>)
    requires
        pos <= s@.len(),
    ensures
        match r {
            Some((v, next)) => pos <= next <= s@.len() && spec_parse_asset(s@.skip(pos as int))
                == Some((asset_view(v), s@.skip(next as int))),
            None => spec_parse_asset(s@.skip(pos as int)) is None,
        },
{
    match expect(s, pos, "{\"path\":") {
        Some(p1) => {
            let (path, p2) = match parse_string(s, p1) {
                Some(v) => v,
                None => { return None; },
            };
            let p3 = match expect(s, p2, ",\"cacheControl\":") {
                Some(p) => p,
                None => { return None; },
            };
            let (cc, p4) = match parse_string(s, p3) {
                Some(v) => v,
                None => { return None; },
            };
            let p5 = match expect(s, p4, "}") {
                Some(p) => p,
                None => { return None; },
            };
            Some((Asset::Advanced { path, cache_control: cc }, p5))
        },
        None => {
            match parse_string(s, pos) {
                Some((p, p1)) => Some((Asset::Simple(p), p1)),
                None => None,
            }
        },
    }
}

proof fn lemma_asset_roundtrip(v: (Seq<char>, Option<Seq<char>>), t: Seq<char>)
    ensures
        spec_parse_asset(spec_write_asset(v) + t) == Some((v, t)),
{
    reveal_strlit("{\"path\":");
    let input = spec_write_asset(v) + t;
    match v.1 {
        None => {
            assert(input =~= spec_string_token(v.0) + t);
            assert(input[0] == '"');
            assert(spec_expect("{\"path\":"@, input) is None) by {
                if crate::strutil::spec_starts_with(input, "{\"path\":"@) {
                    assert(input.subrange(0, 8)[0] == input[0]);
                }
            }
            crate::json::lemma_parse_string_roundtrip(v.0, t);
        },
        Some(cc) => {
            let k1 = "{\"path\":"@;
            let k2 = ",\"cacheControl\":"@;
            let k3 = "}"@;
            let st1 = spec_string_token(v.0);
            let st2 = spec_string_token(cc);
            let r1 = st1 + (k2 + (st2 + (k3 + t)));
            assert(input =~= k1 + r1);
            crate::json::lemma_expect_roundtrip(k1, r1);
            let r2 = k2 + (st2 + (k3 + t));
            assert(r1 =~= st1 + r2);
            crate::json::lemma_parse_string_roundtrip(v.0, r2);
            let r3 = st2 + (k3 + t);
            assert(r2 =~= k2 + r3);
            crate::json::lemma_expect_roundtrip(k2, r3);
            let r4 = k3 + t;
            assert(r3 =~= st2 + r4);
            crate::json::lemma_parse_string_roundtrip(cc, r4);
            crate::json::lemma_expect_roundtrip(k3, t);
        },
    }
}

/// The written form of one puppet binding.
pub open spec fn spec_write_puppet(v: (Seq<char>, Seq<char>)) -> Seq<char> {
    spec_string_token(v.0) + ":"@ + spec_string_token(v.1)
}

fn write_puppet_into(out: &mut String, p: &(String, String))
    ensures
        final(out)@ == old(out)@ + spec_write_puppet((p.0@, p.1@)),
{
    write_string_token(out, p.0.as_str());
    out.append(":");
    write_string_token(out, p.1.as_str());
    proof {
        assert(final(out)@ =~= old(out)@ + spec_write_puppet((p.0@, p.1@)));
    }
}

pub open spec fn spec_parse_puppet(s: Seq<char>) -> Option<((Seq<char>, Seq<char>), Seq<char>)> {
    match spec_parse_string(s) {
        None => None,
        Some((k, s1)) => match spec_expect(":"@, s1) {
            None => None,
            Some(s2) => match spec_parse_string(s2) {
                None => None,
                Some((v, s3)) => Some(((k, v), s3)),
            },
        },
    }
}

fn parse_puppet(s: &str, pos: usize) -> (r: Option<((String, String), usize)>)
    requires
        pos <= s@.len(),
    ensures
        match r {
            Some((v, next)) => pos <= next <= s@.len() && spec_parse_puppet(s@.skip(pos as int))
                == Some(((v.0@, v.1@), s@.skip(next as int))),
            None => spec_parse_puppet(s@.skip(pos as int)) is None,
        },
{
    let (k, p1) = match parse_string(s, pos) {
        Some(v) => v,
        None => { return None; },
    };
    let p2 = match expect(s, p1, ":") {
        Some(p) => p,
        None => { return None; },
    };
    let (v, p3) = match parse_string(s, p2) {
        Some(v) => v,
        None => { return None; },
    };
    Some(((k, v), p3))
}

proof fn lemma_puppet_roundtrip(v: (Seq<char>, Seq<char>), t: Seq<char>)
    ensures
        spec_parse_puppet(spec_write_puppet(v) + t) == Some((v, t)),
{
    let k1 = ":"@;
    let st1 = spec_string_token(v.0);
    let st2 = spec_string_token(v.1);
    let input = spec_write_puppet(v) + t;
    let r1 = k1 + (st2 + t);
    assert(input =~= st1 + r1);
    crate::json::lemma_parse_string_roundtrip(v.0, r1);
    let r2 = st2 + t;
    assert(r1 =~= k1 + r2);
    crate::json::lemma_expect_roundtrip(k1, r2);
    crate::json::lemma_parse_string_roundtrip(v.1, t);
}


// ---------------------------------------------------------------------------
// Route lists
// ---------------------------------------------------------------------------
pub open spec fn spec_write_route_items(vs: Seq<(Seq<char>, Seq<char>)>) -> Seq<char>
    decreases vs.len(),
{
    if vs.len() == 0 {
        Seq::empty()
    } else if vs.len() == 1 {
        spec_write_route(vs[0])
    } else {
        spec_write_route(vs[0]) + ","@ + spec_write_route_items(vs.drop_first())
    }
}

pub open spec fn spec_write_route_array(vs: Seq<(Seq<char>, Seq<char>)>) -> Seq<char> {
    "["@ + spec_write_route_items(vs) + "]"@
}

fn write_route_array_into(out: &mut String, xs: &Vec<DynamicRoute>)
    ensures
        final(out)@ == old(out)@ + spec_write_route_array(route_views(xs@)),
{
    let ghost vs = route_views(xs@);
    out.append("[");
    let ghost start = out@;
    let n = xs.len();
    let mut i: usize = 0;
    proof {
        assert(vs.skip(0) =~= vs);
    }
    while i < n
        invariant
            0 <= i <= n,
            n == xs@.len(),
            vs == route_views(xs@),
            start + spec_write_route_items(vs) =~= out@ + spec_write_route_items(vs.skip(i as int)),
        decreases n - i,
    {
        let ghost rem = vs.skip(i as int);
        proof {
            assert(rem[0] == vs[i as int]);
            assert(rem.drop_first() =~= vs.skip(i + 1));
        }
        write_route_into(out, &xs[i]);
        if i + 1 < n {
            out.append(",");
            proof {
                assert(rem.len() > 1);
                assert(start + spec_write_route_items(vs) =~= out@ + spec_write_route_items(
                    vs.skip(i + 1),
                ));
            }
        } else {
            proof {
                assert(rem.len() == 1);
                assert(vs.skip(i + 1) =~= Seq::<(Seq<char>, Seq<char>)>::empty());
                assert(start + spec_write_route_items(vs) =~= out@ + spec_write_route_items(
                    vs.skip(i + 1),
                ));
            }
        }
        i += 1;
    }
    proof {
        assert(vs.skip(n as int) =~= Seq::<(Seq<char>, Seq<char>)>::empty());
    }
    out.append("]");
    proof {
        assert(final(out)@ =~= old(out)@ + spec_write_route_array(vs));
    }
}

pub open spec fn spec_parse_route_items(s: Seq<char>) -> Option<(Seq<(Seq<char>, Seq<char>)>, Seq<char>)>
    decreases s.len(),
{
    match spec_parse_route(s) {
        None => None,
        Some((v, r1)) => match spec_expect(","@, r1) {
            Some(r2) => if r2.len() < s.len() {
                match spec_parse_route_items(r2) {
                    Some((vs, r3)) => Some((seq![v] + vs, r3)),
                    None => None,
                }
            } else {
                None
            },
            None => match spec_expect("]"@, r1) {
                Some(r2) => Some((seq![v], r2)),
                None => None,
            },
        },
    }
}

pub open spec fn spec_parse_route_array(s: Seq<char>) -> Option<(Seq<(Seq<char>, Seq<char>)>, Seq<char>)> {
    match spec_expect("["@, s) {
        None => None,
        Some(s1) => match spec_expect("]"@, s1) {
            Some(s2) => Some((Seq::empty(), s2)),
            None => spec_parse_route_items(s1),
        },
    }
}

pub open spec fn route_items_invariant(whole: Seq<char>, cur: Seq<char>, acc: Seq<(Seq<char>, Seq<char>)>) -> bool {
    match spec_parse_route_items(cur) {
        Some((vs, rem)) => spec_parse_route_items(whole) == Some((acc + vs, rem)),
        None => spec_parse_route_items(whole) is None,
    }
}

proof fn route_items_invariant_init(whole: Seq<char>)
    ensures
        route_items_invariant(whole, whole, Seq::empty()),
{
    match spec_parse_route_items(whole) {
        Some((vs, rem)) => {
            assert(Seq::<(Seq<char>, Seq<char>)>::empty() + vs =~= vs);
        },
        None => {},
    }
}

proof fn route_items_step(whole: Seq<char>, cur: Seq<char>, nxt: Seq<char>, acc: Seq<(Seq<char>, Seq<char>)>, v: (Seq<char>, Seq<char>))
    requires
        route_items_invariant(whole, cur, acc),
        spec_parse_route_items(cur) == (match spec_parse_route_items(nxt) {
            Some((vs, rem)) => Some((seq![v] + vs, rem)),
            None => None::<(Seq<(Seq<char>, Seq<char>)>, Seq<char>)>,
        }),
    ensures
        route_items_invariant(whole, nxt, acc.push(v)),
{
    match spec_parse_route_items(nxt) {
        Some((vs, rem)) => {
            assert(acc + (seq![v] + vs) =~= acc.push(v) + vs);
        },
        None => {},
    }
}

fn parse_route_array(s: &str, pos: usize) -> (r: Option<(Vec<DynamicRoute>, usize)>)
    requires
        pos <= s@.len(),
    ensures
        match r {
            Some((v, next)) => pos <= next <= s@.len() && spec_parse_route_array(
                s@.skip(pos as int),
            ) == Some((route_views(v@), s@.skip(next as int))),
            None => spec_parse_route_array(s@.skip(pos as int)) is None,
        },
{
    let p1 = match expect(s, pos, "[") {
        Some(p) => p,
        None => { return None; },
    };
    match expect(s, p1, "]") {
        Some(p2) => {
            let out: Vec<DynamicRoute> = Vec::new();
            proof {
                assert(route_views(out@) =~= Seq::<(Seq<char>, Seq<char>)>::empty());
            }
            return Some((out, p2));
        },
        None => {},
    }
    let ghost whole = s@.skip(p1 as int);
    let mut acc: Vec<DynamicRoute> = Vec::new();
    let mut i = p1;
    proof {
        route_items_invariant_init(whole);
        assert(route_views(acc@) =~= Seq::<(Seq<char>, Seq<char>)>::empty());
    }
    loop
        invariant
            p1 <= i <= s@.len(),
            whole == s@.skip(p1 as int),
            pos <= p1 <= s@.len(),
            spec_expect("["@, s@.skip(pos as int)) == Some(whole),
            spec_expect("]"@, whole) is None,
            route_items_invariant(whole, s@.skip(i as int), route_views(acc@)),
        decreases s@.len() - i,
    {
        let ghost cur = s@.skip(i as int);
        let (v, p2) = match parse_route(s, i) {
            Some(v) => v,
            None => { return None; },
        };
        let ghost vv = route_view(v);
        let ghost accv = route_views(acc@);
        acc.push(v);
        proof {
            assert(route_views(acc@) =~= accv.push(vv));
        }
        match expect(s, p2, ",") {
            Some(p3) => {
                proof {
                    reveal_strlit(",");
                    assert(p3 == p2 + 1 && p2 >= i);
                    assert(s@.skip(p3 as int).len() < cur.len());
                    assert(spec_parse_route_items(cur) == (
                    match spec_parse_route_items(s@.skip(p3 as int)) {
                        Some((vs, rem)) => Some((seq![vv] + vs, rem)),
                        None => None::<(Seq<(Seq<char>, Seq<char>)>, Seq<char>)>,
                    }));
                    route_items_step(whole, cur, s@.skip(p3 as int), accv, vv);
                }
                i = p3;
            },
            None => {
                match expect(s, p2, "]") {
                    Some(p4) => {
                        proof {
                            assert(spec_parse_route_items(cur) == Some(
                                (seq![vv], s@.skip(p4 as int)),
                            ));
                            assert(accv + seq![vv] =~= route_views(acc@));
                        }
                        return Some((acc, p4));
                    },
                    None => { return None; },
                }
            },
        }
    }
}

proof fn lemma_route_array_roundtrip(vs: Seq<(Seq<char>, Seq<char>)>, t: Seq<char>)
    requires
        true,
    ensures
        spec_parse_route_array(spec_write_route_array(vs) + t) == Some((vs, t)),
{
    reveal_strlit("[");
    reveal_strlit("]");
    reveal_strlit(",");
    let input = spec_write_route_array(vs) + t;
    if vs.len() == 0 {
        assert(input =~= "["@ + ("]"@ + t));
        crate::json::lemma_expect_roundtrip("["@, "]"@ + t);
        crate::json::lemma_expect_roundtrip("]"@, t);
    } else {
        let body = spec_write_route_items(vs) + ("]"@ + t);
        assert(input =~= "["@ + body);
        crate::json::lemma_expect_roundtrip("["@, body);
        assert(body[0] == spec_write_route(vs[0])[0]);
        assert(spec_write_route(vs[0])[0] == '{') by {
            reveal_strlit("{\"path\":");
            assert(spec_write_route(vs[0])[0] == "{\"path\":"@[0]);
        }
        assert(spec_expect("]"@, body) is None) by {
            if crate::strutil::spec_starts_with(body, "]"@) {
                assert(body.subrange(0, 1)[0] == body[0]);
            }
        }
        lemma_route_items_roundtrip(vs, t);
    }
}

#[verifier::rlimit(50)]
proof fn lemma_route_items_roundtrip(vs: Seq<(Seq<char>, Seq<char>)>, t: Seq<char>)
    requires
        vs.len() > 0,
        true,
    ensures
        spec_parse_route_items(spec_write_route_items(vs) + ("]"@ + t)) == Some((vs, t)),
    decreases vs.len(),
{
    reveal_strlit("]");
    reveal_strlit(",");
    let input = spec_write_route_items(vs) + ("]"@ + t);
    if vs.len() == 1 {
        assert(input =~= spec_write_route(vs[0]) + ("]"@ + t));
        lemma_route_roundtrip(vs[0], "]"@ + t);
        assert(("]"@ + t)[0] == ']');
        assert(spec_expect(","@, "]"@ + t) is None) by {
            if crate::strutil::spec_starts_with("]"@ + t, ","@) {
                assert(("]"@ + t).subrange(0, 1)[0] == ("]"@ + t)[0]);
            }
        }
        crate::json::lemma_expect_roundtrip("]"@, t);
        assert(seq![vs[0]] =~= vs);
    } else {
        let rest_items = spec_write_route_items(vs.drop_first());
        assert(input =~= spec_write_route(vs[0]) + (","@ + (rest_items + ("]"@ + t))));
        lemma_route_roundtrip(vs[0], ","@ + (rest_items + ("]"@ + t)));
        let r1 = ","@ + (rest_items + ("]"@ + t));
        assert(r1[0] == ',');
        crate::json::lemma_expect_roundtrip(","@, rest_items + ("]"@ + t));
        
        lemma_route_items_roundtrip(vs.drop_first(), t);
        assert((rest_items + ("]"@ + t)).len() < input.len());
        assert(seq![vs[0]] + vs.drop_first() =~= vs);
    }
}


// ---------------------------------------------------------------------------
// Asset lists
// ---------------------------------------------------------------------------
pub open spec fn spec_write_asset_items(vs: Seq<(Seq<char>, Option<Seq<char>>)>) -> Seq<char>
    decreases vs.len(),
{
    if vs.len() == 0 {
        Seq::empty()
    } else if vs.len() == 1 {
        spec_write_asset(vs[0])
    } else {
        spec_write_asset(vs[0]) + ","@ + spec_write_asset_items(vs.drop_first())
    }
}

pub open spec fn spec_write_asset_array(vs: Seq<(Seq<char>, Option<Seq<char>>)>) -> Seq<char> {
    "["@ + spec_write_asset_items(vs) + "]"@
}

fn write_asset_array_into(out: &mut String, xs: &Vec<Asset>)
    ensures
        final(out)@ == old(out)@ + spec_write_asset_array(crate::middleware::asset_views(xs@)),
{
    let ghost vs = crate::middleware::asset_views(xs@);
    out.append("[");
    let ghost start = out@;
    let n = xs.len();
    let mut i: usize = 0;
    proof {
        assert(vs.skip(0) =~= vs);
    }
    while i < n
        invariant
            0 <= i <= n,
            n == xs@.len(),
            vs == crate::middleware::asset_views(xs@),
            start + spec_write_asset_items(vs) =~= out@ + spec_write_asset_items(vs.skip(i as int)),
        decreases n - i,
    {
        let ghost rem = vs.skip(i as int);
        proof {
            assert(rem[0] == vs[i as int]);
            assert(rem.drop_first() =~= vs.skip(i + 1));
        }
        write_asset_into(out, &xs[i]);
        if i + 1 < n {
            out.append(",");
            proof {
                assert(rem.len() > 1);
                assert(start + spec_write_asset_items(vs) =~= out@ + spec_write_asset_items(
                    vs.skip(i + 1),
                ));
            }
        } else {
            proof {
                assert(rem.len() == 1);
                assert(vs.skip(i + 1) =~= Seq::<(Seq<char>, Option<Seq<char>>)>::empty());
                assert(start + spec_write_asset_items(vs) =~= out@ + spec_write_asset_items(
                    vs.skip(i + 1),
                ));
            }
        }
        i += 1;
    }
    proof {
        assert(vs.skip(n as int) =~= Seq::<(Seq<char>, Option<Seq<char>>)>::empty());
    }
    out.append("]");
    proof {
        assert(final(out)@ =~= old(out)@ + spec_write_asset_array(vs));
    }
}

pub open spec fn spec_parse_asset_items(s: Seq<char>) -> Option<(Seq<(Seq<char>, Option<Seq<char>>)>, Seq<char>)>
    decreases s.len(),
{
    match spec_parse_asset(s) {
        None => None,
        Some((v, r1)) => match spec_expect(","@, r1) {
            Some(r2) => if r2.len() < s.len() {
                match spec_parse_asset_items(r2) {
                    Some((vs, r3)) => Some((seq![v] + vs, r3)),
                    None => None,
                }
            } else {
                None
            },
            None => match spec_expect("]"@, r1) {
                Some(r2) => Some((seq![v], r2)),
                None => None,
            },
        },
    }
}

pub open spec fn spec_parse_asset_array(s: Seq<char>) -> Option<(Seq<(Seq<char>, Option<Seq<char>>)>, Seq<char>)> {
    match spec_expect("["@, s) {
        None => None,
        Some(s1) => match spec_expect("]"@, s1) {
            Some(s2) => Some((Seq::empty(), s2)),
            None => spec_parse_asset_items(s1),
        },
    }
}

pub open spec fn asset_items_invariant(whole: Seq<char>, cur: Seq<char>, acc: Seq<(Seq<char>, Option<Seq<char>>)>) -> bool {
    match spec_parse_asset_items(cur) {
        Some((vs, rem)) => spec_parse_asset_items(whole) == Some((acc + vs, rem)),
        None => spec_parse_asset_items(whole) is None,
    }
}

proof fn asset_items_invariant_init(whole: Seq<char>)
    ensures
        asset_items_invariant(whole, whole, Seq::empty()),
{
    match spec_parse_asset_items(whole) {
        Some((vs, rem)) => {
            assert(Seq::<(Seq<char>, Option<Seq<char>>)>::empty() + vs =~= vs);
        },
        None => {},
    }
}

proof fn asset_items_step(whole: Seq<char>, cur: Seq<char>, nxt: Seq<char>, acc: Seq<(Seq<char>, Option<Seq<char>>)>, v: (Seq<char>, Option<Seq<char>>))
    requires
        asset_items_invariant(whole, cur, acc),
        spec_parse_asset_items(cur) == (match spec_parse_asset_items(nxt) {
            Some((vs, rem)) => Some((seq![v] + vs, rem)),
            None => None::<(Seq<(Seq<char>, Option<Seq<char>>)>, Seq<char>)>,
        }),
    ensures
        asset_items_invariant(whole, nxt, acc.push(v)),
{
    match spec_parse_asset_items(nxt) {
        Some((vs, rem)) => {
            assert(acc + (seq![v] + vs) =~= acc.push(v) + vs);
        },
        None => {},
    }
}

fn parse_asset_array(s: &str, pos: usize) -> (r: Option<(Vec<Asset>, usize)>)
    requires
        pos <= s@.len(),
    ensures
        match r {
            Some((v, next)) => pos <= next <= s@.len() && spec_parse_asset_array(
                s@.skip(pos as int),
            ) == Some((crate::middleware::asset_views(v@), s@.skip(next as int))),
            None => spec_parse_asset_array(s@.skip(pos as int)) is None,
        },
{
    let p1 = match expect(s, pos, "[") {
        Some(p) => p,
        None => { return None; },
    };
    match expect(s, p1, "]") {
        Some(p2) => {
            let out: Vec<Asset> = Vec::new();
            proof {
                assert(crate::middleware::asset_views(out@) =~= Seq::<(Seq<char>, Option<Seq<char>>)>::empty());
            }
            return Some((out, p2));
        },
        None => {},
    }
    let ghost whole = s@.skip(p1 as int);
    let mut acc: Vec<Asset> = Vec::new();
    let mut i = p1;
    proof {
        asset_items_invariant_init(whole);
        assert(crate::middleware::asset_views(acc@) =~= Seq::<(Seq<char>, Option<Seq<char>>)>::empty());
    }
    loop
        invariant
            p1 <= i <= s@.len(),
            whole == s@.skip(p1 as int),
            pos <= p1 <= s@.len(),
            spec_expect("["@, s@.skip(pos as int)) == Some(whole),
            spec_expect("]"@, whole) is None,
            asset_items_invariant(whole, s@.skip(i as int), crate::middleware::asset_views(acc@)),
        decreases s@.len() - i,
    {
        let ghost cur = s@.skip(i as int);
        let (v, p2) = match parse_asset(s, i) {
            Some(v) => v,
            None => { return None; },
        };
        let ghost vv = asset_view(v);
        let ghost accv = crate::middleware::asset_views(acc@);
        acc.push(v);
        proof {
            assert(crate::middleware::asset_views(acc@) =~= accv.push(vv));
        }
        match expect(s, p2, ",") {
            Some(p3) => {
                proof {
                    reveal_strlit(",");
                    assert(p3 == p2 + 1 && p2 >= i);
                    assert(s@.skip(p3 as int).len() < cur.len());
                    assert(spec_parse_asset_items(cur) == (
                    match spec_parse_asset_items(s@.skip(p3 as int)) {
                        Some((vs, rem)) => Some((seq![vv] + vs, rem)),
                        None => None::<(Seq<(Seq<char>, Option<Seq<char>>)>, Seq<char>)>,
                    }));
                    asset_items_step(whole, cur, s@.skip(p3 as int), accv, vv);
                }
                i = p3;
            },
            None => {
                match expect(s, p2, "]") {
                    Some(p4) => {
                        proof {
                            assert(spec_parse_asset_items(cur) == Some(
                                (seq![vv], s@.skip(p4 as int)),
                            ));
                            assert(accv + seq![vv] =~= crate::middleware::asset_views(acc@));
                        }
                        return Some((acc, p4));
                    },
                    None => { return None; },
                }
            },
        }
    }
}

proof fn lemma_asset_array_roundtrip(vs: Seq<(Seq<char>, Option<Seq<char>>)>, t: Seq<char>)
    requires
        true,
    ensures
        spec_parse_asset_array(spec_write_asset_array(vs) + t) == Some((vs, t)),
{
    reveal_strlit("[");
    reveal_strlit("]");
    reveal_strlit(",");
    let input = spec_write_asset_array(vs) + t;
    if vs.len() == 0 {
        assert(input =~= "["@ + ("]"@ + t));
        crate::json::lemma_expect_roundtrip("["@, "]"@ + t);
        crate::json::lemma_expect_roundtrip("]"@, t);
    } else {
        let body = spec_write_asset_items(vs) + ("]"@ + t);
        assert(input =~= "["@ + body);
        crate::json::lemma_expect_roundtrip("["@, body);
        assert(body[0] == spec_write_asset(vs[0])[0]);
        assert(spec_write_asset(vs[0])[0] != ']') by {
            reveal_strlit("{\"path\":");
            match vs[0].1 {
                None => {
                    assert(spec_write_asset(vs[0])[0] == '"');
                },
                Some(cc) => {
                    assert(spec_write_asset(vs[0])[0] == "{\"path\":"@[0]);
                },
            }
        }
        assert(spec_expect("]"@, body) is None) by {
            if crate::strutil::spec_starts_with(body, "]"@) {
                assert(body.subrange(0, 1)[0] == body[0]);
            }
        }
        lemma_asset_items_roundtrip(vs, t);
    }
}

#[verifier::rlimit(50)]
proof fn lemma_asset_items_roundtrip(vs: Seq<(Seq<char>, Option<Seq<char>>)>, t: Seq<char>)
    requires
        vs.len() > 0,
        true,
    ensures
        spec_parse_asset_items(spec_write_asset_items(vs) + ("]"@ + t)) == Some((vs, t)),
    decreases vs.len(),
{
    reveal_strlit("]");
    reveal_strlit(",");
    let input = spec_write_asset_items(vs) + ("]"@ + t);
    if vs.len() == 1 {
        assert(input =~= spec_write_asset(vs[0]) + ("]"@ + t));
        lemma_asset_roundtrip(vs[0], "]"@ + t);
        assert(("]"@ + t)[0] == ']');
        assert(spec_expect(","@, "]"@ + t) is None) by {
            if crate::strutil::spec_starts_with("]"@ + t, ","@) {
                assert(("]"@ + t).subrange(0, 1)[0] == ("]"@ + t)[0]);
            }
        }
        crate::json::lemma_expect_roundtrip("]"@, t);
        assert(seq![vs[0]] =~= vs);
    } else {
        let rest_items = spec_write_asset_items(vs.drop_first());
        assert(input =~= spec_write_asset(vs[0]) + (","@ + (rest_items + ("]"@ + t))));
        lemma_asset_roundtrip(vs[0], ","@ + (rest_items + ("]"@ + t)));
        let r1 = ","@ + (rest_items + ("]"@ + t));
        assert(r1[0] == ',');
        crate::json::lemma_expect_roundtrip(","@, rest_items + ("]"@ + t));
        
        lemma_asset_items_roundtrip(vs.drop_first(), t);
        assert((rest_items + ("]"@ + t)).len() < input.len());
        assert(seq![vs[0]] + vs.drop_first() =~= vs);
    }
}


// ---------------------------------------------------------------------------
// Interceptor lists
// ---------------------------------------------------------------------------
pub open spec fn spec_write_interceptor_items(vs: Seq<(Method, int, Seq<char>)>) -> Seq<char>
    decreases vs.len(),
{
    if vs.len() == 0 {
        Seq::empty()
    } else if vs.len() == 1 {
        spec_write_interceptor(vs[0])
    } else {
        spec_write_interceptor(vs[0]) + ","@ + spec_write_interceptor_items(vs.drop_first())
    }
}

pub open spec fn spec_write_interceptor_array(vs: Seq<(Method, int, Seq<char>)>) -> Seq<char> {
    "["@ + spec_write_interceptor_items(vs) + "]"@
}

fn write_interceptor_array_into(out: &mut String, xs: &Vec<Interceptor>)
    ensures
        final(out)@ == old(out)@ + spec_write_interceptor_array(crate::middleware::interceptor_views(xs@)),
{
    let ghost vs = crate::middleware::interceptor_views(xs@);
    out.append("[");
    let ghost start = out@;
    let n = xs.len();
    let mut i: usize = 0;
    proof {
        assert(vs.skip(0) =~= vs);
    }
    while i < n
        invariant
            0 <= i <= n,
            n == xs@.len(),
            vs == crate::middleware::interceptor_views(xs@),
            start + spec_write_interceptor_items(vs) =~= out@ + spec_write_interceptor_items(vs.skip(i as int)),
        decreases n - i,
    {
        let ghost rem = vs.skip(i as int);
        proof {
            assert(rem[0] == vs[i as int]);
            assert(rem.drop_first() =~= vs.skip(i + 1));
        }
        write_interceptor_into(out, &xs[i]);
        if i + 1 < n {
            out.append(",");
            proof {
                assert(rem.len() > 1);
                assert(start + spec_write_interceptor_items(vs) =~= out@ + spec_write_interceptor_items(
                    vs.skip(i + 1),
                ));
            }
        } else {
            proof {
                assert(rem.len() == 1);
                assert(vs.skip(i + 1) =~= Seq::<(Method, int, Seq<char>)>::empty());
                assert(start + spec_write_interceptor_items(vs) =~= out@ + spec_write_interceptor_items(
                    vs.skip(i + 1),
                ));
            }
        }
        i += 1;
    }
    proof {
        assert(vs.skip(n as int) =~= Seq::<(Method, int, Seq<char>)>::empty());
    }
    out.append("]");
    proof {
        assert(final(out)@ =~= old(out)@ + spec_write_interceptor_array(vs));
    }
}

pub open spec fn spec_parse_interceptor_items(s: Seq<char>) -> Option<(Seq<(Method, int, Seq<char>)>, Seq<char>)>
    decreases s.len(),
{
    match spec_parse_interceptor(s) {
        None => None,
        Some((v, r1)) => match spec_expect(","@, r1) {
            Some(r2) => if r2.len() < s.len() {
                match spec_parse_interceptor_items(r2) {
                    Some((vs, r3)) => Some((seq![v] + vs, r3)),
                    None => None,
                }
            } else {
                None
            },
            None => match spec_expect("]"@, r1) {
                Some(r2) => Some((seq![v], r2)),
                None => None,
            },
        },
    }
}

pub open spec fn spec_parse_interceptor_array(s: Seq<char>) -> Option<(Seq<(Method, int, Seq<char>)>, Seq<char>)> {
    match spec_expect("["@, s) {
        None => None,
        Some(s1) => match spec_expect("]"@, s1) {
            Some(s2) => Some((Seq::empty(), s2)),
            None => spec_parse_interceptor_items(s1),
        },
    }
}

pub open spec fn interceptor_items_invariant(whole: Seq<char>, cur: Seq<char>, acc: Seq<(Method, int, Seq<char>)>) -> bool {
    match spec_parse_interceptor_items(cur) {
        Some((vs, rem)) => spec_parse_interceptor_items(whole) == Some((acc + vs, rem)),
        None => spec_parse_interceptor_items(whole) is None,
    }
}

proof fn interceptor_items_invariant_init(whole: Seq<char>)
    ensures
        interceptor_items_invariant(whole, whole, Seq::empty()),
{
    match spec_parse_interceptor_items(whole) {
        Some((vs, rem)) => {
            assert(Seq::<(Method, int, Seq<char>)>::empty() + vs =~= vs);
        },
        None => {},
    }
}

proof fn interceptor_items_step(whole: Seq<char>, cur: Seq<char>, nxt: Seq<char>, acc: Seq<(Method, int, Seq<char>)>, v: (Method, int, Seq<char>))
    requires
        interceptor_items_invariant(whole, cur, acc),
        spec_parse_interceptor_items(cur) == (match spec_parse_interceptor_items(nxt) {
            Some((vs, rem)) => Some((seq![v] + vs, rem)),
            None => None::<(Seq<(Method, int, Seq<char>)>, Seq<char>)>,
        }),
    ensures
        interceptor_items_invariant(whole, nxt, acc.push(v)),
{
    match spec_parse_interceptor_items(nxt) {
        Some((vs, rem)) => {
            assert(acc + (seq![v] + vs) =~= acc.push(v) + vs);
        },
        None => {},
    }
}

fn parse_interceptor_array(s: &str, pos: usize) -> (r: Option<(Vec<Interceptor>, usize)>)
    requires
        pos <= s@.len(),
    ensures
        match r {
            Some((v, next)) => pos <= next <= s@.len() && spec_parse_interceptor_array(
                s@.skip(pos as int),
            ) == Some((crate::middleware::interceptor_views(v@), s@.skip(next as int))),
            None => spec_parse_interceptor_array(s@.skip(pos as int)) is None,
        },
{
    let p1 = match expect(s, pos, "[") {
        Some(p) => p,
        None => { return None; },
    };
    match expect(s, p1, "]") {
        Some(p2) => {
            let out: Vec<Interceptor> = Vec::new();
            proof {
                assert(crate::middleware::interceptor_views(out@) =~= Seq::<(Method, int, Seq<char>)>::empty());
            }
            return Some((out, p2));
        },
        None => {},
    }
    let ghost whole = s@.skip(p1 as int);
    let mut acc: Vec<Interceptor> = Vec::new();
    let mut i = p1;
    proof {
        interceptor_items_invariant_init(whole);
        assert(crate::middleware::interceptor_views(acc@) =~= Seq::<(Method, int, Seq<char>)>::empty());
    }
    loop
        invariant
            p1 <= i <= s@.len(),
            whole == s@.skip(p1 as int),
            pos <= p1 <= s@.len(),
            spec_expect("["@, s@.skip(pos as int)) == Some(whole),
            spec_expect("]"@, whole) is None,
            interceptor_items_invariant(whole, s@.skip(i as int), crate::middleware::interceptor_views(acc@)),
        decreases s@.len() - i,
    {
        let ghost cur = s@.skip(i as int);
        let (v, p2) = match parse_interceptor(s, i) {
            Some(v) => v,
            None => { return None; },
        };
        let ghost vv = interceptor_view(v);
        let ghost accv = crate::middleware::interceptor_views(acc@);
        acc.push(v);
        proof {
            assert(crate::middleware::interceptor_views(acc@) =~= accv.push(vv));
        }
        match expect(s, p2, ",") {
            Some(p3) => {
                proof {
                    reveal_strlit(",");
                    assert(p3 == p2 + 1 && p2 >= i);
                    assert(s@.skip(p3 as int).len() < cur.len());
                    assert(spec_parse_interceptor_items(cur) == (
                    match spec_parse_interceptor_items(s@.skip(p3 as int)) {
                        Some((vs, rem)) => Some((seq![vv] + vs, rem)),
                        None => None::<(Seq<(Method, int, Seq<char>)>, Seq<char>)>,
                    }));
                    interceptor_items_step(whole, cur, s@.skip(p3 as int), accv, vv);
                }
                i = p3;
            },
            None => {
                match expect(s, p2, "]") {
                    Some(p4) => {
                        proof {
                            assert(spec_parse_interceptor_items(cur) == Some(
                                (seq![vv], s@.skip(p4 as int)),
                            ));
                            assert(accv + seq![vv] =~= crate::middleware::interceptor_views(acc@));
                        }
                        return Some((acc, p4));
                    },
                    None => { return None; },
                }
            },
        }
    }
}

proof fn lemma_interceptor_array_roundtrip(vs: Seq<(Method, int, Seq<char>)>, t: Seq<char>)
    requires
        forall|i: int| 0 <= i < vs.len() ==> 0 <= (#[trigger] vs[i]).1 <= 65535,
    ensures
        spec_parse_interceptor_array(spec_write_interceptor_array(vs) + t) == Some((vs, t)),
{
    reveal_strlit("[");
    reveal_strlit("]");
    reveal_strlit(",");
    let input = spec_write_interceptor_array(vs) + t;
    if vs.len() == 0 {
        assert(input =~= "["@ + ("]"@ + t));
        crate::json::lemma_expect_roundtrip("["@, "]"@ + t);
        crate::json::lemma_expect_roundtrip("]"@, t);
    } else {
        let body = spec_write_interceptor_items(vs) + ("]"@ + t);
        assert(input =~= "["@ + body);
        crate::json::lemma_expect_roundtrip("["@, body);
        assert(body[0] == spec_write_interceptor(vs[0])[0]);
        assert(spec_write_interceptor(vs[0])[0] == '{') by {
            reveal_strlit("{\"method\":");
            assert(spec_write_interceptor(vs[0])[0] == "{\"method\":"@[0]);
        }
        assert(spec_expect("]"@, body) is None) by {
            if crate::strutil::spec_starts_with(body, "]"@) {
                assert(body.subrange(0, 1)[0] == body[0]);
            }
        }
        lemma_interceptor_items_roundtrip(vs, t);
    }
}

#[verifier::rlimit(50)]
proof fn lemma_interceptor_items_roundtrip(vs: Seq<(Method, int, Seq<char>)>, t: Seq<char>)
    requires
        vs.len() > 0,
        forall|i: int| 0 <= i < vs.len() ==> 0 <= (#[trigger] vs[i]).1 <= 65535,
    ensures
        spec_parse_interceptor_items(spec_write_interceptor_items(vs) + ("]"@ + t)) == Some((vs, t)),
    decreases vs.len(),
{
    reveal_strlit("]");
    reveal_strlit(",");
    let input = spec_write_interceptor_items(vs) + ("]"@ + t);
    if vs.len() == 1 {
        assert(input =~= spec_write_interceptor(vs[0]) + ("]"@ + t));
        lemma_interceptor_roundtrip(vs[0], "]"@ + t);
        assert(("]"@ + t)[0] == ']');
        assert(spec_expect(","@, "]"@ + t) is None) by {
            if crate::strutil::spec_starts_with("]"@ + t, ","@) {
                assert(("]"@ + t).subrange(0, 1)[0] == ("]"@ + t)[0]);
            }
        }
        crate::json::lemma_expect_roundtrip("]"@, t);
        assert(seq![vs[0]] =~= vs);
    } else {
        let rest_items = spec_write_interceptor_items(vs.drop_first());
        assert(input =~= spec_write_interceptor(vs[0]) + (","@ + (rest_items + ("]"@ + t))));
        lemma_interceptor_roundtrip(vs[0], ","@ + (rest_items + ("]"@ + t)));
        let r1 = ","@ + (rest_items + ("]"@ + t));
        assert(r1[0] == ',');
        crate::json::lemma_expect_roundtrip(","@, rest_items + ("]"@ + t));
        assert forall|i: int| 0 <= i < vs.drop_first().len() implies 0 <= (
        #[trigger] vs.drop_first()[i]).1 <= 65535 by {
            assert(vs.drop_first()[i] == vs[i + 1]);
        }
        lemma_interceptor_items_roundtrip(vs.drop_first(), t);
        assert((rest_items + ("]"@ + t)).len() < input.len());
        assert(seq![vs[0]] + vs.drop_first() =~= vs);
    }
}


// ---------------------------------------------------------------------------
// Pattern lists
// ---------------------------------------------------------------------------
pub open spec fn spec_write_pattern_items(vs: Seq<Seq<char>>) -> Seq<char>
    decreases vs.len(),
{
    if vs.len() == 0 {
        Seq::empty()
    } else if vs.len() == 1 {
        spec_string_token(vs[0])
    } else {
        spec_string_token(vs[0]) + ","@ + spec_write_pattern_items(vs.drop_first())
    }
}

pub open spec fn spec_write_pattern_array(vs: Seq<Seq<char>>) -> Seq<char> {
    "["@ + spec_write_pattern_items(vs) + "]"@
}

fn write_pattern_array_into(out: &mut String, xs: &Vec<String>)
    ensures
        final(out)@ == old(out)@ + spec_write_pattern_array(crate::middleware::flag_views(xs@)),
{
    let ghost vs = crate::middleware::flag_views(xs@);
    out.append("[");
    let ghost start = out@;
    let n = xs.len();
    let mut i: usize = 0;
    proof {
        assert(vs.skip(0) =~= vs);
    }
    while i < n
        invariant
            0 <= i <= n,
            n == xs@.len(),
            vs == crate::middleware::flag_views(xs@),
            start + spec_write_pattern_items(vs) =~= out@ + spec_write_pattern_items(vs.skip(i as int)),
        decreases n - i,
    {
        let ghost rem = vs.skip(i as int);
        proof {
            assert(rem[0] == vs[i as int]);
            assert(rem.drop_first() =~= vs.skip(i + 1));
        }
        write_string_token(out, xs[i].as_str());
        if i + 1 < n {
            out.append(",");
            proof {
                assert(rem.len() > 1);
                assert(start + spec_write_pattern_items(vs) =~= out@ + spec_write_pattern_items(
                    vs.skip(i + 1),
                ));
            }
        } else {
            proof {
                assert(rem.len() == 1);
                assert(vs.skip(i + 1) =~= Seq::<Seq<char>>::empty());
                assert(start + spec_write_pattern_items(vs) =~= out@ + spec_write_pattern_items(
                    vs.skip(i + 1),
                ));
            }
        }
        i += 1;
    }
    proof {
        assert(vs.skip(n as int) =~= Seq::<Seq<char>>::empty());
    }
    out.append("]");
    proof {
        assert(final(out)@ =~= old(out)@ + spec_write_pattern_array(vs));
    }
}

pub open spec fn spec_parse_pattern_items(s: Seq<char>) -> Option<(Seq<Seq<char>>, Seq<char>)>
    decreases s.len(),
{
    match spec_parse_string(s) {
        None => None,
        Some((v, r1)) => match spec_expect(","@, r1) {
            Some(r2) => if r2.len() < s.len() {
                match spec_parse_pattern_items(r2) {
                    Some((vs, r3)) => Some((seq![v] + vs, r3)),
                    None => None,
                }
            } else {
                None
            },
            None => match spec_expect("]"@, r1) {
                Some(r2) => Some((seq![v], r2)),
                None => None,
            },
        },
    }
}

pub open spec fn spec_parse_pattern_array(s: Seq<char>) -> Option<(Seq<Seq<char>>, Seq<char>)> {
    match spec_expect("["@, s) {
        None => None,
        Some(s1) => match spec_expect("]"@, s1) {
            Some(s2) => Some((Seq::empty(), s2)),
            None => spec_parse_pattern_items(s1),
        },
    }
}

pub open spec fn pattern_items_invariant(whole: Seq<char>, cur: Seq<char>, acc: Seq<Seq<char>>) -> bool {
    match spec_parse_pattern_items(cur) {
        Some((vs, rem)) => spec_parse_pattern_items(whole) == Some((acc + vs, rem)),
        None => spec_parse_pattern_items(whole) is None,
    }
}

proof fn pattern_items_invariant_init(whole: Seq<char>)
    ensures
        pattern_items_invariant(whole, whole, Seq::empty()),
{
    match spec_parse_pattern_items(whole) {
        Some((vs, rem)) => {
            assert(Seq::<Seq<char>>::empty() + vs =~= vs);
        },
        None => {},
    }
}

proof fn pattern_items_step(whole: Seq<char>, cur: Seq<char>, nxt: Seq<char>, acc: Seq<Seq<char>>, v: Seq<char>)
    requires
        pattern_items_invariant(whole, cur, acc),
        spec_parse_pattern_items(cur) == (match spec_parse_pattern_items(nxt) {
            Some((vs, rem)) => Some((seq![v] + vs, rem)),
            None => None::<(Seq<Seq<char>>, Seq<char>)>,
        }),
    ensures
        pattern_items_invariant(whole, nxt, acc.push(v)),
{
    match spec_parse_pattern_items(nxt) {
        Some((vs, rem)) => {
            assert(acc + (seq![v] + vs) =~= acc.push(v) + vs);
        },
        None => {},
    }
}

fn parse_pattern_array(s: &str, pos: usize) -> (r: Option<(Vec<String>, usize)>)
    requires
        pos <= s@.len(),
    ensures
        match r {
            Some((v, next)) => pos <= next <= s@.len() && spec_parse_pattern_array(
                s@.skip(pos as int),
            ) == Some((crate::middleware::flag_views(v@), s@.skip(next as int))),
            None => spec_parse_pattern_array(s@.skip(pos as int)) is None,
        },
{
    let p1 = match expect(s, pos, "[") {
        Some(p) => p,
        None => { return None; },
    };
    match expect(s, p1, "]") {
        Some(p2) => {
            let out: Vec<String> = Vec::new();
            proof {
                assert(crate::middleware::flag_views(out@) =~= Seq::<Seq<char>>::empty());
            }
            return Some((out, p2));
        },
        None => {},
    }
    let ghost whole = s@.skip(p1 as int);
    let mut acc: Vec<String> = Vec::new();
    let mut i = p1;
    proof {
        pattern_items_invariant_init(whole);
        assert(crate::middleware::flag_views(acc@) =~= Seq::<Seq<char>>::empty());
    }
    loop
        invariant
            p1 <= i <= s@.len(),
            whole == s@.skip(p1 as int),
            pos <= p1 <= s@.len(),
            spec_expect("["@, s@.skip(pos as int)) == Some(whole),
            spec_expect("]"@, whole) is None,
            pattern_items_invariant(whole, s@.skip(i as int), crate::middleware::flag_views(acc@)),
        decreases s@.len() - i,
    {
        let ghost cur = s@.skip(i as int);
        let (v, p2) = match parse_string(s, i) {
            Some(v) => v,
            None => { return None; },
        };
        let ghost vv = v@;
        let ghost accv = crate::middleware::flag_views(acc@);
        acc.push(v);
        proof {
            assert(crate::middleware::flag_views(acc@) =~= accv.push(vv));
        }
        match expect(s, p2, ",") {
            Some(p3) => {
                proof {
                    reveal_strlit(",");
                    assert(p3 == p2 + 1 && p2 >= i);
                    assert(s@.skip(p3 as int).len() < cur.len());
                    assert(spec_parse_pattern_items(cur) == (
                    match spec_parse_pattern_items(s@.skip(p3 as int)) {
                        Some((vs, rem)) => Some((seq![vv] + vs, rem)),
                        None => None::<(Seq<Seq<char>>, Seq<char>)>,
                    }));
                    pattern_items_step(whole, cur, s@.skip(p3 as int), accv, vv);
                }
                i = p3;
            },
            None => {
                match expect(s, p2, "]") {
                    Some(p4) => {
                        proof {
                            assert(spec_parse_pattern_items(cur) == Some(
                                (seq![vv], s@.skip(p4 as int)),
                            ));
                            assert(accv + seq![vv] =~= crate::middleware::flag_views(acc@));
                        }
                        return Some((acc, p4));
                    },
                    None => { return None; },
                }
            },
        }
    }
}

proof fn lemma_pattern_array_roundtrip(vs: Seq<Seq<char>>, t: Seq<char>)
    requires
        true,
    ensures
        spec_parse_pattern_array(spec_write_pattern_array(vs) + t) == Some((vs, t)),
{
    reveal_strlit("[");
    reveal_strlit("]");
    reveal_strlit(",");
    let input = spec_write_pattern_array(vs) + t;
    if vs.len() == 0 {
        assert(input =~= "["@ + ("]"@ + t));
        crate::json::lemma_expect_roundtrip("["@, "]"@ + t);
        crate::json::lemma_expect_roundtrip("]"@, t);
    } else {
        let body = spec_write_pattern_items(vs) + ("]"@ + t);
        assert(input =~= "["@ + body);
        crate::json::lemma_expect_roundtrip("["@, body);
        assert(body[0] == spec_string_token(vs[0])[0]);
        assert(spec_string_token(vs[0])[0] == '"');
        assert(spec_expect("]"@, body) is None) by {
            if crate::strutil::spec_starts_with(body, "]"@) {
                assert(body.subrange(0, 1)[0] == body[0]);
            }
        }
        lemma_pattern_items_roundtrip(vs, t);
    }
}

#[verifier::rlimit(50)]
proof fn lemma_pattern_items_roundtrip(vs: Seq<Seq<char>>, t: Seq<char>)
    requires
        vs.len() > 0,
        true,
    ensures
        spec_parse_pattern_items(spec_write_pattern_items(vs) + ("]"@ + t)) == Some((vs, t)),
    decreases vs.len(),
{
    reveal_strlit("]");
    reveal_strlit(",");
    let input = spec_write_pattern_items(vs) + ("]"@ + t);
    if vs.len() == 1 {
        assert(input =~= spec_string_token(vs[0]) + ("]"@ + t));
        crate::json::lemma_parse_string_roundtrip(vs[0], "]"@ + t);
        assert(("]"@ + t)[0] == ']');
        assert(spec_expect(","@, "]"@ + t) is None) by {
            if crate::strutil::spec_starts_with("]"@ + t, ","@) {
                assert(("]"@ + t).subrange(0, 1)[0] == ("]"@ + t)[0]);
            }
        }
        crate::json::lemma_expect_roundtrip("]"@, t);
        assert(seq![vs[0]] =~= vs);
    } else {
        let rest_items = spec_write_pattern_items(vs.drop_first());
        assert(input =~= spec_string_token(vs[0]) + (","@ + (rest_items + ("]"@ + t))));
        crate::json::lemma_parse_string_roundtrip(vs[0], ","@ + (rest_items + ("]"@ + t)));
        let r1 = ","@ + (rest_items + ("]"@ + t));
        assert(r1[0] == ',');
        crate::json::lemma_expect_roundtrip(","@, rest_items + ("]"@ + t));
        
        lemma_pattern_items_roundtrip(vs.drop_first(), t);
        assert((rest_items + ("]"@ + t)).len() < input.len());
        assert(seq![vs[0]] + vs.drop_first() =~= vs);
    }
}


// ---------------------------------------------------------------------------
// Puppet lists
// ---------------------------------------------------------------------------
pub open spec fn spec_write_puppets_items(vs: Seq<(Seq<char>, Seq<char>)>) -> Seq<char>
    decreases vs.len(),
{
    if vs.len() == 0 {
        Seq::empty()
    } else if vs.len() == 1 {
        spec_write_puppet(vs[0])
    } else {
        spec_write_puppet(vs[0]) + ","@ + spec_write_puppets_items(vs.drop_first())
    }
}

pub open spec fn spec_write_puppets_array(vs: Seq<(Seq<char>, Seq<char>)>) -> Seq<char> {
    "{"@ + spec_write_puppets_items(vs) + "}"@
}

fn write_puppets_array_into(out: &mut String, xs: &Vec<(String, String)>)
    ensures
        final(out)@ == old(out)@ + spec_write_puppets_array(crate::middleware::puppet_views(xs@)),
{
    let ghost vs = crate::middleware::puppet_views(xs@);
    out.append("{");
    let ghost start = out@;
    let n = xs.len();
    let mut i: usize = 0;
    proof {
        assert(vs.skip(0) =~= vs);
    }
    while i < n
        invariant
            0 <= i <= n,
            n == xs@.len(),
            vs == crate::middleware::puppet_views(xs@),
            start + spec_write_puppets_items(vs) =~= out@ + spec_write_puppets_items(vs.skip(i as int)),
        decreases n - i,
    {
        let ghost rem = vs.skip(i as int);
        proof {
            assert(rem[0] == vs[i as int]);
            assert(rem.drop_first() =~= vs.skip(i + 1));
        }
        write_puppet_into(out, &xs[i]);
        if i + 1 < n {
            out.append(",");
            proof {
                assert(rem.len() > 1);
                assert(start + spec_write_puppets_items(vs) =~= out@ + spec_write_puppets_items(
                    vs.skip(i + 1),
                ));
            }
        } else {
            proof {
                assert(rem.len() == 1);
                assert(vs.skip(i + 1) =~= Seq::<(Seq<char>, Seq<char>)>::empty());
                assert(start + spec_write_puppets_items(vs) =~= out@ + spec_write_puppets_items(
                    vs.skip(i + 1),
                ));
            }
        }
        i += 1;
    }
    proof {
        assert(vs.skip(n as int) =~= Seq::<(Seq<char>, Seq<char>)>::empty());
    }
    out.append("}");
    proof {
        assert(final(out)@ =~= old(out)@ + spec_write_puppets_array(vs));
    }
}

pub open spec fn spec_parse_puppets_items(s: Seq<char>) -> Option<(Seq<(Seq<char>, Seq<char>)>, Seq<char>)>
    decreases s.len(),
{
    match spec_parse_puppet(s) {
        None => None,
        Some((v, r1)) => match spec_expect(","@, r1) {
            Some(r2) => if r2.len() < s.len() {
                match spec_parse_puppets_items(r2) {
                    Some((vs, r3)) => Some((seq![v] + vs, r3)),
                    None => None,
                }
            } else {
                None
            },
            None => match spec_expect("}"@, r1) {
                Some(r2) => Some((seq![v], r2)),
                None => None,
            },
        },
    }
}

pub open spec fn spec_parse_puppets_array(s: Seq<char>) -> Option<(Seq<(Seq<char>, Seq<char>)>, Seq<char>)> {
    match spec_expect("{"@, s) {
        None => None,
        Some(s1) => match spec_expect("}"@, s1) {
            Some(s2) => Some((Seq::empty(), s2)),
            None => spec_parse_puppets_items(s1),
        },
    }
}

pub open spec fn puppets_items_invariant(whole: Seq<char>, cur: Seq<char>, acc: Seq<(Seq<char>, Seq<char>)>) -> bool {
    match spec_parse_puppets_items(cur) {
        Some((vs, rem)) => spec_parse_puppets_items(whole) == Some((acc + vs, rem)),
        None => spec_parse_puppets_items(whole) is None,
    }
}

proof fn puppets_items_invariant_init(whole: Seq<char>)
    ensures
        puppets_items_invariant(whole, whole, Seq::empty()),
{
    match spec_parse_puppets_items(whole) {
        Some((vs, rem)) => {
            assert(Seq::<(Seq<char>, Seq<char>)>::empty() + vs =~= vs);
        },
        None => {},
    }
}

proof fn puppets_items_step(whole: Seq<char>, cur: Seq<char>, nxt: Seq<char>, acc: Seq<(Seq<char>, Seq<char>)>, v: (Seq<char>, Seq<char>))
    requires
        puppets_items_invariant(whole, cur, acc),
        spec_parse_puppets_items(cur) == (match spec_parse_puppets_items(nxt) {
            Some((vs, rem)) => Some((seq![v] + vs, rem)),
            None => None::<(Seq<(Seq<char>, Seq<char>)>, Seq<char>)>,
        }),
    ensures
        puppets_items_invariant(whole, nxt, acc.push(v)),
{
    match spec_parse_puppets_items(nxt) {
        Some((vs, rem)) => {
            assert(acc + (seq![v] + vs) =~= acc.push(v) + vs);
        },
        None => {},
    }
}

fn parse_puppets_array(s: &str, pos: usize) -> (r: Option<(Vec<(String, String)>, usize)>)
    requires
        pos <= s@.len(),
    ensures
        match r {
            Some((v, next)) => pos <= next <= s@.len() && spec_parse_puppets_array(
                s@.skip(pos as int),
            ) == Some((crate::middleware::puppet_views(v@), s@.skip(next as int))),
            None => spec_parse_puppets_array(s@.skip(pos as int)) is None,
        },
{
    let p1 = match expect(s, pos, "{") {
        Some(p) => p,
        None => { return None; },
    };
    match expect(s, p1, "}") {
        Some(p2) => {
            let out: Vec<(String, String)> = Vec::new();
            proof {
                assert(crate::middleware::puppet_views(out@) =~= Seq::<(Seq<char>, Seq<char>)>::empty());
            }
            return Some((out, p2));
        },
        None => {},
    }
    let ghost whole = s@.skip(p1 as int);
    let mut acc: Vec<(String, String)> = Vec::new();
    let mut i = p1;
    proof {
        puppets_items_invariant_init(whole);
        assert(crate::middleware::puppet_views(acc@) =~= Seq::<(Seq<char>, Seq<char>)>::empty());
    }
    loop
        invariant
            p1 <= i <= s@.len(),
            whole == s@.skip(p1 as int),
            pos <= p1 <= s@.len(),
            spec_expect("{"@, s@.skip(pos as int)) == Some(whole),
            spec_expect("}"@, whole) is None,
            puppets_items_invariant(whole, s@.skip(i as int), crate::middleware::puppet_views(acc@)),
        decreases s@.len() - i,
    {
        let ghost cur = s@.skip(i as int);
        let (v, p2) = match parse_puppet(s, i) {
            Some(v) => v,
            None => { return None; },
        };
        let ghost vv = (v.0@, v.1@);
        let ghost accv = crate::middleware::puppet_views(acc@);
        acc.push(v);
        proof {
            assert(crate::middleware::puppet_views(acc@) =~= accv.push(vv));
        }
        match expect(s, p2, ",") {
            Some(p3) => {
                proof {
                    reveal_strlit(",");
                    assert(p3 == p2 + 1 && p2 >= i);
                    assert(s@.skip(p3 as int).len() < cur.len());
                    assert(spec_parse_puppets_items(cur) == (
                    match spec_parse_puppets_items(s@.skip(p3 as int)) {
                        Some((vs, rem)) => Some((seq![vv] + vs, rem)),
                        None => None::<(Seq<(Seq<char>, Seq<char>)>, Seq<char>)>,
                    }));
                    puppets_items_step(whole, cur, s@.skip(p3 as int), accv, vv);
                }
                i = p3;
            },
            None => {
                match expect(s, p2, "}") {
                    Some(p4) => {
                        proof {
                            assert(spec_parse_puppets_items(cur) == Some(
                                (seq![vv], s@.skip(p4 as int)),
                            ));
                            assert(accv + seq![vv] =~= crate::middleware::puppet_views(acc@));
                        }
                        return Some((acc, p4));
                    },
                    None => { return None; },
                }
            },
        }
    }
}

proof fn lemma_puppets_array_roundtrip(vs: Seq<(Seq<char>, Seq<char>)>, t: Seq<char>)
    requires
        true,
    ensures
        spec_parse_puppets_array(spec_write_puppets_array(vs) + t) == Some((vs, t)),
{
    reveal_strlit("{");
    reveal_strlit("}");
    reveal_strlit(",");
    let input = spec_write_puppets_array(vs) + t;
    if vs.len() == 0 {
        assert(input =~= "{"@ + ("}"@ + t));
        crate::json::lemma_expect_roundtrip("{"@, "}"@ + t);
        crate::json::lemma_expect_roundtrip("}"@, t);
    } else {
        let body = spec_write_puppets_items(vs) + ("}"@ + t);
        assert(input =~= "{"@ + body);
        crate::json::lemma_expect_roundtrip("{"@, body);
        assert(body[0] == spec_write_puppet(vs[0])[0]);
        assert(spec_write_puppet(vs[0])[0] == '"');
        assert(spec_expect("}"@, body) is None) by {
            if crate::strutil::spec_starts_with(body, "}"@) {
                assert(body.subrange(0, 1)[0] == body[0]);
            }
        }
        lemma_puppets_items_roundtrip(vs, t);
    }
}

#[verifier::rlimit(50)]
proof fn lemma_puppets_items_roundtrip(vs: Seq<(Seq<char>, Seq<char>)>, t: Seq<char>)
    requires
        vs.len() > 0,
        true,
    ensures
        spec_parse_puppets_items(spec_write_puppets_items(vs) + ("}"@ + t)) == Some((vs, t)),
    decreases vs.len(),
{
    reveal_strlit("}");
    reveal_strlit(",");
    let input = spec_write_puppets_items(vs) + ("}"@ + t);
    if vs.len() == 1 {
        assert(input =~= spec_write_puppet(vs[0]) + ("}"@ + t));
        lemma_puppet_roundtrip(vs[0], "}"@ + t);
        assert(("}"@ + t)[0] == '}');
        assert(spec_expect(","@, "}"@ + t) is None) by {
            if crate::strutil::spec_starts_with("}"@ + t, ","@) {
                assert(("}"@ + t).subrange(0, 1)[0] == ("}"@ + t)[0]);
            }
        }
        crate::json::lemma_expect_roundtrip("}"@, t);
        assert(seq![vs[0]] =~= vs);
    } else {
        let rest_items = spec_write_puppets_items(vs.drop_first());
        assert(input =~= spec_write_puppet(vs[0]) + (","@ + (rest_items + ("}"@ + t))));
        lemma_puppet_roundtrip(vs[0], ","@ + (rest_items + ("}"@ + t)));
        let r1 = ","@ + (rest_items + ("}"@ + t));
        assert(r1[0] == ',');
        crate::json::lemma_expect_roundtrip(","@, rest_items + ("}"@ + t));
        
        lemma_puppets_items_roundtrip(vs.drop_first(), t);
        assert((rest_items + ("}"@ + t)).len() < input.len());
        assert(seq![vs[0]] + vs.drop_first() =~= vs);
    }
}

// ---------------------------------------------------------------------------
// Credentials, guards and meta
// ---------------------------------------------------------------------------
/// The written form of hashed credentials; an absent password is `null`.
pub open spec fn spec_write_credentials(v: (Seq<char>, Option<Seq<char>>)) -> Seq<char> {
    "{\"username\":"@ + spec_string_token(v.0) + ",\"password\":"@ + (match v.1 {
        None => "null"@,
        Some(p) => spec_string_token(p),
    }) + "}"@
}

fn write_credentials_into(out: &mut String, c: &AuthCredentials)
    ensures
        final(out)@ == old(out)@ + spec_write_credentials(
            (
                c.username@,
                match c.password {
                    Some(p) => Some(p@),
                    None => None,
                },
            ),
        ),
{
    out.append("{\"username\":");
    write_string_token(out, c.username.as_str());
    out.append(",\"password\":");
    match &c.password {
        None => out.append("null"),
        Some(p) => write_string_token(out, p.as_str()),
    }
    out.append("}");
    proof {
        assert(final(out)@ =~= old(out)@ + spec_write_credentials(
            (
                c.username@,
                match c.password {
                    Some(p) => Some(p@),
                    None => None,
                },
            ),
        ));
    }
}

pub open spec fn spec_parse_credentials(s: Seq<char>) -> Option<
    ((Seq<char>, Option<Seq<char>>), Seq<char>),
> {
    match spec_expect("{\"username\":"@, s) {
        None => None,
        Some(s1) => match spec_parse_string(s1) {
            None => None,
            Some((u, s2)) => match spec_expect(",\"password\":"@, s2) {
                None => None,
                Some(s3) => match spec_expect("null"@, s3) {
                    Some(s4) => match spec_expect("}"@, s4) {
                        None => None,
                        Some(s5) => Some(((u, None), s5)),
                    },
                    None => match spec_parse_string(s3) {
                        None => None,
                        Some((p, s4)) => match spec_expect("}"@, s4) {
                            None => None,
                            Some(s5) => Some(((u, Some(p)), s5)),
                        },
                    },
                },
            },
        },
    }
}

fn parse_credentials(s: &str, pos: usize) -> (r: Option<(AuthCredentials, usize)>)
    requires
        pos <= s@.len(),
    ensures
        match r {
            Some((v, next)) => pos <= next <= s@.len() && spec_parse_credentials(
                s@.skip(pos as int),
            ) == Some(
                (
                    (
                        v.username@,
                        match v.password {
                            Some(p) => Some(p@),
                            None => None,
                        },
                    ),
                    s@.skip(next as int),
                ),
            ),
            None => spec_parse_credentials(s@.skip(pos as int)) is None,
        },
{
    let p1 = match expect(s, pos, "{\"username\":") {
        Some(p) => p,
        None => { return None; },
    };
    let (username, p2) = match parse_string(s, p1) {
        Some(v) => v,
        None => { return None; },
    };
    let p3 = match expect(s, p2, ",\"password\":") {
        Some(p) => p,
        None => { return None; },
    };
    match expect(s, p3, "null") {
        Some(p4) => {
            let p5 = match expect(s, p4, "}") {
                Some(p) => p,
                None => { return None; },
            };
            Some((AuthCredentials { username, password: None }, p5))
        },
        None => {
            let (pw, p4) = match parse_string(s, p3) {
                Some(v) => v,
                None => { return None; },
            };
            let p5 = match expect(s, p4, "}") {
                Some(p) => p,
                None => { return None; },
            };
            Some((AuthCredentials { username, password: Some(pw) }, p5))
        },
    }
}

proof fn lemma_credentials_roundtrip(v: (Seq<char>, Option<Seq<char>>), t: Seq<char>)
    ensures
        spec_parse_credentials(spec_write_credentials(v) + t) == Some((v, t)),
{
    reveal_strlit("null");
    reveal_strlit("}");
    let k1 = "{\"username\":"@;
    let k2 = ",\"password\":"@;
    let k3 = "}"@;
    let st1 = spec_string_token(v.0);
    let input = spec_write_credentials(v) + t;
    match v.1 {
        None => {
            let r1 = st1 + (k2 + ("null"@ + (k3 + t)));
            assert(input =~= k1 + r1);
            crate::json::lemma_expect_roundtrip(k1, r1);
            let r2 = k2 + ("null"@ + (k3 + t));
            assert(r1 =~= st1 + r2);
            crate::json::lemma_parse_string_roundtrip(v.0, r2);
            let r3 = "null"@ + (k3 + t);
            assert(r2 =~= k2 + r3);
            crate::json::lemma_expect_roundtrip(k2, r3);
            crate::json::lemma_expect_roundtrip("null"@, k3 + t);
            crate::json::lemma_expect_roundtrip(k3, t);
        },
        Some(pw) => {
            let st2 = spec_string_token(pw);
            let r1 = st1 + (k2 + (st2 + (k3 + t)));
            assert(input =~= k1 + r1);
            crate::json::lemma_expect_roundtrip(k1, r1);
            let r2 = k2 + (st2 + (k3 + t));
            assert(r1 =~= st1 + r2);
            crate::json::lemma_parse_string_roundtrip(v.0, r2);
            let r3 = st2 + (k3 + t);
            assert(r2 =~= k2 + r3);
            crate::json::lemma_expect_roundtrip(k2, r3);
            assert(r3[0] == '"');
            assert(spec_expect("null"@, r3) is None) by {
                if crate::strutil::spec_starts_with(r3, "null"@) {
                    assert(r3.subrange(0, 4)[0] == r3[0]);
                }
            }
            let r4 = k3 + t;
            assert(r3 =~= st2 + r4);
            crate::json::lemma_parse_string_roundtrip(pw, r4);
            crate::json::lemma_expect_roundtrip(k3, t);
        },
    }
}

/// The written form of one guard.
pub open spec fn spec_write_guard(v: (Seq<char>, Option<Seq<char>>, Seq<Seq<char>>)) -> Seq<char> {
    "{\"credentials\":"@ + spec_write_credentials((v.0, v.1))
        + ",\"scheme\":\"basic\",\"patterns\":"@ + spec_write_pattern_array(v.2) + "}"@
}

fn write_guard_into(out: &mut String, g: &Guard)
    ensures
        final(out)@ == old(out)@ + spec_write_guard(guard_view(*g)),
{
    out.append("{\"credentials\":");
    write_credentials_into(out, &g.credentials);
    out.append(",\"scheme\":\"basic\",\"patterns\":");
    write_pattern_array_into(out, &g.patterns);
    out.append("}");
    proof {
        assert(final(out)@ =~= old(out)@ + spec_write_guard(guard_view(*g)));
    }
}

pub open spec fn spec_parse_guard(s: Seq<char>) -> Option<
    ((Seq<char>, Option<Seq<char>>, Seq<Seq<char>>), Seq<char>),
> {
    match spec_expect("{\"credentials\":"@, s) {
        None => None,
        Some(s1) => match spec_parse_credentials(s1) {
            None => None,
            Some((c, s2)) => match spec_expect(",\"scheme\":\"basic\",\"patterns\":"@, s2) {
                None => None,
                Some(s3) => match spec_parse_pattern_array(s3) {
                    None => None,
                    Some((ps, s4)) => match spec_expect("}"@, s4) {
                        None => None,
                        Some(s5) => Some(((c.0, c.1, ps), s5)),
                    },
                },
            },
        },
    }
}

fn parse_guard(s: &str, pos: usize) -> (r: Option<(Guard, usize)>)
    requires
        pos <= s@.len(),
    ensures
        match r {
            Some((v, next)) => pos <= next <= s@.len() && spec_parse_guard(s@.skip(pos as int))
                == Some((guard_view(v), s@.skip(next as int))),
            None => spec_parse_guard(s@.skip(pos as int)) is None,
        },
{
    let p1 = match expect(s, pos, "{\"credentials\":") {
        Some(p) => p,
        None => { return None; },
    };
    let (credentials, p2) = match parse_credentials(s, p1) {
        Some(v) => v,
        None => { return None; },
    };
    let p3 = match expect(s, p2, ",\"scheme\":\"basic\",\"patterns\":") {
        Some(p) => p,
        None => { return None; },
    };
    let (patterns, p4) = match parse_pattern_array(s, p3) {
        Some(v) => v,
        None => { return None; },
    };
    let p5 = match expect(s, p4, "}") {
        Some(p) => p,
        None => { return None; },
    };
    Some((Guard { credentials, scheme: AuthScheme::Basic, patterns }, p5))
}

proof fn lemma_guard_roundtrip(v: (Seq<char>, Option<Seq<char>>, Seq<Seq<char>>), t: Seq<char>)
    ensures
        spec_parse_guard(spec_write_guard(v) + t) == Some((v, t)),
{
    reveal_strlit("}");
    let k1 = "{\"credentials\":"@;
    let k2 = ",\"scheme\":\"basic\",\"patterns\":"@;
    let k3 = "}"@;
    let cr = spec_write_credentials((v.0, v.1));
    let pa = spec_write_pattern_array(v.2);
    let input = spec_write_guard(v) + t;
    let r1 = cr + (k2 + (pa + (k3 + t)));
    assert(input =~= k1 + r1);
    crate::json::lemma_expect_roundtrip(k1, r1);
    let r2 = k2 + (pa + (k3 + t));
    assert(r1 =~= cr + r2);
    lemma_credentials_roundtrip((v.0, v.1), r2);
    let r3 = pa + (k3 + t);
    assert(r2 =~= k2 + r3);
    crate::json::lemma_expect_roundtrip(k2, r3);
    let r4 = k3 + t;
    assert(r3 =~= pa + r4);
    lemma_pattern_array_roundtrip(v.2, r4);
    crate::json::lemma_expect_roundtrip(k3, t);
    assert((v.0, v.1, v.2) == v);
}

/// The written form of the meta field: `null`, or an object naming the
/// recognized framework (or `null` when none is recognized).
pub open spec fn spec_write_meta(v: Option<Option<Technology>>) -> Seq<char> {
    match v {
        None => "null"@,
        Some(inner) => "{\"technology\":"@ + (match inner {
            None => "null"@,
            Some(tech) => spec_string_token(spec_technology_name(tech)),
        }) + "}"@,
    }
}

fn write_meta_into(out: &mut String, m: &Option<Meta>)
    ensures
        final(out)@ == old(out)@ + spec_write_meta(meta_view(*m)),
{
    match m {
        None => out.append("null"),
        Some(meta) => {
            out.append("{\"technology\":");
            match &meta.technology {
                None => out.append("null"),
                Some(tech) => write_string_token(out, technology_name(tech)),
            }
            out.append("}");
            proof {
                assert(final(out)@ =~= old(out)@ + spec_write_meta(meta_view(*m)));
            }
        },
    }
}

pub open spec fn meta_view(m: Option<Meta>) -> Option<Option<Technology>> {
    match m {
        None => None,
        Some(meta) => Some(meta.technology),
    }
}

pub open spec fn spec_parse_meta(s: Seq<char>) -> Option<(Option<Option<Technology>>, Seq<char>)> {
    match spec_expect("null"@, s) {
        Some(s1) => Some((None, s1)),
        None => match spec_expect("{\"technology\":"@, s) {
            None => None,
            Some(s1) => match spec_expect("null"@, s1) {
                Some(s2) => match spec_expect("}"@, s2) {
                    None => None,
                    Some(s3) => Some((Some(None), s3)),
                },
                None => match spec_parse_string(s1) {
                    None => None,
                    Some((name, s2)) => match spec_technology_of(name) {
                        None => None,
                        Some(tech) => match spec_expect("}"@, s2) {
                            None => None,
                            Some(s3) => Some((Some(Some(tech)), s3)),
                        },
                    },
                },
            },
        },
    }
}

fn parse_meta(s: &str, pos: usize) -> (r: Option<(Option<Meta>, usize)>)
    requires
        pos <= s@.len(),
    ensures
        match r {
            Some((v, next)) => pos <= next <= s@.len() && spec_parse_meta(s@.skip(pos as int))
                == Some((meta_view(v), s@.skip(next as int))),
            None => spec_parse_meta(s@.skip(pos as int)) is None,
        },
{
    match expect(s, pos, "null") {
        Some(p1) => {
            return Some((None, p1));
        },
        None => {},
    }
    let p1 = match expect(s, pos, "{\"technology\":") {
        Some(p) => p,
        None => { return None; },
    };
    match expect(s, p1, "null") {
        Some(p2) => {
            let p3 = match expect(s, p2, "}") {
                Some(p) => p,
                None => { return None; },
            };
            Some((Some(Meta { technology: None }), p3))
        },
        None => {
            let (name, p2) = match parse_string(s, p1) {
                Some(v) => v,
                None => { return None; },
            };
            let tech = match technology_of(name.as_str()) {
                Some(t) => t,
                None => { return None; },
            };
            let p3 = match expect(s, p2, "}") {
                Some(p) => p,
                None => { return None; },
            };
            Some((Some(Meta { technology: Some(tech) }), p3))
        },
    }
}

proof fn lemma_meta_roundtrip(v: Option<Option<Technology>>, t: Seq<char>)
    ensures
        spec_parse_meta(spec_write_meta(v) + t) == Some((v, t)),
{
    reveal_strlit("null");
    reveal_strlit("{\"technology\":");
    reveal_strlit("}");
    let input = spec_write_meta(v) + t;
    match v {
        None => {
            assert(input =~= "null"@ + t);
            crate::json::lemma_expect_roundtrip("null"@, t);
        },
        Some(inner) => {
            assert(input[0] == '{');
            assert(spec_expect("null"@, input) is None) by {
                if crate::strutil::spec_starts_with(input, "null"@) {
                    assert(input.subrange(0, 4)[0] == input[0]);
                }
            }
            match inner {
                None => {
                    let r1 = "null"@ + ("}"@ + t);
                    assert(input =~= "{\"technology\":"@ + r1);
                    crate::json::lemma_expect_roundtrip("{\"technology\":"@, r1);
                    crate::json::lemma_expect_roundtrip("null"@, "}"@ + t);
                    crate::json::lemma_expect_roundtrip("}"@, t);
                },
                Some(tech) => {
                    let st = spec_string_token(spec_technology_name(tech));
                    let r1 = st + ("}"@ + t);
                    assert(input =~= "{\"technology\":"@ + r1);
                    crate::json::lemma_expect_roundtrip("{\"technology\":"@, r1);
                    assert(r1[0] == '"');
                    assert(spec_expect("null"@, r1) is None) by {
                        if crate::strutil::spec_starts_with(r1, "null"@) {
                            assert(r1.subrange(0, 4)[0] == r1[0]);
                        }
                    }
                    crate::json::lemma_parse_string_roundtrip(spec_technology_name(tech), "}"@ + t);
                    lemma_technology_name_of(tech);
                    crate::json::lemma_expect_roundtrip("}"@, t);
                },
            }
        },
    }
}


// ---------------------------------------------------------------------------
// Guard lists
// ---------------------------------------------------------------------------
pub open spec fn spec_write_guard_items(vs: Seq<(Seq<char>, Option<Seq<char>>, Seq<Seq<char>>)>) -> Seq<char>
    decreases vs.len(),
{
    if vs.len() == 0 {
        Seq::empty()
    } else if vs.len() == 1 {
        spec_write_guard(vs[0])
    } else {
        spec_write_guard(vs[0]) + ","@ + spec_write_guard_items(vs.drop_first())
    }
}

pub open spec fn spec_write_guard_array(vs: Seq<(Seq<char>, Option<Seq<char>>, Seq<Seq<char>>)>) -> Seq<char> {
    "["@ + spec_write_guard_items(vs) + "]"@
}

fn write_guard_array_into(out: &mut String, xs: &Vec<Guard>)
    ensures
        final(out)@ == old(out)@ + spec_write_guard_array(crate::middleware::guard_views(xs@)),
{
    let ghost vs = crate::middleware::guard_views(xs@);
    out.append("[");
    let ghost start = out@;
    let n = xs.len();
    let mut i: usize = 0;
    proof {
        assert(vs.skip(0) =~= vs);
    }
    while i < n
        invariant
            0 <= i <= n,
            n == xs@.len(),
            vs == crate::middleware::guard_views(xs@),
            start + spec_write_guard_items(vs) =~= out@ + spec_write_guard_items(vs.skip(i as int)),
        decreases n - i,
    {
        let ghost rem = vs.skip(i as int);
        proof {
            assert(rem[0] == vs[i as int]);
            assert(rem.drop_first() =~= vs.skip(i + 1));
        }
        write_guard_into(out, &xs[i]);
        if i + 1 < n {
            out.append(",");
            proof {
                assert(rem.len() > 1);
                assert(start + spec_write_guard_items(vs) =~= out@ + spec_write_guard_items(
                    vs.skip(i + 1),
                ));
            }
        } else {
            proof {
                assert(rem.len() == 1);
                assert(vs.skip(i + 1) =~= Seq::<(Seq<char>, Option<Seq<char>>, Seq<Seq<char>>)>::empty());
                assert(start + spec_write_guard_items(vs) =~= out@ + spec_write_guard_items(
                    vs.skip(i + 1),
                ));
            }
        }
        i += 1;
    }
    proof {
        assert(vs.skip(n as int) =~= Seq::<(Seq<char>, Option<Seq<char>>, Seq<Seq<char>>)>::empty());
    }
    out.append("]");
    proof {
        assert(final(out)@ =~= old(out)@ + spec_write_guard_array(vs));
    }
}

pub open spec fn spec_parse_guard_items(s: Seq<char>) -> Option<(Seq<(Seq<char>, Option<Seq<char>>, Seq<Seq<char>>)>, Seq<char>)>
    decreases s.len(),
{
    match spec_parse_guard(s) {
        None => None,
        Some((v, r1)) => match spec_expect(","@, r1) {
            Some(r2) => if r2.len() < s.len() {
                match spec_parse_guard_items(r2) {
                    Some((vs, r3)) => Some((seq![v] + vs, r3)),
                    None => None,
                }
            } else {
                None
            },
            None => match spec_expect("]"@, r1) {
                Some(r2) => Some((seq![v], r2)),
                None => None,
            },
        },
    }
}

pub open spec fn spec_parse_guard_array(s: Seq<char>) -> Option<(Seq<(Seq<char>, Option<Seq<char>>, Seq<Seq<char>>)>, Seq<char>)> {
    match spec_expect("["@, s) {
        None => None,
        Some(s1) => match spec_expect("]"@, s1) {
            Some(s2) => Some((Seq::empty(), s2)),
            None => spec_parse_guard_items(s1),
        },
    }
}

pub open spec fn guard_items_invariant(whole: Seq<char>, cur: Seq<char>, acc: Seq<(Seq<char>, Option<Seq<char>>, Seq<Seq<char>>)>) -> bool {
    match spec_parse_guard_items(cur) {
        Some((vs, rem)) => spec_parse_guard_items(whole) == Some((acc + vs, rem)),
        None => spec_parse_guard_items(whole) is None,
    }
}

proof fn guard_items_invariant_init(whole: Seq<char>)
    ensures
        guard_items_invariant(whole, whole, Seq::empty()),
{
    match spec_parse_guard_items(whole) {
        Some((vs, rem)) => {
            assert(Seq::<(Seq<char>, Option<Seq<char>>, Seq<Seq<char>>)>::empty() + vs =~= vs);
        },
        None => {},
    }
}

proof fn guard_items_step(whole: Seq<char>, cur: Seq<char>, nxt: Seq<char>, acc: Seq<(Seq<char>, Option<Seq<char>>, Seq<Seq<char>>)>, v: (Seq<char>, Option<Seq<char>>, Seq<Seq<char>>))
    requires
        guard_items_invariant(whole, cur, acc),
        spec_parse_guard_items(cur) == (match spec_parse_guard_items(nxt) {
            Some((vs, rem)) => Some((seq![v] + vs, rem)),
            None => None::<(Seq<(Seq<char>, Option<Seq<char>>, Seq<Seq<char>>)>, Seq<char>)>,
        }),
    ensures
        guard_items_invariant(whole, nxt, acc.push(v)),
{
    match spec_parse_guard_items(nxt) {
        Some((vs, rem)) => {
            assert(acc + (seq![v] + vs) =~= acc.push(v) + vs);
        },
        None => {},
    }
}

fn parse_guard_array(s: &str, pos: usize) -> (r: Option<(Vec<Guard>, usize)>)
    requires
        pos <= s@.len(),
    ensures
        match r {
            Some((v, next)) => pos <= next <= s@.len() && spec_parse_guard_array(
                s@.skip(pos as int),
            ) == Some((crate::middleware::guard_views(v@), s@.skip(next as int))),
            None => spec_parse_guard_array(s@.skip(pos as int)) is None,
        },
{
    let p1 = match expect(s, pos, "[") {
        Some(p) => p,
        None => { return None; },
    };
    match expect(s, p1, "]") {
        Some(p2) => {
            let out: Vec<Guard> = Vec::new();
            proof {
                assert(crate::middleware::guard_views(out@) =~= Seq::<(Seq<char>, Option<Seq<char>>, Seq<Seq<char>>)>::empty());
            }
            return Some((out, p2));
        },
        None => {},
    }
    let ghost whole = s@.skip(p1 as int);
    let mut acc: Vec<Guard> = Vec::new();
    let mut i = p1;
    proof {
        guard_items_invariant_init(whole);
        assert(crate::middleware::guard_views(acc@) =~= Seq::<(Seq<char>, Option<Seq<char>>, Seq<Seq<char>>)>::empty());
    }
    loop
        invariant
            p1 <= i <= s@.len(),
            whole == s@.skip(p1 as int),
            pos <= p1 <= s@.len(),
            spec_expect("["@, s@.skip(pos as int)) == Some(whole),
            spec_expect("]"@, whole) is None,
            guard_items_invariant(whole, s@.skip(i as int), crate::middleware::guard_views(acc@)),
        decreases s@.len() - i,
    {
        let ghost cur = s@.skip(i as int);
        let (v, p2) = match parse_guard(s, i) {
            Some(v) => v,
            None => { return None; },
        };
        let ghost vv = guard_view(v);
        let ghost accv = crate::middleware::guard_views(acc@);
        acc.push(v);
        proof {
            assert(crate::middleware::guard_views(acc@) =~= accv.push(vv));
        }
        match expect(s, p2, ",") {
            Some(p3) => {
                proof {
                    reveal_strlit(",");
                    assert(p3 == p2 + 1 && p2 >= i);
                    assert(s@.skip(p3 as int).len() < cur.len());
                    assert(spec_parse_guard_items(cur) == (
                    match spec_parse_guard_items(s@.skip(p3 as int)) {
                        Some((vs, rem)) => Some((seq![vv] + vs, rem)),
                        None => None::<(Seq<(Seq<char>, Option<Seq<char>>, Seq<Seq<char>>)>, Seq<char>)>,
                    }));
                    guard_items_step(whole, cur, s@.skip(p3 as int), accv, vv);
                }
                i = p3;
            },
            None => {
                match expect(s, p2, "]") {
                    Some(p4) => {
                        proof {
                            assert(spec_parse_guard_items(cur) == Some(
                                (seq![vv], s@.skip(p4 as int)),
                            ));
                            assert(accv + seq![vv] =~= crate::middleware::guard_views(acc@));
                        }
                        return Some((acc, p4));
                    },
                    None => { return None; },
                }
            },
        }
    }
}

proof fn lemma_guard_array_roundtrip(vs: Seq<(Seq<char>, Option<Seq<char>>, Seq<Seq<char>>)>, t: Seq<char>)
    requires
        true,
    ensures
        spec_parse_guard_array(spec_write_guard_array(vs) + t) == Some((vs, t)),
{
    reveal_strlit("[");
    reveal_strlit("]");
    reveal_strlit(",");
    let input = spec_write_guard_array(vs) + t;
    if vs.len() == 0 {
        assert(input =~= "["@ + ("]"@ + t));
        crate::json::lemma_expect_roundtrip("["@, "]"@ + t);
        crate::json::lemma_expect_roundtrip("]"@, t);
    } else {
        let body = spec_write_guard_items(vs) + ("]"@ + t);
        assert(input =~= "["@ + body);
        crate::json::lemma_expect_roundtrip("["@, body);
        assert(body[0] == spec_write_guard(vs[0])[0]);
        assert(spec_write_guard(vs[0])[0] == '{') by {
            reveal_strlit("{\"credentials\":");
            assert(spec_write_guard(vs[0])[0] == "{\"credentials\":"@[0]);
        }
        assert(spec_expect("]"@, body) is None) by {
            if crate::strutil::spec_starts_with(body, "]"@) {
                assert(body.subrange(0, 1)[0] == body[0]);
            }
        }
        lemma_guard_items_roundtrip(vs, t);
    }
}

#[verifier::rlimit(50)]
proof fn lemma_guard_items_roundtrip(vs: Seq<(Seq<char>, Option<Seq<char>>, Seq<Seq<char>>)>, t: Seq<char>)
    requires
        vs.len() > 0,
        true,
    ensures
        spec_parse_guard_items(spec_write_guard_items(vs) + ("]"@ + t)) == Some((vs, t)),
    decreases vs.len(),
{
    reveal_strlit("]");
    reveal_strlit(",");
    let input = spec_write_guard_items(vs) + ("]"@ + t);
    if vs.len() == 1 {
        assert(input =~= spec_write_guard(vs[0]) + ("]"@ + t));
        lemma_guard_roundtrip(vs[0], "]"@ + t);
        assert(("]"@ + t)[0] == ']');
        assert(spec_expect(","@, "]"@ + t) is None) by {
            if crate::strutil::spec_starts_with("]"@ + t, ","@) {
                assert(("]"@ + t).subrange(0, 1)[0] == ("]"@ + t)[0]);
            }
        }
        crate::json::lemma_expect_roundtrip("]"@, t);
        assert(seq![vs[0]] =~= vs);
    } else {
        let rest_items = spec_write_guard_items(vs.drop_first());
        assert(input =~= spec_write_guard(vs[0]) + (","@ + (rest_items + ("]"@ + t))));
        lemma_guard_roundtrip(vs[0], ","@ + (rest_items + ("]"@ + t)));
        let r1 = ","@ + (rest_items + ("]"@ + t));
        assert(r1[0] == ',');
        crate::json::lemma_expect_roundtrip(","@, rest_items + ("]"@ + t));
        
        lemma_guard_items_roundtrip(vs.drop_first(), t);
        assert((rest_items + ("]"@ + t)).len() < input.len());
        assert(seq![vs[0]] + vs.drop_first() =~= vs);
    }
}

// ---------------------------------------------------------------------------
// The whole manifest
// ---------------------------------------------------------------------------
/// The mathematical shape of a manifest: every collection as view
/// sequences.
pub ghost struct ConfigView {
    pub meta: Option<Option<Technology>>,
    pub version: int,
    pub functions: Seq<(Seq<char>, Seq<char>)>,
    pub assets: Seq<(Seq<char>, Option<Seq<char>>)>,
    pub puppets: Seq<(Seq<char>, Seq<char>)>,
    pub redirects: Seq<(int, Seq<char>, Seq<char>)>,
    pub guards: Seq<(Seq<char>, Option<Seq<char>>, Seq<Seq<char>>)>,
    pub interceptors: Seq<(Method, int, Seq<char>)>,
}

/// The view of a manifest value.
pub open spec fn config_view(c: ConfigurationFile) -> ConfigView {
    ConfigView {
        meta: meta_view(c.meta),
        version: c.version as int,
        functions: route_views(c.functions@),
        assets: crate::middleware::asset_views(c.assets@),
        puppets: crate::middleware::puppet_views(c.preprocessors.puppets@),
        redirects: crate::middleware::redirect_views(c.preprocessors.redirects@),
        guards: crate::middleware::guard_views(c.preprocessors.guards@),
        interceptors: crate::middleware::interceptor_views(c.postprocessors.interceptors@),
    }
}

/// The first half of the written manifest: meta, version, functions and
/// assets.
pub open spec fn spec_write_config_head(v: ConfigView) -> Seq<char> {
    "{\"meta\":"@ + spec_write_meta(v.meta) + ",\"version\":"@ + spec_u64_digits(v.version as nat)
        + ",\"functions\":"@ + spec_write_route_array(v.functions) + ",\"assets\":"@
        + spec_write_asset_array(v.assets)
}

/// The second half of the written manifest: the middleware sections.
pub open spec fn spec_write_config_tail(v: ConfigView) -> Seq<char> {
    ",\"preprocessors\":{\"puppets\":"@ + spec_write_puppets_array(v.puppets) + ",\"redirects\":"@
        + spec_write_redirect_array(v.redirects) + ",\"guards\":"@ + spec_write_guard_array(
        v.guards,
    ) + "},\"postprocessors\":{\"interceptors\":"@ + spec_write_interceptor_array(v.interceptors)
        + "}}"@
}

/// The written manifest text.
pub open spec fn spec_write_config(v: ConfigView) -> Seq<char> {
    spec_write_config_head(v) + spec_write_config_tail(v)
}

/// Serializes a manifest to its canonical compact JSON text.
#[verifier::rlimit(100)]
pub fn encode_config(c: &ConfigurationFile) -> (r: String)
    ensures
        r@ == spec_write_config(config_view(*c)),
{
    let mut out = String::new();
    out.append("{\"meta\":");
    write_meta_into(&mut out, &c.meta);
    out.append(",\"version\":");
    let digits = u64_to_string(c.version);
    out.append(digits.as_str());
    out.append(",\"functions\":");
    write_route_array_into(&mut out, &c.functions);
    out.append(",\"assets\":");
    write_asset_array_into(&mut out, &c.assets);
    proof {
        assert(out@ =~= spec_write_config_head(config_view(*c)));
    }
    let ghost head_done = out@;
    out.append(",\"preprocessors\":{\"puppets\":");
    write_puppets_array_into(&mut out, &c.preprocessors.puppets);
    out.append(",\"redirects\":");
    write_redirect_array_into(&mut out, &c.preprocessors.redirects);
    out.append(",\"guards\":");
    write_guard_array_into(&mut out, &c.preprocessors.guards);
    out.append("},\"postprocessors\":{\"interceptors\":");
    write_interceptor_array_into(&mut out, &c.postprocessors.interceptors);
    out.append("}}");
    proof {
        assert(out@ =~= head_done + spec_write_config_tail(config_view(*c)));
    }
    out
}

/// The first half of a manifest: meta, version, functions and assets.
pub open spec fn spec_parse_config_head(s: Seq<char>) -> Option<
    (
        (
            Option<Option<Technology>>,
            int,
            Seq<(Seq<char>, Seq<char>)>,
            Seq<(Seq<char>, Option<Seq<char>>)>,
        ),
        Seq<char>,
    ),
> {
    match spec_expect("{\"meta\":"@, s) {
        None => None,
        Some(s1) => match spec_parse_meta(s1) {
            None => None,
            Some((meta, s2)) => match spec_expect(",\"version\":"@, s2) {
                None => None,
                Some(s3) => match spec_parse_number(s3) {
                    None => None,
                    Some((version, s4)) => match spec_expect(",\"functions\":"@, s4) {
                        None => None,
                        Some(s5) => match spec_parse_route_array(s5) {
                            None => None,
                            Some((functions, s6)) => match spec_expect(",\"assets\":"@, s6) {
                                None => None,
                                Some(s7) => match spec_parse_asset_array(s7) {
                                    None => None,
                                    Some((assets, s8)) => Some(
                                        ((meta, version as int, functions, assets), s8),
                                    ),
                                },
                            },
                        },
                    },
                },
            },
        },
    }
}

/// The second half of a manifest: the middleware sections.
pub open spec fn spec_parse_config_tail(s: Seq<char>) -> Option<
    (
        (
            Seq<(Seq<char>, Seq<char>)>,
            Seq<(int, Seq<char>, Seq<char>)>,
            Seq<(Seq<char>, Option<Seq<char>>, Seq<Seq<char>>)>,
            Seq<(Method, int, Seq<char>)>,
        ),
        Seq<char>,
    ),
> {
    match spec_expect(",\"preprocessors\":{\"puppets\":"@, s) {
        None => None,
        Some(s9) => match spec_parse_puppets_array(s9) {
            None => None,
            Some((puppets, s10)) => match spec_expect(",\"redirects\":"@, s10) {
                None => None,
                Some(s11) => match spec_parse_redirect_array(s11) {
                    None => None,
                    Some((redirects, s12)) => match spec_expect(",\"guards\":"@, s12) {
                        None => None,
                        Some(s13) => match spec_parse_guard_array(s13) {
                            None => None,
                            Some((guards, s14)) => match spec_expect(
                                "},\"postprocessors\":{\"interceptors\":"@,
                                s14,
                            ) {
                                None => None,
                                Some(s15) => match spec_parse_interceptor_array(s15) {
                                    None => None,
                                    Some((interceptors, s16)) => match spec_expect("}}"@, s16) {
                                        None => None,
                                        Some(s17) => Some(
                                            ((puppets, redirects, guards, interceptors), s17),
                                        ),
                                    },
                                },
                            },
                        },
                    },
                },
            },
        },
    }
}

/// One whole manifest at the head of the suffix.
pub open spec fn spec_parse_config(s: Seq<char>) -> Option<(ConfigView, Seq<char>)> {
    match spec_parse_config_head(s) {
        None => None,
        Some((h, s8)) => match spec_parse_config_tail(s8) {
            None => None,
            Some((tl, rest)) => Some(
                (
                    ConfigView {
                        meta: h.0,
                        version: h.1,
                        functions: h.2,
                        assets: h.3,
                        puppets: tl.0,
                        redirects: tl.1,
                        guards: tl.2,
                        interceptors: tl.3,
                    },
                    rest,
                ),
            ),
        },
    }
}

/// Parses one manifest at `pos`.
#[verifier::rlimit(100)]
pub fn parse_config(s: &str, pos: usize) -> (r: Option<(ConfigurationFile, usize)>)
    requires
        pos <= s@.len(),
    ensures
        match r {
            Some((v, next)) => pos <= next <= s@.len() && spec_parse_config(s@.skip(pos as int))
                == Some((config_view(v), s@.skip(next as int))),
            None => spec_parse_config(s@.skip(pos as int)) is None,
        },
{
    let p1 = match expect(s, pos, "{\"meta\":") {
        Some(p) => p,
        None => { return None; },
    };
    let (meta, p2) = match parse_meta(s, p1) {
        Some(v) => v,
        None => { return None; },
    };
    let p3 = match expect(s, p2, ",\"version\":") {
        Some(p) => p,
        None => { return None; },
    };
    let (version, p4) = match parse_number(s, p3) {
        Some(v) => v,
        None => { return None; },
    };
    let p5 = match expect(s, p4, ",\"functions\":") {
        Some(p) => p,
        None => { return None; },
    };
    let (functions, p6) = match parse_route_array(s, p5) {
        Some(v) => v,
        None => { return None; },
    };
    let p7 = match expect(s, p6, ",\"assets\":") {
        Some(p) => p,
        None => { return None; },
    };
    let (assets, p8) = match parse_asset_array(s, p7) {
        Some(v) => v,
        None => { return None; },
    };
    let p9 = match expect(s, p8, ",\"preprocessors\":{\"puppets\":") {
        Some(p) => p,
        None => { return None; },
    };
    let (puppets, p10) = match parse_puppets_array(s, p9) {
        Some(v) => v,
        None => { return None; },
    };
    let p11 = match expect(s, p10, ",\"redirects\":") {
        Some(p) => p,
        None => { return None; },
    };
    let (redirects, p12) = match parse_redirect_array(s, p11) {
        Some(v) => v,
        None => { return None; },
    };
    let p13 = match expect(s, p12, ",\"guards\":") {
        Some(p) => p,
        None => { return None; },
    };
    let (guards, p14) = match parse_guard_array(s, p13) {
        Some(v) => v,
        None => { return None; },
    };
    let p15 = match expect(s, p14, "},\"postprocessors\":{\"interceptors\":") {
        Some(p) => p,
        None => { return None; },
    };
    let (interceptors, p16) = match parse_interceptor_array(s, p15) {
        Some(v) => v,
        None => { return None; },
    };
    let p17 = match expect(s, p16, "}}") {
        Some(p) => p,
        None => { return None; },
    };
    let config = ConfigurationFile {
        meta,
        version,
        functions,
        assets,
        preprocessors: Preprocessors { puppets, redirects, guards },
        postprocessors: Postprocessors { interceptors },
    };
    Some((config, p17))
}

/// A view whose numbers fit the fields they are stored in.
pub open spec fn config_view_wf(v: ConfigView) -> bool {
    &&& 0 <= v.version < 0x1_0000_0000_0000_0000
    &&& forall|i: int| 0 <= i < v.redirects.len() ==> 0 <= (#[trigger] v.redirects[i]).0 <= 65535
    &&& forall|i: int|
        0 <= i < v.interceptors.len() ==> 0 <= (#[trigger] v.interceptors[i]).1 <= 65535
}

/// Round trip of the first half.
#[verifier::rlimit(100)]
proof fn lemma_config_head_roundtrip(v: ConfigView, t: Seq<char>)
    requires
        config_view_wf(v),
    ensures
        spec_parse_config_head(spec_write_config_head(v) + t) == Some(
            ((v.meta, v.version, v.functions, v.assets), t),
        ),
{
    reveal_strlit(",\"version\":");
    reveal_strlit(",\"functions\":");
    let k1 = "{\"meta\":"@;
    let k2 = ",\"version\":"@;
    let k3 = ",\"functions\":"@;
    let k4 = ",\"assets\":"@;
    let w_meta = spec_write_meta(v.meta);
    let w_ver = spec_u64_digits(v.version as nat);
    let w_fun = spec_write_route_array(v.functions);
    let w_ass = spec_write_asset_array(v.assets);
    let input = spec_write_config_head(v) + t;
    let r1 = w_meta + (k2 + (w_ver + (k3 + (w_fun + (k4 + (w_ass + t))))));
    assert(input =~= k1 + r1);
    crate::json::lemma_expect_roundtrip(k1, r1);
    let r2 = k2 + (w_ver + (k3 + (w_fun + (k4 + (w_ass + t)))));
    assert(r1 =~= w_meta + r2);
    lemma_meta_roundtrip(v.meta, r2);
    let r3 = w_ver + (k3 + (w_fun + (k4 + (w_ass + t))));
    assert(r2 =~= k2 + r3);
    crate::json::lemma_expect_roundtrip(k2, r3);
    let r4 = k3 + (w_fun + (k4 + (w_ass + t)));
    assert(r3 =~= w_ver + r4);
    assert(r4[0] == ',');
    crate::json::lemma_parse_number_roundtrip(v.version as nat, r4);
    let r5 = w_fun + (k4 + (w_ass + t));
    assert(r4 =~= k3 + r5);
    crate::json::lemma_expect_roundtrip(k3, r5);
    let r6 = k4 + (w_ass + t);
    assert(r5 =~= w_fun + r6);
    lemma_route_array_roundtrip(v.functions, r6);
    let r7 = w_ass + t;
    assert(r6 =~= k4 + r7);
    crate::json::lemma_expect_roundtrip(k4, r7);
    lemma_asset_array_roundtrip(v.assets, t);
}

/// Round trip of the second half.
#[verifier::rlimit(100)]
proof fn lemma_config_tail_roundtrip(v: ConfigView, t: Seq<char>)
    requires
        config_view_wf(v),
    ensures
        spec_parse_config_tail(spec_write_config_tail(v) + t) == Some(
            ((v.puppets, v.redirects, v.guards, v.interceptors), t),
        ),
{
    let k5 = ",\"preprocessors\":{\"puppets\":"@;
    let k6 = ",\"redirects\":"@;
    let k7 = ",\"guards\":"@;
    let k8 = "},\"postprocessors\":{\"interceptors\":"@;
    let k9 = "}}"@;
    let w_pup = spec_write_puppets_array(v.puppets);
    let w_red = spec_write_redirect_array(v.redirects);
    let w_gua = spec_write_guard_array(v.guards);
    let w_ic = spec_write_interceptor_array(v.interceptors);
    let input = spec_write_config_tail(v) + t;
    let r9 = w_pup + (k6 + (w_red + (k7 + (w_gua + (k8 + (w_ic + (k9 + t)))))));
    assert(input =~= k5 + r9);
    crate::json::lemma_expect_roundtrip(k5, r9);
    let r10 = k6 + (w_red + (k7 + (w_gua + (k8 + (w_ic + (k9 + t))))));
    assert(r9 =~= w_pup + r10);
    lemma_puppets_array_roundtrip(v.puppets, r10);
    let r11 = w_red + (k7 + (w_gua + (k8 + (w_ic + (k9 + t)))));
    assert(r10 =~= k6 + r11);
    crate::json::lemma_expect_roundtrip(k6, r11);
    let r12 = k7 + (w_gua + (k8 + (w_ic + (k9 + t))));
    assert(r11 =~= w_red + r12);
    lemma_redirect_array_roundtrip(v.redirects, r12);
    let r13 = w_gua + (k8 + (w_ic + (k9 + t)));
    assert(r12 =~= k7 + r13);
    crate::json::lemma_expect_roundtrip(k7, r13);
    let r14 = k8 + (w_ic + (k9 + t));
    assert(r13 =~= w_gua + r14);
    lemma_guard_array_roundtrip(v.guards, r14);
    let r15 = w_ic + (k9 + t);
    assert(r14 =~= k8 + r15);
    crate::json::lemma_expect_roundtrip(k8, r15);
    let r16 = k9 + t;
    assert(r15 =~= w_ic + r16);
    lemma_interceptor_array_roundtrip(v.interceptors, r16);
    crate::json::lemma_expect_roundtrip(k9, t);
}

/// The round trip: a written manifest followed by anything parses back to
/// exactly the same view.
#[verifier::rlimit(100)]
pub proof fn lemma_config_roundtrip(v: ConfigView, t: Seq<char>)
    requires
        config_view_wf(v),
    ensures
        spec_parse_config(spec_write_config(v) + t) == Some((v, t)),
{
    let input = spec_write_config(v) + t;
    assert(input =~= spec_write_config_head(v) + (spec_write_config_tail(v) + t));
    lemma_config_head_roundtrip(v, spec_write_config_tail(v) + t);
    lemma_config_tail_roundtrip(v, t);
}

// ---------------------------------------------------------------------------
// The legacy schema and the upgrade chain
// ---------------------------------------------------------------------------
/// The mathematical shape of a legacy manifest.
pub ghost struct LegacyView {
    pub meta: Option<Option<Technology>>,
    pub version: int,
    pub functions: Seq<(Seq<char>, Seq<char>)>,
    pub assets: Seq<(Seq<char>, Option<Seq<char>>)>,
    pub puppets: Seq<(Seq<char>, Seq<char>)>,
    pub redirects: Seq<(int, Seq<char>, Seq<char>)>,
    pub interceptors: Option<Seq<(Method, int, Seq<char>)>>,
}

pub open spec fn legacy_view(l: Legacy1ConfigurationFile) -> LegacyView {
    LegacyView {
        meta: meta_view(l.meta),
        version: l.version as int,
        functions: route_views(l.functions@),
        assets: crate::middleware::asset_views(l.assets@),
        puppets: crate::middleware::puppet_views(l.puppets@),
        redirects: crate::middleware::redirect_views(l.redirects@),
        interceptors: match l.interceptors {
            None => None,
            Some(ics) => Some(crate::middleware::interceptor_views(ics@)),
        },
    }
}

/// How a legacy manifest reads as a current one: guards start empty and
/// absent interceptors become the empty list.
pub open spec fn spec_legacy_upgrade(l: LegacyView) -> ConfigView {
    ConfigView {
        meta: l.meta,
        version: l.version,
        functions: l.functions,
        assets: l.assets,
        puppets: l.puppets,
        redirects: l.redirects,
        guards: Seq::empty(),
        interceptors: match l.interceptors {
            None => Seq::empty(),
            Some(ics) => ics,
        },
    }
}

/// One legacy manifest at the head of the suffix; the interceptors key may
/// be absent or `null`.
pub open spec fn spec_parse_legacy(s: Seq<char>) -> Option<(LegacyView, Seq<char>)> {
    match spec_expect("{\"meta\":"@, s) {
        None => None,
        Some(s1) => match spec_parse_meta(s1) {
            None => None,
            Some((meta, s2)) => match spec_expect(",\"version\":"@, s2) {
                None => None,
                Some(s3) => match spec_parse_number(s3) {
                    None => None,
                    Some((version, s4)) => match spec_expect(",\"functions\":"@, s4) {
                        None => None,
                        Some(s5) => match spec_parse_route_array(s5) {
                            None => None,
                            Some((functions, s6)) => match spec_expect(",\"assets\":"@, s6) {
                                None => None,
                                Some(s7) => match spec_parse_asset_array(s7) {
                                    None => None,
                                    Some((assets, s8)) => match spec_expect(",\"puppets\":"@, s8) {
                                        None => None,
                                        Some(s9) => match spec_parse_puppets_array(s9) {
                                            None => None,
                                            Some((puppets, s10)) => match spec_expect(
                                                ",\"redirects\":"@,
                                                s10,
                                            ) {
                                                None => None,
                                                Some(s11) => match spec_parse_redirect_array(s11) {
                                                    None => None,
                                                    Some((redirects, s12)) => spec_parse_legacy_end(
                                                        meta,
                                                        version as int,
                                                        functions,
                                                        assets,
                                                        puppets,
                                                        redirects,
                                                        s12,
                                                    ),
                                                },
                                            },
                                        },
                                    },
                                },
                            },
                        },
                    },
                },
            },
        },
    }
}

/// The tail of a legacy manifest after the redirects list.
pub open spec fn spec_parse_legacy_end(
    meta: Option<Option<Technology>>,
    version: int,
    functions: Seq<(Seq<char>, Seq<char>)>,
    assets: Seq<(Seq<char>, Option<Seq<char>>)>,
    puppets: Seq<(Seq<char>, Seq<char>)>,
    redirects: Seq<(int, Seq<char>, Seq<char>)>,
    s12: Seq<char>,
) -> Option<(LegacyView, Seq<char>)> {
    match spec_expect("}"@, s12) {
        Some(s13) => Some(
            (
                LegacyView {
                    meta,
                    version,
                    functions,
                    assets,
                    puppets,
                    redirects,
                    interceptors: None,
                },
                s13,
            ),
        ),
        None => match spec_expect(",\"interceptors\":"@, s12) {
            None => None,
            Some(s13) => match spec_expect("null"@, s13) {
                Some(s14) => match spec_expect("}"@, s14) {
                    None => None,
                    Some(s15) => Some(
                        (
                            LegacyView {
                                meta,
                                version,
                                functions,
                                assets,
                                puppets,
                                redirects,
                                interceptors: None,
                            },
                            s15,
                        ),
                    ),
                },
                None => match spec_parse_interceptor_array(s13) {
                    None => None,
                    Some((ics, s14)) => match spec_expect("}"@, s14) {
                        None => None,
                        Some(s15) => Some(
                            (
                                LegacyView {
                                    meta,
                                    version,
                                    functions,
                                    assets,
                                    puppets,
                                    redirects,
                                    interceptors: Some(ics),
                                },
                                s15,
                            ),
                        ),
                    },
                },
            },
        },
    }
}

/// Parses one legacy manifest at `pos`.
#[verifier::rlimit(100)]
pub fn parse_legacy(s: &str, pos: usize) -> (r: Option<(Legacy1ConfigurationFile, usize)>)
    requires
        pos <= s@.len(),
    ensures
        match r {
            Some((v, next)) => pos <= next <= s@.len() && spec_parse_legacy(s@.skip(pos as int))
                == Some((legacy_view(v), s@.skip(next as int))),
            None => spec_parse_legacy(s@.skip(pos as int)) is None,
        },
{
    let p1 = match expect(s, pos, "{\"meta\":") {
        Some(p) => p,
        None => { return None; },
    };
    let (meta, p2) = match parse_meta(s, p1) {
        Some(v) => v,
        None => { return None; },
    };
    let p3 = match expect(s, p2, ",\"version\":") {
        Some(p) => p,
        None => { return None; },
    };
    let (version, p4) = match parse_number(s, p3) {
        Some(v) => v,
        None => { return None; },
    };
    let p5 = match expect(s, p4, ",\"functions\":") {
        Some(p) => p,
        None => { return None; },
    };
    let (functions, p6) = match parse_route_array(s, p5) {
        Some(v) => v,
        None => { return None; },
    };
    let p7 = match expect(s, p6, ",\"assets\":") {
        Some(p) => p,
        None => { return None; },
    };
    let (assets, p8) = match parse_asset_array(s, p7) {
        Some(v) => v,
        None => { return None; },
    };
    let p9 = match expect(s, p8, ",\"puppets\":") {
        Some(p) => p,
        None => { return None; },
    };
    let (puppets, p10) = match parse_puppets_array(s, p9) {
        Some(v) => v,
        None => { return None; },
    };
    let p11 = match expect(s, p10, ",\"redirects\":") {
        Some(p) => p,
        None => { return None; },
    };
    let (redirects, p12) = match parse_redirect_array(s, p11) {
        Some(v) => v,
        None => { return None; },
    };
    match expect(s, p12, "}") {
        Some(p13) => {
            let legacy = Legacy1ConfigurationFile {
                meta,
                version,
                functions,
                assets,
                puppets,
                redirects,
                interceptors: None,
            };
            return Some((legacy, p13));
        },
        None => {},
    }
    let p13 = match expect(s, p12, ",\"interceptors\":") {
        Some(p) => p,
        None => { return None; },
    };
    match expect(s, p13, "null") {
        Some(p14) => {
            let p15 = match expect(s, p14, "}") {
                Some(p) => p,
                None => { return None; },
            };
            let legacy = Legacy1ConfigurationFile {
                meta,
                version,
                functions,
                assets,
                puppets,
                redirects,
                interceptors: None,
            };
            Some((legacy, p15))
        },
        None => {
            let (ics, p14) = match parse_interceptor_array(s, p13) {
                Some(v) => v,
                None => { return None; },
            };
            let p15 = match expect(s, p14, "}") {
                Some(p) => p,
                None => { return None; },
            };
            let legacy = Legacy1ConfigurationFile {
                meta,
                version,
                functions,
                assets,
                puppets,
                redirects,
                interceptors: Some(ics),
            };
            Some((legacy, p15))
        },
    }
}

// ---------------------------------------------------------------------------
// Loading with the upgrade chain
// ---------------------------------------------------------------------------
/// A manifest text that could not be read under any known schema.
#[derive(Debug, Clone, Copy, PartialEq, Eq, Structural)]
pub enum ConfigError {
    Invalid,
}

impl ConfigError {
    pub fn text(&self) -> (r: &'static str) {
        "found invalid configuration file"
    }
}

/// A complete current-schema manifest, consuming the whole text.
pub open spec fn spec_full_config(s: Seq<char>) -> Option<ConfigView> {
    match spec_parse_config(s) {
        Some((v, rem)) => if rem.len() == 0 {
            Some(v)
        } else {
            None
        },
        None => None,
    }
}

/// A complete legacy manifest, consuming the whole text.
pub open spec fn spec_full_legacy(s: Seq<char>) -> Option<LegacyView> {
    match spec_parse_legacy(s) {
        Some((v, rem)) => if rem.len() == 0 {
            Some(v)
        } else {
            None
        },
        None => None,
    }
}

/// Reads a manifest under the current schema, then under each legacy
/// schema in order, upgrading to the current shape.
pub fn load_configuration(s: &str) -> (r: Result<ConfigurationFile, ConfigError>)
    ensures
        match r {
            Ok(c) => match spec_full_config(s@) {
                Some(v) => config_view(c) == v,
                None => spec_full_legacy(s@) matches Some(lv) && config_view(c)
                    == spec_legacy_upgrade(lv),
            },
            Err(_) => spec_full_config(s@) is None && spec_full_legacy(s@) is None,
        },
{
    let len = s.unicode_len();
    proof {
        assert(s@.skip(0) =~= s@);
    }
    match parse_config(s, 0) {
        Some((c, next)) => {
            if next == len {
                proof {
                    assert(s@.skip(next as int).len() == 0);
                }
                return Ok(c);
            }
        },
        None => {},
    }
    match parse_legacy(s, 0) {
        Some((l, next)) => {
            if next == len {
                proof {
                    assert(s@.skip(next as int).len() == 0);
                }
                let ghost lv = legacy_view(l);
                let upgraded = ConfigurationFile::from(l);
                proof {
                    assert(crate::middleware::guard_views(upgraded.preprocessors.guards@) =~= Seq::<
                        (Seq<char>, Option<Seq<char>>, Seq<Seq<char>>),
                    >::empty());
                    match lv.interceptors {
                        None => {
                            assert(crate::middleware::interceptor_views(
                                upgraded.postprocessors.interceptors@,
                            ) =~= Seq::<(Method, int, Seq<char>)>::empty());
                        },
                        Some(ics) => {},
                    }
                    assert(config_view(upgraded) == spec_legacy_upgrade(lv));
                }
                return Ok(upgraded);
            }
        },
        None => {},
    }
    Err(ConfigError::Invalid)
}

} // verus!
