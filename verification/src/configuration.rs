//! The deployment manifest: routes, assets and middleware rules, together
//! with the validation rules that every manifest must satisfy before it is
//! packaged or uploaded.

use vstd::prelude::*;

use crate::strutil::{
    contains_sub, ends_with, spec_all_digits, spec_contains, spec_digits_value, spec_ends_with,
    spec_starts_with, starts_with, str_eq,
};

verus! {

/// A server-side function mounted at `path` and serving every request
/// whose URL matches `pattern`.
#[derive(Debug)]
pub struct DynamicRoute {
    pub path: String,
    pub pattern: String,
}

/// A redirect rule: requests for `path` receive status `status` with
/// `location` as the target.
#[derive(Debug)]
pub struct Redirect {
    pub status: u16,
    pub path: String,
    pub location: String,
}

/// Recognized third-party frameworks whose build output can be imported.
#[derive(Debug, Clone, Copy, PartialEq, Eq, Structural)]
pub enum Technology {
    Astro,
    SvelteKit,
    SolidStart,
    Nuxt,
    Nitro,
    NextJs,
    Hono,
    Remix,
}

#[derive(Debug)]
pub struct Meta {
    pub technology: Option<Technology>,
}

/// A static asset, identified by its URL path; the advanced form carries a
/// custom cache-control value.
#[derive(Debug)]
pub enum Asset {
    Simple(String),
    Advanced { path: String, cache_control: String },
}

/// HTTP methods an interceptor can match on.
#[derive(Debug, Clone, Copy, PartialEq, Eq, Structural)]
pub enum Method {
    GET,
    POST,
    PUT,
    DELETE,
    HEAD,
    OPTIONS,
    CONNECT,
    PATCH,
    TRACE,
}

#[derive(Debug, Clone, Copy, PartialEq, Eq, Structural)]
pub enum MethodParseError {
    UNKNOWN,
}

/// A rule substituting an asset body for responses with the given method
/// and status.
#[derive(Debug)]
pub struct Interceptor {
    pub method: Method,
    pub status: u16,
    pub path: String,
}

/// Authentication schemes a guard can demand.
#[derive(Debug, Clone, Copy, PartialEq, Eq, Structural)]
pub enum AuthScheme {
    Basic,
}

/// Hashed basic-auth credentials; `password` is absent for passwordless
/// guards.
#[derive(Debug)]
pub struct AuthCredentials {
    pub username: String,
    pub password: Option<String>,
}

/// Basic-auth protection over a list of path patterns.
#[derive(Debug)]
pub struct Guard {
    pub credentials: AuthCredentials,
    pub scheme: AuthScheme,
    pub patterns: Vec<String>,
}

/// Rules applied before asset lookup. Puppets are kept as a keyed list of
/// `(from, to)` pairs whose keys are unique; insertion overwrites by key.
#[derive(Debug)]
pub struct Preprocessors {
    pub puppets: Vec<(String, String)>,
    pub redirects: Vec<Redirect>,
    pub guards: Vec<Guard>,
}

/// Rules applied after a response is produced.
#[derive(Debug)]
pub struct Postprocessors {
    pub interceptors: Vec<Interceptor>,
}

/// The compiled deployment configuration.
#[derive(Debug)]
pub struct ConfigurationFile {
    pub meta: Option<Meta>,
    pub version: u64,
    pub functions: Vec<DynamicRoute>,
    pub assets: Vec<Asset>,
    pub preprocessors: Preprocessors,
    pub postprocessors: Postprocessors,
}

impl Default for Method {
    fn default() -> (r: Self)
        ensures
            r == Method::GET,
    {
        Method::GET
    }
}

impl Default for AuthScheme {
    fn default() -> (r: Self)
        ensures
            r == AuthScheme::Basic,
    {
        AuthScheme::Basic
    }
}

impl Method {
    /// The canonical spelling of the method.
    pub open spec fn spec_text(self) -> Seq<char> {
        match self {
            Method::GET => "GET"@,
            Method::POST => "POST"@,
            Method::PUT => "PUT"@,
            Method::DELETE => "DELETE"@,
            Method::HEAD => "HEAD"@,
            Method::OPTIONS => "OPTIONS"@,
            Method::CONNECT => "CONNECT"@,
            Method::PATCH => "PATCH"@,
            Method::TRACE => "TRACE"@,
        }
    }

    pub fn text(&self) -> (r: &'static str)
        ensures
            r@ == self.spec_text(),
    {
        match self {
            Method::GET => "GET",
            Method::POST => "POST",
            Method::PUT => "PUT",
            Method::DELETE => "DELETE",
            Method::HEAD => "HEAD",
            Method::OPTIONS => "OPTIONS",
            Method::CONNECT => "CONNECT",
            Method::PATCH => "PATCH",
            Method::TRACE => "TRACE",
        }
    }

    /// Every supported method, in the order a `*` interceptor flag expands to.
    pub fn all() -> (r: Vec<Method>)
        ensures
            r@ == seq![
                Method::GET,
                Method::POST,
                Method::PUT,
                Method::DELETE,
                Method::HEAD,
                Method::OPTIONS,
                Method::CONNECT,
                Method::PATCH,
                Method::TRACE,
            ],
    {
        let mut v: Vec<Method> = Vec::new();
        v.push(Method::GET);
        v.push(Method::POST);
        v.push(Method::PUT);
        v.push(Method::DELETE);
        v.push(Method::HEAD);
        v.push(Method::OPTIONS);
        v.push(Method::CONNECT);
        v.push(Method::PATCH);
        v.push(Method::TRACE);
        proof {
            assert(v@ =~= seq![
                Method::GET,
                Method::POST,
                Method::PUT,
                Method::DELETE,
                Method::HEAD,
                Method::OPTIONS,
                Method::CONNECT,
                Method::PATCH,
                Method::TRACE,
            ]);
        }
        v
    }

    /// The method spelled by `s`, if any; exactly the canonical upper-case
    /// spellings are recognized.
    pub open spec fn spec_of(s: Seq<char>) -> Option<Method> {
        if s == "GET"@ {
            Some(Method::GET)
        } else if s == "POST"@ {
            Some(Method::POST)
        } else if s == "PUT"@ {
            Some(Method::PUT)
        } else if s == "DELETE"@ {
            Some(Method::DELETE)
        } else if s == "HEAD"@ {
            Some(Method::HEAD)
        } else if s == "OPTIONS"@ {
            Some(Method::OPTIONS)
        } else if s == "CONNECT"@ {
            Some(Method::CONNECT)
        } else if s == "PATCH"@ {
            Some(Method::PATCH)
        } else if s == "TRACE"@ {
            Some(Method::TRACE)
        } else {
            None
        }
    }

    /// The method spelled by `s`, if any; exactly the canonical upper-case
    /// spellings are accepted.
    pub fn from_str(s: &str) -> (r: Result<Method, MethodParseError>)
        ensures
            match r {
                Ok(m) => s@ == m.spec_text() && Method::spec_of(s@) == Some(m),
                Err(_) => Method::spec_of(s@) is None && forall|m: Method| s@ != m.spec_text(),
            },
    {
        let r: Result<Method, MethodParseError> = if str_eq(s, "GET") {
            Ok(Method::GET)
        } else if str_eq(s, "POST") {
            Ok(Method::POST)
        } else if str_eq(s, "PUT") {
            Ok(Method::PUT)
        } else if str_eq(s, "DELETE") {
            Ok(Method::DELETE)
        } else if str_eq(s, "HEAD") {
            Ok(Method::HEAD)
        } else if str_eq(s, "OPTIONS") {
            Ok(Method::OPTIONS)
        } else if str_eq(s, "CONNECT") {
            Ok(Method::CONNECT)
        } else if str_eq(s, "PATCH") {
            Ok(Method::PATCH)
        } else if str_eq(s, "TRACE") {
            Ok(Method::TRACE)
        } else {
            Err(MethodParseError::UNKNOWN)
        };
        proof {
            if r is Err {
                assert forall|m: Method| s@ != m.spec_text() by {
                    match m {
                        Method::GET => assert(s@ != Method::GET.spec_text()),
                        Method::POST => assert(s@ != Method::POST.spec_text()),
                        Method::PUT => assert(s@ != Method::PUT.spec_text()),
                        Method::DELETE => assert(s@ != Method::DELETE.spec_text()),
                        Method::HEAD => assert(s@ != Method::HEAD.spec_text()),
                        Method::OPTIONS => assert(s@ != Method::OPTIONS.spec_text()),
                        Method::CONNECT => assert(s@ != Method::CONNECT.spec_text()),
                        Method::PATCH => assert(s@ != Method::PATCH.spec_text()),
                        Method::TRACE => assert(s@ != Method::TRACE.spec_text()),
                    }
                }
            }
        }
        r
    }
}

impl Asset {
    /// The path that identifies the asset.
    pub open spec fn spec_path(self) -> Seq<char> {
        match self {
            Asset::Simple(p) => p@,
            Asset::Advanced { path, .. } => path@,
        }
    }

    /// The cache-control value, when one is attached.
    pub open spec fn spec_cache_control(self) -> Option<Seq<char>> {
        match self {
            Asset::Simple(_) => None,
            Asset::Advanced { cache_control, .. } => Some(cache_control@),
        }
    }

    pub fn path(&self) -> (r: &String)
        ensures
            r@ == self.spec_path(),
    {
        match self {
            Asset::Simple(p) => p,
            Asset::Advanced { path, .. } => path,
        }
    }
}

// ---------------------------------------------------------------------------
// Validation
// ---------------------------------------------------------------------------
/// A valid asset path: at most 350 characters, absolute, names a file rather
/// than a folder, and free of `../` traversal segments.
pub open spec fn valid_asset_path(s: Seq<char>) -> bool {
    &&& s.len() <= 350
    &&& spec_starts_with(s, "/"@)
    &&& !spec_ends_with(s, "/"@)
    &&& !spec_contains(s, "../"@)
}

pub fn validate_asset_path(value: &str) -> (r: bool)
    ensures
        r == valid_asset_path(value@),
{
    value.unicode_len() <= 350 && starts_with(value, "/") && !ends_with(value, "/")
        && !contains_sub(value, "../")
}

/// A valid puppet key: the root path, or any valid asset path.
pub open spec fn valid_puppet(s: Seq<char>) -> bool {
    s == "/"@ || valid_asset_path(s)
}

pub fn validate_puppet(value: &str) -> (r: bool)
    ensures
        r == valid_puppet(value@),
{
    str_eq(value, "/") || validate_asset_path(value)
}

/// A valid redirect path: absolute.
pub open spec fn valid_redirect_path(s: Seq<char>) -> bool {
    spec_starts_with(s, "/"@)
}

pub fn validate_redirect_path(value: &str) -> (r: bool)
    ensures
        r == valid_redirect_path(value@),
{
    starts_with(value, "/")
}

/// A valid cache-control value: exactly `no-cache`, `no-store`, or
/// `max-age=` followed by a decimal number that fits in 64 bits.
pub open spec fn valid_cache_control(s: Seq<char>) -> bool {
    ||| s == "no-cache"@
    ||| s == "no-store"@
    ||| {
        &&& spec_starts_with(s, "max-age="@)
        &&& spec_all_digits(s.skip("max-age="@.len() as int))
        &&& spec_digits_value(s.skip("max-age="@.len() as int)) < 0x1_0000_0000_0000_0000
    }
}

pub fn validate_cache_control(value: &str) -> (r: bool)
    ensures
        r == valid_cache_control(value@),
{
    if str_eq(value, "no-cache") || str_eq(value, "no-store") {
        return true;
    }
    if !starts_with(value, "max-age=") {
        return false;
    }
    let prefix_len = "max-age=".unicode_len();
    let rest = value.substring_char(prefix_len, value.unicode_len());
    proof {
        assert(rest@ =~= value@.skip("max-age="@.len() as int));
    }
    crate::strutil::parse_u64(rest).is_some()
}

/// A valid dynamic route: a short valid asset path plus a bounded pattern.
pub open spec fn valid_dynamic_route(r: DynamicRoute) -> bool {
    &&& valid_asset_path(r.path@)
    &&& r.path@.len() <= 75
    &&& r.pattern@.len() <= 150
}

/// A valid redirect: a 3xx status, an absolute bounded path, a bounded
/// location.
pub open spec fn valid_redirect(r: Redirect) -> bool {
    &&& 300 <= r.status <= 399
    &&& valid_redirect_path(r.path@)
    &&& r.path@.len() <= 350
    &&& r.location@.len() <= 512
}

/// A valid asset: a valid path, and a valid cache-control value when one is
/// attached.
pub open spec fn valid_asset(a: Asset) -> bool {
    &&& valid_asset_path(a.spec_path())
    &&& (a.spec_cache_control() matches Some(cc) ==> valid_cache_control(cc))
}

/// A valid guard: fixed-length credential hashes and at most ten bounded
/// patterns.
pub open spec fn valid_guard(g: Guard) -> bool {
    &&& g.credentials.username@.len() == 64
    &&& (g.credentials.password matches Some(p) ==> p@.len() == 64)
    &&& g.patterns@.len() <= 10
    &&& forall|i: int| 0 <= i < g.patterns@.len() ==> (#[trigger] g.patterns@[i])@.len() <= 350
}

/// A valid interceptor: its path must look like an asset path.
pub open spec fn valid_interceptor(ic: Interceptor) -> bool {
    valid_asset_path(ic.path@)
}

/// Puppet keys occur at most once.
pub open spec fn puppets_unique(p: Seq<(String, String)>) -> bool {
    forall|i: int, j: int| 0 <= i < j < p.len() ==> (#[trigger] p[i]).0@ != (#[trigger] p[j]).0@
}

/// A valid puppet pair: the key is the root or an asset path, the target an
/// asset path.
pub open spec fn valid_puppet_pair(pair: (String, String)) -> bool {
    valid_puppet(pair.0@) && valid_asset_path(pair.1@)
}

/// Every invariant a manifest must satisfy before it may be packaged or
/// uploaded.
pub open spec fn valid_configuration(c: ConfigurationFile) -> bool {
    &&& c.functions@.len() <= 100
    &&& forall|i: int| 0 <= i < c.functions@.len() ==> valid_dynamic_route(
        #[trigger] c.functions@[i],
    )
    &&& c.assets@.len() <= 15000
    &&& forall|i: int| 0 <= i < c.assets@.len() ==> valid_asset(#[trigger] c.assets@[i])
    &&& c.preprocessors.puppets@.len() <= 150
    &&& puppets_unique(c.preprocessors.puppets@)
    &&& forall|i: int| 0 <= i < c.preprocessors.puppets@.len() ==> valid_puppet_pair(
        #[trigger] c.preprocessors.puppets@[i],
    )
    &&& c.preprocessors.redirects@.len() <= 150
    &&& forall|i: int| 0 <= i < c.preprocessors.redirects@.len() ==> valid_redirect(
        #[trigger] c.preprocessors.redirects@[i],
    )
    &&& c.preprocessors.guards@.len() <= 10
    &&& forall|i: int| 0 <= i < c.preprocessors.guards@.len() ==> valid_guard(
        #[trigger] c.preprocessors.guards@[i],
    )
    &&& c.postprocessors.interceptors@.len() <= 50
    &&& forall|i: int| 0 <= i < c.postprocessors.interceptors@.len() ==> valid_interceptor(
        #[trigger] c.postprocessors.interceptors@[i],
    )
}

/// The constraint a rejected manifest broke.
#[derive(Debug, Clone, Copy, PartialEq, Eq, Structural)]
pub enum ValidationFault {
    TooManyFunctions,
    BadFunction,
    TooManyAssets,
    BadAsset,
    TooManyPuppets,
    BadPuppet,
    DuplicatePuppet,
    TooManyRedirects,
    BadRedirect,
    TooManyGuards,
    BadGuard,
    TooManyInterceptors,
    BadInterceptor,
}

impl ValidationFault {
    /// A short human-readable description of the broken constraint.
    pub fn text(&self) -> (r: &'static str) {
        match self {
            ValidationFault::TooManyFunctions => "too many functions (at most 100)",
            ValidationFault::BadFunction => "invalid function route",
            ValidationFault::TooManyAssets => "too many assets (at most 15000)",
            ValidationFault::BadAsset => "invalid asset entry",
            ValidationFault::TooManyPuppets => "too many puppets (at most 150)",
            ValidationFault::BadPuppet => "invalid puppet entry",
            ValidationFault::DuplicatePuppet => "duplicate puppet key",
            ValidationFault::TooManyRedirects => "too many redirects (at most 150)",
            ValidationFault::BadRedirect => "invalid redirect entry",
            ValidationFault::TooManyGuards => "too many guards (at most 10)",
            ValidationFault::BadGuard => "invalid guard entry",
            ValidationFault::TooManyInterceptors => "too many interceptors (at most 50)",
            ValidationFault::BadInterceptor => "invalid interceptor entry",
        }
    }
}

fn validate_dynamic_route(r: &DynamicRoute) -> (ok: bool)
    ensures
        ok == valid_dynamic_route(*r),
{
    validate_asset_path(r.path.as_str()) && r.path.as_str().unicode_len() <= 75
        && r.pattern.as_str().unicode_len() <= 150
}

fn validate_asset(a: &Asset) -> (ok: bool)
    ensures
        ok == valid_asset(*a),
{
    match a {
        Asset::Simple(p) => validate_asset_path(p.as_str()),
        Asset::Advanced { path, cache_control } => validate_asset_path(path.as_str())
            && validate_cache_control(cache_control.as_str()),
    }
}

fn validate_guard(g: &Guard) -> (ok: bool)
    ensures
        ok == valid_guard(*g),
{
    if g.credentials.username.as_str().unicode_len() != 64 {
        return false;
    }
    match &g.credentials.password {
        Some(p) => {
            if p.as_str().unicode_len() != 64 {
                return false;
            }
        },
        None => {},
    }
    let n = g.patterns.len();
    if n > 10 {
        return false;
    }
    let mut i: usize = 0;
    while i < n
        invariant
            0 <= i <= n,
            n == g.patterns@.len(),
            forall|j: int| 0 <= j < i ==> (#[trigger] g.patterns@[j])@.len() <= 350,
        decreases n - i,
    {
        if g.patterns[i].as_str().unicode_len() > 350 {
            return false;
        }
        i += 1;
    }
    true
}

impl ConfigurationFile {
    /// An empty manifest at schema version 0.
    pub fn empty() -> (r: ConfigurationFile)
        ensures
            r.meta is None,
            r.version == 0,
            r.functions@ =~= Seq::<DynamicRoute>::empty(),
            r.assets@ =~= Seq::<Asset>::empty(),
            r.preprocessors.puppets@ =~= Seq::<(String, String)>::empty(),
            r.preprocessors.redirects@ =~= Seq::<Redirect>::empty(),
            r.preprocessors.guards@ =~= Seq::<Guard>::empty(),
            r.postprocessors.interceptors@ =~= Seq::<Interceptor>::empty(),
    {
        ConfigurationFile {
            meta: None,
            version: 0,
            functions: Vec::new(),
            assets: Vec::new(),
            preprocessors: Preprocessors {
                puppets: Vec::new(),
                redirects: Vec::new(),
                guards: Vec::new(),
            },
            postprocessors: Postprocessors { interceptors: Vec::new() },
        }
    }

    /// Checks every manifest invariant; `Ok` exactly on valid manifests.
    pub fn validate(&self) -> (r: Result<(), ValidationFault>)
        ensures
            r is Ok <==> valid_configuration(*self),
    {
        if self.functions.len() > 100 {
            return Err(ValidationFault::TooManyFunctions);
        }
        let mut i: usize = 0;
        while i < self.functions.len()
            invariant
                0 <= i <= self.functions@.len(),
                forall|j: int| 0 <= j < i ==> valid_dynamic_route(#[trigger] self.functions@[j]),
            decreases self.functions@.len() - i,
        {
            if !validate_dynamic_route(&self.functions[i]) {
                return Err(ValidationFault::BadFunction);
            }
            i += 1;
        }
        if self.assets.len() > 15000 {
            return Err(ValidationFault::TooManyAssets);
        }
        let mut i: usize = 0;
        while i < self.assets.len()
            invariant
                0 <= i <= self.assets@.len(),
                forall|j: int| 0 <= j < i ==> valid_asset(#[trigger] self.assets@[j]),
            decreases self.assets@.len() - i,
        {
            if !validate_asset(&self.assets[i]) {
                return Err(ValidationFault::BadAsset);
            }
            i += 1;
        }
        let puppets = &self.preprocessors.puppets;
        if puppets.len() > 150 {
            return Err(ValidationFault::TooManyPuppets);
        }
        let mut i: usize = 0;
        while i < puppets.len()
            invariant
                0 <= i <= puppets@.len(),
                puppets == self.preprocessors.puppets,
                forall|j: int| 0 <= j < i ==> valid_puppet_pair(#[trigger] puppets@[j]),
                forall|j1: int, j2: int|
                    0 <= j1 < j2 < i ==> (#[trigger] puppets@[j1]).0@ != (
                    #[trigger] puppets@[j2]).0@,
            decreases puppets@.len() - i,
        {
            let pair = &puppets[i];
            if !(validate_puppet(pair.0.as_str()) && validate_asset_path(pair.1.as_str())) {
                return Err(ValidationFault::BadPuppet);
            }
            let mut j: usize = 0;
            while j < i
                invariant
                    0 <= j <= i < puppets@.len(),
                    puppets == self.preprocessors.puppets,
                    forall|k: int| 0 <= k < j ==> (#[trigger] puppets@[k]).0@ != puppets@[i as int].0@,
                decreases i - j,
            {
                if str_eq(puppets[j].0.as_str(), puppets[i].0.as_str()) {
                    return Err(ValidationFault::DuplicatePuppet);
                }
                j += 1;
            }
            i += 1;
        }
        let redirects = &self.preprocessors.redirects;
        if redirects.len() > 150 {
            return Err(ValidationFault::TooManyRedirects);
        }
        let mut i: usize = 0;
        while i < redirects.len()
            invariant
                0 <= i <= redirects@.len(),
                redirects == self.preprocessors.redirects,
                forall|j: int| 0 <= j < i ==> valid_redirect(#[trigger] redirects@[j]),
            decreases redirects@.len() - i,
        {
            let r = &redirects[i];
            if !(300 <= r.status && r.status <= 399 && validate_redirect_path(r.path.as_str())
                && r.path.as_str().unicode_len() <= 350 && r.location.as_str().unicode_len()
                <= 512) {
                return Err(ValidationFault::BadRedirect);
            }
            i += 1;
        }
        let guards = &self.preprocessors.guards;
        if guards.len() > 10 {
            return Err(ValidationFault::TooManyGuards);
        }
        let mut i: usize = 0;
        while i < guards.len()
            invariant
                0 <= i <= guards@.len(),
                guards == self.preprocessors.guards,
                forall|j: int| 0 <= j < i ==> valid_guard(#[trigger] guards@[j]),
            decreases guards@.len() - i,
        {
            if !validate_guard(&guards[i]) {
                return Err(ValidationFault::BadGuard);
            }
            i += 1;
        }
        let interceptors = &self.postprocessors.interceptors;
        if interceptors.len() > 50 {
            return Err(ValidationFault::TooManyInterceptors);
        }
        let mut i: usize = 0;
        while i < interceptors.len()
            invariant
                0 <= i <= interceptors@.len(),
                interceptors == self.postprocessors.interceptors,
                forall|j: int| 0 <= j < i ==> valid_interceptor(#[trigger] interceptors@[j]),
            decreases interceptors@.len() - i,
        {
            if !validate_asset_path(interceptors[i].path.as_str()) {
                return Err(ValidationFault::BadInterceptor);
            }
            i += 1;
        }
        Ok(())
    }
}

// ---------------------------------------------------------------------------
// Legacy manifests
// ---------------------------------------------------------------------------
/// The first, flat manifest schema: middleware lists sat at the top level
/// and guards did not exist yet.
#[derive(Debug)]
pub struct Legacy1ConfigurationFile {
    pub meta: Option<Meta>,
    pub version: u64,
    pub functions: Vec<DynamicRoute>,
    pub assets: Vec<Asset>,
    pub puppets: Vec<(String, String)>,
    pub redirects: Vec<Redirect>,
    pub interceptors: Option<Vec<Interceptor>>,
}

impl ConfigurationFile {
    /// Upgrades a legacy manifest to the current schema: fields carry over,
    /// guards start empty, absent interceptors become the empty list.
    pub fn from(legacy: Legacy1ConfigurationFile) -> (r: ConfigurationFile)
        ensures
            r.meta == legacy.meta,
            r.version == legacy.version,
            r.functions == legacy.functions,
            r.assets == legacy.assets,
            r.preprocessors.puppets == legacy.puppets,
            r.preprocessors.redirects == legacy.redirects,
            r.preprocessors.guards@ =~= Seq::<Guard>::empty(),
            match legacy.interceptors {
                Some(ic) => r.postprocessors.interceptors == ic,
                None => r.postprocessors.interceptors@ =~= Seq::<Interceptor>::empty(),
            },
    {
        let interceptors = match legacy.interceptors {
            Some(ic) => ic,
            None => Vec::new(),
        };
        ConfigurationFile {
            meta: legacy.meta,
            version: legacy.version,
            functions: legacy.functions,
            assets: legacy.assets,
            preprocessors: Preprocessors {
                puppets: legacy.puppets,
                redirects: legacy.redirects,
                guards: Vec::new(),
            },
            postprocessors: Postprocessors { interceptors },
        }
    }
}

} // verus!
