use zugriff::configuration::{Asset, AuthScheme, ConfigurationFile, Method, ValidationFault};
use zugriff::middleware::{
    attach_asset_cache_control, attach_assets, attach_middleware, compile_configuration,
    insert_asset, split_args, split_args_basic,
};

fn simple(path: &str) -> Asset {
    Asset::Simple(path.to_string())
}

fn asset_path(a: &Asset) -> String {
    a.path().clone()
}

#[test]
fn asset_identity_is_path_keyed() {
    let mut assets: Vec<Asset> = Vec::new();
    insert_asset(&mut assets, simple("/a.js"));
    insert_asset(
        &mut assets,
        Asset::Advanced { path: "/a.js".to_string(), cache_control: "no-cache".to_string() },
    );
    assert_eq!(assets.len(), 1);
    match &assets[0] {
        Asset::Advanced { path, cache_control } => {
            assert_eq!(path, "/a.js");
            assert_eq!(cache_control, "no-cache");
        },
        Asset::Simple(_) => panic!("expected the advanced form to replace the plain one"),
    }
}

fn base_config(paths: &[&str]) -> ConfigurationFile {
    let mut config = ConfigurationFile::empty();
    config.version = 1;
    attach_assets(&mut config, paths.iter().map(|p| p.to_string()).collect());
    config
}

#[test]
fn default_router_prefers_redirects() {
    let mut config = base_config(&["/a/index.html", "/index.html", "/b.html"]);
    let warnings = attach_middleware(
        &mut config,
        Vec::new(),
        Vec::new(),
        Vec::new(),
        false,
        false,
        false,
        false,
        Vec::new(),
    );
    assert_eq!(warnings.len(), 0);
    assert_eq!(config.preprocessors.puppets.len(), 0);
    let triples: Vec<(u16, String, String)> = config
        .preprocessors
        .redirects
        .iter()
        .map(|r| (r.status, r.path.clone(), r.location.clone()))
        .collect();
    assert_eq!(triples.len(), 2);
    assert!(triples.contains(&(308, "/a".to_string(), "/a/index.html".to_string())));
    assert!(triples.contains(&(308, "/".to_string(), "/index.html".to_string())));
    // the plain asset stays untouched
    assert!(config.assets.iter().any(|a| asset_path(a) == "/b.html"));
}

#[test]
fn default_router_prefers_puppets_when_asked() {
    let mut config = base_config(&["/a/index.html", "/index.html", "/b.html"]);
    attach_middleware(
        &mut config,
        Vec::new(),
        Vec::new(),
        Vec::new(),
        false,
        true,
        false,
        false,
        Vec::new(),
    );
    assert_eq!(config.preprocessors.redirects.len(), 0);
    let pairs: Vec<(String, String)> = config.preprocessors.puppets.clone();
    assert_eq!(pairs.len(), 2);
    assert!(pairs.contains(&("/a".to_string(), "/a/index.html".to_string())));
    assert!(pairs.contains(&("/".to_string(), "/index.html".to_string())));
}

#[test]
fn interceptor_needs_an_existing_asset() {
    let mut config = base_config(&["/b.html"]);
    let warnings = attach_middleware(
        &mut config,
        vec!["404:/404.html".to_string()],
        Vec::new(),
        Vec::new(),
        false,
        false,
        false,
        true,
        Vec::new(),
    );
    assert_eq!(config.postprocessors.interceptors.len(), 0);
    assert_eq!(warnings.len(), 1);

    let mut config = base_config(&["/404.html"]);
    let warnings = attach_middleware(
        &mut config,
        vec!["404:/404.html".to_string()],
        Vec::new(),
        Vec::new(),
        false,
        false,
        false,
        true,
        Vec::new(),
    );
    assert_eq!(warnings.len(), 0);
    assert_eq!(config.postprocessors.interceptors.len(), 1);
    let ic = &config.postprocessors.interceptors[0];
    assert_eq!(ic.method, Method::GET);
    assert_eq!(ic.status, 404);
    assert_eq!(ic.path, "/404.html");
}

#[test]
fn interceptor_star_expands_to_every_method() {
    let mut config = base_config(&["/404.html"]);
    attach_middleware(
        &mut config,
        vec!["404:*:/404.html".to_string()],
        Vec::new(),
        Vec::new(),
        false,
        false,
        false,
        true,
        Vec::new(),
    );
    assert_eq!(config.postprocessors.interceptors.len(), 9);
}

#[test]
fn cache_control_last_write_wins() {
    let mut config = base_config(&["/a.js"]);
    let warnings = attach_asset_cache_control(
        &mut config,
        vec!["no-cache:/a.js".to_string(), "max-age=60:/a.js".to_string()],
    );
    assert_eq!(warnings.len(), 0);
    assert_eq!(config.assets.len(), 1);
    match &config.assets[0] {
        Asset::Advanced { path, cache_control } => {
            assert_eq!(path, "/a.js");
            assert_eq!(cache_control, "max-age=60");
        },
        Asset::Simple(_) => panic!("expected an advanced asset"),
    }
}

#[test]
fn cache_control_rejects_bad_values_and_missing_assets() {
    let mut config = base_config(&["/a.js"]);
    let warnings = attach_asset_cache_control(
        &mut config,
        vec![
            "max-age=60s:/a.js".to_string(),
            "public:/a.js".to_string(),
            "no-cache:/missing.js".to_string(),
        ],
    );
    assert_eq!(warnings.len(), 3);
    match &config.assets[0] {
        Asset::Simple(path) => assert_eq!(path, "/a.js"),
        Asset::Advanced { .. } => panic!("nothing should have been attached"),
    }
}

#[test]
fn guards_hash_credentials_and_normalize_patterns() {
    let mut config = ConfigurationFile::empty();
    attach_middleware(
        &mut config,
        Vec::new(),
        Vec::new(),
        Vec::new(),
        false,
        false,
        false,
        true,
        vec!["alice:secret:/admin".to_string(), "alice::".to_string()],
    );
    assert_eq!(config.preprocessors.guards.len(), 2);
    let g = &config.preprocessors.guards[0];
    assert_eq!(g.credentials.username.len(), 64);
    let password = g.credentials.password.as_ref().expect("password must be hashed");
    assert_eq!(password.len(), 64);
    assert_ne!(password, &g.credentials.username);
    assert_eq!(g.patterns, vec!["/admin/".to_string()]);
    assert!(matches!(g.scheme, AuthScheme::Basic));

    let g = &config.preprocessors.guards[1];
    assert_eq!(g.credentials.username.len(), 64);
    assert!(g.credentials.password.is_none());
    assert_eq!(g.patterns, vec!["*".to_string()]);
}

#[test]
fn guard_pattern_keeps_wildcard_and_slash_endings() {
    let mut config = ConfigurationFile::empty();
    attach_middleware(
        &mut config,
        Vec::new(),
        Vec::new(),
        Vec::new(),
        false,
        false,
        false,
        true,
        vec!["u:p:/files/*".to_string(), "u:p:/files/".to_string()],
    );
    assert_eq!(config.preprocessors.guards[0].patterns, vec!["/files/*".to_string()]);
    assert_eq!(config.preprocessors.guards[1].patterns, vec!["/files/".to_string()]);
}

#[test]
fn explicit_redirects_parse_status_and_deduplicate() {
    let mut config = ConfigurationFile::empty();
    let warnings = attach_middleware(
        &mut config,
        Vec::new(),
        Vec::new(),
        vec![
            "/old:301:/new".to_string(),
            "/old:301:/new".to_string(),
            "from:/plain".to_string(),
            "broken".to_string(),
        ],
        false,
        false,
        false,
        true,
        Vec::new(),
    );
    assert_eq!(warnings.len(), 1);
    assert_eq!(config.preprocessors.redirects.len(), 2);
    assert_eq!(config.preprocessors.redirects[0].status, 301);
    assert_eq!(config.preprocessors.redirects[0].path, "/old");
    assert_eq!(config.preprocessors.redirects[0].location, "/new");
    assert_eq!(config.preprocessors.redirects[1].status, 308);
    assert_eq!(config.preprocessors.redirects[1].path, "/from");
    assert_eq!(config.preprocessors.redirects[1].location, "/plain");
}

#[test]
fn redirect_with_url_location_defaults_to_308() {
    let mut config = ConfigurationFile::empty();
    attach_middleware(
        &mut config,
        Vec::new(),
        Vec::new(),
        vec!["/out:https://example.org/x".to_string()],
        false,
        false,
        false,
        true,
        Vec::new(),
    );
    assert_eq!(config.preprocessors.redirects.len(), 1);
    assert_eq!(config.preprocessors.redirects[0].status, 308);
    assert_eq!(config.preprocessors.redirects[0].location, "https://example.org/x");
}

#[test]
fn explicit_puppets_overwrite_by_key() {
    let mut config = ConfigurationFile::empty();
    attach_middleware(
        &mut config,
        Vec::new(),
        vec!["/:/index.html".to_string(), "/:/other.html".to_string()],
        Vec::new(),
        false,
        false,
        false,
        true,
        Vec::new(),
    );
    assert_eq!(config.preprocessors.puppets.len(), 1);
    assert_eq!(config.preprocessors.puppets[0].0, "/");
    assert_eq!(config.preprocessors.puppets[0].1, "/other.html");
}

#[test]
fn file_router_strips_extensions_and_index() {
    let mut config = base_config(&["/about.html", "/a/index.html"]);
    attach_middleware(
        &mut config,
        Vec::new(),
        Vec::new(),
        Vec::new(),
        true,
        true,
        false,
        false,
        Vec::new(),
    );
    let pairs = config.preprocessors.puppets.clone();
    assert!(pairs.contains(&("/about".to_string(), "/about.html".to_string())));
    assert!(pairs.contains(&("/a".to_string(), "/a/index.html".to_string())));
}

#[test]
fn split_args_normalizes_the_from_side() {
    let (from, to) = split_args("from:to").expect("must split");
    assert_eq!(from, "/from");
    assert_eq!(to, "to");
    let (from, to) = split_args("/a/:b").expect("must split");
    assert_eq!(from, "/a");
    assert_eq!(to, "b");
    assert!(split_args("nocolon").is_none());
    let (a, b) = split_args_basic("x:y:z").expect("must split");
    assert_eq!(a, "x");
    assert_eq!(b, "y:z");
}

#[test]
fn validation_catches_each_constraint() {
    let mut config = ConfigurationFile::empty();
    assert!(config.validate().is_ok());
    config.assets.push(Asset::Simple("relative.js".to_string()));
    assert_eq!(config.validate(), Err(ValidationFault::BadAsset));
    config.assets.clear();
    config.assets.push(Asset::Simple("/dir/".to_string()));
    assert_eq!(config.validate(), Err(ValidationFault::BadAsset));
    config.assets.clear();
    config.assets.push(Asset::Simple("/a/../b.js".to_string()));
    assert_eq!(config.validate(), Err(ValidationFault::BadAsset));
    config.assets.clear();
    config.preprocessors.redirects.push(zugriff::configuration::Redirect {
        status: 200,
        path: "/a".to_string(),
        location: "/b".to_string(),
    });
    assert_eq!(config.validate(), Err(ValidationFault::BadRedirect));
    config.preprocessors.redirects.clear();
    config.preprocessors.puppets.push(("/x".to_string(), "/y.html".to_string()));
    config.preprocessors.puppets.push(("/x".to_string(), "/z.html".to_string()));
    assert_eq!(config.validate(), Err(ValidationFault::DuplicatePuppet));
}

#[test]
fn defaults_match_the_manifest_conventions() {
    assert_eq!(Method::default(), Method::GET);
    assert!(matches!(AuthScheme::default(), AuthScheme::Basic));
}

#[test]
fn method_parse_accepts_exact_upper_case_names() {
    assert_eq!(Method::from_str("GET"), Ok(Method::GET));
    assert_eq!(Method::from_str("TRACE"), Ok(Method::TRACE));
    assert!(Method::from_str("get").is_err());
    assert!(Method::from_str("").is_err());
}

#[test]
fn lower_case_interceptor_method_is_upper_cased() {
    let mut config = base_config(&["/404.html"]);
    attach_middleware(
        &mut config,
        vec!["404:post:/404.html".to_string()],
        Vec::new(),
        Vec::new(),
        false,
        false,
        false,
        true,
        Vec::new(),
    );
    assert_eq!(config.postprocessors.interceptors.len(), 1);
    assert_eq!(config.postprocessors.interceptors[0].method, Method::POST);
}

#[test]
fn one_compile_pass_runs_every_step_in_order() {
    let (config, warnings) = compile_configuration(
        vec!["/index.html".to_string(), "/a.js".to_string()],
        Vec::new(),
        Vec::new(),
        Vec::new(),
        false,
        false,
        false,
        false,
        false,
        false,
        vec!["u:p".to_string()],
        vec!["no-store:/a.js".to_string()],
    );
    assert_eq!(warnings.len(), 0);
    assert_eq!(config.version, 1);
    assert_eq!(config.preprocessors.redirects.len(), 1);
    assert_eq!(config.preprocessors.redirects[0].path, "/");
    assert_eq!(config.preprocessors.guards.len(), 1);
    match &config.assets[1] {
        Asset::Advanced { cache_control, .. } => assert_eq!(cache_control, "no-store"),
        _ => panic!("the cache-control flag must apply"),
    }
    assert!(config.validate().is_ok());

    // a found function turns the static router off
    let (config, _) = compile_configuration(
        vec!["/index.html".to_string()],
        Vec::new(),
        Vec::new(),
        Vec::new(),
        false,
        false,
        false,
        false,
        false,
        true,
        Vec::new(),
        Vec::new(),
    );
    assert_eq!(config.preprocessors.redirects.len(), 0);
}

#[test]
fn the_bundled_function_gets_its_route() {
    let mut config = ConfigurationFile::empty();
    zugriff::middleware::attach_function_route(&mut config);
    assert_eq!(config.functions.len(), 1);
    assert_eq!(config.functions[0].path, "/index.mjs");
    assert_eq!(config.functions[0].pattern, "*");
}

#[test]
fn technology_detection_marks_the_manifest() {
    let mut config = ConfigurationFile::empty();
    zugriff::middleware::apply_technology_detection(&mut config, false);
    assert!(config.meta.is_none());
    zugriff::middleware::apply_technology_detection(&mut config, true);
    match config.meta {
        Some(meta) => assert!(matches!(
            meta.technology,
            Some(zugriff::configuration::Technology::Hono)
        )),
        None => panic!("the framework tag must be set"),
    }
}
