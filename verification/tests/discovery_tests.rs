use zugriff::deploy::{Message, State};
use zugriff::discovery::{
    discover_files, extract_next_worker, resolve_function_entry, RelativeFile,
};
use zugriff::environment::Environment;
use zugriff::pretty::Status;
use zugriff::redact::redact;
use zugriff::runner::{bundle_args, normalise_path_for_node, replace_all, should_restart, WatchEvent};

fn rel(segments: &[&str], name: &str) -> RelativeFile {
    RelativeFile {
        segments: segments.iter().map(|s| s.to_string()).collect(),
        name: name.to_string(),
    }
}

#[test]
fn discovered_files_get_url_paths_under_the_prefix() {
    let files = vec![rel(&[], "index.html"), rel(&["img", "icons"], "x.svg")];
    let urls = discover_files("/", &files);
    assert_eq!(urls, vec!["/index.html".to_string(), "/img/icons/x.svg".to_string()]);
}

#[test]
fn function_probe_takes_the_first_candidate() {
    assert_eq!(resolve_function_entry(true, true, true, true), Some("index.js".to_string()));
    assert_eq!(resolve_function_entry(false, true, true, true), Some("index.ts".to_string()));
    assert_eq!(resolve_function_entry(false, false, true, true), Some("src/index.js".to_string()));
    assert_eq!(resolve_function_entry(false, false, false, true), Some("src/index.ts".to_string()));
    assert_eq!(resolve_function_entry(false, false, false, false), None);
}

#[test]
fn build_output_files_map_to_route_patterns() {
    let files = vec![
        rel(&[], "_not-found.func.js"),
        rel(&[], "index.func.js"),
        rel(&[], "about.func.js"),
        rel(&["blog", "[slug]"], "index.func.js"),
        rel(&["api"], "[id].func.js"),
        rel(&[], "readme.txt"),
    ];
    let workers = extract_next_worker(&files);
    let patterns: Vec<(String, usize)> = workers;
    assert_eq!(
        patterns,
        vec![
            ("*".to_string(), 0),
            ("/".to_string(), 1),
            ("/about/".to_string(), 2),
            ("/blog/*/index/".to_string(), 3),
            ("/api/*/".to_string(), 4),
        ]
    );
}

#[test]
fn restart_ignores_the_output_and_dependency_directories() {
    let inside = vec!["web".to_string(), ".zugriff".to_string(), "config.json".to_string()];
    let deps = vec!["node_modules".to_string(), "x".to_string()];
    let source = vec!["src".to_string(), "index.ts".to_string()];
    assert!(!should_restart(WatchEvent::Modify, &inside));
    assert!(!should_restart(WatchEvent::Create, &deps));
    assert!(should_restart(WatchEvent::Modify, &source));
    assert!(should_restart(WatchEvent::Remove, &source));
    assert!(!should_restart(WatchEvent::Other, &source));
}

#[test]
fn template_placeholders_are_substituted_everywhere() {
    assert_eq!(
        replace_all("listen(<ADDRESS>); log(<ADDRESS>)", "<ADDRESS>", "127.0.0.1"),
        "listen(127.0.0.1); log(127.0.0.1)"
    );
    assert_eq!(replace_all("no placeholder", "<X>", "y"), "no placeholder");
    assert_eq!(normalise_path_for_node("C:\\a\\b"), "C:\\\\a\\\\b");
    assert_eq!(normalise_path_for_node("/plain/path"), "/plain/path");
}

#[test]
fn bundler_arguments_follow_the_fixed_invocation() {
    let args = bundle_args("/tmp/entry.mjs", &vec!["lodash".to_string()], "/tmp/out.mjs");
    assert_eq!(args[0], "/tmp/entry.mjs");
    assert_eq!(args[1], "--bundle");
    assert!(args.contains(&"--external:postgres".to_string()));
    assert!(args.contains(&"--external:node:util".to_string()));
    assert!(args.contains(&"--external:lodash".to_string()));
    assert!(args.contains(&"--minify".to_string()));
    assert!(args.contains(&"--keep-names".to_string()));
    assert!(args.contains(&"--target=esnext".to_string()));
    assert!(args.contains(&"--platform=neutral".to_string()));
    assert!(args.contains(&"--format=esm".to_string()));
    assert_eq!(args.last().unwrap(), "--outfile=/tmp/out.mjs");
    // the caller's externals come after the fixed list
    let fixed_last = args.iter().position(|a| a == "--external:util").unwrap();
    let custom = args.iter().position(|a| a == "--external:lodash").unwrap();
    assert!(custom > fixed_last);
}

#[test]
fn redaction_keeps_a_short_prefix_and_the_last_character() {
    assert_eq!(redact("abcdef".to_string()), "ab•••f");
    assert_eq!(redact("a".to_string()), "•••a");
    assert_eq!(redact(String::new()), "•••");
    let long = redact("abcdefghijklmnopqrstuvwxyz".to_string());
    assert_eq!(long, "abcde•••z");
}

#[test]
fn log_lines_carry_the_status_icon() {
    assert_eq!(zugriff::pretty::format(None, "hello"), "►  hello");
    assert_eq!(zugriff::pretty::format(Some(Status::WARNING), "careful"), "⚠️  careful");
    assert_eq!(zugriff::pretty::format(Some(Status::LINK), "https://x"), "🔗 https://x");
}

#[test]
fn default_endpoints_are_fixed() {
    assert_eq!(Environment::deployment_api(), "https://deploy.zugriff.eu");
    assert_eq!(Environment::general_purpose_api(), "https://api.zugriff.eu");
    assert_eq!(Environment::ws_general_purpose_api(), "wss://api.zugriff.eu");
    let env = Environment::with_defaults();
    assert_eq!(env.inner().deployment_api, "https://deploy.zugriff.eu");
}

#[test]
fn guard_digest_depends_on_the_credential() {
    // two different credentials must hash differently, and the same one
    // must hash identically across calls
    let mut a = zugriff::configuration::ConfigurationFile::empty();
    zugriff::middleware::attach_middleware(
        &mut a,
        Vec::new(),
        Vec::new(),
        Vec::new(),
        false,
        false,
        false,
        true,
        vec!["alice:pw:".to_string(), "bob:pw:".to_string(), "alice:pw:".to_string()],
    );
    let g = &a.preprocessors.guards;
    assert_eq!(g[0].credentials.username, g[2].credentials.username);
    assert_ne!(g[0].credentials.username, g[1].credentials.username);
    assert_eq!(g[0].credentials.password, g[1].credentials.password);
}

#[test]
fn messages_compose_with_states() {
    // a plain construction check so the protocol types stay usable
    let m = Message::STATE(State::UPLOAD);
    match m {
        Message::STATE(s) => assert_eq!(s, State::UPLOAD),
        _ => panic!("wrong variant"),
    }
}

#[test]
fn imported_builds_start_tagged_and_skip_platform_paths() {
    let config = zugriff::discovery::platform_build_base();
    assert_eq!(config.version, 1);
    match config.meta {
        Some(meta) => assert!(matches!(
            meta.technology,
            Some(zugriff::configuration::Technology::NextJs)
        )),
        None => panic!("imported builds carry the framework tag"),
    }
    assert!(zugriff::discovery::is_internal_platform_path("_worker.js/chunk.js"));
    assert!(zugriff::discovery::is_internal_platform_path("_headers"));
    assert!(zugriff::discovery::is_internal_platform_path("cdn-cgi/x"));
    assert!(!zugriff::discovery::is_internal_platform_path("img/logo.svg"));
    assert!(!zugriff::discovery::is_internal_platform_path("_headersx"));
}

#[test]
fn imported_function_names_carry_the_drawn_number() {
    assert_eq!(
        zugriff::discovery::generated_function_name("index", 4211),
        "index.4211.mjs"
    );
    let joined = zugriff::discovery::prefix_function_bytes(b"head;", b"body");
    assert_eq!(joined, b"head;body".to_vec());
}

#[test]
fn the_entry_script_template_is_rendered_in_order() {
    let template = "dbg=<DEBUG>;base='<BASEDIR>';digest='<sha3.min.js>';out='<DOT_ZUGRIFF>';listen(<ADDRESS>)";
    let script = zugriff::runner::render_entry_script(
        template,
        true,
        "C:\\proj",
        "/tmp/digest.mjs",
        "C:\\proj\\.zugriff",
        "0.0.0.0",
    );
    assert_eq!(
        script,
        "dbg=true;base='C:\\\\proj';digest='/tmp/digest.mjs';out='C:\\\\proj\\\\.zugriff';listen(0.0.0.0)"
    );
    assert!(zugriff::runner::preview_should_pack(true, true));
    assert!(zugriff::runner::preview_should_pack(false, false));
    assert!(!zugriff::runner::preview_should_pack(false, true));
}
