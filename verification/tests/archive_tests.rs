use std::io::Read;

use zugriff::archive::{compress, report, ArchiveFile, ReportConfig};
use zugriff::codec::{encode_config, load_configuration};
use zugriff::configuration::{Asset, ConfigurationFile, Method};
use zugriff::display::{file_lines, middleware_lines};
use zugriff::middleware::{attach_asset_cache_control, attach_assets, attach_middleware};

fn sample_config() -> ConfigurationFile {
    let mut config = ConfigurationFile::empty();
    config.version = 1;
    attach_assets(
        &mut config,
        vec!["/index.html".to_string(), "/a/index.html".to_string(), "/404.html".to_string()],
    );
    attach_asset_cache_control(&mut config, vec!["max-age=60:/404.html".to_string()]);
    attach_middleware(
        &mut config,
        vec!["404:/404.html".to_string()],
        vec!["/alias:/index.html".to_string()],
        vec!["/old:301:/index.html".to_string()],
        false,
        false,
        false,
        false,
        vec!["alice:secret:/admin".to_string(), "bob::".to_string()],
    );
    assert!(config.validate().is_ok());
    config
}

#[test]
fn report_of_a_packed_archive_reproduces_the_manifest() {
    let config = sample_config();
    let functions = vec![ArchiveFile {
        name: "index.mjs".to_string(),
        data: b"export default {};".to_vec(),
    }];
    let assets = vec![
        ArchiveFile { name: "index.html".to_string(), data: b"<html></html>".to_vec() },
        ArchiveFile { name: "404.html".to_string(), data: b"gone".to_vec() },
    ];
    let bytes = compress(&config, functions, assets).expect("pack must succeed");
    let rep = report(bytes.as_slice()).expect("report must succeed");

    let names: Vec<String> = rep.files.iter().map(|f| f.0.clone()).collect();
    assert_eq!(
        names,
        vec![
            "config.json".to_string(),
            "functions/index.mjs".to_string(),
            "assets/index.html".to_string(),
            "assets/404.html".to_string(),
        ]
    );
    assert_eq!(rep.compressed as usize, bytes.len());
    let expected_uncompressed: u64 =
        encode_config(&config).len() as u64 + 18 + 13 + 4;
    assert_eq!(rep.uncompressed, expected_uncompressed);

    let found = match rep.config {
        ReportConfig::Found(found) => found,
        _ => panic!("the packed manifest must be found"),
    };
    // the report reproduces exactly the middleware that was compiled in
    assert_eq!(found.preprocessors.puppets, config.preprocessors.puppets);
    assert_eq!(found.preprocessors.redirects.len(), config.preprocessors.redirects.len());
    assert_eq!(found.preprocessors.guards.len(), config.preprocessors.guards.len());
    assert_eq!(
        found.postprocessors.interceptors.len(),
        config.postprocessors.interceptors.len()
    );
    let reported = middleware_lines(&found);
    let compiled = middleware_lines(&config);
    assert_eq!(reported, compiled);
    // one line per puppet, redirect and interceptor, one per guard pattern
    assert_eq!(
        compiled.len(),
        config.preprocessors.puppets.len() + config.preprocessors.redirects.len()
            + config.postprocessors.interceptors.len() + 2
    );
}

#[test]
fn compress_really_writes_a_gzipped_tar_stream() {
    let config = sample_config();
    let bytes = compress(&config, Vec::new(), Vec::new()).expect("pack must succeed");
    // decode with the compression and archive crates directly
    let mut decoder = flate2::read::GzDecoder::new(bytes.as_slice());
    let mut stream = Vec::new();
    decoder.read_to_end(&mut stream).expect("must be valid gzip");
    let mut archive = tar::Archive::new(stream.as_slice());
    let mut names = Vec::new();
    let mut config_bytes = Vec::new();
    for entry in archive.entries().expect("must be a valid tar stream") {
        let mut entry = entry.expect("entry must decode");
        let name = entry.path().unwrap().to_str().unwrap().to_string();
        if name == "config.json" {
            entry.read_to_end(&mut config_bytes).unwrap();
        }
        names.push(name);
    }
    assert_eq!(names, vec!["config.json".to_string()]);
    assert_eq!(config_bytes, encode_config(&config).into_bytes());
}

#[test]
fn encoded_manifest_is_plain_json() {
    let config = sample_config();
    let text = encode_config(&config);
    let value: serde_json::Value = serde_json::from_str(&text).expect("must be valid JSON");
    assert_eq!(value["version"], serde_json::Value::from(1u64));
    assert!(value["meta"].is_null());
    assert_eq!(value["assets"].as_array().unwrap().len(), config.assets.len());
    assert_eq!(
        value["preprocessors"]["redirects"].as_array().unwrap().len(),
        config.preprocessors.redirects.len()
    );
    assert_eq!(
        value["preprocessors"]["guards"].as_array().unwrap().len(),
        config.preprocessors.guards.len()
    );
    assert_eq!(
        value["postprocessors"]["interceptors"].as_array().unwrap().len(),
        config.postprocessors.interceptors.len()
    );
    assert_eq!(value["preprocessors"]["guards"][0]["scheme"], "basic");
}

#[test]
fn loading_an_encoded_manifest_gives_it_back() {
    let config = sample_config();
    let text = encode_config(&config);
    let loaded = load_configuration(&text).expect("must load");
    assert_eq!(loaded.version, config.version);
    assert_eq!(loaded.preprocessors.puppets, config.preprocessors.puppets);
    assert_eq!(loaded.preprocessors.redirects.len(), config.preprocessors.redirects.len());
    assert_eq!(loaded.preprocessors.guards.len(), config.preprocessors.guards.len());
    assert_eq!(
        loaded.postprocessors.interceptors.len(),
        config.postprocessors.interceptors.len()
    );
    assert_eq!(middleware_lines(&loaded), middleware_lines(&config));
}

#[test]
fn a_technology_tag_survives_the_round_trip() {
    let mut config = ConfigurationFile::empty();
    config.version = 1;
    config.meta = Some(zugriff::configuration::Meta {
        technology: Some(zugriff::configuration::Technology::NextJs),
    });
    let text = encode_config(&config);
    assert!(text.contains("\"Next.js\""));
    let loaded = load_configuration(&text).expect("must load");
    match loaded.meta {
        Some(meta) => match meta.technology {
            Some(zugriff::configuration::Technology::NextJs) => {},
            _ => panic!("wrong technology came back"),
        },
        None => panic!("meta must survive"),
    }
}

#[test]
fn a_legacy_manifest_upgrades_to_the_current_schema() {
    let text = "{\"meta\":null,\"version\":1,\"functions\":[],\"assets\":[\"/a.js\"],\"puppets\":{\"/\":\"/a.js\"},\"redirects\":[{\"status\":308,\"path\":\"/x\",\"location\":\"/a.js\"}]}";
    let loaded = load_configuration(text).expect("legacy manifests must load");
    assert_eq!(loaded.version, 1);
    assert_eq!(loaded.assets.len(), 1);
    assert_eq!(loaded.preprocessors.puppets, vec![("/".to_string(), "/a.js".to_string())]);
    assert_eq!(loaded.preprocessors.redirects.len(), 1);
    assert_eq!(loaded.preprocessors.guards.len(), 0);
    assert_eq!(loaded.postprocessors.interceptors.len(), 0);

    let with_interceptors = "{\"meta\":null,\"version\":1,\"functions\":[],\"assets\":[],\"puppets\":{},\"redirects\":[],\"interceptors\":[{\"method\":\"GET\",\"status\":404,\"path\":\"/404.html\"}]}";
    let loaded = load_configuration(with_interceptors).expect("must load");
    assert_eq!(loaded.postprocessors.interceptors.len(), 1);
    assert_eq!(loaded.postprocessors.interceptors[0].method, Method::GET);
}

#[test]
fn garbage_is_rejected_by_every_schema() {
    assert!(load_configuration("not json").is_err());
    assert!(load_configuration("{\"meta\":null}").is_err());
    assert!(load_configuration("").is_err());
}

#[test]
fn escaped_strings_survive_the_round_trip() {
    let mut config = ConfigurationFile::empty();
    config.version = 1;
    config.assets.push(Asset::Simple("/with \"quotes\"\\and\nnewline.js".to_string()));
    let text = encode_config(&config);
    let loaded = load_configuration(&text).expect("must load");
    match &loaded.assets[0] {
        Asset::Simple(p) => assert_eq!(p, "/with \"quotes\"\\and\nnewline.js"),
        _ => panic!("expected the plain asset back"),
    }
    // serde agrees about the escaping
    let value: serde_json::Value = serde_json::from_str(&text).unwrap();
    assert_eq!(value["assets"][0], "/with \"quotes\"\\and\nnewline.js");
}

#[test]
fn unicode_escapes_in_a_manifest_decode() {
    let text = "{\"meta\":null,\"version\":1,\"functions\":[],\"assets\":[\"/\\u0041.js\"],\"preprocessors\":{\"puppets\":{},\"redirects\":[],\"guards\":[]},\"postprocessors\":{\"interceptors\":[]}}";
    let loaded = load_configuration(text).expect("must load");
    match &loaded.assets[0] {
        Asset::Simple(p) => assert_eq!(p, "/A.js"),
        _ => panic!("expected a plain asset"),
    }
}

#[test]
fn report_flags_a_missing_or_invalid_manifest() {
    // an archive without config.json
    let mut builder = tar::Builder::new(Vec::new());
    let mut header = tar::Header::new_gnu();
    header.set_size(2);
    header.set_mode(0o644);
    builder.append_data(&mut header, "assets/x", &b"ab"[..]).unwrap();
    let stream = builder.into_inner().unwrap();
    let mut enc = flate2::write::GzEncoder::new(Vec::new(), flate2::Compression::best());
    std::io::Write::write_all(&mut enc, &stream).unwrap();
    let bytes = enc.finish().unwrap();
    let rep = report(bytes.as_slice()).expect("report must succeed");
    assert!(matches!(rep.config, ReportConfig::Missing));

    // an archive whose config.json is not a manifest
    let mut builder = tar::Builder::new(Vec::new());
    let mut header = tar::Header::new_gnu();
    header.set_size(4);
    header.set_mode(0o644);
    builder.append_data(&mut header, "config.json", &b"oops"[..]).unwrap();
    let stream = builder.into_inner().unwrap();
    let mut enc = flate2::write::GzEncoder::new(Vec::new(), flate2::Compression::best());
    std::io::Write::write_all(&mut enc, &stream).unwrap();
    let bytes = enc.finish().unwrap();
    let rep = report(bytes.as_slice()).expect("report must succeed");
    assert!(matches!(rep.config, ReportConfig::Invalid));
}

#[test]
fn report_rejects_bytes_that_are_not_an_archive() {
    assert!(report(b"definitely not gzip").is_err());
}

#[test]
fn file_lines_carry_the_entry_names() {
    let lines = file_lines(&vec![("config.json".to_string(), 42u64)]);
    assert_eq!(lines, vec!["config.json (42 bytes)".to_string()]);
}

#[test]
fn middleware_lines_spell_out_each_rule() {
    let config = sample_config();
    let lines = middleware_lines(&config);
    assert!(lines.iter().any(|l| l == "/alias → /index.html (Puppet)"));
    assert!(lines.iter().any(|l| l == "/old → 301 → /index.html (Redirect)"));
    assert!(lines.iter().any(|l| l == "→ GET → 404 → /404.html (Interceptor)"));
    assert!(lines.iter().any(|l| l.starts_with("Basic Auth → ")));
    assert!(lines.iter().any(|l| l.starts_with("Basic Auth (Passwordless) → ")));
}

#[test]
fn packing_refuses_names_tar_would_rewrite() {
    let config = sample_config();
    // a traversal segment is refused, not silently normalized away
    let bad = vec![ArchiveFile { name: "../escape.js".to_string(), data: b"x".to_vec() }];
    assert!(compress(&config, Vec::new(), bad).is_err());
    // an empty segment is refused for the same reason
    let doubled = vec![ArchiveFile { name: "a//b.js".to_string(), data: b"x".to_vec() }];
    assert!(compress(&config, doubled, Vec::new()).is_err());
    // an absolute name is refused
    let absolute = vec![ArchiveFile { name: "/abs.js".to_string(), data: b"x".to_vec() }];
    assert!(compress(&config, Vec::new(), absolute).is_err());
    // a normal-form name goes through
    let fine = vec![ArchiveFile { name: "a/b.js".to_string(), data: b"x".to_vec() }];
    assert!(compress(&config, Vec::new(), fine).is_ok());
}
