use std::io::Read;

use manga_vault_plugins::pack::{
    api_major_of, artifact_name, backend_name, bundle, enters, hex_digest, is_source,
    missing_entrypoint, needs_build, newest_source_mtime, package_artifact_name, plugin_api,
    repo_entry, sort_entries, wasm_file_name, Backend, Manifest, RepoEntry, MEMBER_MODE,
};

fn manifest(id: &str) -> Manifest {
    Manifest {
        id: id.to_string(),
        backend: Backend::Wasm,
        entrypoint: "plugin.wasm".to_string(),
        version: "1.2.0".to_string(),
        min_app_version: Some("0.5.0".to_string()),
    }
}

fn entry(id: &str, version: &str) -> RepoEntry {
    RepoEntry {
        id: id.to_string(),
        backend: "wasm",
        version: version.to_string(),
        plugin_api: "1.0".to_string(),
        min_app_version: None,
        sha256: String::new(),
        url: String::new(),
    }
}

#[test]
fn recognizes_source_files() {
    assert!(is_source("lib.rs"));
    assert!(is_source("Cargo.toml"));
    assert!(is_source("a.b.rs"));
    assert!(!is_source(".rs"));
    assert!(!is_source("rs"));
    assert!(!is_source("Cargo.lock"));
    assert!(!is_source("main.rs.bak"));
    assert!(!is_source(".."));
    assert!(!is_source("file."));
}

#[test]
fn skips_build_directories() {
    assert!(enters(true, Some("src")));
    assert!(!enters(true, Some("target")));
    assert!(!enters(false, Some("lib.rs")));
    assert!(!enters(true, None));
}

#[test]
fn finds_the_newest_source() {
    let files = vec![
        ("lib.rs".to_string(), Some(10u128)),
        ("notes.txt".to_string(), Some(99)),
        ("Cargo.toml".to_string(), Some(30)),
        ("mod.rs".to_string(), None),
        ("plugin.toml".to_string(), Some(20)),
    ];
    assert_eq!(newest_source_mtime(&files), Some(30));
    assert_eq!(newest_source_mtime(&vec![("a.txt".to_string(), Some(5))]), None);
    assert_eq!(newest_source_mtime(&Vec::new()), None);
}

#[test]
fn rebuilds_stale_or_missing_artifacts() {
    assert!(needs_build(Some(10), false, None));
    assert!(needs_build(Some(10), true, Some(5)));
    assert!(!needs_build(Some(10), true, Some(10)));
    assert!(needs_build(Some(10), true, None));
    assert!(needs_build(None, false, None));
    assert!(!needs_build(None, true, Some(1)));
}

#[test]
fn reads_the_package_name() {
    let cargo = "[package]\n  name = \"wtr-lab\"\nversion = \"0.1.0\"\n";
    assert_eq!(package_artifact_name(cargo), Ok("wtr_lab".to_string()));
    assert_eq!(package_artifact_name("name = \"a-b-c\"\r\n"), Ok("a_b_c".to_string()));
    assert_eq!(package_artifact_name("name = \"open\r\n"), Ok("open".to_string()));
    assert_eq!(package_artifact_name("name = \"open\r"), Ok("open\r".to_string()));
    assert_eq!(package_artifact_name("[package]\nversion = \"1\"\n"), Err("package name missing".to_string()));
    assert_eq!(package_artifact_name(""), Err("package name missing".to_string()));
    assert_eq!(wasm_file_name("wtr_lab"), "wtr_lab.wasm");
}

#[test]
fn reads_the_plugin_api() {
    let text = "id = \"x\"\nplugin_api = \"2.1\"\n";
    assert_eq!(plugin_api(text), Ok("2.1".to_string()));
    assert_eq!(plugin_api("id = \"x\"\n"), Err("plugin_api missing".to_string()));
    assert_eq!(api_major_of(text), Some(2));
    assert_eq!(api_major_of("plugin_api = \"+3\"\n"), Some(3));
    assert_eq!(api_major_of("plugin_api = \"x.1\"\n"), None);
    assert_eq!(api_major_of("plugin_api = \"\"\n"), None);
    assert_eq!(api_major_of("plugin_api = \"18446744073709551616.0\"\n"), None);
    assert_eq!(api_major_of("plugin_api = \"18446744073709551615\"\n"), Some(u64::MAX));
    assert_eq!(api_major_of(""), None);
}

#[test]
fn names_artifacts_and_errors() {
    assert_eq!(artifact_name("wtr_lab", "1.0.0"), "wtr_lab-1.0.0.mvplug");
    assert_eq!(missing_entrypoint("main.lua"), "lua entrypoint main.lua missing");
    assert_eq!(backend_name(Backend::Wasm), "wasm");
    assert_eq!(backend_name(Backend::Lua), "lua");
}

#[test]
fn writes_digests_in_lower_case_hex() {
    assert_eq!(hex_digest(&[0x00, 0x0f, 0xa0, 0xff]), "000fa0ff");
    assert_eq!(hex_digest(&[]), "");
}

#[test]
fn bundles_manifest_and_entry_point() {
    let z = bundle(&manifest("demo"), b"id = \"demo\"\n", b"\0asm").unwrap();
    let mut tar_bytes = Vec::new();
    flate2::read::GzDecoder::new(z.as_slice()).read_to_end(&mut tar_bytes).unwrap();
    let mut archive = tar::Archive::new(tar_bytes.as_slice());
    let mut seen = Vec::new();
    for file in archive.entries().unwrap() {
        let mut file = file.unwrap();
        let path = file.path().unwrap().to_string_lossy().into_owned();
        let mode = file.header().mode().unwrap();
        let mut data = Vec::new();
        file.read_to_end(&mut data).unwrap();
        seen.push((path, data, mode));
    }
    assert_eq!(
        seen,
        vec![
            ("demo/plugin.toml".to_string(), b"id = \"demo\"\n".to_vec(), MEMBER_MODE),
            ("demo/plugin.wasm".to_string(), b"\0asm".to_vec(), MEMBER_MODE),
        ]
    );
    assert!(bundle(&manifest("../up"), b"", b"").is_err());
}

#[test]
fn lists_a_plugin_in_the_index() {
    let text = "plugin_api = \"1.0\"\n";
    let e = repo_entry(&manifest("demo"), text, "https://example.test/dl", b"abc").unwrap();
    assert_eq!(e.id, "demo");
    assert_eq!(e.backend, "wasm");
    assert_eq!(e.version, "1.2.0");
    assert_eq!(e.plugin_api, "1.0");
    assert_eq!(e.min_app_version, Some("0.5.0".to_string()));
    assert_eq!(e.sha256, "ba7816bf8f01cfea414140de5dae2223b00361a396177a9cb410ff61f20015ad");
    assert_eq!(e.url, "https://example.test/dl/demo-1.2.0.mvplug");
    assert!(repo_entry(&manifest("demo"), "", "https://example.test", b"").is_err());
}

#[test]
fn orders_the_index_by_id() {
    let sorted = sort_entries(vec![entry("b", "1"), entry("a", "1"), entry("b", "2"), entry("Z", "1")]);
    let keys: Vec<(String, String)> = sorted.iter().map(|e| (e.id.clone(), e.version.clone())).collect();
    assert_eq!(
        keys,
        vec![
            ("Z".to_string(), "1".to_string()),
            ("a".to_string(), "1".to_string()),
            ("b".to_string(), "1".to_string()),
            ("b".to_string(), "2".to_string()),
        ]
    );
}
