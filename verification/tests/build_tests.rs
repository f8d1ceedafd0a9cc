use nibble::defaultfilename::{get, name_from_file_name};
use nibble::linker::{
    cached_runtime_fallback, highest_cached_runtime, host_compiler, link_binary, link_shared,
    parse_runtime_filename, parse_version_name, runtime_lib_path, runtime_listing_url,
    select_latest_runtime, version_string, LinkError, RuntimeError, RuntimeListing,
};
use nibble::out::ResultType;
use nibble::paths::{build_dir, manifest_path, nout_dir, package_dir, packs_dir};
use nibble::project::{
    entry_file_path, ephemeral_target, output_path, package_source_root, project_name,
    project_entry, search_paths, source_module_path, source_root_from_parent, ProjectEntry,
};
use nibble::packages::parse_manifest;

fn s(x: &str) -> String {
    x.to_string()
}

#[test]
fn default_file_names() {
    assert_eq!(get("src/main.mysz", ResultType::Binary), "main.out");
    assert_eq!(get("lib.tar.mysz", ResultType::Object), "lib.tar.o");
    assert_eq!(get(".hidden", ResultType::Shared), ".hidden.so");
    assert_eq!(get("noext", ResultType::Binary), "noext.out");
    assert_eq!(get("..", ResultType::Binary), "...out");
    assert_eq!(name_from_file_name("a/b", None, ResultType::Object), "a/b.o");
}

#[test]
fn runtime_file_names() {
    assert_eq!(parse_runtime_filename("libmysz-runtime.1.2.3.tar.gz"), Some((1, 2, 3)));
    assert_eq!(parse_runtime_filename("libmysz-runtime.+1.02.3.tar.gz"), Some((1, 2, 3)));
    assert_eq!(parse_runtime_filename("libmysz-runtime.1.2.tar.gz"), None);
    assert_eq!(parse_runtime_filename("libmysz-runtime.1.2.3.4.tar.gz"), None);
    assert_eq!(parse_runtime_filename("libmysz-runtime.1.x.3.tar.gz"), None);
    assert_eq!(parse_runtime_filename("libmysz-runtime.4294967296.0.0.tar.gz"), None);
    assert_eq!(parse_runtime_filename("runtime.1.2.3.tar.gz"), None);
    assert_eq!(parse_runtime_filename("libmysz-runtime.1.2.3.zip"), None);
    assert_eq!(parse_version_name("10.0.4294967295"), Some((10, 0, 4294967295)));
    assert_eq!(parse_version_name("1.2"), None);
}

#[test]
fn version_strings_read_back() {
    for v in [(0, 0, 0), (1, 22, 333), (4294967295, 7, 10)] {
        let text = version_string(v);
        assert_eq!(parse_version_name(&text), Some(v));
        let archive = format!("libmysz-runtime.{}.tar.gz", text);
        assert_eq!(parse_runtime_filename(&archive), Some(v));
    }
    assert_eq!(version_string((1, 22, 333)), "1.22.333");
}

fn listing(name: &str, url: Option<&str>) -> RuntimeListing {
    RuntimeListing { name: s(name), download_url: url.map(s) }
}

#[test]
fn newest_runtime_is_chosen() {
    let entries = vec![
        listing("README.md", Some("r")),
        listing("libmysz-runtime.0.9.9.tar.gz", Some("a")),
        listing("libmysz-runtime.1.0.0.tar.gz", Some("b")),
        listing("libmysz-runtime.0.10.0.tar.gz", Some("c")),
    ];
    assert_eq!(select_latest_runtime(&entries), Ok(((1, 0, 0), s("b"))));
    let ties = vec![
        listing("libmysz-runtime.1.0.0.tar.gz", Some("first")),
        listing("libmysz-runtime.01.0.0.tar.gz", Some("second")),
    ];
    assert_eq!(select_latest_runtime(&ties), Ok(((1, 0, 0), s("second"))));
    assert_eq!(select_latest_runtime(&vec![listing("x", None)]), Err(RuntimeError::NoRuntimeArchives));
    assert_eq!(
        select_latest_runtime(&vec![listing("libmysz-runtime.1.0.0.tar.gz", None)]),
        Err(RuntimeError::MissingDownloadUrl)
    );
}

#[test]
fn highest_cached_version() {
    let names = vec![s("0.1.0"), s("junk"), s("0.10.2"), s("0.9.7"), s("libmysz-runtime.a")];
    assert_eq!(highest_cached_runtime(&names), Some((0, 10, 2)));
    assert_eq!(highest_cached_runtime(&vec![s("a.b.c")]), None);
    assert_eq!(
        cached_runtime_fallback("/home/u/.nibble/cache", &names),
        Some(s("/home/u/.nibble/cache/0.10.2/libmysz-runtime.a"))
    );
    assert_eq!(cached_runtime_fallback("c", &vec![]), None);
    assert_eq!(runtime_lib_path("c/", (1, 2, 3)), "c/1.2.3/libmysz-runtime.a");
}

#[test]
fn runtime_listing_address() {
    assert_eq!(runtime_listing_url(), "https://api.github.com/repos/mysz-lang/mysz-runtime/contents/binary");
}

#[test]
fn linker_choice() {
    assert_eq!(host_compiler(true), "clang");
    assert_eq!(host_compiler(false), "cc");
}

#[test]
fn binary_link_arguments() {
    let args = link_binary(
        &vec![s("nout/build/out.o")],
        "app",
        Some(s("/rt/libmysz-runtime.a")),
        &vec![s("helper.o"), s("lib.a")],
        &vec![true, true],
    )
    .unwrap();
    assert_eq!(args, vec![s("nout/build/out.o"), s("/rt/libmysz-runtime.a"), s("helper.o"), s("lib.a"), s("-o"), s("app")]);
    let args = link_binary(&vec![s("o.o")], "app", None, &vec![], &vec![]).unwrap();
    assert_eq!(args, vec![s("o.o"), s("-o"), s("app")]);
    match link_binary(&vec![s("o.o")], "app", None, &vec![s("a"), s("b"), s("c")], &vec![true, false, false]) {
        Err(LinkError::MissingLinkFile(f)) => assert_eq!(f, "b"),
        other => panic!("unexpected {:?}", other),
    }
}

#[test]
fn shared_link_arguments() {
    let args = link_shared(&vec![s("o.o")], "libx.so", &vec![s("h.o")], &vec![true]).unwrap();
    assert_eq!(args, vec![s("-shared"), s("o.o"), s("h.o"), s("-o"), s("libx.so")]);
    assert!(matches!(
        link_shared(&vec![s("o.o")], "x", &vec![s("m")], &vec![false]),
        Err(LinkError::MissingLinkFile(f)) if f == "m"
    ));
}

#[test]
fn directories() {
    assert_eq!(nout_dir(), "nout");
    assert_eq!(packs_dir(), "nout/packs");
    assert_eq!(build_dir(), "nout/build");
    assert_eq!(package_dir("std"), "nout/packs/std");
    assert_eq!(manifest_path(), "manifest.nibble");
    assert_eq!(source_root_from_parent("a/", Some(s("b"))), "a/b");
    assert_eq!(source_root_from_parent("", Some(s("b"))), "b");
    assert_eq!(source_root_from_parent("a", Some(s("/b"))), "/b");
}

#[test]
fn build_paths() {
    let m = parse_manifest("at name=\"p\" version=\"1\" entry=\"src/main.mysz\"\n").unwrap();
    assert_eq!(entry_file_path(&m.at), "./src/main.mysz");
    assert_eq!(output_path(None, &m.at), "p");
    assert_eq!(output_path(Some(s("out/bin")), &m.at), "out/bin");
    let m = parse_manifest("at name=\"p\" version=\"1\"\n").unwrap();
    assert_eq!(entry_file_path(&m.at), ".");
    assert_eq!(
        search_paths(vec![s("libs")], vec![s("env")], &vec![s("nout/packs/std/src")]),
        vec![s("libs"), s("nout/packs"), s("."), s("nout/packs/std/src")]
    );
    assert_eq!(
        search_paths(vec![], vec![s("env1"), s("env2")], &vec![]),
        vec![s("env1"), s("env2"), s("nout/packs"), s(".")]
    );
    assert_eq!(package_source_root("nout/packs/std", Some("src/lib.mysz")), "nout/packs/std/src");
    assert_eq!(package_source_root("nout/packs/std", Some("lib.mysz")), "nout/packs/std");
    assert_eq!(package_source_root("nout/packs/std", None), "nout/packs/std");
    assert_eq!(source_root_from_parent("d", Some(s(""))), "d");
    assert_eq!(ephemeral_target(true), "ephemeral_run.exe");
    assert_eq!(ephemeral_target(false), "./ephemeral_run");
}

#[test]
fn new_project_names() {
    assert_eq!(project_name(Some(s("a")), Some(s("b"))), "a");
    assert_eq!(project_name(None, Some(s("b"))), "b");
    assert_eq!(project_name(None, None), "main");
}

#[test]
fn project_walk_skips_nout_and_takes_mysz_files() {
    assert_eq!(project_entry(true, Some("nout"), None), ProjectEntry::Skip);
    assert_eq!(project_entry(true, Some("src"), None), ProjectEntry::Descend);
    assert_eq!(project_entry(true, None, None), ProjectEntry::Descend);
    assert_eq!(project_entry(false, Some("main.mysz"), Some("mysz")), ProjectEntry::Source);
    assert_eq!(project_entry(false, Some("notes.txt"), Some("txt")), ProjectEntry::Skip);
    assert_eq!(project_entry(false, Some("Makefile"), None), ProjectEntry::Skip);
    assert_eq!(project_entry(false, Some("nout"), Some("mysz")), ProjectEntry::Source);
}

#[test]
fn module_path_is_directories_then_stem() {
    assert_eq!(
        source_module_path(vec![s("src"), s("net")], Some(s("http"))),
        vec![s("src"), s("net"), s("http")]
    );
    assert_eq!(source_module_path(Vec::new(), Some(s("main"))), vec![s("main")]);
    assert_eq!(source_module_path(vec![s("a")], None), vec![s("a")]);
}
