use nibble::manifest::{Dependency, ManifestError};
use nibble::packages::{
    add_dependency_to_manifest, list, load_manifest, parse_manifest, require_manifest,
    resolve_local_manifest,
};
use nibble::project::{manifest_template, CompilerTarget};

const BASIC: &str = r#"at name="demo" entry="src/main.mysz" version="0.1.0" description="" {
    author "Ada"
    author "Grace"
}

compiler {
    target "llvm"
}

dependencies {
    std version="0.3.5"
    util at="mysz-util" source="github:someone/util"
}
"#;

#[test]
fn parses_full_manifest() {
    let m = parse_manifest(BASIC).unwrap();
    assert_eq!(m.at.name, "demo");
    assert_eq!(m.at.entry.as_deref(), Some("src/main.mysz"));
    assert_eq!(m.at.version, "0.1.0");
    assert_eq!(m.at.output, None);
    assert_eq!(m.at.description.as_deref(), Some(""));
    assert_eq!(m.at.authors, vec!["Ada".to_string(), "Grace".to_string()]);
    assert_eq!(m.compiler.target.as_deref(), Some("llvm"));
    assert_eq!(m.dependencies.len(), 2);
    assert_eq!(m.dependencies[0].alias, "std");
    assert_eq!(m.dependencies[0].at, "std");
    assert_eq!(m.dependencies[0].version.as_deref(), Some("0.3.5"));
    assert_eq!(m.dependencies[0].source, None);
    assert_eq!(m.dependencies[1].alias, "util");
    assert_eq!(m.dependencies[1].at, "mysz-util");
    assert_eq!(m.dependencies[1].source.as_deref(), Some("github:someone/util"));
    assert!(matches!(m.compiler.target(), Ok(CompilerTarget::Llvm)));
}

#[test]
fn new_project_manifest_parses() {
    let text = manifest_template("hello");
    let m = parse_manifest(&text).unwrap();
    assert_eq!(m.at.name, "hello");
    assert_eq!(m.at.entry.as_deref(), Some("src/main.mysz"));
    assert_eq!(m.at.version, "0.1.0");
    assert_eq!(m.at.authors, vec!["".to_string()]);
    assert!(matches!(m.compiler.target(), Ok(CompilerTarget::Cranelift)));
    assert_eq!(m.dependencies.len(), 1);
    assert_eq!(m.dependencies[0].alias, "std");
    assert_eq!(m.dependencies[0].version.as_deref(), Some("0.3.5"));
}

#[test]
fn default_target_is_cranelift() {
    let m = parse_manifest("at name=\"x\" version=\"1\"\n").unwrap();
    assert!(matches!(m.compiler.target(), Ok(CompilerTarget::Cranelift)));
    assert!(m.dependencies.is_empty());
    assert!(m.at.authors.is_empty());
}

#[test]
fn unknown_target_is_refused() {
    let m = parse_manifest("at name=\"x\" version=\"1\"\ncompiler {\n target \"gcc\"\n}\n").unwrap();
    assert!(m.compiler.target().is_err());
}

#[test]
fn syntax_error_is_reported() {
    match parse_manifest("at name=\"x") {
        Err(ManifestError::Syntax(m)) => assert_eq!(m, "Failed to parse KDL document"),
        other => panic!("unexpected {:?}", other),
    }
}

#[test]
fn missing_at_is_refused() {
    assert!(matches!(parse_manifest("dependencies {\n}\n"), Err(ManifestError::MissingAt)));
}

#[test]
fn duplicate_at_is_refused() {
    let text = "at name=\"a\" version=\"1\"\nat name=\"b\" version=\"1\"\n";
    assert!(matches!(parse_manifest(text), Err(ManifestError::DuplicateAt)));
}

#[test]
fn unknown_top_level_node_is_refused() {
    match parse_manifest("at name=\"a\" version=\"1\"\nbuild\n") {
        Err(ManifestError::UnknownTopLevel(n)) => assert_eq!(n, "build"),
        other => panic!("unexpected {:?}", other),
    }
}

#[test]
fn unknown_attribute_is_refused() {
    match parse_manifest("at name=\"a\" version=\"1\" colour=\"red\"\n") {
        Err(ManifestError::UnknownAttribute { attr, node, allowed }) => {
            assert_eq!(attr, "colour");
            assert_eq!(node, "at");
            assert_eq!(allowed.len(), 5);
        }
        other => panic!("unexpected {:?}", other),
    }
}

#[test]
fn positional_on_at_is_refused() {
    match parse_manifest("at \"x\" name=\"a\" version=\"1\"\n") {
        Err(ManifestError::UnexpectedPositional(n)) => assert_eq!(n, "at"),
        other => panic!("unexpected {:?}", other),
    }
}

#[test]
fn missing_name_is_refused() {
    match parse_manifest("at version=\"1\"\n") {
        Err(ManifestError::MissingAttribute { key, node }) => {
            assert_eq!(key, "name");
            assert_eq!(node, "at");
        }
        other => panic!("unexpected {:?}", other),
    }
}

#[test]
fn non_string_property_is_refused() {
    match parse_manifest("at name=\"a\" version=1\n") {
        Err(ManifestError::NotAString { key, node }) => {
            assert_eq!(key, "version");
            assert_eq!(node, "at");
        }
        other => panic!("unexpected {:?}", other),
    }
}

#[test]
fn author_errors() {
    assert!(matches!(
        parse_manifest("at name=\"a\" version=\"1\" {\n author\n}\n"),
        Err(ManifestError::MissingValue(_))
    ));
    assert!(matches!(
        parse_manifest("at name=\"a\" version=\"1\" {\n author 3\n}\n"),
        Err(ManifestError::NonStringValue(_))
    ));
    assert!(matches!(
        parse_manifest("at name=\"a\" version=\"1\" {\n author x=\"y\"\n}\n"),
        Err(ManifestError::UnknownAttribute { .. })
    ));
    match parse_manifest("at name=\"a\" version=\"1\" {\n editor \"z\"\n}\n") {
        Err(ManifestError::UnknownChild { parent, child }) => {
            assert_eq!(parent, "at");
            assert_eq!(child, "editor");
        }
        other => panic!("unexpected {:?}", other),
    }
}

#[test]
fn dependency_with_children_is_refused() {
    let text = "at name=\"a\" version=\"1\"\ndependencies {\n std {\n  x\n }\n}\n";
    match parse_manifest(text) {
        Err(ManifestError::DependencyHasChildren(n)) => assert_eq!(n, "std"),
        other => panic!("unexpected {:?}", other),
    }
}

#[test]
fn load_and_require() {
    assert!(matches!(load_manifest(None), Ok(None)));
    assert!(matches!(require_manifest(None), Err(ManifestError::NoManifest)));
    assert_eq!(require_manifest(Some(BASIC)).unwrap().at.name, "demo");
    assert!(resolve_local_manifest(None).unwrap().is_empty());
    let deps = resolve_local_manifest(Some(BASIC)).unwrap();
    assert_eq!(deps.len(), 2);
    assert_eq!(deps[1].alias, "util");
}

#[test]
fn added_dependency_reads_back() {
    let dep = Dependency::from_install_args(
        "json".to_string(),
        Some("mysz-json".to_string()),
        Some("1.2.0".to_string()),
        None,
    );
    let text = add_dependency_to_manifest(BASIC, &dep).unwrap();
    let m = parse_manifest(&text).unwrap();
    assert_eq!(m.dependencies.len(), 3);
    let d = &m.dependencies[2];
    assert_eq!(d.alias, "json");
    assert_eq!(d.at, "mysz-json");
    assert_eq!(d.version.as_deref(), Some("1.2.0"));
    assert_eq!(d.source, None);
}

#[test]
fn added_dependency_replaces_same_alias() {
    let dep = Dependency::from_install_args("std".to_string(), None, Some("0.4.0".to_string()), None);
    let text = add_dependency_to_manifest(BASIC, &dep).unwrap();
    let m = parse_manifest(&text).unwrap();
    assert_eq!(m.dependencies.len(), 2);
    assert_eq!(m.dependencies[0].alias, "std");
    assert_eq!(m.dependencies[0].version.as_deref(), Some("0.4.0"));
    assert!(!text.contains("0.3.5"));
    assert_eq!(m.dependencies[1].alias, "util");
}

#[test]
fn added_dependency_creates_section() {
    let dep = Dependency::from_install_args("std".to_string(), None, None, None);
    let text = add_dependency_to_manifest("// project\nat name=\"a\" version=\"1\"\n", &dep).unwrap();
    assert!(text.starts_with("// project\n"));
    let m = parse_manifest(&text).unwrap();
    assert_eq!(m.dependencies.len(), 1);
    assert_eq!(m.dependencies[0].alias, "std");
    assert_eq!(m.dependencies[0].at, "std");
}

#[test]
fn added_dependency_opens_children_block() {
    let dep = Dependency::from_install_args("std".to_string(), None, Some("1.0.0".to_string()), None);
    let text = add_dependency_to_manifest("at name=\"a\" version=\"1\"\ndependencies\n", &dep).unwrap();
    let m = parse_manifest(&text).unwrap();
    assert_eq!(m.dependencies.len(), 1);
    assert_eq!(m.dependencies[0].alias, "std");
    assert_eq!(m.dependencies[0].version.as_deref(), Some("1.0.0"));
    assert_eq!(text.matches("dependencies").count(), 1);
}

#[test]
fn recording_a_dependency_twice_changes_nothing() {
    let dep = Dependency::from_install_args(
        "json".to_string(),
        Some("mysz-json".to_string()),
        Some("1.2.0".to_string()),
        None,
    );
    let once = add_dependency_to_manifest(BASIC, &dep).unwrap();
    let twice = add_dependency_to_manifest(&once, &dep).unwrap();
    let m1 = parse_manifest(&once).unwrap();
    let m2 = parse_manifest(&twice).unwrap();
    assert_eq!(format!("{:?}", m1), format!("{:?}", m2));
    assert_eq!(m2.dependencies.len(), 3);
}

#[test]
fn add_dependency_refuses_invalid_manifest() {
    let dep = Dependency::from_install_args("std".to_string(), None, None, None);
    assert!(matches!(add_dependency_to_manifest("oops {", &dep), Err(ManifestError::Syntax(_))));
    assert!(matches!(
        add_dependency_to_manifest("dependencies {\n}\n", &dep),
        Err(ManifestError::MissingAt)
    ));
}

#[test]
fn install_args_default_the_package_to_the_alias() {
    let d = Dependency::from_install_args("std".to_string(), None, None, None);
    assert_eq!(d.at, "std");
    let d = Dependency::from_install_args("s".to_string(), Some("std".to_string()), None, None);
    assert_eq!(d.alias, "s");
    assert_eq!(d.at, "std");
}

#[test]
fn list_marks_uncached_packages() {
    let m = parse_manifest(BASIC).unwrap();
    let lines = list(&m, &vec![true, false]);
    assert_eq!(lines, vec!["@demo".to_string(), "@std".to_string(), "@util (not cached)".to_string()]);
}

#[test]
fn output_name_prefers_output() {
    let m = parse_manifest("at name=\"a\" version=\"1\" output=\"bin\"\n").unwrap();
    assert_eq!(m.at.output_name(), "bin");
    let m = parse_manifest("at name=\"a\" version=\"1\"\n").unwrap();
    assert_eq!(m.at.output_name(), "a");
}
