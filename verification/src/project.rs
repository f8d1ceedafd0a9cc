//! What a build of the project is made of: the backend, the entry file, the
//! output, the search paths, and the files `nibble init` writes.
use vstd::prelude::*;
use vstd::string::*;
use crate::manifest::{AtMetadata, CompilerConfig};
use crate::paths::{join_path, packs_dir, path_join};
use crate::text::{chars_to_string, extend_str, text_is, to_chars};

verus! {

// ---------------------------------------------------------------------
// The backend
// ---------------------------------------------------------------------

/// The code generator a build uses.
#[derive(Clone, Copy, Debug, PartialEq, Eq, Structural)]
pub enum CompilerTarget {
    Cranelift,
    Llvm,
}

/// The backend a manifest names that nibble does not know.
#[derive(Debug, Clone)]
pub enum TargetError {
    UnknownTarget(String),
}

/// The backend `compiler { target "..." }` selects: Cranelift when none is
/// given, else `cranelift` or `llvm`.
pub open spec fn target_spec(target: Option<Seq<char>>) -> Result<CompilerTarget, Seq<char>> {
    match target {
        None => Ok(CompilerTarget::Cranelift),
        Some(t) => if t == "cranelift"@ {
            Ok(CompilerTarget::Cranelift)
        } else if t == "llvm"@ {
            Ok(CompilerTarget::Llvm)
        } else {
            Err(t)
        },
    }
}

impl CompilerConfig {
    /// The backend this configuration selects.
    pub fn target(&self) -> (r: Result<CompilerTarget, TargetError>)
        ensures
            match r {
                Ok(t) => target_spec(self.target.deep_view()) == Ok::<CompilerTarget, Seq<char>>(t),
                Err(TargetError::UnknownTarget(t)) => target_spec(self.target.deep_view()) == Err::<
                    CompilerTarget,
                    Seq<char>,
                >(t@),
            },
    {
        match &self.target {
            None => Ok(CompilerTarget::Cranelift),
            Some(t) => {
                if text_is(t, "cranelift") {
                    Ok(CompilerTarget::Cranelift)
                } else if text_is(t, "llvm") {
                    Ok(CompilerTarget::Llvm)
                } else {
                    Err(TargetError::UnknownTarget(t.clone()))
                }
            },
        }
    }
}

// ---------------------------------------------------------------------
// Paths of a build
// ---------------------------------------------------------------------

/// The file the compiler starts from: the manifest's `entry` under the
/// project root, else the root itself.
pub fn entry_file_path(at: &AtMetadata) -> (r: String)
    ensures
        r@ == (match at.entry {
            Some(e) => path_join("."@, e@),
            None => "."@,
        }),
{
    match &at.entry {
        Some(e) => join_path(".", e.as_str()),
        None => String::from_str("."),
    }
}

/// The project's entry file as its package is described to the compiler:
/// the manifest's `entry` under the root, else `main.mysz` there.
pub fn project_entry_file(at: &AtMetadata) -> (r: String)
    ensures
        r@ == (match at.entry {
            Some(e) => path_join("."@, e@),
            None => path_join("."@, "main.mysz"@),
        }),
{
    match &at.entry {
        Some(e) => join_path(".", e.as_str()),
        None => join_path(".", "main.mysz"),
    }
}

/// Where a build writes its result: the `-o` path when given, else the
/// manifest's output name.
pub fn output_path(output_override: Option<String>, at: &AtMetadata) -> (r: String)
    ensures
        r@ == (match output_override {
            Some(o) => o@,
            None => match at.output {
                Some(o) => o@,
                None => at.name@,
            },
        }),
{
    match output_override {
        Some(o) => o,
        None => at.output_name(),
    }
}

/// The directories searched for imports: those given with `-I` (when none
/// is given, those named by the `NIBBLE_PATH` environment variable,
/// `env_paths`), then the package directory, then the project root, then the
/// source root of each dependency that was built.
pub fn search_paths(given: Vec<String>, env_paths: Vec<String>, dependency_roots: &Vec<String>) -> (r:
    Vec<String>)
    ensures
        r.deep_view() == (if given.len() == 0 {
            env_paths.deep_view()
        } else {
            given.deep_view()
        }) + seq![path_join("nout"@, "packs"@), "."@] + dependency_roots.deep_view(),
{
    let mut r = if given.len() == 0 {
        env_paths
    } else {
        given
    };
    let ghost start = r.deep_view();
    let p = packs_dir();
    r.push(p);
    r.push(String::from_str("."));
    assert(r.deep_view() =~= start + seq![path_join("nout"@, "packs"@), "."@]);
    let ghost mid = r.deep_view();
    let mut i: usize = 0;
    while i < dependency_roots.len()
        invariant
            i <= dependency_roots.len(),
            r.deep_view() == mid + dependency_roots.deep_view().take(i as int),
        decreases dependency_roots.len() - i,
    {
        let ghost before = r.deep_view();
        let x = dependency_roots[i].clone();
        r.push(x);
        assert(r.deep_view() =~= before.push(dependency_roots.deep_view()[i as int]));
        i = i + 1;
        assert(r.deep_view() =~= mid + dependency_roots.deep_view().take(i as int));
    }
    assert(dependency_roots.deep_view().take(i as int) =~= dependency_roots.deep_view());
    r
}

/// The directory part of the path `p` as std's `Path::parent` gives it:
/// `None` for a root or an empty path.
pub uninterp spec fn path_parent(p: Seq<char>) -> Option<Seq<char>>;

/// Calls `std::path::Path::parent` on `path` and converts the result back to
/// a `String`. Claimed: the result is `path_parent` of the path.
#[verifier::external_body]
fn parent_of(path: &str) -> (r: Option<String>)
    ensures
        r.deep_view() == path_parent(path@),
{
    std::path::Path::new(path).parent().map(|p| p.to_string_lossy().into_owned())
}

/// The source root of a package unpacked in `pkg_dir`, given the directory
/// part of its entry file: that directory under `pkg_dir` when it is not
/// empty, else `pkg_dir` itself.
pub open spec fn source_root(pkg_dir: Seq<char>, entry_parent: Option<Seq<char>>) -> Seq<char> {
    match entry_parent {
        Some(p) => if p.len() > 0 {
            path_join(pkg_dir, p)
        } else {
            pkg_dir
        },
        None => pkg_dir,
    }
}

/// Computes `source_root`.
pub fn source_root_from_parent(pkg_dir: &str, entry_parent: Option<String>) -> (r: String)
    ensures
        r@ == source_root(pkg_dir@, entry_parent.deep_view()),
{
    match entry_parent {
        Some(p) => {
            if p.as_str().is_empty() {
                String::from_str(pkg_dir)
            } else {
                join_path(pkg_dir, p.as_str())
            }
        },
        None => String::from_str(pkg_dir),
    }
}

/// The source root of a package unpacked in `pkg_dir` whose manifest names
/// the entry file `entry` (the package directory when it names none).
pub fn package_source_root(pkg_dir: &str, entry: Option<&str>) -> (r: String)
    ensures
        r@ == (match entry {
            Some(e) => source_root(pkg_dir@, path_parent(e@)),
            None => pkg_dir@,
        }),
{
    match entry {
        Some(e) => {
            let parent = parent_of(e);
            source_root_from_parent(pkg_dir, parent)
        },
        None => String::from_str(pkg_dir),
    }
}

// ---------------------------------------------------------------------
// The project's source files
// ---------------------------------------------------------------------

/// What the walk over the project's directory does with one entry.
#[derive(Clone, Copy, Debug, PartialEq, Eq, Structural)]
pub enum ProjectEntry {
    /// A directory to walk into.
    Descend,
    /// A source file of the project.
    Source,
    /// Anything else, and the build's own `nout` directory.
    Skip,
}

/// A directory is walked unless it is named `nout`; a file is a source file
/// when its extension is `mysz`.
pub open spec fn project_entry_spec(
    is_dir: bool,
    name: Option<Seq<char>>,
    extension: Option<Seq<char>>,
) -> ProjectEntry {
    if is_dir {
        if name == Some("nout"@) {
            ProjectEntry::Skip
        } else {
            ProjectEntry::Descend
        }
    } else if extension == Some("mysz"@) {
        ProjectEntry::Source
    } else {
        ProjectEntry::Skip
    }
}

/// Classifies a directory entry of the project by whether it is a
/// directory, its file name and its extension.
pub fn project_entry(is_dir: bool, name: Option<&str>, extension: Option<&str>) -> (r: ProjectEntry)
    ensures
        r == project_entry_spec(
            is_dir,
            match name {
                Some(n) => Some(n@),
                None => None,
            },
            match extension {
                Some(e) => Some(e@),
                None => None,
            },
        ),
{
    if is_dir {
        let skip = match name {
            Some(n) => text_is(&String::from_str(n), "nout"),
            None => false,
        };
        if skip {
            ProjectEntry::Skip
        } else {
            ProjectEntry::Descend
        }
    } else {
        let source = match extension {
            Some(e) => text_is(&String::from_str(e), "mysz"),
            None => false,
        };
        if source {
            ProjectEntry::Source
        } else {
            ProjectEntry::Skip
        }
    }
}

/// The module path of a source file: the directories between the project's
/// root and the file, then the file's stem when it has one.
pub fn source_module_path(dirs: Vec<String>, stem: Option<String>) -> (r: Vec<String>)
    ensures
        r.deep_view() == (match stem {
            Some(s) => dirs.deep_view().push(s@),
            None => dirs.deep_view(),
        }),
{
    let mut r = dirs;
    match stem {
        Some(s) => {
            r.push(s);
        },
        None => {},
    }
    proof {
        assert(r.deep_view() =~= (match stem {
            Some(s) => dirs.deep_view().push(s@),
            None => dirs.deep_view(),
        }));
    }
    r
}

/// The temporary executable `nibble run` builds and runs.
pub fn ephemeral_target(windows: bool) -> (r: &'static str)
    ensures
        r@ == (if windows {
            "ephemeral_run.exe"@
        } else {
            "./ephemeral_run"@
        }),
{
    if windows {
        "ephemeral_run.exe"
    } else {
        "./ephemeral_run"
    }
}

// ---------------------------------------------------------------------
// A new project
// ---------------------------------------------------------------------

/// The name of a new project: the one given, else the name of the current
/// directory, else `main`.
pub fn project_name(given: Option<String>, current_dir: Option<String>) -> (r: String)
    ensures
        r@ == (match given {
            Some(g) => g@,
            None => match current_dir {
                Some(c) => c@,
                None => "main"@,
            },
        }),
{
    match given {
        Some(g) => g,
        None => match current_dir {
            Some(c) => c,
            None => String::from_str("main"),
        },
    }
}

/// The program a new project starts with.
pub const MAIN_SOURCE: &'static str = "use std::io;\n\nfn pub main(): int {\n    println(\"Hello, world!\");\n    return 0;\n};";

/// The manifest text that opens a new project's manifest, before its name.
pub const MANIFEST_HEAD: &'static str = "at name=\"";

/// The manifest text of a new project, after its name.
pub const MANIFEST_TAIL: &'static str = "\" entry=\"src/main.mysz\" version=\"0.1.0\" description=\"\" {\n    author \"\"\n}\n\ncompiler {\n    target \"cranelift\"\n}\n\ndependencies {\n    std version=\"0.3.5\"\n}\n";

/// The manifest a new project named `name` starts with.
pub fn manifest_template(name: &str) -> (r: String)
    ensures
        r@ == MANIFEST_HEAD@ + name@ + MANIFEST_TAIL@,
{
    let mut t = to_chars(MANIFEST_HEAD);
    extend_str(&mut t, name);
    extend_str(&mut t, MANIFEST_TAIL);
    chars_to_string(&t)
}

} // verus!
