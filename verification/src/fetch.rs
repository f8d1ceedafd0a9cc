//! Where a dependency's archive is fetched from, and what a fetched package
//! must declare.
use vstd::prelude::*;
use vstd::string::*;
use crate::manifest::{Dependency, DependencyView, ManifestError, ManifestErrorView, ManifestView};
use crate::packages::{parse_manifest, parse_manifest_spec};
use crate::text::{
    chars_to_string, count_char, extend_chars, extend_str, has_prefix, lacks, lemma_replace_absent,
    lemma_split_len, lemma_two_nonempty_pieces, replace_all,
    replace_chars, same_text, split_chars, split_on, strip_prefix_chars, to_chars, trim_char,
    trim_chars,
};

verus! {

/// Why a dependency could not be fetched or was refused once fetched.
#[derive(Debug, Clone)]
pub enum FetchError {
    /// A `github:` source that is not `github:owner/repo`.
    InvalidGitHubSource(String),
    /// A `gitlab:` source that is not `gitlab:owner/repo`.
    InvalidGitLabSource(String),
    /// No `source`, and the package is not in the default registry.
    NotInRegistry(String),
    /// The archive held no files.
    EmptyArchive(String),
    /// The fetched package has no `manifest.nibble` at its root.
    MissingManifest(String),
    /// The fetched package's manifest is refused.
    InvalidManifest { alias: String, cause: ManifestError },
    /// The fetched package declares another name than the one asked for.
    NameMismatch { alias: String, expected: String, declared: String },
    /// The fetched package declares another version than the one asked for.
    VersionMismatch { alias: String, requested: String, name: String, declared: String },
}

pub enum FetchErrorView {
    InvalidGitHubSource(Seq<char>),
    InvalidGitLabSource(Seq<char>),
    NotInRegistry(Seq<char>),
    EmptyArchive(Seq<char>),
    MissingManifest(Seq<char>),
    InvalidManifest { alias: Seq<char>, cause: ManifestErrorView },
    NameMismatch { alias: Seq<char>, expected: Seq<char>, declared: Seq<char> },
    VersionMismatch { alias: Seq<char>, requested: Seq<char>, name: Seq<char>, declared: Seq<char> },
}

impl DeepView for FetchError {
    type V = FetchErrorView;

    open spec fn deep_view(&self) -> FetchErrorView {
        match self {
            FetchError::InvalidGitHubSource(s) => FetchErrorView::InvalidGitHubSource(s@),
            FetchError::InvalidGitLabSource(s) => FetchErrorView::InvalidGitLabSource(s@),
            FetchError::NotInRegistry(s) => FetchErrorView::NotInRegistry(s@),
            FetchError::EmptyArchive(s) => FetchErrorView::EmptyArchive(s@),
            FetchError::MissingManifest(s) => FetchErrorView::MissingManifest(s@),
            FetchError::InvalidManifest { alias, cause } => FetchErrorView::InvalidManifest {
                alias: alias@,
                cause: cause.deep_view(),
            },
            FetchError::NameMismatch { alias, expected, declared } => FetchErrorView::NameMismatch {
                alias: alias@,
                expected: expected@,
                declared: declared@,
            },
            FetchError::VersionMismatch { alias, requested, name, declared } =>
                FetchErrorView::VersionMismatch {
                    alias: alias@,
                    requested: requested@,
                    name: name@,
                    declared: declared@,
                },
        }
    }
}

pub open spec fn url_view(r: Result<String, FetchError>) -> Result<Seq<char>, FetchErrorView> {
    match r {
        Ok(u) => Ok(u@),
        Err(e) => Err(e.deep_view()),
    }
}

pub open spec fn unit_view(r: Result<(), FetchError>) -> Result<(), FetchErrorView> {
    match r {
        Ok(_) => Ok(()),
        Err(e) => Err(e.deep_view()),
    }
}

// ---------------------------------------------------------------------
// Archive URLs
// ---------------------------------------------------------------------

/// The packages the default registry knows: name and GitHub repository.
pub open spec fn registry() -> Seq<(Seq<char>, Seq<char>)> {
    seq![("std"@, "mysz-lang/mysz-std"@)]
}

/// The repository the registry gives for `at`.
pub open spec fn registry_lookup(reg: Seq<(Seq<char>, Seq<char>)>, at: Seq<char>) -> Option<
    Seq<char>,
>
    decreases reg.len(),
{
    if reg.len() == 0 {
        None
    } else if reg[0].0 == at {
        Some(reg[0].1)
    } else {
        registry_lookup(reg.drop_first(), at)
    }
}

/// The archive of a GitHub repository: the tag `version`, or the `main`
/// branch.
pub open spec fn github_archive(repo: Seq<char>, version: Option<Seq<char>>) -> Seq<char> {
    match version {
        Some(v) => "https://github.com/"@ + repo + "/archive/refs/tags/"@ + v + ".tar.gz"@,
        None => "https://github.com/"@ + repo + "/archive/refs/heads/main.tar.gz"@,
    }
}

/// The archive of a GitLab repository `repo` named `name`.
pub open spec fn gitlab_archive(repo: Seq<char>, name: Seq<char>, version: Option<Seq<char>>) -> Seq<
    char,
> {
    match version {
        Some(v) => "https://gitlab.com/"@ + repo + "/-/archive/"@ + v + "/"@ + name + "-"@ + v
            + ".tar.gz"@,
        None => "https://gitlab.com/"@ + repo + "/-/archive/main/"@ + name + "-main.tar.gz"@,
    }
}

/// What a `source` names: `github:owner/repo` and `gitlab:owner/repo`
/// (slashes around the pair are ignored; exactly one may be inside), or a
/// URL in which `{version}` stands for the version (`main` when none).
pub open spec fn source_url(source: Seq<char>, version: Option<Seq<char>>) -> Result<
    Seq<char>,
    FetchErrorView,
> {
    if has_prefix(source, "github:"@) {
        let repo = trim_char(source.subrange("github:"@.len() as int, source.len() as int), '/');
        if count_char(repo, '/') != 1 {
            Err(FetchErrorView::InvalidGitHubSource(source))
        } else {
            Ok(github_archive(repo, version))
        }
    } else if has_prefix(source, "gitlab:"@) {
        let repo = trim_char(source.subrange("gitlab:"@.len() as int, source.len() as int), '/');
        if count_char(repo, '/') != 1 {
            Err(FetchErrorView::InvalidGitLabSource(source))
        } else {
            Ok(gitlab_archive(repo, split_on(repo, '/')[1], version))
        }
    } else {
        Ok(
            replace_all(
                source,
                "{version}"@,
                match version {
                    Some(v) => v,
                    None => "main"@,
                },
            ),
        )
    }
}

/// A `github:` or `gitlab:` source is accepted only when it names a
/// non-empty owner and a non-empty repository.
pub proof fn lemma_hosted_source_parts(source: Seq<char>, version: Option<Seq<char>>)
    requires
        has_prefix(source, "github:"@) || has_prefix(source, "gitlab:"@),
        source_url(source, version) is Ok,
    ensures
        ({
            let rest = if has_prefix(source, "github:"@) {
                source.subrange("github:"@.len() as int, source.len() as int)
            } else {
                source.subrange("gitlab:"@.len() as int, source.len() as int)
            };
            let parts = split_on(trim_char(rest, '/'), '/');
            parts.len() == 2 && parts[0].len() > 0 && parts[1].len() > 0
        }),
{
    let rest = if has_prefix(source, "github:"@) {
        source.subrange("github:"@.len() as int, source.len() as int)
    } else {
        source.subrange("gitlab:"@.len() as int, source.len() as int)
    };
    lemma_two_nonempty_pieces(rest, '/');
}

/// A plain URL without `{version}` is used as it is.
pub proof fn lemma_plain_url_kept(source: Seq<char>, version: Option<Seq<char>>)
    requires
        !has_prefix(source, "github:"@),
        !has_prefix(source, "gitlab:"@),
        lacks(source, "{version}"@),
    ensures
        source_url(source, version) == Ok::<Seq<char>, FetchErrorView>(source),
{
    reveal_strlit("{version}");
    lemma_replace_absent(
        source,
        "{version}"@,
        match version {
            Some(v) => v,
            None => "main"@,
        },
    );
}

/// Where a dependency is fetched from: its `source`, else the registry's
/// repository for its package.
pub open spec fn tarball_url(d: DependencyView) -> Result<Seq<char>, FetchErrorView> {
    match d.source {
        Some(s) => source_url(s, d.version),
        None => match registry_lookup(registry(), d.at) {
            None => Err(FetchErrorView::NotInRegistry(d.at)),
            Some(repo) => Ok(github_archive(repo, d.version)),
        },
    }
}

/// An explicit source alone decides where a dependency is fetched from, and
/// the registry is asked only for a dependency without one: two dependencies
/// with the same source and version are fetched from the same place, whatever
/// packages they name.
pub proof fn lemma_source_decides(d: DependencyView, e: DependencyView)
    ensures
        d.source matches Some(s) ==> tarball_url(d) == source_url(s, d.version),
        d.source is Some && d.source == e.source && d.version == e.version ==> tarball_url(d)
            == tarball_url(e),
        d.source is None ==> (tarball_url(d) is Ok <==> registry_lookup(registry(), d.at) is Some),
        d.source is None && registry_lookup(registry(), d.at) is None ==> tarball_url(d) == Err::<
            Seq<char>,
            FetchErrorView,
        >(FetchErrorView::NotInRegistry(d.at)),
{
}

/// The default registry.
pub fn default_registry() -> (r: Vec<(String, String)>)
    ensures
        r.deep_view() == registry(),
{
    let mut r: Vec<(String, String)> = Vec::new();
    r.push((String::from_str("std"), String::from_str("mysz-lang/mysz-std")));
    assert(r.deep_view() =~= registry());
    r
}

fn lookup(reg: &Vec<(String, String)>, at: &String) -> (r: Option<String>)
    ensures
        r.deep_view() == registry_lookup(reg.deep_view(), at@),
{
    let ghost rs = reg.deep_view();
    let mut i: usize = 0;
    assert(rs.skip(0) =~= rs);
    while i < reg.len()
        invariant
            rs == reg.deep_view(),
            i <= reg.len(),
            registry_lookup(rs, at@) == registry_lookup(rs.skip(i as int), at@),
        decreases reg.len() - i,
    {
        assert(rs.skip(i as int)[0] == reg@[i as int].deep_view());
        assert(rs.skip(i as int).drop_first() =~= rs.skip(i + 1));
        if same_text(&reg[i].0, at) {
            return Some(reg[i].1.clone());
        }
        i = i + 1;
    }
    assert(rs.skip(i as int) =~= Seq::<(Seq<char>, Seq<char>)>::empty());
    None
}

fn count_slashes(s: &Vec<char>) -> (n: usize)
    ensures
        n == count_char(s@, '/'),
{
    let mut n: usize = 0;
    let mut i: usize = 0;
    while i < s.len()
        invariant
            i <= s.len(),
            n == count_char(s@.subrange(0, i as int), '/'),
            n <= i,
        decreases s.len() - i,
    {
        assert(s@.subrange(0, i + 1).drop_last() == s@.subrange(0, i as int));
        if s[i] == '/' {
            n = n + 1;
        }
        i = i + 1;
    }
    assert(s@.subrange(0, s.len() as int) == s@);
    n
}

fn github_url(repo: &Vec<char>, version: Option<&str>) -> (r: String)
    ensures
        r@ == github_archive(
            repo@,
            match version {
                Some(v) => Some(v@),
                None => None,
            },
        ),
{
    let mut u = to_chars("https://github.com/");
    extend_chars(&mut u, repo);
    match version {
        Some(v) => {
            extend_str(&mut u, "/archive/refs/tags/");
            extend_str(&mut u, v);
            extend_str(&mut u, ".tar.gz");
        },
        None => {
            extend_str(&mut u, "/archive/refs/heads/main.tar.gz");
        },
    }
    chars_to_string(&u)
}

fn gitlab_url(repo: &Vec<char>, name: &Vec<char>, version: Option<&str>) -> (r: String)
    ensures
        r@ == gitlab_archive(
            repo@,
            name@,
            match version {
                Some(v) => Some(v@),
                None => None,
            },
        ),
{
    let mut u = to_chars("https://gitlab.com/");
    extend_chars(&mut u, repo);
    match version {
        Some(v) => {
            extend_str(&mut u, "/-/archive/");
            extend_str(&mut u, v);
            extend_str(&mut u, "/");
            extend_chars(&mut u, name);
            extend_str(&mut u, "-");
            extend_str(&mut u, v);
            extend_str(&mut u, ".tar.gz");
        },
        None => {
            extend_str(&mut u, "/-/archive/main/");
            extend_chars(&mut u, name);
            extend_str(&mut u, "-main.tar.gz");
        },
    }
    chars_to_string(&u)
}

/// The archive URL a `source` names.
pub fn source_to_tarball_url(source: &str, version: Option<&str>) -> (r: Result<String, FetchError>)
    ensures
        url_view(r) == source_url(
            source@,
            match version {
                Some(v) => Some(v@),
                None => None,
            },
        ),
{
    let s = to_chars(source);
    let gh = to_chars("github:");
    match strip_prefix_chars(&s, &gh) {
        Some(rest) => {
            let repo = trim_chars(&rest, '/');
            if count_slashes(&repo) != 1 {
                return Err(FetchError::InvalidGitHubSource(chars_to_string(&s)));
            }
            return Ok(github_url(&repo, version));
        },
        None => {},
    }
    let gl = to_chars("gitlab:");
    match strip_prefix_chars(&s, &gl) {
        Some(rest) => {
            let repo = trim_chars(&rest, '/');
            if count_slashes(&repo) != 1 {
                return Err(FetchError::InvalidGitLabSource(chars_to_string(&s)));
            }
            let parts = split_chars(&repo, '/');
            proof {
                lemma_split_len(repo@, '/');
            }
            return Ok(gitlab_url(&repo, &parts[1], version));
        },
        None => {},
    }
    let pat = to_chars("{version}");
    proof {
        reveal_strlit("{version}");
    }
    let to = match version {
        Some(v) => to_chars(v),
        None => to_chars("main"),
    };
    Ok(chars_to_string(&replace_chars(&s, &pat, &to)))
}

/// The archive URL of a dependency.
pub fn resolve_tarball_url(dep: &Dependency) -> (r: Result<String, FetchError>)
    ensures
        url_view(r) == tarball_url(dep.deep_view()),
        dep.deep_view().source matches Some(s) ==> url_view(r) == source_url(
            s,
            dep.deep_view().version,
        ),
{
    proof {
        lemma_source_decides(dep.deep_view(), dep.deep_view());
    }
    let version: Option<&str> = match &dep.version {
        Some(v) => Some(v.as_str()),
        None => None,
    };
    match &dep.source {
        Some(s) => source_to_tarball_url(s.as_str(), version),
        None => {
            let reg = default_registry();
            match lookup(&reg, &dep.at) {
                None => Err(FetchError::NotInRegistry(dep.at.clone())),
                Some(repo) => {
                    let r = to_chars(repo.as_str());
                    Ok(github_url(&r, version))
                },
            }
        },
    }
}

// ---------------------------------------------------------------------
// Checking a fetched package
// ---------------------------------------------------------------------

/// Where an archive entry whose path has the components `components` is
/// unpacked, below the package's directory: its path without the archive's
/// top-level folder. `None` for the top-level folder itself, which is not
/// unpacked.
pub fn archive_entry_target(components: &Vec<String>) -> (r: Option<Vec<String>>)
    ensures
        r.deep_view() == (if components.len() <= 1 {
            None
        } else {
            Some(components.deep_view().drop_first())
        }),
{
    if components.len() <= 1 {
        return None;
    }
    let mut rest: Vec<String> = Vec::new();
    let mut i: usize = 1;
    while i < components.len()
        invariant
            1 <= i <= components.len(),
            rest.deep_view() =~= components.deep_view().subrange(1, i as int),
        decreases components.len() - i,
    {
        let ghost before = rest.deep_view();
        let x = components[i].clone();
        rest.push(x);
        assert(rest.deep_view() =~= before.push(components.deep_view()[i as int]));
        i = i + 1;
    }
    proof {
        assert(components.deep_view().subrange(1, components.len() as int)
            =~= components.deep_view().drop_first());
    }
    Some(rest)
}

/// An archive that yielded no files is refused.
pub fn check_extracted(dep: &Dependency, extracted: usize) -> (r: Result<(), FetchError>)
    ensures
        unit_view(r) == (if extracted == 0 {
            Err(FetchErrorView::EmptyArchive(dep.alias@))
        } else {
            Ok(())
        }),
{
    if extracted == 0 {
        Err(FetchError::EmptyArchive(dep.alias.clone()))
    } else {
        Ok(())
    }
}

/// The verdict on a fetched package whose manifest is `m`.
pub open spec fn fetched_verdict(d: DependencyView, m: ManifestView) -> Result<(), FetchErrorView> {
    if m.at.name != d.at {
        Err(FetchErrorView::NameMismatch { alias: d.alias, expected: d.at, declared: m.at.name })
    } else {
        match d.version {
            Some(v) => if m.at.version != v {
                Err(
                    FetchErrorView::VersionMismatch {
                        alias: d.alias,
                        requested: v,
                        name: m.at.name,
                        declared: m.at.version,
                    },
                )
            } else {
                Ok(())
            },
            None => Ok(()),
        }
    }
}

/// A fetched package is accepted exactly when its manifest declares the
/// package asked for and, when a version was asked for, that version,
/// whatever the dependency's alias and source; a wrong name is reported
/// before a wrong version.
pub proof fn lemma_fetched_verdict(d: DependencyView, m: ManifestView)
    ensures
        fetched_verdict(d, m) is Ok <==> m.at.name == d.at && (d.version matches Some(v)
            ==> m.at.version == v),
        m.at.name != d.at ==> fetched_verdict(d, m) == Err::<(), FetchErrorView>(
            FetchErrorView::NameMismatch { alias: d.alias, expected: d.at, declared: m.at.name },
        ),
        m.at.name == d.at && d.version is Some && m.at.version != d.version->0 ==> fetched_verdict(
            d,
            m,
        ) == Err::<(), FetchErrorView>(
            FetchErrorView::VersionMismatch {
                alias: d.alias,
                requested: d.version->0,
                name: m.at.name,
                declared: m.at.version,
            },
        ),
{
}

/// A fetched package must carry a valid manifest declaring the package that
/// was asked for, at the version asked for when one was. `manifest` is the
/// text of the package's `manifest.nibble`, `None` when it has none.
pub fn verify_fetched_manifest(dep: &Dependency, manifest: Option<&str>) -> (r: Result<
    (),
    FetchError,
>)
    ensures
        unit_view(r) == (match manifest {
            None => Err(FetchErrorView::MissingManifest(dep.alias@)),
            Some(t) => match parse_manifest_spec(t@) {
                Err(e) => Err(FetchErrorView::InvalidManifest { alias: dep.alias@, cause: e }),
                Ok(m) => fetched_verdict(dep.deep_view(), m),
            },
        }),
        manifest is Some && parse_manifest_spec(manifest->0@) is Ok ==> (r is Ok <==> {
            let m = parse_manifest_spec(manifest->0@)->Ok_0;
            m.at.name == dep.at@ && (dep.version is Some ==> m.at.version == dep.version->0@)
        }),
{
    proof {
        match manifest {
            Some(t) => match parse_manifest_spec(t@) {
                Ok(m) => lemma_fetched_verdict(dep.deep_view(), m),
                Err(_) => {},
            },
            None => {},
        }
    }
    let text = match manifest {
        None => {
            return Err(FetchError::MissingManifest(dep.alias.clone()));
        },
        Some(t) => t,
    };
    let fetched = match parse_manifest(text) {
        Err(e) => {
            return Err(FetchError::InvalidManifest { alias: dep.alias.clone(), cause: e });
        },
        Ok(m) => m,
    };
    if !same_text(&fetched.at.name, &dep.at) {
        return Err(
            FetchError::NameMismatch {
                alias: dep.alias.clone(),
                expected: dep.at.clone(),
                declared: fetched.at.name.clone(),
            },
        );
    }
    match &dep.version {
        Some(v) => {
            if !same_text(&fetched.at.version, v) {
                return Err(
                    FetchError::VersionMismatch {
                        alias: dep.alias.clone(),
                        requested: v.clone(),
                        name: fetched.at.name.clone(),
                        declared: fetched.at.version.clone(),
                    },
                );
            }
        },
        None => {},
    }
    Ok(())
}

} // verus!
