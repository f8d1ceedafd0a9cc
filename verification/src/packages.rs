//! Reading the project manifest, recording a dependency in it, and listing
//! what it names.
use vstd::prelude::*;
use vstd::string::*;
use crate::kdl_doc::{
    kdl_append_child, kdl_append_child_text, kdl_error_text, kdl_new_section, kdl_new_section_text,
    kdl_nodes, kdl_open_children, kdl_open_children_text, kdl_replace_child, kdl_replace_child_text,
    parse_kdl,
};
use crate::manifest::{
    ChildView, DependencyView, EntryView, KdlNodeData, ManifestError,
    ManifestErrorView, ManifestView, NodeView, manifest_result_view,
};
use crate::manifest_parse::{
    dependency_from_child, dependency_props, manifest_from, manifest_from_nodes, prop_value,
    props_verdict,
};
use crate::text::{chars_to_string, extend_str, same_text, text_is};

pub use crate::manifest::{AtMetadata, CompilerConfig, Dependency, Manifest};
pub use crate::paths::{build_dir, manifest_path, nout_dir, packs_dir, GITIGNORE_CONTENT};

verus! {

// ---------------------------------------------------------------------
// Reading the manifest
// ---------------------------------------------------------------------

/// What reading the manifest text `text` gives: the KDL parser's refusal,
/// or the manifest the document describes by the rules of `manifest_from`.
pub open spec fn parse_manifest_spec(text: Seq<char>) -> Result<ManifestView, ManifestErrorView> {
    match kdl_nodes(text) {
        None => Err(ManifestErrorView::Syntax("Failed to parse KDL document"@)),
        Some(nodes) => manifest_from(nodes),
    }
}

/// Parses the text of a `manifest.nibble`.
pub fn parse_manifest(text: &str) -> (r: Result<Manifest, ManifestError>)
    ensures
        manifest_result_view(r) == parse_manifest_spec(text@),
{
    match parse_kdl(text) {
        None => Err(ManifestError::Syntax(kdl_error_text(text))),
        Some(nodes) => manifest_from_nodes(&nodes),
    }
}

/// The view of an optional manifest.
pub open spec fn loaded_view(r: Result<Option<Manifest>, ManifestError>) -> Result<
    Option<ManifestView>,
    ManifestErrorView,
> {
    match r {
        Ok(Some(m)) => Ok(Some(m.deep_view())),
        Ok(None) => Ok(None),
        Err(e) => Err(e.deep_view()),
    }
}

/// The manifest of the current project, given the text of its
/// `manifest.nibble` (`None` when there is no such file): no file is no
/// manifest, and a file must parse.
pub fn load_manifest(contents: Option<&str>) -> (r: Result<Option<Manifest>, ManifestError>)
    ensures
        loaded_view(r) == (match contents {
            None => Ok(None),
            Some(t) => match parse_manifest_spec(t@) {
                Ok(m) => Ok(Some(m)),
                Err(e) => Err(e),
            },
        }),
{
    match contents {
        None => Ok(None),
        Some(t) => match parse_manifest(t) {
            Ok(m) => Ok(Some(m)),
            Err(e) => Err(e),
        },
    }
}

/// As `load_manifest`, but a missing file is an error.
pub fn require_manifest(contents: Option<&str>) -> (r: Result<Manifest, ManifestError>)
    ensures
        manifest_result_view(r) == (match contents {
            None => Err(ManifestErrorView::NoManifest),
            Some(t) => parse_manifest_spec(t@),
        }),
{
    match load_manifest(contents) {
        Err(e) => Err(e),
        Ok(None) => Err(ManifestError::NoManifest),
        Ok(Some(m)) => Ok(m),
    }
}

/// The view of a dependency list outcome.
pub open spec fn deps_result_view(r: Result<Vec<Dependency>, ManifestError>) -> Result<
    Seq<DependencyView>,
    ManifestErrorView,
> {
    match r {
        Ok(d) => Ok(d.deep_view()),
        Err(e) => Err(e.deep_view()),
    }
}

/// The dependencies to install before a build or check, in manifest order:
/// none when the project has no manifest.
pub fn resolve_local_manifest(contents: Option<&str>) -> (r: Result<
    Vec<Dependency>,
    ManifestError,
>)
    ensures
        deps_result_view(r) == (match contents {
            None => Ok(Seq::empty()),
            Some(t) => match parse_manifest_spec(t@) {
                Ok(m) => Ok(m.dependencies),
                Err(e) => Err(e),
            },
        }),
{
    match load_manifest(contents) {
        Err(e) => Err(e),
        Ok(None) => {
            let v: Vec<Dependency> = Vec::new();
            assert(v.deep_view() =~= Seq::<DependencyView>::empty());
            Ok(v)
        },
        Ok(Some(m)) => Ok(m.dependencies),
    }
}

// ---------------------------------------------------------------------
// Recording a dependency
// ---------------------------------------------------------------------

/// The properties a dependency is written with: `at` only when it differs
/// from the alias, then `version` and `source` when given.
pub open spec fn dependency_entries(d: DependencyView) -> Seq<(Seq<char>, Seq<char>)> {
    (if d.at != d.alias {
        seq![("at"@, d.at)]
    } else {
        Seq::empty()
    }) + (match d.version {
        Some(v) => seq![("version"@, v)],
        None => Seq::empty(),
    }) + (match d.source {
        Some(s) => seq![("source"@, s)],
        None => Seq::empty(),
    })
}

/// The properties of `dependency_entries`, as entries of a node.
pub open spec fn as_props(p: Seq<(Seq<char>, Seq<char>)>) -> Seq<EntryView> {
    p.map_values(|kv: (Seq<char>, Seq<char>)| EntryView { name: Some(kv.0), text: Some(kv.1) })
}

/// Computes `dependency_entries`.
pub fn dependency_node_props(d: &Dependency) -> (r: Vec<(String, String)>)
    ensures
        r.deep_view() == dependency_entries(d.deep_view()),
{
    let mut r: Vec<(String, String)> = Vec::new();
    let ghost mut expect: Seq<(Seq<char>, Seq<char>)> = Seq::empty();
    assert(r.deep_view() =~= expect);
    if !same_text(&d.at, &d.alias) {
        r.push((String::from_str("at"), d.at.clone()));
        proof {
            expect = expect.push(("at"@, d.at@));
        }
        assert(r.deep_view() =~= expect);
    }
    assert(expect =~= (if d.at@ != d.alias@ {
        seq![("at"@, d.at@)]
    } else {
        Seq::empty()
    }));
    let ghost first = expect;
    match &d.version {
        Some(v) => {
            r.push((String::from_str("version"), v.clone()));
            proof {
                expect = expect.push(("version"@, v@));
            }
            assert(r.deep_view() =~= expect);
        },
        None => {},
    }
    assert(expect =~= first + (match d.version.deep_view() {
        Some(v) => seq![("version"@, v)],
        None => Seq::empty(),
    }));
    let ghost second = expect;
    match &d.source {
        Some(s) => {
            r.push((String::from_str("source"), s.clone()));
            proof {
                expect = expect.push(("source"@, s@));
            }
            assert(r.deep_view() =~= expect);
        },
        None => {},
    }
    assert(expect =~= second + (match d.source.deep_view() {
        Some(s) => seq![("source"@, s)],
        None => Seq::empty(),
    }));
    r
}

/// Where the new dependency node goes.
#[derive(Debug, Clone, Copy, PartialEq, Eq, Structural)]
pub enum DependencyEdit {
    /// In place of child `index` of top-level node `section`.
    Replace { section: usize, index: usize },
    /// After the children of top-level node `section`, which has a children
    /// block.
    Append { section: usize },
    /// As the only child in a new children block of top-level node
    /// `section`, which has none.
    OpenChildren { section: usize },
    /// As the only child of a new `dependencies` node at the end.
    NewSection,
}

/// The index of the first top-level node named `name`.
pub open spec fn first_node_named(nodes: Seq<NodeView>, name: Seq<char>) -> Option<int>
    decreases nodes.len(),
{
    if nodes.len() == 0 {
        None
    } else if nodes[0].name == name {
        Some(0)
    } else {
        match first_node_named(nodes.drop_first(), name) {
            Some(i) => Some(i + 1),
            None => None,
        }
    }
}

/// The index of the first child named `name`.
pub open spec fn first_child_named(children: Seq<ChildView>, name: Seq<char>) -> Option<int>
    decreases children.len(),
{
    if children.len() == 0 {
        None
    } else if children[0].name == name {
        Some(0)
    } else {
        match first_child_named(children.drop_first(), name) {
            Some(i) => Some(i + 1),
            None => None,
        }
    }
}

/// The first `dependencies` node holds the new dependency: in place of the
/// first child with its alias, else after its children (in a new children
/// block when it has none); with no such node a new one is added.
pub open spec fn plan_edit(nodes: Seq<NodeView>, alias: Seq<char>) -> DependencyEdit {
    match first_node_named(nodes, "dependencies"@) {
        None => DependencyEdit::NewSection,
        Some(s) => match nodes[s].children {
            Some(c) => match first_child_named(c, alias) {
                Some(i) => DependencyEdit::Replace { section: s as usize, index: i as usize },
                None => DependencyEdit::Append { section: s as usize },
            },
            None => DependencyEdit::OpenChildren { section: s as usize },
        },
    }
}

/// `first_node_named` gives the position of the first node with the name,
/// or `None` when no node has it.
pub proof fn lemma_first_node_named(nodes: Seq<NodeView>, name: Seq<char>)
    ensures
        first_node_named(nodes, name) matches Some(i) ==> 0 <= i < nodes.len() && nodes[i].name
            == name && forall|k: int| 0 <= k < i ==> nodes[k].name != name,
        first_node_named(nodes, name) is None ==> forall|k: int|
            0 <= k < nodes.len() ==> nodes[k].name != name,
    decreases nodes.len(),
{
    if nodes.len() > 0 {
        lemma_first_node_named(nodes.drop_first(), name);
        assert forall|k: int| 1 <= k < nodes.len() implies nodes[k] == nodes.drop_first()[k - 1] by {}
    }
}

/// `first_child_named` gives the position of the first child with the name,
/// or `None` when no child has it.
pub proof fn lemma_first_child_named(children: Seq<ChildView>, name: Seq<char>)
    ensures
        first_child_named(children, name) matches Some(i) ==> 0 <= i < children.len()
            && children[i].name == name && forall|k: int|
            0 <= k < i ==> children[k].name != name,
        first_child_named(children, name) is None ==> forall|k: int|
            0 <= k < children.len() ==> children[k].name != name,
    decreases children.len(),
{
    if children.len() > 0 {
        lemma_first_child_named(children.drop_first(), name);
        assert forall|k: int| 1 <= k < children.len() implies children[k]
            == children.drop_first()[k - 1] by {}
    }
}

fn find_section(nodes: &Vec<KdlNodeData>) -> (r: Option<usize>)
    ensures
        r matches Some(i) ==> first_node_named(nodes.deep_view(), "dependencies"@) == Some(i as int)
            && i < nodes.len(),
        r is None ==> first_node_named(nodes.deep_view(), "dependencies"@) is None,
{
    let ghost ns = nodes.deep_view();
    proof {
        lemma_first_node_named(ns, "dependencies"@);
    }
    let mut s: usize = 0;
    while s < nodes.len()
        invariant
            ns == nodes.deep_view(),
            s <= nodes.len(),
            forall|k: int| 0 <= k < s ==> ns[k].name != "dependencies"@,
        decreases nodes.len() - s,
    {
        if text_is(&nodes[s].0, "dependencies") {
            assert(ns[s as int].name == "dependencies"@);
            proof {
                lemma_first_node_named(ns, "dependencies"@);
            }
            return Some(s);
        }
        s = s + 1;
    }
    None
}

fn find_child(c: &Vec<crate::manifest::KdlChildData>, alias: &String) -> (r: Option<usize>)
    ensures
        r matches Some(i) ==> first_child_named(c.deep_view(), alias@) == Some(i as int),
        r is None ==> first_child_named(c.deep_view(), alias@) is None,
{
    let ghost cs = c.deep_view();
    proof {
        lemma_first_child_named(cs, alias@);
    }
    let mut i: usize = 0;
    while i < c.len()
        invariant
            cs == c.deep_view(),
            i <= c.len(),
            forall|k: int| 0 <= k < i ==> cs[k].name != alias@,
        decreases c.len() - i,
    {
        if same_text(&c[i].0, alias) {
            assert(cs[i as int].name == alias@);
            proof {
                lemma_first_child_named(cs, alias@);
            }
            return Some(i);
        }
        i = i + 1;
    }
    None
}

/// Decides where the node for `alias` goes.
pub fn plan_dependency_edit(nodes: &Vec<KdlNodeData>, alias: &String) -> (r: DependencyEdit)
    ensures
        r == plan_edit(nodes.deep_view(), alias@),
{
    match find_section(nodes) {
        None => DependencyEdit::NewSection,
        Some(s) => {
            assert(nodes.deep_view()[s as int] == nodes@[s as int].deep_view());
            match &nodes[s].2 {
                None => DependencyEdit::OpenChildren { section: s },
                Some(c) => match find_child(c, alias) {
                    Some(i) => DependencyEdit::Replace { section: s, index: i },
                    None => DependencyEdit::Append { section: s },
                },
            }
        },
    }
}

/// The text of the manifest `text` with the dependency `d` recorded: the
/// manifest must parse and be valid; the new node then goes where
/// `plan_edit` says, written by `kdl`.
pub open spec fn add_dependency_spec(text: Seq<char>, d: DependencyView) -> Result<
    Seq<char>,
    ManifestErrorView,
> {
    match kdl_nodes(text) {
        None => Err(ManifestErrorView::Syntax("Failed to parse KDL document"@)),
        Some(nodes) => match manifest_from(nodes) {
            Err(e) => Err(e),
            Ok(_) => Ok(
                match plan_edit(nodes, d.alias) {
                    DependencyEdit::Replace { section, index } => kdl_replace_child_text(
                        text,
                        section,
                        index,
                        d.alias,
                        dependency_entries(d),
                    ),
                    DependencyEdit::Append { section } => kdl_append_child_text(
                        text,
                        section,
                        d.alias,
                        dependency_entries(d),
                    ),
                    DependencyEdit::OpenChildren { section } => kdl_open_children_text(
                        text,
                        section,
                        d.alias,
                        dependency_entries(d),
                    ),
                    DependencyEdit::NewSection => kdl_new_section_text(
                        text,
                        "dependencies"@,
                        d.alias,
                        dependency_entries(d),
                    ),
                },
            ),
        },
    }
}

/// The view of an edit outcome.
pub open spec fn text_result_view(r: Result<String, ManifestError>) -> Result<
    Seq<char>,
    ManifestErrorView,
> {
    match r {
        Ok(t) => Ok(t@),
        Err(e) => Err(e.deep_view()),
    }
}

/// Records `dep` in the manifest text `content` and gives the new text
/// (`nibble install`); an existing dependency with the same alias is
/// replaced.
pub fn add_dependency_to_manifest(content: &str, dep: &Dependency) -> (r: Result<
    String,
    ManifestError,
>)
    ensures
        text_result_view(r) == add_dependency_spec(content@, dep.deep_view()),
{
    let nodes = match parse_kdl(content) {
        None => {
            return Err(ManifestError::Syntax(kdl_error_text(content)));
        },
        Some(n) => n,
    };
    match manifest_from_nodes(&nodes) {
        Err(e) => {
            return Err(e);
        },
        Ok(_) => {},
    }
    let props = dependency_node_props(dep);
    let edit = plan_dependency_edit(&nodes, &dep.alias);
    proof {
        lemma_first_node_named(nodes.deep_view(), "dependencies"@);
    }
    match edit {
        DependencyEdit::Replace { section, index } => {
            proof {
                let ns = nodes.deep_view();
                let c = ns[section as int].children->0;
                lemma_first_child_named(c, dep.alias@);
            }
            Ok(kdl_replace_child(content, section, index, dep.alias.as_str(), &props))
        },
        DependencyEdit::Append { section } => {
            Ok(kdl_append_child(content, section, dep.alias.as_str(), &props))
        },
        DependencyEdit::OpenChildren { section } => {
            Ok(kdl_open_children(content, section, dep.alias.as_str(), &props))
        },
        DependencyEdit::NewSection => {
            Ok(kdl_new_section(content, "dependencies", dep.alias.as_str(), &props))
        },
    }
}

proof fn lemma_props_allowed(
    entries: Seq<EntryView>,
    allowed: Seq<Seq<char>>,
    node: Seq<char>,
)
    requires
        forall|i: int|
            0 <= i < entries.len() ==> (#[trigger] entries[i]).name is Some && allowed.contains(
                entries[i].name->0,
            ),
    ensures
        props_verdict(entries, allowed, false, node) == Ok::<(), ManifestErrorView>(()),
    decreases entries.len(),
{
    if entries.len() > 0 {
        assert(entries[0].name is Some);
        let rest = entries.drop_first();
        assert forall|i: int| 0 <= i < rest.len() implies (#[trigger] rest[i]).name is Some
            && allowed.contains(rest[i].name->0) by {
            assert(rest[i] == entries[i + 1]);
        }
        lemma_props_allowed(rest, allowed, node);
    }
}

proof fn lemma_prop_absent(entries: Seq<EntryView>, key: Seq<char>, node: Seq<char>)
    requires
        forall|i: int| 0 <= i < entries.len() ==> (#[trigger] entries[i]).name != Some(key),
    ensures
        prop_value(entries, key, node) == Ok::<Option<Seq<char>>, ManifestErrorView>(None),
    decreases entries.len(),
{
    if entries.len() > 0 {
        assert(entries[0].name != Some(key));
        let rest = entries.drop_first();
        assert forall|i: int| 0 <= i < rest.len() implies (#[trigger] rest[i]).name != Some(key) by {
            assert(rest[i] == entries[i + 1]);
        }
        lemma_prop_absent(rest, key, node);
    }
}

proof fn lemma_prop_at(entries: Seq<EntryView>, key: Seq<char>, node: Seq<char>, j: int, t: Seq<char>)
    requires
        0 <= j < entries.len(),
        entries[j].name == Some(key),
        entries[j].text == Some(t),
        forall|i: int| 0 <= i < j ==> (#[trigger] entries[i]).name != Some(key),
    ensures
        prop_value(entries, key, node) == Ok::<Option<Seq<char>>, ManifestErrorView>(Some(t)),
    decreases j,
{
    if j > 0 {
        assert(entries[0].name != Some(key));
        let rest = entries.drop_first();
        assert forall|i: int| 0 <= i < j - 1 implies (#[trigger] rest[i]).name != Some(key) by {
            assert(rest[i] == entries[i + 1]);
        }
        assert(rest[j - 1] == entries[j]);
        lemma_prop_at(rest, key, node, j - 1, t);
    }
}

/// A dependency node written with the properties of `dependency_entries`
/// reads back, by the manifest rules, as the same dependency.
pub proof fn lemma_dependency_node_reads_back(d: DependencyView)
    ensures
        dependency_from_child(
            ChildView { name: d.alias, entries: as_props(dependency_entries(d)), has_children: false },
        ) == Ok::<DependencyView, ManifestErrorView>(d),
{
    reveal_strlit("at");
    reveal_strlit("version");
    reveal_strlit("source");
    let at_k: Seq<char> = "at"@;
    let ver_k: Seq<char> = "version"@;
    let src_k: Seq<char> = "source"@;
    assert(at_k.len() == 2 && ver_k.len() == 7 && src_k.len() == 6);
    let pa: Seq<(Seq<char>, Seq<char>)> = if d.at != d.alias {
        seq![(at_k, d.at)]
    } else {
        Seq::empty()
    };
    let pv: Seq<(Seq<char>, Seq<char>)> = match d.version {
        Some(v) => seq![(ver_k, v)],
        None => Seq::empty(),
    };
    let ps: Seq<(Seq<char>, Seq<char>)> = match d.source {
        Some(s) => seq![(src_k, s)],
        None => Seq::empty(),
    };
    let p = dependency_entries(d);
    assert(p == pa + pv + ps);
    let es = as_props(p);
    let na = pa.len() as int;
    let nv = pv.len() as int;
    assert forall|i: int| 0 <= i < es.len() implies (#[trigger] es[i]).name is Some
        && dependency_props().contains(es[i].name->0) by {
        assert(es[i] == EntryView { name: Some(p[i].0), text: Some(p[i].1) });
        if i < na {
            assert(p[i] == pa[i]);
            assert(dependency_props()[0] == at_k);
        } else if i < na + nv {
            assert(p[i] == pv[i - na]);
            assert(dependency_props()[1] == ver_k);
        } else {
            assert(p[i] == ps[i - na - nv]);
            assert(dependency_props()[2] == src_k);
        }
    }
    lemma_props_allowed(es, dependency_props(), d.alias);
    // `at`
    if d.at != d.alias {
        assert(es[0] == EntryView { name: Some(at_k), text: Some(d.at) });
        lemma_prop_at(es, at_k, d.alias, 0, d.at);
    } else {
        assert forall|i: int| 0 <= i < es.len() implies (#[trigger] es[i]).name != Some(at_k) by {
            assert(es[i] == EntryView { name: Some(p[i].0), text: Some(p[i].1) });
            if i < na + nv {
                assert(p[i] == pv[i - na]);
            } else {
                assert(p[i] == ps[i - na - nv]);
            }
        }
        lemma_prop_absent(es, at_k, d.alias);
    }
    // `version`
    assert forall|i: int| 0 <= i < na implies (#[trigger] es[i]).name != Some(ver_k) by {
        assert(es[i] == EntryView { name: Some(p[i].0), text: Some(p[i].1) });
        assert(p[i] == pa[i]);
    }
    match d.version {
        Some(v) => {
            assert(es[na] == EntryView { name: Some(p[na].0), text: Some(p[na].1) });
            assert(p[na] == pv[0]);
            lemma_prop_at(es, ver_k, d.alias, na, v);
        },
        None => {
            assert forall|i: int| 0 <= i < es.len() implies (#[trigger] es[i]).name != Some(ver_k) by {
                assert(es[i] == EntryView { name: Some(p[i].0), text: Some(p[i].1) });
                if i < na {
                    assert(p[i] == pa[i]);
                } else {
                    assert(p[i] == ps[i - na - nv]);
                }
            }
            lemma_prop_absent(es, ver_k, d.alias);
        },
    }
    // `source`
    assert forall|i: int| 0 <= i < na + nv implies (#[trigger] es[i]).name != Some(src_k) by {
        assert(es[i] == EntryView { name: Some(p[i].0), text: Some(p[i].1) });
        if i < na {
            assert(p[i] == pa[i]);
        } else {
            assert(p[i] == pv[i - na]);
        }
    }
    match d.source {
        Some(s) => {
            assert(es[na + nv] == EntryView { name: Some(p[na + nv].0), text: Some(p[na + nv].1) });
            assert(p[na + nv] == ps[0]);
            lemma_prop_at(es, src_k, d.alias, na + nv, s);
        },
        None => {
            assert forall|i: int| 0 <= i < es.len() implies (#[trigger] es[i]).name != Some(src_k) by {
                assert(es[i] == EntryView { name: Some(p[i].0), text: Some(p[i].1) });
                if i < na {
                    assert(p[i] == pa[i]);
                } else {
                    assert(p[i] == pv[i - na]);
                }
            }
            lemma_prop_absent(es, src_k, d.alias);
        },
    }
}

// ---------------------------------------------------------------------
// Listing
// ---------------------------------------------------------------------

/// The lines `nibble list` prints: the project first, then each dependency
/// by alias, marked when its package is not unpacked yet.
pub open spec fn list_lines(m: ManifestView, cached: Seq<bool>) -> Seq<Seq<char>> {
    seq![seq!['@'] + m.at.name] + Seq::new(
        m.dependencies.len(),
        |i: int|
            seq!['@'] + m.dependencies[i].alias + if cached[i] {
                Seq::empty()
            } else {
                " (not cached)"@
            },
    )
}

/// Computes `list_lines`; `cached[i]` tells whether dependency `i`'s package
/// has its manifest unpacked.
pub fn list(manifest: &Manifest, cached: &Vec<bool>) -> (r: Vec<String>)
    requires
        cached.len() == manifest.dependencies.len(),
    ensures
        r.deep_view() == list_lines(manifest.deep_view(), cached@),
{
    let ghost mv = manifest.deep_view();
    let mut out: Vec<String> = Vec::new();
    let mut first: Vec<char> = Vec::new();
    first.push('@');
    extend_str(&mut first, manifest.at.name.as_str());
    out.push(chars_to_string(&first));
    let mut i: usize = 0;
    while i < manifest.dependencies.len()
        invariant
            mv == manifest.deep_view(),
            cached.len() == manifest.dependencies.len(),
            i <= manifest.dependencies.len(),
            out.deep_view() == list_lines(mv, cached@).take(i + 1),
        decreases manifest.dependencies.len() - i,
    {
        let mut line: Vec<char> = Vec::new();
        line.push('@');
        extend_str(&mut line, manifest.dependencies[i].alias.as_str());
        if !cached[i] {
            extend_str(&mut line, " (not cached)");
        }
        let ghost before = out.deep_view();
        let s = chars_to_string(&line);
        out.push(s);
        assert(mv.dependencies[i as int] == manifest.dependencies@[i as int].deep_view());
        assert(out.deep_view() =~= before.push(s@));
        assert(list_lines(mv, cached@).take(i + 2) =~= list_lines(mv, cached@).take(i + 1).push(
            s@,
        ));
        i = i + 1;
    }
    assert(list_lines(mv, cached@).take(i + 1) =~= list_lines(mv, cached@));
    out
}

} // verus!
