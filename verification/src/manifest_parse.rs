//! The rules of `manifest.nibble`: which nodes, properties and children it
//! takes, stated over the document model and carried out on it.
use vstd::prelude::*;
use vstd::string::*;
use crate::manifest::{
    AtMetadata, AtView, ChildView, CompilerConfig, CompilerView, Dependency, DependencyView,
    EntryView, KdlChildData, KdlEntryData, KdlNodeData, Manifest, ManifestError,
    ManifestErrorView, ManifestView, NodeView,
};
use crate::text::same_text;

verus! {

// ---------------------------------------------------------------------
// The rules, as functions of the document model
// ---------------------------------------------------------------------

/// Properties the `at` node takes.
pub open spec fn at_props() -> Seq<Seq<char>> {
    seq!["name"@, "entry"@, "version"@, "output"@, "description"@]
}

/// Properties a dependency node takes.
pub open spec fn dependency_props() -> Seq<Seq<char>> {
    seq!["at"@, "version"@, "source"@]
}

/// The verdict on one entry of a node that takes the properties `allowed`
/// and, when `positional_ok`, arguments.
pub open spec fn entry_verdict(
    e: EntryView,
    allowed: Seq<Seq<char>>,
    positional_ok: bool,
    node: Seq<char>,
) -> Result<(), ManifestErrorView> {
    match e.name {
        Some(n) => if allowed.contains(n) {
            Ok(())
        } else {
            Err(ManifestErrorView::UnknownAttribute { attr: n, node, allowed })
        },
        None => if positional_ok {
            Ok(())
        } else {
            Err(ManifestErrorView::UnexpectedPositional(node))
        },
    }
}

/// The first entry that the node does not take is refused.
pub open spec fn props_verdict(
    entries: Seq<EntryView>,
    allowed: Seq<Seq<char>>,
    positional_ok: bool,
    node: Seq<char>,
) -> Result<(), ManifestErrorView>
    decreases entries.len(),
{
    if entries.len() == 0 {
        Ok(())
    } else {
        match entry_verdict(entries[0], allowed, positional_ok, node) {
            Err(e) => Err(e),
            Ok(_) => props_verdict(entries.drop_first(), allowed, positional_ok, node),
        }
    }
}

/// The first property named `key`: its string value, or an error when the
/// value is not a string; `None` when there is no such property.
pub open spec fn prop_value(entries: Seq<EntryView>, key: Seq<char>, node: Seq<char>) -> Result<
    Option<Seq<char>>,
    ManifestErrorView,
>
    decreases entries.len(),
{
    if entries.len() == 0 {
        Ok(None)
    } else if entries[0].name == Some(key) {
        match entries[0].text {
            Some(t) => Ok(Some(t)),
            None => Err(ManifestErrorView::NotAString { key, node }),
        }
    } else {
        prop_value(entries.drop_first(), key, node)
    }
}

/// A property that must be present.
pub open spec fn required_prop(entries: Seq<EntryView>, key: Seq<char>, node: Seq<char>) -> Result<
    Seq<char>,
    ManifestErrorView,
> {
    match prop_value(entries, key, node) {
        Ok(Some(t)) => Ok(t),
        Ok(None) => Err(ManifestErrorView::MissingAttribute { key, node }),
        Err(e) => Err(e),
    }
}

/// The single string argument of a node such as `author "Someone"`.
pub open spec fn single_value(c: ChildView) -> Result<Seq<char>, ManifestErrorView> {
    match props_verdict(c.entries, Seq::empty(), true, c.name) {
        Err(e) => Err(e),
        Ok(_) => if c.entries.len() == 0 {
            Err(ManifestErrorView::MissingValue(c.name))
        } else if c.entries[0].name is Some {
            Err(ManifestErrorView::NamedValue(c.name))
        } else {
            match c.entries[0].text {
                Some(t) => Ok(t),
                None => Err(ManifestErrorView::NonStringValue(c.name)),
            }
        },
    }
}

/// The authors listed under `at`; `author` is the only child it takes.
pub open spec fn authors_of(children: Seq<ChildView>, parent: Seq<char>) -> Result<
    Seq<Seq<char>>,
    ManifestErrorView,
>
    decreases children.len(),
{
    if children.len() == 0 {
        Ok(Seq::empty())
    } else {
        let c = children[0];
        if c.name == "author"@ {
            match single_value(c) {
                Err(e) => Err(e),
                Ok(a) => match authors_of(children.drop_first(), parent) {
                    Err(e) => Err(e),
                    Ok(rest) => Ok(seq![a] + rest),
                },
            }
        } else {
            Err(ManifestErrorView::UnknownChild { parent, child: c.name })
        }
    }
}

/// The `at` node: its properties are checked, then read in the order name,
/// entry, version, output, description, then its children.
pub open spec fn at_from_node(n: NodeView) -> Result<AtView, ManifestErrorView> {
    match props_verdict(n.entries, at_props(), false, n.name) {
        Err(e) => Err(e),
        Ok(_) => match required_prop(n.entries, "name"@, n.name) {
            Err(e) => Err(e),
            Ok(name) => match prop_value(n.entries, "entry"@, n.name) {
                Err(e) => Err(e),
                Ok(entry) => match required_prop(n.entries, "version"@, n.name) {
                    Err(e) => Err(e),
                    Ok(version) => match prop_value(n.entries, "output"@, n.name) {
                        Err(e) => Err(e),
                        Ok(output) => match prop_value(n.entries, "description"@, n.name) {
                            Err(e) => Err(e),
                            Ok(description) => match authors_of(
                                match n.children {
                                    Some(c) => c,
                                    None => Seq::empty(),
                                },
                                n.name,
                            ) {
                                Err(e) => Err(e),
                                Ok(authors) => Ok(
                                    AtView { name, entry, version, output, description, authors },
                                ),
                            },
                        },
                    },
                },
            },
        },
    }
}

/// One dependency node: the node's name is the alias; `at` defaults to it.
pub open spec fn dependency_from_child(c: ChildView) -> Result<DependencyView, ManifestErrorView> {
    match props_verdict(c.entries, dependency_props(), false, c.name) {
        Err(e) => Err(e),
        Ok(_) => if c.has_children {
            Err(ManifestErrorView::DependencyHasChildren(c.name))
        } else {
            match prop_value(c.entries, "at"@, c.name) {
                Err(e) => Err(e),
                Ok(at) => match prop_value(c.entries, "version"@, c.name) {
                    Err(e) => Err(e),
                    Ok(version) => match prop_value(c.entries, "source"@, c.name) {
                        Err(e) => Err(e),
                        Ok(source) => Ok(
                            DependencyView {
                                alias: c.name,
                                at: match at {
                                    Some(a) => a,
                                    None => c.name,
                                },
                                version,
                                source,
                            },
                        ),
                    },
                },
            }
        },
    }
}

/// The dependencies, in order.
pub open spec fn dependencies_of(children: Seq<ChildView>) -> Result<
    Seq<DependencyView>,
    ManifestErrorView,
>
    decreases children.len(),
{
    if children.len() == 0 {
        Ok(Seq::empty())
    } else {
        match dependency_from_child(children[0]) {
            Err(e) => Err(e),
            Ok(d) => match dependencies_of(children.drop_first()) {
                Err(e) => Err(e),
                Ok(rest) => Ok(seq![d] + rest),
            },
        }
    }
}

/// The `dependencies` node, which takes no properties or arguments.
pub open spec fn dependencies_from_node(n: NodeView) -> Result<
    Seq<DependencyView>,
    ManifestErrorView,
> {
    match props_verdict(n.entries, Seq::empty(), false, n.name) {
        Err(e) => Err(e),
        Ok(_) => match n.children {
            None => Ok(Seq::empty()),
            Some(c) => dependencies_of(c),
        },
    }
}

/// The backend chosen by the children of `compiler`; `target` is the only
/// child it takes, and the last one counts.
pub open spec fn target_of(children: Seq<ChildView>, parent: Seq<char>) -> Result<
    Option<Seq<char>>,
    ManifestErrorView,
>
    decreases children.len(),
{
    if children.len() == 0 {
        Ok(None)
    } else {
        let c = children[0];
        if c.name == "target"@ {
            match single_value(c) {
                Err(e) => Err(e),
                Ok(t) => match target_of(children.drop_first(), parent) {
                    Err(e) => Err(e),
                    Ok(None) => Ok(Some(t)),
                    Ok(Some(later)) => Ok(Some(later)),
                },
            }
        } else {
            Err(ManifestErrorView::UnknownChild { parent, child: c.name })
        }
    }
}

/// The `compiler` node, which takes no properties or arguments.
pub open spec fn compiler_from_node(n: NodeView) -> Result<CompilerView, ManifestErrorView> {
    match props_verdict(n.entries, Seq::empty(), false, n.name) {
        Err(e) => Err(e),
        Ok(_) => match target_of(
            match n.children {
                Some(c) => c,
                None => Seq::empty(),
            },
            n.name,
        ) {
            Err(e) => Err(e),
            Ok(target) => Ok(CompilerView { target }),
        },
    }
}

/// What has been read of the document so far.
pub struct ReadState {
    pub at: Option<AtView>,
    pub compiler: CompilerView,
    pub dependencies: Seq<DependencyView>,
}

/// Nothing read yet: no `at`, the default compiler settings, no dependencies.
pub open spec fn initial_state() -> ReadState {
    ReadState { at: None, compiler: CompilerView { target: None }, dependencies: Seq::empty() }
}

/// Reading one top-level node: a second `at` is refused; `compiler` and
/// `dependencies` replace what an earlier node of that name gave.
pub open spec fn read_node(s: ReadState, n: NodeView) -> Result<ReadState, ManifestErrorView> {
    if n.name == "at"@ {
        if s.at is Some {
            Err(ManifestErrorView::DuplicateAt)
        } else {
            match at_from_node(n) {
                Err(e) => Err(e),
                Ok(a) => Ok(ReadState { at: Some(a), ..s }),
            }
        }
    } else if n.name == "dependencies"@ {
        match dependencies_from_node(n) {
            Err(e) => Err(e),
            Ok(d) => Ok(ReadState { dependencies: d, ..s }),
        }
    } else if n.name == "compiler"@ {
        match compiler_from_node(n) {
            Err(e) => Err(e),
            Ok(c) => Ok(ReadState { compiler: c, ..s }),
        }
    } else {
        Err(ManifestErrorView::UnknownTopLevel(n.name))
    }
}

/// Reading the nodes in order; the first error stops the reading.
pub open spec fn read_nodes(nodes: Seq<NodeView>) -> Result<ReadState, ManifestErrorView>
    decreases nodes.len(),
{
    if nodes.len() == 0 {
        Ok(initial_state())
    } else {
        match read_nodes(nodes.drop_last()) {
            Err(e) => Err(e),
            Ok(s) => read_node(s, nodes.last()),
        }
    }
}

/// The manifest that a document describes, or why it describes none.
pub open spec fn manifest_from(nodes: Seq<NodeView>) -> Result<ManifestView, ManifestErrorView> {
    match read_nodes(nodes) {
        Err(e) => Err(e),
        Ok(s) => match s.at {
            None => Err(ManifestErrorView::MissingAt),
            Some(a) => Ok(ManifestView { at: a, compiler: s.compiler, dependencies: s.dependencies }),
        },
    }
}

// ---------------------------------------------------------------------
// Views of intermediate outcomes
// ---------------------------------------------------------------------

pub open spec fn unit_view(r: Result<(), ManifestError>) -> Result<(), ManifestErrorView> {
    match r {
        Ok(_) => Ok(()),
        Err(e) => Err(e.deep_view()),
    }
}

pub open spec fn opt_text_view(r: Result<Option<String>, ManifestError>) -> Result<
    Option<Seq<char>>,
    ManifestErrorView,
> {
    match r {
        Ok(o) => Ok(o.deep_view()),
        Err(e) => Err(e.deep_view()),
    }
}

pub open spec fn text_view(r: Result<String, ManifestError>) -> Result<Seq<char>, ManifestErrorView> {
    match r {
        Ok(t) => Ok(t@),
        Err(e) => Err(e.deep_view()),
    }
}

pub open spec fn texts_view(r: Result<Vec<String>, ManifestError>) -> Result<
    Seq<Seq<char>>,
    ManifestErrorView,
> {
    match r {
        Ok(t) => Ok(t.deep_view()),
        Err(e) => Err(e.deep_view()),
    }
}

pub open spec fn at_view(r: Result<AtMetadata, ManifestError>) -> Result<AtView, ManifestErrorView> {
    match r {
        Ok(a) => Ok(a.deep_view()),
        Err(e) => Err(e.deep_view()),
    }
}

pub open spec fn dependency_view(r: Result<Dependency, ManifestError>) -> Result<
    DependencyView,
    ManifestErrorView,
> {
    match r {
        Ok(d) => Ok(d.deep_view()),
        Err(e) => Err(e.deep_view()),
    }
}

pub open spec fn dependencies_view(r: Result<Vec<Dependency>, ManifestError>) -> Result<
    Seq<DependencyView>,
    ManifestErrorView,
> {
    match r {
        Ok(d) => Ok(d.deep_view()),
        Err(e) => Err(e.deep_view()),
    }
}

pub open spec fn compiler_view(r: Result<CompilerConfig, ManifestError>) -> Result<
    CompilerView,
    ManifestErrorView,
> {
    match r {
        Ok(c) => Ok(c.deep_view()),
        Err(e) => Err(e.deep_view()),
    }
}

/// `acc` followed by what a successful reading of the rest gives.
pub open spec fn prepend<T>(acc: Seq<T>, r: Result<Seq<T>, ManifestErrorView>) -> Result<
    Seq<T>,
    ManifestErrorView,
> {
    match r {
        Ok(rest) => Ok(acc + rest),
        Err(e) => Err(e),
    }
}

// ---------------------------------------------------------------------
// Small helpers
// ---------------------------------------------------------------------

fn lit(s: &str) -> (r: String)
    ensures
        r@ == s@,
{
    String::from_str(s)
}

fn clone_opt(o: &Option<String>) -> (r: Option<String>)
    ensures
        r.deep_view() == o.deep_view(),
{
    match o {
        Some(t) => Some(t.clone()),
        None => None,
    }
}

fn clone_texts(v: &Vec<String>) -> (r: Vec<String>)
    ensures
        r.deep_view() == v.deep_view(),
{
    let mut r: Vec<String> = Vec::new();
    let mut i: usize = 0;
    while i < v.len()
        invariant
            i <= v.len(),
            r.deep_view() == v.deep_view().take(i as int),
        decreases v.len() - i,
    {
        let x = v[i].clone();
        assert(x@ == v@[i as int]@);
        let ghost before = r.deep_view();
        r.push(x);
        assert(r.deep_view() =~= before.push(x@));
        i = i + 1;
        assert(r.deep_view() =~= v.deep_view().take(i as int));
    }
    assert(v.deep_view().take(v.len() as int) =~= v.deep_view());
    r
}

fn contains_text(v: &Vec<String>, s: &String) -> (r: bool)
    ensures
        r == v.deep_view().contains(s@),
{
    let mut i: usize = 0;
    while i < v.len()
        invariant
            i <= v.len(),
            forall|k: int| 0 <= k < i ==> v.deep_view()[k] != s@,
        decreases v.len() - i,
    {
        if same_text(&v[i], s) {
            assert(v.deep_view()[i as int] == s@);
            return true;
        }
        i = i + 1;
    }
    false
}

fn at_props_exec() -> (v: Vec<String>)
    ensures
        v.deep_view() == at_props(),
{
    let mut v: Vec<String> = Vec::new();
    v.push(lit("name"));
    v.push(lit("entry"));
    v.push(lit("version"));
    v.push(lit("output"));
    v.push(lit("description"));
    assert(v.deep_view() =~= at_props());
    v
}

fn dependency_props_exec() -> (v: Vec<String>)
    ensures
        v.deep_view() == dependency_props(),
{
    let mut v: Vec<String> = Vec::new();
    v.push(lit("at"));
    v.push(lit("version"));
    v.push(lit("source"));
    assert(v.deep_view() =~= dependency_props());
    v
}

fn no_props() -> (v: Vec<String>)
    ensures
        v.deep_view() == Seq::<Seq<char>>::empty(),
{
    let v: Vec<String> = Vec::new();
    assert(v.deep_view() =~= Seq::<Seq<char>>::empty());
    v
}

// ---------------------------------------------------------------------
// Carrying out the rules
// ---------------------------------------------------------------------

/// Refuses the first entry that the node does not take.
pub fn check_props(
    entries: &Vec<KdlEntryData>,
    allowed: &Vec<String>,
    positional_ok: bool,
    node: &String,
) -> (r: Result<(), ManifestError>)
    ensures
        unit_view(r) == props_verdict(entries.deep_view(), allowed.deep_view(), positional_ok, node@),
{
    let ghost es = entries.deep_view();
    let mut i: usize = 0;
    assert(es.skip(0) =~= es);
    while i < entries.len()
        invariant
            es == entries.deep_view(),
            i <= entries.len(),
            props_verdict(es, allowed.deep_view(), positional_ok, node@) == props_verdict(
                es.skip(i as int),
                allowed.deep_view(),
                positional_ok,
                node@,
            ),
        decreases entries.len() - i,
    {
        assert(es.skip(i as int)[0] == entries@[i as int].deep_view());
        assert(es.skip(i as int).drop_first() =~= es.skip(i + 1));
        match &entries[i].0 {
            Some(n) => {
                if !contains_text(allowed, n) {
                    return Err(
                        ManifestError::UnknownAttribute {
                            attr: n.clone(),
                            node: node.clone(),
                            allowed: clone_texts(allowed),
                        },
                    );
                }
            },
            None => {
                if !positional_ok {
                    return Err(ManifestError::UnexpectedPositional(node.clone()));
                }
            },
        }
        i = i + 1;
    }
    assert(es.skip(i as int) =~= Seq::<EntryView>::empty());
    Ok(())
}

/// The first property named `key`, when it has one.
pub fn prop_text(entries: &Vec<KdlEntryData>, key: &String, node: &String) -> (r: Result<
    Option<String>,
    ManifestError,
>)
    ensures
        opt_text_view(r) == prop_value(entries.deep_view(), key@, node@),
{
    let ghost es = entries.deep_view();
    let mut i: usize = 0;
    assert(es.skip(0) =~= es);
    while i < entries.len()
        invariant
            es == entries.deep_view(),
            i <= entries.len(),
            prop_value(es, key@, node@) == prop_value(es.skip(i as int), key@, node@),
        decreases entries.len() - i,
    {
        assert(es.skip(i as int)[0] == entries@[i as int].deep_view());
        assert(es.skip(i as int).drop_first() =~= es.skip(i + 1));
        let e = &entries[i];
        match &e.0 {
            Some(n) => {
                if same_text(n, key) {
                    return match &e.1 {
                        Some(t) => Ok(Some(t.clone())),
                        None => Err(ManifestError::NotAString { key: key.clone(), node: node.clone() }),
                    };
                }
            },
            None => {},
        }
        i = i + 1;
    }
    assert(es.skip(i as int) =~= Seq::<EntryView>::empty());
    Ok(None)
}

/// A property that must be present.
pub fn required_text(entries: &Vec<KdlEntryData>, key: &String, node: &String) -> (r: Result<
    String,
    ManifestError,
>)
    ensures
        text_view(r) == required_prop(entries.deep_view(), key@, node@),
{
    match prop_text(entries, key, node) {
        Ok(Some(t)) => Ok(t),
        Ok(None) => Err(ManifestError::MissingAttribute { key: key.clone(), node: node.clone() }),
        Err(e) => Err(e),
    }
}

/// The single string argument of a child node.
pub fn single_text(c: &KdlChildData) -> (r: Result<String, ManifestError>)
    ensures
        text_view(r) == single_value(c.deep_view()),
{
    let none = no_props();
    match check_props(&c.1, &none, true, &c.0) {
        Err(e) => {
            return Err(e);
        },
        Ok(_) => {},
    }
    if c.1.len() == 0 {
        return Err(ManifestError::MissingValue(c.0.clone()));
    }
    assert(c.deep_view().entries[0] == c.1@[0].deep_view());
    let first = &c.1[0];
    if first.0.is_some() {
        return Err(ManifestError::NamedValue(c.0.clone()));
    }
    match &first.1 {
        Some(t) => Ok(t.clone()),
        None => Err(ManifestError::NonStringValue(c.0.clone())),
    }
}

/// The authors listed under `at`.
pub fn read_authors(children: &Vec<KdlChildData>, parent: &String) -> (r: Result<
    Vec<String>,
    ManifestError,
>)
    ensures
        texts_view(r) == authors_of(children.deep_view(), parent@),
{
    let ghost cs = children.deep_view();
    let mut acc: Vec<String> = Vec::new();
    let mut i: usize = 0;
    assert(cs.skip(0) =~= cs);
    assert(prepend(acc.deep_view(), authors_of(cs, parent@)) =~= authors_of(cs, parent@)) by {
        assert(acc.deep_view() =~= Seq::<Seq<char>>::empty());
        match authors_of(cs, parent@) {
            Ok(rest) => {
                assert(acc.deep_view() + rest =~= rest);
            },
            Err(_) => {},
        }
    }
    while i < children.len()
        invariant
            cs == children.deep_view(),
            i <= children.len(),
            authors_of(cs, parent@) == prepend(acc.deep_view(), authors_of(cs.skip(i as int), parent@)),
        decreases children.len() - i,
    {
        let ghost rest = cs.skip(i as int);
        assert(rest[0] == children@[i as int].deep_view());
        assert(rest.drop_first() =~= cs.skip(i + 1));
        let c = &children[i];
        if !crate::text::text_is(&c.0, "author") {
            return Err(ManifestError::UnknownChild { parent: parent.clone(), child: c.0.clone() });
        }
        match single_text(c) {
            Err(e) => {
                return Err(e);
            },
            Ok(a) => {
                let ghost before = acc.deep_view();
                let ghost av = a@;
                acc.push(a);
                assert(acc.deep_view() =~= before + seq![av]);
                proof {
                    match authors_of(cs.skip(i + 1), parent@) {
                        Ok(tail) => {
                            assert(before + (seq![av] + tail) =~= (before + seq![av]) + tail);
                        },
                        Err(_) => {},
                    }
                }
            },
        }
        i = i + 1;
    }
    assert(cs.skip(i as int) =~= Seq::<ChildView>::empty());
    assert(acc.deep_view() + Seq::<Seq<char>>::empty() =~= acc.deep_view());
    Ok(acc)
}

/// Reads the `at` node.
pub fn read_at(n: &KdlNodeData) -> (r: Result<AtMetadata, ManifestError>)
    ensures
        at_view(r) == at_from_node(n.deep_view()),
{
    let allowed = at_props_exec();
    match check_props(&n.1, &allowed, false, &n.0) {
        Err(e) => {
            return Err(e);
        },
        Ok(_) => {},
    }
    let name = match required_text(&n.1, &lit("name"), &n.0) {
        Err(e) => {
            return Err(e);
        },
        Ok(t) => t,
    };
    let entry = match prop_text(&n.1, &lit("entry"), &n.0) {
        Err(e) => {
            return Err(e);
        },
        Ok(t) => t,
    };
    let version = match required_text(&n.1, &lit("version"), &n.0) {
        Err(e) => {
            return Err(e);
        },
        Ok(t) => t,
    };
    let output = match prop_text(&n.1, &lit("output"), &n.0) {
        Err(e) => {
            return Err(e);
        },
        Ok(t) => t,
    };
    let description = match prop_text(&n.1, &lit("description"), &n.0) {
        Err(e) => {
            return Err(e);
        },
        Ok(t) => t,
    };
    let authors = match &n.2 {
        Some(c) => read_authors(c, &n.0),
        None => {
            let empty: Vec<KdlChildData> = Vec::new();
            assert(empty.deep_view() =~= Seq::<ChildView>::empty());
            read_authors(&empty, &n.0)
        },
    };
    match authors {
        Err(e) => Err(e),
        Ok(authors) => Ok(AtMetadata { name, entry, version, output, description, authors }),
    }
}

/// Reads one dependency node.
pub fn read_dependency(c: &KdlChildData) -> (r: Result<Dependency, ManifestError>)
    ensures
        dependency_view(r) == dependency_from_child(c.deep_view()),
{
    let allowed = dependency_props_exec();
    match check_props(&c.1, &allowed, false, &c.0) {
        Err(e) => {
            return Err(e);
        },
        Ok(_) => {},
    }
    if c.2 {
        return Err(ManifestError::DependencyHasChildren(c.0.clone()));
    }
    let at = match prop_text(&c.1, &lit("at"), &c.0) {
        Err(e) => {
            return Err(e);
        },
        Ok(Some(a)) => a,
        Ok(None) => c.0.clone(),
    };
    let version = match prop_text(&c.1, &lit("version"), &c.0) {
        Err(e) => {
            return Err(e);
        },
        Ok(t) => t,
    };
    let source = match prop_text(&c.1, &lit("source"), &c.0) {
        Err(e) => {
            return Err(e);
        },
        Ok(t) => t,
    };
    Ok(Dependency { alias: c.0.clone(), at, version, source })
}

/// Reads the dependency nodes in order.
pub fn read_dependency_list(children: &Vec<KdlChildData>) -> (r: Result<
    Vec<Dependency>,
    ManifestError,
>)
    ensures
        dependencies_view(r) == dependencies_of(children.deep_view()),
{
    let ghost cs = children.deep_view();
    let mut acc: Vec<Dependency> = Vec::new();
    let mut i: usize = 0;
    assert(cs.skip(0) =~= cs);
    assert(prepend(acc.deep_view(), dependencies_of(cs)) =~= dependencies_of(cs)) by {
        assert(acc.deep_view() =~= Seq::<DependencyView>::empty());
        match dependencies_of(cs) {
            Ok(rest) => {
                assert(acc.deep_view() + rest =~= rest);
            },
            Err(_) => {},
        }
    }
    while i < children.len()
        invariant
            cs == children.deep_view(),
            i <= children.len(),
            dependencies_of(cs) == prepend(acc.deep_view(), dependencies_of(cs.skip(i as int))),
        decreases children.len() - i,
    {
        let ghost rest = cs.skip(i as int);
        assert(rest[0] == children@[i as int].deep_view());
        assert(rest.drop_first() =~= cs.skip(i + 1));
        match read_dependency(&children[i]) {
            Err(e) => {
                return Err(e);
            },
            Ok(d) => {
                let ghost before = acc.deep_view();
                let ghost dv = d.deep_view();
                acc.push(d);
                assert(acc.deep_view() =~= before + seq![dv]);
                proof {
                    match dependencies_of(cs.skip(i + 1)) {
                        Ok(tail) => {
                            assert(before + (seq![dv] + tail) =~= (before + seq![dv]) + tail);
                        },
                        Err(_) => {},
                    }
                }
            },
        }
        i = i + 1;
    }
    assert(cs.skip(i as int) =~= Seq::<ChildView>::empty());
    assert(acc.deep_view() + Seq::<DependencyView>::empty() =~= acc.deep_view());
    Ok(acc)
}

/// Reads the `dependencies` node.
pub fn read_dependencies(n: &KdlNodeData) -> (r: Result<Vec<Dependency>, ManifestError>)
    ensures
        dependencies_view(r) == dependencies_from_node(n.deep_view()),
{
    let none = no_props();
    match check_props(&n.1, &none, false, &n.0) {
        Err(e) => {
            return Err(e);
        },
        Ok(_) => {},
    }
    match &n.2 {
        Some(c) => read_dependency_list(c),
        None => {
            let empty: Vec<Dependency> = Vec::new();
            assert(empty.deep_view() =~= Seq::<DependencyView>::empty());
            Ok(empty)
        },
    }
}

/// The outcome of the rest of a `target_of` reading, given what came before.
pub open spec fn keep_last(
    acc: Option<Seq<char>>,
    r: Result<Option<Seq<char>>, ManifestErrorView>,
) -> Result<Option<Seq<char>>, ManifestErrorView> {
    match r {
        Err(e) => Err(e),
        Ok(None) => Ok(acc),
        Ok(Some(t)) => Ok(Some(t)),
    }
}

/// Reads the children of `compiler`.
pub fn read_target(children: &Vec<KdlChildData>, parent: &String) -> (r: Result<
    Option<String>,
    ManifestError,
>)
    ensures
        opt_text_view(r) == target_of(children.deep_view(), parent@),
{
    let ghost cs = children.deep_view();
    let mut acc: Option<String> = None;
    let mut i: usize = 0;
    assert(cs.skip(0) =~= cs);
    while i < children.len()
        invariant
            cs == children.deep_view(),
            i <= children.len(),
            target_of(cs, parent@) == keep_last(acc.deep_view(), target_of(cs.skip(i as int), parent@)),
        decreases children.len() - i,
    {
        let ghost rest = cs.skip(i as int);
        assert(rest[0] == children@[i as int].deep_view());
        assert(rest.drop_first() =~= cs.skip(i + 1));
        let c = &children[i];
        if !crate::text::text_is(&c.0, "target") {
            return Err(ManifestError::UnknownChild { parent: parent.clone(), child: c.0.clone() });
        }
        match single_text(c) {
            Err(e) => {
                return Err(e);
            },
            Ok(t) => {
                acc = Some(t);
            },
        }
        i = i + 1;
    }
    assert(cs.skip(i as int) =~= Seq::<ChildView>::empty());
    Ok(acc)
}

/// Reads the `compiler` node.
pub fn read_compiler(n: &KdlNodeData) -> (r: Result<CompilerConfig, ManifestError>)
    ensures
        compiler_view(r) == compiler_from_node(n.deep_view()),
{
    let none = no_props();
    match check_props(&n.1, &none, false, &n.0) {
        Err(e) => {
            return Err(e);
        },
        Ok(_) => {},
    }
    let target = match &n.2 {
        Some(c) => read_target(c, &n.0),
        None => {
            let empty: Vec<KdlChildData> = Vec::new();
            assert(empty.deep_view() =~= Seq::<ChildView>::empty());
            read_target(&empty, &n.0)
        },
    };
    match target {
        Err(e) => Err(e),
        Ok(target) => Ok(CompilerConfig { target }),
    }
}

/// Once the reading has failed, later nodes do not change the outcome.
pub proof fn lemma_read_error_stays(nodes: Seq<NodeView>, i: int, e: ManifestErrorView)
    requires
        0 <= i <= nodes.len(),
        read_nodes(nodes.take(i)) == Err::<ReadState, ManifestErrorView>(e),
    ensures
        read_nodes(nodes) == Err::<ReadState, ManifestErrorView>(e),
    decreases nodes.len() - i,
{
    if i < nodes.len() {
        assert(nodes.take(i + 1).drop_last() =~= nodes.take(i));
        lemma_read_error_stays(nodes, i + 1, e);
    } else {
        assert(nodes.take(i) =~= nodes);
    }
}

/// The manifest that the nodes of a KDL document describe, read by the rules
/// of `manifest_from`.
pub fn manifest_from_nodes(nodes: &Vec<KdlNodeData>) -> (r: Result<Manifest, ManifestError>)
    ensures
        crate::manifest::manifest_result_view(r) == manifest_from(nodes.deep_view()),
{
    let ghost ns = nodes.deep_view();
    let mut at: Option<AtMetadata> = None;
    let mut compiler = CompilerConfig { target: None };
    let mut deps: Vec<Dependency> = Vec::new();
    let mut i: usize = 0;
    assert(ns.take(0) =~= Seq::<NodeView>::empty());
    assert(deps.deep_view() =~= Seq::<DependencyView>::empty());
    while i < nodes.len()
        invariant
            ns == nodes.deep_view(),
            i <= nodes.len(),
            read_nodes(ns.take(i as int)) == Ok::<ReadState, ManifestErrorView>(
                ReadState {
                    at: at.deep_view(),
                    compiler: compiler.deep_view(),
                    dependencies: deps.deep_view(),
                },
            ),
        decreases nodes.len() - i,
    {
        assert(ns.take(i + 1).drop_last() =~= ns.take(i as int));
        assert(ns.take(i + 1).last() == nodes@[i as int].deep_view());
        let n = &nodes[i];
        if crate::text::text_is(&n.0, "at") {
            if at.is_some() {
                proof {
                    lemma_read_error_stays(ns, i + 1, ManifestErrorView::DuplicateAt);
                }
                return Err(ManifestError::DuplicateAt);
            }
            match read_at(n) {
                Err(e) => {
                    proof {
                        lemma_read_error_stays(ns, i + 1, e.deep_view());
                    }
                    return Err(e);
                },
                Ok(a) => {
                    at = Some(a);
                },
            }
        } else if crate::text::text_is(&n.0, "dependencies") {
            match read_dependencies(n) {
                Err(e) => {
                    proof {
                        lemma_read_error_stays(ns, i + 1, e.deep_view());
                    }
                    return Err(e);
                },
                Ok(d) => {
                    deps = d;
                },
            }
        } else if crate::text::text_is(&n.0, "compiler") {
            match read_compiler(n) {
                Err(e) => {
                    proof {
                        lemma_read_error_stays(ns, i + 1, e.deep_view());
                    }
                    return Err(e);
                },
                Ok(c) => {
                    compiler = c;
                },
            }
        } else {
            proof {
                lemma_read_error_stays(ns, i + 1, ManifestErrorView::UnknownTopLevel(n.0@));
            }
            return Err(ManifestError::UnknownTopLevel(n.0.clone()));
        }
        i = i + 1;
    }
    assert(ns.take(i as int) =~= ns);
    match at {
        None => Err(ManifestError::MissingAt),
        Some(a) => Ok(Manifest { at: a, compiler, dependencies: deps }),
    }
}

} // verus!
