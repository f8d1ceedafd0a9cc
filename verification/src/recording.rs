//! What recording a dependency does to the manifest, stated over the
//! document model: the edit that `plan_edit` chooses, applied to the nodes,
//! gives the manifest with the dependency in place.
use vstd::prelude::*;
use crate::manifest::{ChildView, DependencyView, ManifestErrorView, ManifestView, NodeView};
use crate::manifest_parse::{
    dependencies_from_node, dependencies_of, dependency_from_child, lemma_read_error_stays,
    manifest_from, props_verdict, read_node, read_nodes, ReadState,
};
use crate::kdl_doc::kdl_nodes;
use crate::packages::{
    add_dependency_spec, parse_manifest_spec, as_props, dependency_entries, first_child_named, first_node_named, lemma_dependency_node_reads_back,
    lemma_first_child_named, lemma_first_node_named, plan_edit, DependencyEdit,
};

verus! {

/// The node a dependency is written as.
pub open spec fn dependency_child(d: DependencyView) -> ChildView {
    ChildView { name: d.alias, entries: as_props(dependency_entries(d)), has_children: false }
}

/// `n` with the children block `c`.
pub open spec fn with_children(n: NodeView, c: Seq<ChildView>) -> NodeView {
    NodeView { name: n.name, entries: n.entries, children: Some(c) }
}

/// The document's nodes after the edit `plan_edit` chooses for `d`.
pub open spec fn edited_nodes(nodes: Seq<NodeView>, d: DependencyView) -> Seq<NodeView> {
    let c = dependency_child(d);
    match plan_edit(nodes, d.alias) {
        DependencyEdit::Replace { section, index } => nodes.update(
            section as int,
            with_children(nodes[section as int], nodes[section as int].children->0.update(index as int, c)),
        ),
        DependencyEdit::Append { section } => nodes.update(
            section as int,
            with_children(nodes[section as int], nodes[section as int].children->0.push(c)),
        ),
        DependencyEdit::OpenChildren { section } => nodes.update(
            section as int,
            with_children(nodes[section as int], seq![c]),
        ),
        DependencyEdit::NewSection => nodes.push(
            NodeView { name: "dependencies"@, entries: Seq::empty(), children: Some(seq![c]) },
        ),
    }
}

/// The position of the first dependency with the alias `alias`.
pub open spec fn first_with_alias(deps: Seq<DependencyView>, alias: Seq<char>) -> Option<int>
    decreases deps.len(),
{
    if deps.len() == 0 {
        None
    } else if deps[0].alias == alias {
        Some(0)
    } else {
        match first_with_alias(deps.drop_first(), alias) {
            Some(i) => Some(i + 1),
            None => None,
        }
    }
}

/// The dependencies with `d` recorded: in place of the first one with its
/// alias, else at the end.
pub open spec fn with_dependency(deps: Seq<DependencyView>, d: DependencyView) -> Seq<
    DependencyView,
> {
    match first_with_alias(deps, d.alias) {
        Some(i) => deps.update(i, d),
        None => deps.push(d),
    }
}

/// At most one top-level node is named `dependencies`.
pub open spec fn single_section(nodes: Seq<NodeView>) -> bool {
    forall|i: int, j: int|
        0 <= i < nodes.len() && 0 <= j < nodes.len() && (#[trigger] nodes[i]).name
            == "dependencies"@ && (#[trigger] nodes[j]).name == "dependencies"@ ==> i == j
}

// ---------------------------------------------------------------------
// The dependency list, element by element
// ---------------------------------------------------------------------

proof fn lemma_dependencies_pointwise(cs: Seq<ChildView>)
    ensures
        dependencies_of(cs) is Ok <==> forall|i: int|
            0 <= i < cs.len() ==> (#[trigger] dependency_from_child(cs[i])) is Ok,
        dependencies_of(cs) matches Ok(ds) ==> ds.len() == cs.len() && forall|i: int|
            0 <= i < cs.len() ==> dependency_from_child(#[trigger] cs[i]) == Ok::<
                DependencyView,
                ManifestErrorView,
            >(ds[i]),
    decreases cs.len(),
{
    if cs.len() > 0 {
        let t = cs.drop_first();
        lemma_dependencies_pointwise(t);
        assert forall|i: int| 1 <= i < cs.len() implies cs[i] == t[i - 1] by {}
        if dependency_from_child(cs[0]) is Ok && dependencies_of(t) is Err {
            let k = choose|k: int| 0 <= k < t.len() && !(#[trigger] dependency_from_child(t[k]) is Ok);
            assert(cs[k + 1] == t[k]);
        }
    }
}

proof fn lemma_dependencies_from_pointwise(cs: Seq<ChildView>, ds: Seq<DependencyView>)
    requires
        ds.len() == cs.len(),
        forall|i: int|
            0 <= i < cs.len() ==> dependency_from_child(#[trigger] cs[i]) == Ok::<
                DependencyView,
                ManifestErrorView,
            >(ds[i]),
    ensures
        dependencies_of(cs) == Ok::<Seq<DependencyView>, ManifestErrorView>(ds),
{
    lemma_dependencies_pointwise(cs);
    assert forall|i: int| 0 <= i < cs.len() implies (#[trigger] dependency_from_child(cs[i])) is Ok by {
        assert(dependency_from_child(cs[i]) == Ok::<DependencyView, ManifestErrorView>(ds[i]));
    }
    let r = dependencies_of(cs)->Ok_0;
    assert forall|i: int| 0 <= i < cs.len() implies r[i] == ds[i] by {
        assert(dependency_from_child(cs[i]) == Ok::<DependencyView, ManifestErrorView>(ds[i]));
        assert(dependency_from_child(cs[i]) == Ok::<DependencyView, ManifestErrorView>(r[i]));
    }
    assert(r =~= ds);
}

/// The aliases of the dependencies are the names of their nodes.
proof fn lemma_first_alias_matches(cs: Seq<ChildView>, ds: Seq<DependencyView>, alias: Seq<char>)
    requires
        dependencies_of(cs) == Ok::<Seq<DependencyView>, ManifestErrorView>(ds),
    ensures
        first_with_alias(ds, alias) == first_child_named(cs, alias),
    decreases cs.len(),
{
    if cs.len() > 0 {
        let d0 = dependency_from_child(cs[0])->Ok_0;
        let rest = dependencies_of(cs.drop_first())->Ok_0;
        assert(ds == seq![d0] + rest);
        assert(ds[0] == d0);
        assert(ds.drop_first() =~= rest);
        lemma_first_alias_matches(cs.drop_first(), rest, alias);
    }
}

/// `first_with_alias` gives the position of the first dependency with the
/// alias, or `None` when none has it.
proof fn lemma_first_with_alias(deps: Seq<DependencyView>, alias: Seq<char>)
    ensures
        first_with_alias(deps, alias) matches Some(i) ==> 0 <= i < deps.len() && deps[i].alias
            == alias && forall|k: int| 0 <= k < i ==> deps[k].alias != alias,
        first_with_alias(deps, alias) is None ==> forall|k: int|
            0 <= k < deps.len() ==> deps[k].alias != alias,
    decreases deps.len(),
{
    if deps.len() > 0 {
        lemma_first_with_alias(deps.drop_first(), alias);
        assert forall|k: int| 1 <= k < deps.len() implies deps[k] == deps.drop_first()[k - 1] by {}
    }
}

// ---------------------------------------------------------------------
// Reading the edited document
// ---------------------------------------------------------------------

/// The reading outcome with the dependencies replaced by `d`.
pub open spec fn set_deps(r: Result<ReadState, ManifestErrorView>, d: Seq<DependencyView>) -> Result<
    ReadState,
    ManifestErrorView,
> {
    match r {
        Ok(s) => Ok(ReadState { dependencies: d, ..s }),
        Err(e) => Err(e),
    }
}

proof fn lemma_names_differ()
    ensures
        "at"@ != "dependencies"@,
        "compiler"@ != "dependencies"@,
{
    reveal_strlit("at");
    reveal_strlit("dependencies");
    reveal_strlit("compiler");
    assert("at"@.len() == 2);
    assert("compiler"@.len() == 8);
    assert("dependencies"@.len() == 12);
}

proof fn lemma_read_node_keeps(s: ReadState, n: NodeView, d: Seq<DependencyView>)
    requires
        n.name != "dependencies"@,
    ensures
        read_node(ReadState { dependencies: d, ..s }, n) == set_deps(read_node(s, n), d),
{
}

/// Reading a document whose only `dependencies` node, at `sec`, is replaced
/// by `n2` gives what it gave before, with the dependencies that `n2` gives.
proof fn lemma_read_replaced_section(
    nodes: Seq<NodeView>,
    sec: int,
    n2: NodeView,
    d2: Seq<DependencyView>,
    k: int,
)
    requires
        0 <= sec < nodes.len(),
        sec < k <= nodes.len(),
        nodes[sec].name == "dependencies"@,
        n2.name == "dependencies"@,
        forall|j: int| 0 <= j < nodes.len() && j != sec ==> (#[trigger] nodes[j]).name
            != "dependencies"@,
        dependencies_from_node(n2) == Ok::<Seq<DependencyView>, ManifestErrorView>(d2),
        read_nodes(nodes) is Ok,
    ensures
        read_nodes(nodes.update(sec, n2).take(k)) == set_deps(read_nodes(nodes.take(k)), d2),
    decreases k,
{
    lemma_names_differ();
    let n2s = nodes.update(sec, n2);
    assert(n2s.take(k).drop_last() =~= n2s.take(k - 1));
    assert(nodes.take(k).drop_last() =~= nodes.take(k - 1));
    assert(n2s.take(k).last() == n2s[k - 1]);
    assert(nodes.take(k).last() == nodes[k - 1]);
    if k == sec + 1 {
        let p = nodes.take(sec);
        assert(n2s.take(k - 1) =~= p);
        assert(n2s[k - 1] == n2);
        match read_nodes(p) {
            Err(_) => {},
            Ok(st0) => {
                assert(read_node(st0, n2) == Ok::<ReadState, ManifestErrorView>(
                    ReadState { dependencies: d2, ..st0 },
                ));
                match dependencies_from_node(nodes[sec]) {
                    Err(e) => {
                        assert(read_nodes(nodes.take(k)) == Err::<ReadState, ManifestErrorView>(e));
                        lemma_read_error_stays(nodes, k, e);
                    },
                    Ok(dd) => {
                        assert(read_node(st0, nodes[sec]) == Ok::<ReadState, ManifestErrorView>(
                            ReadState { dependencies: dd, ..st0 },
                        ));
                    },
                }
            },
        }
    } else {
        lemma_read_replaced_section(nodes, sec, n2, d2, k - 1);
        assert(n2s[k - 1] == nodes[k - 1]);
        match read_nodes(nodes.take(k - 1)) {
            Ok(s) => {
                lemma_read_node_keeps(s, nodes[k - 1], d2);
            },
            Err(_) => {},
        }
    }
}

/// In a document that reads without error, each `dependencies` node reads
/// without error.
proof fn lemma_section_reads(nodes: Seq<NodeView>, s: int)
    requires
        read_nodes(nodes) is Ok,
        0 <= s < nodes.len(),
        nodes[s].name == "dependencies"@,
    ensures
        dependencies_from_node(nodes[s]) is Ok,
{
    lemma_names_differ();
    assert(nodes.take(s + 1).drop_last() =~= nodes.take(s));
    assert(nodes.take(s + 1).last() == nodes[s]);
    match read_nodes(nodes.take(s)) {
        Err(e) => {
            lemma_read_error_stays(nodes, s, e);
        },
        Ok(st0) => {
            match dependencies_from_node(nodes[s]) {
                Err(e) => {
                    assert(read_nodes(nodes.take(s + 1)) == Err::<ReadState, ManifestErrorView>(e));
                    lemma_read_error_stays(nodes, s + 1, e);
                },
                Ok(_) => {},
            }
        },
    }
}

/// Reading a document with no `dependencies` node leaves the dependencies
/// empty.
proof fn lemma_read_no_section(nodes: Seq<NodeView>)
    requires
        forall|j: int| 0 <= j < nodes.len() ==> (#[trigger] nodes[j]).name != "dependencies"@,
    ensures
        read_nodes(nodes) matches Ok(s) ==> s.dependencies == Seq::<DependencyView>::empty(),
    decreases nodes.len(),
{
    if nodes.len() > 0 {
        let t = nodes.drop_last();
        assert forall|j: int| 0 <= j < t.len() implies (#[trigger] t[j]).name != "dependencies"@ by {
            assert(t[j] == nodes[j]);
        }
        lemma_read_no_section(t);
        assert(nodes.last() == nodes[nodes.len() - 1]);
    }
}

/// The document's positions fit in a `usize`, as those of a document in
/// memory do.
pub open spec fn positions_fit(nodes: Seq<NodeView>) -> bool {
    &&& nodes.len() <= usize::MAX
    &&& forall|i: int|
        0 <= i < nodes.len() ==> match (#[trigger] nodes[i]).children {
            Some(c) => c.len() <= usize::MAX,
            None => true,
        }
}

/// Recording a dependency in a valid manifest whose document has at most one
/// `dependencies` node gives, read back by the manifest rules, the same
/// manifest with the dependency in place of the first one with its alias,
/// or added at the end.
pub proof fn lemma_recorded_dependency(nodes: Seq<NodeView>, d: DependencyView)
    requires
        manifest_from(nodes) is Ok,
        single_section(nodes),
        positions_fit(nodes),
    ensures
        manifest_from(edited_nodes(nodes, d)) == Ok::<ManifestView, ManifestErrorView>(
            ManifestView {
                dependencies: with_dependency(manifest_from(nodes)->Ok_0.dependencies, d),
                ..manifest_from(nodes)->Ok_0
            },
        ),
{
    lemma_names_differ();
    let m = manifest_from(nodes)->Ok_0;
    let st = read_nodes(nodes)->Ok_0;
    let c = dependency_child(d);
    lemma_dependency_node_reads_back(d);
    assert(dependency_from_child(c) == Ok::<DependencyView, ManifestErrorView>(d));
    lemma_first_node_named(nodes, "dependencies"@);
    match first_node_named(nodes, "dependencies"@) {
        None => {
            lemma_read_no_section(nodes);
            let sec = NodeView { name: "dependencies"@, entries: Seq::empty(), children: Some(seq![c]) };
            lemma_dependencies_from_pointwise(seq![c], seq![d]);
            assert(dependencies_from_node(sec) == Ok::<Seq<DependencyView>, ManifestErrorView>(
                seq![d],
            ));
            let e = nodes.push(sec);
            assert(e.drop_last() =~= nodes);
            assert(e.last() == sec);
            assert(first_with_alias(Seq::<DependencyView>::empty(), d.alias) is None);
            assert(Seq::<DependencyView>::empty().push(d) =~= seq![d]);
        },
        Some(s) => {
            let n = nodes[s];
            assert forall|j: int| 0 <= j < nodes.len() && j != s implies (#[trigger] nodes[j]).name
                != "dependencies"@ by {
                if nodes[j].name == "dependencies"@ {
                    assert(nodes[s].name == "dependencies"@);
                }
            }
            lemma_section_reads(nodes, s);
            assert(props_verdict(n.entries, Seq::empty(), false, n.name) is Ok);
            let old_deps = dependencies_from_node(n);
            let dn = old_deps->Ok_0;
            // The section's current dependencies are the manifest's.
            lemma_read_replaced_section(nodes, s, n, dn, nodes.len() as int);
            assert(nodes.update(s, n) =~= nodes);
            assert(nodes.take(nodes.len() as int) =~= nodes);
            assert(dn == m.dependencies);
            let new_children = match plan_edit(nodes, d.alias) {
                DependencyEdit::Replace { section, index } => n.children->0.update(index as int, c),
                DependencyEdit::Append { section } => n.children->0.push(c),
                _ => seq![c],
            };
            let n2 = with_children(n, new_children);
            let d2 = with_dependency(m.dependencies, d);
            match n.children {
                None => {
                    assert(m.dependencies == Seq::<DependencyView>::empty());
                    lemma_dependencies_from_pointwise(seq![c], seq![d]);
                    assert(Seq::<DependencyView>::empty().push(d) =~= seq![d]);
                },
                Some(cs) => {
                    lemma_dependencies_pointwise(cs);
                    lemma_first_alias_matches(cs, m.dependencies, d.alias);
                    lemma_first_child_named(cs, d.alias);
                    match first_child_named(cs, d.alias) {
                        Some(i) => {
                            lemma_dependencies_from_pointwise(
                                cs.update(i, c),
                                m.dependencies.update(i, d),
                            );
                        },
                        None => {
                            lemma_dependencies_from_pointwise(cs.push(c), m.dependencies.push(d));
                        },
                    }
                },
            }
            assert(dependencies_from_node(n2) == Ok::<Seq<DependencyView>, ManifestErrorView>(d2));
            assert(edited_nodes(nodes, d) == nodes.update(s, n2));
            lemma_read_replaced_section(nodes, s, n2, d2, nodes.len() as int);
            assert(nodes.update(s, n2).take(nodes.len() as int) =~= nodes.update(s, n2));
            assert(nodes.take(nodes.len() as int) =~= nodes);
        },
    }
}


/// Recording a dependency in a list that already records it changes
/// nothing.
pub proof fn lemma_with_dependency_twice(deps: Seq<DependencyView>, d: DependencyView)
    ensures
        with_dependency(with_dependency(deps, d), d) == with_dependency(deps, d),
{
    let once = with_dependency(deps, d);
    lemma_first_with_alias(deps, d.alias);
    lemma_first_with_alias(once, d.alias);
    match first_with_alias(deps, d.alias) {
        Some(i) => {
            assert(once[i].alias == d.alias);
            let j = first_with_alias(once, d.alias)->0;
            if j < i {
                assert(once[j] == deps[j]);
            }
            assert(j == i);
            assert(once.update(i, d) =~= once);
        },
        None => {
            let n = deps.len() as int;
            assert(once[n] == d);
            let j = first_with_alias(once, d.alias)->0;
            if j < n {
                assert(once[j] == deps[j]);
            }
            assert(j == n);
            assert(once.update(n, d) =~= once);
        },
    }
}

/// The edit keeps at most one `dependencies` node in the document.
proof fn lemma_edit_keeps_single_section(nodes: Seq<NodeView>, d: DependencyView)
    requires
        single_section(nodes),
        positions_fit(nodes),
    ensures
        single_section(edited_nodes(nodes, d)),
{
    lemma_first_node_named(nodes, "dependencies"@);
    let e = edited_nodes(nodes, d);
    match first_node_named(nodes, "dependencies"@) {
        None => {
            assert forall|i: int, j: int|
                0 <= i < e.len() && 0 <= j < e.len() && (#[trigger] e[i]).name == "dependencies"@
                    && (#[trigger] e[j]).name == "dependencies"@ implies i == j by {
                if i < nodes.len() {
                    assert(e[i] == nodes[i]);
                }
                if j < nodes.len() {
                    assert(e[j] == nodes[j]);
                }
            }
        },
        Some(s) => {
            assert(e.len() == nodes.len());
            assert(e[s].name == nodes[s].name);
            assert forall|i: int, j: int|
                0 <= i < e.len() && 0 <= j < e.len() && (#[trigger] e[i]).name == "dependencies"@
                    && (#[trigger] e[j]).name == "dependencies"@ implies i == j by {
                if i != s {
                    assert(e[i] == nodes[i]);
                    assert(nodes[s].name == "dependencies"@);
                }
                if j != s {
                    assert(e[j] == nodes[j]);
                    assert(nodes[s].name == "dependencies"@);
                }
            }
        },
    }
}

/// Recording the same dependency twice gives, read back by the manifest
/// rules, the manifest that recording it once gives.
pub proof fn lemma_recorded_twice(nodes: Seq<NodeView>, d: DependencyView)
    requires
        manifest_from(nodes) is Ok,
        single_section(nodes),
        positions_fit(nodes),
        positions_fit(edited_nodes(nodes, d)),
    ensures
        manifest_from(edited_nodes(nodes, d)) is Ok,
        manifest_from(edited_nodes(edited_nodes(nodes, d), d)) == manifest_from(
            edited_nodes(nodes, d),
        ),
{
    let m = manifest_from(nodes)->Ok_0;
    let e = edited_nodes(nodes, d);
    lemma_recorded_dependency(nodes, d);
    lemma_edit_keeps_single_section(nodes, d);
    lemma_recorded_dependency(e, d);
    lemma_with_dependency_twice(m.dependencies, d);
    let m1 = manifest_from(e)->Ok_0;
    assert(ManifestView { dependencies: with_dependency(m1.dependencies, d), ..m1 } == m1);
}

/// The text that recording a dependency writes: wherever `kdl` reads that
/// text as the edited document, the manifest read from it is the old one with
/// the dependency in place of the first one with its alias, or added at the
/// end. (That `kdl` reads its own output so is not stated by any item here.)
pub proof fn lemma_recorded_text(text: Seq<char>, d: DependencyView)
    requires
        parse_manifest_spec(text) is Ok,
        kdl_nodes(text) matches Some(nodes) && single_section(nodes) && positions_fit(nodes)
            && kdl_nodes(add_dependency_spec(text, d)->Ok_0) == Some(edited_nodes(nodes, d)),
    ensures
        add_dependency_spec(text, d) is Ok,
        parse_manifest_spec(add_dependency_spec(text, d)->Ok_0) == Ok::<
            ManifestView,
            ManifestErrorView,
        >(
            ManifestView {
                dependencies: with_dependency(parse_manifest_spec(text)->Ok_0.dependencies, d),
                ..parse_manifest_spec(text)->Ok_0
            },
        ),
{
    let nodes = kdl_nodes(text)->0;
    lemma_recorded_dependency(nodes, d);
}

} // verus!
