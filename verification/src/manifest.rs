//! The project manifest (`manifest.nibble`) and the plain-value model of the
//! KDL document it is written in.
use vstd::prelude::*;

verus! {

// ---------------------------------------------------------------------
// The KDL document as the manifest logic reads it
// ---------------------------------------------------------------------

/// One entry of a KDL node: its name, set for a property (`key="value"`)
/// and absent for an argument; and its value, when that is a string.
#[derive(Debug, Clone)]
pub struct KdlEntryData(pub Option<String>, pub Option<String>);

/// A node nested one level down (e.g. `author "x"` under `at`): its name, its
/// entries, and whether it has a children block of its own (all that is kept
/// below it).
#[derive(Debug, Clone)]
pub struct KdlChildData(pub String, pub Vec<KdlEntryData>, pub bool);

/// A top-level node of the document: its name, its entries, and its
/// children when it has a children block.
#[derive(Debug, Clone)]
pub struct KdlNodeData(pub String, pub Vec<KdlEntryData>, pub Option<Vec<KdlChildData>>);

pub struct EntryView {
    pub name: Option<Seq<char>>,
    pub text: Option<Seq<char>>,
}

pub struct ChildView {
    pub name: Seq<char>,
    pub entries: Seq<EntryView>,
    pub has_children: bool,
}

pub struct NodeView {
    pub name: Seq<char>,
    pub entries: Seq<EntryView>,
    pub children: Option<Seq<ChildView>>,
}

impl DeepView for KdlEntryData {
    type V = EntryView;

    open spec fn deep_view(&self) -> EntryView {
        EntryView { name: self.0.deep_view(), text: self.1.deep_view() }
    }
}

impl DeepView for KdlChildData {
    type V = ChildView;

    open spec fn deep_view(&self) -> ChildView {
        ChildView { name: self.0@, entries: self.1.deep_view(), has_children: self.2 }
    }
}

impl DeepView for KdlNodeData {
    type V = NodeView;

    open spec fn deep_view(&self) -> NodeView {
        NodeView { name: self.0@, entries: self.1.deep_view(), children: self.2.deep_view() }
    }
}

// ---------------------------------------------------------------------
// The manifest
// ---------------------------------------------------------------------

/// The project's own `at` node.
#[derive(Debug, Clone)]
pub struct AtMetadata {
    pub name: String,
    pub entry: Option<String>,
    pub version: String,
    pub output: Option<String>,
    pub description: Option<String>,
    pub authors: Vec<String>,
}

/// One dependency: the name it is used under (`alias`), the package it
/// stands for (`at`), and where and at which version to fetch it.
#[derive(Debug, Clone)]
pub struct Dependency {
    pub alias: String,
    pub at: String,
    pub version: Option<String>,
    pub source: Option<String>,
}

/// The `compiler` node: which backend to compile with.
#[derive(Debug, Clone)]
pub struct CompilerConfig {
    pub target: Option<String>,
}

/// A parsed `manifest.nibble`.
#[derive(Debug, Clone)]
pub struct Manifest {
    pub at: AtMetadata,
    pub compiler: CompilerConfig,
    pub dependencies: Vec<Dependency>,
}

pub struct AtView {
    pub name: Seq<char>,
    pub entry: Option<Seq<char>>,
    pub version: Seq<char>,
    pub output: Option<Seq<char>>,
    pub description: Option<Seq<char>>,
    pub authors: Seq<Seq<char>>,
}

pub struct DependencyView {
    pub alias: Seq<char>,
    pub at: Seq<char>,
    pub version: Option<Seq<char>>,
    pub source: Option<Seq<char>>,
}

pub struct CompilerView {
    pub target: Option<Seq<char>>,
}

pub struct ManifestView {
    pub at: AtView,
    pub compiler: CompilerView,
    pub dependencies: Seq<DependencyView>,
}

impl DeepView for AtMetadata {
    type V = AtView;

    open spec fn deep_view(&self) -> AtView {
        AtView {
            name: self.name@,
            entry: self.entry.deep_view(),
            version: self.version@,
            output: self.output.deep_view(),
            description: self.description.deep_view(),
            authors: self.authors.deep_view(),
        }
    }
}

impl DeepView for Dependency {
    type V = DependencyView;

    open spec fn deep_view(&self) -> DependencyView {
        DependencyView {
            alias: self.alias@,
            at: self.at@,
            version: self.version.deep_view(),
            source: self.source.deep_view(),
        }
    }
}

impl DeepView for CompilerConfig {
    type V = CompilerView;

    open spec fn deep_view(&self) -> CompilerView {
        CompilerView { target: self.target.deep_view() }
    }
}

impl DeepView for Manifest {
    type V = ManifestView;

    open spec fn deep_view(&self) -> ManifestView {
        ManifestView {
            at: self.at.deep_view(),
            compiler: self.compiler.deep_view(),
            dependencies: self.dependencies.deep_view(),
        }
    }
}

// ---------------------------------------------------------------------
// Errors
// ---------------------------------------------------------------------

/// Why a manifest was refused.
#[derive(Debug, Clone)]
pub enum ManifestError {
    /// The text is not a KDL document; the parser's own message.
    Syntax(String),
    /// Two `at` nodes.
    DuplicateAt,
    /// A top-level node other than `at`, `compiler` and `dependencies`.
    UnknownTopLevel(String),
    /// No `at` node.
    MissingAt,
    /// A property that the node does not take.
    UnknownAttribute { attr: String, node: String, allowed: Vec<String> },
    /// An argument on a node that takes properties only.
    UnexpectedPositional(String),
    /// A property whose value is not a string.
    NotAString { key: String, node: String },
    /// A required property that is absent.
    MissingAttribute { key: String, node: String },
    /// A node such as `author` without its value.
    MissingValue(String),
    /// A node such as `author` whose value is given as a property.
    NamedValue(String),
    /// A node such as `author` whose value is not a string.
    NonStringValue(String),
    /// A child node that its parent does not take.
    UnknownChild { parent: String, child: String },
    /// A dependency node with a children block.
    DependencyHasChildren(String),
    /// There is no manifest at all.
    NoManifest,
}

pub enum ManifestErrorView {
    Syntax(Seq<char>),
    DuplicateAt,
    UnknownTopLevel(Seq<char>),
    MissingAt,
    UnknownAttribute { attr: Seq<char>, node: Seq<char>, allowed: Seq<Seq<char>> },
    UnexpectedPositional(Seq<char>),
    NotAString { key: Seq<char>, node: Seq<char> },
    MissingAttribute { key: Seq<char>, node: Seq<char> },
    MissingValue(Seq<char>),
    NamedValue(Seq<char>),
    NonStringValue(Seq<char>),
    UnknownChild { parent: Seq<char>, child: Seq<char> },
    DependencyHasChildren(Seq<char>),
    NoManifest,
}

impl DeepView for ManifestError {
    type V = ManifestErrorView;

    open spec fn deep_view(&self) -> ManifestErrorView {
        match self {
            ManifestError::Syntax(m) => ManifestErrorView::Syntax(m@),
            ManifestError::DuplicateAt => ManifestErrorView::DuplicateAt,
            ManifestError::UnknownTopLevel(n) => ManifestErrorView::UnknownTopLevel(n@),
            ManifestError::MissingAt => ManifestErrorView::MissingAt,
            ManifestError::UnknownAttribute { attr, node, allowed } =>
                ManifestErrorView::UnknownAttribute {
                    attr: attr@,
                    node: node@,
                    allowed: allowed.deep_view(),
                },
            ManifestError::UnexpectedPositional(n) => ManifestErrorView::UnexpectedPositional(n@),
            ManifestError::NotAString { key, node } =>
                ManifestErrorView::NotAString { key: key@, node: node@ },
            ManifestError::MissingAttribute { key, node } =>
                ManifestErrorView::MissingAttribute { key: key@, node: node@ },
            ManifestError::MissingValue(n) => ManifestErrorView::MissingValue(n@),
            ManifestError::NamedValue(n) => ManifestErrorView::NamedValue(n@),
            ManifestError::NonStringValue(n) => ManifestErrorView::NonStringValue(n@),
            ManifestError::UnknownChild { parent, child } =>
                ManifestErrorView::UnknownChild { parent: parent@, child: child@ },
            ManifestError::DependencyHasChildren(n) => ManifestErrorView::DependencyHasChildren(
                n@,
            ),
            ManifestError::NoManifest => ManifestErrorView::NoManifest,
        }
    }
}

/// The view of a parse outcome.
pub open spec fn manifest_result_view(r: Result<Manifest, ManifestError>) -> Result<
    ManifestView,
    ManifestErrorView,
> {
    match r {
        Ok(m) => Ok(m.deep_view()),
        Err(e) => Err(e.deep_view()),
    }
}

impl AtMetadata {
    /// The name the build output gets: `output` when set, else the project's
    /// name.
    pub fn output_name(&self) -> (r: String)
        ensures
            r@ == (match self.output {
                Some(o) => o@,
                None => self.name@,
            }),
    {
        match &self.output {
            Some(o) => o.clone(),
            None => self.name.clone(),
        }
    }
}

impl Dependency {
    /// The dependency that `nibble install ALIAS [--at AT] [--version V]
    /// [--source S]` records: the package defaults to the alias.
    pub fn from_install_args(
        alias: String,
        at: Option<String>,
        version: Option<String>,
        source: Option<String>,
    ) -> (d: Dependency)
        ensures
            d.alias@ == alias@,
            d.at@ == (match at {
                Some(a) => a@,
                None => alias@,
            }),
            d.version.deep_view() == version.deep_view(),
            d.source.deep_view() == source.deep_view(),
    {
        let at = match at {
            Some(a) => a,
            None => alias.clone(),
        };
        Dependency { alias, at, version, source }
    }
}

} // verus!
