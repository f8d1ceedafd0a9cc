//! Where nibble keeps things: relative paths, joined as the platform joins
//! them.
use vstd::prelude::*;

verus! {

/// `part` appended to the path `base` as std's `Path::join` does it on the
/// platform the crate is built for: an absolute `part` replaces `base`, and
/// otherwise the platform's separator stands between them.
pub uninterp spec fn path_join(base: Seq<char>, part: Seq<char>) -> Seq<char>;

/// A single path component made only of ASCII letters, digits, `-`, `_` and
/// `.`: no separator, root, drive or prefix.
pub open spec fn plain_component(s: Seq<char>) -> bool {
    &&& s.len() > 0
    &&& forall|i: int|
        0 <= i < s.len() ==> {
            let c = #[trigger] s[i];
            ('a' <= c && c <= 'z') || ('A' <= c && c <= 'Z') || ('0' <= c && c <= '9') || c
                == '-' || c == '_' || c == '.'
        }
}

/// Calls `std::path::Path::join` on `base` and `part` and converts the
/// result back to a `String` (lossless, as both come from `&str`). Claimed:
/// the result is `path_join` of the two; and, as std documents for a relative
/// `part`, two plain components are adjoined with the platform's main
/// separator, which is `/` or `\`.
#[verifier::external_body]
pub(crate) fn join_path(base: &str, part: &str) -> (r: String)
    ensures
        r@ == path_join(base@, part@),
        plain_component(base@) && plain_component(part@) ==> r@ == base@ + seq!['/'] + part@
            || r@ == base@ + seq!['\\'] + part@,
{
    std::path::Path::new(base).join(part).to_string_lossy().into_owned()
}

/// The directory all generated output goes to.
pub fn nout_dir() -> (r: String)
    ensures
        r@ == "nout"@,
{
    String::from_str("nout")
}

/// The directory fetched packages are unpacked into.
pub fn packs_dir() -> (r: String)
    ensures
        r@ == path_join("nout"@, "packs"@),
        under_nout(r@, "packs"@),
{
    proof {
        lemma_plain_names();
    }
    join_path("nout", "packs")
}

/// The directory object files are built into.
pub fn build_dir() -> (r: String)
    ensures
        r@ == path_join("nout"@, "build"@),
        under_nout(r@, "build"@),
{
    proof {
        lemma_plain_names();
    }
    join_path("nout", "build")
}

/// The directory the dependency known as `alias` is unpacked into.
pub fn package_dir(alias: &str) -> (r: String)
    ensures
        r@ == path_join(path_join("nout"@, "packs"@), alias@),
{
    let p = packs_dir();
    join_path(p.as_str(), alias)
}

/// The project manifest's file name, in the project's root.
pub fn manifest_path() -> (r: String)
    ensures
        r@ == "manifest.nibble"@,
{
    String::from_str("manifest.nibble")
}

/// What `nibble init` writes to `.gitignore`.
pub const GITIGNORE_CONTENT: &'static str = "# Nibble\nnout/\n";

/// `p` is the entry `name` inside the `nout` directory.
pub open spec fn under_nout(p: Seq<char>, name: Seq<char>) -> bool {
    p == "nout"@ + seq!['/'] + name || p == "nout"@ + seq!['\\'] + name
}

proof fn lemma_plain_names()
    ensures
        plain_component("nout"@),
        plain_component("packs"@),
        plain_component("build"@),
{
    reveal_strlit("nout");
    reveal_strlit("packs");
    reveal_strlit("build");
}

} // verus!
