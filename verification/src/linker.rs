//! The Mysz runtime's versions and archives, and the command lines of the
//! native linker.
use vstd::prelude::*;
use vstd::string::*;
use crate::paths::{join_path, path_join};
use crate::text::{
    chars_to_string, decimal, extend_chars, extend_str, format_u32, has_prefix, has_suffix,
    lemma_decimal_digits, lemma_parse_format_u32, lemma_split_append, lemma_split_none, parse_u32,
    parse_u32_spec, split_chars, split_on, strip_prefix_chars, strip_suffix_chars, to_chars,
};

verus! {

/// The C compiler driver used as the linker: `clang` on Windows, `cc`
/// elsewhere.
pub fn host_compiler(windows: bool) -> (r: &'static str)
    ensures
        r@ == (if windows {
            "clang"@
        } else {
            "cc"@
        }),
{
    if windows {
        "clang"
    } else {
        "cc"
    }
}

/// The GitHub repository the runtime is published in.
pub const RUNTIME_REPO: &'static str = "mysz-lang/mysz-runtime";

/// The directory of that repository holding the runtime archives.
pub const RUNTIME_BINARY_DIR: &'static str = "binary";

/// The static library each runtime archive unpacks.
pub const RUNTIME_LIB_NAME: &'static str = "libmysz-runtime.a";

/// The GitHub API address listing the runtime archives.
pub fn runtime_listing_url() -> (r: String)
    ensures
        r@ == "https://api.github.com/repos/"@ + RUNTIME_REPO@ + "/contents/"@ + RUNTIME_BINARY_DIR@,
{
    let mut u = to_chars("https://api.github.com/repos/");
    extend_str(&mut u, RUNTIME_REPO);
    extend_str(&mut u, "/contents/");
    extend_str(&mut u, RUNTIME_BINARY_DIR);
    chars_to_string(&u)
}

// ---------------------------------------------------------------------
// Versions
// ---------------------------------------------------------------------

/// `a` comes no later than `b`: major, then minor, then patch.
pub open spec fn version_le(a: (u32, u32, u32), b: (u32, u32, u32)) -> bool {
    a.0 < b.0 || (a.0 == b.0 && (a.1 < b.1 || (a.1 == b.1 && a.2 <= b.2)))
}

/// Decides `version_le`.
pub fn version_no_later(a: (u32, u32, u32), b: (u32, u32, u32)) -> (r: bool)
    ensures
        r == version_le(a, b),
{
    a.0 < b.0 || (a.0 == b.0 && (a.1 < b.1 || (a.1 == b.1 && a.2 <= b.2)))
}

/// The order of versions is the order of the numbers
/// `major * 2^64 + minor * 2^32 + patch`: major first, then minor, then
/// patch, each larger number being newer.
pub proof fn lemma_version_order(a: (u32, u32, u32), b: (u32, u32, u32))
    ensures
        version_le(a, b) <==> a.0 as int * 0x1_0000_0000_0000_0000 + a.1 as int * 0x1_0000_0000
            + a.2 as int <= b.0 as int * 0x1_0000_0000_0000_0000 + b.1 as int * 0x1_0000_0000
            + b.2 as int,
        version_le(a, b) && version_le(b, a) ==> a == b,
        version_le(a, b) || version_le(b, a),
{
    let ka = a.0 as int * 0x1_0000_0000_0000_0000 + a.1 as int * 0x1_0000_0000 + a.2 as int;
    let kb = b.0 as int * 0x1_0000_0000_0000_0000 + b.1 as int * 0x1_0000_0000 + b.2 as int;
    let lo_a = a.1 as int * 0x1_0000_0000 + a.2 as int;
    let lo_b = b.1 as int * 0x1_0000_0000 + b.2 as int;
    assert(0 <= lo_a < 0x1_0000_0000_0000_0000) by (nonlinear_arith)
        requires
            lo_a == a.1 as int * 0x1_0000_0000 + a.2 as int,
            0 <= a.1 as int <= 0xffff_ffff,
            0 <= a.2 as int <= 0xffff_ffff,
    ;
    assert(0 <= lo_b < 0x1_0000_0000_0000_0000) by (nonlinear_arith)
        requires
            lo_b == b.1 as int * 0x1_0000_0000 + b.2 as int,
            0 <= b.1 as int <= 0xffff_ffff,
            0 <= b.2 as int <= 0xffff_ffff,
    ;
    if a.0 < b.0 {
        assert(ka < kb) by (nonlinear_arith)
            requires
                ka == a.0 as int * 0x1_0000_0000_0000_0000 + lo_a,
                kb == b.0 as int * 0x1_0000_0000_0000_0000 + lo_b,
                a.0 as int + 1 <= b.0 as int,
                0 <= lo_a < 0x1_0000_0000_0000_0000,
                0 <= lo_b,
        ;
    } else if b.0 < a.0 {
        assert(kb < ka) by (nonlinear_arith)
            requires
                ka == a.0 as int * 0x1_0000_0000_0000_0000 + lo_a,
                kb == b.0 as int * 0x1_0000_0000_0000_0000 + lo_b,
                b.0 as int + 1 <= a.0 as int,
                0 <= lo_b < 0x1_0000_0000_0000_0000,
                0 <= lo_a,
        ;
    } else {
        if a.1 < b.1 {
            assert(lo_a < lo_b) by (nonlinear_arith)
                requires
                    lo_a == a.1 as int * 0x1_0000_0000 + a.2 as int,
                    lo_b == b.1 as int * 0x1_0000_0000 + b.2 as int,
                    a.1 as int + 1 <= b.1 as int,
                    0 <= a.2 as int <= 0xffff_ffff,
                    0 <= b.2 as int,
            ;
        } else if b.1 < a.1 {
            assert(lo_b < lo_a) by (nonlinear_arith)
                requires
                    lo_a == a.1 as int * 0x1_0000_0000 + a.2 as int,
                    lo_b == b.1 as int * 0x1_0000_0000 + b.2 as int,
                    b.1 as int + 1 <= a.1 as int,
                    0 <= b.2 as int <= 0xffff_ffff,
                    0 <= a.2 as int,
            ;
        }
    }
}

/// `major.minor.patch`.
pub open spec fn version_text(v: (u32, u32, u32)) -> Seq<char> {
    decimal(v.0 as nat) + seq!['.'] + decimal(v.1 as nat) + seq!['.'] + decimal(v.2 as nat)
}

/// A version read from `major.minor.patch`: exactly three parts, each a
/// `u32` as std's `parse` reads it.
pub open spec fn parse_version(s: Seq<char>) -> Option<(u32, u32, u32)> {
    let p = split_on(s, '.');
    if p.len() == 3 && parse_u32_spec(p[0]) is Some && parse_u32_spec(p[1]) is Some
        && parse_u32_spec(p[2]) is Some {
        Some((parse_u32_spec(p[0])->0, parse_u32_spec(p[1])->0, parse_u32_spec(p[2])->0))
    } else {
        None
    }
}

/// The name of the archive holding runtime version `v`.
pub open spec fn runtime_archive_name(v: (u32, u32, u32)) -> Seq<char> {
    "libmysz-runtime."@ + version_text(v) + ".tar.gz"@
}

/// The version a runtime archive's file name announces:
/// `libmysz-runtime.<major>.<minor>.<patch>.tar.gz`.
pub open spec fn parse_runtime_name(name: Seq<char>) -> Option<(u32, u32, u32)> {
    let pre = "libmysz-runtime."@;
    let suf = ".tar.gz"@;
    if has_prefix(name, pre) {
        let rest = name.subrange(pre.len() as int, name.len() as int);
        if has_suffix(rest, suf) {
            parse_version(rest.subrange(0, rest.len() - suf.len()))
        } else {
            None
        }
    } else {
        None
    }
}

/// Computes `version_text`.
pub fn version_string(v: (u32, u32, u32)) -> (r: String)
    ensures
        r@ == version_text(v),
{
    let mut s = format_u32(v.0);
    s.push('.');
    let b = format_u32(v.1);
    extend_chars(&mut s, &b);
    s.push('.');
    let c = format_u32(v.2);
    extend_chars(&mut s, &c);
    chars_to_string(&s)
}

fn parse_version_chars(s: &Vec<char>) -> (r: Option<(u32, u32, u32)>)
    ensures
        r == parse_version(s@),
{
    let parts = split_chars(s, '.');
    if parts.len() != 3 {
        return None;
    }
    let a = parse_u32(&parts[0]);
    let b = parse_u32(&parts[1]);
    let c = parse_u32(&parts[2]);
    match (a, b, c) {
        (Some(a), Some(b), Some(c)) => Some((a, b, c)),
        _ => None,
    }
}

/// The version a directory of the runtime cache is named after.
pub fn parse_version_name(name: &str) -> (r: Option<(u32, u32, u32)>)
    ensures
        r == parse_version(name@),
{
    let s = to_chars(name);
    parse_version_chars(&s)
}

/// The version a runtime archive's file name announces.
pub fn parse_runtime_filename(name: &str) -> (r: Option<(u32, u32, u32)>)
    ensures
        r == parse_runtime_name(name@),
{
    let s = to_chars(name);
    let pre = to_chars("libmysz-runtime.");
    let suf = to_chars(".tar.gz");
    let rest = match strip_prefix_chars(&s, &pre) {
        None => {
            return None;
        },
        Some(r) => r,
    };
    let mid = match strip_suffix_chars(&rest, &suf) {
        None => {
            return None;
        },
        Some(m) => m,
    };
    parse_version_chars(&mid)
}

/// Reading back the spelling of a version gives the version.
pub proof fn lemma_version_text_reads_back(v: (u32, u32, u32))
    ensures
        parse_version(version_text(v)) == Some(v),
{
    let a = decimal(v.0 as nat);
    let b = decimal(v.1 as nat);
    let c = decimal(v.2 as nat);
    lemma_decimal_digits(v.0 as nat);
    lemma_decimal_digits(v.1 as nat);
    lemma_decimal_digits(v.2 as nat);
    lemma_parse_format_u32(v.0);
    lemma_parse_format_u32(v.1);
    lemma_parse_format_u32(v.2);
    lemma_split_none(a, '.');
    lemma_split_append(a, '.', b);
    lemma_split_append(a + seq!['.'] + b, '.', c);
    assert(split_on(a + seq!['.'] + b, '.') =~= seq![a, b]);
    assert(split_on(version_text(v), '.') =~= seq![a, b, c]);
}

/// The file name of a version's runtime archive announces that version.
pub proof fn lemma_runtime_name_reads_back(v: (u32, u32, u32))
    ensures
        parse_runtime_name(runtime_archive_name(v)) == Some(v),
{
    let pre = "libmysz-runtime."@;
    let suf = ".tar.gz"@;
    let t = version_text(v);
    let name = runtime_archive_name(v);
    assert(name == pre + t + suf);
    assert(name.subrange(0, pre.len() as int) =~= pre);
    let rest = name.subrange(pre.len() as int, name.len() as int);
    assert(rest =~= t + suf);
    assert(rest.subrange(rest.len() - suf.len(), rest.len() as int) =~= suf);
    assert(rest.subrange(0, rest.len() - suf.len()) =~= t);
    lemma_version_text_reads_back(v);
}

// ---------------------------------------------------------------------
// Choosing a runtime
// ---------------------------------------------------------------------

/// A file of the runtime repository's archive directory, as the GitHub API
/// lists it.
#[derive(Debug, Clone)]
pub struct RuntimeListing {
    pub name: String,
    pub download_url: Option<String>,
}

pub struct ListingView {
    pub name: Seq<char>,
    pub download_url: Option<Seq<char>>,
}

impl DeepView for RuntimeListing {
    type V = ListingView;

    open spec fn deep_view(&self) -> ListingView {
        ListingView { name: self.name@, download_url: self.download_url.deep_view() }
    }
}

/// Why no runtime could be chosen.
#[derive(Debug, Clone, Copy, PartialEq, Eq, Structural)]
pub enum RuntimeError {
    /// No listed file is a runtime archive.
    NoRuntimeArchives,
    /// The newest archive has no download address.
    MissingDownloadUrl,
}

/// The position of the newest runtime archive among `s`; of several with
/// the newest version, the last.
pub open spec fn newest_archive(s: Seq<ListingView>) -> Option<int>
    decreases s.len(),
{
    if s.len() == 0 {
        None
    } else {
        let r = newest_archive(s.drop_last());
        match parse_runtime_name(s.last().name) {
            None => r,
            Some(v) => match r {
                None => Some(s.len() - 1),
                Some(i) => if version_le(parse_runtime_name(s[i].name)->0, v) {
                    Some(s.len() - 1)
                } else {
                    r
                },
            },
        }
    }
}

/// The runtime to use among the listed files: the newest archive's version
/// and download address.
pub open spec fn latest_runtime(s: Seq<ListingView>) -> Result<
    ((u32, u32, u32), Seq<char>),
    RuntimeError,
> {
    match newest_archive(s) {
        None => Err(RuntimeError::NoRuntimeArchives),
        Some(i) => match s[i].download_url {
            None => Err(RuntimeError::MissingDownloadUrl),
            Some(u) => Ok((parse_runtime_name(s[i].name)->0, u)),
        },
    }
}

/// `newest_archive` picks an archive, of a version no older than any other
/// archive listed, and no later archive has that same version.
pub proof fn lemma_newest_archive(s: Seq<ListingView>)
    ensures
        newest_archive(s) matches Some(i) ==> {
            &&& 0 <= i < s.len()
            &&& parse_runtime_name(s[i].name) is Some
            &&& forall|j: int|
                0 <= j < s.len() && (#[trigger] parse_runtime_name(s[j].name)) is Some ==> version_le(
                    parse_runtime_name(s[j].name)->0,
                    parse_runtime_name(s[i].name)->0,
                )
            &&& forall|j: int|
                i < j < s.len() && (#[trigger] parse_runtime_name(s[j].name)) is Some ==> version_le(
                    parse_runtime_name(s[j].name)->0,
                    parse_runtime_name(s[i].name)->0,
                ) && parse_runtime_name(s[j].name) != parse_runtime_name(s[i].name)
        },
        newest_archive(s) is None ==> forall|j: int|
            0 <= j < s.len() ==> (#[trigger] parse_runtime_name(s[j].name)) is None,
    decreases s.len(),
{
    if s.len() > 0 {
        let t = s.drop_last();
        lemma_newest_archive(t);
        assert forall|j: int| 0 <= j < t.len() implies t[j] == s[j] by {}
    }
}

/// The runtime chosen from a listing is one of the listed archives, with
/// that archive's download address, and no listed archive is newer: each has
/// a lower major, or the same major and a lower minor, or the same major and
/// minor and a patch no higher. No runtime is chosen for lack of archives
/// exactly when no listed file is a runtime archive.
pub proof fn lemma_latest_runtime_is_newest(s: Seq<ListingView>)
    ensures
        latest_runtime(s) is Ok ==> {
            let v = latest_runtime(s)->Ok_0.0;
            let u = latest_runtime(s)->Ok_0.1;
            &&& exists|i: int|
                0 <= i < s.len() && parse_runtime_name(#[trigger] s[i].name) == Some(v)
                    && s[i].download_url == Some(u)
            &&& forall|j: int|
                0 <= j < s.len() && (#[trigger] parse_runtime_name(s[j].name)) is Some ==> {
                    let w = parse_runtime_name(s[j].name)->0;
                    w.0 < v.0 || (w.0 == v.0 && (w.1 < v.1 || (w.1 == v.1 && w.2 <= v.2)))
                }
        },
        latest_runtime(s) == Err::<((u32, u32, u32), Seq<char>), RuntimeError>(
            RuntimeError::NoRuntimeArchives,
        ) <==> forall|j: int| 0 <= j < s.len() ==> (#[trigger] parse_runtime_name(s[j].name)) is None,
{
    lemma_newest_archive(s);
    if latest_runtime(s) is Ok {
        let i = newest_archive(s)->0;
        assert(parse_runtime_name(s[i].name) == Some(latest_runtime(s)->Ok_0.0));
    }
    if newest_archive(s) is Some {
        let i = newest_archive(s)->0;
        assert(parse_runtime_name(s[i].name) is Some);
    }
}

fn newest_index(entries: &Vec<RuntimeListing>) -> (r: Option<usize>)
    ensures
        match r {
            Some(i) => newest_archive(entries.deep_view()) == Some(i as int),
            None => newest_archive(entries.deep_view()) is None,
        },
{
    let ghost es = entries.deep_view();
    let mut best: Option<usize> = None;
    let mut best_v: (u32, u32, u32) = (0, 0, 0);
    let mut i: usize = 0;
    assert(es.take(0) =~= Seq::<ListingView>::empty());
    while i < entries.len()
        invariant
            es == entries.deep_view(),
            i <= entries.len(),
            match best {
                Some(b) => newest_archive(es.take(i as int)) == Some(b as int) && b < i
                    && parse_runtime_name(es[b as int].name) == Some(best_v),
                None => newest_archive(es.take(i as int)) is None,
            },
        decreases entries.len() - i,
    {
        let ghost pre = es.take(i as int);
        assert(es.take(i + 1).drop_last() =~= pre);
        assert(es.take(i + 1).last() == entries@[i as int].deep_view());
        match best {
            Some(b) => {
                assert(pre[b as int] == es[b as int]);
            },
            None => {},
        }
        match parse_runtime_filename(entries[i].name.as_str()) {
            None => {},
            Some(v) => {
                match best {
                    None => {
                        best = Some(i);
                        best_v = v;
                    },
                    Some(_) => {
                        if version_no_later(best_v, v) {
                            best = Some(i);
                            best_v = v;
                        }
                    },
                }
            },
        }
        i = i + 1;
    }
    assert(es.take(i as int) =~= es);
    best
}

/// Chooses the runtime to use among the files the runtime repository lists.
pub fn select_latest_runtime(entries: &Vec<RuntimeListing>) -> (r: Result<
    ((u32, u32, u32), String),
    RuntimeError,
>)
    ensures
        match r {
            Ok((v, u)) => latest_runtime(entries.deep_view()) == Ok::<
                ((u32, u32, u32), Seq<char>),
                RuntimeError,
            >((v, u@)),
            Err(e) => latest_runtime(entries.deep_view()) == Err::<
                ((u32, u32, u32), Seq<char>),
                RuntimeError,
            >(e),
        },
        r is Ok ==> {
            let v = r->Ok_0.0;
            let es = entries.deep_view();
            &&& exists|i: int|
                0 <= i < es.len() && parse_runtime_name(#[trigger] es[i].name) == Some(v)
                    && es[i].download_url == Some(r->Ok_0.1@)
            &&& forall|j: int|
                0 <= j < es.len() && (#[trigger] parse_runtime_name(es[j].name)) is Some ==> {
                    let w = parse_runtime_name(es[j].name)->0;
                    w.0 < v.0 || (w.0 == v.0 && (w.1 < v.1 || (w.1 == v.1 && w.2 <= v.2)))
                }
        },
{
    proof {
        lemma_newest_archive(entries.deep_view());
        lemma_latest_runtime_is_newest(entries.deep_view());
    }
    match newest_index(entries) {
        None => Err(RuntimeError::NoRuntimeArchives),
        Some(i) => {
            assert(entries.deep_view()[i as int] == entries@[i as int].deep_view());
            let v = parse_runtime_filename(entries[i].name.as_str());
            match &entries[i].download_url {
                None => Err(RuntimeError::MissingDownloadUrl),
                Some(u) => match v {
                    Some(v) => Ok((v, u.clone())),
                    None => Err(RuntimeError::NoRuntimeArchives),
                },
            }
        },
    }
}

/// The newest version among the names that spell one.
pub open spec fn highest_version(names: Seq<Seq<char>>) -> Option<(u32, u32, u32)>
    decreases names.len(),
{
    if names.len() == 0 {
        None
    } else {
        let r = highest_version(names.drop_last());
        match parse_version(names.last()) {
            None => r,
            Some(v) => match r {
                None => Some(v),
                Some(b) => if version_le(b, v) {
                    Some(v)
                } else {
                    Some(b)
                },
            },
        }
    }
}

/// `highest_version` is one of the versions named, and no named version is
/// newer.
pub proof fn lemma_highest_version(names: Seq<Seq<char>>)
    ensures
        highest_version(names) matches Some(v) ==> (exists|i: int|
            0 <= i < names.len() && parse_version(#[trigger] names[i]) == Some(v)) && forall|j: int|
            0 <= j < names.len() && (#[trigger] parse_version(names[j])) is Some ==> version_le(
                parse_version(names[j])->0,
                v,
            ),
        highest_version(names) is None ==> forall|j: int|
            0 <= j < names.len() ==> (#[trigger] parse_version(names[j])) is None,
    decreases names.len(),
{
    if names.len() > 0 {
        let t = names.drop_last();
        lemma_highest_version(t);
        assert forall|j: int| 0 <= j < t.len() implies t[j] == names[j] by {}
        if highest_version(names) is Some {
            let v = highest_version(names)->0;
            if parse_version(names.last()) == Some(v) {
                assert(parse_version(names[names.len() - 1]) == Some(v));
            } else {
                let i = choose|i: int| 0 <= i < t.len() && parse_version(#[trigger] t[i]) == Some(v);
                assert(names[i] == t[i]);
            }
        }
    }
}

/// The newest cached version is one of the names that spell a version, and
/// no such name spells a newer one: each has a lower major, or the same major
/// and a lower minor, or the same major and minor and a patch no higher.
/// There is none exactly when no name spells a version.
pub proof fn lemma_highest_version_is_newest(names: Seq<Seq<char>>)
    ensures
        highest_version(names) is Some ==> {
            let v = highest_version(names)->0;
            &&& exists|i: int| 0 <= i < names.len() && parse_version(#[trigger] names[i]) == Some(v)
            &&& forall|j: int|
                0 <= j < names.len() && (#[trigger] parse_version(names[j])) is Some ==> {
                    let w = parse_version(names[j])->0;
                    w.0 < v.0 || (w.0 == v.0 && (w.1 < v.1 || (w.1 == v.1 && w.2 <= v.2)))
                }
        },
        highest_version(names) is None <==> forall|j: int|
            0 <= j < names.len() ==> (#[trigger] parse_version(names[j])) is None,
{
    lemma_highest_version(names);
    if highest_version(names) is Some {
        let v = highest_version(names)->0;
        let i = choose|i: int| 0 <= i < names.len() && parse_version(#[trigger] names[i]) == Some(v);
        assert(parse_version(names[i]) is Some);
    }
}

/// A runtime unpacked into the cache directory named after its version is
/// found again: the cache's newest version is at least as new.
pub proof fn lemma_cached_runtime_found(names: Seq<Seq<char>>, v: (u32, u32, u32))
    requires
        names.contains(version_text(v)),
    ensures
        highest_version(names) matches Some(w) && version_le(v, w),
{
    lemma_version_text_reads_back(v);
    lemma_highest_version(names);
    let i = choose|i: int| 0 <= i < names.len() && names[i] == version_text(v);
    assert(parse_version(names[i]) == Some(v));
}

/// The newest runtime version already in the cache, given the names of the
/// cache's entries.
pub fn highest_cached_runtime(names: &Vec<String>) -> (r: Option<(u32, u32, u32)>)
    ensures
        r == highest_version(names.deep_view()),
        r is Some ==> {
            let v = r->0;
            let ns = names.deep_view();
            &&& exists|i: int| 0 <= i < ns.len() && parse_version(#[trigger] ns[i]) == Some(v)
            &&& forall|j: int|
                0 <= j < ns.len() && (#[trigger] parse_version(ns[j])) is Some ==> {
                    let w = parse_version(ns[j])->0;
                    w.0 < v.0 || (w.0 == v.0 && (w.1 < v.1 || (w.1 == v.1 && w.2 <= v.2)))
                }
        },
{
    proof {
        lemma_highest_version_is_newest(names.deep_view());
    }
    let ghost ns = names.deep_view();
    let mut best: Option<(u32, u32, u32)> = None;
    let mut i: usize = 0;
    assert(ns.take(0) =~= Seq::<Seq<char>>::empty());
    while i < names.len()
        invariant
            ns == names.deep_view(),
            i <= names.len(),
            best == highest_version(ns.take(i as int)),
        decreases names.len() - i,
    {
        assert(ns.take(i + 1).drop_last() =~= ns.take(i as int));
        assert(ns.take(i + 1).last() == names@[i as int]@);
        match parse_version_name(names[i].as_str()) {
            None => {},
            Some(v) => {
                match best {
                    None => {
                        best = Some(v);
                    },
                    Some(b) => {
                        if version_no_later(b, v) {
                            best = Some(v);
                        }
                    },
                }
            },
        }
        i = i + 1;
    }
    assert(ns.take(i as int) =~= ns);
    best
}

/// The directory of the runtime cache holding version `v`.
pub fn runtime_dir(cache_root: &str, v: (u32, u32, u32)) -> (r: String)
    ensures
        r@ == path_join(cache_root@, version_text(v)),
{
    let name = version_string(v);
    join_path(cache_root, name.as_str())
}

/// The runtime library of version `v` in the runtime cache.
pub fn runtime_lib_path(cache_root: &str, v: (u32, u32, u32)) -> (r: String)
    ensures
        r@ == path_join(path_join(cache_root@, version_text(v)), RUNTIME_LIB_NAME@),
{
    let dir = runtime_dir(cache_root, v);
    join_path(dir.as_str(), RUNTIME_LIB_NAME)
}

/// The runtime library to fall back on when the newest runtime cannot be
/// looked up: that of the newest version in the cache, given the names of
/// the cache's entries; `None` when the cache holds no version.
pub fn cached_runtime_fallback(cache_root: &str, names: &Vec<String>) -> (r: Option<String>)
    ensures
        match highest_version(names.deep_view()) {
            None => r is None,
            Some(v) => r matches Some(p) && p@ == path_join(
                path_join(cache_root@, version_text(v)),
                RUNTIME_LIB_NAME@,
            ),
        },
{
    match highest_cached_runtime(names) {
        None => None,
        Some(v) => Some(runtime_lib_path(cache_root, v)),
    }
}

// ---------------------------------------------------------------------
// Linker command lines
// ---------------------------------------------------------------------

/// Why a link was not attempted.
#[derive(Debug, Clone)]
pub enum LinkError {
    /// A file given with `--link` does not exist.
    MissingLinkFile(String),
}

/// The arguments for linking an executable: the objects, the runtime when
/// one is linked, the extra files, then `-o` and the output.
pub open spec fn binary_link_args(
    objs: Seq<Seq<char>>,
    runtime: Option<Seq<char>>,
    files: Seq<Seq<char>>,
    out: Seq<char>,
) -> Seq<Seq<char>> {
    objs + (match runtime {
        Some(r) => seq![r],
        None => Seq::empty(),
    }) + files + seq!["-o"@, out]
}

/// The arguments for linking a shared library.
pub open spec fn shared_link_args(objs: Seq<Seq<char>>, files: Seq<Seq<char>>, out: Seq<char>) -> Seq<
    Seq<char>,
> {
    seq!["-shared"@] + objs + files + seq!["-o"@, out]
}

/// An executable's link line: the objects in order, then the runtime
/// library when one is linked (whatever extra files there are, none
/// included), then the extra files in order, then `-o` and the output.
pub proof fn lemma_binary_link_layout(
    objs: Seq<Seq<char>>,
    runtime: Option<Seq<char>>,
    files: Seq<Seq<char>>,
    out: Seq<char>,
)
    ensures
        ({
            let a = binary_link_args(objs, runtime, files, out);
            let k: int = if runtime is Some {
                1
            } else {
                0
            };
            &&& a.len() == objs.len() + k + files.len() + 2
            &&& forall|i: int| 0 <= i < objs.len() ==> a[i] == #[trigger] objs[i]
            &&& runtime is Some ==> a[objs.len() as int] == runtime->0
            &&& forall|i: int| 0 <= i < files.len() ==> a[objs.len() + k + i] == #[trigger] files[i]
            &&& a[a.len() - 2] == "-o"@
            &&& a[a.len() - 1] == out
        }),
{
    let rt: Seq<Seq<char>> = match runtime {
        Some(r) => seq![r],
        None => Seq::empty(),
    };
    let a = binary_link_args(objs, runtime, files, out);
    assert(a == objs + rt + files + seq!["-o"@, out]);
    assert forall|i: int| 0 <= i < objs.len() implies a[i] == #[trigger] objs[i] by {
        assert((objs + rt)[i] == objs[i]);
        assert((objs + rt + files)[i] == objs[i]);
    }
    if runtime is Some {
        assert((objs + rt)[objs.len() as int] == runtime->0);
        assert((objs + rt + files)[objs.len() as int] == runtime->0);
    }
    assert forall|i: int| 0 <= i < files.len() implies a[objs.len() + rt.len() + i]
        == #[trigger] files[i] by {
        assert((objs + rt + files)[objs.len() + rt.len() + i] == files[i]);
    }
}

/// A shared library's link line: `-shared` first, whatever the inputs,
/// then the objects in order, the extra files in order, then `-o` and the
/// output.
pub proof fn lemma_shared_link_layout(objs: Seq<Seq<char>>, files: Seq<Seq<char>>, out: Seq<char>)
    ensures
        ({
            let a = shared_link_args(objs, files, out);
            &&& a.len() == objs.len() + files.len() + 3
            &&& a[0] == "-shared"@
            &&& forall|i: int| 0 <= i < objs.len() ==> a[1 + i] == #[trigger] objs[i]
            &&& forall|i: int| 0 <= i < files.len() ==> a[1 + objs.len() + i] == #[trigger] files[i]
            &&& a[a.len() - 2] == "-o"@
            &&& a[a.len() - 1] == out
        }),
{
    let h: Seq<Seq<char>> = seq!["-shared"@];
    let a = shared_link_args(objs, files, out);
    assert(a == h + objs + files + seq!["-o"@, out]);
    assert((h + objs)[0] == "-shared"@);
    assert((h + objs + files)[0] == "-shared"@);
    assert forall|i: int| 0 <= i < objs.len() implies a[1 + i] == #[trigger] objs[i] by {
        assert((h + objs)[1 + i] == objs[i]);
        assert((h + objs + files)[1 + i] == objs[i]);
    }
    assert forall|i: int| 0 <= i < files.len() implies a[1 + objs.len() + i]
        == #[trigger] files[i] by {
        assert((h + objs + files)[1 + objs.len() + i] == files[i]);
    }
}

/// The outcome of the existence checks on the extra files: every one exists,
/// or the first missing one is reported.
pub open spec fn link_outcome(
    r: Result<Vec<String>, LinkError>,
    files: Seq<Seq<char>>,
    exist: Seq<bool>,
    args: Seq<Seq<char>>,
) -> bool {
    match r {
        Ok(a) => (forall|i: int| 0 <= i < exist.len() ==> #[trigger] exist[i]) && a.deep_view()
            == args,
        Err(LinkError::MissingLinkFile(f)) => exists|i: int|
            0 <= i < exist.len() && !#[trigger] exist[i] && (forall|k: int|
                0 <= k < i ==> exist[k]) && f@ == files[i],
    }
}

fn push_all(out: &mut Vec<String>, items: &Vec<String>)
    ensures
        final(out).deep_view() == old(out).deep_view() + items.deep_view(),
{
    let ghost start = out.deep_view();
    let mut i: usize = 0;
    while i < items.len()
        invariant
            i <= items.len(),
            out.deep_view() == start + items.deep_view().take(i as int),
        decreases items.len() - i,
    {
        let ghost before = out.deep_view();
        let x = items[i].clone();
        out.push(x);
        assert(out.deep_view() =~= before.push(items.deep_view()[i as int]));
        i = i + 1;
        assert(out.deep_view() =~= start + items.deep_view().take(i as int));
    }
    assert(items.deep_view().take(i as int) =~= items.deep_view());
}

fn first_missing(files: &Vec<String>, exist: &Vec<bool>) -> (r: Option<usize>)
    requires
        files.len() == exist.len(),
    ensures
        match r {
            Some(i) => i < exist.len() && !exist@[i as int] && forall|k: int|
                0 <= k < i ==> exist@[k],
            None => forall|k: int| 0 <= k < exist.len() ==> exist@[k],
        },
{
    let mut i: usize = 0;
    while i < exist.len()
        invariant
            i <= exist.len(),
            forall|k: int| 0 <= k < i ==> exist@[k],
        decreases exist.len() - i,
    {
        if !exist[i] {
            return Some(i);
        }
        i = i + 1;
    }
    None
}

/// The linker arguments for an executable. `runtime_lib` is the runtime
/// library to link (`None` for `--noruntime`); `link_files_exist[i]` tells
/// whether `link_files[i]` exists.
pub fn link_binary(
    obj_paths: &Vec<String>,
    output_exe: &str,
    runtime_lib: Option<String>,
    link_files: &Vec<String>,
    link_files_exist: &Vec<bool>,
) -> (r: Result<Vec<String>, LinkError>)
    requires
        link_files.len() == link_files_exist.len(),
    ensures
        link_outcome(
            r,
            link_files.deep_view(),
            link_files_exist@,
            binary_link_args(
                obj_paths.deep_view(),
                runtime_lib.deep_view(),
                link_files.deep_view(),
                output_exe@,
            ),
        ),
        r is Ok <==> forall|i: int| 0 <= i < link_files_exist.len() ==> #[trigger] link_files_exist@[i],
        r is Ok ==> {
            let a = r->Ok_0.deep_view();
            &&& forall|i: int|
                0 <= i < obj_paths.len() ==> a[i] == #[trigger] obj_paths.deep_view()[i]
            &&& runtime_lib is Some ==> a[obj_paths.len() as int] == runtime_lib->0@
            &&& a.len() >= 2 && a[a.len() - 2] == "-o"@ && a[a.len() - 1] == output_exe@
        },
{
    proof {
        lemma_binary_link_layout(
            obj_paths.deep_view(),
            runtime_lib.deep_view(),
            link_files.deep_view(),
            output_exe@,
        );
    }
    let mut args: Vec<String> = Vec::new();
    assert(args.deep_view() =~= Seq::<Seq<char>>::empty());
    push_all(&mut args, obj_paths);
    let ghost after_objs = args.deep_view();
    match runtime_lib {
        Some(rt) => {
            let ghost rv = rt@;
            args.push(rt);
            assert(args.deep_view() =~= after_objs.push(rv));
        },
        None => {},
    }
    match first_missing(link_files, link_files_exist) {
        Some(i) => {
            assert(link_files.deep_view()[i as int] == link_files@[i as int]@);
            return Err(LinkError::MissingLinkFile(link_files[i].clone()));
        },
        None => {},
    }
    push_all(&mut args, link_files);
    let ghost before = args.deep_view();
    args.push(String::from_str("-o"));
    args.push(String::from_str(output_exe));
    assert(args.deep_view() =~= before + seq!["-o"@, output_exe@]);
    assert(args.deep_view() =~= binary_link_args(
        obj_paths.deep_view(),
        runtime_lib.deep_view(),
        link_files.deep_view(),
        output_exe@,
    ));
    Ok(args)
}

/// The linker arguments for a shared library.
pub fn link_shared(
    obj_paths: &Vec<String>,
    output: &str,
    link_files: &Vec<String>,
    link_files_exist: &Vec<bool>,
) -> (r: Result<Vec<String>, LinkError>)
    requires
        link_files.len() == link_files_exist.len(),
    ensures
        link_outcome(
            r,
            link_files.deep_view(),
            link_files_exist@,
            shared_link_args(obj_paths.deep_view(), link_files.deep_view(), output@),
        ),
        r is Ok <==> forall|i: int| 0 <= i < link_files_exist.len() ==> #[trigger] link_files_exist@[i],
        r is Ok ==> {
            let a = r->Ok_0.deep_view();
            &&& a.len() >= 3 && a[0] == "-shared"@
            &&& forall|i: int|
                0 <= i < obj_paths.len() ==> a[1 + i] == #[trigger] obj_paths.deep_view()[i]
            &&& a[a.len() - 2] == "-o"@ && a[a.len() - 1] == output@
        },
{
    proof {
        lemma_shared_link_layout(obj_paths.deep_view(), link_files.deep_view(), output@);
    }
    let mut args: Vec<String> = Vec::new();
    args.push(String::from_str("-shared"));
    assert(args.deep_view() =~= seq!["-shared"@]);
    push_all(&mut args, obj_paths);
    match first_missing(link_files, link_files_exist) {
        Some(i) => {
            assert(link_files.deep_view()[i as int] == link_files@[i as int]@);
            return Err(LinkError::MissingLinkFile(link_files[i].clone()));
        },
        None => {},
    }
    push_all(&mut args, link_files);
    let ghost before = args.deep_view();
    args.push(String::from_str("-o"));
    args.push(String::from_str(output));
    assert(args.deep_view() =~= before + seq!["-o"@, output@]);
    assert(args.deep_view() =~= shared_link_args(
        obj_paths.deep_view(),
        link_files.deep_view(),
        output@,
    ));
    Ok(args)
}

} // verus!
