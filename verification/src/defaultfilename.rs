//! The default output file name for a source file.
use vstd::prelude::*;
use crate::out::ResultType;
use crate::text::{chars_to_string, extend_str, to_chars};

verus! {

/// The final component of the path `p` as std's `Path::file_name` gives it:
/// `None` when the path ends in `..` or has no final component.
pub uninterp spec fn path_file_name(p: Seq<char>) -> Option<Seq<char>>;

/// Calls `std::path::Path::file_name` on `path` and converts the component
/// back to a `String` (it is valid UTF-8, as `path` is). Claimed: the result
/// is `path_file_name` of the path.
#[verifier::external_body]
fn file_name_of(path: &str) -> (r: Option<String>)
    ensures
        r.deep_view() == path_file_name(path@),
{
    std::path::Path::new(path).file_name().map(|n| n.to_string_lossy().into_owned())
}

/// The position of the last `c` in `s`.
pub open spec fn last_index(s: Seq<char>, c: char) -> Option<int>
    decreases s.len(),
{
    if s.len() == 0 {
        None
    } else if s.last() == c {
        Some(s.len() - 1)
    } else {
        last_index(s.drop_last(), c)
    }
}

/// The stem of a file name, as std documents `Path::file_stem`: the whole
/// name when it is `..`, has no `.`, or has its only `.` in front; else the
/// part before the last `.`.
pub open spec fn stem_of(name: Seq<char>) -> Seq<char> {
    if name == seq!['.', '.'] {
        name
    } else {
        match last_index(name, '.') {
            None => name,
            Some(i) => if i == 0 {
                name
            } else {
                name.subrange(0, i)
            },
        }
    }
}

/// The extension each kind of artifact gets.
pub open spec fn extension_of(result: ResultType) -> Seq<char> {
    match result {
        ResultType::Binary => "out"@,
        ResultType::Object => "o"@,
        ResultType::Shared => "so"@,
    }
}

/// The default output name for `input`, given its file name: the stem of the
/// file name (the whole input when it has none), a `.`, and the extension.
pub open spec fn default_name(input: Seq<char>, file_name: Option<Seq<char>>, result: ResultType) -> Seq<
    char,
> {
    (match file_name {
        Some(n) => stem_of(n),
        None => input,
    }) + seq!['.'] + extension_of(result)
}

fn stem_chars(name: &Vec<char>) -> (r: Vec<char>)
    ensures
        r@ == stem_of(name@),
{
    if name.len() == 2 && name[0] == '.' && name[1] == '.' {
        assert(name@ =~= seq!['.', '.']);
        return name.clone();
    }
    assert(name@ != seq!['.', '.']);
    let mut i: usize = name.len();
    assert(name@.subrange(0, i as int) == name@);
    while i > 0 && name[i - 1] != '.'
        invariant
            i <= name.len(),
            last_index(name@, '.') == last_index(name@.subrange(0, i as int), '.'),
        decreases i,
    {
        assert(name@.subrange(0, i as int).drop_last() =~= name@.subrange(0, i - 1));
        i = i - 1;
    }
    if i == 0 {
        assert(name@.subrange(0, 0) =~= Seq::<char>::empty());
        return name.clone();
    }
    assert(last_index(name@.subrange(0, i as int), '.') == Some(i - 1));
    if i - 1 == 0 {
        return name.clone();
    }
    let mut r: Vec<char> = Vec::new();
    let mut k: usize = 0;
    while k < i - 1
        invariant
            i <= name.len(),
            k <= i - 1,
            r@ == name@.subrange(0, k as int),
        decreases i - 1 - k,
    {
        r.push(name[k]);
        k = k + 1;
        assert(r@ == name@.subrange(0, k as int));
    }
    r
}

/// `default_name` computed from a file name already taken from `input`.
pub fn name_from_file_name(input: &str, file_name: Option<String>, result: ResultType) -> (r: String)
    ensures
        r@ == default_name(input@, file_name.deep_view(), result),
{
    let mut out = match file_name {
        Some(n) => {
            let c = to_chars(n.as_str());
            stem_chars(&c)
        },
        None => to_chars(input),
    };
    out.push('.');
    let ext = match result {
        ResultType::Binary => "out",
        ResultType::Object => "o",
        ResultType::Shared => "so",
    };
    extend_str(&mut out, ext);
    chars_to_string(&out)
}

/// The default output name for the source file `input_file`, e.g.
/// `src/main.mysz` gives `main.out` for an executable.
pub fn get(input_file: &str, result: ResultType) -> (r: String)
    ensures
        r@ == default_name(input_file@, path_file_name(input_file@), result),
{
    let n = file_name_of(input_file);
    name_from_file_name(input_file, n, result)
}

} // verus!
