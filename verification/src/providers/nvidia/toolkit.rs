//! CUDA Toolkit packages and the `nvcc` compiler.
use vstd::prelude::*;
use vstd::string::*;

use crate::error::{ArcError, ErrorKind};
use crate::model::command::{cmd, CommandSpec, CommandView};
use crate::model::environment::{opt_text, ToolkitSource, ToolkitStatus};
use crate::providers::nvidia::upgrade::{toolkit_version_from_name, version_from_name_spec};
use crate::text::{
    all_digits, chars_of, concat, concat3, is_digit, is_prefix, is_ws, is_ws_char, split, split_once,
    split_once_str, split_str, starts_with, strs, substring, trim, trim_str,
};

verus! {

/// The pieces `MAJOR` and `MINOR` of a version written `MAJOR.MINOR` or `MAJOR-MINOR`.
pub open spec fn version_pieces(version: Seq<char>) -> Seq<Seq<char>> {
    split(trim(version), seq!['.', '-'])
}

/// A version names exactly a major and a minor release, both numbers.
pub open spec fn valid_toolkit_version(version: Seq<char>) -> bool {
    let p = version_pieces(version);
    p.len() == 2 && p[0].len() > 0 && p[1].len() > 0 && all_digits(p[0]) && all_digits(p[1])
}

/// `cuda-toolkit-MAJOR-MINOR`.
pub open spec fn versioned_package_spec(version: Seq<char>) -> Seq<char> {
    "cuda-toolkit-"@ + version_pieces(version)[0] + "-"@ + version_pieces(version)[1]
}

/// The package for a toolkit version, or the latest one when none is pinned.
pub open spec fn toolkit_package_spec(version: Option<Seq<char>>) -> Seq<char> {
    match version {
        Some(v) => versioned_package_spec(v),
        None => "cuda-toolkit"@,
    }
}

// The text that `str`'s `Debug` formatting writes for a string.
pub uninterp spec fn debug_text(s: Seq<char>) -> Seq<char>;

/// `format!("{:?}", s)`: the string in double quotes, with quotes, backslashes
/// and unprintable characters escaped as `str`'s `Debug` implementation does.
/// What that text is for each string is left to std and only named here.
#[verifier::external_body]
pub(crate) fn debug_quoted(s: &str) -> (r: String)
    ensures
        r@ == debug_text(s@),
{
    format!("{s:?}")
}

/// The refusal of a version that is not `MAJOR.MINOR`.
pub open spec fn invalid_version_message(version: Seq<char>) -> Seq<char> {
    "invalid CUDA Toolkit version "@ + debug_text(version) + "; expected MAJOR.MINOR, for example 13.3"@
}

/// The package that installs CUDA Toolkit `version` (`MAJOR.MINOR`).
pub fn versioned_package(version: &str) -> (r: Result<String, ArcError>)
    ensures
        (r is Ok <==> valid_toolkit_version(version@)),
        (r matches Ok(p) ==> p@ == versioned_package_spec(version@)),
        (r matches Err(e) ==> e.kind == ErrorKind::InvalidToolkitVersion && e.message@
            == invalid_version_message(version@)),
{
    let t = trim_str(version);
    let pieces = split_str(t.as_str(), &['.', '-']);
    assert(['.', '-']@ =~= seq!['.', '-']);
    if pieces.len() != 2 || !all_digit_string(pieces[0].as_str()) || !all_digit_string(
        pieces[1].as_str(),
    ) {
        let mut m = String::from_str("invalid CUDA Toolkit version ");
        let quoted = debug_quoted(version);
        m.append(quoted.as_str());
        m.append("; expected MAJOR.MINOR, for example 13.3");
        return Err(ArcError::new(ErrorKind::InvalidToolkitVersion, m));
    }
    let mut r = String::from_str("cuda-toolkit-");
    r.append(pieces[0].as_str());
    r.append("-");
    r.append(pieces[1].as_str());
    Ok(r)
}

/// Non-empty and made of decimal digits only.
fn all_digit_string(s: &str) -> (b: bool)
    ensures
        b == (s@.len() > 0 && all_digits(s@)),
{
    let c = chars_of(s);
    if c.len() == 0 {
        return false;
    }
    let mut i: usize = 0;
    while i < c.len()
        invariant
            i <= c.len(),
            c@ == s@,
            forall|j: int| 0 <= j < i ==> is_digit(#[trigger] c@[j]),
        decreases c.len() - i,
    {
        if !('0' <= c[i] && c[i] <= '9') {
            assert(!is_digit(s@[i as int]));
            return false;
        }
        i = i + 1;
    }
    true
}

/// The package for a pinned toolkit version, or `cuda-toolkit` for the latest.
pub fn package(version: Option<&str>) -> (r: Result<String, ArcError>)
    ensures
        (r is Ok <==> (version matches Some(v) ==> valid_toolkit_version(v@))),
        (r matches Ok(p) ==> p@ == toolkit_package_spec(
            match version {
                Some(v) => Some(v@),
                None => None,
            },
        )),
        (r matches Err(e) ==> e.kind == ErrorKind::InvalidToolkitVersion && (version matches Some(
            v,
        ) && e.message@ == invalid_version_message(v@))),
{
    match version {
        Some(v) => versioned_package(v),
        None => Ok(String::from_str("cuda-toolkit")),
    }
}

/// `nvcc --version`.
pub open spec fn nvcc_version_command() -> CommandView {
    cmd("nvcc"@, seq!["--version"@])
}

/// Checks that `nvcc` runs.
pub fn verification_command() -> (c: CommandSpec)
    ensures
        c@ == nvcc_version_command(),
{
    let c = CommandSpec::new("nvcc", &["--version"]);
    assert(c@ =~= nvcc_version_command());
    c
}

/// Separates the words of `nvcc --version` output: a comma or whitespace.
pub open spec fn is_nvcc_separator(c: char) -> bool {
    c == ',' || is_ws(c)
}

pub open spec fn separators_len(s: Seq<char>) -> nat
    decreases s.len(),
{
    if s.len() > 0 && is_nvcc_separator(s[0]) {
        1 + separators_len(s.drop_first())
    } else {
        0
    }
}

pub open spec fn token_len(s: Seq<char>) -> nat
    decreases s.len(),
{
    if s.len() > 0 && !is_nvcc_separator(s[0]) {
        1 + token_len(s.drop_first())
    } else {
        0
    }
}

/// The version that `nvcc --version` prints: the first word after `release `.
pub open spec fn nvcc_version_spec(output: Seq<char>) -> Option<Seq<char>> {
    match split_once(output, "release "@) {
        None => None,
        Some(p) => {
            let rest = p.1.subrange(separators_len(p.1) as int, p.1.len() as int);
            if token_len(rest) > 0 {
                Some(rest.subrange(0, token_len(rest) as int))
            } else {
                None
            }
        },
    }
}

/// Reads the toolkit version from `nvcc --version` output.
pub fn parse_nvcc_version(output: &str) -> (v: Option<String>)
    ensures
        match v {
            Some(s) => nvcc_version_spec(output@) == Some(s@),
            None => nvcc_version_spec(output@) is None,
        },
{
    let after = match split_once_str(output, "release ") {
        Some(p) => p.1,
        None => return None,
    };
    let c = chars_of(after.as_str());
    let ghost s = after@;
    let mut a: usize = 0;
    assert(s.subrange(0, s.len() as int) =~= s);
    while a < c.len() && (c[a] == ',' || is_ws_char(c[a]))
        invariant
            a <= c.len(),
            c@ == s,
            separators_len(s) == a + separators_len(s.subrange(a as int, s.len() as int)),
        decreases c.len() - a,
    {
        assert(s.subrange(a as int, s.len() as int).drop_first() =~= s.subrange(a + 1, s.len() as int));
        a = a + 1;
    }
    proof {
        let t = s.subrange(a as int, s.len() as int);
        if a < c.len() {
            assert(t[0] == c@[a as int]);
        }
        assert(separators_len(t) == 0);
    }
    let mut b: usize = a;
    while b < c.len() && !(c[b] == ',' || is_ws_char(c[b]))
        invariant
            a <= b <= c.len(),
            c@ == s,
            token_len(s.subrange(a as int, s.len() as int)) == (b - a) + token_len(s.subrange(b as int, s.len() as int)),
        decreases c.len() - b,
    {
        assert(s.subrange(b as int, s.len() as int).drop_first() =~= s.subrange(b + 1, s.len() as int));
        b = b + 1;
    }
    proof {
        let t = s.subrange(b as int, s.len() as int);
        if b < c.len() {
            assert(t[0] == c@[b as int]);
        }
        assert(token_len(t) == 0);
        assert(s.subrange(a as int, s.len() as int).subrange(0, (b - a) as int) =~= s.subrange(a as int, b as int));
    }
    if b == a {
        return None;
    }
    Some(substring(after.as_str(), a, b))
}

/// The installed packages that belong to the CUDA Toolkit, in order.
pub open spec fn toolkit_packages_of(ps: Seq<Seq<char>>) -> Seq<Seq<char>>
    decreases ps.len(),
{
    if ps.len() == 0 {
        Seq::empty()
    } else {
        let rest = toolkit_packages_of(ps.drop_last());
        if is_prefix("cuda-toolkit"@, ps.last()) {
            rest.push(ps.last())
        } else {
            rest
        }
    }
}

/// The release that the first package naming one names.
pub open spec fn first_named_release(ps: Seq<Seq<char>>) -> Option<Seq<char>>
    decreases ps.len(),
{
    if ps.len() == 0 {
        None
    } else {
        match first_named_release(ps.drop_last()) {
            Some(v) => Some(v),
            None => version_from_name_spec(ps.last()),
        }
    }
}

/// Where the `nvcc` of a release installed from NVIDIA's packages lives.
pub open spec fn release_nvcc_path(release: Seq<char>) -> Seq<char> {
    "/usr/local/cuda-"@ + release + "/bin/nvcc"@
}

/// What the system package manager's CUDA Toolkit is, given the installed packages.
pub open spec fn system_toolkit_holds(s: ToolkitStatus, packages: Seq<Seq<char>>) -> bool {
    let tps = toolkit_packages_of(packages);
    &&& s.name@ == "System-managed CUDA Toolkit"@
    &&& strs(s.packages@) == tps
    &&& opt_text(s.version) == first_named_release(tps)
    &&& opt_text(s.executable_path) == match first_named_release(tps) {
        Some(v) => Some(release_nvcc_path(v)),
        None => None,
    }
    &&& s.source == ToolkitSource::SystemPackageManager
    &&& s.manageable
}

/// The CUDA Toolkit that the system package manager installed, if any: its
/// `cuda-toolkit` packages, the release the first versioned one names, and
/// where that release's `nvcc` is installed.
pub fn system_toolkit(packages: &Vec<String>) -> (t: Option<ToolkitStatus>)
    ensures
        (t is Some <==> toolkit_packages_of(strs(packages@)).len() > 0),
        (t matches Some(s) ==> system_toolkit_holds(s, strs(packages@))),
{
    let mut tps: Vec<String> = Vec::new();
    let mut version: Option<String> = None;
    let mut i: usize = 0;
    while i < packages.len()
        invariant
            i <= packages.len(),
            strs(tps@) == toolkit_packages_of(strs(packages@).take(i as int)),
            opt_text(version) == first_named_release(toolkit_packages_of(strs(packages@).take(i as int))),
        decreases packages.len() - i,
    {
        let ghost prefix = strs(packages@).take(i as int);
        assert(strs(packages@).take(i + 1).drop_last() =~= prefix);
        assert(strs(packages@).take(i + 1).last() == packages@[i as int]@);
        let name = packages[i].as_str();
        if starts_with(name, "cuda-toolkit") {
            let ghost before = strs(tps@);
            tps.push(packages[i].clone());
            assert(strs(tps@) =~= before.push(packages@[i as int]@));
            assert(strs(tps@).drop_last() =~= before);
            if version.is_none() {
                version = toolkit_version_from_name(name);
            }
        }
        i = i + 1;
    }
    assert(strs(packages@).take(i as int) =~= strs(packages@));
    if tps.len() == 0 {
        return None;
    }
    let executable_path = match &version {
        Some(v) => Some(concat3("/usr/local/cuda-", v.as_str(), "/bin/nvcc")),
        None => None,
    };
    Some(
        ToolkitStatus {
            name: String::from_str("System-managed CUDA Toolkit"),
            version,
            executable_path,
            source: ToolkitSource::SystemPackageManager,
            packages: tps,
            manageable: true,
        },
    )
}

} // verus!
