//! Which distribution the machine runs.
use vstd::prelude::*;
use vstd::string::*;

use crate::error::{ArcError, ErrorKind};
use crate::model::system::Distribution;
use crate::text::{is_prefix, lines, lines_of, lower, lower_string, starts_with, strs, substring};

verus! {

/// The operating system as the OS detection reports it.
#[derive(Clone, Debug, PartialEq, Eq)]
pub enum OsType {
    Ubuntu,
    Debian,
    RedHatEnterprise,
    Redhat,
    AlmaLinux,
    RockyLinux,
    OracleLinux,
    Fedora,
    Amazon,
    Mariner,
    OpenSuse,
    Suse,
    Linux,
    Unknown,
    /// Any other system, by the name it is shown with.
    Other(String),
}

/// The name an OS type is shown with.
pub open spec fn os_type_name(t: OsType) -> Seq<char> {
    match t {
        OsType::Ubuntu => "Ubuntu"@,
        OsType::Debian => "Debian"@,
        OsType::RedHatEnterprise => "Red Hat Enterprise Linux"@,
        OsType::Redhat => "Red Hat Linux"@,
        OsType::AlmaLinux => "AlmaLinux"@,
        OsType::RockyLinux => "Rocky Linux"@,
        OsType::OracleLinux => "Oracle Linux"@,
        OsType::Fedora => "Fedora"@,
        OsType::Amazon => "Amazon Linux AMI"@,
        OsType::Mariner => "Mariner"@,
        OsType::OpenSuse => "openSUSE"@,
        OsType::Suse => "SUSE Linux Enterprise Server"@,
        OsType::Linux => "Linux"@,
        OsType::Unknown => "Unknown"@,
        OsType::Other(name) => name@,
    }
}

/// The distribution of an OS type; a generic Linux is told apart by its
/// `/etc/os-release` ID.
pub open spec fn distribution_spec(t: OsType, release_id: Option<Seq<char>>) -> Option<Distribution> {
    match t {
        OsType::Ubuntu => Some(Distribution::Ubuntu),
        OsType::Debian => Some(Distribution::Debian),
        OsType::RedHatEnterprise => Some(Distribution::Rhel),
        OsType::Redhat => Some(Distribution::Rhel),
        OsType::AlmaLinux => Some(Distribution::AlmaLinux),
        OsType::RockyLinux => Some(Distribution::RockyLinux),
        OsType::OracleLinux => Some(Distribution::OracleLinux),
        OsType::Fedora => Some(Distribution::Fedora),
        OsType::Amazon => Some(Distribution::AmazonLinux),
        OsType::Mariner => Some(Distribution::AzureLinux),
        OsType::OpenSuse => Some(Distribution::OpenSuse),
        OsType::Suse => Some(Distribution::Sles),
        OsType::Linux | OsType::Unknown => match release_id {
            Some(id) => if id == "kylin"@ || id == "kylinos"@ {
                Some(Distribution::KylinOs)
            } else if id == "azurelinux"@ || id == "azl"@ {
                Some(Distribution::AzureLinux)
            } else {
                None
            },
            None => None,
        },
        OsType::Other(_) => None,
    }
}

fn id_is(id: &Option<&str>, a: &str, b: &str) -> (r: bool)
    ensures
        r == (id matches Some(v) && (v@ == a@ || v@ == b@)),
{
    match id {
        Some(v) => crate::text::eq_str(v, a) || crate::text::eq_str(v, b),
        None => false,
    }
}

/// The distribution of an OS type, or why GPU packages cannot be installed on it.
pub fn map_distribution(os_type: &OsType, release_id: Option<&str>) -> (r: Result<Distribution, ArcError>)
    ensures
        match r {
            Ok(d) => distribution_spec(*os_type, crate::providers::nvidia::runtime::opt_view(release_id))
                == Some(d),
            Err(e) => distribution_spec(*os_type, crate::providers::nvidia::runtime::opt_view(release_id))
                is None && e.kind == ErrorKind::UnsupportedDistribution && e.message@
                == "GPU package installation is not supported on "@ + os_type_name(*os_type),
        },
{
    let d = match os_type {
        OsType::Ubuntu => Distribution::Ubuntu,
        OsType::Debian => Distribution::Debian,
        OsType::RedHatEnterprise | OsType::Redhat => Distribution::Rhel,
        OsType::AlmaLinux => Distribution::AlmaLinux,
        OsType::RockyLinux => Distribution::RockyLinux,
        OsType::OracleLinux => Distribution::OracleLinux,
        OsType::Fedora => Distribution::Fedora,
        OsType::Amazon => Distribution::AmazonLinux,
        OsType::Mariner => Distribution::AzureLinux,
        OsType::OpenSuse => Distribution::OpenSuse,
        OsType::Suse => Distribution::Sles,
        OsType::Linux if id_is(&release_id, "kylin", "kylinos") => Distribution::KylinOs,
        OsType::Unknown if id_is(&release_id, "kylin", "kylinos") => Distribution::KylinOs,
        OsType::Linux if id_is(&release_id, "azurelinux", "azl") => Distribution::AzureLinux,
        OsType::Unknown if id_is(&release_id, "azurelinux", "azl") => Distribution::AzureLinux,
        _ => {
            let name = os_type_label(os_type);
            return Err(
                ArcError::new(
                    ErrorKind::UnsupportedDistribution,
                    crate::text::concat("GPU package installation is not supported on ", name.as_str()),
                ),
            );
        },
    };
    Ok(d)
}

/// The name an OS type is shown with.
pub fn os_type_label(os_type: &OsType) -> (s: String)
    ensures
        s@ == os_type_name(*os_type),
{
    match os_type {
        OsType::Ubuntu => String::from_str("Ubuntu"),
        OsType::Debian => String::from_str("Debian"),
        OsType::RedHatEnterprise => String::from_str("Red Hat Enterprise Linux"),
        OsType::Redhat => String::from_str("Red Hat Linux"),
        OsType::AlmaLinux => String::from_str("AlmaLinux"),
        OsType::RockyLinux => String::from_str("Rocky Linux"),
        OsType::OracleLinux => String::from_str("Oracle Linux"),
        OsType::Fedora => String::from_str("Fedora"),
        OsType::Amazon => String::from_str("Amazon Linux AMI"),
        OsType::Mariner => String::from_str("Mariner"),
        OsType::OpenSuse => String::from_str("openSUSE"),
        OsType::Suse => String::from_str("SUSE Linux Enterprise Server"),
        OsType::Linux => String::from_str("Linux"),
        OsType::Unknown => String::from_str("Unknown"),
        OsType::Other(name) => name.clone(),
    }
}

pub open spec fn distribution_name_spec(d: Distribution) -> Seq<char> {
    match d {
        Distribution::Ubuntu => "Ubuntu"@,
        Distribution::Debian => "Debian"@,
        Distribution::Rhel => "Red Hat Enterprise Linux"@,
        Distribution::AlmaLinux => "AlmaLinux"@,
        Distribution::RockyLinux => "Rocky Linux"@,
        Distribution::OracleLinux => "Oracle Linux"@,
        Distribution::Fedora => "Fedora"@,
        Distribution::AmazonLinux => "Amazon Linux"@,
        Distribution::AzureLinux => "Azure Linux"@,
        Distribution::OpenSuse => "openSUSE"@,
        Distribution::Sles => "SUSE Linux Enterprise Server"@,
        Distribution::KylinOs => "KylinOS"@,
    }
}

/// The name arc shows for a distribution.
pub fn distribution_name(distribution: Distribution) -> (s: &'static str)
    ensures
        s@ == distribution_name_spec(distribution),
{
    match distribution {
        Distribution::Ubuntu => "Ubuntu",
        Distribution::Debian => "Debian",
        Distribution::Rhel => "Red Hat Enterprise Linux",
        Distribution::AlmaLinux => "AlmaLinux",
        Distribution::RockyLinux => "Rocky Linux",
        Distribution::OracleLinux => "Oracle Linux",
        Distribution::Fedora => "Fedora",
        Distribution::AmazonLinux => "Amazon Linux",
        Distribution::AzureLinux => "Azure Linux",
        Distribution::OpenSuse => "openSUSE",
        Distribution::Sles => "SUSE Linux Enterprise Server",
        Distribution::KylinOs => "KylinOS",
    }
}

pub open spec fn is_quote(c: char) -> bool {
    c == '\'' || c == '"'
}

/// The text without the quotes at either end (`trim_matches(['\'', '"'])`).
pub open spec fn strip_quotes(s: Seq<char>) -> Seq<char>
    decreases s.len(),
{
    if s.len() > 0 && is_quote(s[0]) {
        strip_quotes(s.drop_first())
    } else if s.len() > 0 && is_quote(s.last()) {
        strip_quotes(s.drop_last())
    } else {
        s
    }
}

/// The first `ID=` line of the lines, its value unquoted and lowercased.
pub open spec fn release_id_in(ls: Seq<Seq<char>>) -> Option<Seq<char>>
    decreases ls.len(),
{
    if ls.len() == 0 {
        None
    } else if is_prefix("ID="@, ls[0]) {
        Some(lower(strip_quotes(ls[0].subrange(3, ls[0].len() as int))))
    } else {
        release_id_in(ls.drop_first())
    }
}

proof fn lemma_strip_quotes_range(s: Seq<char>, a: int, b: int)
    requires
        0 <= a <= b <= s.len(),
        forall|i: int| 0 <= i < a ==> is_quote(#[trigger] s[i]),
        a < b ==> !is_quote(s[a]),
        a < b ==> !is_quote(s[b - 1]),
        forall|i: int| b <= i < s.len() ==> is_quote(#[trigger] s[i]),
        a == b ==> a == s.len(),
    ensures
        strip_quotes(s) == s.subrange(a, b),
    decreases s.len(),
{
    if s.len() > 0 && is_quote(s[0]) {
        assert(a > 0);
        let t = s.drop_first();
        assert forall|i: int| 0 <= i < a - 1 implies is_quote(#[trigger] t[i]) by {
            assert(t[i] == s[i + 1]);
        }
        assert forall|i: int| b - 1 <= i < t.len() implies is_quote(#[trigger] t[i]) by {
            assert(t[i] == s[i + 1]);
        }
        if a < b {
            assert(t[a - 1] == s[a]);
            assert(t[b - 2] == s[b - 1]);
        }
        lemma_strip_quotes_range(t, a - 1, b - 1);
        assert(t.subrange(a - 1, b - 1) =~= s.subrange(a, b));
    } else if s.len() > 0 && is_quote(s.last()) {
        assert(a == 0);
        assert(b < s.len());
        let t = s.drop_last();
        assert forall|i: int| b <= i < t.len() implies is_quote(#[trigger] t[i]) by {
            assert(t[i] == s[i]);
        }
        if a < b {
            assert(t[a] == s[a]);
            assert(t[b - 1] == s[b - 1]);
        }
        lemma_strip_quotes_range(t, a, b);
        assert(t.subrange(a, b) =~= s.subrange(a, b));
    } else {
        if s.len() > 0 {
            assert(a == 0);
            assert(b == s.len());
        }
        assert(s.subrange(a, b) =~= s);
    }
}

fn strip_quote_chars(s: &str) -> (r: String)
    ensures
        r@ == strip_quotes(s@),
{
    let n = s.unicode_len();
    let mut a: usize = 0;
    while a < n && (s.get_char(a) == '\'' || s.get_char(a) == '"')
        invariant
            a <= n,
            n == s@.len(),
            forall|i: int| 0 <= i < a ==> is_quote(#[trigger] s@[i]),
        decreases n - a,
    {
        a = a + 1;
    }
    let mut b: usize = n;
    while b > a && (s.get_char(b - 1) == '\'' || s.get_char(b - 1) == '"')
        invariant
            a <= b <= n,
            n == s@.len(),
            forall|i: int| b <= i < n ==> is_quote(#[trigger] s@[i]),
        decreases b,
    {
        b = b - 1;
    }
    proof {
        if a == b && a < n {
            assert(!is_quote(s@[a as int]));
            assert(is_quote(s@[a as int]));
        }
        lemma_strip_quotes_range(s@, a as int, b as int);
    }
    substring(s, a, b)
}

/// The `ID=` value of `/etc/os-release` contents, unquoted and lowercased.
pub fn parse_os_release_id(contents: &str) -> (r: Option<String>)
    ensures
        crate::model::environment::opt_text(r) == release_id_in(lines(contents@)),
{
    let ls = lines_of(contents);
    let ghost lv = strs(ls@);
    let mut i: usize = 0;
    assert(lv.skip(0) =~= lv);
    while i < ls.len()
        invariant
            i <= ls@.len(),
            lv == strs(ls@),
            release_id_in(lines(contents@)) == release_id_in(lv.skip(i as int)),
        decreases ls.len() - i,
    {
        let ghost rest = lv.skip(i as int);
        assert(rest[0] == ls@[i as int]@);
        assert(rest.drop_first() =~= lv.skip(i + 1));
        if starts_with(ls[i].as_str(), "ID=") {
            let n = ls[i].unicode_len();
            proof {
                reveal_strlit("ID=");
            }
            let value = substring(ls[i].as_str(), 3, n);
            let unquoted = strip_quote_chars(value.as_str());
            return Some(lower_string(unquoted.as_str()));
        }
        i = i + 1;
    }
    None
}

} // verus!
