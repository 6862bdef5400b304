//! Reading a distribution's identity from `os-release` text and turning it
//! into a package-manager command line.
//!
//! Package names differ between distributions far more than command syntax
//! does, so only the invocation is derived; the tool names are the upstream
//! binary names, which most distributions reuse verbatim.

use crate::text::{chars_of, ci_contains, contains_ignoring_ascii_case, matches_at};
use vstd::prelude::*;
use vstd::string::*;

verus! {

/// Index of the first line feed of `s` at or after `from`, or the length of
/// `s` when there is none.
pub open spec fn line_end(s: Seq<char>, from: int) -> int
    decreases s.len() - from,
{
    if from < 0 || from >= s.len() {
        s.len() as int
    } else if s[from] == '\n' {
        from
    } else {
        line_end(s, from + 1)
    }
}

pub proof fn lemma_line_end(s: Seq<char>, from: int)
    requires
        0 <= from <= s.len(),
    ensures
        from <= line_end(s, from) <= s.len(),
        line_end(s, from) < s.len() ==> s[line_end(s, from)] == '\n',
        forall|j: int| from <= j < line_end(s, from) ==> s[j] != '\n',
    decreases s.len() - from,
{
    if from < s.len() && s[from] != '\n' {
        lemma_line_end(s, from + 1);
    }
}

/// The line of `s` that starts at `start`, without its terminator: a line
/// feed, or a carriage return and a line feed.
pub open spec fn line_at(s: Seq<char>, start: int) -> Seq<char> {
    let e = line_end(s, start);
    let raw = s.subrange(start, e);
    if e < s.len() && raw.len() > 0 && raw.last() == '\r' {
        raw.drop_last()
    } else {
        raw
    }
}

/// `line` reads `key=` followed by a value.
pub open spec fn is_assignment(line: Seq<char>, key: Seq<char>) -> bool {
    &&& line.len() > key.len()
    &&& line.subrange(0, key.len() as int) == key
    &&& line[key.len() as int] == '='
}

/// The value given to `key` by the first line, from `start` on, that
/// assigns it.
pub open spec fn field_from(s: Seq<char>, key: Seq<char>, start: int) -> Option<Seq<char>>
    decreases s.len() + 1 - start,
{
    if start < 0 || start >= s.len() {
        None
    } else if is_assignment(line_at(s, start), key) {
        Some(line_at(s, start).skip(key.len() + 1 as int))
    } else {
        proof {
            lemma_line_end(s, start);
        }
        field_from(s, key, line_end(s, start) + 1)
    }
}

pub open spec fn is_quote(c: char) -> bool {
    c == '"' || c == '\''
}

/// Index of the first character of `v`, from `i` on, that is not a quote.
pub open spec fn unquoted_start(v: Seq<char>, i: int) -> int
    decreases v.len() - i,
{
    if 0 <= i < v.len() && is_quote(v[i]) {
        unquoted_start(v, i + 1)
    } else {
        i
    }
}

/// One past the last character of `v` below `j`, and not below `lo`, that is
/// not a quote.
pub open spec fn unquoted_end(v: Seq<char>, lo: int, j: int) -> int
    decreases j - lo,
{
    if lo < j && is_quote(v[j - 1]) {
        unquoted_end(v, lo, j - 1)
    } else {
        j
    }
}

/// `v` with the single and double quotes at either end removed.
pub open spec fn trim_quotes(v: Seq<char>) -> Seq<char> {
    let a = unquoted_start(v, 0);
    v.subrange(a, unquoted_end(v, a, v.len() as int))
}

/// The unquoted value `release` gives to `key`; empty when no line assigns it.
pub open spec fn field_text(release: Seq<char>, key: Seq<char>) -> Seq<char> {
    match field_from(release, key, 0) {
        Some(v) => trim_quotes(v),
        None => seq![],
    }
}

/// The lower-cased `ID` and `ID_LIKE` values, written as `ID ID_LIKE`,
/// contain `needle`. No needle holds a space, so a match lies within one of
/// the two values.
pub open spec fn mentions(release: Seq<char>, needle: Seq<char>) -> bool {
    ci_contains(field_text(release, "ID"@), needle) || ci_contains(field_text(release, "ID_LIKE"@), needle)
}

/// Where the first occurrence of `sep` in `t`, from `i` on, starts; the
/// length of `t` when there is none.
pub open spec fn segment_end(t: Seq<char>, sep: Seq<char>, i: int) -> int
    decreases t.len() + 1 - i,
{
    if i < 0 || i + sep.len() > t.len() {
        t.len() as int
    } else if t.subrange(i, i + sep.len()) == sep {
        i
    } else {
        segment_end(t, sep, i + 1)
    }
}

/// The part of `t` before the first occurrence of `sep`.
pub open spec fn first_segment(t: Seq<char>, sep: Seq<char>) -> Seq<char> {
    t.subrange(0, segment_end(t, sep, 0))
}

/// The command that installs `pkg` with the package manager of the
/// distribution `release` describes, if it is one SuperShot knows.
pub open spec fn spec_install_command(release: Seq<char>, pkg: Seq<char>) -> Option<Seq<char>> {
    if mentions(release, "arch"@) {
        Some("sudo pacman -S "@ + pkg)
    } else if mentions(release, "fedora"@) || mentions(release, "rhel"@) || mentions(release, "centos"@) {
        Some("sudo dnf install "@ + pkg)
    } else if mentions(release, "suse"@) {
        Some("sudo zypper install "@ + pkg)
    } else if mentions(release, "alpine"@) {
        Some("sudo apk add "@ + pkg)
    } else if mentions(release, "debian"@) || mentions(release, "ubuntu"@) {
        Some("sudo apt install "@ + pkg)
    } else if mentions(release, "nixos"@) {
        Some("nix-env -iA nixpkgs."@ + pkg)
    } else {
        None
    }
}

/// The value the first line of `release` that assigns `key` gives it, as
/// written after the `=`.
pub fn os_release_field(release: &str, key: &str) -> (out: Option<String>)
    ensures
        match out {
            Some(v) => field_from(release@, key@, 0) == Some(v@),
            None => field_from(release@, key@, 0) is None,
        },
{
    let c = chars_of(release);
    let k = chars_of(key);
    let n = c.len();
    let kl = k.len();
    let mut start: usize = 0;
    while start < n
        invariant
            c@ == release@,
            k@ == key@,
            n == release@.len(),
            kl == key@.len(),
            start <= n,
            field_from(release@, key@, 0) == field_from(release@, key@, start as int),
        decreases n - start,
    {
        let mut e = start;
        while e < n && c[e] != '\n'
            invariant
                c@ == release@,
                n == release@.len(),
                start <= e <= n,
                line_end(release@, start as int) == line_end(release@, e as int),
            decreases n - e,
        {
            e = e + 1;
        }
        let ghost s = release@;
        assert(line_end(s, start as int) == e);
        let mut le = e;
        if e < n && e > start && c[e - 1] == '\r' {
            le = e - 1;
        }
        assert(line_at(s, start as int) =~= s.subrange(start as int, le as int));
        if le - start > kl && matches_at(&c, start, &k) && c[start + kl] == '=' {
            proof {
                let line = line_at(s, start as int);
                assert(line.subrange(0, kl as int) =~= s.subrange(start as int, start + kl));
                assert(line.skip(kl + 1) =~= s.subrange(start + kl + 1, le as int));
            }
            return Some(String::from_str(release.substring_char(start + kl + 1, le)));
        }
        proof {
            let line = line_at(s, start as int);
            if is_assignment(line, key@) {
                assert(line.subrange(0, kl as int) =~= s.subrange(start as int, start + kl));
                assert(line[kl as int] == s[start + kl]);
            }
        }
        assert(!is_assignment(line_at(s, start as int), key@));
        if e >= n {
            assert(field_from(s, key@, e + 1) is None);
            return None;
        }
        start = e + 1;
    }
    None
}

/// `v` with the single and double quotes at either end removed.
pub fn trim_quotes_str(v: &str) -> (out: String)
    ensures
        out@ == trim_quotes(v@),
{
    let c = chars_of(v);
    let n = c.len();
    let mut a: usize = 0;
    while a < n && (c[a] == '"' || c[a] == '\'')
        invariant
            c@ == v@,
            n == v@.len(),
            a <= n,
            unquoted_start(v@, 0) == unquoted_start(v@, a as int),
        decreases n - a,
    {
        a = a + 1;
    }
    let mut b: usize = n;
    while b > a && (c[b - 1] == '"' || c[b - 1] == '\'')
        invariant
            c@ == v@,
            n == v@.len(),
            a <= b <= n,
            unquoted_start(v@, 0) == a,
            unquoted_end(v@, a as int, n as int) == unquoted_end(v@, a as int, b as int),
        decreases b,
    {
        b = b - 1;
    }
    String::from_str(v.substring_char(a, b))
}

/// The unquoted value `release` gives to `key`, or the empty string.
pub fn os_release_value(release: &str, key: &str) -> (out: String)
    ensures
        out@ == field_text(release@, key@),
{
    match os_release_field(release, key) {
        Some(v) => trim_quotes_str(v.as_str()),
        None => String::new(),
    }
}

/// The part of `t` before the first occurrence of `sep`.
pub fn first_segment_str(t: &str, sep: &str) -> (out: String)
    ensures
        out@ == first_segment(t@, sep@),
{
    let c = chars_of(t);
    let p = chars_of(sep);
    let n = c.len();
    let m = p.len();
    if m == 0 {
        proof {
            assert(t@.subrange(0, 0) =~= sep@);
        }
        return String::new();
    }
    let mut i: usize = 0;
    while m <= n && i <= n - m
        invariant
            c@ == t@,
            p@ == sep@,
            n == t@.len(),
            m == sep@.len(),
            m > 0,
            segment_end(t@, sep@, 0) == segment_end(t@, sep@, i as int),
        decreases n + 1 - i,
    {
        if matches_at(&c, i, &p) {
            return String::from_str(t.substring_char(0, i));
        }
        i = i + 1;
    }
    proof {
        assert(t@.subrange(0, n as int) =~= t@);
    }
    String::from_str(t)
}

fn mentions_exec(id: &str, like: &str, needle: &str) -> (b: bool)
    ensures
        b == (ci_contains(id@, needle@) || ci_contains(like@, needle@)),
{
    contains_ignoring_ascii_case(id, needle) || contains_ignoring_ascii_case(like, needle)
}

/// The command that installs the first of `tools` (up to a ` + ` that
/// names a companion) with the package manager of the distribution that the
/// `os-release` text `release` describes; `None` for an unknown distribution
/// or when there is no tool.
pub fn install_command(release: &str, tools: &Vec<&str>) -> (out: Option<String>)
    ensures
        match out {
            Some(cmd) => tools@.len() > 0 && spec_install_command(release@, first_segment(tools@[0]@, " + "@))
                == Some(cmd@),
            None => tools@.len() == 0 || spec_install_command(release@, first_segment(tools@[0]@, " + "@))
                is None,
        },
{
    if tools.len() == 0 {
        return None;
    }
    let pkg = first_segment_str(tools[0], " + ");
    let id = os_release_value(release, "ID");
    let like = os_release_value(release, "ID_LIKE");
    let prefix: &str = if mentions_exec(id.as_str(), like.as_str(), "arch") {
        "sudo pacman -S "
    } else if mentions_exec(id.as_str(), like.as_str(), "fedora") || mentions_exec(
        id.as_str(),
        like.as_str(),
        "rhel",
    ) || mentions_exec(id.as_str(), like.as_str(), "centos") {
        "sudo dnf install "
    } else if mentions_exec(id.as_str(), like.as_str(), "suse") {
        "sudo zypper install "
    } else if mentions_exec(id.as_str(), like.as_str(), "alpine") {
        "sudo apk add "
    } else if mentions_exec(id.as_str(), like.as_str(), "debian") || mentions_exec(
        id.as_str(),
        like.as_str(),
        "ubuntu",
    ) {
        "sudo apt install "
    } else if mentions_exec(id.as_str(), like.as_str(), "nixos") {
        "nix-env -iA nixpkgs."
    } else {
        return None;
    };
    let mut out = String::from_str(prefix);
    out.append(pkg.as_str());
    Some(out)
}

} // verus!
