//! Small string operations the capture rules and path resolution are built
//! from, each specified over the strings' character sequences.

use vstd::prelude::*;
use vstd::string::*;

verus! {

/// The code of `c` with ASCII capitals mapped to lower case.
pub open spec fn lower_code(c: char) -> int {
    if 65 <= (c as int) <= 90 {
        c as int + 32
    } else {
        c as int
    }
}

/// `hay`, lower-cased in the ASCII range, contains `needle` (compared by
/// character code) starting at `i`.
pub open spec fn ci_match_at(hay: Seq<char>, needle: Seq<char>, i: int) -> bool {
    &&& 0 <= i
    &&& i + needle.len() <= hay.len()
    &&& forall|k: int| 0 <= k < needle.len() ==> lower_code(#[trigger] hay[i + k]) == needle[k] as int
}

/// `hay`, lower-cased in the ASCII range, contains `needle`.
pub open spec fn ci_contains(hay: Seq<char>, needle: Seq<char>) -> bool {
    exists|i: int| ci_match_at(hay, needle, i)
}

/// Path join as for relative components: `rel` appended after a separator,
/// which is not doubled when `base` already ends in one; an empty base
/// yields `rel` alone.
pub open spec fn join_path(base: Seq<char>, rel: Seq<char>) -> Seq<char> {
    if base.len() == 0 {
        rel
    } else if base.last() == '/' {
        base + rel
    } else {
        base + seq!['/'] + rel
    }
}

/// The characters of a string, one per element.
pub fn chars_of(s: &str) -> (out: Vec<char>)
    ensures
        out@ == s@,
{
    let n = s.unicode_len();
    let mut out: Vec<char> = Vec::new();
    let mut i: usize = 0;
    while i < n
        invariant
            n == s@.len(),
            i <= n,
            out@ == s@.subrange(0, i as int),
        decreases n - i,
    {
        out.push(s.get_char(i));
        i = i + 1;
        proof {
            assert(out@ =~= s@.subrange(0, i as int));
        }
    }
    proof {
        assert(out@ =~= s@);
    }
    out
}

fn char_code(c: char) -> (out: u32)
    ensures
        out == c as int,
{
    c as u32
}

fn lower_code_exec(c: char) -> (out: u32)
    ensures
        out == lower_code(c),
{
    let v = c as u32;
    if v >= 65 && v <= 90 {
        v + 32
    } else {
        v
    }
}

/// Whether `hay`, lower-cased in the ASCII range, contains `needle`.
pub fn contains_ignoring_ascii_case(hay: &str, needle: &str) -> (b: bool)
    ensures
        b == ci_contains(hay@, needle@),
{
    let h = chars_of(hay);
    let n = chars_of(needle);
    let hl = h.len();
    let nl = n.len();
    if nl > hl {
        proof {
            assert forall|i: int| !ci_match_at(hay@, needle@, i) by {}
        }
        return false;
    }
    let mut i: usize = 0;
    while i <= hl - nl
        invariant
            h@ == hay@,
            n@ == needle@,
            hl == h@.len(),
            nl == n@.len(),
            nl <= hl,
            i <= hl - nl + 1,
            forall|j: int| 0 <= j < i ==> !ci_match_at(hay@, needle@, j),
        decreases hl - nl + 1 - i,
    {
        let mut k: usize = 0;
        let mut ok = true;
        while k < nl
            invariant
                h@ == hay@,
                n@ == needle@,
                hl == h@.len(),
                nl == n@.len(),
                i + nl <= hl,
                k <= nl,
                ok ==> forall|kk: int| 0 <= kk < k ==> lower_code(#[trigger] hay@[i + kk]) == needle@[kk] as int,
                !ok ==> !ci_match_at(hay@, needle@, i as int),
            decreases nl - k,
        {
            let ghost kk0 = k as int;
            let hc = h[i + k];
            let nc = n[k];
            let lc = lower_code_exec(hc);
            let nv = char_code(nc);
            if lc != nv {
                ok = false;
                proof {
                    assert(lower_code(hay@[i + kk0]) != needle@[kk0] as int);
                }
            } else {
                proof {
                    assert(lower_code(hay@[i + kk0]) == needle@[kk0] as int);
                }
            }
            k = k + 1;
            proof {
                if ok {
                    assert forall|kk: int| 0 <= kk < k implies lower_code(#[trigger] hay@[i + kk]) == needle@[kk] as int by {
                        if kk < kk0 {
                        } else {
                            assert(kk == kk0);
                        }
                    }
                }
            }
        }
        if ok {
            proof {
                assert(ci_match_at(hay@, needle@, i as int));
            }
            return true;
        }
        i = i + 1;
    }
    proof {
        assert forall|j: int| !ci_match_at(hay@, needle@, j) by {
            if 0 <= j && j + needle@.len() <= hay@.len() {
                assert(j < i);
            }
        }
    }
    false
}

/// `hay` holds `needle` as a contiguous run of characters.
pub open spec fn seq_contains(hay: Seq<char>, needle: Seq<char>) -> bool {
    exists|i: int| 0 <= i && i + needle.len() <= hay.len() && #[trigger] hay.subrange(i, i + needle.len()) == needle
}

/// Whether `hay` holds `needle`, compared character by character.
pub fn contains(hay: &str, needle: &str) -> (b: bool)
    ensures
        b == seq_contains(hay@, needle@),
{
    let h = chars_of(hay);
    let n = chars_of(needle);
    let hl = h.len();
    let nl = n.len();
    if nl > hl {
        return false;
    }
    if nl == 0 {
        assert(hay@.subrange(0, 0int + needle@.len()) =~= needle@);
        return true;
    }
    let mut i: usize = 0;
    while i <= hl - nl
        invariant
            h@ == hay@,
            n@ == needle@,
            hl == h@.len(),
            nl == n@.len(),
            0 < nl <= hl,
            i <= hl - nl + 1,
            forall|j: int| 0 <= j < i ==> #[trigger] hay@.subrange(j, j + nl) != needle@,
        decreases hl - nl + 1 - i,
    {
        if matches_at(&h, i, &n) {
            return true;
        }
        i = i + 1;
    }
    false
}

/// Whether two strings hold the same characters.
pub fn str_eq(a: &str, b: &str) -> (eq: bool)
    ensures
        eq == (a@ == b@),
{
    let x = a.to_owned();
    let y = b.to_owned();
    x == y
}

/// `base` joined with the relative component `rel`.
pub fn join(base: &str, rel: &str) -> (out: String)
    ensures
        out@ == join_path(base@, rel@),
{
    let n = base.unicode_len();
    let mut out = String::from_str(base);
    if n == 0 {
        return String::from_str(rel);
    }
    if base.get_char(n - 1) != '/' {
        out.append("/");
        proof {
            reveal_strlit("/");
            assert(seq!['/'] =~= "/"@);
        }
    }
    out.append(rel);
    out
}

/// The first `n` characters of `s`, or all of it when shorter.
pub fn take_chars(s: &str, n: usize) -> (out: String)
    ensures
        out@ == if s@.len() <= n { s@ } else { s@.subrange(0, n as int) },
{
    let len = s.unicode_len();
    if len <= n {
        String::from_str(s)
    } else {
        String::from_str(s.substring_char(0, n))
    }
}


/// `s` with every non-overlapping occurrence of `pat`, scanning left to
/// right, replaced by `rep`.
pub open spec fn replace_all(s: Seq<char>, pat: Seq<char>, rep: Seq<char>) -> Seq<char>
    decreases s.len(),
{
    if pat.len() == 0 || s.len() < pat.len() {
        s
    } else if s.subrange(0, pat.len() as int) == pat {
        rep + replace_all(s.skip(pat.len() as int), pat, rep)
    } else {
        seq![s[0]] + replace_all(s.skip(1), pat, rep)
    }
}

/// Whether `s` holds `pat` at position `i`.
pub fn matches_at(s: &Vec<char>, i: usize, pat: &Vec<char>) -> (b: bool)
    requires
        i + pat@.len() <= s@.len(),
    ensures
        b == (s@.subrange(i as int, i + pat@.len()) == pat@),
{
    let n = pat.len();
    let mut k: usize = 0;
    while k < n
        invariant
            n == pat@.len(),
            i + n <= s.len(),
            k <= n,
            forall|j: int| 0 <= j < k ==> s@[i + j] == pat@[j],
        decreases n - k,
    {
        if s[i + k] != pat[k] {
            proof {
                assert(s@.subrange(i as int, i + n)[k as int] != pat@[k as int]);
            }
            return false;
        }
        k = k + 1;
    }
    proof {
        assert(s@.subrange(i as int, i + n) =~= pat@);
    }
    true
}

/// `s` with every occurrence of `pat` replaced by `rep`, as `str::replace`
/// does for a non-empty pattern.
pub fn replace(s: &str, pat: &str, rep: &str) -> (out: String)
    requires
        pat@.len() > 0,
    ensures
        out@ == replace_all(s@, pat@, rep@),
{
    let c = chars_of(s);
    let p = chars_of(pat);
    let n = c.len();
    let m = p.len();
    let mut out = String::new();
    let mut i: usize = 0;
    proof {
        assert(s@.skip(0) =~= s@);
        assert(out@ + s@ =~= s@);
    }
    while i < n
        invariant
            c@ == s@,
            p@ == pat@,
            n == s@.len(),
            m == pat@.len(),
            m > 0,
            i <= n,
            out@ + replace_all(s@.skip(i as int), pat@, rep@) == replace_all(s@, pat@, rep@),
        decreases n - i,
    {
        let ghost rest = s@.skip(i as int);
        if m <= n - i && matches_at(&c, i, &p) {
            proof {
                assert(rest.subrange(0, m as int) =~= s@.subrange(i as int, i + m));
                assert(rest.skip(m as int) =~= s@.skip(i + m));
                assert(out@ + rep@ + replace_all(s@.skip(i + m), pat@, rep@) =~= out@ + replace_all(rest, pat@, rep@));
            }
            out.append(rep);
            i = i + m;
        } else {
            proof {
                if m <= n - i {
                    assert(rest.subrange(0, m as int) =~= s@.subrange(i as int, i + m));
                }
                assert(rest.skip(1) =~= s@.skip(i + 1));
                assert(rest[0] == c@[i as int]);
                assert(out@ + seq![c@[i as int]] + replace_all(s@.skip(i + 1), pat@, rep@) =~= out@
                    + replace_all(rest, pat@, rep@));
            }
            let mut one = String::new();
            one.append(s.substring_char(i, i + 1));
            proof {
                assert(s@.subrange(i as int, i + 1) =~= seq![c@[i as int]]);
            }
            out.append(one.as_str());
            i = i + 1;
        }
    }
    proof {
        assert(s@.skip(n as int) =~= Seq::<char>::empty());
        assert(out@ + Seq::<char>::empty() =~= out@);
    }
    out
}

/// The parts joined with `sep` between consecutive ones.
pub open spec fn join_with(parts: Seq<Seq<char>>, sep: Seq<char>) -> Seq<char>
    decreases parts.len(),
{
    if parts.len() == 0 {
        seq![]
    } else if parts.len() == 1 {
        parts[0]
    } else {
        join_with(parts.drop_last(), sep) + sep + parts.last()
    }
}

/// The characters of an optional string.
pub open spec fn opt_view(o: Option<&str>) -> Option<Seq<char>> {
    match o {
        Some(s) => Some(s@),
        None => None,
    }
}

/// The views of a vector of strings.
pub open spec fn views(v: Seq<String>) -> Seq<Seq<char>> {
    v.map_values(|s: String| s@)
}

/// The strings joined with `sep` between consecutive ones.
pub fn join_strings(parts: &Vec<String>, sep: &str) -> (out: String)
    ensures
        out@ == join_with(views(parts@), sep@),
{
    let ghost vs = views(parts@);
    let n = parts.len();
    let mut out = String::new();
    let mut i: usize = 0;
    while i < n
        invariant
            n == parts@.len(),
            vs == views(parts@),
            i <= n,
            out@ == join_with(vs.take(i as int), sep@),
        decreases n - i,
    {
        if i > 0 {
            out.append(sep);
        }
        out.append(parts[i].as_str());
        proof {
            assert(vs.take(i + 1).drop_last() =~= vs.take(i as int));
            if i == 0 {
                assert(out@ =~= vs.take(1)[0]);
            }
        }
        i = i + 1;
    }
    proof {
        assert(vs.take(n as int) =~= vs);
    }
    out
}

/// The strings joined with `sep` between consecutive ones.
pub fn join_strs(parts: &Vec<&str>, sep: &str) -> (out: String)
    ensures
        out@ == join_with(parts@.map_values(|p: &str| p@), sep@),
{
    let ghost views = parts@.map_values(|p: &str| p@);
    let n = parts.len();
    let mut out = String::new();
    let mut i: usize = 0;
    while i < n
        invariant
            n == parts@.len(),
            views == parts@.map_values(|p: &str| p@),
            i <= n,
            out@ == join_with(views.take(i as int), sep@),
        decreases n - i,
    {
        if i > 0 {
            out.append(sep);
        }
        out.append(parts[i]);
        proof {
            assert(views.take(i + 1).drop_last() =~= views.take(i as int));
            if i == 0 {
                assert(out@ =~= views.take(1)[0]);
            }
        }
        i = i + 1;
    }
    proof {
        assert(views.take(n as int) =~= views);
    }
    out
}

/// The decimal digits of `n`, most significant first, without leading zeros.
pub open spec fn decimal(n: nat) -> Seq<char>
    decreases n,
{
    if n < 10 {
        seq!["0123456789"@[n as int]]
    } else {
        decimal(n / 10) + seq!["0123456789"@[(n % 10) as int]]
    }
}

/// `n` written in decimal.
pub fn decimal_string(n: u64) -> (out: String)
    ensures
        out@ == decimal(n as nat),
    decreases n,
{
    proof {
        reveal_strlit("0123456789");
    }
    let digits = "0123456789";
    if n < 10 {
        let d = n as usize;
        String::from_str(digits.substring_char(d, d + 1))
    } else {
        let mut out = decimal_string(n / 10);
        let d = (n % 10) as usize;
        out.append(digits.substring_char(d, d + 1));
        out
    }
}

} // verus!
