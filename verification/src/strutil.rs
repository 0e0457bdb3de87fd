//! String helpers over character sequences: equality, substring search,
//! ASCII case folding, name splitting and decimal rendering.
use vstd::prelude::*;
use vstd::string::StringExecFns;

verus! {

/// Whether `needle` occurs in `hay` as a contiguous run.
pub open spec fn seq_contains(hay: Seq<char>, needle: Seq<char>) -> bool {
    exists|i: int| 0 <= i <= hay.len() - needle.len() && #[trigger] hay.subrange(i, i + needle.len()) == needle
}

/// ASCII case folding of one character: 'A'..='Z' become 'a'..='z'.
pub open spec fn ascii_lower_char(c: char) -> char {
    if 'A' <= c <= 'Z' {
        ((c as u32) + 32) as char
    } else {
        c
    }
}

pub open spec fn ascii_lower(s: Seq<char>) -> Seq<char> {
    s.map_values(|c: char| ascii_lower_char(c))
}

/// The full Unicode lowercase mapping of a string.
pub uninterp spec fn lowercase(s: Seq<char>) -> Seq<char>;

/// Unicode lowercase of `s` (std `str::to_lowercase`).
#[verifier::external_body]
pub(crate) fn to_lowercase(s: &str) -> (r: String)
    ensures
        r@ == lowercase(s@),
{
    s.to_lowercase()
}

pub fn str_eq(a: &str, b: &str) -> (r: bool)
    ensures
        r == (a@ == b@),
{
    let n = a.unicode_len();
    let m = b.unicode_len();
    if n != m {
        return false;
    }
    let mut i: usize = 0;
    while i < n
        invariant
            i <= n,
            n == a@.len(),
            m == b@.len(),
            n == m,
            forall|j: int| 0 <= j < i ==> a@[j] == b@[j],
        decreases n - i,
    {
        if a.get_char(i) != b.get_char(i) {
            return false;
        }
        i = i + 1;
    }
    assert(a@ =~= b@);
    true
}

/// Whether `c`, folded to ASCII lowercase when `fold` is set, equals `d`.
fn char_matches(c: char, d: char, fold: bool) -> (r: bool)
    ensures
        r == ((if fold { ascii_lower_char(c) } else { c }) == d),
{
    let lc: u32 = if fold && 'A' <= c && c <= 'Z' {
        (c as u32) + 32
    } else {
        c as u32
    };
    lc == (d as u32)
}

/// Whether `needle` occurs at position `at` of `hay`, after folding `hay`
/// to ASCII lowercase when `fold` is set.
fn matches_at(hay: &str, n: usize, needle: &str, m: usize, at: usize, fold: bool) -> (r: bool)
    requires
        n == hay@.len(),
        m == needle@.len(),
        at + m <= n,
    ensures
        r == ((if fold { ascii_lower(hay@) } else { hay@ }).subrange(at as int, at + m) == needle@),
{
    let ghost h = if fold { ascii_lower(hay@) } else { hay@ };
    let mut j: usize = 0;
    while j < m
        invariant
            j <= m,
            n == hay@.len(),
            m == needle@.len(),
            at + m <= n,
            h == (if fold { ascii_lower(hay@) } else { hay@ }),
            forall|k: int| 0 <= k < j ==> h[at + k] == needle@[k],
        decreases m - j,
    {
        let c = hay.get_char(at + j);
        if !char_matches(c, needle.get_char(j), fold) {
            assert(h.subrange(at as int, at + m)[j as int] != needle@[j as int]);
            return false;
        }
        j = j + 1;
    }
    assert(h.subrange(at as int, at + m) =~= needle@);
    true
}

fn contains_impl(hay: &str, needle: &str, fold: bool) -> (r: bool)
    ensures
        r == seq_contains(if fold { ascii_lower(hay@) } else { hay@ }, needle@),
{
    let ghost h = if fold { ascii_lower(hay@) } else { hay@ };
    let n = hay.unicode_len();
    let m = needle.unicode_len();
    assert(h.len() == n);
    if m > n {
        return false;
    }
    let mut at: usize = 0;
    loop
        invariant
            n == hay@.len(),
            m == needle@.len(),
            m <= n,
            at <= n - m,
            h == (if fold { ascii_lower(hay@) } else { hay@ }),
            h.len() == n,
            forall|i: int| 0 <= i < at ==> #[trigger] h.subrange(i, i + m) != needle@,
        decreases n - m - at,
    {
        if matches_at(hay, n, needle, m, at, fold) {
            return true;
        }
        if at == n - m {
            return false;
        }
        at = at + 1;
    }
}

/// Whether `needle` occurs in `hay`.
pub fn str_contains(hay: &str, needle: &str) -> (r: bool)
    ensures
        r == seq_contains(hay@, needle@),
{
    contains_impl(hay, needle, false)
}

/// Whether `needle` occurs in the ASCII-lowercased `hay`.
pub fn str_contains_ascii_lower(hay: &str, needle: &str) -> (r: bool)
    ensures
        r == seq_contains(ascii_lower(hay@), needle@),
{
    contains_impl(hay, needle, true)
}

/// Whether `s` starts with `prefix`.
pub fn str_starts_with(s: &str, prefix: &str) -> (r: bool)
    ensures
        r == (prefix@.len() <= s@.len() && s@.subrange(0, prefix@.len() as int) == prefix@),
{
    let n = s.unicode_len();
    let m = prefix.unicode_len();
    if m > n {
        return false;
    }
    matches_at(s, n, prefix, m, 0, false)
}


// ---------------------------------------------------------------------------
// Decimal rendering
// ---------------------------------------------------------------------------
pub open spec fn digit_char(d: nat) -> char {
    ((48 + d) as u32) as char
}

/// The decimal digits of `n`, most significant first, without leading
/// zeros ("0" for zero).
pub open spec fn decimal(n: nat) -> Seq<char>
    decreases n,
{
    if n < 10 {
        seq![digit_char(n)]
    } else {
        decimal(n / 10).push(digit_char(n % 10))
    }
}

fn digit_str(d: u64) -> (r: &'static str)
    requires
        d < 10,
    ensures
        r@ == seq![digit_char(d as nat)],
{
    proof {
        reveal_strlit("0");
        reveal_strlit("1");
        reveal_strlit("2");
        reveal_strlit("3");
        reveal_strlit("4");
        reveal_strlit("5");
        reveal_strlit("6");
        reveal_strlit("7");
        reveal_strlit("8");
        reveal_strlit("9");
    }
    let r = if d == 0 {
        "0"
    } else if d == 1 {
        "1"
    } else if d == 2 {
        "2"
    } else if d == 3 {
        "3"
    } else if d == 4 {
        "4"
    } else if d == 5 {
        "5"
    } else if d == 6 {
        "6"
    } else if d == 7 {
        "7"
    } else if d == 8 {
        "8"
    } else {
        "9"
    };
    assert(r@ =~= seq![digit_char(d as nat)]);
    r
}

/// The decimal rendering of `n`.
pub fn u64_to_decimal(n: u64) -> (r: String)
    ensures
        r@ == decimal(n as nat),
    decreases n,
{
    if n < 10 {
        digit_str(n).to_owned()
    } else {
        let mut s = u64_to_decimal(n / 10);
        s.append(digit_str(n % 10));
        s
    }
}

/// `a` followed by `b`.
pub fn concat_str(a: &str, b: &str) -> (r: String)
    ensures
        r@ == a@ + b@,
{
    let mut s = a.to_owned();
    s.append(b);
    s
}
// ---------------------------------------------------------------------------
// Joining
// ---------------------------------------------------------------------------
/// The views of a sequence of strings.
pub open spec fn strings_view(v: Seq<String>) -> Seq<Seq<char>> {
    v.map_values(|s: String| s@)
}

/// `parts` joined with `sep` between neighbours.
pub open spec fn join_with(parts: Seq<Seq<char>>, sep: Seq<char>) -> Seq<char>
    decreases parts.len(),
{
    if parts.len() == 0 {
        Seq::empty()
    } else if parts.len() == 1 {
        parts[0]
    } else {
        join_with(parts.drop_last(), sep) + sep + parts.last()
    }
}

/// The strings of `parts` joined with `sep` between neighbours.
pub fn join_strings(parts: &Vec<String>, sep: &str) -> (r: String)
    ensures
        r@ == join_with(strings_view(parts@), sep@),
{
    let ghost pv = strings_view(parts@);
    let mut out = String::new();
    let mut i: usize = 0;
    proof {
        assert(pv.take(0) =~= Seq::<Seq<char>>::empty());
    }
    while i < parts.len()
        invariant
            i <= parts.len(),
            pv == strings_view(parts@),
            pv.len() == parts.len(),
            out@ == join_with(pv.take(i as int), sep@),
        decreases parts.len() - i,
    {
        proof {
            assert(pv.take(i + 1).drop_last() =~= pv.take(i as int));
            assert(pv.take(i + 1).last() == parts@[i as int]@);
        }
        if i > 0 {
            out.append(sep);
        }
        out.append(parts[i].as_str());
        proof {
            if i == 0 {
                assert(out@ =~= pv.take(1)[0]);
            } else {
                assert(out@ =~= join_with(pv.take(i as int), sep@) + sep@ + pv.take(i + 1).last());
            }
        }
        i = i + 1;
    }
    proof {
        assert(pv.take(parts.len() as int) =~= pv);
    }
    out
}
} // verus!
