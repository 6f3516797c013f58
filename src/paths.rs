//! The sender's per-path decisions: whether a file is compressed before it is
//! sent, and the name under which it is announced.
//!
//! Paths are handled as text. Both `/` and `\` separate components, so that a
//! path written for either family of systems is read the same way everywhere;
//! runs of separators count as one.

use vstd::prelude::*;
use vstd::string::*;

verus! {

pub open spec fn is_sep(c: char) -> bool {
    c == '/' || c == '\\'
}

/// The first index at or after `i` that holds no separator (or the end).
pub open spec fn skip_seps(s: Seq<char>, i: int) -> int
    decreases s.len() - i,
{
    if 0 <= i < s.len() && is_sep(s[i]) {
        skip_seps(s, i + 1)
    } else {
        i
    }
}

/// The first index at or after `i` that holds a separator (or the end): the
/// end of the component that starts at `i`.
pub open spec fn comp_end(s: Seq<char>, i: int) -> int
    decreases s.len() - i,
{
    if 0 <= i < s.len() && !is_sep(s[i]) {
        comp_end(s, i + 1)
    } else {
        i
    }
}

pub proof fn lemma_skip_seps(s: Seq<char>, i: int)
    requires
        0 <= i <= s.len(),
    ensures
        i <= skip_seps(s, i) <= s.len(),
        skip_seps(s, i) < s.len() ==> !is_sep(s[skip_seps(s, i)]),
    decreases s.len() - i,
{
    if i < s.len() && is_sep(s[i]) {
        lemma_skip_seps(s, i + 1);
    }
}

pub proof fn lemma_comp_end(s: Seq<char>, i: int)
    requires
        0 <= i <= s.len(),
    ensures
        i <= comp_end(s, i) <= s.len(),
        comp_end(s, i) < s.len() ==> is_sep(s[comp_end(s, i)]),
    decreases s.len() - i,
{
    if i < s.len() && !is_sep(s[i]) {
        lemma_comp_end(s, i + 1);
    }
}

/// Matches the components of `b` from index `bi` on, one by one, against
/// those of `p` from index `pi` on. When all of `b`'s match, the index in `p`
/// where the rest of `p` starts; `None` when one differs or `p` has too few.
pub open spec fn strip_from(p: Seq<char>, b: Seq<char>, pi: int, bi: int) -> Option<int>
    decreases b.len() - bi,
    when 0 <= pi <= p.len() && 0 <= bi <= b.len()
{
    let bj = skip_seps(b, bi);
    let pj = skip_seps(p, pi);
    proof {
        lemma_skip_seps(b, bi);
        lemma_skip_seps(p, pi);
    }
    if bj >= b.len() {
        Some(pj)
    } else {
        let be = comp_end(b, bj);
        let pe = comp_end(p, pj);
        proof {
            lemma_comp_end(b, bj);
            lemma_comp_end(p, pj);
        }
        if b.subrange(bj, be) == p.subrange(pj, pe) {
            strip_from(p, b, pe, be)
        } else {
            None
        }
    }
}

/// Whether the path starts at a root.
pub open spec fn rooted(s: Seq<char>) -> bool {
    s.len() > 0 && is_sep(s[0])
}

/// What is left of `p` after the components of `b`, when `b` is a prefix of
/// `p` component by component (both rooted or neither).
pub open spec fn relative_rest(p: Seq<char>, b: Seq<char>) -> Option<Seq<char>> {
    if rooted(p) == rooted(b) {
        match strip_from(p, b, 0, 0) {
            Some(k) => Some(p.subrange(k, p.len() as int)),
            None => None,
        }
    } else {
        None
    }
}

/// The separator the path itself uses first; `/` when it has none.
pub open spec fn separator(p: Seq<char>) -> char {
    let k = comp_end(p, 0);
    if k < p.len() {
        p[k]
    } else {
        '/'
    }
}

/// The name announced for the file at `p`: relative to `base` as `./rest`
/// when `base` is a prefix of `p`, else `p` itself; with `.gz` appended when
/// the file is compressed.
pub open spec fn textual_path(p: Seq<char>, base: Option<Seq<char>>, compress: bool) -> Seq<
    char,
> {
    let shown = match base {
        Some(b) => match relative_rest(p, b) {
            Some(rest) => seq!['.', separator(p)] + rest,
            None => p,
        },
        None => p,
    };
    if compress {
        shown + ".gz"@
    } else {
        shown
    }
}

/// The index where the last component of `p[..i]` starts.
pub open spec fn name_start(p: Seq<char>, i: int) -> int
    decreases i,
{
    if i <= 0 {
        0
    } else if is_sep(p[i - 1]) {
        i
    } else {
        name_start(p, i - 1)
    }
}

/// The index of the last `.` in `p[lo..i]`, or `lo - 1` when there is none.
pub open spec fn last_dot(p: Seq<char>, lo: int, i: int) -> int
    decreases i - lo,
{
    if i <= lo {
        lo - 1
    } else if p[i - 1] == '.' {
        i - 1
    } else {
        last_dot(p, lo, i - 1)
    }
}

/// The extension of the file named by `p`: what follows the last `.` of its
/// last component, unless that `.` opens the component.
pub open spec fn extension(p: Seq<char>) -> Option<Seq<char>> {
    let s = name_start(p, p.len() as int);
    let d = last_dot(p, s, p.len() as int);
    if d > s {
        Some(p.subrange(d + 1, p.len() as int))
    } else {
        None
    }
}

/// Extensions of formats that are compressed already.
pub open spec fn is_compressed_extension(e: Seq<char>) -> bool {
    e == "zip"@ || e == "gz"@ || e == "bz2"@ || e == "xz"@ || e == "zst"@ || e == "tgz"@
        || e == "tbz2"@ || e == "txz"@ || e == "ioym"@ || e == "br"@
}

pub open spec fn compressible(p: Seq<char>) -> bool {
    !(extension(p) matches Some(e) && is_compressed_extension(e))
}

fn chars_of(s: &str) -> (v: Vec<char>)
    ensures
        v@ == s@,
{
    let n = s.unicode_len();
    let mut v: Vec<char> = Vec::new();
    let mut i: usize = 0;
    while i < n
        invariant
            n == s@.len(),
            i <= n,
            v@ == s@.subrange(0, i as int),
        decreases n - i,
    {
        v.push(s.get_char(i));
        i = i + 1;
        assert(v@ == s@.subrange(0, i as int));
    }
    assert(v@ == s@);
    v
}

fn same_text(a: &str, b: &str) -> (r: bool)
    ensures
        r == (a@ == b@),
{
    let n = a.unicode_len();
    if n != b.unicode_len() {
        return false;
    }
    let mut i: usize = 0;
    while i < n
        invariant
            n == a@.len() == b@.len(),
            i <= n,
            a@.subrange(0, i as int) == b@.subrange(0, i as int),
        decreases n - i,
    {
        if a.get_char(i) != b.get_char(i) {
            assert(a@[i as int] != b@[i as int]);
            return false;
        }
        i = i + 1;
        assert(a@.subrange(0, i as int) == a@.subrange(0, i as int - 1).push(a@[i - 1]));
        assert(b@.subrange(0, i as int) == b@.subrange(0, i as int - 1).push(b@[i - 1]));
    }
    assert(a@ == a@.subrange(0, n as int));
    assert(b@ == b@.subrange(0, n as int));
    true
}

fn is_sep_char(c: char) -> (r: bool)
    ensures
        r == is_sep(c),
{
    c == '/' || c == '\\'
}

fn skip_seps_at(s: &Vec<char>, i: usize) -> (j: usize)
    requires
        i <= s@.len(),
    ensures
        j as int == skip_seps(s@, i as int),
{
    let mut j = i;
    while j < s.len() && is_sep_char(s[j])
        invariant
            i <= j <= s@.len(),
            skip_seps(s@, j as int) == skip_seps(s@, i as int),
        decreases s@.len() - j,
    {
        j = j + 1;
    }
    j
}

fn comp_end_at(s: &Vec<char>, i: usize) -> (j: usize)
    requires
        i <= s@.len(),
    ensures
        j as int == comp_end(s@, i as int),
{
    let mut j = i;
    while j < s.len() && !is_sep_char(s[j])
        invariant
            i <= j <= s@.len(),
            comp_end(s@, j as int) == comp_end(s@, i as int),
        decreases s@.len() - j,
    {
        j = j + 1;
    }
    j
}

fn same_range(a: &Vec<char>, alo: usize, ahi: usize, b: &Vec<char>, blo: usize, bhi: usize) -> (r:
    bool)
    requires
        alo <= ahi <= a@.len(),
        blo <= bhi <= b@.len(),
    ensures
        r == (a@.subrange(alo as int, ahi as int) == b@.subrange(blo as int, bhi as int)),
{
    if ahi - alo != bhi - blo {
        assert(a@.subrange(alo as int, ahi as int).len() != b@.subrange(blo as int, bhi as int).len());
        return false;
    }
    let n = ahi - alo;
    let mut k: usize = 0;
    while k < n
        invariant
            n == ahi - alo == bhi - blo,
            alo <= ahi <= a@.len(),
            blo <= bhi <= b@.len(),
            k <= n,
            forall|t: int|
                0 <= t < k ==> #[trigger] a@.subrange(alo as int, ahi as int)[t] == b@.subrange(
                    blo as int,
                    bhi as int,
                )[t],
        decreases n - k,
    {
        if a[alo + k] != b[blo + k] {
            assert(a@.subrange(alo as int, ahi as int)[k as int] != b@.subrange(
                blo as int,
                bhi as int,
            )[k as int]);
            return false;
        }
        k = k + 1;
    }
    assert(a@.subrange(alo as int, ahi as int) =~= b@.subrange(blo as int, bhi as int));
    true
}

/// The index in `p` where the part of `p` below `b` starts, if `b` is a
/// prefix of `p` component by component.
fn strip_index(p: &Vec<char>, b: &Vec<char>) -> (r: Option<usize>)
    ensures
        r matches Some(k) ==> k <= p@.len(),
        r == (match strip_from(p@, b@, 0, 0) {
            Some(k) => Some(k as usize),
            None => None::<usize>,
        }),
        strip_from(p@, b@, 0, 0) matches Some(k) ==> 0 <= k <= p@.len(),
{
    let mut pi: usize = 0;
    let mut bi: usize = 0;
    loop
        invariant
            pi <= p@.len(),
            bi <= b@.len(),
            strip_from(p@, b@, pi as int, bi as int) == strip_from(p@, b@, 0, 0),
        decreases b@.len() - bi,
    {
        let bj = skip_seps_at(b, bi);
        let pj = skip_seps_at(p, pi);
        proof {
            lemma_skip_seps(b@, bi as int);
            lemma_skip_seps(p@, pi as int);
        }
        if bj >= b.len() {
            return Some(pj);
        }
        let be = comp_end_at(b, bj);
        let pe = comp_end_at(p, pj);
        proof {
            lemma_comp_end(b@, bj as int);
            lemma_comp_end(p@, pj as int);
        }
        if !same_range(b, bj, be, p, pj, pe) {
            return None;
        }
        pi = pe;
        bi = be;
    }
}

/// Whether the file at `path` is compressed before it is sent: every file
/// but those whose extension names a compressed format.
pub fn should_compress_file(path: &str) -> (r: bool)
    ensures
        r == compressible(path@),
{
    let p = chars_of(path);
    let n = p.len();
    let mut s: usize = n;
    while s > 0 && !is_sep_char(p[s - 1])
        invariant
            s <= n == p@.len(),
            name_start(p@, s as int) == name_start(p@, n as int),
        decreases s,
    {
        s = s - 1;
    }
    let mut d: usize = n;
    while d > s && p[d - 1] != '.'
        invariant
            s <= d <= n == p@.len(),
            last_dot(p@, s as int, d as int) == last_dot(p@, s as int, n as int),
        decreases d,
    {
        d = d - 1;
    }
    // `d` is one past the last dot, or `s` when there is none.
    if d <= s || d - s <= 1 {
        return true;
    }
    let ext = path.substring_char(d, n);
    assert(ext@ == path@.subrange(d as int, n as int));
    let compressed = same_text(ext, "zip") || same_text(ext, "gz") || same_text(ext, "bz2")
        || same_text(ext, "xz") || same_text(ext, "zst") || same_text(ext, "tgz") || same_text(
        ext,
        "tbz2",
    ) || same_text(ext, "txz") || same_text(ext, "ioym") || same_text(ext, "br");
    !compressed
}

/// The name under which the file at `path` is announced: relative to
/// `base_path` (as `./rest`) when the base is a prefix of the path, else the
/// path unchanged; with `.gz` appended when the file is compressed.
pub fn get_textual_path(path: &str, base_path: Option<&str>, should_compress: bool) -> (r: String)
    ensures
        r@ == textual_path(
            path@,
            match base_path {
                Some(b) => Some(b@),
                None => None,
            },
            should_compress,
        ),
{
    let p = chars_of(path);
    let n = p.len();
    let mut shown = String::from_str(path);
    if let Some(base) = base_path {
        let b = chars_of(base);
        let rooted_p = n > 0 && is_sep_char(p[0]);
        let rooted_b = b.len() > 0 && is_sep_char(b[0]);
        if rooted_p == rooted_b {
            if let Some(k) = strip_index(&p, &b) {
                let sep_at = comp_end_at(&p, 0);
                proof {
                    lemma_comp_end(p@, 0);
                }
                let sep = if sep_at < n {
                    path.substring_char(sep_at, sep_at + 1)
                } else {
                    "/"
                };
                proof {
                    reveal_strlit("/");
                    assert(sep@ == seq![separator(path@)]);
                }
                let rest = path.substring_char(k, n);
                shown = String::from_str(".").concat(sep).concat(rest);
                proof {
                    reveal_strlit(".");
                    assert(shown@ == seq!['.', separator(path@)] + path@.subrange(
                        k as int,
                        n as int,
                    ));
                }
            }
        }
    }
    if should_compress {
        shown = shown.concat(".gz");
    }
    shown
}

} // verus!
