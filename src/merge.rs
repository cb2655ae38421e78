use vstd::prelude::*;

verus! {

/// Why an existing target file cannot take the generated regions.
#[derive(PartialEq, Eq, Structural, Clone, Copy, Debug)]
pub enum MergeError {
    /// The shared region's start marker, or an end marker after it, is missing.
    MissingSharedRegion,
    /// The surface region's start marker, or an end marker after it, is missing.
    MissingSurfaceRegion,
    /// The two regions share text, so neither can be replaced alone.
    RegionsOverlap,
}

pub open spec fn shared_start() -> Seq<char> {
    "// #region \"cxx-bridge-generated-shared\""@
}

pub open spec fn surface_start() -> Seq<char> {
    "// #region \"cxx-bridge-generated-rust\""@
}

pub open spec fn region_end() -> Seq<char> {
    "// #endregion"@
}

pub open spec fn line_break() -> Seq<char> {
    "\n"@
}

/// What a merge puts between the end of a start-marker line and the indentation of the
/// end-marker line.
pub open spec fn interior(buffer: Seq<char>) -> Seq<char> {
    "\n"@ + buffer + "\n"@
}

pub open spec fn matches_at(s: Seq<char>, p: Seq<char>, i: int) -> bool {
    0 <= i && i + p.len() <= s.len() && s.subrange(i, i + p.len()) == p
}

/// The first position at or after `from` where `p` occurs in `s`.
pub open spec fn find_from(s: Seq<char>, p: Seq<char>, from: int) -> Option<int>
    decreases s.len() + 1 - from,
{
    if from < 0 || from + p.len() > s.len() {
        None
    } else if matches_at(s, p, from) {
        Some(from)
    } else {
        find_from(s, p, from + 1)
    }
}

/// Where the start-marker line ends: the first line break at or after `after` and before
/// the end marker at `j`, or `j` itself when there is none.
pub open spec fn line_end(s: Seq<char>, after: int, j: int) -> int {
    match find_from(s, line_break(), after) {
        Some(k) => if k < j {
            k
        } else {
            j
        },
        None => j,
    }
}

pub open spec fn is_indent(c: char) -> bool {
    c == ' ' || c == '\t'
}

/// Where the indentation before position `j` begins, not going below `lo`.
pub open spec fn indent_start(s: Seq<char>, lo: int, j: int) -> int
    decreases j - lo,
{
    if lo < j && 0 < j <= s.len() && is_indent(s[j - 1]) {
        indent_start(s, lo, j - 1)
    } else {
        j
    }
}

/// A region located in a text.
pub struct Region {
    /// Where its start marker begins.
    pub start: int,
    /// Where the replaced interior begins: the end of the start-marker line.
    pub inner_start: int,
    /// Where the replaced interior ends: the start of the end-marker line's indentation.
    pub inner_end: int,
    /// Just past its end marker.
    pub end: int,
}

/// The first region opened by `start` and closed by the first end marker after it.
pub open spec fn locate(s: Seq<char>, start: Seq<char>) -> Option<Region> {
    match find_from(s, start, 0) {
        None => None,
        Some(i) => match find_from(s, region_end(), i + start.len()) {
            None => None,
            Some(j) => {
                let p = line_end(s, i + start.len(), j);
                Some(
                    Region {
                        start: i,
                        inner_start: p,
                        inner_end: indent_start(s, p, j),
                        end: j + region_end().len(),
                    },
                )
            },
        },
    }
}

/// The text with the interiors of two regions, `r1` standing before `r2`, replaced.
pub open spec fn splice(s: Seq<char>, r1: Region, t1: Seq<char>, r2: Region, t2: Seq<char>) -> Seq<
    char,
> {
    s.take(r1.inner_start) + t1 + s.subrange(r1.inner_end, r2.inner_start) + t2 + s.skip(
        r2.inner_end,
    )
}

/// The file text after installing both buffers into their regions. Both regions are located
/// in the file as it is; everything outside their interiors, the marker lines included, is
/// kept.
pub open spec fn merged(content: Seq<char>, shared: Seq<char>, surface: Seq<char>) -> Result<
    Seq<char>,
    MergeError,
> {
    match locate(content, shared_start()) {
        None => Err(MergeError::MissingSharedRegion),
        Some(r1) => match locate(content, surface_start()) {
            None => Err(MergeError::MissingSurfaceRegion),
            Some(r2) => if r1.end <= r2.start {
                Ok(splice(content, r1, interior(shared), r2, interior(surface)))
            } else if r2.end <= r1.start {
                Ok(splice(content, r2, interior(surface), r1, interior(shared)))
            } else {
                Err(MergeError::RegionsOverlap)
            },
        },
    }
}

/// What `find_from` returns is the first occurrence at or after `from`.
pub proof fn lemma_find_from(s: Seq<char>, p: Seq<char>, from: int)
    requires
        0 <= from,
    ensures
        match find_from(s, p, from) {
            Some(i) => from <= i && matches_at(s, p, i) && forall|k: int|
                from <= k < i ==> !matches_at(s, p, k),
            None => forall|k: int| from <= k ==> !matches_at(s, p, k),
        },
    decreases s.len() + 1 - from,
{
    if from < 0 || from + p.len() > s.len() {
        assert forall|k: int| from <= k implies !matches_at(s, p, k) by {}
    } else if matches_at(s, p, from) {
    } else {
        lemma_find_from(s, p, from + 1);
    }
}

/// The first occurrence at or after `from` is what `find_from` returns.
pub proof fn lemma_find_first(s: Seq<char>, p: Seq<char>, from: int, i: int)
    requires
        0 <= from <= i,
        matches_at(s, p, i),
        forall|k: int| from <= k < i ==> !matches_at(s, p, k),
    ensures
        find_from(s, p, from) == Some(i),
    decreases i - from,
{
    if from < i {
        lemma_find_first(s, p, from + 1, i);
    }
}

/// An occurrence found in `s` is found in every text that starts with `s`.
pub proof fn lemma_find_in_prefix(s: Seq<char>, t: Seq<char>, p: Seq<char>, from: int)
    requires
        0 <= from,
        find_from(s, p, from) is Some,
        s.len() <= t.len(),
        t.take(s.len() as int) == s,
    ensures
        find_from(t, p, from) == find_from(s, p, from),
{
    lemma_find_from(s, p, from);
    let i = find_from(s, p, from)->0;
    assert(t.subrange(i, i + p.len()) =~= s.subrange(i, i + p.len()));
    assert forall|k: int| from <= k < i implies !matches_at(t, p, k) by {
        assert(!matches_at(s, p, k));
        if k + p.len() <= t.len() {
            assert(t.subrange(k, k + p.len()) =~= s.subrange(k, k + p.len()));
        }
    }
    lemma_find_first(t, p, from, i);
}

/// Searching past a leading text `x` is searching the rest, shifted by its length.
pub proof fn lemma_find_shift(x: Seq<char>, y: Seq<char>, p: Seq<char>, from: int)
    requires
        0 <= from,
    ensures
        find_from(x + y, p, x.len() + from) == match find_from(y, p, from) {
            Some(i) => Some(x.len() + i),
            None => None,
        },
    decreases y.len() + 1 - from,
{
    let s = x + y;
    let k = x.len() + from;
    if from + p.len() > y.len() {
    } else {
        assert(s.subrange(k, k + p.len()) =~= y.subrange(from, from + p.len()));
        if !matches_at(y, p, from) {
            lemma_find_shift(x, y, p, from + 1);
        }
    }
}

pub open spec fn merged_view(r: Result<String, MergeError>) -> Result<Seq<char>, MergeError> {
    match r {
        Ok(s) => Ok(s@),
        Err(e) => Err(e),
    }
}

/// The characters of `s`, in order.
pub fn chars_of(s: &str) -> (r: Vec<char>)
    ensures
        r@ == s@,
{
    let mut r: Vec<char> = Vec::new();
    for c in it: s.chars()
        invariant
            r@ == it.seq().take(it.index() as int),
    {
        r.push(c);
    }
    r
}

/// Whether `p` occurs in `s` at position `i`.
pub fn occurs_at(s: &Vec<char>, p: &Vec<char>, i: usize) -> (r: bool)
    requires
        i + p@.len() <= s@.len(),
    ensures
        r == matches_at(s@, p@, i as int),
{
    let n = p.len();
    let m = s.len();
    for j in 0..n
        invariant
            n == p@.len(),
            m == s@.len(),
            i + n <= s@.len(),
            forall|k: int| 0 <= k < j ==> s@[i + k] == p@[k],
    {
        if s[i + j] != p[j] {
            assert(s@.subrange(i as int, i + n)[j as int] != p@[j as int]);
            return false;
        }
    }
    assert(s@.subrange(i as int, i + n) =~= p@);
    true
}

/// The first position at or after `from` where `p` occurs in `s`.
pub fn find_marker(s: &Vec<char>, p: &Vec<char>, from: usize) -> (r: Option<usize>)
    requires
        from <= s@.len(),
    ensures
        match r {
            Some(i) => find_from(s@, p@, from as int) == Some(i as int),
            None => find_from(s@, p@, from as int) is None,
        },
{
    let mut i = from;
    while p.len() <= s.len() - i
        invariant
            from <= i <= s@.len(),
            find_from(s@, p@, from as int) == find_from(s@, p@, i as int),
        decreases s@.len() - i,
    {
        if occurs_at(s, p, i) {
            return Some(i);
        }
        assert(p@.len() > 0) by {
            if p@.len() == 0 {
                assert(s@.subrange(i as int, i as int) =~= p@);
            }
        }
        i = i + 1;
    }
    None
}

/// Where the indentation before position `j` begins, not going below `lo`.
pub fn find_indent_start(s: &Vec<char>, lo: usize, j: usize) -> (r: usize)
    requires
        lo <= j <= s@.len(),
    ensures
        r as int == indent_start(s@, lo as int, j as int),
        lo <= r <= j,
{
    let mut k = j;
    while k > lo && (s[k - 1] == ' ' || s[k - 1] == '\t')
        invariant
            lo <= k <= j <= s@.len(),
            indent_start(s@, lo as int, j as int) == indent_start(s@, lo as int, k as int),
        decreases k,
    {
        k = k - 1;
    }
    k
}

/// Locates the first region that `start` opens, with the positions of its interior.
pub fn locate_region(s: &Vec<char>, start: &Vec<char>) -> (r: Option<(usize, usize, usize, usize)>)
    ensures
        match r {
            Some((a, b, c, d)) => locate(s@, start@) == Some(
                Region { start: a as int, inner_start: b as int, inner_end: c as int, end: d as int },
            ) && a <= b <= c <= d <= s@.len(),
            None => locate(s@, start@) is None,
        },
{
    let end = chars_of("// #endregion");
    let nl = chars_of("\n");
    let len = s.len();
    proof {
        lemma_find_from(s@, start@, 0);
    }
    let i = match find_marker(s, start, 0) {
        None => return None,
        Some(i) => i,
    };
    let after = i + start.len();
    proof {
        lemma_find_from(s@, end@, after as int);
    }
    let j = match find_marker(s, &end, after) {
        None => return None,
        Some(j) => j,
    };
    proof {
        lemma_find_from(s@, nl@, after as int);
    }
    let p = match find_marker(s, &nl, after) {
        Some(k) => if k < j {
            k
        } else {
            j
        },
        None => j,
    };
    let q = find_indent_start(s, p, j);
    Some((i, p, q, j + end.len()))
}

fn push_range(out: &mut String, content: &str, from: usize, to: usize)
    requires
        from <= to <= content@.len(),
    ensures
        final(out)@ == old(out)@ + content@.subrange(from as int, to as int),
{
    out.append(content.substring_char(from, to));
}

/// Installs the two buffers into the regions of an existing target file's text.
pub fn merge_regions(content: &str, shared: &str, surface: &str) -> (r: Result<String, MergeError>)
    ensures
        merged_view(r) == merged(content@, shared@, surface@),
{
    let s = chars_of(content);
    let ss = chars_of("// #region \"cxx-bridge-generated-shared\"");
    let rs = chars_of("// #region \"cxx-bridge-generated-rust\"");
    let (a1, b1, c1, d1) = match locate_region(&s, &ss) {
        None => return Err(MergeError::MissingSharedRegion),
        Some(r) => r,
    };
    let (a2, b2, c2, d2) = match locate_region(&s, &rs) {
        None => return Err(MergeError::MissingSurfaceRegion),
        Some(r) => r,
    };
    let ghost r1 = Region { start: a1 as int, inner_start: b1 as int, inner_end: c1 as int, end: d1 as int };
    let ghost r2 = Region { start: a2 as int, inner_start: b2 as int, inner_end: c2 as int, end: d2 as int };
    if d1 <= a2 {
        let out = splice_text(content, b1, c1, shared, b2, c2, surface);
        assert(out@ =~= splice(content@, r1, interior(shared@), r2, interior(surface@)));
        Ok(out)
    } else if d2 <= a1 {
        let out = splice_text(content, b2, c2, surface, b1, c1, shared);
        assert(out@ =~= splice(content@, r2, interior(surface@), r1, interior(shared@)));
        Ok(out)
    } else {
        Err(MergeError::RegionsOverlap)
    }
}

fn splice_text(
    content: &str,
    from1: usize,
    to1: usize,
    text1: &str,
    from2: usize,
    to2: usize,
    text2: &str,
) -> (r: String)
    requires
        from1 <= to1 <= from2 <= to2 <= content@.len(),
    ensures
        r@ == content@.take(from1 as int) + ("\n"@ + text1@ + "\n"@) + content@.subrange(
            to1 as int,
            from2 as int,
        ) + ("\n"@ + text2@ + "\n"@) + content@.skip(to2 as int),
{
    let mut out = String::new();
    push_range(&mut out, content, 0, from1);
    out.append("\n");
    out.append(text1);
    out.append("\n");
    push_range(&mut out, content, to1, from2);
    out.append("\n");
    out.append(text2);
    out.append("\n");
    push_range(&mut out, content, to2, content.unicode_len());
    assert(content@.subrange(0, from1 as int) =~= content@.take(from1 as int));
    assert(content@.subrange(to2 as int, content@.len() as int) =~= content@.skip(to2 as int));
    assert(out@ =~= content@.take(from1 as int) + ("\n"@ + text1@ + "\n"@) + content@.subrange(
        to1 as int,
        from2 as int,
    ) + ("\n"@ + text2@ + "\n"@) + content@.skip(to2 as int));
    out
}

} // verus!
