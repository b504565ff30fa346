//! Character-level text handling shared by every sysfs/procfs parser.

use vstd::prelude::*;
use vstd::std_specs::iter::IteratorSpec;

verus! {

broadcast use vstd::string::group_string_axioms;

/// The characters of a string slice, in order.
pub fn chars_of(s: &str) -> (out: Vec<char>)
    ensures
        out@ == s@,
{
    let mut out: Vec<char> = Vec::new();
    let mut it = s.chars();
    let ghost all = s@;
    loop
        invariant
            all == s@,
            it.remaining() == all.skip(out@.len() as int),
            out@ == all.take(out@.len() as int),
            out@.len() <= all.len(),
            it.obeys_prophetic_iter_laws(),
        ensures
            out@ == all,
        decreases all.len() - out@.len(),
    {
        match it.next() {
            Some(c) => {
                out.push(c);
            },
            None => {
                assert(all.take(out@.len() as int) =~= all);
                break;
            },
        }
    }
    out
}

/// `String::push`: appends one character. Claimed: the string's characters
/// afterwards are the old ones followed by `c`.
#[verifier::external_body]
pub(crate) fn push_char(s: &mut String, c: char)
    ensures
        final(s)@ == old(s)@.push(c),
{
    s.push(c);
}

/// A string holding exactly the given characters.
pub fn string_of(cs: &[char]) -> (out: String)
    ensures
        out@ == cs@,
{
    let mut out = String::new();
    let mut i: usize = 0;
    while i < cs.len()
        invariant
            i <= cs@.len(),
            out@ == cs@.take(i as int),
        decreases cs@.len() - i,
    {
        push_char(&mut out, cs[i]);
        assert(cs@.take(i as int).push(cs@[i as int]) =~= cs@.take(i + 1));
        i = i + 1;
    }
    assert(cs@.take(cs@.len() as int) =~= cs@);
    out
}

// ---------------------------------------------------------------------------
// Character classes
// ---------------------------------------------------------------------------

/// Unicode `White_Space`, the set that `str::trim` and `split_whitespace` use.
pub open spec fn is_ws(c: char) -> bool {
    let u = c as u32;
    (0x09 <= u && u <= 0x0d) || u == 0x20 || u == 0x85 || u == 0xa0 || u == 0x1680
        || (0x2000 <= u && u <= 0x200a) || u == 0x2028 || u == 0x2029 || u == 0x202f
        || u == 0x205f || u == 0x3000
}

pub fn is_whitespace(c: char) -> (b: bool)
    ensures
        b == is_ws(c),
{
    let u = c as u32;
    (0x09 <= u && u <= 0x0d) || u == 0x20 || u == 0x85 || u == 0xa0 || u == 0x1680
        || (0x2000 <= u && u <= 0x200a) || u == 0x2028 || u == 0x2029 || u == 0x202f
        || u == 0x205f || u == 0x3000
}

/// ASCII lower-casing of one character (`char::to_ascii_lowercase`).
pub open spec fn lower(c: char) -> char {
    if 'A' <= c && c <= 'Z' {
        ((c as u32) + 32) as char
    } else {
        c
    }
}

/// ASCII upper-casing of one character (`char::to_ascii_uppercase`).
pub open spec fn upper(c: char) -> char {
    if 'a' <= c && c <= 'z' {
        ((c as u32) - 32) as char
    } else {
        c
    }
}

pub open spec fn lower_seq(s: Seq<char>) -> Seq<char> {
    s.map_values(|c: char| lower(c))
}

pub open spec fn upper_seq(s: Seq<char>) -> Seq<char> {
    s.map_values(|c: char| upper(c))
}

pub fn to_lower(c: char) -> (r: char)
    ensures
        r == lower(c),
{
    if 'A' <= c && c <= 'Z' {
        let b: u8 = (c as u32) as u8;
        ((b + 32) as char)
    } else {
        c
    }
}

pub fn to_upper(c: char) -> (r: char)
    ensures
        r == upper(c),
{
    if 'a' <= c && c <= 'z' {
        let b: u8 = (c as u32) as u8;
        ((b - 32) as char)
    } else {
        c
    }
}

pub fn lower_all(s: &Vec<char>) -> (out: Vec<char>)
    ensures
        out@ == lower_seq(s@),
{
    let mut out: Vec<char> = Vec::new();
    let mut i: usize = 0;
    while i < s.len()
        invariant
            i <= s@.len(),
            out@ =~= lower_seq(s@.take(i as int)),
        decreases s@.len() - i,
    {
        let c = to_lower(s[i]);
        out.push(c);
        i = i + 1;
        assert(out@ =~= lower_seq(s@.take(i as int)));
    }
    assert(s@.take(s@.len() as int) =~= s@);
    out
}

pub fn upper_all(s: &Vec<char>) -> (out: Vec<char>)
    ensures
        out@ == upper_seq(s@),
{
    let mut out: Vec<char> = Vec::new();
    let mut i: usize = 0;
    while i < s.len()
        invariant
            i <= s@.len(),
            out@ =~= upper_seq(s@.take(i as int)),
        decreases s@.len() - i,
    {
        let c = to_upper(s[i]);
        out.push(c);
        i = i + 1;
        assert(out@ =~= upper_seq(s@.take(i as int)));
    }
    assert(s@.take(s@.len() as int) =~= s@);
    out
}


// ---------------------------------------------------------------------------
// Trimming
// ---------------------------------------------------------------------------

/// `str::trim_start`: drop leading white space.
pub open spec fn trim_start(s: Seq<char>) -> Seq<char>
    decreases s.len(),
{
    if s.len() > 0 && is_ws(s[0]) {
        trim_start(s.drop_first())
    } else {
        s
    }
}

/// `str::trim_end`: drop trailing white space.
pub open spec fn trim_end(s: Seq<char>) -> Seq<char>
    decreases s.len(),
{
    if s.len() > 0 && is_ws(s.last()) {
        trim_end(s.drop_last())
    } else {
        s
    }
}

/// `str::trim`.
pub open spec fn trim(s: Seq<char>) -> Seq<char> {
    trim_end(trim_start(s))
}

pub proof fn lemma_trim_start_len(s: Seq<char>)
    ensures
        trim_start(s).len() <= s.len(),
        trim_start(s).len() > 0 ==> !is_ws(trim_start(s)[0]),
    decreases s.len(),
{
    if s.len() > 0 && is_ws(s[0]) {
        lemma_trim_start_len(s.drop_first());
    }
}

proof fn lemma_trim_end_prefix(s: Seq<char>)
    ensures
        trim_end(s).len() <= s.len(),
        trim_end(s) == s.take(trim_end(s).len() as int),
        trim_end(s).len() > 0 ==> !is_ws(trim_end(s).last()),
    decreases s.len(),
{
    if s.len() > 0 && is_ws(s.last()) {
        lemma_trim_end_prefix(s.drop_last());
        assert(s.drop_last().take(trim_end(s).len() as int) =~= s.take(trim_end(s).len() as int));
    } else {
        assert(s.take(s.len() as int) =~= s);
    }
}

/// Trimming twice is trimming once.
pub proof fn lemma_trim_idempotent(s: Seq<char>)
    ensures
        trim(trim(s)) == trim(s),
{
    let z = trim_start(s);
    let t = trim_end(z);
    lemma_trim_start_len(s);
    lemma_trim_end_prefix(z);
    if t.len() > 0 {
        assert(t[0] == z[0]);
        assert(trim_start(t) == t);
        assert(trim_end(t) == t);
    } else {
        assert(trim_start(t) == t);
        assert(trim_end(t) == t);
    }
}

/// Index of the first character at or after `from` that is not white space.
fn skip_ws(s: &Vec<char>, from: usize) -> (j: usize)
    requires
        from <= s@.len(),
    ensures
        from <= j <= s@.len(),
        trim_start(s@.skip(from as int)) == s@.skip(j as int),
        forall|k: int| from <= k < j ==> is_ws(#[trigger] s@[k]),
{
    let mut j = from;
    while j < s.len() && is_whitespace(s[j])
        invariant
            from <= j <= s@.len(),
            trim_start(s@.skip(from as int)) == trim_start(s@.skip(j as int)),
            forall|k: int| from <= k < j ==> is_ws(#[trigger] s@[k]),
        decreases s@.len() - j,
    {
        assert(s@.skip(j as int).drop_first() =~= s@.skip(j + 1));
        j = j + 1;
    }
    j
}

/// The bounds `[a, b)` of `s` that `str::trim` keeps.
pub fn trim_bounds(s: &Vec<char>) -> (r: (usize, usize))
    ensures
        r.0 <= r.1 <= s@.len(),
        s@.subrange(r.0 as int, r.1 as int) == trim(s@),
{
    let a = skip_ws(s, 0);
    assert(s@.skip(0) =~= s@);
    let mut b = s.len();
    while b > a && is_whitespace(s[b - 1])
        invariant
            a <= b <= s@.len(),
            trim_end(s@.subrange(a as int, s@.len() as int)) == trim_end(s@.subrange(a as int, b as int)),
        decreases b,
    {
        assert(s@.subrange(a as int, b as int).drop_last() =~= s@.subrange(a as int, b - 1));
        b = b - 1;
    }
    assert(s@.skip(a as int) =~= s@.subrange(a as int, s@.len() as int));
    (a, b)
}

/// The characters of `s` with white space trimmed from both ends.
pub fn trimmed(s: &Vec<char>) -> (out: Vec<char>)
    ensures
        out@ == trim(s@),
{
    let (a, b) = trim_bounds(s);
    slice_vec(s, a, b)
}

/// A copy of `s[a..b]`.
pub fn slice_vec(s: &Vec<char>, a: usize, b: usize) -> (out: Vec<char>)
    requires
        a <= b <= s@.len(),
    ensures
        out@ == s@.subrange(a as int, b as int),
{
    let mut out: Vec<char> = Vec::new();
    let mut i = a;
    while i < b
        invariant
            a <= i <= b,
            b <= s@.len(),
            out@ == s@.subrange(a as int, i as int),
        decreases b - i,
    {
        out.push(s[i]);
        i = i + 1;
        assert(out@ =~= s@.subrange(a as int, i as int));
    }
    out
}

// ---------------------------------------------------------------------------
// Comparison and search
// ---------------------------------------------------------------------------

/// Character-wise equality of two character vectors.
pub fn seq_eq(a: &Vec<char>, b: &[char]) -> (r: bool)
    ensures
        r == (a@ == b@),
{
    if a.len() != b.len() {
        return false;
    }
    let mut i: usize = 0;
    while i < a.len()
        invariant
            a@.len() == b@.len(),
            i <= a@.len(),
            forall|k: int| 0 <= k < i ==> a@[k] == b@[k],
        decreases a@.len() - i,
    {
        if a[i] != b[i] {
            return false;
        }
        i = i + 1;
    }
    assert(a@ =~= b@);
    true
}

/// Character-wise equality of `a` with the characters of `b`.
pub fn eq_str(a: &Vec<char>, b: &str) -> (r: bool)
    ensures
        r == (a@ == b@),
{
    let bc = chars_of(b);
    seq_eq(a, bc.as_slice())
}

/// `str::starts_with` on character sequences.
pub open spec fn starts_with(s: Seq<char>, p: Seq<char>) -> bool {
    p.len() <= s.len() && s.take(p.len() as int) == p
}

pub open spec fn match_at(s: Seq<char>, p: Seq<char>, i: int) -> bool {
    0 <= i && i + p.len() <= s.len() && s.subrange(i, i + p.len()) == p
}

/// Does `p` occur in `s` at index `i`?
pub fn matches_at(s: &Vec<char>, p: &Vec<char>, i: usize) -> (r: bool)
    ensures
        r == match_at(s@, p@, i as int),
{
    if i > s.len() || p.len() > s.len() - i {
        return false;
    }
    let mut k: usize = 0;
    while k < p.len()
        invariant
            i + p@.len() <= s@.len(),
            s@.len() == s.len(),
            k <= p@.len(),
            forall|m: int| 0 <= m < k ==> s@[i + m] == p@[m],
        decreases p@.len() - k,
    {
        if s[i + k] != p[k] {
            assert(s@.subrange(i as int, i + p@.len())[k as int] != p@[k as int]);
            return false;
        }
        k = k + 1;
    }
    assert(s@.subrange(i as int, i + p@.len()) =~= p@);
    true
}

pub fn has_prefix(s: &Vec<char>, p: &Vec<char>) -> (r: bool)
    ensures
        r == starts_with(s@, p@),
{
    let r = matches_at(s, p, 0);
    assert(s@.take(p@.len() as int) =~= s@.subrange(0, p@.len() as int));
    r
}

/// `str::contains` on character sequences.
pub open spec fn contains(s: Seq<char>, p: Seq<char>) -> bool {
    exists|i: int| match_at(s, p, i)
}

pub fn contains_seq(s: &Vec<char>, p: &Vec<char>) -> (r: bool)
    ensures
        r == contains(s@, p@),
{
    if p.len() > s.len() {
        return false;
    }
    let last = s.len() - p.len();
    let mut i: usize = 0;
    loop
        invariant
            p@.len() <= s@.len(),
            last == s@.len() - p@.len(),
            i <= last,
            forall|k: int| 0 <= k < i ==> !match_at(s@, p@, k),
        decreases last - i,
    {
        if matches_at(s, p, i) {
            return true;
        }
        if i == last {
            assert forall|k: int| !match_at(s@, p@, k) by {
                if match_at(s@, p@, k) {
                    assert(k < i || k == i || k > last);
                }
            }
            return false;
        }
        i = i + 1;
    }
}

pub fn contains_str(s: &Vec<char>, p: &str) -> (r: bool)
    ensures
        r == contains(s@, p@),
{
    let pc = chars_of(p);
    contains_seq(s, &pc)
}


// ---------------------------------------------------------------------------
// Splitting
// ---------------------------------------------------------------------------

/// Index of the leftmost occurrence of `p` in `s`, or -1.
pub open spec fn find(s: Seq<char>, p: Seq<char>) -> int
    decreases s.len(),
{
    if p.len() > s.len() {
        -1
    } else if s.take(p.len() as int) == p {
        0
    } else if s.len() == 0 {
        -1
    } else {
        let r = find(s.drop_first(), p);
        if r < 0 {
            -1
        } else {
            r + 1
        }
    }
}

pub proof fn lemma_find(s: Seq<char>, p: Seq<char>)
    ensures
        find(s, p) == -1 || (0 <= find(s, p) && match_at(s, p, find(s, p))),
        forall|k: int| 0 <= k < find(s, p) ==> !match_at(s, p, k),
        find(s, p) == -1 ==> forall|k: int| !match_at(s, p, k),
    decreases s.len(),
{
    if p.len() > s.len() {
    } else if s.take(p.len() as int) == p {
        assert(s.subrange(0, p.len() as int) =~= s.take(p.len() as int));
    } else if s.len() == 0 {
        assert(s.take(p.len() as int) =~= p);
    } else {
        let t = s.drop_first();
        lemma_find(t, p);
        assert(!match_at(s, p, 0)) by {
            assert(s.subrange(0, p.len() as int) =~= s.take(p.len() as int));
        }
        assert forall|k: int| 1 <= k && match_at(s, p, k) implies match_at(t, p, k - 1) by {
            assert(t.subrange(k - 1, k - 1 + p.len()) =~= s.subrange(k, k + p.len()));
        }
        assert forall|k: int| 0 <= k && match_at(t, p, k) implies match_at(s, p, k + 1) by {
            assert(t.subrange(k, k + p.len()) =~= s.subrange(k + 1, k + 1 + p.len()));
        }
    }
}

/// The unique leftmost match characterises `find`.
pub proof fn lemma_find_is(s: Seq<char>, p: Seq<char>, i: int)
    requires
        i == -1 ==> forall|k: int| !match_at(s, p, k),
        i != -1 ==> match_at(s, p, i) && forall|k: int| 0 <= k < i ==> !match_at(s, p, k),
    ensures
        find(s, p) == i,
{
    lemma_find(s, p);
    let f = find(s, p);
    if f != i {
        if f == -1 {
            assert(!match_at(s, p, i));
        } else if i == -1 {
            assert(!match_at(s, p, f));
        } else if f < i {
            assert(!match_at(s, p, f));
        } else {
            assert(!match_at(s, p, i));
        }
    }
}

/// Exec `find` from position `from`, answering in coordinates of `s`.
pub fn find_from(s: &Vec<char>, p: &Vec<char>, from: usize) -> (r: Option<usize>)
    requires
        from <= s@.len(),
        p@.len() > 0,
    ensures
        match r {
            Some(i) => from <= i && find(s@.skip(from as int), p@) == i - from,
            None => find(s@.skip(from as int), p@) == -1,
        },
{
    let ghost t = s@.skip(from as int);
    let mut i = from;
    while i < s.len()
        invariant
            from <= i <= s@.len(),
            p@.len() > 0,
            t == s@.skip(from as int),
            forall|k: int| 0 <= k < i - from ==> !match_at(t, p@, k),
        decreases s@.len() - i,
    {
        if matches_at(s, p, i) {
            proof {
                assert(t.subrange(i - from, i - from + p@.len()) =~= s@.subrange(i as int, i + p@.len()));
                lemma_find_is(t, p@, i - from);
            }
            return Some(i);
        }
        proof {
            if match_at(t, p@, i - from) {
                assert(t.subrange(i - from, i - from + p@.len()) =~= s@.subrange(i as int, i + p@.len()));
            }
        }
        i = i + 1;
    }
    proof {
        assert forall|k: int| !match_at(t, p@, k) by {
            if match_at(t, p@, k) {
                if k >= i - from {
                    assert(k + p@.len() <= t.len());
                    assert(false);
                }
            }
        }
        lemma_find_is(t, p@, -1);
    }
    None
}

/// `str::split` with a non-empty pattern.
pub open spec fn split(s: Seq<char>, p: Seq<char>) -> Seq<Seq<char>>
    decreases s.len(),
{
    let k = find(s, p);
    if p.len() > 0 && 0 <= k && k + p.len() <= s.len() {
        seq![s.take(k)] + split(s.skip(k + p.len()), p)
    } else {
        seq![s]
    }
}

pub open spec fn views(v: Seq<Vec<char>>) -> Seq<Seq<char>> {
    v.map_values(|x: Vec<char>| x@)
}

/// The pieces of `s` between occurrences of the non-empty pattern `p`.
pub fn split_vec(s: &Vec<char>, p: &Vec<char>) -> (out: Vec<Vec<char>>)
    requires
        p@.len() > 0,
    ensures
        views(out@) == split(s@, p@),
{
    let mut out: Vec<Vec<char>> = Vec::new();
    let mut pos: usize = 0;
    assert(s@.skip(0) =~= s@);
    loop
        invariant
            pos <= s@.len(),
            p@.len() > 0,
            views(out@) + split(s@.skip(pos as int), p@) == split(s@, p@),
        decreases s@.len() - pos,
    {
        let ghost t = s@.skip(pos as int);
        match find_from(s, p, pos) {
            Some(i) => {
                proof { lemma_find(t, p@); }
                assert(i + p@.len() <= s@.len());
                let piece = slice_vec(s, pos, i);
                assert(piece@ =~= t.take(i - pos));
                assert(t.skip(i - pos + p@.len()) =~= s@.skip(i + p@.len()));
                let ghost before = views(out@);
                out.push(piece);
                assert(views(out@) =~= before.push(piece@));
                assert(split(t, p@) == seq![t.take(i - pos)] + split(t.skip(i - pos + p@.len()), p@));
                assert(views(out@) + split(s@.skip(i + p@.len()), p@) =~= before + split(t, p@));
                let plen = p.len();
                let slen = s.len();
                assert(i + plen <= slen);
                pos = i + plen;
            },
            None => {
                let piece = slice_vec(s, pos, s.len());
                assert(piece@ =~= t);
                let ghost before = views(out@);
                out.push(piece);
                assert(views(out@) =~= before.push(piece@));
                assert(split(t, p@) == seq![t]);
                assert(views(out@) =~= before + split(t, p@));
                return out;
            },
        }
    }
}


/// One trailing carriage return removed.
pub open spec fn strip_cr(x: Seq<char>) -> Seq<char> {
    if x.len() > 0 && x.last() == '\r' {
        x.drop_last()
    } else {
        x
    }
}

/// `str::lines`: pieces ended by `\n` (a `\r` right before it is dropped); a
/// final line ending is optional and yields no empty last line.
pub open spec fn lines(s: Seq<char>) -> Seq<Seq<char>>
    decreases s.len(),
{
    if s.len() == 0 {
        seq![]
    } else {
        let k = find(s, seq!['\n']);
        if 0 <= k && k < s.len() {
            seq![strip_cr(s.take(k))] + lines(s.skip(k + 1))
        } else {
            seq![s]
        }
    }
}

pub fn lines_vec(s: &Vec<char>) -> (out: Vec<Vec<char>>)
    ensures
        views(out@) == lines(s@),
{
    let mut nl: Vec<char> = Vec::new();
    nl.push('\n');
    assert(nl@ =~= seq!['\n']);
    let mut out: Vec<Vec<char>> = Vec::new();
    let mut pos: usize = 0;
    assert(s@.skip(0) =~= s@);
    loop
        invariant
            pos <= s@.len(),
            nl@ == seq!['\n'],
            views(out@) + lines(s@.skip(pos as int)) == lines(s@),
        decreases s@.len() - pos,
    {
        let ghost t = s@.skip(pos as int);
        if pos == s.len() {
            assert(t.len() == 0);
            assert(views(out@) =~= views(out@) + lines(t));
            return out;
        }
        match find_from(s, &nl, pos) {
            Some(i) => {
                proof { lemma_find(t, nl@); }
                let slen = s.len();
                assert(i + 1 <= slen);
                let mut end = i;
                if end > pos && s[end - 1] == '\r' {
                    end = end - 1;
                }
                let piece = slice_vec(s, pos, end);
                assert(piece@ =~= strip_cr(t.take(i - pos)));
                assert(t.skip(i - pos + 1) =~= s@.skip(i + 1));
                let ghost before = views(out@);
                out.push(piece);
                assert(views(out@) =~= before.push(piece@));
                assert(lines(t) == seq![strip_cr(t.take(i - pos))] + lines(t.skip(i - pos + 1)));
                assert(views(out@) + lines(s@.skip(i + 1)) =~= before + lines(t));
                pos = i + 1;
            },
            None => {
                let piece = slice_vec(s, pos, s.len());
                assert(piece@ =~= t);
                let ghost before = views(out@);
                out.push(piece);
                assert(views(out@) =~= before.push(piece@));
                assert(lines(t) == seq![t]);
                assert(views(out@) =~= before + lines(t));
                return out;
            },
        }
    }
}

/// Length of the leading run of non-white-space characters.
pub open spec fn word_len(s: Seq<char>) -> int
    decreases s.len(),
{
    if s.len() == 0 || is_ws(s[0]) {
        0
    } else {
        1 + word_len(s.drop_first())
    }
}

pub proof fn lemma_word_len(s: Seq<char>, m: int)
    requires
        0 <= m <= s.len(),
        forall|i: int| 0 <= i < m ==> !is_ws(#[trigger] s[i]),
        m == s.len() || is_ws(s[m]),
    ensures
        word_len(s) == m,
    decreases s.len(),
{
    if m > 0 {
        let t = s.drop_first();
        assert forall|i: int| 0 <= i < m - 1 implies !is_ws(#[trigger] t[i]) by {
            assert(t[i] == s[i + 1]);
        }
        if m < s.len() {
            assert(t[m - 1] == s[m]);
        }
        lemma_word_len(t, m - 1);
    }
}

/// `str::split_whitespace`.
pub open spec fn split_ws(s: Seq<char>) -> Seq<Seq<char>>
    decreases s.len(),
{
    let t = trim_start(s);
    let k = word_len(t);
    if t.len() == 0 {
        seq![]
    } else if 0 < k && k <= t.len() && t.len() <= s.len() {
        seq![t.take(k)] + split_ws(t.skip(k))
    } else {
        seq![]
    }
}

pub fn split_ws_vec(s: &Vec<char>) -> (out: Vec<Vec<char>>)
    ensures
        views(out@) == split_ws(s@),
{
    let mut out: Vec<Vec<char>> = Vec::new();
    let mut pos: usize = 0;
    assert(s@.skip(0) =~= s@);
    loop
        invariant
            pos <= s@.len(),
            views(out@) + split_ws(s@.skip(pos as int)) == split_ws(s@),
        decreases s@.len() - pos,
    {
        let ghost t0 = s@.skip(pos as int);
        let j = skip_ws(s, pos);
        let ghost t = s@.skip(j as int);
        proof { lemma_trim_start_len(t0); }
        if j == s.len() {
            assert(t.len() == 0);
            assert(split_ws(t0) == Seq::<Seq<char>>::empty());
            assert(views(out@) =~= views(out@) + split_ws(t0));
            return out;
        }
        let mut k = j;
        while k < s.len() && !is_whitespace(s[k])
            invariant
                j <= k <= s@.len(),
                forall|i: int| j <= i < k ==> !is_ws(#[trigger] s@[i]),
            decreases s@.len() - k,
        {
            k = k + 1;
        }
        proof {
            assert forall|i: int| 0 <= i < k - j implies !is_ws(#[trigger] t[i]) by {
                assert(t[i] == s@[j + i]);
            }
            if k < s@.len() {
                assert(t[k - j] == s@[k as int]);
            }
            lemma_word_len(t, k - j);
            assert(!is_ws(t[0]));
        }
        let piece = slice_vec(s, j, k);
        assert(piece@ =~= t.take(k - j));
        assert(t.skip(k - j) =~= s@.skip(k as int));
        let ghost before = views(out@);
        out.push(piece);
        assert(views(out@) =~= before.push(piece@));
        assert(split_ws(t0) == seq![t.take(k - j)] + split_ws(t.skip(k - j)));
        assert(views(out@) + split_ws(s@.skip(k as int)) =~= before + split_ws(t0));
        pos = k;
    }
}

/// Pieces joined with a separator (`[&str]::join`).
pub open spec fn join(ps: Seq<Seq<char>>, sep: Seq<char>) -> Seq<char>
    decreases ps.len(),
{
    if ps.len() == 0 {
        seq![]
    } else if ps.len() == 1 {
        ps[0]
    } else {
        join(ps.drop_last(), sep) + sep + ps.last()
    }
}

pub open spec fn string_views(v: Seq<String>) -> Seq<Seq<char>> {
    v.map_values(|x: String| x@)
}

/// Appends `other` to `s`.
pub fn append_str(s: &mut String, other: &str)
    ensures
        final(s)@ == old(s)@ + other@,
{
    let cs = chars_of(other);
    let mut i: usize = 0;
    while i < cs.len()
        invariant
            i <= cs@.len(),
            cs@ == other@,
            s@ == old(s)@ + cs@.take(i as int),
        decreases cs@.len() - i,
    {
        push_char(s, cs[i]);
        assert(cs@.take(i as int).push(cs@[i as int]) =~= cs@.take(i + 1));
        i = i + 1;
    }
    assert(cs@.take(cs@.len() as int) =~= cs@);
}

/// The strings of `v` joined with `sep`.
pub fn join_strings(v: &[String], sep: &str) -> (out: String)
    ensures
        out@ == join(string_views(v@), sep@),
{
    let mut out = String::new();
    let mut i: usize = 0;
    while i < v.len()
        invariant
            i <= v@.len(),
            out@ == join(string_views(v@.take(i as int)), sep@),
        decreases v@.len() - i,
    {
        let ghost before = string_views(v@.take(i as int));
        if i > 0 {
            append_str(&mut out, sep);
        }
        append_str(&mut out, v[i].as_str());
        let ghost after = string_views(v@.take(i + 1));
        assert(after.drop_last() =~= before);
        assert(after.last() == v@[i as int]@);
        if i == 0 {
            assert(out@ =~= join(after, sep@));
        }
        i = i + 1;
    }
    assert(v@.take(v@.len() as int) =~= v@);
    out
}


// ---------------------------------------------------------------------------
// Numbers
// ---------------------------------------------------------------------------

pub open spec fn is_digit(c: char) -> bool {
    '0' <= c && c <= '9'
}

pub open spec fn digit_value(c: char) -> nat {
    ((c as u32) - 48) as nat
}

/// The value of a string of decimal digits.
pub open spec fn dec_value(s: Seq<char>) -> nat
    decreases s.len(),
{
    if s.len() == 0 {
        0
    } else {
        dec_value(s.drop_last()) * 10 + digit_value(s.last())
    }
}

pub open spec fn all_digits(s: Seq<char>) -> bool {
    forall|i: int| 0 <= i < s.len() ==> is_digit(#[trigger] s[i])
}

/// The digits `FromStr` reads for an unsigned integer: a leading `+` is skipped.
pub open spec fn unsigned_digits(s: Seq<char>) -> Seq<char> {
    if s.len() > 0 && s[0] == '+' {
        s.drop_first()
    } else {
        s
    }
}

/// The value std's `FromStr` reads from `s` for an unsigned type, before the
/// range check: an optional `+` then at least one decimal digit.
pub open spec fn parse_nat(s: Seq<char>) -> Option<nat> {
    let d = unsigned_digits(s);
    if d.len() > 0 && all_digits(d) {
        Some(dec_value(d))
    } else {
        None
    }
}

/// `s.parse::<T>()` for an unsigned `T` whose largest value is `max`.
pub open spec fn parse_uint(s: Seq<char>, max: nat) -> Option<nat> {
    match parse_nat(s) {
        Some(v) => if v <= max {
            Some(v)
        } else {
            None
        },
        None => None,
    }
}

/// The value std's `FromStr` reads from `s` for a signed type, before the range
/// check: an optional `+` or `-` then at least one decimal digit.
pub open spec fn parse_int(s: Seq<char>) -> Option<int> {
    if s.len() > 0 && s[0] == '-' {
        let d = s.drop_first();
        if d.len() > 0 && all_digits(d) {
            Some(-(dec_value(d) as int))
        } else {
            None
        }
    } else {
        match parse_nat(s) {
            Some(v) => Some(v as int),
            None => None,
        }
    }
}

pub proof fn lemma_dec_value_prefix(s: Seq<char>, i: int)
    requires
        0 <= i <= s.len(),
    ensures
        dec_value(s.take(i)) <= dec_value(s),
    decreases s.len(),
{
    if i < s.len() {
        assert(s.drop_last().take(i) =~= s.take(i));
        lemma_dec_value_prefix(s.drop_last(), i);
    } else {
        assert(s.take(i) =~= s);
    }
}

/// Decimal digits, as a `u64` when their value fits.
fn digits_u64(s: &Vec<char>, from: usize) -> (r: Option<u64>)
    requires
        from <= s@.len(),
    ensures
        match r {
            Some(v) => all_digits(s@.skip(from as int)) && dec_value(s@.skip(from as int)) == v,
            None => !all_digits(s@.skip(from as int)) || dec_value(s@.skip(from as int)) > u64::MAX,
        },
{
    let ghost d = s@.skip(from as int);
    let mut acc: u64 = 0;
    let mut i = from;
    while i < s.len()
        invariant
            from <= i <= s@.len(),
            d == s@.skip(from as int),
            all_digits(d.take(i - from)),
            dec_value(d.take(i - from)) == acc,
        decreases s@.len() - i,
    {
        let c = s[i];
        if !('0' <= c && c <= '9') {
            assert(!is_digit(d[i - from]));
            return None;
        }
        let dv: u64 = ((c as u32) - 48) as u64;
        assert(d.take(i - from + 1).drop_last() =~= d.take(i - from));
        assert(d.take(i - from + 1).last() == c);
        if acc > (u64::MAX - dv) / 10 {
            proof {
                assert(dec_value(d.take(i - from + 1)) == acc * 10 + dv);
                assert(acc * 10 + dv > u64::MAX) by (nonlinear_arith)
                    requires acc > (u64::MAX - dv) / 10, dv <= 9;
                lemma_dec_value_prefix(d, i - from + 1);
            }
            return None;
        }
        assert(acc * 10 + dv <= u64::MAX) by (nonlinear_arith)
            requires acc <= (u64::MAX - dv) / 10, dv <= 9;
        acc = acc * 10 + dv;
        i = i + 1;
        assert forall|k: int| 0 <= k < i - from implies is_digit(#[trigger] d.take(i - from)[k]) by {
            if k < i - from - 1 {
                assert(d.take(i - from)[k] == d.take(i - from - 1)[k]);
            }
        }
    }
    assert(d.take(i - from) =~= d);
    Some(acc)
}

/// `s.parse::<u64>()` over characters.
pub fn parse_u64_chars(s: &Vec<char>) -> (r: Option<u64>)
    ensures
        r == (match parse_uint(s@, u64::MAX as nat) {
            Some(v) => Some(v as u64),
            None => None,
        }),
{
    let from: usize = if s.len() > 0 && s[0] == '+' { 1 } else { 0 };
    assert(unsigned_digits(s@) =~= s@.skip(from as int));
    if from == s.len() {
        return None;
    }
    digits_u64(s, from)
}

/// `s.parse::<T>()` for an unsigned `T` whose largest value is `max`.
pub fn parse_uint_upto(s: &Vec<char>, max: u64) -> (r: Option<u64>)
    ensures
        r == (match parse_uint(s@, max as nat) {
            Some(v) => Some(v as u64),
            None => None,
        }),
{
    match parse_u64_chars(s) {
        Some(v) => if v <= max {
            Some(v)
        } else {
            None
        },
        None => None,
    }
}

/// `s.parse::<u8>()`.
pub open spec fn parse_u8_spec(s: Seq<char>) -> Option<u8> {
    match parse_uint(s, 255) {
        Some(v) => Some(v as u8),
        None => None,
    }
}

/// `s.parse::<u8>()`.
pub fn parse_u8(s: &str) -> (r: Option<u8>)
    ensures
        r == parse_u8_spec(s@),
{
    let cs = chars_of(s);
    match parse_uint_upto(&cs, 255) {
        Some(v) => Some(v as u8),
        None => None,
    }
}

/// `s.parse::<i64>()` over characters.
pub fn parse_i64_chars(s: &Vec<char>) -> (r: Option<i64>)
    ensures
        r == (match parse_int(s@) {
            Some(v) => if i64::MIN <= v && v <= i64::MAX {
                Some(v as i64)
            } else {
                None
            },
            None => None,
        }),
{
    if s.len() > 0 && s[0] == '-' {
        assert(s@.drop_first() =~= s@.skip(1));
        if s.len() == 1 {
            return None;
        }
        match digits_u64(s, 1) {
            Some(m) => {
                if m <= 9223372036854775807u64 {
                    let v: i64 = m as i64;
                    Some(-v)
                } else if m == 9223372036854775808u64 {
                    Some(i64::MIN)
                } else {
                    None
                }
            },
            None => None,
        }
    } else {
        let from: usize = if s.len() > 0 && s[0] == '+' { 1 } else { 0 };
        assert(unsigned_digits(s@) =~= s@.skip(from as int));
        if from == s.len() {
            return None;
        }
        match digits_u64(s, from) {
            Some(m) => {
                if m <= 9223372036854775807u64 {
                    Some(m as i64)
                } else {
                    None
                }
            },
            None => None,
        }
    }
}

pub open spec fn is_hex(c: char) -> bool {
    is_digit(c) || ('a' <= c && c <= 'f') || ('A' <= c && c <= 'F')
}

pub open spec fn hex_digit_value(c: char) -> nat {
    if is_digit(c) {
        digit_value(c)
    } else if 'a' <= c && c <= 'f' {
        ((c as u32) - 87) as nat
    } else {
        ((c as u32) - 55) as nat
    }
}

pub open spec fn hex_value(s: Seq<char>) -> nat
    decreases s.len(),
{
    if s.len() == 0 {
        0
    } else {
        hex_value(s.drop_last()) * 16 + hex_digit_value(s.last())
    }
}

pub open spec fn all_hex(s: Seq<char>) -> bool {
    forall|i: int| 0 <= i < s.len() ==> is_hex(#[trigger] s[i])
}

/// `u64::from_str_radix(s, 16)` before the range check.
pub open spec fn parse_hex_nat(s: Seq<char>) -> Option<nat> {
    let d = unsigned_digits(s);
    if d.len() > 0 && all_hex(d) {
        Some(hex_value(d))
    } else {
        None
    }
}

pub fn is_hex_char(c: char) -> (b: bool)
    ensures
        b == is_hex(c),
{
    ('0' <= c && c <= '9') || ('a' <= c && c <= 'f') || ('A' <= c && c <= 'F')
}

pub fn hex_digit(c: char) -> (v: u8)
    requires
        is_hex(c),
    ensures
        v == hex_digit_value(c),
        v < 16,
{
    if '0' <= c && c <= '9' {
        ((c as u32) - 48) as u8
    } else if 'a' <= c && c <= 'f' {
        ((c as u32) - 87) as u8
    } else {
        ((c as u32) - 55) as u8
    }
}

pub proof fn lemma_hex_value_prefix(s: Seq<char>, i: int)
    requires
        0 <= i <= s.len(),
    ensures
        hex_value(s.take(i)) <= hex_value(s),
    decreases s.len(),
{
    if i < s.len() {
        assert(s.drop_last().take(i) =~= s.take(i));
        lemma_hex_value_prefix(s.drop_last(), i);
    } else {
        assert(s.take(i) =~= s);
    }
}

/// `u64::from_str_radix(s, 16)` over characters.
pub fn parse_hex_u64_chars(s: &Vec<char>) -> (r: Option<u64>)
    ensures
        r == (match parse_hex_nat(s@) {
            Some(v) => if v <= u64::MAX {
                Some(v as u64)
            } else {
                None
            },
            None => None,
        }),
{
    let from: usize = if s.len() > 0 && s[0] == '+' { 1 } else { 0 };
    let ghost d = s@.skip(from as int);
    assert(unsigned_digits(s@) =~= d);
    if from == s.len() {
        return None;
    }
    let mut acc: u64 = 0;
    let mut i = from;
    while i < s.len()
        invariant
            from <= i <= s@.len(),
            d == s@.skip(from as int),
            unsigned_digits(s@) == d,
            from < s@.len(),
            all_hex(d.take(i - from)),
            hex_value(d.take(i - from)) == acc,
        decreases s@.len() - i,
    {
        let c = s[i];
        if !is_hex_char(c) {
            assert(!is_hex(d[i - from]));
            return None;
        }
        let dv: u64 = hex_digit(c) as u64;
        assert(d.take(i - from + 1).drop_last() =~= d.take(i - from));
        assert(d.take(i - from + 1).last() == c);
        if acc > (u64::MAX - dv) / 16 {
            proof {
                assert(hex_value(d.take(i - from + 1)) == acc * 16 + dv);
                assert(acc * 16 + dv > u64::MAX) by (nonlinear_arith)
                    requires acc > (u64::MAX - dv) / 16, dv <= 15;
                lemma_hex_value_prefix(d, i - from + 1);
            }
            return None;
        }
        assert(acc * 16 + dv <= u64::MAX) by (nonlinear_arith)
            requires acc <= (u64::MAX - dv) / 16, dv <= 15;
        acc = acc * 16 + dv;
        i = i + 1;
        assert forall|k: int| 0 <= k < i - from implies is_hex(#[trigger] d.take(i - from)[k]) by {
            if k < i - from - 1 {
                assert(d.take(i - from)[k] == d.take(i - from - 1)[k]);
            }
        }
    }
    assert(d.take(i - from) =~= d);
    Some(acc)
}

// ---------------------------------------------------------------------------
// Formatting
// ---------------------------------------------------------------------------

pub open spec fn digit_char(d: nat) -> char {
    (d + 48) as char
}

/// `{}` of an unsigned integer.
pub open spec fn dec_string(n: nat) -> Seq<char>
    decreases n,
{
    if n < 10 {
        seq![digit_char(n)]
    } else {
        dec_string(n / 10).push(digit_char(n % 10))
    }
}

pub open spec fn hex_char(d: nat) -> char {
    if d < 10 {
        (d + 48) as char
    } else {
        (d + 87) as char
    }
}

/// `{:x}` of an unsigned integer.
pub open spec fn hex_string(n: nat) -> Seq<char>
    decreases n,
{
    if n < 16 {
        seq![hex_char(n)]
    } else {
        hex_string(n / 16).push(hex_char(n % 16))
    }
}

/// Left-padding with `0` to at least `w` characters (`{:0w}`).
pub open spec fn pad_zeros(s: Seq<char>, w: nat) -> Seq<char> {
    if s.len() < w {
        Seq::new((w - s.len()) as nat, |i: int| '0') + s
    } else {
        s
    }
}

/// `{}` of a number reads back as that number.
pub proof fn lemma_dec_string(n: nat)
    ensures
        dec_string(n).len() > 0,
        all_digits(dec_string(n)),
        dec_value(dec_string(n)) == n,
        parse_nat(dec_string(n)) == Some(n),
    decreases n,
{
    let s = dec_string(n);
    if n >= 10 {
        lemma_dec_string(n / 10);
        let t = dec_string(n / 10);
        assert(s == t.push(digit_char(n % 10)));
        assert(s.drop_last() =~= t);
        assert forall|i: int| 0 <= i < s.len() implies is_digit(#[trigger] s[i]) by {
            if i < t.len() {
                assert(s[i] == t[i]);
            }
        }
        assert(digit_value(s.last()) == n % 10);
        assert(dec_value(s) == dec_value(t) * 10 + n % 10);
        assert((n / 10) * 10 + n % 10 == n) by (nonlinear_arith);
        assert(dec_value(t) == n / 10);
        assert(dec_value(s) == n);
    } else {
        assert(s.drop_last() =~= Seq::<char>::empty());
        assert(dec_value(Seq::<char>::empty()) == 0);
        assert(digit_value(s.last()) == n);
        assert(dec_value(s) == n);
    }
    assert(s[0] != '+');
    assert(unsigned_digits(s) == s);
}

/// Splitting at the first separator: a leading piece without `c` comes off.
pub proof fn lemma_split_first(a: Seq<char>, rest: Seq<char>, c: char)
    requires
        forall|i: int| 0 <= i < a.len() ==> a[i] != c,
    ensures
        split(a + seq![c] + rest, seq![c]) == seq![a] + split(rest, seq![c]),
{
    let s = a + seq![c] + rest;
    let p = seq![c];
    assert(match_at(s, p, a.len() as int)) by {
        assert(s.subrange(a.len() as int, (a.len() + 1) as int) =~= p);
    }
    assert forall|k: int| 0 <= k < a.len() implies !match_at(s, p, k) by {
        assert(s.subrange(k, k + 1)[0] == a[k]);
    }
    lemma_find_is(s, p, a.len() as int);
    assert(s.take(a.len() as int) =~= a);
    assert(s.skip((a.len() + 1) as int) =~= rest);
}

/// A piece without the separator is not split.
pub proof fn lemma_split_none(a: Seq<char>, c: char)
    requires
        forall|i: int| 0 <= i < a.len() ==> a[i] != c,
    ensures
        split(a, seq![c]) == seq![a],
{
    let p = seq![c];
    assert forall|k: int| !match_at(a, p, k) by {
        if match_at(a, p, k) {
            assert(a.subrange(k, k + 1)[0] == a[k]);
        }
    }
    lemma_find_is(a, p, -1);
}

/// Appends `{}` of `n`.
pub fn push_dec(out: &mut String, n: u64)
    ensures
        final(out)@ == old(out)@ + dec_string(n as nat),
    decreases n,
{
    if n >= 10 {
        push_dec(out, n / 10);
    }
    let d: u8 = (n % 10) as u8;
    push_char(out, (d + 48) as char);
    assert(final(out)@ =~= old(out)@ + dec_string(n as nat));
}

/// Appends `{:0w$x}` of `n`.
pub fn push_hex(out: &mut String, n: u64, w: usize)
    ensures
        final(out)@ == old(out)@ + pad_zeros(hex_string(n as nat), w as nat),
{
    let mut digits = String::new();
    push_hex_digits(&mut digits, n);
    let len = digits.as_str().unicode_len();
    let ghost h = hex_string(n as nat);
    let mut k = len;
    let ghost start = out@;
    while k < w
        invariant
            len == h.len(),
            len <= k,
            k <= w || k == len,
            out@ == start + Seq::new((k - len) as nat, |i: int| '0'),
        decreases w - k,
    {
        push_char(out, '0');
        assert(out@ =~= start + Seq::new((k + 1 - len) as nat, |i: int| '0'));
        k = k + 1;
    }
    append_str(out, digits.as_str());
    if len < w {
        assert(out@ =~= start + pad_zeros(h, w as nat));
    } else {
        assert(out@ =~= start + pad_zeros(h, w as nat));
    }
}

fn push_hex_digits(out: &mut String, n: u64)
    ensures
        final(out)@ == old(out)@ + hex_string(n as nat),
    decreases n,
{
    if n >= 16 {
        push_hex_digits(out, n / 16);
    }
    let d: u8 = (n % 16) as u8;
    let c = if d < 10 { (d + 48) as char } else { (d + 87) as char };
    push_char(out, c);
    assert(final(out)@ =~= old(out)@ + hex_string(n as nat));
}

/// The decimal text of `n`.
pub fn dec_text(n: u64) -> (s: String)
    ensures
        s@ == dec_string(n as nat),
{
    let mut s = String::new();
    push_dec(&mut s, n);
    assert(s@ =~= dec_string(n as nat));
    s
}


// ---------------------------------------------------------------------------
// Ordering and sorting
// ---------------------------------------------------------------------------

/// Lexicographic order by code point (`str`'s `Ord`, and the order `Path`
/// gives names within one directory).
pub open spec fn lex_lt(a: Seq<char>, b: Seq<char>) -> bool
    decreases a.len(),
{
    if b.len() == 0 {
        false
    } else if a.len() == 0 {
        true
    } else if a[0] != b[0] {
        (a[0] as u32) < (b[0] as u32)
    } else {
        lex_lt(a.drop_first(), b.drop_first())
    }
}

pub fn lex_less(a: &Vec<char>, b: &Vec<char>) -> (r: bool)
    ensures
        r == lex_lt(a@, b@),
{
    let mut i: usize = 0;
    assert(a@.skip(0) =~= a@);
    assert(b@.skip(0) =~= b@);
    loop
        invariant
            i <= a@.len(),
            i <= b@.len(),
            lex_lt(a@, b@) == lex_lt(a@.skip(i as int), b@.skip(i as int)),
        decreases a@.len() - i,
    {
        if i == b.len() {
            return false;
        }
        if i == a.len() {
            return true;
        }
        if a[i] != b[i] {
            return (a[i] as u32) < (b[i] as u32);
        }
        assert(a@.skip(i as int).drop_first() =~= a@.skip(i + 1));
        assert(b@.skip(i as int).drop_first() =~= b@.skip(i + 1));
        i = i + 1;
    }
}

/// Where `x` goes in `s`: before the first element greater than it.
pub open spec fn insert_pos(s: Seq<Seq<char>>, x: Seq<char>) -> int
    decreases s.len(),
{
    if s.len() == 0 {
        0
    } else if lex_lt(x, s[0]) {
        0
    } else {
        1 + insert_pos(s.drop_first(), x)
    }
}

proof fn lemma_insert_pos(s: Seq<Seq<char>>, x: Seq<char>, k: int)
    requires
        0 <= k <= s.len(),
        forall|j: int| 0 <= j < k ==> !lex_lt(x, #[trigger] s[j]),
        k == s.len() || lex_lt(x, s[k]),
    ensures
        insert_pos(s, x) == k,
    decreases s.len(),
{
    if k > 0 {
        let t = s.drop_first();
        assert(!lex_lt(x, s[0]));
        assert forall|j: int| 0 <= j < k - 1 implies !lex_lt(x, #[trigger] t[j]) by {
            assert(t[j] == s[j + 1]);
        }
        if k < s.len() {
            assert(t[k - 1] == s[k]);
        }
        lemma_insert_pos(t, x, k - 1);
    }
}

/// Stable insertion sort in lexicographic order (`slice::sort` on names).
pub open spec fn sort_seq(s: Seq<Seq<char>>) -> Seq<Seq<char>>
    decreases s.len(),
{
    if s.len() == 0 {
        s
    } else {
        let t = sort_seq(s.drop_last());
        t.insert(insert_pos(t, s.last()), s.last())
    }
}

pub proof fn lemma_insert_pos_bound(s: Seq<Seq<char>>, x: Seq<char>)
    ensures
        0 <= insert_pos(s, x) <= s.len(),
    decreases s.len(),
{
    if s.len() > 0 && !lex_lt(x, s[0]) {
        lemma_insert_pos_bound(s.drop_first(), x);
    }
}

proof fn lemma_lex_asym(a: Seq<char>, b: Seq<char>)
    ensures
        lex_lt(a, b) ==> !lex_lt(b, a),
    decreases a.len(),
{
    if a.len() > 0 && b.len() > 0 && a[0] == b[0] {
        lemma_lex_asym(a.drop_first(), b.drop_first());
    }
}

proof fn lemma_lex_trans(a: Seq<char>, b: Seq<char>, c: Seq<char>)
    requires
        lex_lt(a, b),
        lex_lt(b, c),
    ensures
        lex_lt(a, c),
    decreases a.len(),
{
    if a.len() > 0 && a[0] == b[0] && b[0] == c[0] {
        lemma_lex_trans(a.drop_first(), b.drop_first(), c.drop_first());
    }
}

proof fn lemma_lex_total(a: Seq<char>, b: Seq<char>)
    requires
        a != b,
    ensures
        lex_lt(a, b) || lex_lt(b, a),
    decreases a.len(),
{
    if a.len() > 0 && b.len() > 0 && a[0] == b[0] {
        if a.drop_first() == b.drop_first() {
            assert(a =~= seq![a[0]] + a.drop_first());
            assert(b =~= seq![b[0]] + b.drop_first());
        }
        lemma_lex_total(a.drop_first(), b.drop_first());
    } else if a.len() == 0 && b.len() == 0 {
        assert(a =~= b);
    } else if a.len() > 0 && b.len() > 0 {
        vstd::utf8::char_u32_cast(a[0], a[0] as u32);
        vstd::utf8::char_u32_cast(b[0], b[0] as u32);
    }
}

/// "Not greater" is transitive.
proof fn lemma_lex_le_trans(a: Seq<char>, b: Seq<char>, c: Seq<char>)
    requires
        !lex_lt(b, a),
        !lex_lt(c, b),
    ensures
        !lex_lt(c, a),
{
    if lex_lt(c, a) {
        if c != b {
            lemma_lex_total(c, b);
            lemma_lex_trans(b, c, a);
        }
    }
}

/// Every element is no greater than the ones after it.
pub open spec fn lex_sorted(s: Seq<Seq<char>>) -> bool {
    forall|i: int, j: int| 0 <= i < j < s.len() ==> !lex_lt(#[trigger] s[j], #[trigger] s[i])
}

proof fn lemma_insert_pos_props(s: Seq<Seq<char>>, x: Seq<char>)
    ensures
        forall|j: int| 0 <= j < insert_pos(s, x) ==> !lex_lt(x, #[trigger] s[j]),
        insert_pos(s, x) < s.len() ==> lex_lt(x, s[insert_pos(s, x)]),
    decreases s.len(),
{
    if s.len() > 0 && !lex_lt(x, s[0]) {
        let t = s.drop_first();
        lemma_insert_pos_props(t, x);
        lemma_insert_pos_bound(t, x);
        assert forall|j: int| 0 <= j < insert_pos(s, x) implies !lex_lt(x, #[trigger] s[j]) by {
            if j > 0 {
                assert(s[j] == t[j - 1]);
            }
        }
        if insert_pos(s, x) < s.len() {
            assert(s[insert_pos(s, x)] == t[insert_pos(t, x)]);
        }
    }
}

/// `sort_seq` sorts: its result is in lexicographic order and holds the same
/// elements, each as often.
pub proof fn lemma_sort_seq(s: Seq<Seq<char>>)
    ensures
        lex_sorted(sort_seq(s)),
        sort_seq(s).to_multiset() == s.to_multiset(),
    decreases s.len(),
{
    broadcast use vstd::seq_lib::to_multiset_build, vstd::seq_lib::to_multiset_insert;

    if s.len() > 0 {
        let u = s.drop_last();
        lemma_sort_seq(u);
        let t = sort_seq(u);
        let x = s.last();
        let p = insert_pos(t, x);
        lemma_insert_pos_bound(t, x);
        lemma_insert_pos_props(t, x);
        let r = t.insert(p, x);
        assert(r == sort_seq(s));
        assert forall|i: int, j: int| 0 <= i < j < r.len() implies !lex_lt(#[trigger] r[j], #[trigger] r[i]) by {
            if j < p {
                assert(r[i] == t[i] && r[j] == t[j]);
            } else if j == p {
                assert(r[j] == x && r[i] == t[i]);
            } else if i == p {
                assert(r[i] == x && r[j] == t[j - 1]);
                lemma_lex_asym(x, t[p]);
                if j - 1 > p {
                    lemma_lex_le_trans(x, t[p], t[j - 1]);
                }
            } else if i < p {
                assert(r[i] == t[i] && r[j] == t[j - 1]);
            } else {
                assert(r[i] == t[i - 1] && r[j] == t[j - 1]);
            }
        }
        assert(s == u.push(x));
    }
}

/// The strings sorted in lexicographic order.
pub fn sort_strings(v: Vec<String>) -> (out: Vec<String>)
    ensures
        string_views(out@) == sort_seq(string_views(v@)),
        lex_sorted(string_views(out@)),
        string_views(out@).to_multiset() == string_views(v@).to_multiset(),
{
    let mut out: Vec<String> = Vec::new();
    let mut keys: Vec<Vec<char>> = Vec::new();
    let mut i: usize = 0;
    let ghost sv = string_views(v@);
    while i < v.len()
        invariant
            i <= v@.len(),
            sv == string_views(v@),
            string_views(out@) == sort_seq(sv.take(i as int)),
            views(keys@) == string_views(out@),
            keys@.len() == out@.len(),
        decreases v@.len() - i,
    {
        let x = v[i].clone();
        let xk = chars_of(x.as_str());
        let mut k: usize = 0;
        while k < keys.len() && !lex_less(&xk, &keys[k])
            invariant
                k <= keys@.len(),
                forall|j: int| 0 <= j < k ==> !lex_lt(xk@, #[trigger] views(keys@)[j]),
            decreases keys@.len() - k,
        {
            assert(views(keys@)[k as int] == keys@[k as int]@);
            k = k + 1;
        }
        proof {
            if k < keys@.len() {
                assert(views(keys@)[k as int] == keys@[k as int]@);
            }
            lemma_insert_pos(views(keys@), xk@, k as int);
            assert(sv.take(i + 1).drop_last() =~= sv.take(i as int));
            assert(sv.take(i + 1).last() == xk@);
        }
        let ghost before = string_views(out@);
        out.insert(k, x);
        keys.insert(k, xk);
        assert(string_views(out@) =~= before.insert(k as int, xk@));
        assert(views(keys@) =~= string_views(out@));
        i = i + 1;
    }
    assert(sv.take(v@.len() as int) =~= sv);
    proof {
        lemma_sort_seq(sv);
    }
    out
}

} // verus!
