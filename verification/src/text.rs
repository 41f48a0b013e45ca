//! Character-level text model shared by every module: Unicode whitespace,
//! trimming, substring search and the handful of std conversions the editing
//! guards rely on.
//!
//! Strings are reasoned about through their `Seq<char>` view. Functions that
//! hand back part of their input return a slice of it, so callers can see in
//! the contract exactly which characters survived.
use vstd::prelude::*;

verus! {

/// Whether `c` has the Unicode `White_Space` property, which is the set
/// `char::is_whitespace` (and therefore `str::trim`) tests for.
pub open spec fn is_ws(c: char) -> bool {
    let u = c as u32;
    ||| 0x09 <= u <= 0x0D
    ||| u == 0x20
    ||| u == 0x85
    ||| u == 0xA0
    ||| u == 0x1680
    ||| 0x2000 <= u <= 0x200A
    ||| u == 0x2028
    ||| u == 0x2029
    ||| u == 0x202F
    ||| u == 0x205F
    ||| u == 0x3000
}

/// `s` without its leading whitespace.
pub open spec fn skip_ws(s: Seq<char>) -> Seq<char>
    decreases s.len(),
{
    if s.len() > 0 && is_ws(s[0]) {
        skip_ws(s.drop_first())
    } else {
        s
    }
}

/// `s` without its trailing whitespace.
pub open spec fn drop_ws(s: Seq<char>) -> Seq<char>
    decreases s.len(),
{
    if s.len() > 0 && is_ws(s[s.len() - 1]) {
        drop_ws(s.drop_last())
    } else {
        s
    }
}

/// `s` without leading or trailing whitespace, as `str::trim` leaves it.
pub open spec fn trim(s: Seq<char>) -> Seq<char> {
    drop_ws(skip_ws(s))
}

/// `p` occurs in `s` starting at index `i`.
pub open spec fn occurs_at(s: Seq<char>, p: Seq<char>, i: int) -> bool {
    &&& 0 <= i
    &&& i + p.len() <= s.len()
    &&& s.subrange(i, i + p.len()) == p
}

/// `p` occurs somewhere in `s`.
pub open spec fn contains(s: Seq<char>, p: Seq<char>) -> bool {
    exists|i: int| occurs_at(s, p, i)
}

/// `i` is where the first occurrence of `p` in `s` starts.
pub open spec fn first_at(s: Seq<char>, p: Seq<char>, i: int) -> bool {
    &&& occurs_at(s, p, i)
    &&& forall|j: int| 0 <= j < i ==> !occurs_at(s, p, j)
}

/// `i` is where the last occurrence of `p` in `s` starts.
pub open spec fn last_at(s: Seq<char>, p: Seq<char>, i: int) -> bool {
    &&& occurs_at(s, p, i)
    &&& forall|j: int| i < j ==> !occurs_at(s, p, j)
}

/// Index of the first occurrence of `p` in `s`; meaningful when `contains(s, p)`.
pub open spec fn first_index(s: Seq<char>, p: Seq<char>) -> int {
    choose|i: int| first_at(s, p, i)
}

/// Index of the last occurrence of `p` in `s`; meaningful when `contains(s, p)`.
pub open spec fn last_index(s: Seq<char>, p: Seq<char>) -> int {
    choose|i: int| last_at(s, p, i)
}

/// `c` occurs in `s`.
pub open spec fn has_char(s: Seq<char>, c: char) -> bool {
    exists|i: int| 0 <= i < s.len() && s[i] == c
}

/// Lowercase mapping of a string, as `str::to_lowercase` computes it.
pub uninterp spec fn lowercase(s: Seq<char>) -> Seq<char>;

/// Uppercase mapping of a string, as `str::to_uppercase` computes it.
pub uninterp spec fn uppercase(s: Seq<char>) -> Seq<char>;

/// Whether `char::is_alphanumeric` holds of `c` (Unicode `Alphabetic` or `Numeric`).
pub uninterp spec fn alphanumeric(c: char) -> bool;

/// Calls `str::to_lowercase`; the result is the Unicode lowercase mapping of
/// `s`, named `lowercase`, which depends on `s` alone.
#[verifier::external_body]
pub(crate) fn to_lower(s: &str) -> (r: String)
    ensures
        r@ == lowercase(s@),
{
    s.to_lowercase()
}

/// Calls `str::to_uppercase`; the result is the Unicode uppercase mapping of
/// `s`, named `uppercase`, which depends on `s` alone.
#[verifier::external_body]
pub(crate) fn to_upper(s: &str) -> (r: String)
    ensures
        r@ == uppercase(s@),
{
    s.to_uppercase()
}

/// Calls `char::is_alphanumeric`, named `alphanumeric`: a fixed property of
/// the character from the Unicode tables.
#[verifier::external_body]
pub(crate) fn is_alphanumeric(c: char) -> (b: bool)
    ensures
        b == alphanumeric(c),
{
    c.is_alphanumeric()
}

/// Calls `String::push`, which appends one character.
#[verifier::external_body]
pub(crate) fn push_char(s: &mut String, c: char)
    ensures
        final(s)@ == old(s)@.push(c),
{
    s.push(c)
}

/// Whether `c` is whitespace, exactly as `char::is_whitespace` decides.
pub fn is_whitespace(c: char) -> (b: bool)
    ensures
        b == is_ws(c),
{
    let u = c as u32;
    (0x09 <= u && u <= 0x0D) || u == 0x20 || u == 0x85 || u == 0xA0 || u == 0x1680 || (0x2000
        <= u && u <= 0x200A) || u == 0x2028 || u == 0x2029 || u == 0x202F || u == 0x205F || u
        == 0x3000
}

/// The characters of `s`, in order.
pub fn chars_of(s: &str) -> (v: Vec<char>)
    ensures
        v@ == s@,
{
    let mut v: Vec<char> = Vec::new();
    for c in it: s.chars()
        invariant
            v@ == it.seq().take(it.index() as int),
    {
        v.push(c);
    }
    v
}

/// A string holding exactly the characters `v[lo..hi]`.
pub fn string_of(v: &[char], lo: usize, hi: usize) -> (s: String)
    requires
        lo <= hi <= v@.len(),
    ensures
        s@ == v@.subrange(lo as int, hi as int),
{
    let mut s = String::new();
    let mut i = lo;
    while i < hi
        invariant
            lo <= i <= hi <= v@.len(),
            s@ == v@.subrange(lo as int, i as int),
        decreases hi - i,
    {
        push_char(&mut s, v[i]);
        i += 1;
        assert(s@ =~= v@.subrange(lo as int, i as int));
    }
    s
}

/// Skipping leading whitespace past one whitespace character at `i`.
proof fn lemma_skip_ws_step(s: Seq<char>, i: int)
    requires
        0 <= i < s.len(),
        is_ws(s[i]),
    ensures
        skip_ws(s.subrange(i, s.len() as int)) == skip_ws(s.subrange(i + 1, s.len() as int)),
{
    let t = s.subrange(i, s.len() as int);
    assert(t.drop_first() =~= s.subrange(i + 1, s.len() as int));
}

/// Dropping trailing whitespace past one whitespace character before `j`.
proof fn lemma_drop_ws_step(s: Seq<char>, lo: int, j: int)
    requires
        0 <= lo < j <= s.len(),
        is_ws(s[j - 1]),
    ensures
        drop_ws(s.subrange(lo, j)) == drop_ws(s.subrange(lo, j - 1)),
{
    let t = s.subrange(lo, j);
    assert(t.drop_last() =~= s.subrange(lo, j - 1));
}

/// The bounds of `v[lo..hi]` once leading whitespace is skipped.
pub fn skip_ws_from(v: &[char], lo: usize, hi: usize) -> (a: usize)
    requires
        lo <= hi <= v@.len(),
    ensures
        lo <= a <= hi,
        v@.subrange(a as int, hi as int) == skip_ws(v@.subrange(lo as int, hi as int)),
{
    let ghost w = v@.subrange(0, hi as int);
    let mut a = lo;
    while a < hi && is_whitespace(v[a])
        invariant
            lo <= a <= hi <= v@.len(),
            w == v@.subrange(0, hi as int),
            skip_ws(w.subrange(lo as int, hi as int)) == skip_ws(w.subrange(a as int, hi as int)),
        decreases hi - a,
    {
        proof {
            lemma_skip_ws_step(w, a as int);
        }
        a += 1;
    }
    proof {
        assert(w.subrange(lo as int, hi as int) =~= v@.subrange(lo as int, hi as int));
        assert(w.subrange(a as int, hi as int) =~= v@.subrange(a as int, hi as int));
        let t = v@.subrange(a as int, hi as int);
        if a < hi {
            assert(t[0] == v@[a as int]);
        }
    }
    a
}

/// The bounds of `v[lo..hi]` once trailing whitespace is dropped.
pub fn drop_ws_to(v: &[char], lo: usize, hi: usize) -> (b: usize)
    requires
        lo <= hi <= v@.len(),
    ensures
        lo <= b <= hi,
        v@.subrange(lo as int, b as int) == drop_ws(v@.subrange(lo as int, hi as int)),
{
    let mut b = hi;
    while b > lo && is_whitespace(v[b - 1])
        invariant
            lo <= b <= hi <= v@.len(),
            drop_ws(v@.subrange(lo as int, hi as int)) == drop_ws(v@.subrange(lo as int, b as int)),
        decreases b - lo,
    {
        proof {
            lemma_drop_ws_step(v@, lo as int, b as int);
        }
        b -= 1;
    }
    proof {
        let t = v@.subrange(lo as int, b as int);
        if b > lo {
            assert(t[t.len() - 1] == v@[b - 1]);
        }
    }
    b
}

/// The bounds of `v[lo..hi]` once trimmed.
pub fn trim_bounds(v: &[char], lo: usize, hi: usize) -> (r: (usize, usize))
    requires
        lo <= hi <= v@.len(),
    ensures
        lo <= r.0 <= r.1 <= hi,
        v@.subrange(r.0 as int, r.1 as int) == trim(v@.subrange(lo as int, hi as int)),
{
    let a = skip_ws_from(v, lo, hi);
    let b = drop_ws_to(v, a, hi);
    (a, b)
}

/// `s` without leading or trailing whitespace (`str::trim`).
pub fn trim_str(s: &str) -> (r: &str)
    ensures
        r@ == trim(s@),
{
    let v = chars_of(s);
    let (a, b) = trim_bounds(v.as_slice(), 0, v.len());
    assert(v@.subrange(0, v@.len() as int) =~= v@);
    s.substring_char(a, b)
}

/// Whether `p` occurs in `v` at `i`.
pub fn matches_at(v: &[char], p: &[char], i: usize) -> (b: bool)
    ensures
        b == occurs_at(v@, p@, i as int),
{
    if i > v.len() || p.len() > v.len() - i {
        return false;
    }
    let mut k: usize = 0;
    while k < p.len()
        invariant
            i + p@.len() <= v@.len(),
            v@.len() == v.len(),
            k <= p@.len(),
            forall|m: int| 0 <= m < k ==> v@[i + m] == p@[m],
        decreases p@.len() - k,
    {
        if v[i + k] != p[k] {
            proof {
                assert(v@.subrange(i as int, i + p@.len())[k as int] != p@[k as int]);
            }
            return false;
        }
        k += 1;
    }
    assert(v@.subrange(i as int, i + p@.len()) =~= p@);
    true
}

/// First occurrence of `p` in `v` at or after `from`.
pub fn find_from(v: &[char], p: &[char], from: usize) -> (r: Option<usize>)
    ensures
        match r {
            Some(i) => from <= i && occurs_at(v@, p@, i as int) && forall|j: int|
                from <= j < i ==> !occurs_at(v@, p@, j),
            None => forall|j: int| from <= j ==> !occurs_at(v@, p@, j),
        },
{
    if from > v.len() {
        return None;
    }
    let mut i = from;
    while i < v.len()
        invariant
            from <= i <= v@.len(),
            v@.len() == v.len(),
            forall|j: int| from <= j < i ==> !occurs_at(v@, p@, j),
        decreases v@.len() - i,
    {
        if matches_at(v, p, i) {
            return Some(i);
        }
        i += 1;
    }
    if matches_at(v, p, i) {
        return Some(i);
    }
    None
}

/// Last occurrence of `p` in `v`.
pub fn rfind(v: &[char], p: &[char]) -> (r: Option<usize>)
    ensures
        match r {
            Some(i) => last_at(v@, p@, i as int),
            None => !contains(v@, p@),
        },
{
    let mut i = v.len();
    loop
        invariant
            i <= v@.len(),
            forall|j: int| i < j ==> !occurs_at(v@, p@, j),
        decreases i,
    {
        if matches_at(v, p, i) {
            return Some(i);
        }
        if i == 0 {
            assert forall|j: int| !occurs_at(v@, p@, j) by {
                if j == 0 {
                } else if j < 0 {
                }
            }
            return None;
        }
        i -= 1;
    }
}

/// A vector holding exactly `v[lo..hi]`.
pub fn copy_range(v: &[char], lo: usize, hi: usize) -> (r: Vec<char>)
    requires
        lo <= hi <= v@.len(),
    ensures
        r@ == v@.subrange(lo as int, hi as int),
{
    let mut r: Vec<char> = Vec::new();
    let mut i = lo;
    while i < hi
        invariant
            lo <= i <= hi <= v@.len(),
            r@ == v@.subrange(lo as int, i as int),
        decreases hi - i,
    {
        r.push(v[i]);
        i += 1;
        assert(r@ =~= v@.subrange(lo as int, i as int));
    }
    r
}

/// First occurrence of `p` in `v[lo..hi]`, as an offset from `lo`.
pub fn find_in(v: &[char], p: &[char], lo: usize, hi: usize) -> (r: Option<usize>)
    requires
        lo <= hi <= v@.len(),
    ensures
        match r {
            Some(k) => first_at(v@.subrange(lo as int, hi as int), p@, k as int),
            None => !contains(v@.subrange(lo as int, hi as int), p@),
        },
{
    let w = copy_range(v, lo, hi);
    match find_from(w.as_slice(), p, 0) {
        Some(k) => Some(k),
        None => None,
    }
}

/// Last occurrence of `p` in `v[lo..hi]`, as an offset from `lo`.
pub fn rfind_in(v: &[char], p: &[char], lo: usize, hi: usize) -> (r: Option<usize>)
    requires
        lo <= hi <= v@.len(),
    ensures
        match r {
            Some(k) => last_at(v@.subrange(lo as int, hi as int), p@, k as int),
            None => !contains(v@.subrange(lo as int, hi as int), p@),
        },
{
    let w = copy_range(v, lo, hi);
    rfind(w.as_slice(), p)
}

/// Whether two strings hold the same characters.
pub fn str_eq(a: &str, b: &str) -> (r: bool)
    ensures
        r == (a@ == b@),
{
    let av = chars_of(a);
    let bv = chars_of(b);
    if av.len() != bv.len() {
        proof {
            if a@ == b@ {
                assert(av@.len() == bv@.len());
            }
        }
        return false;
    }
    let mut i: usize = 0;
    while i < av.len()
        invariant
            i <= av@.len(),
            av@.len() == bv@.len(),
            av@ == a@,
            bv@ == b@,
            forall|k: int| 0 <= k < i ==> av@[k] == bv@[k],
        decreases av@.len() - i,
    {
        if av[i] != bv[i] {
            assert(av@[i as int] != bv@[i as int]);
            return false;
        }
        i += 1;
    }
    assert(av@ =~= bv@);
    true
}

/// Whether `s` starts with `p`.
pub fn starts_with_str(s: &str, p: &str) -> (r: bool)
    ensures
        r == p@.is_prefix_of(s@),
{
    let sv = chars_of(s);
    let pv = chars_of(p);
    let r = matches_at(sv.as_slice(), pv.as_slice(), 0);
    proof {
        if pv@.len() <= sv@.len() {
            assert(sv@.subrange(0, pv@.len() as int) =~= sv@.subrange(0, 0 + pv@.len() as int));
        }
    }
    r
}

/// Whether `p` occurs anywhere in `v`.
pub fn contains_chars(v: &[char], p: &[char]) -> (b: bool)
    ensures
        b == contains(v@, p@),
{
    match find_from(v, p, 0) {
        Some(i) => {
            assert(occurs_at(v@, p@, i as int));
            true
        },
        None => false,
    }
}

/// Whether `c` occurs in `v[lo..hi]`.
pub fn has_char_in(v: &[char], lo: usize, hi: usize, c: char) -> (b: bool)
    requires
        lo <= hi <= v@.len(),
    ensures
        b == has_char(v@.subrange(lo as int, hi as int), c),
{
    let ghost t = v@.subrange(lo as int, hi as int);
    let mut i = lo;
    while i < hi
        invariant
            lo <= i <= hi <= v@.len(),
            t == v@.subrange(lo as int, hi as int),
            forall|k: int| 0 <= k < i - lo ==> t[k] != c,
        decreases hi - i,
    {
        if v[i] == c {
            assert(t[i - lo] == c);
            return true;
        }
        i += 1;
    }
    false
}

/// Occurrences in a suffix are occurrences in the whole, shifted.
pub proof fn lemma_occurs_skip(s: Seq<char>, p: Seq<char>, k: int, i: int)
    requires
        0 <= k <= s.len(),
    ensures
        occurs_at(s.skip(k), p, i) == (0 <= i && occurs_at(s, p, i + k)),
{
    if 0 <= i && i + p.len() <= s.len() - k {
        assert(s.skip(k).subrange(i, i + p.len()) =~= s.subrange(i + k, i + k + p.len()));
    }
}

/// Whether `p` occurs in `v[from..]`.
pub fn contains_from(v: &[char], p: &[char], from: usize) -> (b: bool)
    requires
        from <= v@.len(),
    ensures
        b == contains(v@.skip(from as int), p@),
{
    match find_from(v, p, from) {
        Some(i) => {
            proof {
                lemma_occurs_skip(v@, p@, from as int, i - from);
            }
            true
        },
        None => {
            proof {
                assert forall|j: int| !occurs_at(v@.skip(from as int), p@, j) by {
                    lemma_occurs_skip(v@, p@, from as int, j);
                }
            }
            false
        },
    }
}

proof fn lemma_skip_ws_result(s: Seq<char>)
    ensures
        skip_ws(s).len() == 0 || !is_ws(skip_ws(s)[0]),
    decreases s.len(),
{
    if s.len() > 0 && is_ws(s[0]) {
        lemma_skip_ws_result(s.drop_first());
    }
}

proof fn lemma_drop_ws_result(s: Seq<char>)
    ensures
        drop_ws(s).len() <= s.len(),
        drop_ws(s) == s.subrange(0, drop_ws(s).len() as int),
        drop_ws(s).len() == 0 || !is_ws(drop_ws(s)[drop_ws(s).len() - 1]),
    decreases s.len(),
{
    if s.len() > 0 && is_ws(s[s.len() - 1]) {
        lemma_drop_ws_result(s.drop_last());
        let d = drop_ws(s.drop_last());
        assert(s.drop_last().subrange(0, d.len() as int) =~= s.subrange(0, d.len() as int));
    } else {
        assert(s.subrange(0, s.len() as int) =~= s);
    }
}

/// Trimming an already trimmed string changes nothing.
pub proof fn lemma_trim_idempotent(s: Seq<char>)
    ensures
        trim(trim(s)) == trim(s),
        skip_ws(trim(s)) == trim(s),
        drop_ws(trim(s)) == trim(s),
{
    let u = skip_ws(s);
    let t = trim(s);
    lemma_skip_ws_result(s);
    lemma_drop_ws_result(u);
    if t.len() > 0 {
        assert(t[0] == u[0]);
    }
    assert(skip_ws(t) == t);
    assert(drop_ws(t) == t);
}

/// The first index at which `p` occurs is unique.
pub proof fn lemma_first_index(s: Seq<char>, p: Seq<char>, i: int)
    requires
        first_at(s, p, i),
    ensures
        first_index(s, p) == i,
        contains(s, p),
{
    let k = first_index(s, p);
    assert(first_at(s, p, k));
    if k < i {
        assert(!occurs_at(s, p, k));
    }
    if i < k {
        assert(!occurs_at(s, p, i));
    }
}

/// The last index at which `p` occurs is unique.
pub proof fn lemma_last_index(s: Seq<char>, p: Seq<char>, i: int)
    requires
        last_at(s, p, i),
    ensures
        last_index(s, p) == i,
        contains(s, p),
{
    let k = last_index(s, p);
    assert(last_at(s, p, k));
    if k < i {
        assert(!occurs_at(s, p, i));
    }
    if i < k {
        assert(!occurs_at(s, p, k));
    }
}

} // verus!
