//! Content words: the lowercased words of four characters or more that carry
//! a transcript's meaning, and the set and sequence comparisons the guards and
//! the verification triage make over them.
use vstd::prelude::*;
use crate::text::{alphanumeric, lowercase, chars_of, string_of, is_alphanumeric, to_lower};

verus! {

/// Characters that belong to a word: alphanumerics and the apostrophe.
pub open spec fn is_word_char(c: char) -> bool {
    alphanumeric(c) || c == '\''
}

/// The pieces `s` splits into at every non-word character, empty pieces
/// included, exactly as `str::split` with that predicate yields them.
pub open spec fn pieces(s: Seq<char>) -> Seq<Seq<char>>
    decreases s.len(),
{
    if s.len() == 0 {
        seq![Seq::<char>::empty()]
    } else {
        let p = pieces(s.drop_last());
        let c = s[s.len() - 1];
        if is_word_char(c) {
            p.update(p.len() - 1, p[p.len() - 1].push(c))
        } else {
            p.push(Seq::<char>::empty())
        }
    }
}

/// The words of `ws` that have at least four characters, lowercased.
pub open spec fn kept_words(ws: Seq<Seq<char>>) -> Seq<Seq<char>>
    decreases ws.len(),
{
    if ws.len() == 0 {
        Seq::<Seq<char>>::empty()
    } else {
        let r = kept_words(ws.drop_last());
        let w = ws[ws.len() - 1];
        if w.len() >= 4 {
            r.push(lowercase(w))
        } else {
            r
        }
    }
}

/// Lowercased content words of `s`, in order.
pub open spec fn content_words_of(s: Seq<char>) -> Seq<Seq<char>> {
    kept_words(pieces(s))
}

/// The character sequences held by a list of strings.
pub open spec fn views(v: Seq<String>) -> Seq<Seq<char>> {
    v.map_values(|w: String| w@)
}

/// How many times `w` occurs in `ws`.
pub open spec fn occurrences(ws: Seq<Seq<char>>, w: Seq<char>) -> nat
    decreases ws.len(),
{
    if ws.len() == 0 {
        0
    } else {
        occurrences(ws.drop_last(), w) + if ws[ws.len() - 1] == w {
            1nat
        } else {
            0nat
        }
    }
}

/// The words of `ws` whose multiplicity is the same in `before` and `after`,
/// in the order `ws` lists them.
pub open spec fn balanced(ws: Seq<Seq<char>>, before: Seq<Seq<char>>, after: Seq<Seq<char>>) -> Seq<
    Seq<char>,
>
    decreases ws.len(),
{
    if ws.len() == 0 {
        Seq::<Seq<char>>::empty()
    } else {
        let r = balanced(ws.drop_last(), before, after);
        let w = ws[ws.len() - 1];
        if occurrences(before, w) == occurrences(after, w) {
            r.push(w)
        } else {
            r
        }
    }
}

/// How many words of `ws` do not occur in `known`.
pub open spec fn novel(known: Seq<Seq<char>>, ws: Seq<Seq<char>>) -> nat
    decreases ws.len(),
{
    if ws.len() == 0 {
        0
    } else {
        novel(known, ws.drop_last()) + if known.contains(ws[ws.len() - 1]) {
            0nat
        } else {
            1nat
        }
    }
}

/// Views of a prefix are the prefix of the views.
proof fn lemma_views_prefix(v: Seq<String>, i: int)
    requires
        0 <= i < v.len(),
    ensures
        views(v).subrange(0, i + 1).drop_last() == views(v).subrange(0, i),
        views(v).subrange(0, i + 1)[i] == v[i]@,
        views(v).subrange(0, i + 1).len() == i + 1,
        views(v).len() == v.len(),
{
    assert(views(v).subrange(0, i + 1).drop_last() =~= views(v).subrange(0, i));
}

/// Lowercased content words of `text`, in order.
///
/// Short tokens are dropped: punctuation repair legitimately introduces
/// function words, and only words of four characters or more carry meaning a
/// model must not conjure.
pub fn content_words(text: &str) -> (r: Vec<String>)
    ensures
        views(r@) == content_words_of(text@),
{
    let v = chars_of(text);
    let mut out: Vec<String> = Vec::new();
    let mut start: usize = 0;
    let mut i: usize = 0;
    proof {
        assert(v@.subrange(0, 0) =~= Seq::<char>::empty());
        assert(pieces(Seq::<char>::empty()).drop_last() =~= Seq::<Seq<char>>::empty());
        assert(views(out@) =~= Seq::<Seq<char>>::empty());
    }
    while i < v.len()
        invariant
            start <= i <= v@.len(),
            v@ == text@,
            pieces(v@.subrange(0, i as int)).len() >= 1,
            pieces(v@.subrange(0, i as int)).last() == v@.subrange(start as int, i as int),
            views(out@) == kept_words(pieces(v@.subrange(0, i as int)).drop_last()),
        decreases v@.len() - i,
    {
        let c = v[i];
        let ghost p = pieces(v@.subrange(0, i as int));
        let ghost q = v@.subrange(0, i + 1);
        proof {
            assert(q.drop_last() =~= v@.subrange(0, i as int));
            assert(q[q.len() - 1] == c);
        }
        if is_alphanumeric(c) || c == '\'' {
            proof {
                let np = pieces(q);
                assert(np == p.update(p.len() - 1, p[p.len() - 1].push(c)));
                assert(np.drop_last() =~= p.drop_last());
                assert(np.last() =~= v@.subrange(start as int, i + 1));
            }
            i += 1;
        } else {
            let ghost before_out = out@;
            if i - start >= 4 {
                let w = string_of(v.as_slice(), start, i);
                let lw = to_lower(w.as_str());
                out.push(lw);
                proof {
                    assert(views(out@) =~= views(before_out).push(lowercase(p.last())));
                }
            }
            proof {
                let np = pieces(q);
                assert(np == p.push(Seq::<char>::empty()));
                assert(np.drop_last() =~= p);
                assert(p.drop_last() =~= p.subrange(0, p.len() - 1));
                assert(p =~= p.drop_last().push(p.last()));
                assert(kept_words(p) == if p.last().len() >= 4 {
                    kept_words(p.drop_last()).push(lowercase(p.last()))
                } else {
                    kept_words(p.drop_last())
                });
                assert(np.last() =~= v@.subrange(i + 1, i + 1));
            }
            i += 1;
            start = i;
        }
    }
    let ghost p = pieces(v@.subrange(0, i as int));
    let ghost before_out = out@;
    if i - start >= 4 {
        let w = string_of(v.as_slice(), start, i);
        let lw = to_lower(w.as_str());
        out.push(lw);
        proof {
            assert(views(out@) =~= views(before_out).push(lowercase(p.last())));
        }
    }
    proof {
        assert(v@.subrange(0, i as int) =~= v@);
        assert(p =~= p.drop_last().push(p.last()));
        assert(kept_words(p) == if p.last().len() >= 4 {
            kept_words(p.drop_last()).push(lowercase(p.last()))
        } else {
            kept_words(p.drop_last())
        });
    }
    out
}

/// How many times `w` occurs in `ws`.
pub fn count_in(ws: &Vec<String>, w: &String) -> (n: usize)
    ensures
        n == occurrences(views(ws@), w@),
{
    let mut n: usize = 0;
    let mut i: usize = 0;
    while i < ws.len()
        invariant
            i <= ws@.len(),
            n <= i,
            n == occurrences(views(ws@).subrange(0, i as int), w@),
        decreases ws@.len() - i,
    {
        proof {
            lemma_views_prefix(ws@, i as int);
        }
        if ws[i] == *w {
            n += 1;
        }
        i += 1;
    }
    assert(views(ws@).subrange(0, i as int) =~= views(ws@));
    n
}

/// Whether `w` occurs in `ws`.
pub fn has_word(ws: &Vec<String>, w: &String) -> (b: bool)
    ensures
        b == views(ws@).contains(w@),
{
    let mut i: usize = 0;
    while i < ws.len()
        invariant
            i <= ws@.len(),
            forall|k: int| 0 <= k < i ==> ws@[k]@ != w@,
        decreases ws@.len() - i,
    {
        if ws[i] == *w {
            assert(views(ws@)[i as int] == w@);
            return true;
        }
        i += 1;
    }
    proof {
        if views(ws@).contains(w@) {
            let k = choose|k: int| 0 <= k < views(ws@).len() && views(ws@)[k] == w@;
            assert(ws@[k]@ == w@);
        }
    }
    false
}

/// How many words of `ws` do not occur in `known`.
pub fn novel_count(known: &Vec<String>, ws: &Vec<String>) -> (n: usize)
    ensures
        n == novel(views(known@), views(ws@)),
        n <= ws@.len(),
{
    let mut n: usize = 0;
    let mut i: usize = 0;
    while i < ws.len()
        invariant
            i <= ws@.len(),
            n <= i,
            n == novel(views(known@), views(ws@).subrange(0, i as int)),
        decreases ws@.len() - i,
    {
        proof {
            lemma_views_prefix(ws@, i as int);
        }
        if !has_word(known, &ws[i]) {
            n += 1;
        }
        i += 1;
    }
    assert(views(ws@).subrange(0, i as int) =~= views(ws@));
    n
}

/// The words of `ws` whose multiplicity is the same in `before` and `after`.
pub fn balanced_words(ws: &Vec<String>, before: &Vec<String>, after: &Vec<String>) -> (r: Vec<
    String,
>)
    ensures
        views(r@) == balanced(views(ws@), views(before@), views(after@)),
{
    let mut r: Vec<String> = Vec::new();
    let mut i: usize = 0;
    proof {
        assert(views(r@) =~= Seq::<Seq<char>>::empty());
    }
    while i < ws.len()
        invariant
            i <= ws@.len(),
            views(r@) == balanced(
                views(ws@).subrange(0, i as int),
                views(before@),
                views(after@),
            ),
        decreases ws@.len() - i,
    {
        proof {
            lemma_views_prefix(ws@, i as int);
        }
        let ghost old_r = r@;
        if count_in(before, &ws[i]) == count_in(after, &ws[i]) {
            r.push(ws[i].clone());
            proof {
                assert(views(r@) =~= views(old_r).push(ws@[i as int]@));
            }
        }
        i += 1;
    }
    assert(views(ws@).subrange(0, i as int) =~= views(ws@));
    r
}

/// Whether two word lists hold the same words in the same order.
pub fn same_words(a: &Vec<String>, b: &Vec<String>) -> (r: bool)
    ensures
        r == (views(a@) == views(b@)),
{
    if a.len() != b.len() {
        proof {
            if views(a@) == views(b@) {
                assert(views(a@).len() == a@.len());
            }
        }
        return false;
    }
    let mut i: usize = 0;
    while i < a.len()
        invariant
            i <= a@.len(),
            a@.len() == b@.len(),
            forall|k: int| 0 <= k < i ==> a@[k]@ == b@[k]@,
        decreases a@.len() - i,
    {
        if a[i] != b[i] {
            proof {
                assert(views(a@)[i as int] != views(b@)[i as int]);
            }
            return false;
        }
        i += 1;
    }
    assert(views(a@) =~= views(b@));
    true
}

} // verus!
