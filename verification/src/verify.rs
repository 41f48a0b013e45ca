//! Second-pass meaning verification.
//!
//! The mechanical guards compare words: how many, and whether any are new.
//! That catches deletion and invention but is blind to reordering, so a model
//! has to read both versions and judge. This module builds that request, reads
//! the one-word answer, and decides which edits are worth the second pass.
use vstd::prelude::*;
use crate::text::{
    chars_of, contains, contains_from, find_from, first_index, lemma_first_index, lowercase,
    occurs_at, to_lower, trim, trim_str,
};
use crate::engine::THINK_CLOSE;
use crate::words::{
    balanced, balanced_words, content_words, content_words_of, has_word, occurrences, same_words,
    views,
};

verus! {

/// What the verifier concluded.
#[derive(Debug, Clone, Copy, PartialEq, Eq, Structural)]
pub enum Verdict {
    /// Meaning preserved; the edit is safe to paste.
    Same,
    /// Meaning changed; fall back to the raw transcript.
    Changed,
    /// The verifier's answer could not be read. Treated as `Same` by the
    /// pipeline: the mechanical guards have already passed.
    Unclear,
}

/// When the verifier runs. Defaults to `Off`.
#[derive(Debug, Clone, Copy, PartialEq, Eq, Structural)]
pub enum VerifyMode {
    /// Never verify.
    Off,
    /// Verify only when the edit could plausibly have changed meaning.
    Auto,
    /// Verify every edit, including ones that only touched punctuation.
    Always,
}

impl Default for VerifyMode {
    fn default() -> (m: Self)
        ensures
            m == VerifyMode::Off,
    {
        VerifyMode::Off
    }
}

/// The verification system prompt, one literal line per prompt line.
pub const VERIFY_PROMPT: &'static str = "A dictated transcript has been edited. Decide whether the edited version still says what the speaker meant.\n\
\n\
Speakers often change their mind mid-sentence. When they do, the edit is SUPPOSED to delete the wording they abandoned along with the phrase that signalled the change. That deletion is correct: the edited version will be shorter and the abandoned wording will be gone. Answer SAME for those.\n\
\n\
For example, \"the meeting is on friday no wait it's on saturday\" edited to \"The meeting is on Saturday.\" is SAME. Friday was abandoned, so it is meant to be gone.\n\
\n\
Answer CHANGED only when the edit got the speaker's final choice wrong:\n\
- it kept the wording the speaker abandoned instead of the wording they chose\n\
- it swapped or reordered names, dates, times or numbers\n\
- it reversed, negated or contradicted a statement\n\
- it added a claim the speaker never made\n\
- it dropped something the speaker never took back\n\
\n\
Reply with exactly one word: SAME or CHANGED.";



/// Build the verification system prompt. Asks for one word.
pub fn build_verify_prompt() -> (p: String)
    ensures
        p@ == VERIFY_PROMPT@,
{
    let mut p = String::new();
    p.append(VERIFY_PROMPT);
    p
}

/// The user turn presenting both versions.
pub open spec fn verify_input(original: Seq<char>, edited: Seq<char>) -> Seq<char> {
    "Original: "@ + trim(original) + "\nEdited: "@ + trim(edited)
}

/// Build the user turn presenting both versions, each trimmed.
pub fn build_verify_input(original: &str, edited: &str) -> (s: String)
    ensures
        s@ == verify_input(original@, edited@),
{
    let mut s = String::new();
    s.append("Original: ");
    s.append(trim_str(original));
    s.append("\nEdited: ");
    s.append(trim_str(edited));
    s
}

/// What a reply says once any surviving reasoning block is cut off: only the
/// text after the first closing tag counts.
pub open spec fn after_reasoning(lowered: Seq<char>) -> Seq<char> {
    if contains(lowered, THINK_CLOSE@) {
        lowered.skip(first_index(lowered, THINK_CLOSE@) + THINK_CLOSE@.len())
    } else {
        lowered
    }
}

/// The verdict a reply states: `Same` or `Changed` when exactly one of the two
/// words occurs (case-insensitively) after any reasoning block, `Unclear`
/// otherwise.
pub open spec fn verdict_of(reply: Seq<char>) -> Verdict {
    let tail = after_reasoning(lowercase(reply));
    let same = contains(tail, "same"@);
    let changed = contains(tail, "changed"@);
    if same && !changed {
        Verdict::Same
    } else if !same && changed {
        Verdict::Changed
    } else {
        Verdict::Unclear
    }
}

/// Read a verdict out of the verifier's reply.
///
/// Forgiving about surrounding text but strict about ambiguity: a reply
/// mentioning both words has not decided, and is `Unclear`.
pub fn parse_verdict(reply: &str) -> (v: Verdict)
    ensures
        v == verdict_of(reply@),
{
    let lowered = to_lower(reply);
    let l = chars_of(lowered.as_str());
    let close = chars_of(THINK_CLOSE);
    let n = l.len();
    let start = match find_from(l.as_slice(), close.as_slice(), 0) {
        Some(i) => {
            proof {
                lemma_first_index(l@, close@, i as int);
                assert(i + close@.len() <= l@.len());
            }
            i + close.len()
        },
        None => {
            proof {
                if contains(l@, close@) {
                    let j = choose|j: int| occurs_at(l@, close@, j);
                    assert(!occurs_at(l@, close@, j));
                }
            }
            0
        },
    };
    assert(l@.skip(0) =~= l@);
    let same_word = chars_of("same");
    let changed_word = chars_of("changed");
    let says_same = contains_from(l.as_slice(), same_word.as_slice(), start);
    let says_changed = contains_from(l.as_slice(), changed_word.as_slice(), start);
    if says_same && !says_changed {
        Verdict::Same
    } else if !says_same && says_changed {
        Verdict::Changed
    } else {
        Verdict::Unclear
    }
}

/// Lowercased content words of `text` in order (the same words the length
/// guard counts).
pub fn content_sequence(text: &str) -> (r: Vec<String>)
    ensures
        views(r@) == content_words_of(text@),
{
    content_words(text)
}

/// The edit uses a content word the original never did.
pub open spec fn adds_words(original: Seq<char>, edited: Seq<char>) -> bool {
    let before = content_words_of(original);
    let after = content_words_of(edited);
    exists|i: int| 0 <= i < after.len() && !before.contains(after[i])
}

/// The edit moved content words that both versions share with the same
/// multiplicity: the shared words, read in order, differ between the two.
pub open spec fn reorders(original: Seq<char>, edited: Seq<char>) -> bool {
    let before = content_words_of(original);
    let after = content_words_of(edited);
    balanced(before, before, after) != balanced(after, before, after)
}

/// Whether an edit is worth a verification pass: it reordered shared words or
/// introduced words that were never dictated.
pub open spec fn worth_verifying(original: Seq<char>, edited: Seq<char>) -> bool {
    reorders(original, edited) || adds_words(original, edited)
}

/// Whether the edit introduced content words that were never dictated.
pub fn adds_content_words(original: &str, edited: &str) -> (b: bool)
    ensures
        b == adds_words(original@, edited@),
{
    let before = content_sequence(original);
    let after = content_sequence(edited);
    let mut i: usize = 0;
    while i < after.len()
        invariant
            i <= after@.len(),
            views(before@) == content_words_of(original@),
            views(after@) == content_words_of(edited@),
            forall|k: int| 0 <= k < i ==> views(before@).contains(#[trigger] views(after@)[k]),
        decreases after@.len() - i,
    {
        if !has_word(&before, &after[i]) {
            assert(!views(before@).contains(views(after@)[i as int]));
            return true;
        }
        i += 1;
    }
    false
}

/// Whether the edit reordered content words that both versions share.
///
/// Words are compared as a sequence, so "Tuesday ... Thursday" becoming
/// "Thursday ... Tuesday" is visible even though both versions use both words.
/// Only words that survive with the same multiplicity are compared.
pub fn reorders_shared_words(original: &str, edited: &str) -> (b: bool)
    ensures
        b == reorders(original@, edited@),
{
    let before = content_sequence(original);
    let after = content_sequence(edited);
    let shared = balanced_words(&before, &before, &after);
    let shared_after = balanced_words(&after, &before, &after);
    !same_words(&shared, &shared_after)
}

/// Whether an edit is worth spending a verification pass on.
///
/// An order-preserving deletion (the ordinary retraction) is left alone;
/// reordering and novel content words are referred.
pub fn needs_verification(original: &str, edited: &str) -> (b: bool)
    ensures
        b == worth_verifying(original@, edited@),
{
    reorders_shared_words(original, edited) || adds_content_words(original, edited)
}

/// Which words count as balanced does not depend on which version is called
/// "before".
proof fn lemma_balanced_swap(ws: Seq<Seq<char>>, a: Seq<Seq<char>>, b: Seq<Seq<char>>)
    ensures
        balanced(ws, a, b) == balanced(ws, b, a),
    decreases ws.len(),
{
    if ws.len() > 0 {
        lemma_balanced_swap(ws.drop_last(), a, b);
    }
}

/// An edit that leaves the text unchanged is never referred to the verifier:
/// it neither reorders nor adds a word.
pub proof fn lemma_unchanged_edit_is_not_verified(text: Seq<char>)
    ensures
        !reorders(text, text),
        !adds_words(text, text),
        !worth_verifying(text, text),
{
    let w = content_words_of(text);
    assert forall|i: int| 0 <= i < w.len() implies w.contains(w[i]) by {}
}

/// The words of `ws` whose mark in `keep` is set, in order: what is left of
/// `ws` after deleting the unmarked words without moving any other.
pub open spec fn keep_only(ws: Seq<Seq<char>>, keep: Seq<bool>) -> Seq<Seq<char>>
    decreases ws.len(),
{
    if ws.len() == 0 {
        Seq::<Seq<char>>::empty()
    } else {
        let r = keep_only(ws.drop_last(), keep.drop_last());
        if keep[ws.len() - 1] {
            r.push(ws[ws.len() - 1])
        } else {
            r
        }
    }
}

/// Every kept word is a word of `ws`.
proof fn lemma_kept_words_occur(ws: Seq<Seq<char>>, keep: Seq<bool>)
    requires
        keep.len() == ws.len(),
    ensures
        forall|i: int|
            0 <= i < keep_only(ws, keep).len() ==> ws.contains(#[trigger] keep_only(ws, keep)[i]),
    decreases ws.len(),
{
    if ws.len() > 0 {
        let n = ws.len() - 1;
        let r = keep_only(ws.drop_last(), keep.drop_last());
        lemma_kept_words_occur(ws.drop_last(), keep.drop_last());
        assert forall|i: int| 0 <= i < keep_only(ws, keep).len() implies ws.contains(
            #[trigger] keep_only(ws, keep)[i],
        ) by {
            if i < r.len() {
                let j = choose|j: int| 0 <= j < n && ws.drop_last()[j] == r[i];
                assert(ws[j] == r[i]);
            } else {
                assert(ws[n] == keep_only(ws, keep)[i]);
            }
        }
    }
}

/// Deleting words never adds occurrences, and deleting an occurrence of `w`
/// leaves strictly fewer of it.
proof fn lemma_deletion_counts(ws: Seq<Seq<char>>, keep: Seq<bool>, w: Seq<char>)
    requires
        keep.len() == ws.len(),
    ensures
        occurrences(keep_only(ws, keep), w) <= occurrences(ws, w),
        (exists|j: int| 0 <= j < ws.len() && !keep[j] && ws[j] == w) ==> occurrences(
            keep_only(ws, keep),
            w,
        ) < occurrences(ws, w),
    decreases ws.len(),
{
    if ws.len() > 0 {
        let n = ws.len() - 1;
        let t = ws.drop_last();
        let k = keep.drop_last();
        let r = keep_only(t, k);
        lemma_deletion_counts(t, k, w);
        if keep[n] {
            assert(r.push(ws[n]).drop_last() =~= r);
        }
        if exists|j: int| 0 <= j < ws.len() && !keep[j] && ws[j] == w {
            let j = choose|j: int| 0 <= j < ws.len() && !keep[j] && ws[j] == w;
            if j < n {
                assert(t[j] == ws[j] && k[j] == keep[j]);
            }
        }
    }
}

/// Filtering by balance commutes with deleting words that are not balanced.
proof fn lemma_balanced_keep(
    ws: Seq<Seq<char>>,
    keep: Seq<bool>,
    before: Seq<Seq<char>>,
    after: Seq<Seq<char>>,
)
    requires
        keep.len() == ws.len(),
        forall|j: int|
            0 <= j < ws.len() && !keep[j] ==> occurrences(before, #[trigger] ws[j])
                != occurrences(after, ws[j]),
    ensures
        balanced(ws, before, after) == balanced(keep_only(ws, keep), before, after),
    decreases ws.len(),
{
    if ws.len() > 0 {
        let n = ws.len() - 1;
        let t = ws.drop_last();
        let k = keep.drop_last();
        assert forall|j: int| 0 <= j < t.len() && !k[j] implies occurrences(before, #[trigger] t[j])
            != occurrences(after, t[j]) by {
            assert(t[j] == ws[j] && k[j] == keep[j]);
        }
        lemma_balanced_keep(t, k, before, after);
        let r = keep_only(t, k);
        if keep[n] {
            assert(r.push(ws[n]).drop_last() =~= r);
        }
    }
}

/// An order-preserving deletion is never sent for verification: when the
/// edit's content words are the original's with some deleted and none moved
/// or added (the ordinary retraction), the edit is not worth a second pass.
pub proof fn lemma_deletion_is_not_verified(original: Seq<char>, edited: Seq<char>, keep: Seq<bool>)
    requires
        keep.len() == content_words_of(original).len(),
        content_words_of(edited) == keep_only(content_words_of(original), keep),
    ensures
        !worth_verifying(original, edited),
{
    let b = content_words_of(original);
    let a = content_words_of(edited);
    lemma_kept_words_occur(b, keep);
    assert forall|j: int| 0 <= j < b.len() && !keep[j] implies occurrences(b, #[trigger] b[j])
        != occurrences(a, b[j]) by {
        lemma_deletion_counts(b, keep, b[j]);
    }
    lemma_balanced_keep(b, keep, b, a);
    assert(!adds_words(original, edited)) by {
        assert forall|i: int| 0 <= i < a.len() implies b.contains(a[i]) by {
            assert(b.contains(keep_only(b, keep)[i]));
        }
    }
}

/// Reordering is symmetric: swapping the two versions does not change whether
/// their shared words appear in a different order.
pub proof fn lemma_reordering_is_symmetric(original: Seq<char>, edited: Seq<char>)
    ensures
        reorders(original, edited) == reorders(edited, original),
{
    let b = content_words_of(original);
    let a = content_words_of(edited);
    lemma_balanced_swap(b, b, a);
    lemma_balanced_swap(a, b, a);
}

/// A reply naming both answers has not decided: it is `Unclear`, wherever the
/// words stand.
pub proof fn lemma_both_words_are_unclear(reply: Seq<char>)
    requires
        contains(after_reasoning(lowercase(reply)), "same"@),
        contains(after_reasoning(lowercase(reply)), "changed"@),
    ensures
        verdict_of(reply) == Verdict::Unclear,
{
}

/// The verdict is read from the text after the first closing think tag;
/// nothing in front of that tag changes it.
pub proof fn lemma_reasoning_is_ignored(before: Seq<char>, after: Seq<char>)
    requires
        !contains(before, THINK_CLOSE@),
    ensures
        after_reasoning(before + THINK_CLOSE@ + after) == after,
{
    let s = before + THINK_CLOSE@ + after;
    let k = before.len() as int;
    assert(s.subrange(k, k + THINK_CLOSE@.len()) =~= THINK_CLOSE@);
    assert forall|j: int| 0 <= j < k implies !occurs_at(s, THINK_CLOSE@, j) by {
        if occurs_at(s, THINK_CLOSE@, j) {
            if j + THINK_CLOSE@.len() <= k {
                assert(before.subrange(j, j + THINK_CLOSE@.len()) =~= s.subrange(
                    j,
                    j + THINK_CLOSE@.len(),
                ));
                assert(occurs_at(before, THINK_CLOSE@, j));
            } else {
                // Two occurrences of the tag less than its length apart would
                // put its opening '<' on one of its later characters.
                reveal_strlit("</think>");
                let d = k - j;
                assert(s.subrange(k, k + THINK_CLOSE@.len())[0] == s[k]);
                assert(s.subrange(j, j + THINK_CLOSE@.len())[d] == s[k]);
                assert(THINK_CLOSE@[0] == '<');
                assert(THINK_CLOSE@[d] != '<');
            }
        }
    }
    lemma_first_index(s, THINK_CLOSE@, k);
    assert(s.skip(k + THINK_CLOSE@.len()) =~= after);
}

} // verus!
