//! The enhancement pass: take the final transcript, ask a model to edit it into
//! what the speaker meant to write, and hand back either the rewrite or, when
//! anything looks wrong, the original text untouched.
//!
//! A dictation app that sometimes eats a sentence is worse than one that never
//! edits it, so every failure path returns the raw transcript.
use vstd::prelude::*;
use std::time::{Duration, Instant};
use crate::prompt::{
    build_system_prompt, build_user_prompt, guard, noop, sanity_check, system_prompt,
    AppContext, EnhanceOptions, Rejection,
};
use crate::catalog::{PromptStyle, ALPACA_INSTRUCTION, ALPACA_PREAMBLE};
use crate::text::{
    str_eq,
    chars_of, contains, first_index, has_char, has_char_in, find_in, last_index, rfind_in,
    trim, trim_bounds, lemma_first_index, lemma_last_index,
};
use crate::verify::{
    build_verify_input, build_verify_prompt, needs_verification, parse_verdict, verdict_of,
    verify_input, worth_verifying, Verdict, VerifyMode, VERIFY_PROMPT,
};

verus! {

#[verifier::external_type_specification]
#[verifier::external_body]
pub struct ExInstant(Instant);

/// `Duration` is `Copy`: its `clone` is a copy of the value.
pub assume_specification[ <Duration as Clone>::clone ](d: &Duration) -> (r: Duration)
    ensures
        r == *d,
;

/// Whole nanoseconds in a duration, as `Duration::as_nanos` reports them.
pub uninterp spec fn nanos(d: Duration) -> nat;

/// Calls `Duration::as_nanos`: the duration's length in nanoseconds, named
/// `nanos`.
#[verifier::external_body]
pub(crate) fn duration_nanos(d: &Duration) -> (n: u128)
    ensures
        n == nanos(*d),
{
    d.as_nanos()
}

/// Calls `Duration::from_secs`: a duration of `secs` whole seconds.
#[verifier::external_body]
pub(crate) fn seconds(secs: u64) -> (d: Duration)
    ensures
        nanos(d) == secs * 1_000_000_000,
{
    Duration::from_secs(secs)
}

/// Calls `Instant::now`. Nothing is stated of the reading.
#[verifier::external_body]
pub(crate) fn clock_now() -> Instant {
    Instant::now()
}

/// Calls `Instant::elapsed`. Nothing is stated of the measured time.
#[verifier::external_body]
pub(crate) fn elapsed_since(start: &Instant) -> Duration {
    start.elapsed()
}

/// The whole Alpaca prompt for the user turn `user`: the preamble, the
/// instruction, the input and an open response.
pub open spec fn alpaca_prompt(user: Seq<char>) -> Seq<char> {
    ALPACA_PREAMBLE@ + "\n\n### Instruction:\n"@ + ALPACA_INSTRUCTION@ + "\n\n### Input:\n"@ + user
        + "\n\n### Response:\n"@
}

/// The system and user turns a model prompted in `style` is sent for a
/// request of `system` and `user`.
///
/// A stock instruction-tuned model gets the request as it is. A model
/// fine-tuned on the task gets an empty system turn (empty, not absent) and
/// the transcript. A base-model fine-tune gets an empty system turn and the
/// whole Alpaca prompt as one user turn, since a chat template wrapping a
/// split prompt produces a shape it never saw. The verification request keeps
/// its own prompt whatever the style: the style says how the weights expect
/// an edit to be asked for.
pub open spec fn turns_for(style: PromptStyle, system: Seq<char>, user: Seq<char>) -> (
    Seq<char>,
    Seq<char>,
) {
    if system == VERIFY_PROMPT@ {
        (system, user)
    } else {
        match style {
            PromptStyle::Instructed => (system, user),
            PromptStyle::Tuned => (Seq::<char>::empty(), user),
            PromptStyle::Alpaca => (Seq::<char>::empty(), alpaca_prompt(user)),
        }
    }
}

/// Lay out a request's turns for a model prompted in `style` (see
/// [`turns_for`]).
pub fn lay_out_turns(style: PromptStyle, system: &str, user: &str) -> (r: (String, String))
    ensures
        (r.0@, r.1@) == turns_for(style, system@, user@),
{
    let mut s = String::new();
    s.append(system);
    let mut u = String::new();
    if str_eq(system, VERIFY_PROMPT) {
        u.append(user);
        return (s, u);
    }
    match style {
        PromptStyle::Instructed => {
            u.append(user);
            (s, u)
        },
        PromptStyle::Tuned => {
            u.append(user);
            (String::new(), u)
        },
        PromptStyle::Alpaca => {
            u.append(ALPACA_PREAMBLE);
            u.append("\n\n### Instruction:\n");
            u.append(ALPACA_INSTRUCTION);
            u.append("\n\n### Input:\n");
            u.append(user);
            u.append("\n\n### Response:\n");
            (String::new(), u)
        },
    }
}

/// Sampling parameters for a pass.
#[derive(Debug, Clone)]
pub struct GenParams {
    /// Hard ceiling on generated tokens.
    pub max_tokens: usize,
    /// Abandon the pass if it outruns this, and paste the raw transcript.
    pub timeout: Duration,
}

/// Token budget for an edit of a transcript of `chars` characters: about twice
/// the input's token count plus headroom, clamped to `64..=2048`.
pub open spec fn edit_budget(chars: int) -> int {
    let doubled = (chars / 3 + 32) * 2;
    if doubled < 64 {
        64
    } else if doubled > 2048 {
        2048
    } else {
        doubled
    }
}

/// Token budget for a verification pass, sized for a reasoning model thinking
/// its way to a one-word answer.
pub const VERIFY_MAX_TOKENS: usize = 1400;

/// Seconds an edit pass may run.
pub const EDIT_TIMEOUT_SECS: u64 = 30;

/// Seconds a verification pass may run.
pub const VERIFY_TIMEOUT_SECS: u64 = 20;

/// How long an edit may take, in nanoseconds, before a second pass in `Auto`
/// mode is not worth waiting for.
pub const VERIFY_BUDGET_NANOS: u128 = 2_500_000_000;

impl GenParams {
    /// Budget a pass for a transcript of `chars` characters. This bounds a
    /// runaway generation; it does not shape the output.
    pub fn for_input(chars: usize) -> (p: Self)
        ensures
            p.max_tokens == edit_budget(chars as int),
            64 <= p.max_tokens <= 2048,
            nanos(p.timeout) == EDIT_TIMEOUT_SECS * 1_000_000_000,
    {
        let approx = chars / 3 + 32;
        let doubled = if approx > usize::MAX / 2 {
            usize::MAX
        } else {
            approx * 2
        };
        let max_tokens = if doubled < 64 {
            64
        } else if doubled > 2048 {
            2048
        } else {
            doubled
        };
        GenParams { max_tokens, timeout: seconds(EDIT_TIMEOUT_SECS) }
    }
}

/// A loaded model that can run a pass. Implemented by whatever hosts
/// inference.
pub trait Backend {
    /// Whether `reply` is an answer this backend may give to a request with
    /// system turn `system`, user turn `user`, a budget of `max_tokens` tokens
    /// and a timeout of `timeout_nanos` nanoseconds. It ties each reply to the
    /// backend that gave it and to what that backend was asked; an
    /// implementation that promises nothing of its answers keeps the default,
    /// `true`.
    open spec fn answers(
        &self,
        system: Seq<char>,
        user: Seq<char>,
        max_tokens: nat,
        timeout_nanos: nat,
        reply: Result<Seq<char>, Seq<char>>,
    ) -> bool {
        true
    }

    /// Run one generation and return the raw completion text, or why it failed.
    fn generate(&self, system: &str, user: &str, params: &GenParams) -> (r: Result<String, String>)
        ensures
            self.answers(
                system@,
                user@,
                params.max_tokens as nat,
                nanos(params.timeout),
                reply_view(r),
            ),
    ;

    /// Whether `ready` is an answer this backend may give when asked whether
    /// it is ready. It ties the pass's readiness to what `is_ready` said; an
    /// implementation that promises nothing keeps the default, `true`.
    open spec fn reports_ready(&self, ready: bool) -> bool {
        true
    }

    /// Whether a model is loaded and ready to serve a request.
    fn is_ready(&self) -> (r: bool)
        ensures
            self.reports_ready(r),
    ;
}

/// Outcome of a pass, including why it fell back when it did.
#[derive(Debug, Clone)]
pub struct Enhanced {
    /// Text to paste. Equals the input transcript on any fallback path.
    pub text: String,
    /// The untouched transcript, always preserved for history and undo.
    pub original: String,
    /// Set when the model ran but its output was refused.
    pub rejected: Option<Rejection>,
    /// Verdict from the meaning check, when one ran.
    pub verdict: Option<Verdict>,
    /// Set when the model could not be run at all.
    pub error: Option<String>,
    /// Wall-clock time spent in the pass.
    pub elapsed: Duration,
}

impl Enhanced {
    /// The raw transcript, passed through with nothing to report.
    pub fn passthrough(original: String, elapsed: Duration) -> (r: Self)
        ensures
            r.text@ == original@,
            r.original == original,
            r.rejected is None,
            r.verdict is None,
            r.error is None,
            r.elapsed == elapsed,
    {
        let mut text = String::new();
        text.append(original.as_str());
        Enhanced { text, original, rejected: None, verdict: None, error: None, elapsed }
    }

    /// True when the paste text differs from what was transcribed.
    pub fn changed(&self) -> (b: bool)
        ensures
            b == (self.text@ != self.original@),
    {
        !(self.text == self.original)
    }
}

/// The error reported when the editing model is not loaded.
pub const NOT_LOADED: &'static str = "enhancement model is not loaded";

/// The opening and closing fence of a code block.
pub const FENCE: &'static str = "```";

/// `s` with a fenced block unwrapped: when `s` opens with a fence, drop it and
/// an optional language tag up to the first newline, and if a fence closes the
/// block, keep what precedes the last fence, trimmed.
pub open spec fn unfence(s: Seq<char>) -> Seq<char> {
    if FENCE@.is_prefix_of(s) {
        let rest0 = s.skip(FENCE@.len() as int);
        let rest = if contains(rest0, "\n"@) {
            rest0.skip(first_index(rest0, "\n"@) + 1)
        } else {
            rest0
        };
        if contains(rest, FENCE@) {
            trim(rest.take(last_index(rest, FENCE@)))
        } else {
            s
        }
    } else {
        s
    }
}

/// `s` without a pair of quotes enclosing all of it, when neither quote
/// character also occurs inside.
pub open spec fn unquote(s: Seq<char>, open: char, close: char) -> Seq<char> {
    if s.len() >= 2 && s[0] == open && s[s.len() - 1] == close {
        let inner = s.subrange(1, s.len() - 1);
        if !has_char(inner, open) && !has_char(inner, close) {
            trim(inner)
        } else {
            s
        }
    } else {
        s
    }
}

/// A reply with the decoration small models wrap answers in removed: a fenced
/// block, then straight double quotes, curly double quotes and single quotes,
/// each only when it encloses the whole reply.
pub open spec fn unwrapped(raw: Seq<char>) -> Seq<char> {
    unquote(
        unquote(unquote(unfence(trim(raw)), '"', '"'), '\u{201c}', '\u{201d}'),
        '\'',
        '\'',
    )
}

/// Bounds of `v[a..b]` with one pair of enclosing quotes removed.
fn unquote_bounds(v: &[char], a: usize, b: usize, open: char, close: char) -> (r: (usize, usize))
    requires
        a <= b <= v@.len(),
    ensures
        a <= r.0 <= r.1 <= b,
        v@.subrange(r.0 as int, r.1 as int) == unquote(v@.subrange(a as int, b as int), open, close),
{
    let ghost s = v@.subrange(a as int, b as int);
    if b - a >= 2 && v[a] == open && v[b - 1] == close {
        proof {
            assert(s[0] == v@[a as int]);
            assert(s[s.len() - 1] == v@[b - 1]);
            assert(s.subrange(1, s.len() - 1) =~= v@.subrange(a + 1, b - 1));
        }
        if !has_char_in(v, a + 1, b - 1, open) && !has_char_in(v, a + 1, b - 1, close) {
            return trim_bounds(v, a + 1, b - 1);
        }
    }
    (a, b)
}

/// Bounds of `v[a..b]` with a fenced block unwrapped.
fn unfence_bounds(v: &[char], a: usize, b: usize) -> (r: (usize, usize))
    requires
        a <= b <= v@.len(),
    ensures
        a <= r.0 <= r.1 <= b,
        v@.subrange(r.0 as int, r.1 as int) == unfence(v@.subrange(a as int, b as int)),
{
    let ghost s = v@.subrange(a as int, b as int);
    let fence = chars_of(FENCE);
    let newline = chars_of("\n");
    if b - a < fence.len() {
        return (a, b);
    }
    let w = crate::text::copy_range(v, a, a + fence.len());
    if !crate::text::matches_at(w.as_slice(), fence.as_slice(), 0) {
        proof {
            assert(w@.subrange(0, fence@.len() as int) =~= w@);
            assert(s.subrange(0, fence@.len() as int) =~= w@);
        }
        return (a, b);
    }
    proof {
        assert(w@.subrange(0, 0 + fence@.len() as int) =~= w@);
        assert(s.subrange(0, fence@.len() as int) =~= w@);
    }
    let r0 = a + fence.len();
    let ghost rest0 = s.skip(fence@.len() as int);
    assert(rest0 =~= v@.subrange(r0 as int, b as int));
    let r1 = match find_in(v, newline.as_slice(), r0, b) {
        Some(k) => {
            proof {
                reveal_strlit("\n");
                assert(newline@.len() == 1);
                lemma_first_index(rest0, newline@, k as int);
                assert(rest0.skip(k + 1) =~= v@.subrange(r0 + k + 1, b as int));
            }
            r0 + k + 1
        },
        None => r0,
    };
    let ghost rest = v@.subrange(r1 as int, b as int);
    match rfind_in(v, fence.as_slice(), r1, b) {
        Some(k) => {
            proof {
                lemma_last_index(rest, fence@, k as int);
                assert(rest.take(k as int) =~= v@.subrange(r1 as int, r1 + k));
            }
            trim_bounds(v, r1, r1 + k)
        },
        None => (a, b),
    }
}

/// Strip decoration small models like to wrap their answer in.
///
/// Quotes or a fenced block are removed only when they enclose the entire
/// reply, so a transcript that opens and closes with a quotation mark of its
/// own survives intact.
pub fn strip_wrapping(raw: &str) -> (r: &str)
    ensures
        r@ == unwrapped(raw@),
{
    let v = chars_of(raw);
    let n = v.len();
    assert(v@.subrange(0, n as int) =~= v@);
    let (a0, b0) = trim_bounds(v.as_slice(), 0, n);
    let (a1, b1) = unfence_bounds(v.as_slice(), a0, b0);
    let (a2, b2) = unquote_bounds(v.as_slice(), a1, b1, '"', '"');
    let (a3, b3) = unquote_bounds(v.as_slice(), a2, b2, '\u{201c}', '\u{201d}');
    let (a4, b4) = unquote_bounds(v.as_slice(), a3, b3, '\'', '\'');
    raw.substring_char(a4, b4)
}

/// Whether a second pass is affordable, judged by how long the edit took.
pub fn affordable(edit_took: Duration) -> (b: bool)
    ensures
        b == (nanos(edit_took) <= VERIFY_BUDGET_NANOS),
{
    duration_nanos(&edit_took) <= VERIFY_BUDGET_NANOS
}

/// Whether verification is wanted for an edit in `mode`.
pub open spec fn wants_verification(
    mode: VerifyMode,
    original: Seq<char>,
    edited: Seq<char>,
    edit_took: Duration,
) -> bool {
    match mode {
        VerifyMode::Off => false,
        VerifyMode::Always => true,
        VerifyMode::Auto => worth_verifying(original, edited) && nanos(edit_took)
            <= VERIFY_BUDGET_NANOS,
    }
}

/// The verdict a verifier's reply stands for: an unreadable or failed reply is
/// `Unclear`, so a broken safety net does not cost the user a rewrite.
pub open spec fn reply_verdict(reply: Result<Seq<char>, Seq<char>>) -> Verdict {
    match reply {
        Ok(text) => verdict_of(text),
        Err(_) => Verdict::Unclear,
    }
}

/// The character views of a reply.
pub open spec fn reply_view(reply: Result<String, String>) -> Result<Seq<char>, Seq<char>> {
    match reply {
        Ok(t) => Ok(t@),
        Err(e) => Err(e@),
    }
}

/// Read the verdict out of a verifier's reply.
pub fn verdict_from_reply(reply: &Result<String, String>) -> (v: Verdict)
    ensures
        v == reply_verdict(reply_view(*reply)),
{
    match reply {
        Ok(text) => parse_verdict(text.as_str()),
        Err(_) => Verdict::Unclear,
    }
}

/// The request sent to the verifier: the verification prompt, both versions,
/// and the verification budget.
pub fn verification_request(original: &str, edited: &str) -> (req: (String, String, GenParams))
    ensures
        req.0@ == VERIFY_PROMPT@,
        req.1@ == verify_input(original@, edited@),
        req.2.max_tokens == VERIFY_MAX_TOKENS,
        nanos(req.2.timeout) == VERIFY_TIMEOUT_SECS * 1_000_000_000,
{
    let system = build_verify_prompt();
    let input = build_verify_input(original, edited);
    let params = GenParams { max_tokens: VERIFY_MAX_TOKENS, timeout: seconds(VERIFY_TIMEOUT_SECS) };
    (system, input, params)
}

/// The request sent to the editor for a trimmed transcript: the system prompt
/// for the options, the transcript, and a budget sized to it.
pub fn edit_request(trimmed: &str, opts: &EnhanceOptions, ctx: &AppContext) -> (req: (
    String,
    String,
    GenParams,
))
    ensures
        req.0@ == system_prompt(*opts, *ctx),
        req.1@ == trim(trimmed@),
        req.2.max_tokens == crate::enhance::edit_budget(trimmed@.len() as int),
        nanos(req.2.timeout) == EDIT_TIMEOUT_SECS * 1_000_000_000,
{
    let system = build_system_prompt(opts, ctx);
    let user = build_user_prompt(trimmed);
    let params = GenParams::for_input(trimmed.unicode_len());
    (system, user, params)
}

/// `v` is the verdict read from an answer `verifier` may give when asked, with
/// the verification prompt and budget, about `original` and `edited`.
pub open spec fn verdict_answered<V: Backend + ?Sized>(
    verifier: &V,
    original: Seq<char>,
    edited: Seq<char>,
    v: Verdict,
) -> bool {
    exists|vr: Result<Seq<char>, Seq<char>>|
        #[trigger] verifier.answers(
            VERIFY_PROMPT@,
            verify_input(original, edited),
            VERIFY_MAX_TOKENS as nat,
            (VERIFY_TIMEOUT_SECS * 1_000_000_000) as nat,
            vr,
        ) && v == reply_verdict(vr)
}

/// What a meaning check about `original` and `edited` may conclude: nothing
/// when the mode does not want one; otherwise nothing only when `verifier`
/// said it was not ready, and else, having said it was ready, the verdict read
/// from its answer to the verification request.
pub open spec fn checked<V: Backend + ?Sized>(
    verifier: &V,
    mode: VerifyMode,
    original: Seq<char>,
    edited: Seq<char>,
    edit_took: Duration,
    r: Option<Verdict>,
) -> bool {
    if !wants_verification(mode, original, edited, edit_took) {
        r is None
    } else {
        match r {
            None => verifier.reports_ready(false),
            Some(v) => verifier.reports_ready(true) && verdict_answered(verifier, original, edited, v),
        }
    }
}

/// Run the meaning check, or decide it is not worth running.
///
/// Returns `None` when no verification happened: `Off`, an `Auto` edit that
/// needs no check or came too slowly, or a verifier that is not ready. A
/// verifier that errors is reported as `Unclear`.
pub fn run_verification<V: Backend + ?Sized>(
    verifier: &V,
    mode: VerifyMode,
    original: &str,
    edited: &str,
    edit_took: Duration,
) -> (r: Option<Verdict>)
    ensures
        checked(verifier, mode, original@, edited@, edit_took, r),
{
    let wanted = match mode {
        VerifyMode::Off => false,
        VerifyMode::Always => true,
        VerifyMode::Auto => needs_verification(original, edited) && affordable(edit_took),
    };
    if !wanted || !verifier.is_ready() {
        return None;
    }
    let (system, input, params) = verification_request(original, edited);
    let reply = verifier.generate(system.as_str(), input.as_str(), &params);
    let v = verdict_from_reply(&reply);
    proof {
        let vr = reply_view(reply);
        assert(params.max_tokens as nat == VERIFY_MAX_TOKENS as nat);
        assert(nanos(params.timeout) == (VERIFY_TIMEOUT_SECS * 1_000_000_000) as nat);
        assert(verifier.answers(
            VERIFY_PROMPT@,
            verify_input(original@, edited@),
            VERIFY_MAX_TOKENS as nat,
            (VERIFY_TIMEOUT_SECS * 1_000_000_000) as nat,
            vr,
        ));
        assert(v == reply_verdict(vr));
    }
    assert(verdict_answered(verifier, original@, edited@, v));
    Some(v)
}

/// The observable result of a pass, as plain values.
pub open spec fn result_of(r: Enhanced) -> (Seq<char>, Option<Rejection>, Option<Verdict>, Option<
    Seq<char>,
>) {
    (
        r.text@,
        r.rejected,
        r.verdict,
        match r.error {
            Some(e) => Some(e@),
            None => None,
        },
    )
}

/// What a pass makes of `transcript`, given whether the editor was ready, what
/// it replied, and what verification concluded about the cleaned reply.
///
/// Empty input or options that change nothing pass through without the model;
/// an editor that is not ready or fails reports an error; a reply the guards
/// refuse is rejected; a `Changed` verdict falls back; otherwise the cleaned
/// reply is pasted. Every fallback pastes the transcript as it came.
pub open spec fn outcome(
    transcript: Seq<char>,
    o: EnhanceOptions,
    ready: bool,
    reply: Result<Seq<char>, Seq<char>>,
    verdict: Option<Verdict>,
) -> (Seq<char>, Option<Rejection>, Option<Verdict>, Option<Seq<char>>) {
    let t = trim(transcript);
    if t.len() == 0 || noop(o) {
        (transcript, None, None, None)
    } else if !ready {
        (transcript, None, None, Some(NOT_LOADED@))
    } else {
        match reply {
            Err(e) => (transcript, None, None, Some(e)),
            Ok(raw) => match guard(t, unwrapped(raw), o.aggressiveness) {
                Err(j) => (transcript, Some(j), None, None),
                Ok(_) => if verdict == Some(Verdict::Changed) {
                    (transcript, None, verdict, None)
                } else {
                    (unwrapped(raw), None, verdict, None)
                },
            },
        }
    }
}

/// A verdict can only come from a check the mode asks for: never under `Off`,
/// and under `Auto` only for an edit worth verifying.
pub open spec fn verdict_allowed(
    mode: VerifyMode,
    t: Seq<char>,
    reply: Result<Seq<char>, Seq<char>>,
    verdict: Option<Verdict>,
) -> bool {
    verdict is Some ==> match mode {
        VerifyMode::Off => false,
        VerifyMode::Always => true,
        VerifyMode::Auto => match reply {
            Ok(raw) => worth_verifying(trim(t), unwrapped(raw)),
            Err(_) => false,
        },
    }
}

/// The pass produced `r` for `transcript` with this readiness, reply and verdict.
pub open spec fn produced(
    r: Enhanced,
    transcript: Seq<char>,
    o: EnhanceOptions,
    ready: bool,
    reply: Result<Seq<char>, Seq<char>>,
    verdict: Option<Verdict>,
) -> bool {
    &&& verdict_allowed(o.verify, transcript, reply, verdict)
    &&& result_of(r) == outcome(transcript, o, ready, reply, verdict)
}

/// The pass asked each backend what it should, and reports what they said:
/// when there was work to do, `ready` is what the editor said when asked
/// whether it was ready; when it was ready, `reply` is an answer the editor
/// may give to the edit request (the system prompt for the options, the
/// trimmed transcript, its budget and timeout); and once a reply passed the
/// guards, `verdict` is what the meaning check concluded about the trimmed
/// transcript and the cleaned reply, the edit having taken `took` (see
/// [`checked`]). There is no verdict otherwise.
pub open spec fn asked<B: Backend + ?Sized, V: Backend + ?Sized>(
    backend: &B,
    verifier: &V,
    transcript: Seq<char>,
    o: EnhanceOptions,
    c: AppContext,
    ready: bool,
    reply: Result<Seq<char>, Seq<char>>,
    verdict: Option<Verdict>,
    took: Duration,
) -> bool {
    let t = trim(transcript);
    let work = t.len() > 0 && !noop(o);
    &&& work ==> backend.reports_ready(ready)
    &&& (work && ready) ==> backend.answers(
        system_prompt(o, c),
        t,
        edit_budget(t.len() as int) as nat,
        (EDIT_TIMEOUT_SECS * 1_000_000_000) as nat,
        reply,
    )
    &&& match reply {
        Ok(raw) => if work && ready && guard(t, unwrapped(raw), o.aggressiveness) is Ok {
            checked(verifier, o.verify, t, unwrapped(raw), took, verdict)
        } else {
            verdict is None
        },
        Err(_) => verdict is None,
    }
}

/// Enhance `transcript` with `backend`, falling back to the raw text on any
/// failure. Never fails: a broken layer degrades to plain dictation.
pub fn enhance<B: Backend + ?Sized>(
    backend: &B,
    transcript: &str,
    opts: &EnhanceOptions,
    ctx: &AppContext,
) -> (r: Enhanced)
    ensures
        r.original@ == transcript@,
        exists|ready: bool, reply: Result<Seq<char>, Seq<char>>, verdict: Option<Verdict>, took: Duration|
            #![trigger produced(r, transcript@, *opts, ready, reply, verdict), asked(
                backend,
                    backend,
                    transcript@,
                    *opts,
                    *ctx,
                    ready,
                    reply,
                    verdict,
                    took,
                )]
            produced(r, transcript@, *opts, ready, reply, verdict) && asked(
                backend,
                backend,
                transcript@,
                *opts,
                *ctx,
                ready,
                reply,
                verdict,
                took,
            ),
{
    enhance_with_verifier(backend, backend, transcript, opts, ctx)
}

/// The result of a pass once the editor has replied `reply` and, for a reply
/// the guards accept, verification has concluded `verdict`, `elapsed` into
/// the pass.
///
/// A failed reply reports its error, a reply the guards refuse is rejected, a
/// `Changed` verdict falls back, and otherwise the cleaned reply is pasted;
/// every fallback pastes the transcript as it came.
pub fn finish_pass(
    transcript: &str,
    reply: Result<String, String>,
    verdict: Option<Verdict>,
    opts: &EnhanceOptions,
    elapsed: Duration,
) -> (r: Enhanced)
    requires
        trim(transcript@).len() > 0,
        !noop(*opts),
    ensures
        r.original@ == transcript@,
        r.elapsed == elapsed,
        result_of(r) == outcome(transcript@, *opts, true, reply_view(reply), verdict),
{
    let mut original = String::new();
    original.append(transcript);
    match reply {
        Err(e) => Enhanced { error: Some(e), ..Enhanced::passthrough(original, elapsed) },
        Ok(raw) => {
            let trimmed = crate::text::trim_str(transcript);
            let cleaned = strip_wrapping(raw.as_str());
            match sanity_check(trimmed, cleaned, opts.aggressiveness) {
                Err(rejection) => Enhanced {
                    rejected: Some(rejection),
                    ..Enhanced::passthrough(original, elapsed)
                },
                Ok(()) => {
                    let is_changed = match verdict {
                        Some(Verdict::Changed) => true,
                        _ => false,
                    };
                    if is_changed {
                        Enhanced { verdict, ..Enhanced::passthrough(original, elapsed) }
                    } else {
                        let mut text = String::new();
                        text.append(cleaned);
                        Enhanced { text, original, rejected: None, verdict, error: None, elapsed }
                    }
                },
            }
        },
    }
}

/// Like [`enhance`], but runs the verification pass on a separate backend.
pub fn enhance_with_verifier<B: Backend + ?Sized, V: Backend + ?Sized>(
    backend: &B,
    verifier: &V,
    transcript: &str,
    opts: &EnhanceOptions,
    ctx: &AppContext,
) -> (r: Enhanced)
    ensures
        r.original@ == transcript@,
        exists|ready: bool, reply: Result<Seq<char>, Seq<char>>, verdict: Option<Verdict>, took: Duration|
            #![trigger produced(r, transcript@, *opts, ready, reply, verdict), asked(
                backend,
                    verifier,
                    transcript@,
                    *opts,
                    *ctx,
                    ready,
                    reply,
                    verdict,
                    took,
                )]
            produced(r, transcript@, *opts, ready, reply, verdict) && asked(
                backend,
                verifier,
                transcript@,
                *opts,
                *ctx,
                ready,
                reply,
                verdict,
                took,
            ),
{
    let started = clock_now();
    let mut original = String::new();
    original.append(transcript);
    let trimmed = crate::text::trim_str(transcript);
    let ghost no_reply: Result<Seq<char>, Seq<char>> = Err(Seq::empty());
    let ghost mut took: Duration = vstd::pervasive::arbitrary();
    if trimmed.unicode_len() == 0 || opts.is_noop() {
        let r = Enhanced::passthrough(original, elapsed_since(&started));
        assert(produced(r, transcript@, *opts, true, no_reply, None));
        assert(asked(backend, verifier, transcript@, *opts, *ctx, true, no_reply, None, took));
        return r;
    }
    if !backend.is_ready() {
        let mut err = String::new();
        err.append(NOT_LOADED);
        let r = Enhanced { error: Some(err), ..Enhanced::passthrough(original, elapsed_since(&started)) };
        assert(produced(r, transcript@, *opts, false, no_reply, None));
        assert(asked(backend, verifier, transcript@, *opts, *ctx, false, no_reply, None, took));
        return r;
    }
    let (system, user, params) = edit_request(trimmed, opts, ctx);
    let reply = backend.generate(system.as_str(), user.as_str(), &params);
    let verdict = match &reply {
        Ok(raw) => {
            let cleaned = strip_wrapping(raw.as_str());
            match sanity_check(trimmed, cleaned, opts.aggressiveness) {
                Ok(()) => {
                    let edit_took = elapsed_since(&started);
                    proof {
                        took = edit_took;
                    }
                    run_verification(verifier, opts.verify, trimmed, cleaned, edit_took)
                },
                Err(_) => None,
            }
        },
        Err(_) => None,
    };
    let ghost rv = reply_view(reply);
    let r = finish_pass(transcript, reply, verdict, opts, elapsed_since(&started));
    proof {
        crate::text::lemma_trim_idempotent(transcript@);
        assert(produced(r, transcript@, *opts, true, rv, verdict));
        assert(asked(backend, verifier, transcript@, *opts, *ctx, true, rv, verdict, took));
    }
    r
}

/// Every fallback pastes the transcript exactly as it came: whenever a pass
/// reports an error, a rejection or a `Changed` verdict, the text to paste is
/// the input.
pub proof fn lemma_fallbacks_paste_the_transcript(
    transcript: Seq<char>,
    o: EnhanceOptions,
    ready: bool,
    reply: Result<Seq<char>, Seq<char>>,
    verdict: Option<Verdict>,
)
    ensures
        ({
            let (text, rejected, v, error) = outcome(transcript, o, ready, reply, verdict);
            (rejected is Some || error is Some || v == Some(Verdict::Changed)) ==> text
                == transcript
        }),
{
}

/// Anything pasted in place of the transcript is the unwrapped reply of the
/// editor and passed the guards against the trimmed transcript.
pub proof fn lemma_pasted_rewrites_passed_the_guards(
    transcript: Seq<char>,
    o: EnhanceOptions,
    ready: bool,
    reply: Result<Seq<char>, Seq<char>>,
    verdict: Option<Verdict>,
)
    ensures
        ({
            let (text, _, _, _) = outcome(transcript, o, ready, reply, verdict);
            text != transcript ==> (reply matches Ok(raw) && text == unwrapped(raw) && guard(
                trim(transcript),
                text,
                o.aggressiveness,
            ) is Ok)
        }),
{
}

/// Empty input and options that change nothing never reach the model: the
/// transcript passes through with nothing to report, whatever the model would
/// have said.
pub proof fn lemma_nothing_to_do_passes_through(
    transcript: Seq<char>,
    o: EnhanceOptions,
    ready: bool,
    reply: Result<Seq<char>, Seq<char>>,
    verdict: Option<Verdict>,
)
    requires
        trim(transcript).len() == 0 || noop(o),
    ensures
        outcome(transcript, o, ready, reply, verdict) == (transcript, None::<Rejection>, None::<
            Verdict,
        >, None::<Seq<char>>),
{
}

/// With verification off no verdict is ever reported, so nothing the
/// verifier could say affects the result.
pub proof fn lemma_verify_off_reports_no_verdict(
    r: Enhanced,
    transcript: Seq<char>,
    o: EnhanceOptions,
    ready: bool,
    reply: Result<Seq<char>, Seq<char>>,
    verdict: Option<Verdict>,
)
    requires
        o.verify == VerifyMode::Off,
        produced(r, transcript, o, ready, reply, verdict),
    ensures
        r.verdict is None,
{
}

/// The edit budget never shrinks as the transcript grows.
pub proof fn lemma_budget_grows_with_input(short: int, long: int)
    requires
        0 <= short <= long,
    ensures
        edit_budget(short) <= edit_budget(long),
        64 <= edit_budget(short) <= 2048,
{
    assert(short / 3 <= long / 3) by (nonlinear_arith)
        requires
            0 <= short <= long,
    ;
}

/// A tone instruction alone is work for the model: with a non-empty
/// transcript, a ready editor whose reply passes the guards and no `Changed`
/// verdict, the pass pastes the cleaned reply rather than the transcript.
pub proof fn lemma_a_tone_alone_reaches_the_model(
    transcript: Seq<char>,
    o: EnhanceOptions,
    raw: Seq<char>,
    verdict: Option<Verdict>,
)
    requires
        o.tone_preset is Some,
        trim(transcript).len() > 0,
        guard(trim(transcript), unwrapped(raw), o.aggressiveness) is Ok,
        verdict != Some(Verdict::Changed),
    ensures
        outcome(transcript, o, true, Ok(raw), verdict).0 == unwrapped(raw),
{
}

} // verus!
