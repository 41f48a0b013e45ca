use handy_enhance::catalog::{PromptStyle, ALPACA_INSTRUCTION, ALPACA_PREAMBLE};
use handy_enhance::verify::build_verify_prompt;
use handy_enhance::enhance::{
    affordable, enhance, enhance_with_verifier, finish_pass, lay_out_turns, run_verification,
    strip_wrapping, Backend, GenParams,
};
use handy_enhance::prompt::{AppContext, EnhanceOptions, Rejection};
use handy_enhance::verify::{Verdict, VerifyMode};
use std::sync::Mutex;
use std::time::Duration;

struct StubBackend {
    reply: Result<String, String>,
    ready: bool,
    calls: Mutex<usize>,
}

impl StubBackend {
    fn replying(text: &str) -> Self {
        Self {
            reply: Ok(text.to_string()),
            ready: true,
            calls: Mutex::new(0),
        }
    }
    fn failing() -> Self {
        Self {
            reply: Err("model exploded".to_string()),
            ready: true,
            calls: Mutex::new(0),
        }
    }
    fn unloaded() -> Self {
        Self {
            reply: Ok(String::new()),
            ready: false,
            calls: Mutex::new(0),
        }
    }
    fn call_count(&self) -> usize {
        *self.calls.lock().expect("call counter poisoned")
    }
}

impl Backend for StubBackend {
    fn generate(&self, _system: &str, _user: &str, _params: &GenParams) -> Result<String, String> {
        *self.calls.lock().expect("call counter poisoned") += 1;
        self.reply.clone()
    }
    fn is_ready(&self) -> bool {
        self.ready
    }
}

fn opts() -> EnhanceOptions {
    EnhanceOptions::default()
}

#[test]
fn returns_the_rewrite_when_it_passes_checks() {
    let b = StubBackend::replying("So the meeting is moved to Friday at three.");
    let out = enhance(
        &b,
        "um so the meeting is uh moved to friday at three",
        &opts(),
        &AppContext::default(),
    );
    assert_eq!(out.text, "So the meeting is moved to Friday at three.");
    assert!(out.changed());
    assert!(out.rejected.is_none());
}

#[test]
fn falls_back_to_raw_transcript_when_generation_fails() {
    let b = StubBackend::failing();
    let raw = "the meeting is friday";
    let out = enhance(&b, raw, &opts(), &AppContext::default());
    assert_eq!(out.text, raw);
    assert!(out.error.is_some());
}

#[test]
fn falls_back_when_output_is_rejected() {
    let b = StubBackend::replying("Friday.");
    let raw = "so I was thinking we could move the meeting to friday afternoon";
    let out = enhance(&b, raw, &opts(), &AppContext::default());
    assert_eq!(out.text, raw);
    assert_eq!(out.rejected, Some(Rejection::TooShort));
}

#[test]
fn original_is_always_preserved() {
    let raw = "um the meeting is friday";
    for b in [
        StubBackend::replying("The meeting is Friday."),
        StubBackend::failing(),
        StubBackend::replying("Friday."),
    ] {
        let out = enhance(&b, raw, &opts(), &AppContext::default());
        assert_eq!(out.original, raw);
    }
}

#[test]
fn skips_the_model_for_empty_input() {
    let b = StubBackend::replying("something");
    let out = enhance(&b, "   ", &opts(), &AppContext::default());
    assert_eq!(out.text, "   ");
    assert_eq!(b.call_count(), 0);
}

#[test]
fn skips_the_model_when_every_feature_is_off() {
    let b = StubBackend::replying("something");
    let off = EnhanceOptions {
        remove_fillers: false,
        fix_self_corrections: false,
        fix_punctuation: false,
        ..Default::default()
    };
    let out = enhance(&b, "hello there", &off, &AppContext::default());
    assert_eq!(out.text, "hello there");
    assert_eq!(b.call_count(), 0);
}

#[test]
fn reports_an_unloaded_model_without_losing_text() {
    let b = StubBackend::unloaded();
    let out = enhance(&b, "hello there", &opts(), &AppContext::default());
    assert_eq!(out.text, "hello there");
    assert!(out.error.is_some());
    assert_eq!(b.call_count(), 0);
}

/// A backend that answers edits with one script and verifications with
/// another, so a test can drive both passes independently.
struct ScriptedBackend {
    edit: String,
    verify_reply: String,
    verify_calls: Mutex<usize>,
}

impl ScriptedBackend {
    fn new(edit: &str, verify_reply: &str) -> Self {
        Self {
            edit: edit.to_string(),
            verify_reply: verify_reply.to_string(),
            verify_calls: Mutex::new(0),
        }
    }
    fn verify_calls(&self) -> usize {
        *self.verify_calls.lock().expect("counter poisoned")
    }
}

impl Backend for ScriptedBackend {
    fn generate(&self, system: &str, _user: &str, _p: &GenParams) -> Result<String, String> {
        if system.contains("Reply with exactly one word: SAME or CHANGED.") {
            *self.verify_calls.lock().expect("counter poisoned") += 1;
            Ok(self.verify_reply.clone())
        } else {
            Ok(self.edit.clone())
        }
    }
    fn is_ready(&self) -> bool {
        true
    }
}

#[test]
fn cosmetic_edits_do_not_spend_a_verification_pass() {
    let raw = "um so the meeting is uh moved to friday at three";
    let b = ScriptedBackend::new("So the meeting is moved to Friday at three.", "SAME");
    let out = enhance(&b, raw, &opts(), &AppContext::default());
    assert_eq!(
        b.verify_calls(),
        0,
        "cosmetic edit should skip verification"
    );
    assert_eq!(out.verdict, None);
    assert!(out.changed());
}

#[test]
fn verify_off_never_calls_the_verifier() {
    let raw = "send it to john no wait not john send it to jane instead please";
    let b = ScriptedBackend::new("Send it to Jane instead please.", "CHANGED");
    let off = EnhanceOptions {
        verify: VerifyMode::Off,
        ..Default::default()
    };
    let out = enhance(&b, raw, &off, &AppContext::default());
    assert_eq!(b.verify_calls(), 0);
    assert_eq!(out.text, "Send it to Jane instead please.");
}

#[test]
fn a_slow_edit_skips_verification_in_auto_mode() {
    assert!(affordable(Duration::from_millis(130)), "GPU-speed edit");
    assert!(affordable(Duration::from_millis(800)), "fast CPU edit");
    assert!(
        !affordable(Duration::from_secs(6)),
        "a six-second edit means verification would cost far more"
    );
}

#[test]
fn always_mode_verifies_regardless_of_how_slow_the_edit_was() {
    let b = ScriptedBackend::new("Send it to Jane instead please.", "CHANGED");
    let always = EnhanceOptions {
        verify: VerifyMode::Always,
        ..Default::default()
    };
    let verdict = run_verification(
        &b,
        always.verify,
        "send it to john no wait not john send it to jane instead please",
        "Send it to Jane instead please.",
        Duration::from_secs(30),
    );
    assert_eq!(verdict, Some(Verdict::Changed));
    assert_eq!(b.verify_calls(), 1);
}

#[test]
fn verify_always_checks_even_a_cosmetic_edit() {
    let raw = "um so the meeting is uh moved to friday at three";
    let b = ScriptedBackend::new("So the meeting is moved to Friday at three.", "SAME");
    let always = EnhanceOptions {
        verify: VerifyMode::Always,
        ..Default::default()
    };
    enhance(&b, raw, &always, &AppContext::default());
    assert_eq!(b.verify_calls(), 1);
}

#[test]
fn a_changed_verdict_in_always_mode_falls_back_to_the_raw_transcript() {
    let raw = "let's ship it on tuesday actually no let's ship it on thursday so qa has time";
    let swapped =
        "Let's ship it on Thursday actually no let's ship it on Tuesday so QA has time.";
    let b = ScriptedBackend::new(swapped, "CHANGED");
    let always = EnhanceOptions {
        verify: VerifyMode::Always,
        ..Default::default()
    };
    let out = enhance(&b, raw, &always, &AppContext::default());
    assert_eq!(out.text, raw);
    assert_eq!(out.verdict, Some(Verdict::Changed));
}

#[test]
fn an_auto_mode_swap_is_checked_by_the_separate_verifier() {
    let raw = "let's ship it on tuesday actually no let's ship it on thursday so qa has time";
    let swapped =
        "Let's ship it on Thursday actually no let's ship it on Tuesday so QA has time.";
    let editor = ScriptedBackend::new(swapped, "SAME");
    let verifier = ScriptedBackend::new("unused", "CHANGED");
    let auto = EnhanceOptions {
        verify: VerifyMode::Auto,
        ..Default::default()
    };
    let out = enhance_with_verifier(&editor, &verifier, raw, &auto, &AppContext::default());
    assert_eq!(verifier.verify_calls(), 1, "verifier backend should be asked");
    assert_eq!(editor.verify_calls(), 0, "editor should not self-verify");
    assert_eq!(out.text, raw);
}

#[test]
fn an_unclear_verdict_keeps_the_edit_in_always_mode() {
    let raw = "send it to john no wait not john send it to jane instead please";
    let b = ScriptedBackend::new("Send it to Jane instead please.", "I am not sure");
    let always = EnhanceOptions {
        verify: VerifyMode::Always,
        ..Default::default()
    };
    let out = enhance(&b, raw, &always, &AppContext::default());
    assert_eq!(out.text, "Send it to Jane instead please.");
    assert_eq!(out.verdict, Some(Verdict::Unclear));
}

#[test]
fn a_failing_verifier_reports_unclear_and_keeps_the_edit() {
    struct Flaky;
    impl Backend for Flaky {
        fn generate(&self, system: &str, _u: &str, _p: &GenParams) -> Result<String, String> {
            if system.contains("SAME or CHANGED") {
                Err("verifier crashed".to_string())
            } else {
                Ok("So the meeting is moved to Friday at three.".to_string())
            }
        }
        fn is_ready(&self) -> bool {
            true
        }
    }
    let always = EnhanceOptions {
        verify: VerifyMode::Always,
        ..Default::default()
    };
    let out = enhance(
        &Flaky,
        "um so the meeting is uh moved to friday at three",
        &always,
        &AppContext::default(),
    );
    assert_eq!(out.verdict, Some(Verdict::Unclear));
    assert_eq!(out.text, "So the meeting is moved to Friday at three.");
}

#[test]
fn strips_quotes_that_wrap_the_whole_reply() {
    assert_eq!(
        strip_wrapping("\"The meeting is Friday.\""),
        "The meeting is Friday."
    );
    assert_eq!(strip_wrapping("  plain text  "), "plain text");
}

#[test]
fn keeps_quotes_that_are_part_of_the_text() {
    let s = "\"Ship it\" is what he said, then \"no\".";
    assert_eq!(strip_wrapping(s), s);
}

#[test]
fn strips_a_fenced_block() {
    assert_eq!(
        strip_wrapping("```\nThe meeting is Friday.\n```"),
        "The meeting is Friday."
    );
    assert_eq!(
        strip_wrapping("```text\nThe meeting is Friday.\n```"),
        "The meeting is Friday."
    );
}

#[test]
fn strips_curly_and_single_quotes_too() {
    assert_eq!(strip_wrapping("\u{201c}Hello there.\u{201d}"), "Hello there.");
    assert_eq!(strip_wrapping("'Hello there.'"), "Hello there.");
    assert_eq!(strip_wrapping("```"), "```");
}

#[test]
fn token_budget_scales_with_input_and_stays_bounded() {
    assert_eq!(GenParams::for_input(0).max_tokens, 64);
    assert!(GenParams::for_input(300).max_tokens > 64);
    assert_eq!(GenParams::for_input(1_000_000).max_tokens, 2048);
    assert_eq!(GenParams::for_input(300).max_tokens, 264);
    assert_eq!(GenParams::for_input(300).timeout, Duration::from_secs(30));
}


#[test]
fn finishing_a_pass_reports_a_failed_reply() {
    let raw = "the meeting is friday";
    let out = finish_pass(
        raw,
        Err("timed out".to_string()),
        None,
        &EnhanceOptions::default(),
        Duration::from_millis(7),
    );
    assert_eq!(out.text, raw);
    assert_eq!(out.original, raw);
    assert_eq!(out.error.as_deref(), Some("timed out"));
    assert_eq!(out.elapsed, Duration::from_millis(7));
}

#[test]
fn finishing_a_pass_rejects_what_the_guards_refuse() {
    let raw = "so I was thinking we could move the meeting to friday afternoon";
    let out = finish_pass(
        raw,
        Ok("Friday.".to_string()),
        None,
        &EnhanceOptions::default(),
        Duration::ZERO,
    );
    assert_eq!(out.text, raw);
    assert_eq!(out.rejected, Some(Rejection::TooShort));
    assert!(out.error.is_none());
}

#[test]
fn finishing_a_pass_pastes_the_cleaned_reply_unless_the_verdict_is_changed() {
    let raw = "  um so the meeting is uh moved to friday at three ";
    let reply = "\"So the meeting is moved to Friday at three.\"";
    let opts = EnhanceOptions::default();
    for verdict in [None, Some(Verdict::Same), Some(Verdict::Unclear)] {
        let out = finish_pass(raw, Ok(reply.to_string()), verdict, &opts, Duration::ZERO);
        assert_eq!(out.text, "So the meeting is moved to Friday at three.");
        assert_eq!(out.original, raw);
        assert_eq!(out.verdict, verdict);
        assert!(out.changed());
    }
    let out = finish_pass(
        raw,
        Ok(reply.to_string()),
        Some(Verdict::Changed),
        &opts,
        Duration::ZERO,
    );
    assert_eq!(out.text, raw);
    assert_eq!(out.verdict, Some(Verdict::Changed));
    assert!(!out.changed());
}


#[test]
fn turns_are_laid_out_for_the_prompt_style() {
    let (s, u) = lay_out_turns(PromptStyle::Instructed, "SYSTEM", "the transcript");
    assert_eq!((s.as_str(), u.as_str()), ("SYSTEM", "the transcript"));
    // Empty, not absent: the system turn is sent as an empty string.
    let (s, u) = lay_out_turns(PromptStyle::Tuned, "SYSTEM", "the transcript");
    assert_eq!((s.as_str(), u.as_str()), ("", "the transcript"));
    let (s, u) = lay_out_turns(PromptStyle::Alpaca, "SYSTEM", "the transcript");
    assert_eq!(s, "");
    assert_eq!(
        u,
        format!(
            "{ALPACA_PREAMBLE}\n\n### Instruction:\n{ALPACA_INSTRUCTION}\n\n### Input:\nthe transcript\n\n### Response:\n"
        )
    );
}

#[test]
fn the_verification_request_keeps_its_prompt_whatever_the_style() {
    let verify = build_verify_prompt();
    for style in [PromptStyle::Instructed, PromptStyle::Tuned, PromptStyle::Alpaca] {
        let (s, u) = lay_out_turns(style, &verify, "ORIGINAL ... EDITED");
        assert_eq!(s, verify);
        assert_eq!(u, "ORIGINAL ... EDITED");
    }
}
