use handy_enhance::verify::{
    build_verify_input, build_verify_prompt, needs_verification, parse_verdict,
    reorders_shared_words, Verdict, VerifyMode,
};


/// Prints the verification prompt for the smoke-test harness, so the model
/// sees exactly what the app sends. Run with `-- --nocapture`.
#[test]
fn dump_verify_prompt() {
    println!("<<<PROMPT_START>>>");
    println!("{}", build_verify_prompt());
    println!("<<<PROMPT_END>>>");
}

#[test]
fn parses_a_clean_verdict() {
    assert_eq!(parse_verdict("SAME"), Verdict::Same);
    assert_eq!(parse_verdict("CHANGED"), Verdict::Changed);
    assert_eq!(parse_verdict("  same  "), Verdict::Same);
}

#[test]
fn parses_a_verdict_wrapped_in_chatter() {
    assert_eq!(parse_verdict("The meaning is the SAME."), Verdict::Same);
    assert_eq!(
        parse_verdict("This has CHANGED the meaning."),
        Verdict::Changed
    );
}

#[test]
fn refuses_to_guess_when_both_words_appear() {
    // A model restating the instructions has not decided anything.
    assert_eq!(
        parse_verdict("Answer SAME if preserved or CHANGED if not"),
        Verdict::Unclear
    );
}

#[test]
fn reports_unreadable_replies_as_unclear() {
    assert_eq!(parse_verdict(""), Verdict::Unclear);
    assert_eq!(parse_verdict("I think it is fine"), Verdict::Unclear);
}

#[test]
fn cosmetic_edits_skip_verification() {
    // Punctuation and capitalisation only.
    assert!(!needs_verification(
        "the meeting is friday we should prepare the roadmap slides",
        "The meeting is Friday. We should prepare the roadmap slides."
    ));
}

#[test]
fn filler_removal_alone_skips_verification() {
    assert!(!needs_verification(
        "um so the meeting is uh moved to friday at three",
        "So the meeting is moved to Friday at three."
    ));
}

#[test]
fn an_ordinary_retraction_is_not_sent_to_the_verifier() {
    // The regression this triage exists to prevent. An order-preserving
    // deletion is the ordinary self-correction; referring it cost 14 of 47
    // correct edits when measured against the real editor's output.
    assert!(!needs_verification(
        "send it to john no wait not john send it to jane instead please",
        "Send it to Jane instead please."
    ));
    // The case reported from a live session, verbatim.
    assert!(!needs_verification(
        "there is going to be a meeting on friday no never mind it's going to be on saturday",
        "There is going to be a meeting on Saturday."
    ));
}

#[test]
fn a_smuggled_in_word_is_sent_to_the_verifier() {
    // "release" was never dictated. It stays under `sanity_check`'s
    // novel-word fraction *and* under its length ceiling, which is what
    // makes it the verifier's job rather than a mechanical guard's.
    assert!(needs_verification(
        "we should merge this after the tests pass on the build server",
        "We should merge this after the release tests pass on the server."
    ));
}

#[test]
fn a_swap_is_still_sent_to_the_verifier() {
    // The blind spot the module was built for: every word survives, so no
    // count-based guard sees it.
    assert!(needs_verification(
        "let's ship it on tuesday actually no let's ship it on thursday so qa has time",
        "Let's ship it on Thursday actually no let's ship it on Tuesday so QA has time."
    ));
}

#[test]
fn detects_the_observed_date_swap() {
    // The failure that motivated this module. Word-level guards pass it;
    // the ordering check does not.
    let original =
        "let's ship it on tuesday actually no let's ship it on thursday so qa has time";
    let edited =
        "Let's ship it on Thursday actually no let's ship it on Tuesday so QA has time.";
    assert!(
        reorders_shared_words(original, edited),
        "a swap of two shared words must register as reordering"
    );
    assert!(needs_verification(original, edited));
}

#[test]
fn faithful_edit_is_not_flagged_as_reordering() {
    let original = "um so the meeting is uh moved to friday at three";
    let edited = "So the meeting is moved to Friday at three.";
    assert!(!reorders_shared_words(original, edited));
}

#[test]
fn verify_mode_defaults_to_off() {
    // Measured on 400 live edits the pass caught 0 of 10 bad ones and
    // rejected a good one, so it is opt-in rather than opt-out.
    assert_eq!(VerifyMode::default(), VerifyMode::Off);
}

#[test]
fn prompt_names_both_answers_and_the_swap_rule() {
    let p = build_verify_prompt();
    assert!(p.contains("SAME"));
    assert!(p.contains("CHANGED"));
    assert!(p.contains("swapped or reordered"));
}

#[test]
fn prompt_states_that_a_retraction_deletion_is_correct() {
    // The single change worth the most: without it the model reads every
    // retraction as dropped information and answers CHANGED. Measured at
    // 33/47 correct edits kept before, 42/47 after.
    let p = build_verify_prompt();
    assert!(p.contains("SUPPOSED to delete the wording they abandoned"));
    assert!(
        p.contains("the edited version will be shorter"),
        "the model has to be told a shorter result is expected"
    );
}

#[test]
fn prompt_works_a_retraction_example_through_to_same() {
    // The abstract rule alone did not land; a worked instance did.
    let p = build_verify_prompt();
    let example = p
        .find("The meeting is on Saturday.")
        .expect("worked example present");
    assert!(
        p[example..].starts_with("The meeting is on Saturday.\" is SAME"),
        "the worked example must resolve to SAME"
    );
}

#[test]
fn verdict_ignores_a_surviving_reasoning_block() {
    let reply = "<think>It could be SAME, but the date moved so it is CHANGED</think>
CHANGED";
    assert_eq!(parse_verdict(reply), Verdict::Changed);
    let reply = "<think>Weighing CHANGED against SAME here</think> SAME";
    assert_eq!(parse_verdict(reply), Verdict::Same);
}

#[test]
fn input_presents_both_versions() {
    let s = build_verify_input("  raw text ", " edited text ");
    assert!(s.contains("Original: raw text"));
    assert!(s.contains("Edited: edited text"));
}

#[test]
fn deleting_words_in_order_is_never_sent_to_the_verifier() {
    let original = "please forward the quarterly report to marketing before friday afternoon";
    // Words dropped, none moved or added.
    assert!(!needs_verification(original, "Please forward the report before Friday."));
    assert!(!needs_verification(original, "Forward the quarterly report to marketing."));
    // Moving one of the kept words is a reorder and is referred.
    assert!(needs_verification(original, "Before Friday, forward the report to marketing."));
}
