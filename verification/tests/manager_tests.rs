use handy_enhance::catalog::{CatalogModel, ModelRole, ModelTier, PromptStyle};
use handy_enhance::enhance::Enhanced;
use handy_enhance::manager::{
    download_is_complete, load_request, resolve_model, resolve_model_with, should_report,
    DownloadState, DownloadTally, Downloads, EnhanceDownloadProgress, EnhancePreview,
    LoadRefusal,
};
use handy_enhance::prompt::Rejection;
use handy_enhance::verify::Verdict;
use std::time::Duration;

fn entry(id: &str, roles: &[ModelRole]) -> CatalogModel {
    CatalogModel {
        id: id.to_string(),
        name: id.to_string(),
        repo_id: format!("repo/{id}"),
        filename: format!("{id}.gguf"),
        size_bytes: 1024,
        quant: "Q8_0".to_string(),
        parameters: String::new(),
        license: String::new(),
        released: String::new(),
        reasoning: false,
        prompt_style: PromptStyle::Instructed,
        roles: roles.to_vec(),
        min_ram_mb: 500,
        tier: ModelTier::Ultralight,
        default_editor: false,
        default_verifier: false,
        description: String::new(),
    }
}

fn sample() -> Vec<CatalogModel> {
    let mut editor = entry("magicnothief/handy-editor-350m-q8", &[ModelRole::Editor]);
    editor.default_editor = true;
    let mut verifier = entry("qwen/qwen3-1.7b", &[ModelRole::Editor, ModelRole::Verifier]);
    verifier.default_verifier = true;
    let stock = entry("liquidai/lfm2.5-350m", &[ModelRole::Editor]);
    vec![stock, editor, verifier]
}

#[test]
fn percentage_is_derived_from_the_byte_counts() {
    let cases = [(0u64, 100u64, 0.0), (50, 100, 50.0), (100, 100, 100.0)];
    for (done, total, want) in cases {
        let pct = if total > 0 {
            (done as f64 / total as f64) * 100.0
        } else {
            0.0
        };
        assert!((pct - want).abs() < f64::EPSILON, "{done}/{total}");
    }
}

#[test]
fn unknown_total_reports_zero_rather_than_dividing_by_it() {
    let total = 0u64;
    let pct = if total > 0 { 100.0 / total as f64 } else { 0.0 };
    assert_eq!(pct, 0.0);
}

#[test]
fn a_missing_setting_resolves_to_the_role_default() {
    let models = sample();
    assert_eq!(
        resolve_model(&models, None, ModelRole::Editor, None).map(|m| m.id),
        Some("magicnothief/handy-editor-350m-q8".to_string())
    );
    assert_eq!(
        resolve_model(&models, None, ModelRole::Verifier, None).map(|m| m.id),
        Some("qwen/qwen3-1.7b".to_string())
    );
}

#[test]
fn an_unknown_id_resolves_to_the_default() {
    let models = sample();
    assert_eq!(
        resolve_model(&models, Some("deleted/model"), ModelRole::Editor, None).map(|m| m.id),
        Some("magicnothief/handy-editor-350m-q8".to_string())
    );
}

#[test]
fn an_explicit_choice_is_honoured() {
    let models = sample();
    assert_eq!(
        resolve_model(&models, Some("liquidai/lfm2.5-350m"), ModelRole::Editor, None)
            .map(|m| m.id),
        Some("liquidai/lfm2.5-350m".to_string())
    );
}

#[test]
fn a_readable_local_file_is_used_and_a_missing_one_falls_back() {
    let models = sample();
    let path = "/tmp/models/checkpoint-10000.Q4_K_M.gguf";
    let id = format!("local:{path}");
    let local = CatalogModel::from_local_file(path, "checkpoint-10000.Q4_K_M", 2048);
    let m = resolve_model(&models, Some(&id), ModelRole::Editor, Some(local)).expect("resolves");
    assert_eq!(m.id, id);
    assert_eq!(m.prompt_style, PromptStyle::Tuned);

    let gone = "local:/nowhere/gone.gguf";
    assert_eq!(
        resolve_model(&models, Some(gone), ModelRole::Editor, None).map(|m| m.id),
        Some("magicnothief/handy-editor-350m-q8".to_string())
    );
}

#[test]
fn the_prompt_style_override_only_touches_a_local_entry() {
    let models = sample();
    let local = CatalogModel::from_local_file("/tmp/mine.gguf", "mine", 2048);
    let m = resolve_model_with(
        &models,
        Some("local:/tmp/mine.gguf"),
        ModelRole::Editor,
        Some(PromptStyle::Instructed),
        Some(local),
    )
    .expect("local file resolves");
    assert_eq!(m.prompt_style, PromptStyle::Instructed);

    let stock = resolve_model_with(
        &models,
        Some("liquidai/lfm2.5-350m"),
        ModelRole::Editor,
        Some(PromptStyle::Tuned),
        None,
    )
    .expect("catalog entry resolves");
    assert_eq!(stock.prompt_style, PromptStyle::Instructed);
}

#[test]
fn progress_is_throttled_but_the_last_update_always_goes_out() {
    assert!(!should_report(Duration::from_millis(20), 10, 100));
    assert!(should_report(Duration::from_millis(150), 10, 100));
    assert!(should_report(Duration::from_millis(20), 100, 100));
    assert!(!should_report(Duration::from_millis(20), 100, 0));
    assert_ne!(DownloadState::Running, DownloadState::Done);
}

#[test]
fn a_preview_names_why_it_fell_back() {
    let out = Enhanced {
        text: "raw".to_string(),
        original: "raw".to_string(),
        rejected: Some(Rejection::TooShort),
        verdict: Some(Verdict::Unclear),
        error: None,
        elapsed: Duration::from_millis(5),
    };
    let p = EnhancePreview::from_enhanced(out, 5);
    assert!(!p.changed);
    assert_eq!(p.rejected.as_deref(), Some("TooShort"));
    assert_eq!(p.verdict.as_deref(), Some("Unclear"));
    assert_eq!(p.elapsed_ms, 5);
}


fn update(id: &str, downloaded: u64, total: u64, state: DownloadState) -> EnhanceDownloadProgress {
    EnhanceDownloadProgress {
        model_id: id.to_string(),
        downloaded,
        total,
        state,
        error: None,
    }
}

#[test]
fn a_second_claim_joins_the_running_download() {
    let mut d = Downloads::new();
    assert!(!d.is_downloading("a"));
    assert!(d.claim("a", 1000));
    assert!(d.is_downloading("a"));
    assert_eq!(d.progress("a"), Some((0, 1000)));
    // Asking again is a no-op rather than a competing transfer.
    assert!(!d.claim("a", 5));
    assert_eq!(d.progress("a"), Some((0, 1000)));
    // A different model gets its own slot.
    assert!(d.claim("b", 7));
    assert_eq!(d.progress("b"), Some((0, 7)));
}

#[test]
fn running_updates_replace_the_held_counts() {
    let mut d = Downloads::new();
    assert!(d.claim("a", 1000));
    d.publish(update("a", 400, 1000, DownloadState::Running));
    assert_eq!(d.progress("a"), Some((400, 1000)));
    d.publish(update("a", 900, 1000, DownloadState::Running));
    assert_eq!(d.progress("a"), Some((900, 1000)));
    // An update for a model nobody claimed is recorded too.
    d.publish(update("c", 1, 2, DownloadState::Running));
    assert_eq!(d.progress("c"), Some((1, 2)));
}

#[test]
fn a_finished_or_failed_download_gives_its_slot_back() {
    let mut d = Downloads::new();
    assert!(d.claim("a", 10));
    assert!(d.claim("b", 20));
    d.publish(update("a", 10, 10, DownloadState::Done));
    assert!(!d.is_downloading("a"));
    assert!(d.is_downloading("b"));
    d.publish(update("b", 0, 20, DownloadState::Failed));
    assert!(!d.is_downloading("b"));
    assert_eq!(d.progress("b"), None);
    // Releasing a slot that is not held changes nothing.
    d.publish(update("zzz", 0, 0, DownloadState::Done));
    assert!(!d.is_downloading("zzz"));
    // And the slot can be claimed again afterwards.
    assert!(d.claim("a", 10));
}

#[test]
fn the_tally_saturates_and_never_drops_the_final_update() {
    let mut t = DownloadTally::new();
    t.start(100);
    assert_eq!((t.downloaded, t.total), (0, 100));
    // Too soon after the last report, and not yet done: throttled.
    assert!(!t.advance(40, Duration::from_millis(10)));
    assert_eq!(t.downloaded, 40);
    // Enough time has passed.
    assert!(t.advance(10, Duration::from_millis(150)));
    // The update that completes the file is reported however soon it comes.
    assert!(t.advance(50, Duration::from_millis(1)));
    assert_eq!(t.downloaded, 100);
    t.downloaded = u64::MAX - 1;
    t.advance(10, Duration::from_millis(1));
    assert_eq!(t.downloaded, u64::MAX);
}

#[test]
fn the_final_report_reads_complete() {
    let mut t = DownloadTally::new();
    t.start(100);
    t.advance(60, Duration::from_millis(1));
    assert_eq!(t.finished(), (100, 100));
    t.advance(70, Duration::from_millis(1));
    assert_eq!(t.finished(), (130, 100));
    // Unknown size: report what arrived.
    let mut u = DownloadTally::new();
    u.advance(5, Duration::from_millis(1));
    assert_eq!(u.finished(), (5, 0));
}

#[test]
fn loading_needs_the_engine_and_the_file() {
    assert_eq!(load_request(false, true, true), Err(LoadRefusal::Unavailable));
    assert_eq!(load_request(false, false, false), Err(LoadRefusal::Unavailable));
    assert_eq!(load_request(true, false, true), Err(LoadRefusal::NotDownloaded));
    assert_eq!(load_request(true, true, true), Ok(None));
    assert_eq!(load_request(true, true, false), Ok(Some(0)));
}

#[test]
fn only_a_file_of_the_catalog_size_counts_as_downloaded() {
    let m = entry("a", &[ModelRole::Editor]);
    assert!(download_is_complete(&m, Some(1024)));
    assert!(!download_is_complete(&m, Some(1023)));
    assert!(!download_is_complete(&m, Some(2048)));
    assert!(!download_is_complete(&m, None));
}


#[test]
fn a_download_starts_only_when_the_file_is_missing_and_none_is_running() {
    let m = entry("a", &[ModelRole::Editor]);
    let mut d = Downloads::new();
    // Complete on disk: nothing to fetch, registry untouched.
    assert!(!d.begin(&m, Some(1024)));
    assert!(!d.is_downloading("a"));
    // Missing or truncated: the slot is claimed for the expected size.
    assert!(d.begin(&m, Some(10)));
    assert_eq!(d.progress("a"), Some((0, 1024)));
    // Asked again while it runs: joins it, counts unchanged.
    d.publish(update("a", 300, 1024, DownloadState::Running));
    assert!(!d.begin(&m, None));
    assert_eq!(d.progress("a"), Some((300, 1024)));
}

#[test]
fn a_running_update_is_held_without_its_error() {
    let mut d = Downloads::new();
    let mut u = update("a", 5, 10, DownloadState::Running);
    u.error = Some("ignored".to_string());
    d.publish(u);
    assert_eq!(d.progress("a"), Some((5, 10)));
}
