use handy_enhance::catalog::{CatalogModel, ModelRole, ModelTier, PromptStyle};
use handy_enhance::commands::{
    after_change, delete_check, local_listing, preview_check, ModelAction, SettingChange,
};

fn entry(id: &str, name: &str, style: PromptStyle) -> CatalogModel {
    CatalogModel {
        id: id.to_string(),
        name: name.to_string(),
        repo_id: String::new(),
        filename: format!("{id}.gguf"),
        size_bytes: 2048,
        quant: "unknown".to_string(),
        parameters: String::new(),
        license: String::new(),
        released: String::new(),
        reasoning: false,
        prompt_style: style,
        roles: vec![ModelRole::Editor],
        min_ram_mb: 320,
        tier: ModelTier::Ultralight,
        default_editor: false,
        default_verifier: false,
        description: String::new(),
    }
}

#[test]
fn turning_the_layer_off_releases_the_model() {
    assert_eq!(after_change(SettingChange::Enabled, false, true, true), ModelAction::Unload);
    assert_eq!(after_change(SettingChange::Enabled, false, false, false), ModelAction::Unload);
}

#[test]
fn turning_the_layer_on_preloads_only_when_asked_and_possible() {
    assert_eq!(after_change(SettingChange::Enabled, true, true, true), ModelAction::Load);
    // Not kept loaded: it loads lazily on the first dictation instead.
    assert_eq!(after_change(SettingChange::Enabled, true, false, true), ModelAction::Leave);
    // Nothing downloaded yet: the toggle still takes effect, nothing to preload.
    assert_eq!(after_change(SettingChange::Enabled, true, true, false), ModelAction::Leave);
}

#[test]
fn choosing_a_model_swaps_or_releases_the_resident_one() {
    assert_eq!(after_change(SettingChange::EditorModel, true, true, true), ModelAction::Load);
    assert_eq!(after_change(SettingChange::EditorModel, false, true, true), ModelAction::Unload);
    assert_eq!(after_change(SettingChange::EditorModel, true, false, true), ModelAction::Unload);
    assert_eq!(after_change(SettingChange::EditorModel, true, true, false), ModelAction::Unload);
}

#[test]
fn load_time_settings_reload_the_model() {
    for change in [SettingChange::PromptStyle, SettingChange::UseGpu] {
        assert_eq!(after_change(change, true, true, true), ModelAction::Reload);
        assert_eq!(after_change(change, false, true, true), ModelAction::Unload);
        assert_eq!(after_change(change, true, true, false), ModelAction::Unload);
    }
}

#[test]
fn keep_loaded_off_releases_and_on_leaves_alone() {
    assert_eq!(after_change(SettingChange::KeepLoaded, true, false, true), ModelAction::Unload);
    assert_eq!(after_change(SettingChange::KeepLoaded, true, true, true), ModelAction::Leave);
}

#[test]
fn verifier_and_option_changes_leave_the_editor_alone() {
    for enabled in [false, true] {
        assert_eq!(
            after_change(SettingChange::VerifierModel, enabled, true, true),
            ModelAction::Leave
        );
        assert_eq!(after_change(SettingChange::Options, enabled, false, false), ModelAction::Leave);
    }
}

#[test]
fn preview_needs_a_downloaded_model() {
    assert_eq!(
        preview_check(&None, true),
        Err("No enhancement model available".to_string())
    );
    let m = entry("a", "Handy Editor", PromptStyle::Tuned);
    assert_eq!(
        preview_check(&Some(m.clone()), false),
        Err("Handy Editor has not been downloaded yet".to_string())
    );
    assert_eq!(preview_check(&Some(m), true), Ok(()));
}

#[test]
fn a_running_download_cannot_be_deleted() {
    let m = entry("a", "Qwen3 1.7B", PromptStyle::Instructed);
    assert_eq!(
        delete_check(&m, true),
        Err("Qwen3 1.7B is still downloading".to_string())
    );
    assert_eq!(delete_check(&m, false), Ok(()));
}

#[test]
fn a_local_model_is_listed_with_the_override_among_editors() {
    let local = entry("local:/m/mine.gguf", "mine", PromptStyle::Tuned);
    let shown = local_listing(None, Some(local.clone()), Some(PromptStyle::Instructed))
        .expect("listed");
    assert_eq!(shown.id, local.id);
    assert_eq!(shown.prompt_style, PromptStyle::Instructed);
    let shown = local_listing(Some(ModelRole::Editor), Some(local.clone()), None).expect("listed");
    assert_eq!(shown.prompt_style, PromptStyle::Tuned);
    assert!(local_listing(Some(ModelRole::Verifier), Some(local), None).is_none());
    assert!(local_listing(None, None, Some(PromptStyle::Alpaca)).is_none());
}
