use handy_enhance::catalog::{
    default_editor, default_verifier, find, fitting, for_role, local_id, local_path, quant_in,
    CatalogModel, ModelRole, ModelTier, PromptStyle, ALPACA_INSTRUCTION, LOCAL_PREFIX,
};

fn entry(id: &str, roles: &[ModelRole], min_ram_mb: u64, tier: ModelTier) -> CatalogModel {
    CatalogModel {
        id: id.to_string(),
        name: id.to_string(),
        repo_id: format!("repo/{id}"),
        filename: format!("{id}.gguf"),
        size_bytes: 400 * 1024 * 1024 + 5,
        quant: "Q4_K_M".to_string(),
        parameters: "1B".to_string(),
        license: "apache-2.0".to_string(),
        released: "2025-01".to_string(),
        reasoning: roles.contains(&ModelRole::Verifier),
        prompt_style: PromptStyle::Instructed,
        roles: roles.to_vec(),
        min_ram_mb,
        tier,
        default_editor: false,
        default_verifier: false,
        description: String::new(),
    }
}

fn sample() -> Vec<CatalogModel> {
    let mut small = entry("tiny/editor", &[ModelRole::Editor], 600, ModelTier::Ultralight);
    small.default_editor = true;
    let mid = entry(
        "mid/both",
        &[ModelRole::Editor, ModelRole::Verifier],
        1400,
        ModelTier::Balanced,
    );
    let mut big = entry("big/verifier", &[ModelRole::Verifier], 3000, ModelTier::Quality);
    big.default_verifier = true;
    vec![mid, small, big]
}

#[test]
fn lookup_finds_known_ids_and_rejects_unknown_ones() {
    let models = sample();
    assert_eq!(find(&models, "tiny/editor").map(|m| m.id.as_str()), Some("tiny/editor"));
    assert!(find(&models, "nonexistent/model").is_none());
}

#[test]
fn the_flagged_defaults_win() {
    let models = sample();
    assert_eq!(default_editor(&models).map(|m| m.id.as_str()), Some("tiny/editor"));
    assert_eq!(default_verifier(&models).map(|m| m.id.as_str()), Some("big/verifier"));
}

#[test]
fn without_flags_the_first_suitable_entry_is_the_default() {
    let mut models = sample();
    for m in models.iter_mut() {
        m.default_editor = false;
        m.default_verifier = false;
    }
    assert_eq!(default_editor(&models).map(|m| m.id.as_str()), Some("mid/both"));
    assert_eq!(default_verifier(&models).map(|m| m.id.as_str()), Some("mid/both"));
    assert!(default_editor(&[]).is_none());
    assert!(default_verifier(&models[1..2]).is_none());
}

#[test]
fn role_lists_keep_catalog_order() {
    let models = sample();
    let verifiers: Vec<&str> = for_role(&models, ModelRole::Verifier)
        .into_iter()
        .map(|m| m.id.as_str())
        .collect();
    assert_eq!(verifiers, vec!["mid/both", "big/verifier"]);
    assert!(for_role(&models, ModelRole::Verifier).iter().all(|m| m.reasoning));
}

#[test]
fn fitting_filters_by_available_memory_in_a_small_catalog() {
    let models = sample();
    let tiny = fitting(&models, 800);
    assert_eq!(tiny.len(), 1);
    assert!(tiny.iter().all(|m| m.min_ram_mb <= 800));
    let roomy = fitting(&models, 4096);
    assert!(roomy.len() > tiny.len());
}

#[test]
fn fitting_lists_the_smallest_tier_first() {
    // The catalog lists the balanced model first; the fitting list does not.
    let mut models = sample();
    models.push(entry("other/tiny", &[ModelRole::Editor], 500, ModelTier::Ultralight));
    let ids: Vec<&str> = fitting(&models, 4096).into_iter().map(|m| m.id.as_str()).collect();
    assert_eq!(ids, vec!["tiny/editor", "other/tiny", "mid/both", "big/verifier"]);
    let ids: Vec<&str> = fitting(&models, 1500).into_iter().map(|m| m.id.as_str()).collect();
    assert_eq!(ids, vec!["tiny/editor", "other/tiny", "mid/both"]);
    assert!(fitting(&models, 100).is_empty());
}

#[test]
fn size_and_fit_are_derived_from_the_entry() {
    let m = entry("x/y", &[ModelRole::Editor], 700, ModelTier::Ultralight);
    assert_eq!(m.size_mb(), m.size_bytes / (1024 * 1024));
    assert_eq!(m.size_mb(), 400);
    assert!(m.fits_in(m.min_ram_mb));
    assert!(!m.fits_in(m.min_ram_mb - 1));
    assert!(m.supports(ModelRole::Editor));
    assert!(!m.supports(ModelRole::Verifier));
}

#[test]
fn a_local_file_becomes_a_catalog_shaped_editor_entry() {
    let path = "/tmp/models/checkpoint-10000.Q4_K_M.gguf";
    let m = CatalogModel::from_local_file(path, "checkpoint-10000.Q4_K_M", 4096);
    assert!(m.is_local());
    assert_eq!(m.id, format!("{LOCAL_PREFIX}{path}"));
    assert_eq!(m.name, "checkpoint-10000.Q4_K_M");
    assert_eq!(m.quant, "Q4_K_M");
    assert_eq!(m.size_bytes, 4096);
    assert_eq!(m.min_ram_mb, 320);
    assert_eq!(m.prompt_style, PromptStyle::Tuned);
    assert!(m.supports(ModelRole::Editor));
    assert!(!m.supports(ModelRole::Verifier));
}

#[test]
fn an_unrecognised_file_name_does_not_guess_a_quantisation() {
    let m = CatalogModel::from_local_file("/tmp/mine.gguf", "mine", 10);
    assert_eq!(m.quant, "unknown");
    assert_eq!(quant_in("model.q8_0.gguf"), "Q8_0");
    assert_eq!(quant_in("model-IQ3_XXS.gguf"), "IQ3_XXS");
}

#[test]
fn local_ids_round_trip_through_their_path() {
    let id = local_id("/data/mine.gguf");
    assert_eq!(id, "local:/data/mine.gguf");
    assert_eq!(local_path(&id), Some("/data/mine.gguf"));
    assert_eq!(local_path("qwen/qwen3-0.6b"), None);
    assert!(sample().iter().all(|m| !m.is_local()));
}

#[test]
fn a_copied_entry_keeps_every_field() {
    let m = sample().remove(0);
    let c = m.copied();
    assert_eq!(c.id, m.id);
    assert_eq!(c.roles, m.roles);
    assert_eq!(c.min_ram_mb, m.min_ram_mb);
}


#[test]
fn the_alpaca_instruction_is_a_single_usable_line() {
    let text = ALPACA_INSTRUCTION.trim();
    assert!(!text.is_empty(), "instruction file is empty");
    assert!(!text.contains('\n'), "must be one line, got: {text}");
    assert!(
        text.len() > 40,
        "suspiciously short for a task description: {text}"
    );
}
