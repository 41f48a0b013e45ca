//! The curated catalog of enhancement models and the lookups over it.
//!
//! The catalog itself is a data file that the host loads; every lookup here
//! takes the loaded entries. A GGUF the user picked off disk gets a
//! catalog-shaped entry, so the rest of the layer needs no special case.
use vstd::prelude::*;
use crate::text::{chars_of, contains, contains_chars, str_eq, starts_with_str, to_upper, uppercase};

verus! {

/// What a model is offered for.
#[derive(Debug, Clone, Copy, PartialEq, Eq, Structural)]
pub enum ModelRole {
    /// Rewrites the transcript.
    Editor,
    /// Checks that a rewrite preserved the meaning.
    Verifier,
}

/// How the host should prompt a model. A property of the weights.
#[derive(Debug, Clone, Copy, PartialEq, Eq, Structural)]
pub enum PromptStyle {
    /// Send the shipped instruction prompt (a stock instruction-tuned model).
    Instructed,
    /// Send an empty system turn (weights trained on this very task).
    Tuned,
    /// Send the whole Alpaca prompt as one turn (a base-model fine-tune).
    Alpaca,
}

impl Default for PromptStyle {
    fn default() -> (s: Self)
        ensures
            s == PromptStyle::Instructed,
    {
        PromptStyle::Instructed
    }
}

/// The instruction an Alpaca fine-tune was trained on, sent verbatim: a
/// model given a paraphrase of its own instruction degrades quietly.
pub const ALPACA_INSTRUCTION: &'static str = "Rewrite the dictated transcript as the speaker meant to write it. Remove filler words and hesitations, repair punctuation and capitalisation, and when the speaker corrects themselves keep only the wording they settled on. Reply with the edited text and nothing else.";

/// The preamble that opens every Alpaca prompt.
pub const ALPACA_PREAMBLE: &'static str = "Below is an instruction that describes a task, paired with an input that provides further context. Write a response that appropriately completes the request.";

/// Rough capability/cost band.
#[derive(Debug, Clone, Copy, PartialEq, Eq, Structural)]
pub enum ModelTier {
    /// Runs on almost anything.
    Ultralight,
    /// The recommended balance of size and edit quality.
    Balanced,
    /// Best rewrites, but wants real headroom.
    Quality,
}

/// One downloadable model in the catalog.
#[derive(Debug, Clone)]
pub struct CatalogModel {
    /// Stable identifier used in settings.
    pub id: String,
    /// Display name.
    pub name: String,
    /// Hugging Face repository holding the GGUF.
    pub repo_id: String,
    /// File to fetch from `repo_id`.
    pub filename: String,
    /// Download size in bytes.
    pub size_bytes: u64,
    /// Quantisation of `filename`.
    pub quant: String,
    /// Parameter count, for display.
    pub parameters: String,
    /// Licence identifier, for display.
    pub license: String,
    /// Approximate release date (`YYYY-MM`).
    pub released: String,
    /// Whether the model deliberates before answering.
    pub reasoning: bool,
    /// How this model expects to be prompted.
    pub prompt_style: PromptStyle,
    /// What this model is offered for.
    pub roles: Vec<ModelRole>,
    /// Approximate resident memory while loaded, in MiB.
    pub min_ram_mb: u64,
    /// Capability band.
    pub tier: ModelTier,
    /// Whether this is the out-of-the-box editing model.
    pub default_editor: bool,
    /// Whether this is the out-of-the-box verifying model.
    pub default_verifier: bool,
    /// One-line guidance shown next to the name.
    pub description: String,
}

/// Marks a model id that points at a file on disk rather than at the catalog.
pub const LOCAL_PREFIX: &'static str = "local:";

/// Bytes in a MiB.
pub const MIB: u64 = 1048576;

/// Memory allowance for context and compute buffers on top of the weights.
pub const RAM_ALLOWANCE_MB: u64 = 320;

/// Quantisation tags recognised in a file name, in the order they are tried.
pub const QUANT_1: &'static str = "Q2_K_L";

/// Quantisation tags recognised in a file name, in the order they are tried.
pub const QUANT_2: &'static str = "Q3_K_M";

/// Quantisation tags recognised in a file name, in the order they are tried.
pub const QUANT_3: &'static str = "Q4_K_M";

/// Quantisation tags recognised in a file name, in the order they are tried.
pub const QUANT_4: &'static str = "Q5_K_M";

/// Quantisation tags recognised in a file name, in the order they are tried.
pub const QUANT_5: &'static str = "Q6_K";

/// Quantisation tags recognised in a file name, in the order they are tried.
pub const QUANT_6: &'static str = "Q8_0";

/// Quantisation tags recognised in a file name, in the order they are tried.
pub const QUANT_7: &'static str = "F16";

/// Quantisation tags recognised in a file name, in the order they are tried.
pub const QUANT_8: &'static str = "IQ3_XXS";

/// Reported when no known quantisation tag is in the name.
pub const UNKNOWN_QUANT: &'static str = "unknown";

/// The quantisation a file name declares: the first known tag contained in
/// its uppercase form, or "unknown".
pub open spec fn quant_of(upper: Seq<char>) -> Seq<char> {
    if contains(upper, QUANT_1@) {
        QUANT_1@
    } else if contains(upper, QUANT_2@) {
        QUANT_2@
    } else if contains(upper, QUANT_3@) {
        QUANT_3@
    } else if contains(upper, QUANT_4@) {
        QUANT_4@
    } else if contains(upper, QUANT_5@) {
        QUANT_5@
    } else if contains(upper, QUANT_6@) {
        QUANT_6@
    } else if contains(upper, QUANT_7@) {
        QUANT_7@
    } else if contains(upper, QUANT_8@) {
        QUANT_8@
    } else {
        UNKNOWN_QUANT@
    }
}

/// A fresh string holding `s`.
pub(crate) fn owned(s: &str) -> (r: String)
    ensures
        r@ == s@,
{
    let mut r = String::new();
    r.append(s);
    r
}

/// The quantisation tag a file name declares.
pub fn quant_in(filename: &str) -> (q: &'static str)
    ensures
        q@ == quant_of(uppercase(filename@)),
{
    let upper = to_upper(filename);
    let u = chars_of(upper.as_str());
    if contains_chars(u.as_slice(), chars_of(QUANT_1).as_slice()) {
        QUANT_1
    } else if contains_chars(u.as_slice(), chars_of(QUANT_2).as_slice()) {
        QUANT_2
    } else if contains_chars(u.as_slice(), chars_of(QUANT_3).as_slice()) {
        QUANT_3
    } else if contains_chars(u.as_slice(), chars_of(QUANT_4).as_slice()) {
        QUANT_4
    } else if contains_chars(u.as_slice(), chars_of(QUANT_5).as_slice()) {
        QUANT_5
    } else if contains_chars(u.as_slice(), chars_of(QUANT_6).as_slice()) {
        QUANT_6
    } else if contains_chars(u.as_slice(), chars_of(QUANT_7).as_slice()) {
        QUANT_7
    } else if contains_chars(u.as_slice(), chars_of(QUANT_8).as_slice()) {
        QUANT_8
    } else {
        UNKNOWN_QUANT
    }
}

/// The id that selects the file at `path`.
pub open spec fn local_id_of(path: Seq<char>) -> Seq<char> {
    LOCAL_PREFIX@ + path
}

/// The id that selects the file at `path`.
pub fn local_id(path: &str) -> (id: String)
    ensures
        id@ == local_id_of(path@),
{
    let mut id = String::new();
    id.append(LOCAL_PREFIX);
    id.append(path);
    id
}

/// The path a local id names, when `id` is one.
pub fn local_path(id: &str) -> (p: Option<&str>)
    ensures
        match p {
            Some(path) => id@ == local_id_of(path@),
            None => !LOCAL_PREFIX@.is_prefix_of(id@),
        },
{
    if starts_with_str(id, LOCAL_PREFIX) {
        let n = id.unicode_len();
        let k = LOCAL_PREFIX.unicode_len();
        let path = id.substring_char(k, n);
        assert(id@ =~= LOCAL_PREFIX@ + path@);
        Some(path)
    } else {
        None
    }
}

/// Two entries agree on every field.
pub open spec fn same_entry(a: CatalogModel, b: CatalogModel) -> bool {
    &&& a.id@ == b.id@
    &&& a.name@ == b.name@
    &&& a.repo_id@ == b.repo_id@
    &&& a.filename@ == b.filename@
    &&& a.size_bytes == b.size_bytes
    &&& a.quant@ == b.quant@
    &&& a.parameters@ == b.parameters@
    &&& a.license@ == b.license@
    &&& a.released@ == b.released@
    &&& a.reasoning == b.reasoning
    &&& a.prompt_style == b.prompt_style
    &&& a.roles@ == b.roles@
    &&& a.min_ram_mb == b.min_ram_mb
    &&& a.tier == b.tier
    &&& a.default_editor == b.default_editor
    &&& a.default_verifier == b.default_verifier
    &&& a.description@ == b.description@
}

/// The entry for a GGUF the user picked off disk, given its path, its file
/// stem and its size: an editor prompted as a fine-tune, sized from the file.
pub open spec fn local_entry(m: CatalogModel, path: Seq<char>, stem: Seq<char>, size_bytes: u64) -> bool {
    &&& m.id@ == local_id_of(path)
    &&& m.name@ == stem
    &&& m.repo_id@.len() == 0
    &&& m.filename@ == path
    &&& m.size_bytes == size_bytes
    &&& m.quant@ == quant_of(uppercase(path))
    &&& m.parameters@.len() == 0
    &&& m.license@.len() == 0
    &&& m.released@.len() == 0
    &&& !m.reasoning
    &&& m.prompt_style == PromptStyle::Tuned
    &&& m.roles@ == seq![ModelRole::Editor]
    &&& m.min_ram_mb == size_bytes / MIB + RAM_ALLOWANCE_MB
    &&& m.tier == ModelTier::Ultralight
    &&& !m.default_editor
    &&& !m.default_verifier
    &&& m.description@ == path
}

impl CatalogModel {
    /// Synthesise an entry for a GGUF the user picked off disk, from its path,
    /// file stem and size in bytes.
    ///
    /// Prompted as a fine-tune by default, because the reason to load your own
    /// GGUF into this layer is that you fine-tuned it for the task.
    pub fn from_local_file(path: &str, stem: &str, size_bytes: u64) -> (m: Self)
        ensures
            local_entry(m, path@, stem@, size_bytes),
    {
        let mut roles: Vec<ModelRole> = Vec::new();
        roles.push(ModelRole::Editor);
        assert(roles@ =~= seq![ModelRole::Editor]);
        CatalogModel {
            id: local_id(path),
            name: owned(stem),
            repo_id: String::new(),
            filename: owned(path),
            size_bytes,
            quant: owned(quant_in(path)),
            parameters: String::new(),
            license: String::new(),
            released: String::new(),
            reasoning: false,
            prompt_style: PromptStyle::Tuned,
            roles,
            min_ram_mb: size_bytes / MIB + RAM_ALLOWANCE_MB,
            tier: ModelTier::Ultralight,
            default_editor: false,
            default_verifier: false,
            description: owned(path),
        }
    }

    /// Whether this entry points at a file the user chose rather than a download.
    pub fn is_local(&self) -> (b: bool)
        ensures
            b == LOCAL_PREFIX@.is_prefix_of(self.id@),
    {
        starts_with_str(self.id.as_str(), LOCAL_PREFIX)
    }

    /// Whether this model is offered for `role`.
    pub fn supports(&self, role: ModelRole) -> (b: bool)
        ensures
            b == self.roles@.contains(role),
    {
        let mut i: usize = 0;
        while i < self.roles.len()
            invariant
                i <= self.roles@.len(),
                forall|k: int| 0 <= k < i ==> self.roles@[k] != role,
            decreases self.roles@.len() - i,
        {
            if self.roles[i] == role {
                assert(self.roles@[i as int] == role);
                return true;
            }
            i += 1;
        }
        false
    }

    /// Whether this model plausibly runs given `available_mb` of free memory.
    pub fn fits_in(&self, available_mb: u64) -> (b: bool)
        ensures
            b == (self.min_ram_mb <= available_mb),
    {
        self.min_ram_mb <= available_mb
    }

    /// Download size in MiB, for display.
    pub fn size_mb(&self) -> (n: u64)
        ensures
            n == self.size_bytes / MIB,
    {
        self.size_bytes / MIB
    }

    /// A copy of this entry that agrees with it on every field.
    pub fn copied(&self) -> (r: Self)
        ensures
            same_entry(r, *self),
    {
        let mut roles: Vec<ModelRole> = Vec::new();
        let mut i: usize = 0;
        while i < self.roles.len()
            invariant
                i <= self.roles@.len(),
                roles@ == self.roles@.subrange(0, i as int),
            decreases self.roles@.len() - i,
        {
            roles.push(self.roles[i]);
            i += 1;
            assert(roles@ =~= self.roles@.subrange(0, i as int));
        }
        assert(roles@ =~= self.roles@);
        CatalogModel {
            id: self.id.clone(),
            name: self.name.clone(),
            repo_id: self.repo_id.clone(),
            filename: self.filename.clone(),
            size_bytes: self.size_bytes,
            quant: self.quant.clone(),
            parameters: self.parameters.clone(),
            license: self.license.clone(),
            released: self.released.clone(),
            reasoning: self.reasoning,
            prompt_style: self.prompt_style,
            roles,
            min_ram_mb: self.min_ram_mb,
            tier: self.tier,
            default_editor: self.default_editor,
            default_verifier: self.default_verifier,
            description: self.description.clone(),
        }
    }
}

/// `i` is the first index of `models` whose entry satisfies `pred`.
pub open spec fn first_where(models: Seq<CatalogModel>, pred: spec_fn(CatalogModel) -> bool, i: int) -> bool {
    &&& 0 <= i < models.len()
    &&& pred(models[i])
    &&& forall|j: int| 0 <= j < i ==> !pred(#[trigger] models[j])
}

/// No entry of `models` satisfies `pred`.
pub open spec fn none_where(models: Seq<CatalogModel>, pred: spec_fn(CatalogModel) -> bool) -> bool {
    forall|j: int| 0 <= j < models.len() ==> !pred(#[trigger] models[j])
}

/// The lookup `r` returns the first entry satisfying `pred`, or nothing when
/// none does.
pub open spec fn first_entry(
    models: Seq<CatalogModel>,
    pred: spec_fn(CatalogModel) -> bool,
    r: Option<&CatalogModel>,
) -> bool {
    match r {
        Some(m) => exists|i: int| first_where(models, pred, i) && models[i] == *m,
        None => none_where(models, pred),
    }
}

/// The entry has this id.
pub open spec fn has_id(id: Seq<char>) -> spec_fn(CatalogModel) -> bool {
    |m: CatalogModel| m.id@ == id
}

/// The entry is flagged as the default editor.
pub open spec fn flagged_editor() -> spec_fn(CatalogModel) -> bool {
    |m: CatalogModel| m.default_editor
}

/// The entry is flagged as the default verifier.
pub open spec fn flagged_verifier() -> spec_fn(CatalogModel) -> bool {
    |m: CatalogModel| m.default_verifier
}

/// The entry is offered for `role`.
pub open spec fn offered_for(role: ModelRole) -> spec_fn(CatalogModel) -> bool {
    |m: CatalogModel| m.roles@.contains(role)
}

/// Look up a model by its catalog id.
pub fn find<'a>(models: &'a [CatalogModel], id: &str) -> (r: Option<&'a CatalogModel>)
    ensures
        first_entry(models@, has_id(id@), r),
{
    let mut i: usize = 0;
    while i < models.len()
        invariant
            i <= models@.len(),
            forall|j: int| 0 <= j < i ==> !has_id(id@)(#[trigger] models@[j]),
        decreases models@.len() - i,
    {
        if str_eq(models[i].id.as_str(), id) {
            assert(first_where(models@, has_id(id@), i as int));
            return Some(&models[i]);
        }
        i += 1;
    }
    None
}

/// The first entry flagged as the default editor.
fn first_flagged_editor<'a>(models: &'a [CatalogModel]) -> (r: Option<&'a CatalogModel>)
    ensures
        first_entry(models@, flagged_editor(), r),
{
    let mut i: usize = 0;
    while i < models.len()
        invariant
            i <= models@.len(),
            forall|j: int| 0 <= j < i ==> !flagged_editor()(#[trigger] models@[j]),
        decreases models@.len() - i,
    {
        if models[i].default_editor {
            assert(first_where(models@, flagged_editor(), i as int));
            return Some(&models[i]);
        }
        i += 1;
    }
    None
}

/// The first entry flagged as the default verifier.
fn first_flagged_verifier<'a>(models: &'a [CatalogModel]) -> (r: Option<&'a CatalogModel>)
    ensures
        first_entry(models@, flagged_verifier(), r),
{
    let mut i: usize = 0;
    while i < models.len()
        invariant
            i <= models@.len(),
            forall|j: int| 0 <= j < i ==> !flagged_verifier()(#[trigger] models@[j]),
        decreases models@.len() - i,
    {
        if models[i].default_verifier {
            assert(first_where(models@, flagged_verifier(), i as int));
            return Some(&models[i]);
        }
        i += 1;
    }
    None
}

/// The first entry offered for `role`.
fn first_for_role<'a>(models: &'a [CatalogModel], role: ModelRole) -> (r: Option<&'a CatalogModel>)
    ensures
        first_entry(models@, offered_for(role), r),
{
    let mut i: usize = 0;
    while i < models.len()
        invariant
            i <= models@.len(),
            forall|j: int| 0 <= j < i ==> !offered_for(role)(#[trigger] models@[j]),
        decreases models@.len() - i,
    {
        if models[i].supports(role) {
            assert(first_where(models@, offered_for(role), i as int));
            return Some(&models[i]);
        }
        i += 1;
    }
    None
}

/// The editing model chosen when the user has not picked one: the entry
/// flagged as the default editor, else the first entry.
pub fn default_editor<'a>(models: &'a [CatalogModel]) -> (r: Option<&'a CatalogModel>)
    ensures
        none_where(models@, flagged_editor()) ==> match r {
            Some(m) => models@.len() > 0 && *m == models@[0],
            None => models@.len() == 0,
        },
        !none_where(models@, flagged_editor()) ==> first_entry(models@, flagged_editor(), r),
{
    match first_flagged_editor(models) {
        Some(m) => Some(m),
        None => {
            if models.len() > 0 {
                Some(&models[0])
            } else {
                None
            }
        },
    }
}

/// The verifying model chosen when the user has not picked one: the entry
/// flagged as the default verifier, else the first entry offered as a verifier.
pub fn default_verifier<'a>(models: &'a [CatalogModel]) -> (r: Option<&'a CatalogModel>)
    ensures
        none_where(models@, flagged_verifier()) ==> first_entry(
            models@,
            offered_for(ModelRole::Verifier),
            r,
        ),
        !none_where(models@, flagged_verifier()) ==> first_entry(models@, flagged_verifier(), r),
{
    match first_flagged_verifier(models) {
        Some(m) => Some(m),
        None => first_for_role(models, ModelRole::Verifier),
    }
}

/// The entries of `models` satisfying `pred`, in catalog order.
pub open spec fn entries_where(models: Seq<CatalogModel>, pred: spec_fn(CatalogModel) -> bool) -> Seq<
    CatalogModel,
>
    decreases models.len(),
{
    if models.len() == 0 {
        Seq::empty()
    } else {
        let r = entries_where(models.drop_last(), pred);
        if pred(models[models.len() - 1]) {
            r.push(models[models.len() - 1])
        } else {
            r
        }
    }
}

/// The entries a list of references points at.
pub open spec fn targets(v: Seq<&CatalogModel>) -> Seq<CatalogModel> {
    v.map_values(|m: &CatalogModel| *m)
}

/// Models offered for `role`, in catalog order.
pub fn for_role<'a>(models: &'a [CatalogModel], role: ModelRole) -> (r: Vec<&'a CatalogModel>)
    ensures
        targets(r@) == entries_where(models@, offered_for(role)),
{
    let mut r: Vec<&'a CatalogModel> = Vec::new();
    let mut i: usize = 0;
    while i < models.len()
        invariant
            i <= models@.len(),
            targets(r@) == entries_where(models@.subrange(0, i as int), offered_for(role)),
        decreases models@.len() - i,
    {
        proof {
            assert(models@.subrange(0, i + 1).drop_last() =~= models@.subrange(0, i as int));
        }
        let ghost before = r@;
        if models[i].supports(role) {
            r.push(&models[i]);
            assert(targets(r@) =~= targets(before).push(models@[i as int]));
        }
        i += 1;
    }
    assert(models@.subrange(0, i as int) =~= models@);
    r
}

/// The entry fits in `available_mb` and belongs to `tier`.
pub open spec fn fitting_tier(available_mb: u64, tier: ModelTier) -> spec_fn(CatalogModel) -> bool {
    |m: CatalogModel| m.min_ram_mb <= available_mb && m.tier == tier
}

/// The models that fit in `available_mb`, smallest tier first and in catalog
/// order within a tier.
pub open spec fn fitting_order(models: Seq<CatalogModel>, available_mb: u64) -> Seq<CatalogModel> {
    entries_where(models, fitting_tier(available_mb, ModelTier::Ultralight)) + entries_where(
        models,
        fitting_tier(available_mb, ModelTier::Balanced),
    ) + entries_where(models, fitting_tier(available_mb, ModelTier::Quality))
}

/// Append the entries of `tier` that fit in `available_mb`, in catalog order.
fn push_fitting<'a>(
    models: &'a [CatalogModel],
    available_mb: u64,
    tier: ModelTier,
    out: &mut Vec<&'a CatalogModel>,
)
    ensures
        targets(final(out)@) == targets(old(out)@) + entries_where(
            models@,
            fitting_tier(available_mb, tier),
        ),
{
    let ghost start = targets(out@);
    let mut i: usize = 0;
    while i < models.len()
        invariant
            i <= models@.len(),
            targets(out@) == start + entries_where(
                models@.subrange(0, i as int),
                fitting_tier(available_mb, tier),
            ),
        decreases models@.len() - i,
    {
        proof {
            assert(models@.subrange(0, i + 1).drop_last() =~= models@.subrange(0, i as int));
        }
        let ghost before = out@;
        if models[i].fits_in(available_mb) && models[i].tier == tier {
            out.push(&models[i]);
            proof {
                let part = entries_where(
                    models@.subrange(0, i as int),
                    fitting_tier(available_mb, tier),
                );
                assert(targets(out@) =~= targets(before).push(models@[i as int]));
                assert(start + part.push(models@[i as int]) =~= (start + part).push(
                    models@[i as int],
                ));
            }
        }
        i += 1;
    }
    assert(models@.subrange(0, i as int) =~= models@);
}

/// Models that fit in `available_mb` of memory, smallest tier first, so a
/// machine that is short of memory sees what it can run at the top.
pub fn fitting<'a>(models: &'a [CatalogModel], available_mb: u64) -> (r: Vec<&'a CatalogModel>)
    ensures
        targets(r@) == fitting_order(models@, available_mb),
{
    let mut r: Vec<&'a CatalogModel> = Vec::new();
    assert(targets(r@) =~= Seq::<CatalogModel>::empty());
    push_fitting(models, available_mb, ModelTier::Ultralight, &mut r);
    push_fitting(models, available_mb, ModelTier::Balanced, &mut r);
    push_fitting(models, available_mb, ModelTier::Quality, &mut r);
    let ghost u = entries_where(models@, fitting_tier(available_mb, ModelTier::Ultralight));
    assert(Seq::<CatalogModel>::empty() + u =~= u);
    r
}

/// Every entry kept by a filter satisfies it.
pub proof fn lemma_entries_where_satisfy(models: Seq<CatalogModel>, pred: spec_fn(CatalogModel) -> bool)
    ensures
        forall|k: int| 0 <= k < entries_where(models, pred).len() ==> pred(
            #[trigger] entries_where(models, pred)[k],
        ),
        entries_where(models, pred).len() <= models.len(),
    decreases models.len(),
{
    if models.len() > 0 {
        lemma_entries_where_satisfy(models.drop_last(), pred);
    }
}

/// Within one tier, more memory never offers fewer models.
proof fn lemma_tier_grows_with_memory(models: Seq<CatalogModel>, small: u64, large: u64, tier: ModelTier)
    requires
        small <= large,
    ensures
        entries_where(models, fitting_tier(small, tier)).len() <= entries_where(
            models,
            fitting_tier(large, tier),
        ).len(),
    decreases models.len(),
{
    if models.len() > 0 {
        lemma_tier_grows_with_memory(models.drop_last(), small, large, tier);
    }
}

/// Every model offered as fitting does fit.
pub proof fn lemma_fitting_models_fit(models: Seq<CatalogModel>, available_mb: u64)
    ensures
        forall|k: int|
            0 <= k < fitting_order(models, available_mb).len() ==> (#[trigger] fitting_order(
                models,
                available_mb,
            )[k]).min_ram_mb <= available_mb,
{
    let u = entries_where(models, fitting_tier(available_mb, ModelTier::Ultralight));
    let b = entries_where(models, fitting_tier(available_mb, ModelTier::Balanced));
    let q = entries_where(models, fitting_tier(available_mb, ModelTier::Quality));
    lemma_entries_where_satisfy(models, fitting_tier(available_mb, ModelTier::Ultralight));
    lemma_entries_where_satisfy(models, fitting_tier(available_mb, ModelTier::Balanced));
    lemma_entries_where_satisfy(models, fitting_tier(available_mb, ModelTier::Quality));
    assert forall|k: int| 0 <= k < fitting_order(models, available_mb).len() implies (
    #[trigger] fitting_order(models, available_mb)[k]).min_ram_mb <= available_mb by {
        let f = fitting_order(models, available_mb);
        if k < u.len() {
            assert(f[k] == u[k]);
            assert(fitting_tier(available_mb, ModelTier::Ultralight)(u[k]));
        } else if k < u.len() + b.len() {
            assert(f[k] == b[k - u.len()]);
            assert(fitting_tier(available_mb, ModelTier::Balanced)(b[k - u.len()]));
        } else {
            assert(f[k] == q[k - u.len() - b.len()]);
            assert(fitting_tier(available_mb, ModelTier::Quality)(q[k - u.len() - b.len()]));
        }
    }
}

/// More memory never offers fewer models: every model that fits in `small`
/// also fits in `large`, so the list for `large` is at least as long.
pub proof fn lemma_fitting_grows_with_memory(models: Seq<CatalogModel>, small: u64, large: u64)
    requires
        small <= large,
    ensures
        fitting_order(models, small).len() <= fitting_order(models, large).len(),
{
    lemma_tier_grows_with_memory(models, small, large, ModelTier::Ultralight);
    lemma_tier_grows_with_memory(models, small, large, ModelTier::Balanced);
    lemma_tier_grows_with_memory(models, small, large, ModelTier::Quality);
}

/// A file name reports the first recognised quantisation tag it contains, in
/// the order Q2_K_L, Q3_K_M, Q4_K_M, Q5_K_M, Q6_K, Q8_0, F16, IQ3_XXS, and
/// "unknown" exactly when it contains none of them.
pub proof fn lemma_quant_is_the_first_listed_tag(upper: Seq<char>)
    ensures
        contains(upper, "Q2_K_L"@) ==> quant_of(upper) == "Q2_K_L"@,
        !contains(upper, "Q2_K_L"@) && contains(upper, "Q3_K_M"@) ==> quant_of(upper)
            == "Q3_K_M"@,
        !contains(upper, "Q2_K_L"@) && !contains(upper, "Q3_K_M"@) && contains(upper, "Q4_K_M"@)
            ==> quant_of(upper) == "Q4_K_M"@,
        !contains(upper, "Q2_K_L"@) && !contains(upper, "Q3_K_M"@) && !contains(upper, "Q4_K_M"@)
            && contains(upper, "Q5_K_M"@) ==> quant_of(upper) == "Q5_K_M"@,
        !contains(upper, "Q2_K_L"@) && !contains(upper, "Q3_K_M"@) && !contains(upper, "Q4_K_M"@)
            && !contains(upper, "Q5_K_M"@) && contains(upper, "Q6_K"@) ==> quant_of(upper)
            == "Q6_K"@,
        !contains(upper, "Q2_K_L"@) && !contains(upper, "Q3_K_M"@) && !contains(upper, "Q4_K_M"@)
            && !contains(upper, "Q5_K_M"@) && !contains(upper, "Q6_K"@) && contains(
            upper,
            "Q8_0"@,
        ) ==> quant_of(upper) == "Q8_0"@,
        !contains(upper, "Q2_K_L"@) && !contains(upper, "Q3_K_M"@) && !contains(upper, "Q4_K_M"@)
            && !contains(upper, "Q5_K_M"@) && !contains(upper, "Q6_K"@) && !contains(
            upper,
            "Q8_0"@,
        ) && contains(upper, "F16"@) ==> quant_of(upper) == "F16"@,
        !contains(upper, "Q2_K_L"@) && !contains(upper, "Q3_K_M"@) && !contains(upper, "Q4_K_M"@)
            && !contains(upper, "Q5_K_M"@) && !contains(upper, "Q6_K"@) && !contains(
            upper,
            "Q8_0"@,
        ) && !contains(upper, "F16"@) && contains(upper, "IQ3_XXS"@) ==> quant_of(upper)
            == "IQ3_XXS"@,
        (quant_of(upper) == "unknown"@) == (!contains(upper, "Q2_K_L"@) && !contains(
            upper,
            "Q3_K_M"@,
        ) && !contains(upper, "Q4_K_M"@) && !contains(upper, "Q5_K_M"@) && !contains(
            upper,
            "Q6_K"@,
        ) && !contains(upper, "Q8_0"@) && !contains(upper, "F16"@) && !contains(
            upper,
            "IQ3_XXS"@,
        )),
{
    reveal_strlit("unknown");
    reveal_strlit("Q2_K_L");
    reveal_strlit("Q3_K_M");
    reveal_strlit("Q4_K_M");
    reveal_strlit("Q5_K_M");
    reveal_strlit("Q6_K");
    reveal_strlit("Q8_0");
    reveal_strlit("F16");
    reveal_strlit("IQ3_XXS");
    assert("unknown"@[0] != "IQ3_XXS"@[0]);
}

} // verus!
