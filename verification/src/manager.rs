//! The model manager's decisions: which model a setting refers to, how a
//! pass is reported to the settings UI, and when download progress is worth
//! reporting.
use vstd::prelude::*;
use std::time::Duration;
use crate::catalog::{
    owned,
    default_editor, default_verifier, find, first_entry, first_where, flagged_editor,
    flagged_verifier, has_id, local_path, none_where, offered_for, same_entry, CatalogModel,
    ModelRole, PromptStyle, LOCAL_PREFIX,
};
use crate::enhance::{duration_nanos, nanos, Enhanced};
use crate::prompt::Rejection;
use crate::verify::Verdict;
use crate::text::str_eq;

verus! {

/// Runtime state of the enhancement layer, for the settings UI.
#[derive(Debug, Clone)]
pub struct EnhanceStatus {
    /// Whether the sidecar binary was found at all.
    pub available: bool,
    /// Whether the sidecar process is running.
    pub running: bool,
    /// Catalog id of the resident model, if any.
    pub loaded_model_id: Option<String>,
    /// Why the layer is unusable, when it is.
    pub error: Option<String>,
}

/// Where a download has got to.
#[derive(Debug, Clone, Copy, PartialEq, Eq, Structural)]
pub enum DownloadState {
    /// Bytes are still arriving.
    Running,
    /// The file is on disk and passed its size check.
    Done,
    /// The download failed.
    Failed,
}

/// Result of a preview run, including why it fell back when it did.
#[derive(Debug, Clone)]
pub struct EnhancePreview {
    /// Text that would be pasted.
    pub text: String,
    /// The untouched transcript.
    pub original: String,
    /// Whether the layer changed anything.
    pub changed: bool,
    /// Set when a mechanical guard refused the rewrite.
    pub rejected: Option<String>,
    /// Set when the meaning check ran.
    pub verdict: Option<String>,
    /// Set when the model could not run.
    pub error: Option<String>,
    /// Wall-clock milliseconds spent.
    pub elapsed_ms: u64,
}

/// The name a rejection is reported under.
pub open spec fn rejection_name(r: Rejection) -> Seq<char> {
    match r {
        Rejection::Empty => "Empty"@,
        Rejection::TooShort => "TooShort"@,
        Rejection::TooLong => "TooLong"@,
        Rejection::MetaCommentary => "MetaCommentary"@,
        Rejection::Hallucinated => "Hallucinated"@,
    }
}

/// The name a verdict is reported under.
pub open spec fn verdict_name(v: Verdict) -> Seq<char> {
    match v {
        Verdict::Same => "Same"@,
        Verdict::Changed => "Changed"@,
        Verdict::Unclear => "Unclear"@,
    }
}

fn name_of_rejection(r: Rejection) -> (s: String)
    ensures
        s@ == rejection_name(r),
{
    let mut s = String::new();
    match r {
        Rejection::Empty => s.append("Empty"),
        Rejection::TooShort => s.append("TooShort"),
        Rejection::TooLong => s.append("TooLong"),
        Rejection::MetaCommentary => s.append("MetaCommentary"),
        Rejection::Hallucinated => s.append("Hallucinated"),
    }
    s
}

fn name_of_verdict(v: Verdict) -> (s: String)
    ensures
        s@ == verdict_name(v),
{
    let mut s = String::new();
    match v {
        Verdict::Same => s.append("Same"),
        Verdict::Changed => s.append("Changed"),
        Verdict::Unclear => s.append("Unclear"),
    }
    s
}

impl EnhancePreview {
    /// The preview of a finished pass that took `elapsed_ms` milliseconds.
    pub fn from_enhanced(out: Enhanced, elapsed_ms: u64) -> (p: Self)
        ensures
            p.text == out.text,
            p.original == out.original,
            p.changed == (out.text@ != out.original@),
            match out.rejected {
                Some(r) => p.rejected matches Some(s) && s@ == rejection_name(r),
                None => p.rejected is None,
            },
            match out.verdict {
                Some(v) => p.verdict matches Some(s) && s@ == verdict_name(v),
                None => p.verdict is None,
            },
            p.error == out.error,
            p.elapsed_ms == elapsed_ms,
    {
        let changed = out.changed();
        let rejected = match out.rejected {
            Some(r) => Some(name_of_rejection(r)),
            None => None,
        };
        let verdict = match out.verdict {
            Some(v) => Some(name_of_verdict(v)),
            None => None,
        };
        EnhancePreview {
            text: out.text,
            original: out.original,
            changed,
            rejected,
            verdict,
            error: out.error,
            elapsed_ms,
        }
    }
}

/// Progress reports are throttled to this interval, in nanoseconds.
pub const REPORT_INTERVAL_NANOS: u128 = 100_000_000;

/// Whether a progress update is worth reporting: at most about ten a second,
/// but the one that completes the download is never dropped.
pub fn should_report(since_last: Duration, downloaded: u64, total: u64) -> (b: bool)
    ensures
        b == (nanos(since_last) >= REPORT_INTERVAL_NANOS || (total > 0 && downloaded >= total)),
{
    let done = total > 0 && downloaded >= total;
    !(duration_nanos(&since_last) < REPORT_INTERVAL_NANOS && !done)
}


/// The running totals of one download, as the progress reporter keeps them.
#[derive(Debug, Clone, Copy)]
pub struct DownloadTally {
    /// Total bytes expected, or 0 before the size is known.
    pub total: u64,
    /// Bytes received so far.
    pub downloaded: u64,
}

impl DownloadTally {
    /// Nothing known yet.
    pub fn new() -> (t: Self)
        ensures
            t.total == 0,
            t.downloaded == 0,
    {
        DownloadTally { total: 0, downloaded: 0 }
    }

    /// A transfer of `size` bytes begins; nothing has arrived yet.
    pub fn start(&mut self, size: u64)
        ensures
            final(self).total == size,
            final(self).downloaded == 0,
    {
        self.total = size;
        self.downloaded = 0;
    }

    /// `size` more bytes arrived, `since_last` after the last report. The
    /// count saturates rather than wrapping. Returns whether this update is
    /// worth reporting (see [`should_report`]).
    pub fn advance(&mut self, size: u64, since_last: Duration) -> (report: bool)
        ensures
            final(self).total == old(self).total,
            final(self).downloaded == if old(self).downloaded + size > u64::MAX {
                u64::MAX as int
            } else {
                old(self).downloaded + size
            },
            report == (nanos(since_last) >= REPORT_INTERVAL_NANOS || (final(self).total > 0
                && final(self).downloaded >= final(self).total)),
    {
        self.downloaded = self.downloaded.saturating_add(size);
        should_report(since_last, self.downloaded, self.total)
    }

    /// The counts reported when the transfer finishes: at least the expected
    /// size, so the last report reads complete.
    pub fn finished(&self) -> (r: (u64, u64))
        ensures
            r.0 == if self.downloaded >= self.total {
                self.downloaded
            } else {
                self.total
            },
            r.1 == self.total,
    {
        let done = if self.downloaded >= self.total {
            self.downloaded
        } else {
            self.total
        };
        (done, self.total)
    }
}

/// Why a model could not be made resident.
#[derive(Debug, Clone, Copy, PartialEq, Eq, Structural)]
pub enum LoadRefusal {
    /// The enhancement engine is not available in this build.
    Unavailable,
    /// The model's file has not been downloaded.
    NotDownloaded,
}

/// The GPU layer request for a load: `None` lets the engine offload
/// everything its build supports, `Some(0)` pins it to the CPU. Refused when
/// the engine is unavailable, or else when the model is not on disk.
pub fn load_request(available: bool, downloaded: bool, use_gpu: bool) -> (r: Result<
    Option<u32>,
    LoadRefusal,
>)
    ensures
        r == if !available {
            Err::<Option<u32>, LoadRefusal>(LoadRefusal::Unavailable)
        } else if !downloaded {
            Err(LoadRefusal::NotDownloaded)
        } else if use_gpu {
            Ok(None)
        } else {
            Ok(Some(0u32))
        },
{
    if !available {
        Err(LoadRefusal::Unavailable)
    } else if !downloaded {
        Err(LoadRefusal::NotDownloaded)
    } else if use_gpu {
        Ok(None)
    } else {
        Ok(Some(0))
    }
}

/// Whether a file of `on_disk` bytes (when it could be measured) is the
/// complete download of `model`: a half-finished or substituted file is not.
pub fn download_is_complete(model: &CatalogModel, on_disk: Option<u64>) -> (b: bool)
    ensures
        b == (on_disk == Some(model.size_bytes)),
{
    match on_disk {
        Some(n) => n == model.size_bytes,
        None => false,
    }
}

/// The index of the first entry satisfying `pred`.
pub open spec fn first_index_where(models: Seq<CatalogModel>, pred: spec_fn(CatalogModel) -> bool) -> int {
    choose|k: int| first_where(models, pred, k)
}

/// Which entry is the default for `role`: the flagged default, else the first
/// entry (editor) or the first entry offered as a verifier (verifier).
pub open spec fn default_index(models: Seq<CatalogModel>, role: ModelRole) -> Option<int> {
    match role {
        ModelRole::Editor => if !none_where(models, flagged_editor()) {
            Some(first_index_where(models, flagged_editor()))
        } else if models.len() > 0 {
            Some(0)
        } else {
            None
        },
        ModelRole::Verifier => if !none_where(models, flagged_verifier()) {
            Some(first_index_where(models, flagged_verifier()))
        } else if !none_where(models, offered_for(ModelRole::Verifier)) {
            Some(first_index_where(models, offered_for(ModelRole::Verifier)))
        } else {
            None
        },
    }
}

/// `r` is a copy of the entry at `idx`, or nothing when there is none.
pub open spec fn entry_at(models: Seq<CatalogModel>, idx: Option<int>, r: Option<CatalogModel>) -> bool {
    match idx {
        Some(k) => {
            &&& 0 <= k < models.len()
            &&& r matches Some(m) && same_entry(m, models[k])
        },
        None => r is None,
    }
}

/// The character view of an optional id.
pub open spec fn id_view(id: Option<&str>) -> Option<Seq<char>> {
    match id {
        Some(s) => Some(s@),
        None => None,
    }
}

/// What a setting resolves to. A local id resolves to the entry read from its
/// file, when it could be read; a catalog id resolves to the first entry with
/// that id; anything else, including no id, an unknown id and a local file
/// that is gone, falls back to the role's default.
pub open spec fn resolves_to(
    models: Seq<CatalogModel>,
    id: Option<Seq<char>>,
    role: ModelRole,
    local: Option<CatalogModel>,
    r: Option<CatalogModel>,
) -> bool {
    match id {
        Some(i) => if LOCAL_PREFIX@.is_prefix_of(i) && local is Some {
            r == local
        } else if !LOCAL_PREFIX@.is_prefix_of(i) && !none_where(models, has_id(i)) {
            entry_at(models, Some(first_index_where(models, has_id(i))), r)
        } else {
            entry_at(models, default_index(models, role), r)
        },
        None => entry_at(models, default_index(models, role), r),
    }
}

proof fn lemma_first_entry_index(
    models: Seq<CatalogModel>,
    pred: spec_fn(CatalogModel) -> bool,
    m: CatalogModel,
)
    requires
        exists|i: int| first_where(models, pred, i) && models[i] == m,
    ensures
        0 <= first_index_where(models, pred) < models.len(),
        models[first_index_where(models, pred)] == m,
{
    let i = choose|i: int| first_where(models, pred, i) && models[i] == m;
    let k = first_index_where(models, pred);
    assert(first_where(models, pred, k));
    if k < i {
        assert(!pred(models[k]));
    }
    if i < k {
        assert(!pred(models[i]));
    }
}

/// A copy of the role's default entry.
fn role_default(models: &[CatalogModel], role: ModelRole) -> (r: Option<CatalogModel>)
    ensures
        entry_at(models@, default_index(models@, role), r),
{
    let d = match role {
        ModelRole::Editor => default_editor(models),
        ModelRole::Verifier => default_verifier(models),
    };
    match d {
        Some(m) => {
            proof {
                match role {
                    ModelRole::Editor => {
                        if !none_where(models@, flagged_editor()) {
                            lemma_first_entry_index(models@, flagged_editor(), *m);
                        }
                    },
                    ModelRole::Verifier => {
                        if !none_where(models@, flagged_verifier()) {
                            lemma_first_entry_index(models@, flagged_verifier(), *m);
                        } else {
                            lemma_first_entry_index(models@, offered_for(ModelRole::Verifier), *m);
                        }
                    },
                }
            }
            Some(m.copied())
        },
        None => {
            proof {
                match role {
                    ModelRole::Editor => {},
                    ModelRole::Verifier => {
                        if !none_where(models@, flagged_verifier()) {
                        } else if !none_where(models@, offered_for(ModelRole::Verifier)) {
                            let k = choose|k: int|
                                0 <= k < models@.len() && offered_for(ModelRole::Verifier)(
                                    #[trigger] models@[k],
                                );
                            assert(!offered_for(ModelRole::Verifier)(models@[k]));
                        }
                    },
                }
            }
            None
        },
    }
}

/// Resolve the model a setting refers to, falling back to the role's default.
///
/// `local` is the entry for the file a local id names, when that file could
/// be read; a path that has gone missing falls through to the default rather
/// than leaving the user with no working model.
pub fn resolve_model(
    models: &[CatalogModel],
    id: Option<&str>,
    role: ModelRole,
    local: Option<CatalogModel>,
) -> (r: Option<CatalogModel>)
    ensures
        resolves_to(models@, id_view(id), role, local, r),
{
    match id {
        Some(i) => {
            match local_path(i) {
                Some(_) => {
                    if local.is_some() {
                        return local;
                    }
                },
                None => {
                    match find(models, i) {
                        Some(m) => {
                            proof {
                                lemma_first_entry_index(models@, has_id(i@), *m);
                            }
                            return Some(m.copied());
                        },
                        None => {},
                    }
                },
            }
        },
        None => {},
    }
    role_default(models, role)
}

/// Resolve a model and apply the user's prompt-style override, which only
/// ever applies to a model loaded off disk: a catalog entry states its own
/// style.
pub fn resolve_model_with(
    models: &[CatalogModel],
    id: Option<&str>,
    role: ModelRole,
    override_style: Option<PromptStyle>,
    local: Option<CatalogModel>,
) -> (r: Option<CatalogModel>)
    ensures
        exists|base: Option<CatalogModel>|
            #![trigger resolves_to(models@, id_view(id), role, local, base)]
            resolves_to(models@, id_view(id), role, local, base) && match (base, r) {
                (Some(b), Some(m)) => m == (CatalogModel {
                    prompt_style: match override_style {
                        Some(s) => if LOCAL_PREFIX@.is_prefix_of(b.id@) {
                            s
                        } else {
                            b.prompt_style
                        },
                        None => b.prompt_style,
                    },
                    ..b
                }),
                (None, None) => true,
                _ => false,
            },
{
    let base = resolve_model(models, id, role, local);
    let ghost b0 = base;
    match base {
        Some(mut model) => {
            match override_style {
                Some(style) => {
                    if model.is_local() {
                        model.prompt_style = style;
                    }
                },
                None => {},
            }
            Some(model)
        },
        None => None,
    }
}


/// A download in flight as the settings UI is told about it. The percentage
/// the UI shows is derived from the two byte counts where it is displayed.
#[derive(Debug, Clone)]
pub struct EnhanceDownloadProgress {
    /// Catalog id of the model being fetched.
    pub model_id: String,
    /// Bytes received so far.
    pub downloaded: u64,
    /// Total bytes expected, or 0 before the size is known.
    pub total: u64,
    /// Whether the download is still running, finished, or failed.
    pub state: DownloadState,
    /// Why it failed, when it did.
    pub error: Option<String>,
}

/// The byte counts a registry holds for each model id, from its entries.
pub open spec fn counts_of(s: Seq<EnhanceDownloadProgress>) -> Map<Seq<char>, (u64, u64)>
    decreases s.len(),
{
    if s.len() == 0 {
        Map::empty()
    } else {
        counts_of(s.drop_last()).insert(s.last().model_id@, (s.last().downloaded, s.last().total))
    }
}

/// No model id occurs twice.
pub open spec fn distinct_ids(s: Seq<EnhanceDownloadProgress>) -> bool {
    forall|i: int, j: int|
        0 <= i < s.len() && 0 <= j < s.len() && i != j ==> #[trigger] s[i].model_id@
            != #[trigger] s[j].model_id@
}

/// Every entry is a running download with no error.
pub open spec fn all_running(s: Seq<EnhanceDownloadProgress>) -> bool {
    forall|i: int|
        0 <= i < s.len() ==> (#[trigger] s[i]).state == DownloadState::Running && s[i].error is None
}

/// The downloads currently running, one per model id.
///
/// A second request for a model whose download is running joins it instead
/// of starting a competing one, and a download that finishes or fails gives
/// its slot back.
pub struct Downloads {
    entries: Vec<EnhanceDownloadProgress>,
}

impl View for Downloads {
    type V = Map<Seq<char>, (u64, u64)>;

    /// Each running download's byte counts (received, expected), by model id.
    /// Every download held is running and has no error, so this is all there
    /// is to know of one.
    closed spec fn view(&self) -> Map<Seq<char>, (u64, u64)> {
        counts_of(self.entries@)
    }
}

proof fn lemma_counts_of(s: Seq<EnhanceDownloadProgress>)
    requires
        distinct_ids(s),
    ensures
        forall|k: Seq<char>|
            #[trigger] counts_of(s).dom().contains(k) <==> exists|i: int|
                0 <= i < s.len() && #[trigger] s[i].model_id@ == k,
        forall|i: int|
            0 <= i < s.len() ==> #[trigger] counts_of(s)[s[i].model_id@] == (
                s[i].downloaded,
                s[i].total,
            ),
    decreases s.len(),
{
    if s.len() > 0 {
        let t = s.drop_last();
        assert(distinct_ids(t)) by {
            assert forall|i: int, j: int|
                0 <= i < t.len() && 0 <= j < t.len() && i != j implies #[trigger] t[i].model_id@
                != #[trigger] t[j].model_id@ by {
                assert(t[i] == s[i] && t[j] == s[j]);
            }
        }
        lemma_counts_of(t);
        let n = s.len() - 1;
        assert(counts_of(s) == counts_of(t).insert(s[n].model_id@, (s[n].downloaded, s[n].total)));
        assert forall|k: Seq<char>|
            #[trigger] counts_of(s).dom().contains(k) == exists|i: int|
                0 <= i < s.len() && #[trigger] s[i].model_id@ == k by {
            if k == s[n].model_id@ {
                assert(s[n].model_id@ == k);
            } else {
                assert(counts_of(s).dom().contains(k) == counts_of(t).dom().contains(k));
                if counts_of(t).dom().contains(k) {
                    let i = choose|i: int| 0 <= i < t.len() && #[trigger] t[i].model_id@ == k;
                    assert(s[i] == t[i]);
                    assert(s[i].model_id@ == k);
                }
                if exists|i: int| 0 <= i < s.len() && #[trigger] s[i].model_id@ == k {
                    let i = choose|i: int| 0 <= i < s.len() && #[trigger] s[i].model_id@ == k;
                    assert(i != n);
                    assert(t[i] == s[i]);
                    assert(t[i].model_id@ == k);
                }
            }
        }
        assert forall|i: int| 0 <= i < s.len() implies #[trigger] counts_of(s)[s[i].model_id@] == (
            s[i].downloaded,
            s[i].total,
        ) by {
            if i < n {
                assert(t[i] == s[i]);
                assert(s[i].model_id@ != s[n].model_id@);
            }
        }
    }
}

/// The entry a running update is held as: its model and counts, running, with
/// no error.
fn running_entry(update: EnhanceDownloadProgress) -> (e: EnhanceDownloadProgress)
    ensures
        e.model_id == update.model_id,
        e.downloaded == update.downloaded,
        e.total == update.total,
        e.state == DownloadState::Running,
        e.error is None,
{
    EnhanceDownloadProgress {
        model_id: update.model_id,
        downloaded: update.downloaded,
        total: update.total,
        state: DownloadState::Running,
        error: None,
    }
}

impl Downloads {
    /// No model id occurs twice, and every entry held is a running download
    /// with no error: a download that is done or failed is not held.
    #[verifier::type_invariant]
    spec fn wf(self) -> bool {
        &&& distinct_ids(self.entries@)
        &&& all_running(self.entries@)
    }

    /// No download running.
    pub fn new() -> (d: Self)
        ensures
            d@ == Map::<Seq<char>, (u64, u64)>::empty(),
    {
        Downloads { entries: Vec::new() }
    }

    /// Where the entry for `id` stands, if there is one.
    fn position(&self, id: &str) -> (r: Option<usize>)
        ensures
            match r {
                Some(i) => i < self.entries@.len() && self.entries@[i as int].model_id@ == id@,
                None => forall|i: int|
                    0 <= i < self.entries@.len() ==> #[trigger] self.entries@[i].model_id@ != id@,
            },
    {
        let mut i: usize = 0;
        while i < self.entries.len()
            invariant
                i <= self.entries@.len(),
                forall|j: int| 0 <= j < i ==> #[trigger] self.entries@[j].model_id@ != id@,
            decreases self.entries@.len() - i,
        {
            if str_eq(self.entries[i].model_id.as_str(), id) {
                return Some(i);
            }
            i += 1;
        }
        None
    }

    /// Whether a download for `id` is running.
    pub fn is_downloading(&self, id: &str) -> (b: bool)
        ensures
            b == self@.dom().contains(id@),
    {
        proof {
            use_type_invariant(self);
            lemma_counts_of(self.entries@);
        }
        self.position(id).is_some()
    }

    /// The byte counts (received, expected) of the running download for `id`.
    pub fn progress(&self, id: &str) -> (r: Option<(u64, u64)>)
        ensures
            r == if self@.dom().contains(id@) {
                Some(self@[id@])
            } else {
                None::<(u64, u64)>
            },
    {
        proof {
            use_type_invariant(self);
            lemma_counts_of(self.entries@);
        }
        match self.position(id) {
            Some(i) => Some((self.entries[i].downloaded, self.entries[i].total)),
            None => None,
        }
    }

    /// Claim the slot for `id` before a download starts, expecting `total`
    /// bytes. Refused, leaving the registry as it was, when a download for
    /// `id` is already running.
    pub fn claim(&mut self, id: &str, total: u64) -> (claimed: bool)
        ensures
            claimed == !old(self)@.dom().contains(id@),
            claimed ==> final(self)@ == old(self)@.insert(id@, (0u64, total)),
            !claimed ==> final(self)@ == old(self)@,
    {
        proof {
            use_type_invariant(&*self);
            lemma_counts_of(self.entries@);
        }
        match self.position(id) {
            Some(_) => false,
            None => {
                let entry = EnhanceDownloadProgress {
                    model_id: owned(id),
                    downloaded: 0,
                    total,
                    state: DownloadState::Running,
                    error: None,
                };
                let ghost before = self.entries@;
                let mut entries = Vec::new();
                std::mem::swap(&mut entries, &mut self.entries);
                entries.push(entry);
                proof {
                    assert(entries@.drop_last() =~= before);
                }
                self.entries = entries;
                true
            },
        }
    }

    /// Decide whether to start downloading `model`, whose file on disk
    /// measures `on_disk` bytes when it could be measured. A complete file
    /// needs no download, and a model whose download is running joins it:
    /// neither starts a second transfer or changes the registry. Otherwise
    /// the slot is claimed for the model's expected size and the transfer is
    /// to start.
    pub fn begin(&mut self, model: &CatalogModel, on_disk: Option<u64>) -> (start: bool)
        ensures
            start == (on_disk != Some(model.size_bytes) && !old(self)@.dom().contains(model.id@)),
            start ==> final(self)@ == old(self)@.insert(model.id@, (0u64, model.size_bytes)),
            !start ==> final(self)@ == old(self)@,
    {
        if download_is_complete(model, on_disk) {
            return false;
        }
        self.claim(model.id.as_str(), model.size_bytes)
    }

    /// Record an update: a running download's counts replace what was held
    /// for its model, and a download that is done or failed gives its slot
    /// back.
    pub fn publish(&mut self, update: EnhanceDownloadProgress)
        ensures
            update.state == DownloadState::Running ==> final(self)@ == old(self)@.insert(
                update.model_id@,
                (update.downloaded, update.total),
            ),
            update.state != DownloadState::Running ==> final(self)@ == old(self)@.remove(
                update.model_id@,
            ),
    {
        proof {
            use_type_invariant(&*self);
        }
        let ghost s = self.entries@;
        let ghost k = update.model_id@;
        proof {
            lemma_counts_of(s);
        }
        let found = self.position(update.model_id.as_str());
        let mut entries = Vec::new();
        std::mem::swap(&mut entries, &mut self.entries);
        match update.state {
            DownloadState::Running => {
                match found {
                    Some(i) => {
                        let ghost v = (update.downloaded, update.total);
                        entries.set(i, running_entry(update));
                        proof {
                            let s2 = entries@;
                            assert(s2 == s.update(i as int, s2[i as int]));
                            assert(distinct_ids(s2)) by {
                                assert forall|a: int, b: int|
                                    0 <= a < s2.len() && 0 <= b < s2.len() && a != b implies #[trigger] s2[a].model_id@
                                    != #[trigger] s2[b].model_id@ by {
                                    assert(s2[a].model_id@ == s[a].model_id@);
                                    assert(s2[b].model_id@ == s[b].model_id@);
                                }
                            }
                            lemma_counts_of(s2);
                            let m = counts_of(s).insert(k, v);
                            assert forall|x: Seq<char>| #[trigger] counts_of(s2).dom().contains(x) <==> m.dom().contains(x) by {
                                if counts_of(s2).dom().contains(x) {
                                    let j = choose|j: int| 0 <= j < s2.len() && #[trigger] s2[j].model_id@ == x;
                                    assert(s[j].model_id@ == x);
                                }
                                if m.dom().contains(x) && x != k {
                                    let j = choose|j: int| 0 <= j < s.len() && #[trigger] s[j].model_id@ == x;
                                    assert(s2[j].model_id@ == x);
                                }
                                if x == k {
                                    assert(s2[i as int].model_id@ == x);
                                }
                            }
                            assert forall|x: Seq<char>| #[trigger] counts_of(s2).dom().contains(x) implies counts_of(s2)[x] == m[x] by {
                                let j = choose|j: int| 0 <= j < s2.len() && #[trigger] s2[j].model_id@ == x;
                                assert(counts_of(s2)[s2[j].model_id@] == (s2[j].downloaded, s2[j].total));
                                if j != i {
                                    assert(s2[j] == s[j]);
                                    assert(counts_of(s)[s[j].model_id@] == (s[j].downloaded, s[j].total));
                                }
                            }
                            assert(counts_of(s2) =~= m);
                        }
                    },
                    None => {
                        entries.push(running_entry(update));
                        proof {
                            assert(entries@.drop_last() =~= s);
                            let s2 = entries@;
                            assert(distinct_ids(s2)) by {
                                assert forall|a: int, b: int|
                                    0 <= a < s2.len() && 0 <= b < s2.len() && a != b implies #[trigger] s2[a].model_id@
                                    != #[trigger] s2[b].model_id@ by {
                                    if a < s.len() {
                                        assert(s2[a] == s[a]);
                                    }
                                    if b < s.len() {
                                        assert(s2[b] == s[b]);
                                    }
                                }
                            }
                        }
                    },
                }
            },
            _ => {
                match found {
                    Some(i) => {
                        entries.remove(i);
                        proof {
                            let s2 = entries@;
                            assert(s2 =~= s.remove(i as int));
                            assert(distinct_ids(s2)) by {
                                assert forall|a: int, b: int|
                                    0 <= a < s2.len() && 0 <= b < s2.len() && a != b implies #[trigger] s2[a].model_id@
                                    != #[trigger] s2[b].model_id@ by {
                                    let a1 = if a < i { a } else { a + 1 };
                                    let b1 = if b < i { b } else { b + 1 };
                                    assert(s2[a] == s[a1]);
                                    assert(s2[b] == s[b1]);
                                }
                            }
                            lemma_counts_of(s2);
                            let m = counts_of(s).remove(k);
                            assert forall|x: Seq<char>| #[trigger] counts_of(s2).dom().contains(x) <==> m.dom().contains(x) by {
                                if counts_of(s2).dom().contains(x) {
                                    let j = choose|j: int| 0 <= j < s2.len() && #[trigger] s2[j].model_id@ == x;
                                    let j1 = if j < i { j } else { j + 1 };
                                    assert(s2[j] == s[j1]);
                                    assert(j1 != i);
                                    assert(s[i as int].model_id@ == k);
                                }
                                if m.dom().contains(x) {
                                    let j = choose|j: int| 0 <= j < s.len() && #[trigger] s[j].model_id@ == x;
                                    assert(j != i);
                                    let j2 = if j < i { j } else { j - 1 };
                                    assert(s2[j2] == s[j]);
                                }
                            }
                            assert forall|x: Seq<char>| #[trigger] counts_of(s2).dom().contains(x) implies counts_of(s2)[x] == m[x] by {
                                let j = choose|j: int| 0 <= j < s2.len() && #[trigger] s2[j].model_id@ == x;
                                let j1 = if j < i { j } else { j + 1 };
                                assert(s2[j] == s[j1]);
                                assert(counts_of(s2)[s2[j].model_id@] == (s2[j].downloaded, s2[j].total));
                                assert(counts_of(s)[s[j1].model_id@] == (s[j1].downloaded, s[j1].total));
                            }
                            assert(counts_of(s2) =~= m);
                        }
                    },
                    None => {
                        proof {
                            assert(!counts_of(s).dom().contains(k));
                            assert(counts_of(s).remove(k) =~= counts_of(s));
                        }
                    },
                }
            },
        }
        self.entries = entries;
    }
}

/// A download that was claimed and then finished or failed leaves the
/// registry as it was before the claim.
pub proof fn lemma_release_undoes_claim(
    before: Map<Seq<char>, (u64, u64)>,
    id: Seq<char>,
    total: u64,
)
    requires
        !before.dom().contains(id),
    ensures
        before.insert(id, (0u64, total)).remove(id) == before,
{
    assert(before.insert(id, (0u64, total)).remove(id) =~= before);
}

/// A catalog entry keeps its own prompt style whatever the override says.
pub proof fn lemma_override_spares_catalog_entries(b: CatalogModel, style: PromptStyle)
    requires
        !LOCAL_PREFIX@.is_prefix_of(b.id@),
    ensures
        (CatalogModel {
            prompt_style: if LOCAL_PREFIX@.is_prefix_of(b.id@) {
                style
            } else {
                b.prompt_style
            },
            ..b
        }).prompt_style == b.prompt_style,
{
}

} // verus!
