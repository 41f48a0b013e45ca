//! The decisions behind the settings commands: what becomes of the resident
//! model when a setting changes, when a preview or a deletion is refused, and
//! which entry a model picked off disk is listed as. The host persists the
//! settings, talks to the engine and reports to the UI.
use vstd::prelude::*;
use crate::catalog::{owned, CatalogModel, ModelRole, PromptStyle};

verus! {

/// An enhancement setting the user changed.
#[derive(Debug, Clone, Copy, PartialEq, Eq, Structural)]
pub enum SettingChange {
    /// The layer was turned on or off.
    Enabled,
    /// A different editing model was chosen.
    EditorModel,
    /// The prompt-style override changed.
    PromptStyle,
    /// GPU offload was turned on or off.
    UseGpu,
    /// Whether the model stays resident between dictations changed.
    KeepLoaded,
    /// A different verifying model was chosen.
    VerifierModel,
    /// The set of enabled behaviours changed.
    Options,
}

/// What to do with the resident model once a setting has changed.
#[derive(Debug, Clone, Copy, PartialEq, Eq, Structural)]
pub enum ModelAction {
    /// Leave whatever is resident alone.
    Leave,
    /// Release the resident model.
    Unload,
    /// Make the chosen editing model resident.
    Load,
    /// Release the resident model, then load the chosen one afresh, because
    /// the change only takes effect at load time.
    Reload,
}

/// The action a change calls for, given the settings after it: whether the
/// layer is on, whether the model stays resident, and whether the chosen
/// editing model resolved to an entry whose file is on disk.
pub open spec fn action_for(change: SettingChange, enabled: bool, keep_loaded: bool, ready: bool) -> ModelAction {
    let wanted = enabled && keep_loaded && ready;
    match change {
        SettingChange::Enabled => if !enabled {
            ModelAction::Unload
        } else if wanted {
            ModelAction::Load
        } else {
            ModelAction::Leave
        },
        SettingChange::EditorModel => if wanted {
            ModelAction::Load
        } else {
            ModelAction::Unload
        },
        SettingChange::PromptStyle => if wanted {
            ModelAction::Reload
        } else {
            ModelAction::Unload
        },
        SettingChange::UseGpu => if wanted {
            ModelAction::Reload
        } else {
            ModelAction::Unload
        },
        SettingChange::KeepLoaded => if !keep_loaded {
            ModelAction::Unload
        } else {
            ModelAction::Leave
        },
        SettingChange::VerifierModel => ModelAction::Leave,
        SettingChange::Options => ModelAction::Leave,
    }
}

/// Decide what becomes of the resident model after `change`.
pub fn after_change(change: SettingChange, enabled: bool, keep_loaded: bool, ready: bool) -> (a:
    ModelAction)
    ensures
        a == action_for(change, enabled, keep_loaded, ready),
{
    let wanted = enabled && keep_loaded && ready;
    match change {
        SettingChange::Enabled => {
            if !enabled {
                ModelAction::Unload
            } else if wanted {
                ModelAction::Load
            } else {
                ModelAction::Leave
            }
        },
        SettingChange::EditorModel => {
            if wanted {
                ModelAction::Load
            } else {
                ModelAction::Unload
            }
        },
        SettingChange::PromptStyle | SettingChange::UseGpu => {
            if wanted {
                ModelAction::Reload
            } else {
                ModelAction::Unload
            }
        },
        SettingChange::KeepLoaded => {
            if !keep_loaded {
                ModelAction::Unload
            } else {
                ModelAction::Leave
            }
        },
        SettingChange::VerifierModel | SettingChange::Options => ModelAction::Leave,
    }
}

/// A model is only ever made resident when the layer is on, set to stay
/// loaded, and the chosen model is on disk.
pub proof fn lemma_loads_only_what_is_wanted(
    change: SettingChange,
    enabled: bool,
    keep_loaded: bool,
    ready: bool,
)
    ensures
        (action_for(change, enabled, keep_loaded, ready) == ModelAction::Load || action_for(
            change,
            enabled,
            keep_loaded,
            ready,
        ) == ModelAction::Reload) ==> enabled && keep_loaded && ready,
{
}

/// Turning the layer off, or no longer keeping the model loaded, always
/// releases the resident model.
pub proof fn lemma_switching_off_releases_the_model(enabled: bool, keep_loaded: bool, ready: bool)
    ensures
        action_for(SettingChange::Enabled, false, keep_loaded, ready) == ModelAction::Unload,
        action_for(SettingChange::KeepLoaded, enabled, false, ready) == ModelAction::Unload,
{
}

/// Choosing another editing model never leaves the previous one resident:
/// the new choice is loaded, or the old one is released.
pub proof fn lemma_new_editor_replaces_the_resident_one(enabled: bool, keep_loaded: bool, ready: bool)
    ensures
        action_for(SettingChange::EditorModel, enabled, keep_loaded, ready) != ModelAction::Leave,
{
}

/// Reported when no editing model resolves at all.
pub const NO_MODEL: &'static str = "No enhancement model available";

/// Follows the model's name when its file is not on disk yet.
pub const NOT_DOWNLOADED_YET: &'static str = " has not been downloaded yet";

/// Follows the model's name when it cannot be deleted mid-download.
pub const STILL_DOWNLOADING: &'static str = " is still downloading";

/// `prefix` followed by `suffix`, as a fresh string.
fn joined(prefix: &str, suffix: &str) -> (s: String)
    ensures
        s@ == prefix@ + suffix@,
{
    let mut s = String::new();
    s.append(prefix);
    s.append(suffix);
    s
}

/// Whether a preview can run with the resolved editing model `model`, whose
/// file is `downloaded` or not. Refused, with the message the UI shows, when
/// no model resolved or its file is not on disk yet; the UI can then point
/// at the download button instead of showing a raw load error.
pub fn preview_check(model: &Option<CatalogModel>, downloaded: bool) -> (r: Result<(), String>)
    ensures
        match model {
            None => r matches Err(e) && e@ == NO_MODEL@,
            Some(m) => if downloaded {
                r is Ok
            } else {
                r matches Err(e) && e@ == m.name@ + NOT_DOWNLOADED_YET@
            },
        },
{
    match model {
        None => Err(owned(NO_MODEL)),
        Some(m) => {
            if downloaded {
                Ok(())
            } else {
                Err(joined(m.name.as_str(), NOT_DOWNLOADED_YET))
            }
        },
    }
}

/// Whether `model` may be deleted: not while its download is running, since
/// the transfer would go on writing to a path nobody expects to exist.
pub fn delete_check(model: &CatalogModel, downloading: bool) -> (r: Result<(), String>)
    ensures
        downloading ==> (r matches Err(e) && e@ == model.name@ + STILL_DOWNLOADING@),
        !downloading ==> r is Ok,
{
    if downloading {
        Err(joined(model.name.as_str(), STILL_DOWNLOADING))
    } else {
        Ok(())
    }
}

/// Whether a listing for `role` (all roles when `None`) shows editors.
pub open spec fn lists_editors(role: Option<ModelRole>) -> bool {
    match role {
        None => true,
        Some(r) => r == ModelRole::Editor,
    }
}

/// The extra card a listing shows for a model picked off disk: the entry read
/// from the chosen file, prompted with the user's override when there is one,
/// and shown only where editors are listed. Without it the selector would show
/// no card as active while the layer ran the user's own weights.
pub fn local_listing(
    role: Option<ModelRole>,
    local: Option<CatalogModel>,
    override_style: Option<PromptStyle>,
) -> (r: Option<CatalogModel>)
    ensures
        match local {
            Some(l) => if lists_editors(role) {
                r == Some(
                    CatalogModel {
                        prompt_style: match override_style {
                            Some(s) => s,
                            None => l.prompt_style,
                        },
                        ..l
                    },
                )
            } else {
                r is None
            },
            None => r is None,
        },
{
    let shows = match role {
        None => true,
        Some(r) => r == ModelRole::Editor,
    };
    if !shows {
        return None;
    }
    match local {
        Some(mut l) => {
            match override_style {
                Some(s) => {
                    l.prompt_style = s;
                },
                None => {},
            }
            Some(l)
        },
        None => None,
    }
}

} // verus!
