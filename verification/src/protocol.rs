//! Messages exchanged between the host application and the inference
//! sidecar: one request or response per line, each response carrying the id
//! of the request that produced it, and failures reported as `ok: false`
//! rather than by exiting.
use vstd::prelude::*;

verus! {

/// A request from the host application.
#[derive(Debug, Clone)]
pub enum Request {
    /// Liveness check that does not touch the model.
    Ping {
        /// Correlation id echoed back in the response.
        id: u64,
    },
    /// Load a GGUF from disk, replacing any currently loaded model.
    Load {
        id: u64,
        /// Absolute path to the `.gguf` file.
        path: String,
        /// Inference threads; `None` picks something conservative.
        threads: Option<i32>,
        /// Context window in tokens; `None` means the built-in default.
        ctx: Option<u32>,
        /// Transformer layers to offload to the GPU; `None` means all of them
        /// when the build has a GPU backend, `Some(0)` forces the CPU.
        gpu_layers: Option<u32>,
    },
    /// Run one enhancement pass.
    Generate {
        id: u64,
        /// System prompt describing the editing task.
        system: String,
        /// The raw transcript to edit.
        user: String,
        /// Hard ceiling on generated tokens.
        max_tokens: Option<usize>,
        /// Suppress reasoning output on models that deliberate by default.
        no_think: Option<bool>,
    },
    /// Drop the model and release its memory, staying alive for a later load.
    Unload { id: u64 },
    /// Exit the process.
    Shutdown { id: u64 },
}

/// The correlation id a request carries.
pub open spec fn request_id(r: Request) -> u64 {
    match r {
        Request::Ping { id } => id,
        Request::Load { id, .. } => id,
        Request::Generate { id, .. } => id,
        Request::Unload { id } => id,
        Request::Shutdown { id } => id,
    }
}

impl Request {
    /// Correlation id, so the host can match a reply to its request.
    pub fn id(&self) -> (r: u64)
        ensures
            r == request_id(*self),
    {
        match self {
            Request::Ping { id } => *id,
            Request::Load { id, .. } => *id,
            Request::Generate { id, .. } => *id,
            Request::Unload { id } => *id,
            Request::Shutdown { id } => *id,
        }
    }
}

/// A response to the host application.
#[derive(Debug, Clone)]
pub struct Response {
    /// Correlation id of the originating request.
    pub id: u64,
    /// Whether the request succeeded.
    pub ok: bool,
    /// Generated text, present on a successful `generate`.
    pub text: Option<String>,
    /// Human-readable failure reason, present when `ok` is false.
    pub error: Option<String>,
    /// Milliseconds spent handling the request.
    pub elapsed_ms: Option<u64>,
}

impl Response {
    /// A bare success with no payload.
    pub fn ok(id: u64) -> (r: Self)
        ensures
            r.id == id,
            r.ok,
            r.text is None,
            r.error is None,
            r.elapsed_ms is None,
    {
        Response { id, ok: true, text: None, error: None, elapsed_ms: None }
    }

    /// A successful generation.
    pub fn generated(id: u64, text: String, elapsed_ms: u64) -> (r: Self)
        ensures
            r.id == id,
            r.ok,
            r.text == Some(text),
            r.error is None,
            r.elapsed_ms == Some(elapsed_ms),
    {
        Response { id, ok: true, text: Some(text), error: None, elapsed_ms: Some(elapsed_ms) }
    }

    /// A failure carrying the reason.
    pub fn error(id: u64, error: &str) -> (r: Self)
        ensures
            r.id == id,
            !r.ok,
            r.text is None,
            r.error matches Some(e) && e@ == error@,
            r.elapsed_ms is None,
    {
        let mut reason = String::new();
        reason.append(error);
        Response { id, ok: false, text: None, error: Some(reason), elapsed_ms: None }
    }
}

} // verus!
