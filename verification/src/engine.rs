//! The decisions the inference engine makes around a GGUF model: how many
//! threads and how large a context window to use, how the prompt is laid out
//! when a model ships no chat template, and how a reasoning block is removed
//! from a completion. Running the model itself happens outside the library.
use vstd::prelude::*;
use crate::text::{
    chars_of, contains, find_from, first_index, lemma_first_index, lemma_occurs_skip, matches_at,
    occurs_at, skip_ws, skip_ws_from, trim, trim_bounds,
};

verus! {

/// Context window used when the caller does not ask for one.
pub const DEFAULT_CTX: u32 = 2048;

/// Smallest context window a model is ever given.
pub const MIN_CTX: u32 = 256;

/// Upper bound on inference threads.
pub const MAX_THREADS: i32 = 4;

/// Whether this build has a GPU backend compiled in. This crate is built for
/// the CPU only.
pub const HAS_GPU_BACKEND: bool = false;

/// Layers offloaded when the caller asks for all of them; llama.cpp clamps it
/// to the model's layer count.
pub const ALL_LAYERS: u32 = 1000;

/// The opening tag of a reasoning block.
pub const THINK_OPEN: &'static str = "<think>";

/// The closing tag of a reasoning block.
pub const THINK_CLOSE: &'static str = "</think>";

/// Suffix that asks a reasoning model to answer directly.
pub const NO_THINK: &'static str = "\n/no_think";

/// Layers to offload when the caller expresses no preference: all of them on a
/// GPU build, none on a CPU build.
pub fn default_gpu_layers() -> (n: u32)
    ensures
        n == if HAS_GPU_BACKEND {
            ALL_LAYERS
        } else {
            0
        },
{
    if HAS_GPU_BACKEND {
        ALL_LAYERS
    } else {
        0
    }
}

/// `x` clamped into `[lo, hi]`.
pub open spec fn clamp(x: int, lo: int, hi: int) -> int {
    if x < lo {
        lo
    } else if x > hi {
        hi
    } else {
        x
    }
}

/// Thread count for a load: the requested count, or `fallback` when none was
/// requested, clamped to `1..=MAX_THREADS`.
pub fn effective_threads(requested: Option<i32>, fallback: i32) -> (n: i32)
    ensures
        n == clamp(
            match requested {
                Some(t) => t as int,
                None => fallback as int,
            },
            1,
            MAX_THREADS as int,
        ),
        1 <= n <= MAX_THREADS,
{
    let t = match requested {
        Some(t) => t,
        None => fallback,
    };
    if t < 1 {
        1
    } else if t > MAX_THREADS {
        MAX_THREADS
    } else {
        t
    }
}

/// Thread count that leaves one core free for the UI, and never less than one.
///
/// A core count whose share would not fit an `i32` falls back to one thread.
pub fn threads_for_cores(cores: usize) -> (n: i32)
    ensures
        n == if cores <= 1 {
            1
        } else if cores - 1 <= i32::MAX {
            cores - 1
        } else {
            1
        },
        n >= 1,
{
    let spare = if cores <= 1 {
        1
    } else {
        cores - 1
    };
    if spare <= 0x7fff_ffff {
        spare as i32
    } else {
        1
    }
}

/// Context window for a load: the requested size, or `DEFAULT_CTX`, and never
/// below `MIN_CTX`.
pub fn context_tokens(ctx: Option<u32>) -> (n: u32)
    ensures
        n == if match ctx {
            Some(c) => c,
            None => DEFAULT_CTX,
        } < MIN_CTX {
            MIN_CTX
        } else {
            match ctx {
                Some(c) => c,
                None => DEFAULT_CTX,
            }
        },
        n >= MIN_CTX,
{
    let c = match ctx {
        Some(c) => c,
        None => DEFAULT_CTX,
    };
    if c < MIN_CTX {
        MIN_CTX
    } else {
        c
    }
}

/// Context window for one generation: the loaded window, grown when the
/// prompt plus the answer budget plus a small margin would not fit in it.
pub fn generation_window(configured: u32, prompt_tokens: usize, max_tokens: usize) -> (n: u32)
    ensures
        n == if configured >= prompt_tokens + max_tokens + 8 {
            configured as int
        } else if prompt_tokens + max_tokens + 8 > u32::MAX {
            u32::MAX as int
        } else {
            prompt_tokens + max_tokens + 8
        },
        n >= configured,
{
    let needed = prompt_tokens.saturating_add(max_tokens).saturating_add(8);
    let needed32: u32 = if needed > 0xffff_ffff {
        0xffff_ffff
    } else {
        needed as u32
    };
    if configured >= needed32 {
        configured
    } else {
        needed32
    }
}


/// How a model load is carried out.
#[derive(Debug, Clone, Copy, PartialEq, Eq, Structural)]
pub struct LoadPlan {
    /// Layers to offload on the first attempt.
    pub gpu_layers: u32,
    /// Whether a failed first attempt is retried on the CPU. A GPU attempt
    /// that fails falls back rather than erroring, because a missing driver
    /// must not cost the user the feature.
    pub retry_on_cpu: bool,
    /// Whether to run a throwaway generation after loading, so the first
    /// real request does not pay for GPU pipeline setup.
    pub warm_up: bool,
    /// Inference threads.
    pub threads: i32,
    /// Context window in tokens.
    pub ctx: u32,
}

/// The plan for loading a model with the caller's tuning: `gpu_layers`
/// defaults to [`default_gpu_layers`], and `fallback_threads` is used when no
/// thread count is given.
pub fn load_plan(
    threads: Option<i32>,
    ctx: Option<u32>,
    gpu_layers: Option<u32>,
    fallback_threads: i32,
) -> (p: LoadPlan)
    ensures
        p.gpu_layers == match gpu_layers {
            Some(n) => n,
            None => if HAS_GPU_BACKEND {
                ALL_LAYERS
            } else {
                0
            },
        },
        p.retry_on_cpu == (p.gpu_layers > 0),
        p.warm_up == (p.gpu_layers > 0),
        p.threads == clamp(
            match threads {
                Some(t) => t as int,
                None => fallback_threads as int,
            },
            1,
            MAX_THREADS as int,
        ),
        p.ctx == if match ctx {
            Some(c) => c,
            None => DEFAULT_CTX,
        } < MIN_CTX {
            MIN_CTX
        } else {
            match ctx {
                Some(c) => c,
                None => DEFAULT_CTX,
            }
        },
{
    let layers = match gpu_layers {
        Some(n) => n,
        None => default_gpu_layers(),
    };
    LoadPlan {
        gpu_layers: layers,
        retry_on_cpu: layers > 0,
        warm_up: layers > 0,
        threads: effective_threads(threads, fallback_threads),
        ctx: context_tokens(ctx),
    }
}

/// Where the token loop of one generation stands: the position the next
/// token is fed at, how many tokens were kept, and how many may be.
///
/// The loop samples a token while [`Decoding::wants_token`] holds, and hands
/// [`Decoding::take`] whether that token ends generation.
#[derive(Debug, Clone, Copy)]
pub struct Decoding {
    /// Position the next kept token is fed at.
    pub next_pos: i32,
    /// Tokens kept so far.
    pub produced: usize,
    /// Most tokens that may be kept.
    pub budget: usize,
}

impl Decoding {
    /// The positions stay within `i32` for the whole budget.
    pub open spec fn wf(self) -> bool {
        &&& self.produced <= self.budget
        &&& self.next_pos as int + (self.budget - self.produced) <= i32::MAX
    }

    /// A loop that starts after a prompt of `prompt_tokens` tokens and may
    /// keep up to `budget` tokens.
    pub fn start(prompt_tokens: i32, budget: usize) -> (d: Self)
        requires
            prompt_tokens + budget <= i32::MAX,
        ensures
            d.wf(),
            d.next_pos == prompt_tokens,
            d.produced == 0,
            d.budget == budget,
    {
        Decoding { next_pos: prompt_tokens, produced: 0, budget }
    }

    /// Whether another token may be sampled.
    pub fn wants_token(&self) -> (b: bool)
        ensures
            b == (self.produced < self.budget),
    {
        self.produced < self.budget
    }

    /// Account for a sampled token. A token that ends generation stops the
    /// loop (`None`) and is not kept; any other is kept and is to be fed back
    /// at the returned position.
    pub fn take(&mut self, ends_generation: bool) -> (fed_at: Option<i32>)
        requires
            old(self).wf(),
            old(self).produced < old(self).budget,
        ensures
            final(self).wf(),
            final(self).budget == old(self).budget,
            ends_generation ==> fed_at is None && *final(self) == *old(self),
            !ends_generation ==> fed_at == Some(old(self).next_pos) && final(self).next_pos
                == old(self).next_pos + 1 && final(self).produced == old(self).produced + 1,
    {
        if ends_generation {
            None
        } else {
            let at = self.next_pos;
            self.next_pos = self.next_pos + 1;
            self.produced = self.produced + 1;
            Some(at)
        }
    }
}

/// The user turn sent to the model: the transcript, with the soft switch that
/// suppresses deliberation appended when `no_think` is set.
pub fn user_turn(user: &str, no_think: bool) -> (s: String)
    ensures
        s@ == if no_think {
            user@ + NO_THINK@
        } else {
            user@
        },
{
    let mut s = String::new();
    s.append(user);
    if no_think {
        s.append(NO_THINK);
    }
    s
}

/// The prompt layout used for a model that carries no chat template.
pub open spec fn plain_layout(system: Seq<char>, user: Seq<char>) -> Seq<char> {
    system + "\n\nTranscript:\n"@ + user + "\n\nEdited:\n"@
}

/// Lay out a prompt for a model that carries no chat template.
pub fn plain_prompt(system: &str, user: &str) -> (s: String)
    ensures
        s@ == plain_layout(system@, user@),
{
    let mut s = String::new();
    s.append(system);
    s.append("\n\nTranscript:\n");
    s.append(user);
    s.append("\n\nEdited:\n");
    s
}

/// A completion with its leading reasoning block removed.
///
/// Only a block at the very start (after whitespace) counts. A closed block
/// is removed along with what precedes its first closing tag; an unclosed one
/// means generation was cut off and nothing is left. Whatever remains is
/// trimmed.
pub open spec fn without_reasoning(text: Seq<char>) -> Seq<char> {
    let t = skip_ws(text);
    if THINK_OPEN@.is_prefix_of(t) {
        let rest = t.skip(THINK_OPEN@.len() as int);
        if contains(rest, THINK_CLOSE@) {
            trim(rest.skip(first_index(rest, THINK_CLOSE@) + THINK_CLOSE@.len()))
        } else {
            Seq::<char>::empty()
        }
    } else {
        trim(text)
    }
}

/// Remove a leading reasoning block from a completion.
///
/// Even with the soft switch applied, reasoning models emit an empty
/// `<think></think>` pair before the answer. A tag mid-text is left alone.
pub fn strip_thinking(text: &str) -> (r: &str)
    ensures
        r@ == without_reasoning(text@),
{
    let v = chars_of(text);
    let n = v.len();
    let a = skip_ws_from(v.as_slice(), 0, n);
    let open = chars_of(THINK_OPEN);
    proof {
        assert(v@.subrange(0, n as int) =~= v@);
        let t = v@.subrange(a as int, n as int);
        if open@.len() <= t.len() {
            assert(t.subrange(0, open@.len() as int) =~= v@.subrange(
                a as int,
                a + open@.len(),
            ));
        }
    }
    if !matches_at(v.as_slice(), open.as_slice(), a) {
        let (x, y) = trim_bounds(v.as_slice(), 0, n);
        return text.substring_char(x, y);
    }
    let rs = a + open.len();
    let close = chars_of(THINK_CLOSE);
    let ghost rest = v@.subrange(a as int, n as int).skip(open@.len() as int);
    proof {
        assert(rest =~= v@.skip(rs as int));
    }
    match find_from(v.as_slice(), close.as_slice(), rs) {
        Some(e) => {
            proof {
                lemma_occurs_skip(v@, close@, rs as int, e - rs);
                assert forall|j: int| 0 <= j < e - rs implies !occurs_at(rest, close@, j) by {
                    lemma_occurs_skip(v@, close@, rs as int, j);
                }
                lemma_first_index(rest, close@, e - rs);
                assert(rest.skip(e - rs + close@.len()) =~= v@.subrange(
                    e + close@.len(),
                    n as int,
                ));
            }
            let (x, y) = trim_bounds(v.as_slice(), e + close.len(), n);
            text.substring_char(x, y)
        },
        None => {
            proof {
                assert forall|j: int| !occurs_at(rest, close@, j) by {
                    lemma_occurs_skip(v@, close@, rs as int, j);
                }
            }
            text.substring_char(n, n)
        },
    }
}

} // verus!
