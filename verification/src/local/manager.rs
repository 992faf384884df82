//! Which models are resident.

use crate::config::LocalEngineConfig;
use crate::error::LocalEngineError;
use crate::json::opt_string;
use crate::local::backend::SelectedBackend;
use crate::text::{join3, owned, trim, trimmed};
use vstd::prelude::*;

verus! {

/// The role that a resident model fills.
#[derive(Debug, Clone, Copy, PartialEq, Eq, Structural)]
pub enum SlotKind {
    Summarizer,
    Embedder,
}

impl SlotKind {
    /// The name of a slot.
    pub open spec fn name(self) -> Seq<char> {
        match self {
            SlotKind::Summarizer => "summarizer"@,
            SlotKind::Embedder => "embedder"@,
        }
    }

    /// The name of a slot.
    pub fn as_str(self) -> (r: &'static str)
        ensures
            r@ == self.name(),
    {
        match self {
            SlotKind::Summarizer => "summarizer",
            SlotKind::Embedder => "embedder",
        }
    }

    /// The file that a slot loads.
    pub open spec fn path_in(self, cfg: LocalEngineConfig) -> Seq<char> {
        match self {
            SlotKind::Summarizer => cfg.model_path@,
            SlotKind::Embedder => cfg.embed_model_path@,
        }
    }

    /// The file that a slot loads.
    pub fn model_path(self, cfg: &LocalEngineConfig) -> (r: &str)
        ensures
            r@ == self.path_in(*cfg),
    {
        match self {
            SlotKind::Summarizer => cfg.model_path.as_str(),
            SlotKind::Embedder => cfg.embed_model_path.as_str(),
        }
    }
}

/// A resident model: where it came from and how it runs.
#[derive(Debug, Clone, PartialEq)]
pub struct Resident {
    /// The number under which the engine holds the model.
    pub handle: u64,
    pub path: String,
    pub n_embd: i32,
    pub backend: SelectedBackend,
    pub n_gpu_layers: i32,
    pub n_ctx: u32,
}

/// The state of a slot.
#[derive(Debug, PartialEq)]
pub struct SlotStatus {
    pub kind: String,
    pub loaded: bool,
    pub model_path: Option<String>,
    pub n_embd: Option<i32>,
    pub backend: Option<SelectedBackend>,
    pub n_gpu_layers: Option<i32>,
    pub n_ctx: Option<u32>,
    /// Why the slot is empty, where a load failed; nothing while a model is there.
    pub error: Option<String>,
}

/// What a caller that wants a model does next.
#[derive(Debug, PartialEq)]
pub enum Residence {
    /// The model is there, under this number.
    Ready(u64),
    /// The model is to be loaded from this file.
    Load(String),
}

/// The resident models.
pub struct SlotManager {
    summarizer: Option<Resident>,
    embedder: Option<Resident>,
    summarizer_error: Option<String>,
    embedder_error: Option<String>,
}

/// What a slot that is not configured says.
pub open spec fn not_configured(kind: SlotKind) -> Seq<char> {
    "no model configured for the "@ + kind.name() + " slot"@
}

/// The slots that are emptied where memory runs short: one at a time, the embedder first.
pub open spec fn relieved(embedder: Option<Resident>, summarizer: Option<Resident>) -> Seq<SlotKind> {
    if embedder is Some {
        seq![SlotKind::Embedder]
    } else if summarizer is Some {
        seq![SlotKind::Summarizer]
    } else {
        Seq::empty()
    }
}

/// What a caller gets that wants the model of a slot which holds `held` and is configured with
/// the file `path`.
pub open spec fn is_residence(
    r: Result<Residence, LocalEngineError>,
    held: Option<Resident>,
    kind: SlotKind,
    path: Seq<char>,
) -> bool {
    match held {
        Some(m) => r matches Ok(next) && next == Residence::Ready(m.handle),
        None => if trimmed(path).len() == 0 {
            r matches Err(e) && (e matches LocalEngineError::NotConfigured(m) && m@ == not_configured(
                kind,
            ))
        } else {
            r matches Ok(next) && (next matches Residence::Load(p) && p@ == path)
        },
    }
}

/// The model that a slot holds once another was loaded for it.
pub open spec fn first_loaded(held: Option<Resident>, model: Resident) -> Resident {
    match held {
        Some(m) => m,
        None => model,
    }
}

impl SlotManager {
    /// The resident model of a slot.
    pub closed spec fn held(&self, kind: SlotKind) -> Option<Resident> {
        match kind {
            SlotKind::Summarizer => self.summarizer,
            SlotKind::Embedder => self.embedder,
        }
    }

    /// Why the last load of a slot failed.
    pub closed spec fn failure(&self, kind: SlotKind) -> Option<Seq<char>> {
        match kind {
            SlotKind::Summarizer => opt_string(self.summarizer_error),
            SlotKind::Embedder => opt_string(self.embedder_error),
        }
    }

    /// The slots but one hold what they held before.
    pub open spec fn same_but(&self, before: &SlotManager, kind: SlotKind) -> bool {
        forall|k: SlotKind| k != kind ==> #[trigger] self.held(k) == before.held(k)
    }

    /// No model resident, no failure known.
    pub fn new() -> (r: SlotManager)
        ensures
            forall|k: SlotKind| #[trigger] r.held(k) is None,
            forall|k: SlotKind| #[trigger] r.failure(k) is None,
    {
        SlotManager {
            summarizer: None,
            embedder: None,
            summarizer_error: None,
            embedder_error: None,
        }
    }

    /// The resident model of a slot. Nothing is loaded.
    pub fn get(&self, kind: SlotKind) -> (r: Option<&Resident>)
        ensures
            (match r {
                Some(m) => Some(*m),
                None => None,
            }) == self.held(kind),
    {
        match kind {
            SlotKind::Summarizer => self.summarizer.as_ref(),
            SlotKind::Embedder => self.embedder.as_ref(),
        }
    }

    fn set_error(&mut self, kind: SlotKind, error: Option<String>)
        ensures
            final(self).failure(kind) == opt_string(error),
            forall|k: SlotKind| k != kind ==> #[trigger] final(self).failure(k) == old(
                self,
            ).failure(k),
            forall|k: SlotKind| #[trigger] final(self).held(k) == old(self).held(k),
    {
        match kind {
            SlotKind::Summarizer => {
                self.summarizer_error = error;
            },
            SlotKind::Embedder => {
                self.embedder_error = error;
            },
        }
    }

    /// Notes why a load failed.
    pub fn record_error(&mut self, kind: SlotKind, msg: &str)
        ensures
            final(self).failure(kind) == Some(msg@),
            forall|k: SlotKind| k != kind ==> #[trigger] final(self).failure(k) == old(
                self,
            ).failure(k),
            forall|k: SlotKind| #[trigger] final(self).held(k) == old(self).held(k),
    {
        self.set_error(kind, Some(owned(msg)));
    }

    /// The model of a slot, or the file to load it from. A slot that is not configured is an
    /// error of its own kind, and is noted.
    pub fn get_or_load(&mut self, kind: SlotKind, cfg: &LocalEngineConfig) -> (r: Result<
        Residence,
        LocalEngineError,
    >)
        ensures
            forall|k: SlotKind| #[trigger] final(self).held(k) == old(self).held(k),
            is_residence(r, old(self).held(kind), kind, kind.path_in(*cfg)),
            forall|k: SlotKind| #[trigger]
                final(self).failure(k) == if k == kind && r is Err {
                    Some(not_configured(kind))
                } else {
                    old(self).failure(k)
                },
    {
        match self.get(kind) {
            Some(m) => {
                return Ok(Residence::Ready(m.handle));
            },
            None => {},
        }
        let path = kind.model_path(cfg);
        let t = trim(path);
        if t.as_str().is_empty() {
            let msg = join3("no model configured for the ", kind.as_str(), " slot");
            self.record_error(kind, msg.as_str());
            return Err(LocalEngineError::NotConfigured(msg));
        }
        Ok(Residence::Load(owned(path)))
    }

    /// A load succeeded. Where another caller was faster, its model stays and the new one is
    /// dropped. The number of the model that is resident.
    pub fn loaded(&mut self, kind: SlotKind, model: Resident) -> (r: u64)
        ensures
            final(self).held(kind) == Some(first_loaded(old(self).held(kind), model)),
            r == final(self).held(kind)->0.handle,
            final(self).same_but(old(self), kind),
            final(self).failure(kind) is None,
            forall|k: SlotKind| k != kind ==> #[trigger] final(self).failure(k) == old(
                self,
            ).failure(k),
    {
        self.set_error(kind, None);
        let ghost mid = *self;
        proof {
            assert forall|k: SlotKind| mid.held(k) == old(self).held(k) by {}
            assert forall|k: SlotKind| k != kind implies mid.failure(k) == old(self).failure(k) by {}
        }
        let there: Option<u64> = match self.get(kind) {
            Some(m) => Some(m.handle),
            None => None,
        };
        match there {
            Some(h) => h,
            None => {
                let h: u64 = model.handle;
                match kind {
                    SlotKind::Summarizer => {
                        self.summarizer = Some(model);
                    },
                    SlotKind::Embedder => {
                        self.embedder = Some(model);
                    },
                }
                proof {
                    assert forall|k: SlotKind| k != kind implies #[trigger] self.held(k) == old(
                        self,
                    ).held(k) by {
                        assert(mid.held(k) == old(self).held(k));
                    }
                    assert forall|k: SlotKind| k != kind implies #[trigger] self.failure(k) == old(
                        self,
                    ).failure(k) by {
                        assert(mid.failure(k) == old(self).failure(k));
                    }
                    assert(mid.failure(kind) is None);
                }
                h
            },
        }
    }

    /// Drops a slot's model. Whether there was one.
    pub fn unload(&mut self, kind: SlotKind) -> (r: bool)
        ensures
            r == (old(self).held(kind) is Some),
            final(self).held(kind) is None,
            final(self).same_but(old(self), kind),
            forall|k: SlotKind| #[trigger] final(self).failure(k) == old(self).failure(k),
    {
        match kind {
            SlotKind::Summarizer => {
                let had = self.summarizer.is_some();
                self.summarizer = None;
                had
            },
            SlotKind::Embedder => {
                let had = self.embedder.is_some();
                self.embedder = None;
                had
            },
        }
    }

    /// Frees memory: one model goes, the embedder before the summarizer, without which
    /// nothing can be compacted.
    pub fn evict_under_pressure(&mut self) -> (r: Vec<SlotKind>)
        ensures
            r@ == relieved(
                old(self).held(SlotKind::Embedder),
                old(self).held(SlotKind::Summarizer),
            ),
            forall|k: SlotKind| #[trigger]
                final(self).held(k) == if r@.contains(k) {
                    None
                } else {
                    old(self).held(k)
                },
            forall|k: SlotKind| #[trigger] final(self).failure(k) == old(self).failure(k),
    {
        let mut evicted: Vec<SlotKind> = Vec::new();
        if self.unload(SlotKind::Embedder) {
            evicted.push(SlotKind::Embedder);
            proof {
                assert(evicted@[0] == SlotKind::Embedder);
            }
        } else if self.unload(SlotKind::Summarizer) {
            evicted.push(SlotKind::Summarizer);
            proof {
                assert(evicted@[0] == SlotKind::Summarizer);
            }
        }
        evicted
    }

    /// The status is that of a slot.
    pub open spec fn is_status(&self, s: SlotStatus, kind: SlotKind, cfg: LocalEngineConfig) -> bool {
        &&& s.kind@ == kind.name()
        &&& s.loaded == (self.held(kind) is Some)
        &&& opt_string(s.error) == (if self.held(kind) is Some {
            None
        } else {
            self.failure(kind)
        })
        &&& match self.held(kind) {
            Some(m) => opt_string(s.model_path) == Some(m.path@) && s.n_embd == Some(m.n_embd) && (
            s.backend matches Some(b) && b@ == m.backend@) && s.n_gpu_layers == Some(m.n_gpu_layers)
                && s.n_ctx == Some(m.n_ctx),
            None => opt_string(s.model_path) == (if kind.path_in(cfg).len() > 0 {
                Some(kind.path_in(cfg))
            } else {
                None
            }) && s.n_embd is None && s.backend is None && s.n_gpu_layers is None
                && s.n_ctx is None,
        }
    }

    fn status_of(&self, kind: SlotKind, cfg: &LocalEngineConfig) -> (r: SlotStatus)
        ensures
            self.is_status(r, kind, *cfg),
    {
        let error = match kind {
            SlotKind::Summarizer => self.summarizer_error.clone(),
            SlotKind::Embedder => self.embedder_error.clone(),
        };
        match self.get(kind) {
            Some(m) => SlotStatus {
                kind: owned(kind.as_str()),
                loaded: true,
                model_path: Some(m.path.clone()),
                n_embd: Some(m.n_embd),
                backend: Some(m.backend.copy()),
                n_gpu_layers: Some(m.n_gpu_layers),
                n_ctx: Some(m.n_ctx),
                error: None,
            },
            None => {
                let configured = kind.model_path(cfg);
                SlotStatus {
                    kind: owned(kind.as_str()),
                    loaded: false,
                    model_path: if configured.is_empty() {
                        None
                    } else {
                        Some(owned(configured))
                    },
                    n_embd: None,
                    backend: None,
                    n_gpu_layers: None,
                    n_ctx: None,
                    error,
                }
            },
        }
    }

    /// The state of both slots, the summarizer first. The file is told for an empty slot
    /// too.
    pub fn status(&self, cfg: &LocalEngineConfig) -> (r: Vec<SlotStatus>)
        ensures
            r@.len() == 2,
            self.is_status(r@[0], SlotKind::Summarizer, *cfg),
            self.is_status(r@[1], SlotKind::Embedder, *cfg),
    {
        let mut out: Vec<SlotStatus> = Vec::new();
        out.push(self.status_of(SlotKind::Summarizer, cfg));
        out.push(self.status_of(SlotKind::Embedder, cfg));
        out
    }
}

/// A slot that holds a model reports no failure, whoever else failed to load one.
pub proof fn a_loaded_slot_has_no_error(
    m: SlotManager,
    s: SlotStatus,
    kind: SlotKind,
    cfg: LocalEngineConfig,
)
    requires
        m.is_status(s, kind, cfg),
        s.loaded,
    ensures
        s.error is None,
{
}

/// Each slot loads its own file and is told under its own name; one that is not configured
/// says so.
pub proof fn slots_have_their_files(cfg: LocalEngineConfig)
    ensures
        SlotKind::Summarizer.path_in(cfg) == cfg.model_path@,
        SlotKind::Embedder.path_in(cfg) == cfg.embed_model_path@,
        SlotKind::Summarizer.name() == "summarizer"@,
        SlotKind::Embedder.name() == "embedder"@,
        not_configured(SlotKind::Summarizer) == "no model configured for the "@ + "summarizer"@
            + " slot"@,
        not_configured(SlotKind::Embedder) == "no model configured for the "@ + "embedder"@
            + " slot"@,
{
}

/// The status of a slot tells its model as it was loaded, or the file that would be loaded and
/// why it was not.
pub proof fn slots_tell_what_they_hold(
    m: SlotManager,
    s: SlotStatus,
    kind: SlotKind,
    cfg: LocalEngineConfig,
)
    requires
        m.is_status(s, kind, cfg),
    ensures
        s.kind@ == kind.name(),
        s.loaded <==> m.held(kind) is Some,
        m.held(kind) matches Some(r) ==> {
            &&& s.model_path matches Some(p) && p@ == r.path@
            &&& s.n_embd == Some(r.n_embd)
            &&& s.backend matches Some(b) && b@ == r.backend@
            &&& s.n_gpu_layers == Some(r.n_gpu_layers)
            &&& s.n_ctx == Some(r.n_ctx)
        },
        m.held(kind) is None ==> {
            &&& opt_string(s.error) == m.failure(kind)
            &&& kind.path_in(cfg).len() > 0 ==> opt_string(s.model_path) == Some(kind.path_in(cfg))
            &&& kind.path_in(cfg).len() == 0 ==> s.model_path is None
            &&& s.n_embd is None && s.backend is None && s.n_gpu_layers is None && s.n_ctx is None
        },
{
}

/// Where memory runs short one model goes: the embedder if it is there, else the summarizer if
/// it is there, and nothing where there is nothing to go.
pub proof fn pressure_takes_one_model(embedder: Option<Resident>, summarizer: Option<Resident>)
    ensures
        relieved(embedder, summarizer).len() <= 1,
        relieved(embedder, summarizer).contains(SlotKind::Embedder) <==> embedder is Some,
        relieved(embedder, summarizer).contains(SlotKind::Summarizer) <==> embedder is None
            && summarizer is Some,
{
    let r = relieved(embedder, summarizer);
    if r.len() > 0 {
        assert(r.contains(r[0]));
    }
}

/// A resident model is handed out under its number, and nothing is loaded; a slot without one
/// loads its file; a slot without a file is an error that names the slot.
pub proof fn models_are_loaded_once(
    r: Result<Residence, LocalEngineError>,
    held: Option<Resident>,
    kind: SlotKind,
    path: Seq<char>,
)
    requires
        is_residence(r, held, kind, path),
    ensures
        held is Some ==> r == Ok::<Residence, LocalEngineError>(Residence::Ready(held->0.handle)),
        r is Ok && r->Ok_0 is Load ==> held is None && r->Ok_0->Load_0@ == path,
        r is Err <==> held is None && trimmed(path).len() == 0,
        r is Err ==> r->Err_0 is NotConfigured && r->Err_0->NotConfigured_0@ == (match kind {
            SlotKind::Summarizer => "no model configured for the summarizer slot"@,
            SlotKind::Embedder => "no model configured for the embedder slot"@,
        }),
{
    reveal_strlit("no model configured for the ");
    reveal_strlit(" slot");
    reveal_strlit("summarizer");
    reveal_strlit("embedder");
    reveal_strlit("no model configured for the summarizer slot");
    reveal_strlit("no model configured for the embedder slot");
    assert("no model configured for the "@ + "summarizer"@ + " slot"@
        =~= "no model configured for the summarizer slot"@);
    assert("no model configured for the "@ + "embedder"@ + " slot"@
        =~= "no model configured for the embedder slot"@);
}

/// Of two models loaded for a slot at once the first stays, whatever comes after it.
pub proof fn the_first_model_stays(held: Option<Resident>, a: Resident, b: Resident)
    ensures
        first_loaded(None, a) == a,
        first_loaded(Some(a), b) == a,
        first_loaded(Some(first_loaded(held, a)), b) == first_loaded(held, a),
{
}

} // verus!
