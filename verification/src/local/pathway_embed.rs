//! The in-process embedder of the behavioural memory.

use crate::config::LocalEngineConfig;
use crate::json::opt_string;
use crate::local::engine::EmbedPooling;
use crate::text::{ascii_lowercase, contains_text, file_stem, join2, last_name, owned, same_everywhere, stem_of, trim, trimmed};
use vstd::prelude::*;

verus! {

/// The identity of the vectors that a model of the given name makes.
pub fn tag_of_stem(stem: Option<String>) -> (r: String)
    ensures
        r@ == "local:"@ + (match stem {
            Some(s) => s@,
            None => "unknown"@,
        }),
{
    let name = match stem {
        Some(s) => s,
        None => owned("unknown"),
    };
    join2("local:", name.as_str())
}

/// The identity of the vectors that the model at a path makes.
pub open spec fn tag_text(path: Seq<char>) -> Seq<char> {
    "local:"@ + stem_of(last_name(path))
}

/// Models whose files have different names never share a space.
pub proof fn other_names_are_other_spaces(a: Seq<char>, b: Seq<char>)
    ensures
        tag_text(a) == tag_text(b) <==> stem_of(last_name(a)) == stem_of(last_name(b)),
{
    let n = "local:"@.len() as int;
    assert(tag_text(a).skip(n) =~= stem_of(last_name(a)));
    assert(tag_text(b).skip(n) =~= stem_of(last_name(b)));
}

/// The in-process embedder of the memory.
#[derive(Debug, Clone)]
pub struct LocalPathwayEmbedder {
    pub cfg: LocalEngineConfig,
    pub pooling: EmbedPooling,
}

impl LocalPathwayEmbedder {
    /// An embedder that pools as it is configured.
    pub fn new(cfg: LocalEngineConfig) -> (r: LocalPathwayEmbedder)
        ensures
            r.cfg == cfg,
            r.pooling == EmbedPooling::named(ascii_lowercase(trimmed(cfg.embed_pooling@))),
    {
        let pooling = EmbedPooling::parse(cfg.embed_pooling.as_str());
        LocalPathwayEmbedder { cfg, pooling }
    }

    /// The identity of the vectors that a model makes: it follows the name of its file, so
    /// that another file is another space. Where machines part a path in different ways, the
    /// name is some part of it.
    pub fn space_tag(embed_model_path: &str) -> (r: String)
        ensures
            "local:"@.is_prefix_of(r@),
            contains_text(embed_model_path@, r@.skip("local:"@.len() as int)) || r@
                == "local:unknown"@,
            same_everywhere(embed_model_path@) ==> r@ == tag_text(embed_model_path@),
    {
        let stem = file_stem(embed_model_path);
        let ghost found = opt_string(stem);
        let r = tag_of_stem(stem);
        proof {
            let p = "local:"@;
            assert(r@.take(p.len() as int) =~= p);
            match found {
                Some(s) => {
                    assert(r@.skip(p.len() as int) =~= s);
                },
                None => {
                    reveal_strlit("local:");
                    reveal_strlit("unknown");
                    reveal_strlit("local:unknown");
                    assert(r@ =~= "local:unknown"@);
                },
            }
        }
        r
    }
}

/// The in-process embedder; `None` where the engine is off or has no embedding model, so
/// that another embedder serves.
pub fn embedder_for(cfg: LocalEngineConfig) -> (r: Option<LocalPathwayEmbedder>)
    ensures
        if cfg.enabled && trimmed(cfg.embed_model_path@).len() > 0 {
            r matches Some(e) && e.cfg == cfg && e.pooling == EmbedPooling::named(
                ascii_lowercase(trimmed(cfg.embed_pooling@)),
            )
        } else {
            r is None
        },
{
    let t = trim(cfg.embed_model_path.as_str());
    if !cfg.enabled || t.as_str().is_empty() {
        return None;
    }
    Some(LocalPathwayEmbedder::new(cfg))
}

/// The space of a model is told by the name of its file, without what follows its last dot.
pub proof fn spaces_are_told_by_their_file(path: Seq<char>)
    ensures
        tag_text(path) == "local:"@ + stem_of(last_name(path)),
{
}

} // verus!
