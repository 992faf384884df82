//! Named sampling presets.

use crate::provider::base::{SamplingParams, SamplingV};
use crate::provider::sampling::{floor_v, merged};
use crate::text::{ascii_lowercase, owned, same, to_ascii_lowercase, trim, trimmed};
use vstd::prelude::*;

verus! {

/// A preset. All but the limit on tokens and the effort is set, so that nothing is taken
/// over from below.
pub open spec fn preset_v(
    temperature: Seq<char>,
    top_k: i32,
    top_p: Seq<char>,
    presence_penalty: Seq<char>,
) -> SamplingV {
    SamplingV {
        temperature: Some(temperature),
        top_p: Some(top_p),
        top_k: Some(top_k),
        min_p: Some("0.0"@),
        presence_penalty: Some(presence_penalty),
        frequency_penalty: Some("0.0"@),
        max_tokens: None,
        effort: None,
    }
}

/// The preset of a name, `None` for a name that is not known.
pub open spec fn named_preset(name: Seq<char>) -> Option<SamplingV> {
    if name == "precise"@ {
        Some(preset_v("0.1"@, 50, "0.95"@, "0.05"@))
    } else if name == "balanced"@ {
        Some(preset_v("0.6"@, 40, "0.9"@, "0.05"@))
    } else if name == "creative"@ {
        Some(preset_v("1.0"@, 0, "1.0"@, "0.1"@))
    } else {
        None
    }
}

fn preset(temperature: &str, top_k: i32, top_p: &str, presence_penalty: &str) -> (r: SamplingParams)
    ensures
        r@ == preset_v(temperature@, top_k, top_p@, presence_penalty@),
{
    SamplingParams {
        temperature: Some(owned(temperature)),
        top_p: Some(owned(top_p)),
        top_k: Some(top_k),
        min_p: Some(owned("0.0")),
        presence_penalty: Some(owned(presence_penalty)),
        frequency_penalty: Some(owned("0.0")),
        max_tokens: None,
        effort: None,
    }
}

/// The preset of a name, whatever its case and the white space around it. A name that is
/// not known is no preset.
pub fn resolve(name: &str) -> (r: Option<SamplingParams>)
    ensures
        (match r {
            Some(p) => Some(p@),
            None => None,
        }) == named_preset(ascii_lowercase(trimmed(name@))),
{
    let t = trim(name);
    let n = to_ascii_lowercase(t.as_str());
    if same(n.as_str(), "precise") {
        Some(preset("0.1", 50, "0.95", "0.05"))
    } else if same(n.as_str(), "balanced") {
        Some(preset("0.6", 40, "0.9", "0.05"))
    } else if same(n.as_str(), "creative") {
        Some(preset("1.0", 0, "1.0", "0.1"))
    } else {
        None
    }
}

/// The names of the presets, in the order in which they are offered.
pub const NAMES: [&'static str; 3] = ["precise", "balanced", "creative"];

/// Each name that is offered is that of a preset.
pub proof fn each_name_is_a_preset(i: int)
    requires
        0 <= i < 3,
    ensures
        named_preset(NAMES@[i]@) is Some,
{
}

/// A preset means what its name says whatever lies below it: of what a self-hosted model
/// gets without one, only the limit on tokens remains.
pub proof fn presets_displace_the_floor(name: Seq<char>)
    requires
        named_preset(name) is Some,
    ensures
        ({
            let p = named_preset(name)->0;
            let m = merged(p, floor_v());
            &&& m.temperature == p.temperature && p.temperature is Some
            &&& m.top_p == p.top_p && p.top_p is Some
            &&& m.top_k == p.top_k && p.top_k is Some
            &&& m.min_p == p.min_p && p.min_p is Some
            &&& m.presence_penalty == p.presence_penalty && p.presence_penalty is Some
            &&& m.max_tokens == floor_v().max_tokens
            &&& m.effort is None
        }),
{
}

/// Each preset sets what its name stands for: the precise one is the coldest and the creative
/// one samples from everything. None sets a limit on tokens or a level of effort, and no other
/// name is a preset.
pub proof fn presets_are_what_their_names_say(name: Seq<char>)
    ensures
        name == "precise"@ ==> named_preset(name) == Some(
            SamplingV {
                temperature: Some("0.1"@),
                top_p: Some("0.95"@),
                top_k: Some(50),
                min_p: Some("0.0"@),
                presence_penalty: Some("0.05"@),
                frequency_penalty: Some("0.0"@),
                max_tokens: None,
                effort: None,
            },
        ),
        name == "balanced"@ ==> named_preset(name) == Some(
            SamplingV {
                temperature: Some("0.6"@),
                top_p: Some("0.9"@),
                top_k: Some(40),
                min_p: Some("0.0"@),
                presence_penalty: Some("0.05"@),
                frequency_penalty: Some("0.0"@),
                max_tokens: None,
                effort: None,
            },
        ),
        name == "creative"@ ==> named_preset(name) == Some(
            SamplingV {
                temperature: Some("1.0"@),
                top_p: Some("1.0"@),
                top_k: Some(0),
                min_p: Some("0.0"@),
                presence_penalty: Some("0.1"@),
                frequency_penalty: Some("0.0"@),
                max_tokens: None,
                effort: None,
            },
        ),
        name != "precise"@ && name != "balanced"@ && name != "creative"@ ==> named_preset(
            name,
        ) is None,
{
    reveal_strlit("precise");
    reveal_strlit("balanced");
    reveal_strlit("creative");
    assert("precise"@.len() == 7 && "balanced"@[0] == 'b' && "creative"@[0] == 'c');
}

} // verus!
