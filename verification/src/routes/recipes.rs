//! The `/api/recipes` routes.

use crate::json::{opt_string, owned_opt, Json, JsonV};
use crate::routes::reply::{err_response, refusal, Reply};
use crate::text::owned;
use vstd::prelude::*;

verus! {

/// A recipe that a request creates.
#[derive(Debug, PartialEq)]
pub struct NewRecipe {
    pub name: String,
    pub prompt_template: String,
    pub instructions: Option<String>,
    pub max_steps: i32,
}

/// The recipe is the one that a request creates.
pub open spec fn is_new_recipe(n: NewRecipe, body: JsonV) -> bool {
    &&& Some(n.name@) == body.text_at("name"@)
    &&& Some(n.prompt_template@) == body.text_at("prompt_template"@)
    &&& opt_string(n.instructions) == body.text_at("instructions"@)
    &&& n.max_steps == (match body.at("max_steps"@).signed() {
        Some(k) => k as i32,
        None => 30i32,
    })
}

/// The recipe that a request creates. A request without a name or a template is refused.
pub fn create_recipe(body: &Json) -> (r: Result<NewRecipe, Reply>)
    ensures
        match r {
            Ok(n) => is_new_recipe(n, body@),
            Err(reply) => (body@.text_at("name"@) is None || body@.text_at("prompt_template"@) is None)
                && reply@ == refusal(400, "name and prompt_template are required"@),
        },
{
    match (body.get_str("name"), body.get_str("prompt_template")) {
        (Some(name), Some(template)) => {
            let max_steps: i32 = match body.get_i64("max_steps") {
                Some(k) => #[verifier::truncate] (k as i32),
                None => 30,
            };
            Ok(
                NewRecipe {
                    name: owned(name),
                    prompt_template: owned(template),
                    instructions: owned_opt(body.get_str("instructions")),
                    max_steps,
                },
            )
        },
        _ => Err(err_response(400, "name and prompt_template are required")),
    }
}

/// A recipe is created as the request says: under its name, with its template and its
/// instructions, and with its number of steps or thirty.
pub proof fn recipes_are_created_as_asked(n: NewRecipe, body: JsonV)
    requires
        is_new_recipe(n, body),
    ensures
        body.at("name"@) == JsonV::Str(n.name@),
        body.at("prompt_template"@) == JsonV::Str(n.prompt_template@),
        match body.at("instructions"@) {
            JsonV::Str(t) => n.instructions matches Some(i) && i@ == t,
            _ => n.instructions is None,
        },
        body.at("max_steps"@) matches JsonV::Int(k) ==> i32::MIN <= k <= i32::MAX ==> n.max_steps
            == k,
        !(body.at("max_steps"@) is Int) ==> n.max_steps == 30,
{
}

} // verus!
