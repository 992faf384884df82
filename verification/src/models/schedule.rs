//! Scheduled jobs and the recipes that they run.

use crate::ids::{is_utc_time, now_text, random_id, uuid_shaped};
use crate::json::Json;
use crate::text::owned;
use vstd::prelude::*;

verus! {

/// What a job is configured to do.
#[derive(Debug, PartialEq)]
pub struct JobConfig {
    pub name: String,
    pub cron: String,
    pub recipe_id: String,
    pub parameters: Option<Json>,
    pub enabled: bool,
}

/// A scheduled job.
#[derive(Debug, PartialEq)]
pub struct ScheduleJob {
    pub id: String,
    pub name: String,
    pub cron: String,
    pub recipe_id: String,
    pub parameters: Option<Json>,
    pub enabled: bool,
    pub created_at: Option<String>,
    pub updated_at: Option<String>,
}

impl ScheduleJob {
    /// An enabled job without parameters, under an identifier and with its times.
    pub fn with_id(
        id: String,
        name: &str,
        cron: &str,
        recipe_id: &str,
        created_at: String,
        updated_at: String,
    ) -> (r: ScheduleJob)
        ensures
            r.id@ == id@,
            r.created_at == Some(created_at),
            r.updated_at == Some(updated_at),
            r.is_fresh(name@, cron@, recipe_id@),
    {
        ScheduleJob {
            id,
            name: owned(name),
            cron: owned(cron),
            recipe_id: owned(recipe_id),
            parameters: None,
            enabled: true,
            created_at: Some(created_at),
            updated_at: Some(updated_at),
        }
    }

    /// The job is enabled and has no parameters.
    pub open spec fn is_fresh(
        &self,
        name: Seq<char>,
        cron: Seq<char>,
        recipe_id: Seq<char>,
    ) -> bool {
        &&& self.name@ == name
        &&& self.cron@ == cron
        &&& self.recipe_id@ == recipe_id
        &&& self.parameters is None
        &&& self.enabled
    }

    /// An enabled job without parameters, under a new identifier and made now.
    pub fn new(name: &str, cron: &str, recipe_id: &str) -> (r: ScheduleJob)
        ensures
            uuid_shaped(r.id@),
            r.created_at matches Some(t) && is_utc_time(t@),
            r.updated_at matches Some(t) && is_utc_time(t@),
            r.is_fresh(name@, cron@, recipe_id@),
    {
        ScheduleJob::with_id(random_id(), name, cron, recipe_id, now_text(), now_text())
    }
}

/// A parameter of a recipe.
#[derive(Debug, PartialEq)]
pub struct RecipeParameter {
    pub name: String,
    pub param_type: String,
    pub description: Option<String>,
    pub required: bool,
    pub default: Option<Json>,
}

/// A recipe.
#[derive(Debug, PartialEq)]
pub struct Recipe {
    pub id: String,
    pub name: String,
    pub prompt_template: String,
    pub instructions: Option<String>,
    pub parameters: Option<Vec<RecipeParameter>>,
    pub required_mcp_servers: Option<Vec<String>>,
    pub system_prompt_layer: Option<String>,
    pub max_steps: i32,
    pub created_at: Option<String>,
    pub updated_at: Option<String>,
}

impl Recipe {
    /// A recipe of a template alone, under an identifier and with its times.
    pub fn with_id(
        id: String,
        name: &str,
        prompt_template: &str,
        created_at: String,
        updated_at: String,
    ) -> (r: Recipe)
        ensures
            r.id@ == id@,
            r.created_at == Some(created_at),
            r.updated_at == Some(updated_at),
            r.is_fresh(name@, prompt_template@),
    {
        Recipe {
            id,
            name: owned(name),
            prompt_template: owned(prompt_template),
            instructions: None,
            parameters: None,
            required_mcp_servers: None,
            system_prompt_layer: None,
            max_steps: 30,
            created_at: Some(created_at),
            updated_at: Some(updated_at),
        }
    }

    /// The recipe is a template alone, with the default number of steps.
    pub open spec fn is_fresh(&self, name: Seq<char>, prompt_template: Seq<char>) -> bool {
        &&& self.name@ == name
        &&& self.prompt_template@ == prompt_template
        &&& self.instructions is None
        &&& self.parameters is None
        &&& self.required_mcp_servers is None
        &&& self.system_prompt_layer is None
        &&& self.max_steps == 30
    }

    /// A recipe of a template alone, under a new identifier and made now.
    pub fn new(name: &str, prompt_template: &str) -> (r: Recipe)
        ensures
            uuid_shaped(r.id@),
            r.created_at matches Some(t) && is_utc_time(t@),
            r.updated_at matches Some(t) && is_utc_time(t@),
            r.is_fresh(name@, prompt_template@),
    {
        Recipe::with_id(random_id(), name, prompt_template, now_text(), now_text())
    }
}

/// A new job runs its recipe at its times, enabled and without parameters; a new recipe is its
/// template alone, with thirty steps.
pub proof fn what_is_made_is_what_was_asked(
    job: ScheduleJob,
    recipe: Recipe,
    name: Seq<char>,
    cron: Seq<char>,
    recipe_id: Seq<char>,
    prompt_template: Seq<char>,
)
    requires
        job.is_fresh(name, cron, recipe_id),
        recipe.is_fresh(name, prompt_template),
    ensures
        job.name@ == name && job.cron@ == cron && job.recipe_id@ == recipe_id,
        job.enabled && job.parameters is None,
        recipe.name@ == name && recipe.prompt_template@ == prompt_template,
        recipe.max_steps == 30,
        recipe.instructions is None && recipe.parameters is None
            && recipe.required_mcp_servers is None && recipe.system_prompt_layer is None,
{
}

} // verus!
