//! The `/api/schedules` routes.

use crate::error::SchedulerError;
use crate::json::{opt_string, owned_opt, Json, JsonV};
use crate::routes::reply::{err_response, refusal, Reply};
use crate::text::owned;
use vstd::prelude::*;

verus! {

/// The status that an error of the scheduler is answered with.
pub open spec fn status_of_error(e: SchedulerError) -> u16 {
    if e is NotFound {
        404u16
    } else {
        500u16
    }
}

/// The status for a change of a schedule that failed: a schedule that is not there is told
/// from a failure of the service.
pub fn scheduler_status(e: &SchedulerError) -> (r: u16)
    ensures
        r == status_of_error(*e),
{
    match e {
        SchedulerError::NotFound(_) => 404,
        _ => 500,
    }
}

/// A schedule that a request creates.
#[derive(Debug, PartialEq)]
pub struct NewSchedule {
    pub name: String,
    pub cron: String,
    pub recipe_id: String,
    pub enabled: bool,
}

/// The request names all that a schedule needs.
pub open spec fn is_complete(body: JsonV) -> bool {
    body.text_at("name"@) is Some && body.text_at("cron"@) is Some && body.text_at(
        "recipe_id"@,
    ) is Some
}

/// The schedule is the one that a request creates.
pub open spec fn is_new_schedule(n: NewSchedule, body: JsonV) -> bool {
    &&& Some(n.name@) == body.text_at("name"@)
    &&& Some(n.cron@) == body.text_at("cron"@)
    &&& Some(n.recipe_id@) == body.text_at("recipe_id"@)
    &&& n.enabled == (match body.at("enabled"@).truth() {
        Some(b) => b,
        None => true,
    })
}

/// The schedule that a request creates, enabled unless it says otherwise. A request that
/// does not name all it needs is refused.
pub fn create_schedule(body: &Json) -> (r: Result<NewSchedule, Reply>)
    ensures
        match r {
            Ok(n) => is_complete(body@) && is_new_schedule(n, body@),
            Err(reply) => !is_complete(body@) && reply@ == refusal(
                400,
                "name, cron, recipe_id are required"@,
            ),
        },
{
    match (body.get_str("name"), body.get_str("cron"), body.get_str("recipe_id")) {
        (Some(name), Some(cron), Some(recipe_id)) => Ok(
            NewSchedule {
                name: owned(name),
                cron: owned(cron),
                recipe_id: owned(recipe_id),
                enabled: match body.get_bool("enabled") {
                    Some(b) => b,
                    None => true,
                },
            },
        ),
        _ => Err(err_response(400, "name, cron, recipe_id are required")),
    }
}

/// The changes that a request makes to a schedule. What is `None` stays as it is.
#[derive(Debug, PartialEq)]
pub struct SchedulePatch {
    pub cron: Option<String>,
    pub enabled: Option<bool>,
}

/// The changes are those that a request makes to a schedule.
pub open spec fn is_schedule_patch(r: SchedulePatch, body: JsonV) -> bool {
    &&& opt_string(r.cron) == body.text_at("cron"@)
    &&& r.enabled == body.at("enabled"@).truth()
}

/// The changes that a request makes to a schedule.
pub fn update_schedule(body: &Json) -> (r: SchedulePatch)
    ensures
        is_schedule_patch(r, body@),
{
    SchedulePatch { cron: owned_opt(body.get_str("cron")), enabled: body.get_bool("enabled") }
}

/// A request is complete just where it names the schedule, its times and its recipe.
pub proof fn complete_requests_name_what_is_needed(body: JsonV)
    ensures
        is_complete(body) <==> body.at("name"@) is Str && body.at("cron"@) is Str && body.at(
            "recipe_id"@,
        ) is Str,
{
}

/// A schedule is created as the request says: under its name, with its times, for its recipe,
/// and enabled unless the request says otherwise.
pub proof fn schedules_are_created_as_asked(n: NewSchedule, body: JsonV)
    requires
        is_new_schedule(n, body),
    ensures
        body.at("name"@) == JsonV::Str(n.name@),
        body.at("cron"@) == JsonV::Str(n.cron@),
        body.at("recipe_id"@) == JsonV::Str(n.recipe_id@),
        n.enabled <==> body.at("enabled"@) != JsonV::Bool(false),
{
}

/// A change sets the times and the switch that the request names, and leaves the rest.
pub proof fn schedules_are_changed_as_asked(r: SchedulePatch, body: JsonV)
    requires
        is_schedule_patch(r, body),
    ensures
        match body.at("cron"@) {
            JsonV::Str(t) => r.cron matches Some(c) && c@ == t,
            _ => r.cron is None,
        },
        match body.at("enabled"@) {
            JsonV::Bool(b) => r.enabled == Some(b),
            _ => r.enabled is None,
        },
{
}

/// What is not there is answered as not found, and every other failure as one of the server.
pub proof fn errors_have_their_status(e: SchedulerError)
    ensures
        status_of_error(e) == 404 <==> e is NotFound,
        status_of_error(e) != 404 ==> status_of_error(e) == 500,
{
}

} // verus!
