//! Recipes: their files, their templates and the sessions they run in.

use crate::error::RecipeError;
use crate::json::{opt_string, opt_text, owned_opt, text_of_json, value_model, Json, JsonV};
use crate::mcp::manager::{parse_stored, said_by, strings_in, strings_of};
use crate::routes::chat::filled;
use crate::templates::{is_tame, tame};
use crate::text::{join, join3, joined, owned, texts};
use vstd::prelude::*;

verus! {

/// What comes of a template with parameters: a text, or why it cannot be rendered.
pub uninterp spec fn rendering(template: Seq<char>, params: JsonV) -> Result<Seq<char>, Seq<char>>;

/// What a template renders to with parameters; `None` where it cannot be rendered.
pub open spec fn rendered(template: Seq<char>, params: JsonV) -> Option<Seq<char>> {
    match rendering(template, params) {
        Ok(s) => Some(s),
        Err(_) => None,
    }
}

/// Why a template cannot be rendered with parameters.
pub open spec fn render_failure(template: Seq<char>, params: JsonV) -> Seq<char> {
    match rendering(template, params) {
        Ok(_) => Seq::empty(),
        Err(m) => m,
    }
}

/// `minijinja::Environment::render_str` in a new environment: whether it succeeds, with
/// which text, and else with which error, depends on the template and the parameters alone.
/// Templates on which it may not come back are left out. The parser and the compiler call
/// themselves once for each sign before an operand, link of an expression and further branch
/// of a condition, without a limit of their own, so that tags, branches and code are bounded.
/// A `namespace` that holds itself is printed without end; `indent`, `batch`, `slice` and
/// `format` panic on sizes beyond what can be asked for, as does a repeated sequence;
/// `divisibleby` panics on zero, a loop's `cycle` on no arguments, a slice with a negative step
/// on an empty string, `range` with such a step on bounds too far apart, in builds that check
/// for overflow; `debug` prints what holds itself; and `map`, `select`, `reject` and their like
/// take another built-in by its name.
#[verifier::external_body]
fn render(template: &str, params: &serde_json::Value) -> (r: Result<String, String>)
    requires
        is_tame(template@),
    ensures
        match r {
            Ok(s) => rendering(template@, value_model(*params)) == Ok::<_, Seq<char>>(s@),
            Err(e) => rendering(template@, value_model(*params)) == Err::<Seq<char>, _>(e@),
        },
{
    minijinja::Environment::new().render_str(template, params).map_err(|e| e.to_string())
}

/// Renders a template with parameters.
pub fn render_template(template: &str, params: &Json) -> (r: Result<String, RecipeError>)
    requires
        is_tame(template@),
    ensures
        match r {
            Ok(s) => rendered(template@, params@) == Some(s@),
            Err(e) => rendered(template@, params@) is None && (e matches RecipeError::Template(m)
                && m@ == render_failure(template@, params@)),
        },
{
    let v = params.to_value();
    match render(template, &v) {
        Ok(s) => Ok(s),
        Err(e) => Err(RecipeError::Template(e)),
    }
}

/// Why a template is not rendered at all.
pub const UNTAMED: &'static str =
    "the template is too large, or uses a built-in on which rendering may not come back";

/// What comes of any template with parameters: one that may not come back is refused.
pub open spec fn render_outcome(template: Seq<char>, params: JsonV) -> Result<Seq<char>, Seq<char>> {
    if is_tame(template) {
        rendering(template, params)
    } else {
        Err(UNTAMED@)
    }
}

/// Renders a template with parameters, unless it may not come back.
pub fn try_render(template: &str, params: &Json) -> (r: Result<String, RecipeError>)
    ensures
        match r {
            Ok(s) => render_outcome(template@, params@) == Ok::<_, Seq<char>>(s@),
            Err(e) => e matches RecipeError::Template(m) && render_outcome(template@, params@)
                == Err::<Seq<char>, _>(m@),
        },
{
    if tame(template) {
        render_template(template, params)
    } else {
        Err(RecipeError::Template(owned(UNTAMED)))
    }
}

/// What serde_yaml reads from a text: a value, or the message of its error.
pub uninterp spec fn yaml_read(s: Seq<char>) -> Result<JsonV, Seq<char>>;

/// What a text says as YAML, `None` where it is none.
pub open spec fn yaml_of_text(s: Seq<char>) -> Option<JsonV> {
    match yaml_read(s) {
        Ok(v) => Some(v),
        Err(_) => None,
    }
}

/// Why a text is no YAML.
pub open spec fn yaml_failure(s: Seq<char>) -> Seq<char> {
    match yaml_read(s) {
        Ok(_) => Seq::empty(),
        Err(m) => m,
    }
}

/// `serde_yaml::from_str` into a `serde_json::Value`: whether it succeeds, with which
/// value, and else with which error, depends on the text alone.
#[verifier::external_body]
fn yaml_value(s: &str) -> (r: Result<serde_json::Value, String>)
    ensures
        match r {
            Ok(v) => yaml_read(s@) == Ok::<_, Seq<char>>(value_model(v)),
            Err(e) => yaml_read(s@) == Err::<JsonV, _>(e@),
        },
{
    serde_yaml::from_str(s).map_err(|e| e.to_string())
}

/// A recipe as it is stored.
#[derive(Debug, Clone, PartialEq)]
pub struct RecipeRow {
    pub id: String,
    pub name: String,
    pub prompt_template: String,
    pub instructions: Option<String>,
    pub parameters: Option<String>,
    pub required_mcp_servers: Option<String>,
    pub system_prompt_layer: Option<String>,
    pub max_steps: i64,
}

/// The text of a member, another where there is none.
pub open spec fn text_or(j: JsonV, key: Seq<char>, other: Seq<char>) -> Seq<char> {
    match j.text_at(key) {
        Some(s) => s,
        None => other,
    }
}

/// A member as JSON text, an empty array where there is none.
pub open spec fn list_text(j: JsonV, key: Seq<char>) -> Seq<char> {
    match j.get(key) {
        Some(v) => text_of_json(v),
        None => text_of_json(JsonV::Arr(Seq::empty())),
    }
}

/// The row is the recipe that a file tells of. Without an identifier or a name it has that
/// of its file, so that reading a file again changes its row and makes no second one.
pub open spec fn is_recipe_of(row: RecipeRow, data: JsonV, stem: Seq<char>) -> bool {
    &&& row.id@ == text_or(data, "id"@, stem)
    &&& row.name@ == text_or(data, "name"@, stem)
    &&& row.prompt_template@ == text_or(data, "prompt_template"@, ""@)
    &&& opt_string(row.instructions) == data.text_at("instructions"@)
    &&& opt_string(row.parameters) == Some(list_text(data, "parameters"@))
    &&& opt_string(row.required_mcp_servers) == Some(list_text(data, "required_mcp_servers"@))
    &&& opt_string(row.system_prompt_layer) == data.text_at("system_prompt_layer"@)
    &&& row.max_steps == (match data.at("max_steps"@).signed() {
        Some(n) => n,
        None => 30,
    })
}

fn text_in(j: &Json, key: &str, other: &str) -> (r: String)
    ensures
        r@ == text_or(j@, key@, other@),
{
    match j.get_str(key) {
        Some(s) => owned(s),
        None => owned(other),
    }
}

fn list_in(j: &Json, key: &str) -> (r: String)
    ensures
        r@ == list_text(j@, key@),
{
    match j.get(key) {
        Some(v) => v.print(),
        None => {
            let none: Vec<Json> = Vec::new();
            proof {
                assert(crate::json::jsons(none@) =~= Seq::empty());
            }
            Json::array(none).print()
        },
    }
}

/// The recipe that parsed data tells of, under the name of its file; `None` where it is no
/// mapping.
pub fn recipe_of(data: &Json, stem: &str) -> (r: Option<RecipeRow>)
    ensures
        match r {
            Some(row) => data@ is Obj && is_recipe_of(row, data@, stem@),
            None => !(data@ is Obj),
        },
{
    if !data.is_object() {
        return None;
    }
    Some(
        RecipeRow {
            id: text_in(data, "id", stem),
            name: text_in(data, "name", stem),
            prompt_template: text_in(data, "prompt_template", ""),
            instructions: owned_opt(data.get_str("instructions")),
            parameters: Some(list_in(data, "parameters")),
            required_mcp_servers: Some(list_in(data, "required_mcp_servers")),
            system_prompt_layer: owned_opt(data.get_str("system_prompt_layer")),
            max_steps: match data.get_i64("max_steps") {
                Some(n) => n,
                None => 30,
            },
        },
    )
}

/// The recipe that a file tells of. A file that is no mapping is passed over; a file that
/// is no YAML is an error.
pub fn read_recipe(text: &str, stem: &str) -> (r: Result<Option<RecipeRow>, String>)
    ensures
        match yaml_of_text(text@) {
            Some(data) => match r {
                Ok(Some(row)) => data is Obj && is_recipe_of(row, data, stem@),
                Ok(None) => !(data is Obj),
                Err(_) => false,
            },
            None => r matches Err(e) && e@ == yaml_failure(text@),
        },
{
    match yaml_value(text) {
        Ok(v) => {
            let data = Json::from_value(v);
            Ok(recipe_of(&data, stem))
        },
        Err(e) => Err(e),
    }
}

/// The instructions of a recipe that are to be rendered.
pub open spec fn instructions_of(row: RecipeRow) -> Option<Seq<char>> {
    filled(opt_string(row.instructions))
}

/// What a recipe makes of the assistant: its instructions, and the part it plays.
pub open spec fn persona(instructions: Option<Seq<char>>, layer: Option<Seq<char>>) -> Seq<Seq<char>> {
    let a = match instructions {
        Some(s) => seq![s],
        None => Seq::empty(),
    };
    match filled(layer) {
        Some(l) => a.push("You are a "@ + l + "."@),
        None => a,
    }
}

/// What the session of a run remembers of its recipe.
pub open spec fn run_metadata(
    recipe_id: Seq<char>,
    params: JsonV,
    name: Seq<char>,
    persona_parts: Seq<Seq<char>>,
) -> JsonV {
    let m = JsonV::empty().put("recipe_id"@, JsonV::Str(recipe_id)).put("parameters"@, params).put(
        "recipe_name"@,
        JsonV::Str(name),
    );
    if persona_parts.len() > 0 {
        m.put("persona_override"@, JsonV::Str(joined(persona_parts, "\n"@)))
    } else {
        m
    }
}

/// What a run of a recipe needs.
pub struct RecipeRun {
    pub prompt: String,
    pub metadata: Json,
    /// The tool servers to connect, by their names.
    pub required_servers: Vec<String>,
}

/// What the session of a run remembers, from the recipe and its rendered instructions.
pub fn session_metadata(
    row: &RecipeRow,
    recipe_id: &str,
    params: &Json,
    instructions: Option<&str>,
) -> (r: Json)
    ensures
        r@ == run_metadata(
            recipe_id@,
            params@,
            row.name@,
            persona(opt_text(instructions), opt_string(row.system_prompt_layer)),
        ),
{
    let mut parts: Vec<String> = Vec::new();
    match instructions {
        Some(s) => {
            parts.push(owned(s));
        },
        None => {},
    }
    match &row.system_prompt_layer {
        Some(l) => if !l.as_str().is_empty() {
            parts.push(join3("You are a ", l.as_str(), "."));
        },
        None => {},
    }
    proof {
        assert(texts(parts@) =~= persona(
            opt_text(instructions),
            opt_string(row.system_prompt_layer),
        ));
    }
    let meta = Json::object().with("recipe_id", Json::string(recipe_id)).with(
        "parameters",
        params.copy(),
    ).with("recipe_name", Json::string(row.name.as_str()));
    if parts.len() > 0 {
        let text = join(&parts, "\n");
        meta.with("persona_override", Json::Str(text))
    } else {
        meta
    }
}

/// The servers that a recipe needs, none where it does not say.
pub open spec fn servers_of(row: RecipeRow) -> Seq<Seq<char>> {
    match strings_of(said_by(row.required_mcp_servers)) {
        Some(v) => v,
        None => Seq::empty(),
    }
}

/// A template could not be rendered, for a reason.
pub open spec fn is_template_error(r: Result<RecipeRun, RecipeError>, why: Seq<char>) -> bool {
    r matches Err(e) && (e matches RecipeError::Template(m) && m@ == why)
}

/// The run of a recipe whose templates were rendered.
pub open spec fn is_run(
    r: Result<RecipeRun, RecipeError>,
    row: RecipeRow,
    recipe_id: Seq<char>,
    params: JsonV,
    prompt: Seq<char>,
    instructions: Option<Seq<char>>,
) -> bool {
    r matches Ok(run) && run.prompt@ == prompt && run.metadata@ == run_metadata(
        recipe_id,
        params,
        row.name@,
        persona(instructions, opt_string(row.system_prompt_layer)),
    ) && texts(run.required_servers@) == servers_of(row)
}

/// What a run of a recipe needs; an error where a template cannot be rendered. Empty
/// instructions are not rendered.
pub fn prepare_run(row: &RecipeRow, recipe_id: &str, params: &Json) -> (r: Result<
    RecipeRun,
    RecipeError,
>)
    ensures
        run_outcome(r, *row, recipe_id@, params@),
{
    let prompt = match try_render(row.prompt_template.as_str(), params) {
        Ok(s) => s,
        Err(e) => return Err(e),
    };
    let mut instructions: Option<String> = None;
    match &row.instructions {
        Some(t) => {
            if !t.as_str().is_empty() {
                match try_render(t.as_str(), params) {
                    Ok(s) => {
                        instructions = Some(s);
                    },
                    Err(e) => return Err(e),
                }
            }
        },
        None => {},
    }
    let shown = match &instructions {
        Some(s) => Some(s.as_str()),
        None => None,
    };
    let metadata = session_metadata(row, recipe_id, params, shown);
    let parsed = parse_stored(&row.required_mcp_servers);
    let named = match &parsed {
        Some(j) => strings_in(Some(j)),
        None => None,
    };
    let required_servers = match named {
        Some(v) => v,
        None => {
            let none: Vec<String> = Vec::new();
            proof {
                assert(texts(none@) =~= Seq::empty());
            }
            none
        },
    };
    Ok(RecipeRun { prompt, metadata, required_servers })
}

/// The error of a recipe that is not there.
pub fn no_such_recipe(recipe_id: &str) -> (r: RecipeError)
    ensures
        r matches RecipeError::NotFound(m) && m@ == recipe_id@,
{
    RecipeError::NotFound(owned(recipe_id))
}

/// A file of this extension is a recipe.
pub open spec fn is_recipe_file(ext: Option<Seq<char>>) -> bool {
    ext == Some("yaml"@) || ext == Some("yml"@)
}

/// What comes of a run: its prompt is rendered first and then its instructions, where it has
/// any, and the first that cannot be rendered is why it fails.
pub open spec fn run_outcome(
    r: Result<RecipeRun, RecipeError>,
    row: RecipeRow,
    recipe_id: Seq<char>,
    params: JsonV,
) -> bool {
    match (render_outcome(row.prompt_template@, params), instructions_of(row)) {
        (Err(m), _) => is_template_error(r, m),
        (Ok(p), None) => is_run(r, row, recipe_id, params, p, None),
        (Ok(p), Some(t)) => match render_outcome(t, params) {
            Ok(i) => is_run(r, row, recipe_id, params, p, Some(i)),
            Err(m) => is_template_error(r, m),
        },
    }
}

/// Whether a file of this extension is a recipe.
pub fn is_recipe_extension(ext: Option<&str>) -> (r: bool)
    ensures
        r == is_recipe_file(opt_text(ext)),
{
    match ext {
        Some(e) => crate::text::same(e, "yaml") || crate::text::same(e, "yml"),
        None => false,
    }
}

/// A file says what its recipe is: its identifier, name, template, instructions and layer are
/// the texts of the file, its lists are kept as they are, and its steps are its number. What
/// it does not say is taken from the file's name, or is the default.
pub proof fn files_say_their_recipes(row: RecipeRow, data: JsonV, stem: Seq<char>)
    requires
        is_recipe_of(row, data, stem),
    ensures
        row.id@ == (match data.at("id"@) {
            JsonV::Str(t) => t,
            _ => stem,
        }),
        row.name@ == (match data.at("name"@) {
            JsonV::Str(t) => t,
            _ => stem,
        }),
        row.prompt_template@ == (match data.at("prompt_template"@) {
            JsonV::Str(t) => t,
            _ => ""@,
        }),
        match data.at("instructions"@) {
            JsonV::Str(t) => row.instructions matches Some(i) && i@ == t,
            _ => row.instructions is None,
        },
        match data.at("system_prompt_layer"@) {
            JsonV::Str(t) => row.system_prompt_layer matches Some(l) && l@ == t,
            _ => row.system_prompt_layer is None,
        },
        data.get("parameters"@) matches Some(v) ==> (row.parameters matches Some(p) && p@
            == text_of_json(v)),
        data.get("parameters"@) is None ==> (row.parameters matches Some(p) && p@ == text_of_json(
            JsonV::Arr(Seq::empty()),
        )),
        data.get("required_mcp_servers"@) matches Some(v) ==> (row.required_mcp_servers matches Some(
            p,
        ) && p@ == text_of_json(v)),
        data.get("required_mcp_servers"@) is None ==> (row.required_mcp_servers matches Some(p)
            && p@ == text_of_json(JsonV::Arr(Seq::empty()))),
        row.max_steps == (match data.at("max_steps"@) {
            JsonV::Int(n) => if i64::MIN <= n <= i64::MAX {
                n
            } else {
                30
            },
            _ => 30,
        }),
{
}

/// A run begins with what the recipe's templates say: its prompt is the rendered template, and
/// its session remembers the recipe, its name and the parameters. Instructions are rendered and
/// come first in what the assistant is told to be; the part it plays comes after them, or
/// alone. A recipe with neither tells it nothing.
pub proof fn runs_are_told_their_instructions(
    r: Result<RecipeRun, RecipeError>,
    row: RecipeRow,
    recipe_id: Seq<char>,
    params: JsonV,
    prompt: Seq<char>,
    instructions: Option<Seq<char>>,
)
    requires
        is_run(r, row, recipe_id, params, prompt, instructions),
    ensures
        ({
            let run = r->Ok_0;
            let part = match row.system_prompt_layer {
                Some(l) => if l@.len() > 0 {
                    Some("You are a "@ + l@ + "."@)
                } else {
                    None
                },
                None => None,
            };
            &&& run.prompt@ == prompt
            &&& run.metadata@.get("recipe_id"@) == Some(JsonV::Str(recipe_id))
            &&& run.metadata@.get("parameters"@) == Some(params)
            &&& run.metadata@.get("recipe_name"@) == Some(JsonV::Str(row.name@))
            &&& run.metadata@.get("persona_override"@) == (match (instructions, part) {
                (Some(i), Some(p)) => Some(JsonV::Str(i + "\n"@ + p)),
                (Some(i), None) => Some(JsonV::Str(i)),
                (None, Some(p)) => Some(JsonV::Str(p)),
                (None, None) => None,
            })
        }),
{
    reveal_strlit("recipe_id");
    reveal_strlit("parameters");
    reveal_strlit("recipe_name");
    reveal_strlit("persona_override");
    assert("recipe_id"@.len() == 9 && "parameters"@.len() == 10 && "recipe_name"@.len() == 11
        && "persona_override"@.len() == 16);
    let layer = opt_string(row.system_prompt_layer);
    let parts = persona(instructions, layer);
    match (instructions, filled(layer)) {
        (Some(i), Some(l)) => {
            let p = "You are a "@ + l + "."@;
            assert(parts =~= seq![i, p]);
            assert(parts.drop_last() =~= seq![i]);
            assert(joined(seq![i], "\n"@) == i);
        },
        (Some(i), None) => {
            assert(parts =~= seq![i]);
        },
        (None, Some(l)) => {
            assert(parts =~= seq!["You are a "@ + l + "."@]);
        },
        (None, None) => {},
    }
}

/// The servers of a run are those that the recipe names, in order; the instructions that are
/// rendered are the recipe's, where they are not empty; and a template that may be rendered is.
pub proof fn runs_take_what_the_recipe_names(row: RecipeRow, names: Seq<JsonV>, params: JsonV)
    ensures
        said_by(row.required_mcp_servers) == Some(JsonV::Arr(names)) && (forall|k: int|
            0 <= k < names.len() ==> (#[trigger] names[k]) is Str) ==> servers_of(row).len()
            == names.len() && forall|i: int|
            0 <= i < names.len() ==> #[trigger] names[i] == JsonV::Str(servers_of(row)[i]),
        said_by(row.required_mcp_servers) is None ==> servers_of(row).len() == 0,
        match row.instructions {
            Some(t) => if t@.len() > 0 {
                instructions_of(row) == Some(t@)
            } else {
                instructions_of(row) is None
            },
            None => instructions_of(row) is None,
        },
        is_tame(row.prompt_template@) ==> render_outcome(row.prompt_template@, params) == rendering(
            row.prompt_template@,
            params,
        ),
        !is_tame(row.prompt_template@) ==> render_outcome(row.prompt_template@, params) is Err,
{
}

/// Files of two extensions are recipes, and no others.
pub proof fn recipes_have_their_extensions(ext: Seq<char>)
    ensures
        is_recipe_file(Some("yaml"@)),
        is_recipe_file(Some("yml"@)),
        ext != "yaml"@ && ext != "yml"@ ==> !is_recipe_file(Some(ext)),
        !is_recipe_file(None),
{
}

/// A run whose templates can be rendered has the rendered prompt, and the rendered instructions
/// begin what the assistant is told to be; one whose templates cannot fails with the reason.
pub proof fn runs_are_rendered_or_fail(
    r: Result<RecipeRun, RecipeError>,
    row: RecipeRow,
    recipe_id: Seq<char>,
    params: JsonV,
)
    requires
        run_outcome(r, row, recipe_id, params),
    ensures
        render_outcome(row.prompt_template@, params) matches Err(m) ==> (r matches Err(
            RecipeError::Template(why),
        ) && why@ == m),
        render_outcome(row.prompt_template@, params) matches Ok(p) ==> {
            &&& row.instructions is None ==> (r matches Ok(run) && run.prompt@ == p)
            &&& row.instructions matches Some(t) ==> (t@.len() > 0 ==> (match render_outcome(
                t@,
                params,
            ) {
                Ok(i) => r matches Ok(run) && run.prompt@ == p && (run.metadata@.text_at(
                    "persona_override"@,
                ) matches Some(told) && i.is_prefix_of(told)),
                Err(m) => r matches Err(RecipeError::Template(why)) && why@ == m,
            }))
        },
{
    match (render_outcome(row.prompt_template@, params), instructions_of(row)) {
        (Ok(p), Some(t)) => match render_outcome(t, params) {
            Ok(i) => {
                runs_are_told_their_instructions(r, row, recipe_id, params, p, Some(i));
                let told = r->Ok_0.metadata@.text_at("persona_override"@)->0;
                assert(told.take(i.len() as int) =~= i);
            },
            Err(_) => {},
        },
        _ => {},
    }
}

} // verus!
