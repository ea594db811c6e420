//! A2UI (Agent-to-UI): validation of declarative UI messages, the render
//! tool's argument check, and the prompt instructions of the plugin.
//!
//! A2UI v0.9 defines four message types:
//! - `createSurface`: initialize a rendering surface
//! - `updateComponents`: define/update the component tree
//! - `updateDataModel`: populate or change data values
//! - `deleteSurface`: remove a surface

use vstd::prelude::*;
use vstd::string::StringExecFns;

use crate::json::{items_view, JsonValue, JsonView};
use crate::plugin::PluginDescriptor;
use crate::text::{decimal, join_spec, join_strs, push_decimal, replace_all, str_eq, str_replace};
use crate::tool::{ToolDescriptor, ToolError};

verus! {

pub const A2UI_TOOL_ID: &'static str = "render_a2ui";

pub const A2UI_TOOL_NAME: &'static str = "render_a2ui";

pub const A2UI_PLUGIN_ID: &'static str = "a2ui";

pub const SUPPORTED_VERSION: &'static str = "v0.9";

pub const CREATE_SURFACE: &'static str = "createSurface";

pub const UPDATE_COMPONENTS: &'static str = "updateComponents";

pub const UPDATE_DATA_MODEL: &'static str = "updateDataModel";

pub const DELETE_SURFACE: &'static str = "deleteSurface";

/// A2UI validation error.
#[derive(Debug, Clone)]
pub struct A2uiValidationError {
    pub index: usize,
    pub message: String,
}

/// A single A2UI v0.9 message: a version and exactly one payload.
#[derive(Debug)]
pub struct A2uiMessage {
    /// Protocol version, must be "v0.9".
    pub version: String,
    pub create_surface: Option<A2uiCreateSurface>,
    pub update_components: Option<A2uiUpdateComponents>,
    pub update_data_model: Option<A2uiUpdateDataModel>,
    pub delete_surface: Option<A2uiDeleteSurface>,
}

/// Parameters for creating a new A2UI surface.
#[derive(Debug, Clone, PartialEq, Eq)]
pub struct A2uiCreateSurface {
    pub surface_id: String,
    pub catalog_id: String,
}

/// Parameters for updating components on a surface.
#[derive(Debug)]
pub struct A2uiUpdateComponents {
    pub surface_id: String,
    pub components: Vec<A2uiComponent>,
}

/// A single A2UI component definition; fields beyond the known ones are
/// kept in `extra`.
#[derive(Debug)]
pub struct A2uiComponent {
    pub id: String,
    pub component: String,
    pub child: Option<String>,
    pub children: Option<Vec<String>>,
    pub text: Option<String>,
    pub label: Option<String>,
    pub extra: Vec<(String, JsonValue)>,
}

/// Parameters for updating the data model.
#[derive(Debug)]
pub struct A2uiUpdateDataModel {
    pub surface_id: String,
    pub path: String,
    pub value: JsonValue,
}

/// Parameters for deleting a surface.
#[derive(Debug, Clone, PartialEq, Eq)]
pub struct A2uiDeleteSurface {
    pub surface_id: String,
}

/// `"<prefix><index><suffix>"` with the index in decimal.
pub open spec fn indexed(prefix: Seq<char>, index: nat, suffix: Seq<char>) -> Seq<char> {
    prefix + decimal(index) + suffix
}

impl A2uiValidationError {
    /// The display form: `message[<index>]: <message>`.
    pub open spec fn display_spec(&self) -> Seq<char> {
        indexed("message["@, self.index as nat, "]: "@) + self.message@
    }

    /// The display form: `message[<index>]: <message>`.
    pub fn to_display_string(&self) -> (r: String)
        ensures
            r@ == self.display_spec(),
    {
        let mut s = String::from_str("message[");
        push_decimal(&mut s, self.index as u64);
        s.append("]: ");
        s.append(self.message.as_str());
        s
    }
}

/// `seq![x]` when `b`, else the empty sequence.
pub open spec fn if_present(b: bool, x: Seq<char>) -> Seq<Seq<char>> {
    if b {
        seq![x]
    } else {
        Seq::empty()
    }
}

/// The message-type keys present in `msg`, in protocol order.
pub open spec fn present_types(msg: JsonView) -> Seq<Seq<char>> {
    if_present(msg.has_key(CREATE_SURFACE@), CREATE_SURFACE@) + if_present(
        msg.has_key(UPDATE_COMPONENTS@),
        UPDATE_COMPONENTS@,
    ) + if_present(msg.has_key(UPDATE_DATA_MODEL@), UPDATE_DATA_MODEL@) + if_present(
        msg.has_key(DELETE_SURFACE@),
        DELETE_SURFACE@,
    )
}

/// The first invalid component of an `updateComponents` list, from `ci` on.
pub open spec fn component_error(comps: Seq<JsonView>, ci: nat) -> Option<Seq<char>>
    decreases comps.len() - ci,
{
    if ci >= comps.len() {
        None
    } else if !(comps[ci as int] is Object) {
        Some(indexed("\"updateComponents.components["@, ci, "]\" must be a JSON object"@))
    } else if comps[ci as int].get_str("id"@) is None {
        Some(indexed("\"updateComponents.components["@, ci, "].id\" is required"@))
    } else if comps[ci as int].get_str("component"@) is None {
        Some(indexed("\"updateComponents.components["@, ci, "].component\" is required"@))
    } else {
        component_error(comps, ci + 1)
    }
}

/// The checks on the body of a message of type `tk`.
pub open spec fn body_error(tk: Seq<char>, body: JsonView) -> Option<Seq<char>> {
    if !(body is Object) {
        Some("\""@ + tk + "\" must be a JSON object"@)
    } else if body.get_str("surfaceId"@) is None {
        Some("\""@ + tk + ".surfaceId\" is required"@)
    } else if body.get_str("surfaceId"@).unwrap().len() == 0 {
        Some("\""@ + tk + ".surfaceId\" must not be empty"@)
    } else if tk == CREATE_SURFACE@ {
        if body.get_str("catalogId"@) is None {
            Some("\"createSurface.catalogId\" is required"@)
        } else {
            None
        }
    } else if tk == UPDATE_COMPONENTS@ {
        match body.get("components"@) {
            Some(JsonView::Array(arr)) => if arr.len() == 0 {
                Some("\"updateComponents.components\" must not be empty"@)
            } else {
                component_error(arr, 0)
            },
            _ => Some("\"updateComponents.components\" is required and must be an array"@),
        }
    } else {
        None
    }
}

/// The error (if any) of one A2UI message.
pub open spec fn validate_spec(msg: JsonView) -> Option<Seq<char>> {
    if !(msg is Object) {
        Some("expected a JSON object"@)
    } else if msg.get_str("version"@) is None {
        Some("missing required field \"version\""@)
    } else if msg.get_str("version"@).unwrap() != SUPPORTED_VERSION@ {
        Some(
            "unsupported version \""@ + msg.get_str("version"@).unwrap() + "\", expected \""@
                + SUPPORTED_VERSION@ + "\""@,
        )
    } else if present_types(msg).len() == 0 {
        Some(
            "missing message type; expected one of: createSurface, updateComponents, updateDataModel, deleteSurface"@,
        )
    } else if present_types(msg).len() > 1 {
        Some("multiple message types in one object: "@ + join_spec(present_types(msg), ", "@))
    } else {
        body_error(present_types(msg)[0], msg.get(present_types(msg)[0]).unwrap())
    }
}

/// Whether `c` is a well-formed component: an object with a string `id` and
/// a string `component`.
pub open spec fn component_ok(c: JsonView) -> bool {
    c is Object && c.get_str("id"@) is Some && c.get_str("component"@) is Some
}

proof fn lemma_component_error_found(comps: Seq<JsonView>, ci: nat, i: int)
    requires
        ci <= i < comps.len(),
        !component_ok(comps[i]),
    ensures
        component_error(comps, ci) is Some,
    decreases i - ci,
{
    if ci < i && component_ok(comps[ci as int]) {
        lemma_component_error_found(comps, ci + 1, i);
    }
}

proof fn lemma_component_error_none(comps: Seq<JsonView>, ci: nat)
    requires
        forall|i: int| ci <= i < comps.len() ==> component_ok(#[trigger] comps[i]),
    ensures
        component_error(comps, ci) is None,
    decreases comps.len() - ci,
{
    if ci < comps.len() {
        assert(component_ok(comps[ci as int]));
        lemma_component_error_none(comps, ci + 1);
    }
}

/// The verdict on an `updateComponents` message: one with the supported
/// version, no other message type, a non-empty string `surfaceId` and a
/// non-empty `components` list is accepted exactly when every component is
/// an object with a string `id` and a string `component`.
pub proof fn lemma_update_components_verdict(msg: JsonView, body: JsonView, comps: Seq<JsonView>)
    requires
        msg.get_str("version"@) == Some(SUPPORTED_VERSION@),
        msg.get(UPDATE_COMPONENTS@) == Some(body),
        !msg.has_key(CREATE_SURFACE@),
        !msg.has_key(UPDATE_DATA_MODEL@),
        !msg.has_key(DELETE_SURFACE@),
        body.get_str("surfaceId"@) matches Some(sid) && sid.len() > 0,
        body.get("components"@) == Some(JsonView::Array(comps)),
        comps.len() > 0,
    ensures
        validate_spec(msg) is None <==> forall|i: int| 0 <= i < comps.len() ==> component_ok(
            #[trigger] comps[i],
        ),
{
    reveal_strlit("createSurface");
    reveal_strlit("updateComponents");
    assert(UPDATE_COMPONENTS@ != CREATE_SURFACE@);
    assert(msg is Object);
    assert(present_types(msg) =~= seq![UPDATE_COMPONENTS@]);
    assert(body is Object);
    if forall|i: int| 0 <= i < comps.len() ==> component_ok(#[trigger] comps[i]) {
        lemma_component_error_none(comps, 0);
    } else {
        let i = choose|i: int| 0 <= i < comps.len() && !component_ok(#[trigger] comps[i]);
        lemma_component_error_found(comps, 0, i);
    }
}

/// Every component of an `updateComponents` message is checked: when any
/// component of its `components` list, wherever it stands, is not an object
/// with a string `id` and a string `component`, the message is invalid.
pub proof fn lemma_every_component_checked(msg: JsonView, body: JsonView, comps: Seq<JsonView>, i: int)
    requires
        msg.get(UPDATE_COMPONENTS@) == Some(body),
        body.get("components"@) == Some(JsonView::Array(comps)),
        0 <= i < comps.len(),
        !component_ok(comps[i]),
    ensures
        validate_spec(msg) is Some,
{
    lemma_component_error_found(comps, 0, i);
    reveal_strlit("createSurface");
    reveal_strlit("updateComponents");
    reveal_strlit("updateDataModel");
    reveal_strlit("deleteSurface");
    if msg is Object && msg.get_str("version"@) is Some && msg.get_str("version"@).unwrap()
        == SUPPORTED_VERSION@ && present_types(msg).len() == 1 {
        assert(msg.has_key(UPDATE_COMPONENTS@));
        assert(!msg.has_key(CREATE_SURFACE@));
        assert(present_types(msg)[0] == UPDATE_COMPONENTS@);
        assert(UPDATE_COMPONENTS@ != CREATE_SURFACE@);
        assert(body is Object);
    }
}

fn component_check(comps: &Vec<JsonValue>) -> (r: Option<String>)
    ensures
        match r {
            Some(m) => component_error(items_view(comps@), 0) == Some(m@),
            None => component_error(items_view(comps@), 0) is None,
        },
{
    proof {
        crate::json::lemma_items_view(comps@);
    }
    let ghost cv = items_view(comps@);
    let n = comps.len();
    let mut ci: usize = 0;
    while ci < n
        invariant
            n == comps@.len(),
            cv == items_view(comps@),
            cv.len() == n,
            forall|j: int| 0 <= j < n ==> #[trigger] cv[j] == comps@[j].view(),
            ci <= n,
            component_error(cv, 0) == component_error(cv, ci as nat),
        decreases n - ci,
    {
        let comp = &comps[ci];
        if !comp.is_object() {
            let mut s = String::from_str("\"updateComponents.components[");
            push_decimal(&mut s, ci as u64);
            s.append("]\" must be a JSON object");
            return Some(s);
        }
        if comp.get_str("id").is_none() {
            let mut s = String::from_str("\"updateComponents.components[");
            push_decimal(&mut s, ci as u64);
            s.append("].id\" is required");
            return Some(s);
        }
        if comp.get_str("component").is_none() {
            let mut s = String::from_str("\"updateComponents.components[");
            push_decimal(&mut s, ci as u64);
            s.append("].component\" is required");
            return Some(s);
        }
        ci = ci + 1;
    }
    None
}

fn body_check(tk: &'static str, body: &JsonValue) -> (r: Option<String>)
    ensures
        match r {
            Some(m) => body_error(tk@, body.view()) == Some(m@),
            None => body_error(tk@, body.view()) is None,
        },
{
    if !body.is_object() {
        let mut s = String::from_str("\"");
        s.append(tk);
        s.append("\" must be a JSON object");
        return Some(s);
    }
    match body.get_str("surfaceId") {
        None => {
            let mut s = String::from_str("\"");
            s.append(tk);
            s.append(".surfaceId\" is required");
            return Some(s);
        },
        Some(sid) => {
            if sid.is_empty() {
                let mut s = String::from_str("\"");
                s.append(tk);
                s.append(".surfaceId\" must not be empty");
                return Some(s);
            }
        },
    }
    if str_eq(tk, CREATE_SURFACE) {
        if body.get_str("catalogId").is_none() {
            return Some(String::from_str("\"createSurface.catalogId\" is required"));
        }
        None
    } else if str_eq(tk, UPDATE_COMPONENTS) {
        match body.get("components") {
            Some(JsonValue::Array(arr)) => {
                if arr.len() == 0 {
                    Some(String::from_str("\"updateComponents.components\" must not be empty"))
                } else {
                    component_check(arr)
                }
            },
            _ => Some(
                String::from_str("\"updateComponents.components\" is required and must be an array"),
            ),
        }
    } else {
        None
    }
}

/// Validate one A2UI message; `None` when it is valid.
fn validate_single(index: usize, msg: &JsonValue) -> (r: Option<A2uiValidationError>)
    ensures
        match r {
            Some(e) => e.index == index && validate_spec(msg.view()) == Some(e.message@),
            None => validate_spec(msg.view()) is None,
        },
{
    if !msg.is_object() {
        return Some(A2uiValidationError { index, message: String::from_str("expected a JSON object") });
    }
    match msg.get_str("version") {
        None => {
            return Some(
                A2uiValidationError {
                    index,
                    message: String::from_str("missing required field \"version\""),
                },
            );
        },
        Some(v) => {
            if !str_eq(v, SUPPORTED_VERSION) {
                let mut s = String::from_str("unsupported version \"");
                s.append(v);
                s.append("\", expected \"");
                s.append(SUPPORTED_VERSION);
                s.append("\"");
                return Some(A2uiValidationError { index, message: s });
            }
        },
    }
    let mut present: Vec<&'static str> = Vec::new();
    if msg.get(CREATE_SURFACE).is_some() {
        present.push(CREATE_SURFACE);
    }
    if msg.get(UPDATE_COMPONENTS).is_some() {
        present.push(UPDATE_COMPONENTS);
    }
    if msg.get(UPDATE_DATA_MODEL).is_some() {
        present.push(UPDATE_DATA_MODEL);
    }
    if msg.get(DELETE_SURFACE).is_some() {
        present.push(DELETE_SURFACE);
    }
    assert(present@.map_values(|s: &str| s@) =~= present_types(msg.view()));
    if present.len() == 0 {
        return Some(
            A2uiValidationError {
                index,
                message: String::from_str(
                    "missing message type; expected one of: createSurface, updateComponents, updateDataModel, deleteSurface",
                ),
            },
        );
    }
    if present.len() > 1 {
        let mut s = String::from_str("multiple message types in one object: ");
        let names = join_strs(&present, ", ");
        s.append(names.as_str());
        return Some(A2uiValidationError { index, message: s });
    }
    let tk = present[0];
    assert(tk@ == present_types(msg.view())[0]);
    let body = match msg.get(tk) {
        Some(b) => b,
        None => {
            assert(false);
            return None;
        },
    };
    match body_check(tk, body) {
        Some(m) => Some(A2uiValidationError { index, message: m }),
        None => None,
    }
}

/// The errors of a list of messages: one per invalid message, in order,
/// each tagged with the message's position.
pub open spec fn errors_spec(messages: Seq<JsonView>) -> Seq<(int, Seq<char>)>
    decreases messages.len(),
{
    if messages.len() == 0 {
        Seq::empty()
    } else {
        let prev = errors_spec(messages.drop_last());
        match validate_spec(messages.last()) {
            Some(m) => prev.push(((messages.len() - 1) as int, m)),
            None => prev,
        }
    }
}

/// Validate an array of A2UI messages.
///
/// Returns errors found (at most one per message). Empty `Vec` means all
/// messages are valid.
pub fn validate_a2ui_messages(messages: &[JsonValue]) -> (r: Vec<A2uiValidationError>)
    ensures
        r@.map_values(|e: A2uiValidationError| (e.index as int, e.message@)) == errors_spec(
            items_view(messages@),
        ),
{
    proof {
        crate::json::lemma_items_view(messages@);
    }
    let ghost mv = items_view(messages@);
    let mut out: Vec<A2uiValidationError> = Vec::new();
    let n = messages.len();
    let mut i: usize = 0;
    while i < n
        invariant
            n == messages@.len(),
            mv == items_view(messages@),
            mv.len() == n,
            forall|j: int| 0 <= j < n ==> #[trigger] mv[j] == messages@[j].view(),
            i <= n,
            out@.map_values(|e: A2uiValidationError| (e.index as int, e.message@)) == errors_spec(
                mv.subrange(0, i as int),
            ),
        decreases n - i,
    {
        proof {
            let p = mv.subrange(0, i + 1);
            assert(p.drop_last() =~= mv.subrange(0, i as int));
            assert(p.last() == mv[i as int]);
        }
        match validate_single(i, &messages[i]) {
            Some(e) => {
                let ghost prev = out@;
                out.push(e);
                assert(out@.map_values(|e: A2uiValidationError| (e.index as int, e.message@))
                    =~= prev.map_values(|e: A2uiValidationError| (e.index as int, e.message@)).push(
                    (i as int, e.message@),
                ));
            },
            None => {},
        }
        i = i + 1;
    }
    assert(mv.subrange(0, n as int) =~= mv);
    out
}


/// The error messages of a validation, in display form.
pub open spec fn error_displays(errs: Seq<(int, Seq<char>)>) -> Seq<Seq<char>> {
    errs.map_values(|e: (int, Seq<char>)| indexed("message["@, e.0 as nat, "]: "@) + e.1)
}

/// What the render tool's argument check answers for `args`.
pub open spec fn validate_args_spec(args: JsonView) -> Result<(), Seq<char>> {
    match args.get("messages"@) {
        Some(JsonView::Array(msgs)) => if msgs.len() == 0 {
            Err("messages array must not be empty"@)
        } else if errors_spec(msgs).len() == 0 {
            Ok(())
        } else {
            Err("A2UI validation failed: "@ + join_spec(error_displays(errors_spec(msgs)), "; "@))
        },
        _ => Err("missing required field \"messages\""@),
    }
}

/// Tool for rendering A2UI declarative UI.
///
/// The LLM calls this tool with an array of A2UI messages (v0.9). The tool
/// validates the structural integrity and returns the validated payload.
pub struct A2uiRenderTool {
    _private: (),
}

impl A2uiRenderTool {
    pub fn new() -> Self {
        A2uiRenderTool { _private: () }
    }

    /// The tool's descriptor.
    pub fn descriptor(&self) -> (d: ToolDescriptor)
        ensures
            d.id@ == A2UI_TOOL_ID@,
            d.name@ == A2UI_TOOL_NAME@,
            d.description@ == A2UI_TOOL_DESCRIPTION@,
    {
        ToolDescriptor::new(A2UI_TOOL_ID, A2UI_TOOL_NAME, A2UI_TOOL_DESCRIPTION)
    }

    /// Check the arguments: a non-empty `messages` array of valid A2UI messages.
    pub fn validate_args(&self, args: &JsonValue) -> (r: Result<(), ToolError>)
        ensures
            match validate_args_spec(args.view()) {
                Ok(()) => r is Ok,
                Err(m) => r matches Err(ToolError::InvalidArguments(e)) && e@ == m,
            },
    {
        let messages = match args.get("messages") {
            Some(JsonValue::Array(a)) => a,
            _ => {
                return Err(
                    ToolError::InvalidArguments(String::from_str("missing required field \"messages\"")),
                );
            },
        };
        if messages.len() == 0 {
            return Err(ToolError::InvalidArguments(String::from_str("messages array must not be empty")));
        }
        let errors = validate_a2ui_messages(messages.as_slice());
        if errors.len() == 0 {
            return Ok(());
        }
        let ghost errs = errors@.map_values(|e: A2uiValidationError| (e.index as int, e.message@));
        let ghost ds = error_displays(errs);
        let mut details = String::from_str("A2UI validation failed: ");
        let n = errors.len();
        let mut i: usize = 0;
        let mut joined = String::new();
        while i < n
            invariant
                n == errors@.len(),
                i <= n,
                errs == errors@.map_values(|e: A2uiValidationError| (e.index as int, e.message@)),
                ds == error_displays(errs),
                joined@ == join_spec(ds.subrange(0, i as int), "; "@),
            decreases n - i,
        {
            proof {
                let p = ds.subrange(0, i + 1);
                assert(p.drop_last() =~= ds.subrange(0, i as int));
                assert(p.last() == errors@[i as int].display_spec());
                if i == 0 {
                    assert(ds.subrange(0, 0) =~= Seq::<Seq<char>>::empty());
                }
            }
            if i > 0 {
                joined.append("; ");
            }
            let d = errors[i].to_display_string();
            joined.append(d.as_str());
            i = i + 1;
        }
        assert(ds.subrange(0, n as int) =~= ds);
        details.append(joined.as_str());
        Err(ToolError::InvalidArguments(details))
    }

    /// The tool result payload for a call: `{"a2ui": <messages>, "rendered": true}`,
    /// with an empty list when `messages` is absent or not an array.
    pub fn render_payload(&self, args: &JsonValue) -> (r: JsonValue)
        ensures
            r.view() == JsonView::Object(
                seq![
                    ("a2ui"@, match args.view().get("messages"@) {
                        Some(JsonView::Array(a)) => JsonView::Array(a),
                        _ => JsonView::Array(Seq::empty()),
                    }),
                    ("rendered"@, JsonView::Bool(true)),
                ],
            ),
    {
        let messages = match args.get("messages") {
            Some(m) => match m {
                JsonValue::Array(_) => crate::json::clone_json(m),
                _ => JsonValue::Array(Vec::new()),
            },
            None => JsonValue::Array(Vec::new()),
        };
        let mut fields: Vec<(String, JsonValue)> = Vec::new();
        fields.push((String::from_str("a2ui"), messages));
        fields.push((String::from_str("rendered"), JsonValue::Bool(true)));
        let r = JsonValue::Object(fields);
        proof {
            crate::json::lemma_fields_view(fields@);
            crate::json::lemma_items_view(Seq::<JsonValue>::empty());
            assert(crate::json::fields_view(fields@) =~= seq![
                ("a2ui"@, match args.view().get("messages"@) {
                    Some(JsonView::Array(a)) => JsonView::Array(a),
                    _ => JsonView::Array(Seq::empty()),
                }),
                ("rendered"@, JsonView::Bool(true)),
            ]);
        }
        r
    }
}

pub const A2UI_TOOL_DESCRIPTION: &'static str = "Sends A2UI JSON to the client to render declarative UI. Each message must be a v0.9 A2UI object with exactly one of: createSurface, updateComponents, updateDataModel, or deleteSurface.";

pub const CATALOG_PLACEHOLDER: &'static str = "{{CATALOG_ID}}";

pub const EXAMPLES_BEGIN: &'static str = "\n\n---BEGIN A2UI EXAMPLES---\n";

pub const EXAMPLES_END: &'static str = "\n---END A2UI EXAMPLES---";

/// The plugin instructions: the schema text with the catalog ID filled in,
/// followed by the examples block when examples are given.
pub open spec fn instructions_spec(catalog_id: Seq<char>, examples: Option<Seq<char>>) -> Seq<char> {
    replace_all(A2UI_SCHEMA_INSTRUCTIONS@, CATALOG_PLACEHOLDER@, catalog_id) + match examples {
        Some(e) => EXAMPLES_BEGIN@ + e + EXAMPLES_END@,
        None => Seq::empty(),
    }
}

fn build_instructions(catalog_id: &str, examples: Option<&str>) -> (r: String)
    ensures
        r@ == instructions_spec(catalog_id@, match examples {
            Some(e) => Some(e@),
            None => None,
        }),
{
    proof {
        reveal_strlit("{{CATALOG_ID}}");
    }
    let mut s = str_replace(A2UI_SCHEMA_INSTRUCTIONS, CATALOG_PLACEHOLDER, catalog_id);
    match examples {
        Some(ex) => {
            s.append(EXAMPLES_BEGIN);
            s.append(ex);
            s.append(EXAMPLES_END);
        },
        None => {},
    }
    s
}

/// A2UI plugin that provides the render tool and prompt instructions.
pub struct A2uiPlugin {
    instructions: String,
}

impl A2uiPlugin {
    /// The instructions this plugin injects.
    pub closed spec fn spec_instructions(&self) -> Seq<char> {
        self.instructions@
    }

    /// Create with a specific catalog ID.
    pub fn with_catalog_id(catalog_id: &str) -> (p: Self)
        ensures
            p.spec_instructions() == instructions_spec(catalog_id@, None),
    {
        A2uiPlugin { instructions: build_instructions(catalog_id, None) }
    }

    /// Create with a catalog ID and custom examples.
    pub fn with_catalog_and_examples(catalog_id: &str, examples: &str) -> (p: Self)
        ensures
            p.spec_instructions() == instructions_spec(catalog_id@, Some(examples@)),
    {
        A2uiPlugin { instructions: build_instructions(catalog_id, Some(examples)) }
    }

    /// Create with fully custom instructions.
    pub fn with_custom_instructions(instructions: String) -> (p: Self)
        ensures
            p.spec_instructions() == instructions@,
    {
        A2uiPlugin { instructions }
    }

    /// Returns the instructions that will be injected.
    pub fn instructions(&self) -> (r: &str)
        ensures
            r@ == self.spec_instructions(),
    {
        self.instructions.as_str()
    }

    pub fn descriptor(&self) -> (d: PluginDescriptor)
        ensures
            d.name == A2UI_PLUGIN_ID,
    {
        PluginDescriptor { name: A2UI_PLUGIN_ID }
    }
}

pub const A2UI_SCHEMA_INSTRUCTIONS: &'static str = r#"
## A2UI Declarative UI

You have access to the `render_a2ui` tool to send declarative UI to the client.
Call this tool with an array of A2UI v0.9 messages. Each message must be a JSON
object with `"version": "v0.9"` and exactly one of:

### Message Types

1. **createSurface** — Initialize a UI surface:
   ```json
   {"version": "v0.9", "createSurface": {"surfaceId": "<id>", "catalogId": "{{CATALOG_ID}}"}}
   ```

2. **updateComponents** — Define the component tree (flat adjacency list):
   ```json
   {"version": "v0.9", "updateComponents": {"surfaceId": "<id>", "components": [
     {"id": "root", "component": "Card", "child": "col"},
     {"id": "col", "component": "Column", "children": ["title", "input"]},
     {"id": "title", "component": "Text", "text": "Hello"},
     {"id": "input", "component": "TextField", "label": "Name", "value": {"path": "/name"}}
   ]}}
   ```

3. **updateDataModel** — Populate data for the surface:
   ```json
   {"version": "v0.9", "updateDataModel": {"surfaceId": "<id>", "path": "/", "value": {"name": ""}}}
   ```

4. **deleteSurface** — Remove a surface:
   ```json
   {"version": "v0.9", "deleteSurface": {"surfaceId": "<id>"}}
   ```

### Rules
- Always send `createSurface` first, then `updateComponents`, then `updateDataModel`.
- Components are a flat list; use `children` (array of IDs) or `child` (single ID) to form a tree.
- One component must have `"id": "root"`.
- Each component needs `"id"` and `"component"` (the type name from the catalog).
- Use `{"path": "/key"}` for data binding in component properties.
- Use `"action": {"event": {"name": "...", "context": {...}}}` on Button for user interactions.
"#;

} // verus!
