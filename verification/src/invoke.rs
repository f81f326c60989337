//! Invocation planning and the call lifecycle: resolving the requested tool
//! case-insensitively, building its arguments, deciding whether to send an
//! argument payload at all, the prompts owed for missing required
//! parameters, and the state machine one invocation moves through.

use vstd::prelude::*;

use crate::chars::trimmed;
use crate::params::{assoc_get, ParamMap};
use crate::schema::{
    build_arguments_from_schema, find_tool_case_insensitive, hint_of, spec_build_arguments,
    spec_find_tool, ArgValue, ArgValueModel, BuildError, SchemaPropertyModel, ToolDescriptor,
    ToolDescriptorModel, ToolSchemaModel,
};

verus! {

/// Why an invocation cannot be planned.
#[derive(Debug, Clone, PartialEq, Eq)]
pub enum InvokeError {
    /// No discovered tool matches the requested name, ignoring ASCII case;
    /// carries the requested name.
    ToolNotFound(String),
    /// A required parameter is missing; carries the first such parameter's
    /// name, in schema order.
    MissingRequired(String),
}

/// A fully planned call: the resolved tool's own name, and the argument
/// payload — `None` where the built argument object is empty, so that no
/// empty object is sent.
#[derive(Debug, Clone)]
pub struct CallPlan {
    pub tool_name: String,
    pub arguments: Option<Vec<(String, ArgValue)>>,
}

/// Resolve the requested tool against the discovered list and build its
/// arguments: the first case-insensitive name match is taken; its schema
/// drives coercion and the required-parameter check; an empty argument
/// object is turned into no payload at all.
pub fn plan_call(tools: &Vec<ToolDescriptor>, requested: &str, provided: &ParamMap) -> (r: Result<
    CallPlan,
    InvokeError,
>)
    ensures
        ({
            let models = tools@.map_values(|t: ToolDescriptor| t@);
            match r {
                Ok(plan) => {
                    &&& spec_find_tool(models, requested@) matches Some(i)
                    &&& plan.tool_name@ == models[spec_find_tool(models, requested@)->0].name
                    &&& spec_build_arguments(
                        models[spec_find_tool(models, requested@)->0].schema,
                        provided@,
                    ) matches Ok(args)
                    &&& {
                        let args = spec_build_arguments(
                            models[spec_find_tool(models, requested@)->0].schema,
                            provided@,
                        )->Ok_0;
                        if args.len() == 0 {
                            plan.arguments is None
                        } else {
                            plan.arguments matches Some(v) && v@.map_values(
                                |e: (String, ArgValue)| (e.0@, e.1@),
                            ) == args
                        }
                    }
                },
                Err(e) => match e {
                    InvokeError::ToolNotFound(n) => n@ == requested@ && spec_find_tool(
                        models,
                        requested@,
                    ) is None,
                    InvokeError::MissingRequired(n) => {
                        &&& spec_find_tool(models, requested@) matches Some(i)
                        &&& spec_build_arguments(
                            models[spec_find_tool(models, requested@)->0].schema,
                            provided@,
                        ) == Err::<Seq<(Seq<char>, ArgValueModel)>, _>(n@)
                    },
                },
            }
        }),
{
    let tool = match find_tool_case_insensitive(tools, requested) {
        Some(t) => t,
        None => {
            return Err(InvokeError::ToolNotFound(requested.to_owned()));
        },
    };
    match build_arguments_from_schema(tool, provided) {
        Err(BuildError::MissingRequired(name)) => Err(InvokeError::MissingRequired(name)),
        Ok(args) => {
            if args.len() == 0 {
                Ok(CallPlan { tool_name: tool.name.clone(), arguments: None })
            } else {
                Ok(CallPlan { tool_name: tool.name.clone(), arguments: Some(args) })
            }
        },
    }
}

/// The properties a caller still owes answers for: every schema property, in
/// declared order, that is listed as required and absent from the provided
/// map.
pub open spec fn spec_missing_required(
    schema: ToolSchemaModel,
    provided: Seq<(Seq<char>, Seq<char>)>,
) -> Seq<SchemaPropertyModel> {
    schema.properties.filter(
        |p: SchemaPropertyModel| schema.required.contains(p.name) && assoc_get(
            provided,
            p.name,
        ) is None,
    )
}

/// The required-and-missing properties of a tool, as (name, declared type)
/// pairs for prompting; the type reads `string` where none is declared. A
/// tool without a schema owes nothing.
pub fn missing_required_params(tool: &ToolDescriptor, provided: &ParamMap) -> (r: Vec<
    (String, String),
>)
    ensures
        ({
            match tool@.schema {
                Option::None => r@.len() == 0,
                Option::Some(s) => {
                    let miss = spec_missing_required(s, provided@);
                    &&& r@.len() == miss.len()
                    &&& forall|i: int|
                        0 <= i < miss.len() ==> (#[trigger] r@[i]).0@ == miss[i].name && r@[i].1@
                            == hint_of(miss[i].ptype)
                },
            }
        }),
{
    let mut r: Vec<(String, String)> = Vec::new();
    let schema = match &tool.schema {
        Option::None => {
            return r;
        },
        Option::Some(s) => s,
    };
    let ghost pred = |p: SchemaPropertyModel|
        schema@.required.contains(p.name) && assoc_get(provided@, p.name) is None;
    let np = schema.properties.len();
    let mut i: usize = 0;
    while i < np
        invariant
            0 <= i <= np,
            np == schema.properties.len(),
            pred == (|p: SchemaPropertyModel|
                schema@.required.contains(p.name) && assoc_get(provided@, p.name) is None),
            ({
                let miss = schema@.properties.subrange(0, i as int).filter(pred);
                &&& r@.len() == miss.len()
                &&& forall|k: int|
                    0 <= k < miss.len() ==> (#[trigger] r@[k]).0@ == miss[k].name && r@[k].1@
                        == hint_of(miss[k].ptype)
            }),
        decreases np - i,
    {
        let ghost pre = schema@.properties.subrange(0, i as int);
        proof {
            assert(schema@.properties.subrange(0, i + 1) =~= pre.push(
                schema@.properties[i as int],
            ));
            reveal_with_fuel(Seq::filter, 2);
            assert(pre.push(schema@.properties[i as int]).drop_last() =~= pre);
        }
        let prop = &schema.properties[i];
        let is_required = crate::schema::required_contains(&schema.required, prop.name.as_str());
        if is_required && !provided.contains_key(prop.name.as_str()) {
            let ptype: String = match &prop.ptype {
                Option::Some(t) => t.clone(),
                Option::None => {
                    let s = String::from_str("string");
                    proof {
                        reveal_strlit("string");
                        assert("string"@ =~= seq!['s', 't', 'r', 'i', 'n', 'g']);
                    }
                    s
                },
            };
            r.push((prop.name.clone(), ptype));
        }
        i = i + 1;
    }
    proof {
        assert(schema@.properties.subrange(0, np as int) =~= schema@.properties);
    }
    r
}

/// What an interactive answer yields: the trimmed input, or nothing where
/// only whitespace was entered — an empty answer is rejected and asked
/// again.
pub fn accept_prompt_input(line: &str) -> (r: Option<String>)
    ensures
        match r {
            Some(v) => v@ == trimmed(line@) && trimmed(line@).len() > 0,
            None => trimmed(line@).len() == 0,
        },
{
    let t = crate::chars::trim_str(line);
    if t.as_str().unicode_len() == 0 {
        None
    } else {
        Some(t)
    }
}

/// The states one invocation moves through, in order; `Failed` is absorbing
/// and reachable from every non-terminal state.
#[derive(Debug, Clone, Copy, PartialEq, Eq, Structural)]
pub enum InvocationState {
    Idle,
    Spawned,
    Discovered,
    ArgumentsBuilt,
    Invoked,
    ShutDown,
    Failed,
}

/// The events an invocation reacts to. Shutdown has a single event whatever
/// the attempt's outcome: a failure to shut down cleanly is swallowed and
/// never turns a successful invocation into a failure.
#[derive(Debug, Clone, Copy, PartialEq, Eq, Structural)]
pub enum InvocationEvent {
    SpawnSucceeded,
    SpawnFailed,
    DiscoverySucceeded,
    DiscoveryFailed,
    ArgumentsAccepted,
    ArgumentsRejected,
    CallSucceeded,
    CallFailed,
    ShutdownAttempted,
}

/// The transition table of one invocation: spawn, then discovery, then
/// argument building, then the call, then a shutdown attempt; each step's
/// failure moves to `Failed`, except shutdown, whose one event always
/// reaches `ShutDown`. An event that does not belong to the current state
/// leaves the state unchanged.
pub open spec fn spec_invocation_step(s: InvocationState, e: InvocationEvent) -> InvocationState {
    match (s, e) {
        (InvocationState::Idle, InvocationEvent::SpawnSucceeded) => InvocationState::Spawned,
        (InvocationState::Idle, InvocationEvent::SpawnFailed) => InvocationState::Failed,
        (InvocationState::Spawned, InvocationEvent::DiscoverySucceeded) => InvocationState::Discovered,
        (InvocationState::Spawned, InvocationEvent::DiscoveryFailed) => InvocationState::Failed,
        (InvocationState::Discovered, InvocationEvent::ArgumentsAccepted) => InvocationState::ArgumentsBuilt,
        (InvocationState::Discovered, InvocationEvent::ArgumentsRejected) => InvocationState::Failed,
        (InvocationState::ArgumentsBuilt, InvocationEvent::CallSucceeded) => InvocationState::Invoked,
        (InvocationState::ArgumentsBuilt, InvocationEvent::CallFailed) => InvocationState::Failed,
        (InvocationState::Invoked, InvocationEvent::ShutdownAttempted) => InvocationState::ShutDown,
        (_, _) => s,
    }
}

/// Advance the invocation state machine by one event.
pub fn invocation_step(s: InvocationState, e: InvocationEvent) -> (r: InvocationState)
    ensures
        r == spec_invocation_step(s, e),
{
    match (s, e) {
        (InvocationState::Idle, InvocationEvent::SpawnSucceeded) => InvocationState::Spawned,
        (InvocationState::Idle, InvocationEvent::SpawnFailed) => InvocationState::Failed,
        (InvocationState::Spawned, InvocationEvent::DiscoverySucceeded) => InvocationState::Discovered,
        (InvocationState::Spawned, InvocationEvent::DiscoveryFailed) => InvocationState::Failed,
        (InvocationState::Discovered, InvocationEvent::ArgumentsAccepted) => InvocationState::ArgumentsBuilt,
        (InvocationState::Discovered, InvocationEvent::ArgumentsRejected) => InvocationState::Failed,
        (InvocationState::ArgumentsBuilt, InvocationEvent::CallSucceeded) => InvocationState::Invoked,
        (InvocationState::ArgumentsBuilt, InvocationEvent::CallFailed) => InvocationState::Failed,
        (InvocationState::Invoked, InvocationEvent::ShutdownAttempted) => InvocationState::ShutDown,
        (_, _) => s,
    }
}

/// Law: the lifecycle is ordered. Each state past `Idle` is entered through
/// exactly one event fired in exactly one predecessor state: spawn always
/// precedes discovery, discovery precedes argument building, building
/// precedes the call, and the call precedes shutdown.
pub proof fn lemma_lifecycle_order(s: InvocationState, e: InvocationEvent)
    ensures
        spec_invocation_step(s, e) == InvocationState::Spawned && s != InvocationState::Spawned
            ==> s == InvocationState::Idle && e == InvocationEvent::SpawnSucceeded,
        spec_invocation_step(s, e) == InvocationState::Discovered && s
            != InvocationState::Discovered ==> s == InvocationState::Spawned && e
            == InvocationEvent::DiscoverySucceeded,
        spec_invocation_step(s, e) == InvocationState::ArgumentsBuilt && s
            != InvocationState::ArgumentsBuilt ==> s == InvocationState::Discovered && e
            == InvocationEvent::ArgumentsAccepted,
        spec_invocation_step(s, e) == InvocationState::Invoked && s != InvocationState::Invoked
            ==> s == InvocationState::ArgumentsBuilt && e == InvocationEvent::CallSucceeded,
        spec_invocation_step(s, e) == InvocationState::ShutDown && s != InvocationState::ShutDown
            ==> s == InvocationState::Invoked && e == InvocationEvent::ShutdownAttempted,
{
}

/// Law: a shutdown attempt is never a failure. From `Invoked`, the one
/// shutdown event reaches `ShutDown`; no event moves `Invoked` to `Failed`.
pub proof fn lemma_shutdown_swallowed(e: InvocationEvent)
    ensures
        spec_invocation_step(InvocationState::Invoked, InvocationEvent::ShutdownAttempted)
            == InvocationState::ShutDown,
        spec_invocation_step(InvocationState::Invoked, e) != InvocationState::Failed,
{
}

} // verus!
