//! The planner: a search for the actions that take a state to a target.
//!
//! The search goes depth first. At each state it takes the changes that
//! part the state from the target, looks up the jobs for the path of each
//! change, and tries them in order. A job that applies gives a new state to
//! search from. Methods are expanded into their tasks, down to actions.
use super::distance::{distance_of, Distance};
use super::domain::{
    has_job, intent_of_job, planned, route_of_job, routes_log, Domain, PathSearchFailure,
    RouteModel,
};
use super::router::route_match;
use super::template::expand;
use super::workflow::{
    changes_of, distinct_ids, has_id, lemma_changes_of_concat, lemma_changes_of_reverse,
    lemma_distinct_ids_reverse, lemma_trail_of_concat, trail_of, unit_id, PlanModel, UnitModel,
    WorkUnit, Workflow,
};
use crate::context::{Context, ContextModel};
use crate::error::{Error, ErrorKind, InputError};
use crate::json::{apply_all, diff, json_diff, json_resolve, lemma_apply_all_concat, resolve};
use crate::patch::{ops_model, OpModel, PatchOp};
use crate::path::{args_model, bind, is_pointer, Path, PathArgs};
use crate::system::System;
use crate::task::handler::subtasks_model;
use crate::task::{
    Action, Handler, Intent, JobBody, Method, Subtask, SubtaskModel, Task, TaskModel,
};
use serde_json::Value;
use std::sync::Arc;
use vstd::prelude::*;

verus! {

/// How deep the search goes, and how deep methods nest, before the planner
/// gives up.
pub const MAX_DEPTH: u32 = 256;

/// Why a search, or a step of it, failed.
pub enum SearchError {
    /// A task failed while it was tried.
    TaskFailure { id: String, source: Error },
    /// The task does not apply to the state.
    ConditionFailed,
    /// The action is in the plan already, on the same state.
    LoopDetected,
    /// No plan was found.
    NotFound,
    /// The search went deeper than `MAX_DEPTH`.
    MaxDepthReached,
    /// Something that a correct domain does not run into.
    Unexpected(String),
}

/// Why a search failed, as plain values.
pub enum Failure {
    TaskFailure { id: Seq<char>, source: ErrorKind },
    ConditionFailed,
    LoopDetected,
    NotFound,
    MaxDepthReached,
    Unexpected,
}

impl View for SearchError {
    type V = Failure;

    open spec fn view(&self) -> Failure {
        match *self {
            SearchError::TaskFailure { id, source } => Failure::TaskFailure {
                id: id@,
                source: source@,
            },
            SearchError::ConditionFailed => Failure::ConditionFailed,
            SearchError::LoopDetected => Failure::LoopDetected,
            SearchError::NotFound => Failure::NotFound,
            SearchError::MaxDepthReached => Failure::MaxDepthReached,
            SearchError::Unexpected(_) => Failure::Unexpected,
        }
    }
}

impl Failure {
    /// Whether the failure only says that a candidate is to be skipped.
    pub open spec fn benign(self) -> bool {
        match self {
            Failure::TaskFailure { source, .. } => source == ErrorKind::ConditionFailed,
            Failure::LoopDetected => true,
            Failure::ConditionFailed => true,
            Failure::NotFound => true,
            _ => false,
        }
    }
}

impl SearchError {
    /// The error as text.
    pub open spec fn text(self) -> Seq<char> {
        match self {
            SearchError::TaskFailure { id, source } => "task "@ + id@
                + " failed during planning: "@ + source.text(),
            SearchError::ConditionFailed => "condition failed for task"@,
            SearchError::LoopDetected => "loop detected"@,
            SearchError::NotFound => "plan not found"@,
            SearchError::MaxDepthReached => "max search depth reached"@,
            SearchError::Unexpected(message) => "unexpected error: "@ + message@,
        }
    }

    /// Whether the error only says that a candidate is to be skipped.
    pub fn is_benign(&self) -> (r: bool)
        ensures
            r == self@.benign(),
    {
        match self {
            SearchError::TaskFailure { source, .. } => match source {
                Error::ConditionFailed => true,
                _ => false,
            },
            SearchError::LoopDetected => true,
            SearchError::ConditionFailed => true,
            SearchError::NotFound => true,
            _ => false,
        }
    }

    /// The error as text.
    pub fn to_string(&self) -> (r: String)
        ensures
            r@ == self.text(),
    {
        match self {
            SearchError::TaskFailure { id, source } => String::from_str("task ").concat(
                id.as_str(),
            ).concat(" failed during planning: ").concat(source.to_string().as_str()),
            SearchError::ConditionFailed => String::from_str("condition failed for task"),
            SearchError::LoopDetected => String::from_str("loop detected"),
            SearchError::NotFound => String::from_str("plan not found"),
            SearchError::MaxDepthReached => String::from_str("max search depth reached"),
            SearchError::Unexpected(message) => String::from_str("unexpected error: ").concat(
                message.as_str(),
            ),
        }
    }
}

/// No plan was found; why the search failed.
pub struct NotFound(pub SearchError);

/// What a step of the search gave, as plain values.
pub open spec fn outcome(r: Result<Workflow, SearchError>) -> Result<PlanModel, Failure> {
    match r {
        Ok(plan) => Ok(plan@),
        Err(e) => Err(e@),
    }
}

/// Whether `after` continues `before`: the units of `before` are the last
/// of `after`, and `after` has gathered, on top of what `before` had, the
/// changes of the units that are new.
pub open spec fn continues(after: PlanModel, before: PlanModel) -> bool {
    let added = after.dag.len() - before.dag.len();
    &&& added >= 0
    &&& after.dag.skip(added) == before.dag
    &&& after.pending == before.pending + trail_of(after.dag.take(added))
    &&& distinct_ids(before.dag) ==> distinct_ids(after.dag)
}

/// Every plan continues itself.
pub proof fn lemma_continues_itself(plan: PlanModel)
    ensures
        continues(plan, plan),
{
    assert(plan.dag.skip(0) == plan.dag);
    assert(plan.dag.take(0) == Seq::<UnitModel>::empty());
    assert(plan.pending + Seq::<OpModel>::empty() == plan.pending);
}

/// What continues a plan that continues another continues the other.
pub proof fn lemma_continues_transitive(last: PlanModel, middle: PlanModel, first: PlanModel)
    requires
        continues(last, middle),
        continues(middle, first),
    ensures
        continues(last, first),
{
    let late = last.dag.len() - middle.dag.len();
    let early = middle.dag.len() - first.dag.len();
    assert(last.dag.skip(late + early) == last.dag.skip(late).skip(early));
    let newest = last.dag.take(late);
    let newer = middle.dag.take(early);
    assert(last.dag.take(late + early) == newest + newer) by {
        assert forall|k: int| 0 <= k < late + early implies last.dag.take(late + early)[k] == (
        newest + newer)[k] by {
            if k >= late {
                assert(last.dag.skip(late)[k - late] == last.dag[k]);
            }
        }
        assert(last.dag.take(late + early) =~= newest + newer);
    }
    lemma_trail_of_concat(newest, newer);
    assert(first.pending + (trail_of(newer) + trail_of(newest)) == (first.pending + trail_of(
        newer,
    )) + trail_of(newest));
}

/// The arguments of a task with those of its parent bound over them, in
/// the parent's order: a task does not override what its parent fixed.
pub open spec fn inherit(
    args: Seq<(Seq<char>, Seq<char>)>,
    parent: Seq<(Seq<char>, Seq<char>)>,
) -> Seq<(Seq<char>, Seq<char>)>
    decreases parent.len(),
{
    if parent.len() == 0 {
        args
    } else {
        inherit(bind(args, parent[0].0, parent[0].1), parent.drop_first())
    }
}

/// The task that a method asks for: the job of that id in the domain, in
/// the sub-task's context with the parent's arguments, at the path that the
/// job's template gives with them. `NotFound` where the domain has no job of
/// that id; the failure of the task for bad input where the template has a
/// placeholder without an argument, or gives what is no pointer.
pub open spec fn subtask_task(
    routes: Seq<RouteModel>,
    parent: Seq<(Seq<char>, Seq<char>)>,
    sub: SubtaskModel,
) -> Result<TaskModel, Failure> {
    let args = inherit(sub.context.args, parent);
    if !has_job(routes, sub.id) {
        Err(Failure::NotFound)
    } else {
        let route = routes[route_of_job(routes, sub.id)];
        match expand(route.template, args) {
            Err(_) => Err(Failure::TaskFailure { id: sub.id, source: ErrorKind::InputError }),
            Ok(path) => if !is_pointer(path) {
                Err(Failure::TaskFailure { id: sub.id, source: ErrorKind::InputError })
            } else {
                Ok(
                    route.intents[intent_of_job(route.intents, sub.id)].job.task_in(
                        ContextModel { path, args, target: sub.context.target },
                    ),
                )
            },
        }
    }
}

/// What trying an action gives: the plan with the action at its head and
/// the action's changes gathered. `Unexpected` where the action's path does
/// not resolve in the state, `LoopDetected` where the plan holds the unit
/// already, the action's own failure, and `ConditionFailed` where the
/// action changes nothing and stands alone (`top`).
pub open spec fn plan_action(
    task: TaskModel,
    handler: Arc<Box<dyn Handler>>,
    state: Value,
    plan: PlanModel,
    top: bool,
) -> Result<PlanModel, Failure> {
    match unit_id(task, state) {
        None => Err(Failure::Unexpected),
        Some(id) => if has_id(plan.dag, id) {
            Err(Failure::LoopDetected)
        } else {
            match handler.projection(state, task.context) {
                Err(e) => Err(Failure::TaskFailure { id: task.id, source: e }),
                Ok(changes) => if top && changes.len() == 0 {
                    Err(Failure::ConditionFailed)
                } else {
                    Ok(
                        PlanModel {
                            dag: seq![UnitModel { id, task, changes }] + plan.dag,
                            pending: plan.pending + changes,
                        },
                    )
                },
            }
        },
    }
}

/// What trying a task on a state gives. An action is planned. A method is
/// expanded, its tasks are tried one after the other, each on the state
/// that the plan so far leads to; a method nested deeper than `MAX_DEPTH`
/// gives `MaxDepthReached`, and one that stands alone and changes nothing
/// gives `ConditionFailed`.
pub open spec fn try_task_spec(
    routes: Seq<RouteModel>,
    task: TaskModel,
    state: Value,
    plan: PlanModel,
    stack_len: nat,
) -> Result<PlanModel, Failure>
    decreases MAX_DEPTH - stack_len, 0nat, 0nat,
{
    match task.body {
        JobBody::Action(handler) => plan_action(task, handler, state, plan, stack_len == 0),
        JobBody::Method(handler) => if stack_len >= MAX_DEPTH {
            Err(Failure::MaxDepthReached)
        } else {
            match handler.expansion(state, task.context) {
                Err(e) => Err(Failure::TaskFailure { id: task.id, source: e }),
                Ok(subs) => match try_subtasks(
                    routes,
                    task.context.args,
                    subs,
                    0,
                    state,
                    plan,
                    stack_len + 1,
                ) {
                    Err(e) => Err(e),
                    Ok(after) => if stack_len == 0 && after.pending.len() == 0 {
                        Err(Failure::ConditionFailed)
                    } else {
                        Ok(after)
                    },
                },
            }
        },
    }
}

/// What trying the tasks of a method from the `i`-th on gives, with
/// `scratch` for state: each task is tried, and what the plan has gathered
/// is applied to the scratch state before the next.
pub open spec fn try_subtasks(
    routes: Seq<RouteModel>,
    parent: Seq<(Seq<char>, Seq<char>)>,
    subs: Seq<SubtaskModel>,
    i: nat,
    scratch: Value,
    plan: PlanModel,
    stack_len: nat,
) -> Result<PlanModel, Failure>
    decreases MAX_DEPTH - stack_len, 1nat, subs.len() - i,
{
    if i >= subs.len() {
        Ok(plan)
    } else {
        match subtask_task(routes, parent, subs[i as int]) {
            Err(e) => Err(e),
            Ok(task) => match try_task_spec(routes, task, scratch, plan, stack_len) {
                Err(e) => Err(e),
                Ok(after) => match apply_all(scratch, after.pending) {
                    None => Err(Failure::Unexpected),
                    Some(next) => try_subtasks(routes, parent, subs, i + 1, next, after, stack_len),
                },
            },
        }
    }
}

/// A state to search from, with the plan that leads to it.
pub struct Node {
    pub state: System,
    pub plan: Workflow,
}

/// A node of the search as plain values.
pub struct NodeModel {
    pub state: Value,
    pub plan: PlanModel,
}

impl View for Node {
    type V = NodeModel;

    open spec fn view(&self) -> NodeModel {
        NodeModel { state: self.state@, plan: self.plan@ }
    }
}

/// The nodes as plain values.
pub open spec fn nodes_model(nodes: Seq<Node>) -> Seq<NodeModel> {
    nodes.map_values(|n: Node| n@)
}

/// What one intent gives for a change at a node: the node that its task
/// leads to, nothing where the intent is for another kind of change or its
/// task is to be skipped, or the failure that ends the search.
pub open spec fn candidate(
    routes: Seq<RouteModel>,
    state: Value,
    plan: PlanModel,
    op: OpModel,
    context: ContextModel,
    intent: Intent,
) -> Result<Option<NodeModel>, Failure> {
    if !intent.operation.answers(op) {
        Ok(None)
    } else {
        match try_task_spec(routes, intent.job.task_in(context), state, plan, 0) {
            Ok(after) => if after.pending.len() == 0 {
                Ok(None)
            } else {
                match apply_all(state, after.pending) {
                    None => Err(Failure::Unexpected),
                    Some(next) => Ok(
                        Some(
                            NodeModel {
                                state: next,
                                plan: PlanModel { dag: after.dag, pending: Seq::empty() },
                            },
                        ),
                    ),
                }
            },
            Err(e) => if e.benign() {
                Ok(None)
            } else {
                Err(e)
            },
        }
    }
}

/// The nodes that the intents from the `k`-th on add to `found`.
pub open spec fn candidates(
    routes: Seq<RouteModel>,
    state: Value,
    plan: PlanModel,
    op: OpModel,
    context: ContextModel,
    intents: Seq<Intent>,
    k: nat,
    found: Seq<NodeModel>,
) -> Result<Seq<NodeModel>, Failure>
    decreases intents.len() - k,
{
    if k >= intents.len() {
        Ok(found)
    } else {
        match candidate(routes, state, plan, op, context, intents[k as int]) {
            Err(e) => Err(e),
            Ok(None) => candidates(routes, state, plan, op, context, intents, k + 1, found),
            Ok(Some(node)) => candidates(
                routes,
                state,
                plan,
                op,
                context,
                intents,
                k + 1,
                found.push(node),
            ),
        }
    }
}

/// The nodes that one change adds to `found`: those of the intents that the
/// domain has for the path of the change, each tried in the context of the
/// path, its arguments and the target at the path. `Unexpected` where the
/// domain has jobs for the path and the path does not resolve in the target.
pub open spec fn change_nodes(
    routes: Seq<RouteModel>,
    state: Value,
    target: Value,
    plan: PlanModel,
    op: OpModel,
    found: Seq<NodeModel>,
) -> Result<Seq<NodeModel>, Failure> {
    match route_match(routes_log(routes), op.path()) {
        None => Ok(found),
        Some(matched) => match json_resolve(target, op.path()) {
            Err(_) => Err(Failure::Unexpected),
            Ok(at_path) => candidates(
                routes,
                state,
                plan,
                op,
                ContextModel { path: op.path(), args: matched.1, target: at_path },
                planned(routes[matched.0 as int].intents),
                0,
                found,
            ),
        },
    }
}

/// The nodes that the changes from the `i`-th on add to `found`.
pub open spec fn nodes_from(
    routes: Seq<RouteModel>,
    state: Value,
    target: Value,
    plan: PlanModel,
    ops: Seq<OpModel>,
    i: nat,
    found: Seq<NodeModel>,
) -> Result<Seq<NodeModel>, Failure>
    decreases ops.len() - i,
{
    if i >= ops.len() {
        Ok(found)
    } else {
        match change_nodes(routes, state, target, plan, ops[i as int], found) {
            Err(e) => Err(e),
            Ok(more) => nodes_from(routes, state, target, plan, ops, i + 1, more),
        }
    }
}

/// What the search from a state gives: the plan so far, its units in the
/// order in which they run, where nothing parts the state from the target;
/// `MaxDepthReached` at depth `MAX_DEPTH`; else what the search from the new
/// nodes gives, the last of them first. The new nodes are those of the
/// distance between the state and the target.
pub open spec fn search(
    routes: Seq<RouteModel>,
    target: Value,
    state: Value,
    plan: PlanModel,
    depth: nat,
) -> Result<PlanModel, Failure>
    decreases MAX_DEPTH - depth, 0nat,
{
    if depth >= MAX_DEPTH {
        Err(Failure::MaxDepthReached)
    } else if json_diff(state, target).len() == 0 {
        Ok(PlanModel { dag: plan.dag.reverse(), pending: plan.pending })
    } else {
        match nodes_from(
            routes,
            state,
            target,
            plan,
            distance_of(json_diff(state, target), target),
            0,
            Seq::empty(),
        ) {
            Err(e) => Err(e),
            Ok(nodes) => search_from(routes, target, nodes, nodes.len(), depth + 1),
        }
    }
}

/// What the search from the first `k` nodes gives, the last of them first:
/// the first plan found, the first failure that is not `NotFound`, or
/// `NotFound` where every node is exhausted.
pub open spec fn search_from(
    routes: Seq<RouteModel>,
    target: Value,
    nodes: Seq<NodeModel>,
    k: nat,
    depth: nat,
) -> Result<PlanModel, Failure>
    decreases MAX_DEPTH - depth, k + 1,
{
    if k == 0 || k > nodes.len() {
        Err(Failure::NotFound)
    } else {
        match search(routes, target, nodes[k - 1].state, nodes[k - 1].plan, depth) {
            Ok(plan) => Ok(plan),
            Err(Failure::NotFound) => search_from(routes, target, nodes, (k - 1) as nat, depth),
            Err(e) => Err(e),
        }
    }
}

/// Whether a node follows from a state and its plan: its plan has new
/// units before those of the plan and nothing gathered, and its state is
/// what the changes of the new units make of the state.
pub open spec fn follows(node: NodeModel, state: Value, plan: PlanModel) -> bool {
    let added = node.plan.dag.len() - plan.dag.len();
    &&& node.plan.pending.len() == 0
    &&& added >= 0
    &&& node.plan.dag.skip(added) == plan.dag
    &&& apply_all(state, trail_of(node.plan.dag.take(added))) == Some(node.state)
    &&& distinct_ids(plan.dag) ==> distinct_ids(node.plan.dag)
}

/// Whether a workflow reaches the target from a state and its plan: it
/// starts with the units of the plan in the order in which they run, the
/// changes of its other units take the state to one that nothing parts from
/// the target, and it has gathered nothing.
pub open spec fn reaches(found: PlanModel, state: Value, plan: PlanModel, target: Value) -> bool {
    let done = plan.dag.len() as int;
    &&& found.pending.len() == 0
    &&& found.dag.len() >= done
    &&& found.dag.take(done) == plan.dag.reverse()
    &&& match apply_all(state, changes_of(found.dag.skip(done))) {
        Some(end) => json_diff(end, target).len() == 0,
        None => false,
    }
    &&& distinct_ids(plan.dag) ==> distinct_ids(found.dag)
}

/// A workflow that reaches the target from a node reaches it from where the
/// node follows.
pub proof fn lemma_reaches_through(
    found: PlanModel,
    node: NodeModel,
    state: Value,
    plan: PlanModel,
    target: Value,
)
    requires
        follows(node, state, plan),
        reaches(found, node.state, node.plan, target),
    ensures
        reaches(found, state, plan, target),
{
    let done = plan.dag.len() as int;
    let further = node.plan.dag.len() as int;
    let added = further - done;
    let fresh = node.plan.dag.take(added);
    assert(node.plan.dag == fresh + plan.dag) by {
        assert(node.plan.dag =~= fresh + node.plan.dag.skip(added));
    }
    assert(node.plan.dag.reverse() =~= plan.dag.reverse() + fresh.reverse());
    assert(found.dag.take(done) =~= found.dag.take(further).take(done));
    assert((plan.dag.reverse() + fresh.reverse()).take(done) =~= plan.dag.reverse());
    let rest = found.dag.skip(further);
    assert(found.dag.skip(done) =~= fresh.reverse() + rest) by {
        assert forall|k: int| 0 <= k < found.dag.len() - done implies found.dag.skip(done)[k] == (
        fresh.reverse() + rest)[k] by {
            if k < added {
                assert(found.dag.take(further)[done + k] == found.dag[done + k]);
            }
        }
    }
    lemma_changes_of_concat(fresh.reverse(), rest);
    lemma_changes_of_reverse(fresh);
    lemma_apply_all_concat(state, trail_of(fresh), changes_of(rest));
}

/// The context with the parent's arguments bound over its own.
fn inherit_args(context: Context, parent: &PathArgs) -> (r: Context)
    ensures
        r@ == (ContextModel { args: inherit(context@.args, parent@), ..context@ }),
{
    let pairs = parent.iter();
    let mut out = context;
    let mut i: usize = 0;
    proof {
        assert(parent@.skip(0) == parent@);
    }
    while i < pairs.len()
        invariant
            0 <= i <= pairs@.len(),
            args_model(pairs@) == parent@,
            out@.path == context@.path,
            out@.target == context@.target,
            inherit(context@.args, parent@) == inherit(out@.args, parent@.skip(i as int)),
        decreases pairs@.len() - i,
    {
        proof {
            assert(parent@.skip(i as int)[0] == parent@[i as int]);
            assert(parent@.skip(i as int).drop_first() == parent@.skip(i + 1));
            assert(parent@[i as int] == (pairs@[i as int].0@, pairs@[i as int].1@));
        }
        out = out.with_arg(pairs[i].0.as_str(), pairs[i].1.as_str());
        i += 1;
    }
    proof {
        assert(parent@.skip(i as int).len() == 0);
    }
    out
}

/// The task that a method asks for, found in the domain.
pub(crate) fn find_subtask(domain: &Domain, parent: &PathArgs, sub: &Subtask) -> (r: Result<
    Task,
    SearchError,
>)
    ensures
        match subtask_task(domain@, parent@, sub@) {
            Ok(task) => r is Ok && r->Ok_0@ == task,
            Err(e) => r is Err && r->Err_0@ == e,
        },
{
    let context = inherit_args(sub.context.clone(), parent);
    let path = match domain.find_path_for_job(sub.id.as_str(), &context.args) {
        Ok(path) => path,
        Err(e) => {
            return Err(
                match e.kind {
                    PathSearchFailure::JobNotFound => SearchError::NotFound,
                    PathSearchFailure::MissingArguments => SearchError::TaskFailure {
                        id: sub.id.clone(),
                        source: Error::BadInput(
                            InputError(
                                String::from_str("the path of the task misses arguments"),
                            ),
                        ),
                    },
                },
            );
        },
    };
    let path = match Path::parse(path.as_str()) {
        Some(path) => path,
        None => {
            return Err(
                SearchError::TaskFailure {
                    id: sub.id.clone(),
                    source: Error::BadInput(
                        InputError(String::from_str("the path of the task is no pointer")),
                    ),
                },
            );
        },
    };
    match domain.find_job(sub.id.as_str()) {
        Some(job) => Ok(job.build_task(context.with_path(path))),
        None => Err(SearchError::Unexpected(String::from_str("job not found"))),
    }
}

/// A planner for a domain.
pub struct Planner(pub Domain);

impl Planner {
    /// The planner for a domain.
    pub fn new(domain: Domain) -> (r: Planner)
        ensures
            r.0 == domain,
    {
        Planner(domain)
    }

    /// Tries an action on a state.
    fn plan_action(action: Action, state: &System, plan: Workflow, top: bool) -> (r: Result<
        Workflow,
        SearchError,
    >)
        ensures
            outcome(r) == plan_action(action@, action.handler, state@, plan@, top),
            r is Ok ==> continues(r->Ok_0@, plan@),
            r is Ok && plan.in_series() ==> r->Ok_0.in_series(),
    {
        let id = match WorkUnit::new_id(&action, state.root()) {
            Some(id) => id,
            None => {
                return Err(
                    SearchError::Unexpected(
                        String::from_str("failed to resolve the path of task ").concat(
                            action.id.as_str(),
                        ),
                    ),
                );
            },
        };
        if plan.contains(id.as_str()) {
            return Err(SearchError::LoopDetected);
        }
        let changes = match action.dry_run(state) {
            Ok(patch) => patch.0,
            Err(e) => {
                return Err(SearchError::TaskFailure { id: action.id.clone(), source: e });
            },
        };
        if top && changes.len() == 0 {
            return Err(SearchError::ConditionFailed);
        }
        let ghost before = plan@;
        let ghost unit = UnitModel { id: id@, task: action@, changes: ops_model(changes@) };
        let after = plan.with_changes(&changes).with_head(WorkUnit::new(id, action, changes));
        proof {
            let grown = seq![unit] + before.dag;
            assert(grown.skip(1) == before.dag);
            assert(grown.take(1) == seq![unit]);
            assert(seq![unit][0] == unit);
            assert(seq![unit].drop_first() == Seq::<UnitModel>::empty());
            assert(trail_of(seq![unit].drop_first()) == Seq::<OpModel>::empty());
            assert(trail_of(seq![unit]) == Seq::<OpModel>::empty() + unit.changes);
            assert(Seq::<OpModel>::empty() + unit.changes == unit.changes);
            if distinct_ids(before.dag) {
                assert forall|i: int, j: int| 0 <= i < j < grown.len() implies (
                #[trigger] grown[i]).id != (#[trigger] grown[j]).id by {
                    assert(grown[j] == before.dag[j - 1]);
                    if i > 0 {
                        assert(grown[i] == before.dag[i - 1]);
                    }
                }
            }
        }
        Ok(after)
    }

    /// Tries a task on a state, with the plan so far: the plan that takes
    /// the task in, or why the task is not taken.
    pub fn try_task(&self, task: Task, cur_state: &System, cur_plan: Workflow, stack_len: u32) -> (r:
        Result<Workflow, SearchError>)
        ensures
            outcome(r) == try_task_spec(
                self.0@,
                task@,
                cur_state@,
                cur_plan@,
                stack_len as nat,
            ),
            r is Ok ==> continues(r->Ok_0@, cur_plan@),
            r is Ok && cur_plan.in_series() ==> r->Ok_0.in_series(),
        decreases MAX_DEPTH - stack_len, 0nat, 0nat,
    {
        match task {
            Task::Action(action) => Self::plan_action(action, cur_state, cur_plan, stack_len == 0),
            Task::Method(method) => {
                if stack_len >= MAX_DEPTH {
                    return Err(SearchError::MaxDepthReached);
                }
                let subs = match method.expand(cur_state) {
                    Ok(subs) => subs,
                    Err(e) => {
                        return Err(SearchError::TaskFailure { id: method.id.clone(), source: e });
                    },
                };
                let after = match self.try_subtasks(
                    &method,
                    &subs,
                    0,
                    cur_state.clone(),
                    cur_plan,
                    stack_len + 1,
                ) {
                    Ok(after) => after,
                    Err(e) => {
                        return Err(e);
                    },
                };
                if stack_len == 0 && after.pending().len() == 0 {
                    return Err(SearchError::ConditionFailed);
                }
                Ok(after)
            },
        }
    }

    /// Tries the tasks of a method from the `i`-th on, with `scratch` for
    /// state.
    fn try_subtasks(
        &self,
        method: &Method,
        subs: &Vec<Subtask>,
        i: usize,
        scratch: System,
        plan: Workflow,
        stack_len: u32,
    ) -> (r: Result<Workflow, SearchError>)
        requires
            i <= subs.len(),
        ensures
            outcome(r) == try_subtasks(
                self.0@,
                method.context@.args,
                subtasks_model(subs@),
                i as nat,
                scratch@,
                plan@,
                stack_len as nat,
            ),
            r is Ok ==> continues(r->Ok_0@, plan@),
            r is Ok && plan.in_series() ==> r->Ok_0.in_series(),
        decreases MAX_DEPTH - stack_len, 1nat, subs.len() - i,
    {
        let ghost before = plan@;
        if i >= subs.len() {
            proof {
                lemma_continues_itself(before);
            }
            return Ok(plan);
        }
        proof {
            assert(subtasks_model(subs@)[i as int] == subs@[i as int]@);
        }
        let task = match find_subtask(&self.0, &method.context.args, &subs[i]) {
            Ok(task) => task,
            Err(e) => {
                return Err(e);
            },
        };
        let after = match self.try_task(task, &scratch, plan, stack_len) {
            Ok(after) => after,
            Err(e) => {
                return Err(e);
            },
        };
        let mut scratch = scratch;
        match scratch.apply(after.pending()) {
            Ok(()) => {},
            Err(_) => {
                return Err(SearchError::Unexpected(String::from_str("failed to patch system state")));
            },
        }
        let ghost middle = after@;
        let r = self.try_subtasks(method, subs, i + 1, scratch, after, stack_len);
        proof {
            if r is Ok {
                lemma_continues_transitive(r->Ok_0@, middle, before);
            }
        }
        r
    }

    /// What one intent gives for a change at a node.
    fn candidate(
        &self,
        state: &System,
        plan: &Workflow,
        op: &PatchOp,
        context: &Context,
        intent: &Intent,
    ) -> (r: Result<Option<Node>, SearchError>)
        requires
            plan@.pending.len() == 0,
        ensures
            match candidate(self.0@, state@, plan@, op@, context@, *intent) {
                Ok(Some(node)) => r is Ok && r->Ok_0 is Some && r->Ok_0->0@ == node,
                Ok(None) => r is Ok && r->Ok_0 is None,
                Err(e) => r is Err && r->Err_0@ == e,
            },
            r is Ok && r->Ok_0 is Some ==> follows(r->Ok_0->0@, state@, plan@),
            r is Ok && r->Ok_0 is Some && plan.in_series() ==> r->Ok_0->0.plan.in_series(),
    {
        if !intent.operation.matches(op) {
            return Ok(None);
        }
        let task = intent.job.build_task(context.clone());
        match self.try_task(task, state, plan.clone(), 0) {
            Ok(after) => {
                if after.pending().len() == 0 {
                    return Ok(None);
                }
                let mut next = state.clone();
                match next.apply(after.pending()) {
                    Ok(()) => {},
                    Err(_) => {
                        return Err(
                            SearchError::Unexpected(
                                String::from_str("failed to patch system state"),
                            ),
                        );
                    },
                }
                proof {
                    assert(Seq::<OpModel>::empty() + trail_of(
                        after@.dag.take(after@.dag.len() - plan@.dag.len()),
                    ) == trail_of(after@.dag.take(after@.dag.len() - plan@.dag.len())));
                }
                Ok(Some(Node { state: next, plan: after.settled() }))
            },
            Err(e) => if e.is_benign() {
                Ok(None)
            } else {
                Err(e)
            },
        }
    }

    /// The nodes that one change adds to `found`.
    fn change_nodes(
        &self,
        state: &System,
        target: &Value,
        plan: &Workflow,
        op: &PatchOp,
        found: Vec<Node>,
    ) -> (r: Result<Vec<Node>, SearchError>)
        requires
            plan@.pending.len() == 0,
            forall|n: int| 0 <= n < found@.len() ==> follows((#[trigger] found@[n])@, state@, plan@),
            plan.in_series() ==> forall|n: int|
                0 <= n < found@.len() ==> (#[trigger] found@[n]).plan.in_series(),
        ensures
            match change_nodes(self.0@, state@, *target, plan@, op@, nodes_model(found@)) {
                Ok(nodes) => r is Ok && nodes_model(r->Ok_0@) == nodes,
                Err(e) => r is Err && r->Err_0@ == e,
            },
            r is Ok ==> forall|n: int|
                0 <= n < r->Ok_0@.len() ==> follows((#[trigger] r->Ok_0@[n])@, state@, plan@),
            r is Ok && plan.in_series() ==> forall|n: int|
                0 <= n < r->Ok_0@.len() ==> (#[trigger] r->Ok_0@[n]).plan.in_series(),
    {
        let (args, intents) = match self.0.find_jobs_at(op.path().to_str()) {
            Some(matched) => matched,
            None => {
                return Ok(found);
            },
        };
        let at_path = match resolve(target, op.path()) {
            Ok(at_path) => at_path.clone(),
            Err(_) => {
                return Err(
                    SearchError::Unexpected(
                        String::from_str("failed to resolve path on the target: ").concat(
                            op.path().to_str(),
                        ),
                    ),
                );
            },
        };
        let context = Context { path: op.path().clone(), args, target: at_path };
        let ghost routes = self.0@;
        let ghost tried = intents@.map_values(|i: &Intent| *i);
        let ghost start = nodes_model(found@);
        let mut nodes = found;
        let mut k: usize = 0;
        assert(change_nodes(routes, state@, *target, plan@, op@, start) == candidates(
            routes,
            state@,
            plan@,
            op@,
            context@,
            tried,
            0,
            start,
        ));
        while k < intents.len()
            invariant
                0 <= k <= intents.len(),
                plan@.pending.len() == 0,
                routes == self.0@,
                tried == intents@.map_values(|i: &Intent| *i),
                start == nodes_model(found@),
                change_nodes(routes, state@, *target, plan@, op@, start) == candidates(
                    routes,
                    state@,
                    plan@,
                    op@,
                    context@,
                    tried,
                    0,
                    start,
                ),
                forall|n: int|
                    0 <= n < nodes@.len() ==> follows((#[trigger] nodes@[n])@, state@, plan@),
                plan.in_series() ==> forall|n: int|
                    0 <= n < nodes@.len() ==> (#[trigger] nodes@[n]).plan.in_series(),
                candidates(routes, state@, plan@, op@, context@, tried, 0, start) == candidates(
                    routes,
                    state@,
                    plan@,
                    op@,
                    context@,
                    tried,
                    k as nat,
                    nodes_model(nodes@),
                ),
            decreases intents.len() - k,
        {
            proof {
                assert(tried[k as int] == *intents@[k as int]);
            }
            let ghost seen = nodes_model(nodes@);
            match self.candidate(state, plan, op, &context, intents[k]) {
                Ok(Some(node)) => {
                    nodes.push(node);
                    assert(nodes_model(nodes@) =~= seen.push(node@));
                },
                Ok(None) => {},
                Err(e) => {
                    return Err(e);
                },
            }
            k += 1;
        }
        Ok(nodes)
    }

    /// The nodes that follow from a node: for each change that parts its
    /// state from the target, those of the jobs for the path of the change.
    fn nodes(&self, state: &System, target: &Value, plan: &Workflow, ops: &Vec<PatchOp>) -> (r:
        Result<Vec<Node>, SearchError>)
        requires
            plan@.pending.len() == 0,
        ensures
            match nodes_from(
                self.0@,
                state@,
                *target,
                plan@,
                ops_model(ops@),
                0,
                Seq::empty(),
            ) {
                Ok(nodes) => r is Ok && nodes_model(r->Ok_0@) == nodes,
                Err(e) => r is Err && r->Err_0@ == e,
            },
            r is Ok ==> forall|n: int|
                0 <= n < r->Ok_0@.len() ==> follows((#[trigger] r->Ok_0@[n])@, state@, plan@),
            r is Ok && plan.in_series() ==> forall|n: int|
                0 <= n < r->Ok_0@.len() ==> (#[trigger] r->Ok_0@[n]).plan.in_series(),
    {
        let ghost routes = self.0@;
        let mut found: Vec<Node> = Vec::new();
        let mut i: usize = 0;
        proof {
            assert(nodes_model(found@) =~= Seq::<NodeModel>::empty());
        }
        while i < ops.len()
            invariant
                0 <= i <= ops.len(),
                plan@.pending.len() == 0,
                routes == self.0@,
                forall|n: int|
                    0 <= n < found@.len() ==> follows((#[trigger] found@[n])@, state@, plan@),
                plan.in_series() ==> forall|n: int|
                    0 <= n < found@.len() ==> (#[trigger] found@[n]).plan.in_series(),
                nodes_from(routes, state@, *target, plan@, ops_model(ops@), 0, Seq::empty())
                    == nodes_from(
                    routes,
                    state@,
                    *target,
                    plan@,
                    ops_model(ops@),
                    i as nat,
                    nodes_model(found@),
                ),
            decreases ops.len() - i,
        {
            proof {
                assert(ops_model(ops@)[i as int] == ops@[i as int]@);
            }
            found = match self.change_nodes(state, target, plan, &ops[i], found) {
                Ok(more) => more,
                Err(e) => {
                    return Err(e);
                },
            };
            i += 1;
        }
        Ok(found)
    }

    /// Searches from a state with the plan that leads to it.
    fn search(&self, target: &Value, state: System, plan: Workflow, depth: u32) -> (r: Result<
        Workflow,
        SearchError,
    >)
        requires
            depth <= MAX_DEPTH,
            plan@.pending.len() == 0,
        ensures
            outcome(r) == search(self.0@, *target, state@, plan@, depth as nat),
            r is Ok ==> reaches(r->Ok_0@, state@, plan@, *target),
            depth < MAX_DEPTH && state@ == *target ==> r is Ok && r->Ok_0@.dag
                == plan@.dag.reverse(),
            r is Ok && plan.in_series() ==> r->Ok_0.in_series(),
        decreases MAX_DEPTH - depth, 0nat,
    {
        if depth >= MAX_DEPTH {
            return Err(SearchError::MaxDepthReached);
        }
        let distance = diff(state.root(), target);
        if distance.len() == 0 {
            proof {
                let done = plan@.dag.reverse();
                assert(done.take(done.len() as int) == done);
                assert(done.skip(done.len() as int) == Seq::<UnitModel>::empty());
                if distinct_ids(plan@.dag) {
                    lemma_distinct_ids_reverse(plan@.dag);
                }
            }
            return Ok(plan.reverse());
        }
        let distance = Distance::of(&distance, target);
        let nodes = match self.nodes(&state, target, &plan, distance.iter()) {
            Ok(nodes) => nodes,
            Err(e) => {
                return Err(e);
            },
        };
        let ghost series = plan.in_series();
        self.search_from(target, nodes, depth + 1, Ghost(state@), Ghost(plan@), Ghost(series))
    }

    /// Searches from the nodes, the last of them first.
    fn search_from(
        &self,
        target: &Value,
        nodes: Vec<Node>,
        depth: u32,
        Ghost(state): Ghost<Value>,
        Ghost(plan): Ghost<PlanModel>,
        Ghost(series): Ghost<bool>,
    ) -> (r: Result<Workflow, SearchError>)
        requires
            depth <= MAX_DEPTH,
            forall|n: int| 0 <= n < nodes@.len() ==> follows((#[trigger] nodes@[n])@, state, plan),
            series ==> forall|n: int|
                0 <= n < nodes@.len() ==> (#[trigger] nodes@[n]).plan.in_series(),
        ensures
            outcome(r) == search_from(
                self.0@,
                *target,
                nodes_model(nodes@),
                nodes@.len(),
                depth as nat,
            ),
            r is Ok ==> reaches(r->Ok_0@, state, plan, *target),
            r is Ok && series ==> r->Ok_0.in_series(),
        decreases MAX_DEPTH - depth, nodes@.len() + 1,
    {
        let ghost all = nodes_model(nodes@);
        let mut rest = nodes;
        let node = match rest.pop() {
            Some(node) => node,
            None => {
                return Err(SearchError::NotFound);
            },
        };
        proof {
            assert(all[all.len() - 1] == node@);
            assert(nodes_model(rest@) =~= all.take(all.len() - 1));
            lemma_search_from_prefix(self.0@, *target, all, (all.len() - 1) as nat, depth as nat);
        }
        let ghost here = node@;
        match self.search(target, node.state, node.plan, depth) {
            Ok(found) => {
                proof {
                    lemma_reaches_through(found@, here, state, plan, *target);
                }
                Ok(found)
            },
            Err(SearchError::NotFound) => self.search_from(
                target,
                rest,
                depth,
                Ghost(state),
                Ghost(plan),
                Ghost(series),
            ),
            Err(e) => Err(e),
        }
    }

    /// Searches for the workflow that takes the state to the target. The
    /// workflow that comes back has its units one after the other, in the
    /// order in which they run, no two with the same id; their changes, applied in that order,
    /// take the state to one that nothing parts from the target. A state that
    /// is the target needs no unit.
    pub fn find_workflow(&self, system: &System, target: &Value) -> (r: Result<
        Workflow,
        SearchError,
    >)
        ensures
            outcome(r) == search(
                self.0@,
                *target,
                system@,
                PlanModel { dag: Seq::empty(), pending: Seq::empty() },
                0,
            ),
            r is Ok ==> {
                &&& r->Ok_0@.pending.len() == 0
                &&& r->Ok_0.in_series()
                &&& distinct_ids(r->Ok_0@.dag)
                &&& match apply_all(system@, changes_of(r->Ok_0@.dag)) {
                    Some(end) => json_diff(end, *target).len() == 0,
                    None => false,
                }
            },
            system@ == *target ==> r is Ok && r->Ok_0@.dag.len() == 0,
    {
        let plan = Workflow::default();
        proof {
            assert(plan@.dag =~= Seq::<UnitModel>::empty());
            assert(plan@.pending =~= Seq::<OpModel>::empty());
        }
        let r = self.search(target, system.clone(), plan, 0);
        proof {
            if r is Ok {
                assert(r->Ok_0@.dag.skip(0) == r->Ok_0@.dag);
            }
        }
        r
    }

    /// Finds the plan that takes the current state to the target: the
    /// first that the search comes to. The workflow that comes back has its
    /// units one after the other, in the order in which they run, no two
    /// with the same id; their
    /// changes, applied in that order, take the state to one that nothing
    /// parts from the target. A state that is the target needs no unit.
    pub fn find_plan(&self, cur: Value, tgt: Value) -> (r: Result<Workflow, NotFound>)
        ensures
            returned(r) == plan_of(self.0@, cur, tgt),
            r is Ok ==> {
                &&& r->Ok_0@.pending.len() == 0
                &&& r->Ok_0.in_series()
                &&& distinct_ids(r->Ok_0@.dag)
                &&& match apply_all(cur, changes_of(r->Ok_0@.dag)) {
                    Some(end) => json_diff(end, tgt).len() == 0,
                    None => false,
                }
            },
            cur == tgt ==> r is Ok && r->Ok_0@.dag.len() == 0,
    {
        let system = System::new(cur);
        match self.find_workflow(&system, &tgt) {
            Ok(plan) => Ok(plan),
            Err(e) => Err(NotFound(e)),
        }
    }
}

/// The plan for a state and a target in a domain: what the search from the
/// state gives, with no unit planned.
pub open spec fn plan_of(routes: Seq<RouteModel>, cur: Value, tgt: Value) -> Result<
    PlanModel,
    Failure,
> {
    search(routes, tgt, cur, PlanModel { dag: Seq::empty(), pending: Seq::empty() }, 0)
}

/// What `find_plan` returned, as plain values.
pub open spec fn returned(r: Result<Workflow, NotFound>) -> Result<PlanModel, Failure> {
    match r {
        Ok(plan) => Ok(plan@),
        Err(e) => Err(e.0@),
    }
}

/// The planner is deterministic: two calls of `find_plan` with the same
/// domain, the same state and the same target return the same workflow, or
/// fail in the same way.
pub proof fn lemma_same_inputs_same_plan(
    routes: Seq<RouteModel>,
    cur: Value,
    tgt: Value,
    first: Result<Workflow, NotFound>,
    second: Result<Workflow, NotFound>,
)
    requires
        returned(first) == plan_of(routes, cur, tgt),
        returned(second) == plan_of(routes, cur, tgt),
    ensures
        returned(first) == returned(second),
{
}

/// The search from the first `k` nodes looks at those nodes only.
pub proof fn lemma_search_from_prefix(
    routes: Seq<RouteModel>,
    target: Value,
    nodes: Seq<NodeModel>,
    k: nat,
    depth: nat,
)
    requires
        k <= nodes.len(),
    ensures
        search_from(routes, target, nodes, k, depth) == search_from(
            routes,
            target,
            nodes.take(k as int),
            k,
            depth,
        ),
    decreases k,
{
    if k > 0 {
        let fewer = nodes.take(k as int);
        assert(fewer[k - 1] == nodes[k - 1]);
        lemma_search_from_prefix(routes, target, nodes, (k - 1) as nat, depth);
        lemma_search_from_prefix(routes, target, fewer, (k - 1) as nat, depth);
        assert(fewer.take(k - 1) == nodes.take(k - 1));
    }
}

} // verus!
