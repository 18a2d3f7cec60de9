//! The domain: which jobs are registered at which path templates.
use super::router::{
    route_accepted, route_match, router_at, router_clone, router_insert, router_new,
    router_routes, MAX_PARAMETERS,
};
use super::template::{count_openers, expand, expand_template, names_model, openers};
use crate::path::PathArgs;
use crate::task::intent::{key_before, lemma_key_before_total, lemma_key_before_transitive};
use crate::task::{Intent, Job, Operation};
use crate::text::same_text;
use matchit::Router;
use vstd::prelude::*;

verus! {

/// Why no path was found for a job.
#[derive(Clone, Copy, PartialEq, Eq, Structural)]
pub enum PathSearchFailure {
    /// The domain has no job of that id.
    JobNotFound,
    /// The template of the job has placeholders that no argument fills.
    MissingArguments,
}

/// No path was found for a job.
pub struct PathSearchError {
    pub kind: PathSearchFailure,
    /// The id of the job that was looked for.
    pub job_id: String,
    /// The placeholders without an argument.
    pub missing: Vec<String>,
}

/// Why a job was not added to a domain.
#[derive(Clone, Copy, PartialEq, Eq, Structural)]
pub enum DomainError {
    /// The domain holds a job of that id already.
    DuplicateJob,
    /// The router does not take the route.
    InvalidRoute,
}

/// A path template with the intents registered at it.
pub struct Route {
    pub template: String,
    pub intents: Vec<Intent>,
}

/// A route as plain values.
pub struct RouteModel {
    pub template: Seq<char>,
    pub intents: Seq<Intent>,
}

impl View for Route {
    type V = RouteModel;

    open spec fn view(&self) -> RouteModel {
        RouteModel { template: self.template@, intents: self.intents@ }
    }
}

/// The routes as plain values.
pub open spec fn routes_model(routes: Seq<Route>) -> Seq<RouteModel> {
    routes.map_values(|r: Route| r@)
}

/// Whether the intents are in the order in which they are tried.
pub open spec fn in_order(intents: Seq<Intent>) -> bool {
    forall|i: int, j: int|
        0 <= i < j < intents.len() ==> key_before(
            (#[trigger] intents[i]).key(),
            (#[trigger] intents[j]).key(),
        )
}

/// Whether one of the intents is for the job `id`.
pub open spec fn holds_job(intents: Seq<Intent>, id: Seq<char>) -> bool {
    exists|k: int| 0 <= k < intents.len() && (#[trigger] intents[k]).job.id@ == id
}

/// Whether the job `id` is registered in one of the routes.
pub open spec fn has_job(routes: Seq<RouteModel>, id: Seq<char>) -> bool {
    exists|i: int| 0 <= i < routes.len() && holds_job((#[trigger] routes[i]).intents, id)
}

/// The index of the first route whose intents hold the job `id`, or the
/// number of routes.
pub open spec fn route_of_job(routes: Seq<RouteModel>, id: Seq<char>) -> int
    decreases routes.len(),
{
    if routes.len() == 0 {
        0
    } else if holds_job(routes[0].intents, id) {
        0
    } else {
        1 + route_of_job(routes.drop_first(), id)
    }
}

/// The index of the first intent for the job `id`, or the number of intents.
pub open spec fn intent_of_job(intents: Seq<Intent>, id: Seq<char>) -> int
    decreases intents.len(),
{
    if intents.len() == 0 {
        0
    } else if intents[0].job.id@ == id {
        0
    } else {
        1 + intent_of_job(intents.drop_first(), id)
    }
}

/// The index of the first route with the template `route`, or the number
/// of routes.
pub open spec fn route_index(routes: Seq<RouteModel>, route: Seq<char>) -> int
    decreases routes.len(),
{
    if routes.len() == 0 {
        0
    } else if routes[0].template == route {
        0
    } else {
        1 + route_index(routes.drop_first(), route)
    }
}

/// The number of intents at the head of `intents` that are tried before
/// `intent`: where `intent` goes among them.
pub open spec fn rank_in(intents: Seq<Intent>, intent: Intent) -> int
    decreases intents.len(),
{
    if intents.len() == 0 || !key_before(intents[0].key(), intent.key()) {
        0
    } else {
        1 + rank_in(intents.drop_first(), intent)
    }
}

/// What the router holds for the routes: each template with its index.
pub open spec fn routes_log(routes: Seq<RouteModel>) -> Seq<(Seq<char>, usize)> {
    Seq::new(routes.len(), |i: int| (routes[i].template, i as usize))
}

/// Whether `intent` can be added at `route`: no job of its id is
/// registered, and the route is there already, or it has fewer opening
/// braces than the router has parameter names and the router takes it.
pub open spec fn can_add(routes: Seq<RouteModel>, route: Seq<char>, intent: Intent) -> bool {
    &&& !has_job(routes, intent.job.id@)
    &&& route_index(routes, route) < routes.len() || (openers(route, 0) < MAX_PARAMETERS
        && route_accepted(routes_log(routes), route))
}

/// The routes with `intent` added at `route`: in its place among the
/// intents of the route, or alone in a new route at the end.
pub open spec fn add_job(routes: Seq<RouteModel>, route: Seq<char>, intent: Intent) -> Seq<
    RouteModel,
> {
    let i = route_index(routes, route);
    if i < routes.len() {
        routes.update(
            i,
            RouteModel {
                template: routes[i].template,
                intents: routes[i].intents.insert(rank_in(routes[i].intents, intent), intent),
            },
        )
    } else {
        routes.push(RouteModel { template: route, intents: seq![intent] })
    }
}

/// Whether the intents can be added at `route` one after the other.
pub open spec fn can_add_all(routes: Seq<RouteModel>, route: Seq<char>, intents: Seq<Intent>) -> bool
    decreases intents.len(),
{
    intents.len() == 0 || (can_add(routes, route, intents[0]) && can_add_all(
        add_job(routes, route, intents[0]),
        route,
        intents.drop_first(),
    ))
}

/// The routes with the intents added at `route` one after the other.
pub open spec fn add_all(routes: Seq<RouteModel>, route: Seq<char>, intents: Seq<Intent>) -> Seq<
    RouteModel,
>
    decreases intents.len(),
{
    if intents.len() == 0 {
        routes
    } else {
        add_all(add_job(routes, route, intents[0]), route, intents.drop_first())
    }
}

/// The error of the first of the intents that cannot be added at `route`,
/// where they are added one after the other; `None` where all can be.
pub open spec fn first_refusal(
    routes: Seq<RouteModel>,
    route: Seq<char>,
    intents: Seq<Intent>,
) -> Option<DomainError>
    decreases intents.len(),
{
    if intents.len() == 0 {
        None
    } else if has_job(routes, intents[0].job.id@) {
        Some(DomainError::DuplicateJob)
    } else if !can_add(routes, route, intents[0]) {
        Some(DomainError::InvalidRoute)
    } else {
        first_refusal(add_job(routes, route, intents[0]), route, intents.drop_first())
    }
}

/// The intents that are planned with: all but those for `Nothing`, in order.
pub open spec fn planned(intents: Seq<Intent>) -> Seq<Intent> {
    intents.filter(|i: Intent| i.operation != Operation::Nothing)
}

/// What holds of the routes of every domain: a template stands once, each
/// route has its intents in order, and a job is registered once.
pub open spec fn well_formed(routes: Seq<RouteModel>) -> bool {
    &&& forall|i: int, j: int|
        0 <= i < j < routes.len() ==> (#[trigger] routes[i]).template != (
        #[trigger] routes[j]).template
    &&& forall|i: int| 0 <= i < routes.len() ==> in_order((#[trigger] routes[i]).intents)
    &&& forall|i: int, j: int, k: int, l: int|
        0 <= i < routes.len() && 0 <= j < routes.len() && 0 <= k < routes[i].intents.len() && 0
            <= l < routes[j].intents.len() && (i != j || k != l) ==> (
        #[trigger] routes[i].intents[k]).job.id@ != (#[trigger] routes[j].intents[l]).job.id@
}

/// The index of a template is the first that holds it.
pub proof fn lemma_route_index(routes: Seq<RouteModel>, route: Seq<char>)
    ensures
        0 <= route_index(routes, route) <= routes.len(),
        route_index(routes, route) < routes.len() ==> routes[route_index(routes, route)].template
            == route,
        forall|i: int| 0 <= i < route_index(routes, route) ==> (#[trigger] routes[i]).template != route,
    decreases routes.len(),
{
    if routes.len() > 0 && routes[0].template != route {
        let rest = routes.drop_first();
        lemma_route_index(rest, route);
        assert forall|i: int| 0 <= i < route_index(routes, route) implies (
        #[trigger] routes[i]).template != route by {
            if i > 0 {
                assert(routes[i] == rest[i - 1]);
            }
        }
    }
}

/// The first index that holds a template is its index.
pub proof fn lemma_route_index_is(routes: Seq<RouteModel>, route: Seq<char>, k: int)
    requires
        0 <= k <= routes.len(),
        forall|i: int| 0 <= i < k ==> (#[trigger] routes[i]).template != route,
        k < routes.len() ==> routes[k].template == route,
    ensures
        route_index(routes, route) == k,
{
    lemma_route_index(routes, route);
}

/// The index of the intent of a job is the first that holds the job, and it
/// is among the intents where one of them is for the job.
pub proof fn lemma_intent_of_job(intents: Seq<Intent>, id: Seq<char>)
    ensures
        0 <= intent_of_job(intents, id) <= intents.len(),
        intent_of_job(intents, id) < intents.len() ==> intents[intent_of_job(intents, id)].job.id@
            == id,
        forall|k: int| 0 <= k < intent_of_job(intents, id) ==> (#[trigger] intents[k]).job.id@ != id,
        intent_of_job(intents, id) < intents.len() <==> holds_job(intents, id),
    decreases intents.len(),
{
    if intents.len() > 0 && intents[0].job.id@ != id {
        let rest = intents.drop_first();
        lemma_intent_of_job(rest, id);
        assert forall|k: int| 0 <= k < intent_of_job(intents, id) implies (
        #[trigger] intents[k]).job.id@ != id by {
            if k > 0 {
                assert(intents[k] == rest[k - 1]);
            }
        }
        if holds_job(rest, id) {
            let k = choose|k: int| 0 <= k < rest.len() && (#[trigger] rest[k]).job.id@ == id;
            assert(intents[k + 1] == rest[k]);
        }
        if holds_job(intents, id) {
            let k = choose|k: int| 0 <= k < intents.len() && (#[trigger] intents[k]).job.id@ == id;
            assert(rest[k - 1] == intents[k]);
        }
    } else if intents.len() > 0 {
        assert(intents[0].job.id@ == id);
    }
}

/// The route of a job is the first that holds the job, and it is among the
/// routes where the job is registered.
pub proof fn lemma_route_of_job(routes: Seq<RouteModel>, id: Seq<char>)
    ensures
        0 <= route_of_job(routes, id) <= routes.len(),
        route_of_job(routes, id) < routes.len() ==> holds_job(
            routes[route_of_job(routes, id)].intents,
            id,
        ),
        forall|i: int|
            0 <= i < route_of_job(routes, id) ==> !holds_job((#[trigger] routes[i]).intents, id),
        route_of_job(routes, id) < routes.len() <==> has_job(routes, id),
    decreases routes.len(),
{
    if routes.len() > 0 && !holds_job(routes[0].intents, id) {
        let rest = routes.drop_first();
        lemma_route_of_job(rest, id);
        assert forall|i: int| 0 <= i < route_of_job(routes, id) implies !holds_job(
            (#[trigger] routes[i]).intents,
            id,
        ) by {
            if i > 0 {
                assert(routes[i] == rest[i - 1]);
            }
        }
        if has_job(rest, id) {
            let i = choose|i: int| 0 <= i < rest.len() && holds_job((#[trigger] rest[i]).intents, id);
            assert(routes[i + 1] == rest[i]);
        }
        if has_job(routes, id) {
            let i = choose|i: int|
                0 <= i < routes.len() && holds_job((#[trigger] routes[i]).intents, id);
            assert(rest[i - 1] == routes[i]);
        }
    } else if routes.len() > 0 {
        assert(holds_job(routes[0].intents, id));
    }
}

/// The rank of an intent: those before it are tried before it, and the one at
/// it is not.
pub proof fn lemma_rank_in(intents: Seq<Intent>, intent: Intent)
    ensures
        0 <= rank_in(intents, intent) <= intents.len(),
        forall|k: int|
            0 <= k < rank_in(intents, intent) ==> key_before(
                (#[trigger] intents[k]).key(),
                intent.key(),
            ),
        rank_in(intents, intent) < intents.len() ==> !key_before(
            intents[rank_in(intents, intent)].key(),
            intent.key(),
        ),
    decreases intents.len(),
{
    if intents.len() > 0 && key_before(intents[0].key(), intent.key()) {
        let rest = intents.drop_first();
        lemma_rank_in(rest, intent);
        assert forall|k: int| 0 <= k < rank_in(intents, intent) implies key_before(
            (#[trigger] intents[k]).key(),
            intent.key(),
        ) by {
            if k > 0 {
                assert(intents[k] == rest[k - 1]);
            }
        }
    }
}

/// Intents in order stay in order when one for a new job goes in at its rank.
pub proof fn lemma_insert_in_order(intents: Seq<Intent>, intent: Intent)
    requires
        in_order(intents),
        !holds_job(intents, intent.job.id@),
    ensures
        in_order(intents.insert(rank_in(intents, intent), intent)),
{
    lemma_rank_in(intents, intent);
    let p = rank_in(intents, intent);
    let after = intents.insert(p, intent);
    assert forall|i: int, j: int| 0 <= i < j < after.len() implies key_before(
        (#[trigger] after[i]).key(),
        (#[trigger] after[j]).key(),
    ) by {
        if j < p {
            assert(after[i] == intents[i] && after[j] == intents[j]);
        } else if j == p {
            assert(after[i] == intents[i]);
        } else if i == p {
            assert(after[j] == intents[j - 1]);
            assert(intents[p].job.id@ != intent.job.id@);
            lemma_key_before_total(intents[p].key(), intent.key());
            if j - 1 > p {
                lemma_key_before_transitive(intent.key(), intents[p].key(), intents[j - 1].key());
            }
        } else if i < p {
            assert(after[i] == intents[i]);
            assert(after[j] == intents[j - 1]);
        } else {
            assert(after[i] == intents[i - 1]);
            assert(after[j] == intents[j - 1]);
        }
    }
}

/// The index of the first route with the template `route`.
fn find_route(routes: &Vec<Route>, route: &str) -> (r: usize)
    ensures
        r == route_index(routes_model(routes@), route@),
        r <= routes.len(),
{
    let mut i: usize = 0;
    while i < routes.len()
        invariant
            0 <= i <= routes.len(),
            forall|j: int| 0 <= j < i ==> (#[trigger] routes_model(routes@)[j]).template != route@,
        decreases routes.len() - i,
    {
        if same_text(routes[i].template.as_str(), route) {
            proof {
                lemma_route_index_is(routes_model(routes@), route@, i as int);
            }
            return i;
        }
        i += 1;
    }
    proof {
        lemma_route_index_is(routes_model(routes@), route@, i as int);
    }
    i
}

/// The index of the first intent for the job `id`.
fn find_intent(intents: &Vec<Intent>, id: &str) -> (r: usize)
    ensures
        r == intent_of_job(intents@, id@),
        r <= intents.len(),
        r < intents.len() <==> holds_job(intents@, id@),
{
    proof {
        lemma_intent_of_job(intents@, id@);
    }
    let mut i: usize = 0;
    while i < intents.len()
        invariant
            0 <= i <= intents.len(),
            i <= intent_of_job(intents@, id@),
        decreases intents.len() - i,
    {
        if same_text(intents[i].job.id.as_str(), id) {
            proof {
                lemma_intent_of_job(intents@, id@);
            }
            return i;
        }
        proof {
            lemma_intent_of_job(intents@, id@);
        }
        i += 1;
    }
    i
}

/// The index of the first route that holds the job `id`.
fn find_job_route(routes: &Vec<Route>, id: &str) -> (r: usize)
    ensures
        r == route_of_job(routes_model(routes@), id@),
        r <= routes.len(),
        r < routes.len() <==> has_job(routes_model(routes@), id@),
{
    proof {
        lemma_route_of_job(routes_model(routes@), id@);
    }
    let mut i: usize = 0;
    while i < routes.len()
        invariant
            0 <= i <= routes.len(),
            i <= route_of_job(routes_model(routes@), id@),
        decreases routes.len() - i,
    {
        proof {
            lemma_route_of_job(routes_model(routes@), id@);
            assert(routes_model(routes@)[i as int].intents == routes@[i as int].intents@);
        }
        if find_intent(&routes[i].intents, id) < routes[i].intents.len() {
            return i;
        }
        i += 1;
    }
    i
}

/// Where `intent` goes among the intents.
fn find_rank(intents: &Vec<Intent>, intent: &Intent) -> (r: usize)
    ensures
        r == rank_in(intents@, *intent),
        r <= intents.len(),
{
    let mut i: usize = 0;
    proof {
        assert(intents@.skip(0) == intents@);
    }
    while i < intents.len()
        invariant
            0 <= i <= intents.len(),
            rank_in(intents@, *intent) == i + rank_in(intents@.skip(i as int), *intent),
        decreases intents.len() - i,
    {
        proof {
            assert(intents@.skip(i as int)[0] == intents@[i as int]);
            assert(intents@.skip(i as int).drop_first() == intents@.skip(i + 1));
        }
        if !intents[i].before(intent) {
            return i;
        }
        i += 1;
    }
    proof {
        assert(intents@.skip(i as int).len() == 0);
    }
    i
}

/// The jobs of a planner, each registered at a path template for an
/// operation.
pub struct Domain {
    router: Router<usize>,
    routes: Vec<Route>,
}

impl View for Domain {
    type V = Seq<RouteModel>;

    closed spec fn view(&self) -> Seq<RouteModel> {
        routes_model(self.routes@)
    }
}

impl Domain {
    #[verifier::type_invariant]
    spec fn consistent(self) -> bool {
        &&& well_formed(routes_model(self.routes@))
        &&& router_routes(self.router) == routes_log(routes_model(self.routes@))
    }

    /// The domain without jobs.
    pub fn new() -> (r: Domain)
        ensures
            r@.len() == 0,
    {
        let router = router_new();
        let routes: Vec<Route> = Vec::new();
        assert(router_routes(router) =~= routes_log(routes_model(routes@)));
        Domain { router, routes }
    }

    /// The routes of the domain, in the order in which they came. A
    /// template stands once, each route has its intents in order, and a job
    /// is registered once.
    pub fn routes(&self) -> (r: &Vec<Route>)
        ensures
            routes_model(r@) == self@,
            well_formed(self@),
    {
        proof {
            use_type_invariant(self);
        }
        &self.routes
    }

    /// Adds a job to the domain: the intent goes to its place among those of
    /// the route, and a route that is new goes to the router.
    pub fn job(self, route: &str, intent: Intent) -> (r: Domain)
        requires
            can_add(self@, route@, intent),
        ensures
            r@ == add_job(self@, route@, intent),
    {
        proof {
            use_type_invariant(&self);
        }
        let ghost before = self@;
        let Domain { mut router, mut routes } = self;
        let index = find_route(&routes, route);
        proof {
            lemma_route_index(before, route@);
        }
        if index < routes.len() {
            let rank = find_rank(&routes[index].intents, &intent);
            proof {
                lemma_rank_in(before[index as int].intents, intent);
                assert(before[index as int].intents == routes@[index as int].intents@);
                assert(!holds_job(before[index as int].intents, intent.job.id@));
                lemma_insert_in_order(before[index as int].intents, intent);
            }
            routes[index].intents.insert(rank, intent);
            proof {
                let after = routes_model(routes@);
                assert(after =~= add_job(before, route@, intent));
                lemma_add_keeps_well_formed(before, route@, intent);
                assert(routes_log(after) =~= routes_log(before));
            }
        } else {
            let accepted = router_insert(&mut router, route, index);
            assert(accepted is Ok);
            let mut intents: Vec<Intent> = Vec::new();
            intents.push(intent);
            routes.push(Route { template: String::from_str(route), intents });
            proof {
                let after = routes_model(routes@);
                assert(after =~= add_job(before, route@, intent));
                lemma_add_keeps_well_formed(before, route@, intent);
                assert(routes_log(after) =~= routes_log(before).push((route@, index)));
            }
        }
        Domain { router, routes }
    }

    /// Adds the jobs to the domain, one after the other.
    pub fn jobs(self, route: &str, intents: Vec<Intent>) -> (r: Domain)
        requires
            can_add_all(self@, route@, intents@),
        ensures
            r@ == add_all(self@, route@, intents@),
    {
        let mut domain = self;
        let mut rest = intents;
        let n = rest.len();
        let mut i: usize = 0;
        while i < n
            invariant
                n == intents@.len(),
                0 <= i <= n,
                rest@ == intents@.skip(i as int),
                can_add_all(domain@, route@, rest@),
                add_all(domain@, route@, rest@) == add_all(self@, route@, intents@),
            decreases n - i,
        {
            let intent = rest.remove(0);
            proof {
                assert(rest@ == intents@.skip(i as int).drop_first());
                assert(intents@.skip(i as int).drop_first() == intents@.skip(i + 1));
                assert(intent == intents@.skip(i as int)[0]);
            }
            domain = domain.job(route, intent);
            i += 1;
        }
        domain
    }

    /// Adds a job to the domain where that can be done: `DuplicateJob` where
    /// a job of that id is registered, `InvalidRoute` where the route is new
    /// and has too many opening braces, or the router does not take it.
    pub fn try_job(self, route: &str, intent: Intent) -> (r: Result<Domain, DomainError>)
        ensures
            match r {
                Ok(domain) => can_add(self@, route@, intent) && domain@ == add_job(
                    self@,
                    route@,
                    intent,
                ),
                Err(DomainError::DuplicateJob) => has_job(self@, intent.job.id@),
                Err(DomainError::InvalidRoute) => !has_job(self@, intent.job.id@) && !can_add(
                    self@,
                    route@,
                    intent,
                ),
            },
    {
        proof {
            use_type_invariant(&self);
        }
        if find_job_route(&self.routes, intent.job.id.as_str()) < self.routes.len() {
            return Err(DomainError::DuplicateJob);
        }
        if find_route(&self.routes, route) >= self.routes.len() {
            if count_openers(route) >= MAX_PARAMETERS {
                return Err(DomainError::InvalidRoute);
            }
            let mut probe = router_clone(&self.router);
            if router_insert(&mut probe, route, 0).is_err() {
                return Err(DomainError::InvalidRoute);
            }
        }
        let mut intents: Vec<Intent> = Vec::new();
        intents.push(intent);
        proof {
            lemma_route_index(self@, route@);
            assert(intents@[0] == intent);
            assert(intents@.drop_first().len() == 0);
            assert(can_add(self@, route@, intent));
            assert(can_add_all(add_job(self@, route@, intent), route@, intents@.drop_first()));
            assert(can_add_all(self@, route@, intents@));
            assert(add_all(add_job(self@, route@, intent), route@, intents@.drop_first())
                == add_job(self@, route@, intent));
        }
        Ok(self.jobs(route, intents))
    }

    /// Adds the jobs to the domain, one after the other, where that can be
    /// done; the first that cannot be added ends it with its error.
    pub fn try_jobs(self, route: &str, intents: Vec<Intent>) -> (r: Result<Domain, DomainError>)
        ensures
            r is Ok <==> can_add_all(self@, route@, intents@),
            match first_refusal(self@, route@, intents@) {
                None => r is Ok && r->Ok_0@ == add_all(self@, route@, intents@),
                Some(e) => r == Err::<Domain, DomainError>(e),
            },
    {
        let mut domain = self;
        let mut rest = intents;
        let n = rest.len();
        let mut i: usize = 0;
        while i < n
            invariant
                n == intents@.len(),
                0 <= i <= n,
                rest@ == intents@.skip(i as int),
                can_add_all(domain@, route@, rest@) == can_add_all(self@, route@, intents@),
                first_refusal(domain@, route@, rest@) == first_refusal(self@, route@, intents@),
                add_all(domain@, route@, rest@) == add_all(self@, route@, intents@),
            decreases n - i,
        {
            let intent = rest.remove(0);
            proof {
                assert(rest@ == intents@.skip(i as int).drop_first());
                assert(intents@.skip(i as int).drop_first() == intents@.skip(i + 1));
                assert(intent == intents@.skip(i as int)[0]);
            }
            domain = match domain.try_job(route, intent) {
                Ok(domain) => domain,
                Err(e) => {
                    return Err(e);
                },
            };
            i += 1;
        }
        Ok(domain)
    }

    /// The job of the id `id`, where the domain has one.
    pub fn find_job(&self, id: &str) -> (r: Option<&Job>)
        ensures
            r is Some <==> has_job(self@, id@),
            r is Some ==> {
                let route = self@[route_of_job(self@, id@)];
                *r->0 == route.intents[intent_of_job(route.intents, id@)].job
            },
    {
        let i = find_job_route(&self.routes, id);
        if i < self.routes.len() {
            proof {
                lemma_route_of_job(self@, id@);
                assert(self@[i as int].intents == self.routes@[i as int].intents@);
            }
            let k = find_intent(&self.routes[i].intents, id);
            Some(&self.routes[i].intents[k].job)
        } else {
            None
        }
    }

    /// The path of a job with the arguments: the template at which the job
    /// is registered, its placeholders filled in. `JobNotFound` where the
    /// domain has no such job, `MissingArguments` where a placeholder has no
    /// argument.
    pub fn find_path_for_job(&self, job_id: &str, args: &PathArgs) -> (r: Result<
        String,
        PathSearchError,
    >)
        ensures
            match r {
                Ok(path) => has_job(self@, job_id@) && expand(
                    self@[route_of_job(self@, job_id@)].template,
                    args@,
                ) == Ok::<Seq<char>, Seq<Seq<char>>>(path@),
                Err(e) => e.job_id@ == job_id@ && match e.kind {
                    PathSearchFailure::JobNotFound => !has_job(self@, job_id@),
                    PathSearchFailure::MissingArguments => has_job(self@, job_id@) && expand(
                        self@[route_of_job(self@, job_id@)].template,
                        args@,
                    ) == Err::<Seq<char>, Seq<Seq<char>>>(names_model(e.missing@)),
                },
            },
    {
        let i = find_job_route(&self.routes, job_id);
        if i >= self.routes.len() {
            return Err(
                PathSearchError {
                    kind: PathSearchFailure::JobNotFound,
                    job_id: String::from_str(job_id),
                    missing: Vec::new(),
                },
            );
        }
        proof {
            assert(self@[i as int].template == self.routes@[i as int].template@);
        }
        match expand_template(self.routes[i].template.as_str(), args) {
            Ok(path) => Ok(path),
            Err(missing) => Err(
                PathSearchError {
                    kind: PathSearchFailure::MissingArguments,
                    job_id: String::from_str(job_id),
                    missing,
                },
            ),
        }
    }

    /// The jobs for a path: the arguments that the matching template
    /// captured, and the intents of its route that are planned with, in the
    /// order in which they are tried. `None` where no template matches.
    pub fn find_jobs_at(&self, path: &str) -> (r: Option<(PathArgs, Vec<&Intent>)>)
        ensures
            match route_match(routes_log(self@), path@) {
                Some(found) => r is Some && r->Some_0.0@ == found.1 && found.0 < self@.len()
                    && r->Some_0.1@.map_values(|i: &Intent| *i) == planned(
                    self@[found.0 as int].intents,
                ),
                None => r is None,
            },
    {
        proof {
            use_type_invariant(self);
        }
        match router_at(&self.router, path) {
            Some((index, args)) => {
                let count = self.routes.len();
                proof {
                    let log = routes_log(self@);
                    assert(log.len() == count);
                    let i = choose|i: int| 0 <= i < log.len() && (#[trigger] log[i]).1 == index;
                    assert(log[i].1 == i as usize);
                    assert(index == i);
                    assert(self@[index as int].intents == self.routes@[index as int].intents@);
                }
                let intents = &self.routes[index].intents;
                let mut found: Vec<&Intent> = Vec::new();
                let mut k: usize = 0;
                while k < intents.len()
                    invariant
                        0 <= k <= intents.len(),
                        found@.map_values(|i: &Intent| *i) == planned(intents@.take(k as int)),
                    decreases intents.len() - k,
                {
                    proof {
                        assert(intents@.take(k + 1).drop_last() == intents@.take(k as int));
                        assert(intents@.take(k + 1).last() == intents@[k as int]);
                        reveal(Seq::filter);
                    }
                    let ghost seen = found@.map_values(|i: &Intent| *i);
                    match intents[k].operation {
                        Operation::Nothing => {},
                        _ => {
                            found.push(&intents[k]);
                            assert(found@.map_values(|i: &Intent| *i) =~= seen.push(
                                intents@[k as int],
                            ));
                        },
                    }
                    k += 1;
                }
                proof {
                    assert(intents@.take(k as int) == intents@);
                }
                Some((args, found))
            },
            None => None,
        }
    }
}

/// What holds of the routes of every domain holds after a job is added.
pub proof fn lemma_add_keeps_well_formed(routes: Seq<RouteModel>, route: Seq<char>, intent: Intent)
    requires
        well_formed(routes),
        !has_job(routes, intent.job.id@),
    ensures
        well_formed(add_job(routes, route, intent)),
{
    lemma_route_index(routes, route);
    let after = add_job(routes, route, intent);
    let at = route_index(routes, route);
    if at < routes.len() {
        let old_intents = routes[at].intents;
        let rank = rank_in(old_intents, intent);
        lemma_rank_in(old_intents, intent);
        assert(!holds_job(old_intents, intent.job.id@));
        lemma_insert_in_order(old_intents, intent);
        assert forall|i: int| 0 <= i < after.len() implies in_order((#[trigger] after[i]).intents) by {
            if i != at {
                assert(after[i] == routes[i]);
            }
        }
        assert forall|i: int, j: int, k: int, l: int|
            0 <= i < after.len() && 0 <= j < after.len() && 0 <= k < after[i].intents.len() && 0
                <= l < after[j].intents.len() && (i != j || k != l) implies (
        #[trigger] after[i].intents[k]).job.id@ != (#[trigger] after[j].intents[l]).job.id@ by {
            let a = after[i].intents[k];
            let b = after[j].intents[l];
            // where each of the two stood before, if it did
            let ka = if i == at && k > rank {
                k - 1
            } else {
                k
            };
            let lb = if j == at && l > rank {
                l - 1
            } else {
                l
            };
            let a_new = i == at && k == rank;
            let b_new = j == at && l == rank;
            if !a_new {
                assert(a == routes[i].intents[ka]);
            }
            if !b_new {
                assert(b == routes[j].intents[lb]);
            }
            if a_new && !b_new {
                assert(holds_job(routes[j].intents, b.job.id@));
            } else if b_new && !a_new {
                assert(holds_job(routes[i].intents, a.job.id@));
            }
        }
        assert forall|i: int, j: int| 0 <= i < j < after.len() implies (
        #[trigger] after[i]).template != (#[trigger] after[j]).template by {
            assert(after[i].template == routes[i].template);
            assert(after[j].template == routes[j].template);
        }
    } else {
        assert forall|i: int| 0 <= i < after.len() implies in_order((#[trigger] after[i]).intents) by {
            if i < routes.len() {
                assert(after[i] == routes[i]);
            }
        }
        assert forall|i: int, j: int, k: int, l: int|
            0 <= i < after.len() && 0 <= j < after.len() && 0 <= k < after[i].intents.len() && 0
                <= l < after[j].intents.len() && (i != j || k != l) implies (
        #[trigger] after[i].intents[k]).job.id@ != (#[trigger] after[j].intents[l]).job.id@ by {
            if i < routes.len() {
                assert(after[i] == routes[i]);
                assert(holds_job(routes[i].intents, routes[i].intents[k].job.id@));
            }
            if j < routes.len() {
                assert(after[j] == routes[j]);
                assert(holds_job(routes[j].intents, routes[j].intents[l].job.id@));
            }
        }
        assert forall|i: int, j: int| 0 <= i < j < after.len() implies (
        #[trigger] after[i]).template != (#[trigger] after[j]).template by {
            assert(after[i] == routes[i]);
            if j < routes.len() {
                assert(after[j] == routes[j]);
            }
        }
    }
}

} // verus!
