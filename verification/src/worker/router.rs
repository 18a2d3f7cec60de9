//! The router of path templates, which is `matchit`'s. Nothing in this file
//! is proved: each item states what the outside function does.
use super::template::openers;
use crate::path::PathArgs;
use matchit::Router;
use vstd::prelude::*;

verus! {

/// `matchit::Router`, a radix tree of routes.
#[verifier::external_type_specification]
#[verifier::external_body]
#[verifier::reject_recursive_types(T)]
pub struct ExRouter<T>(matchit::Router<T>);

/// `matchit::InsertError`, why a route was refused.
#[verifier::external_type_specification]
#[verifier::external_body]
pub struct ExInsertError(matchit::InsertError);

/// The number of parameters that `matchit` has names for: a route with as
/// many named parameters or more makes `matchit::Router::insert` panic.
pub const MAX_PARAMETERS: usize = 26;

/// The routes that were inserted into the router, in order, each with its
/// value.
pub uninterp spec fn router_routes(router: Router<usize>) -> Seq<(Seq<char>, usize)>;

/// Whether a router that holds `routes` takes in `route`: whether
/// `matchit::Router::insert` returns `Ok`.
pub uninterp spec fn route_accepted(routes: Seq<(Seq<char>, usize)>, route: Seq<char>) -> bool;

/// What a router that holds `routes` finds for `path`: the value of the
/// route that `matchit::Router::at` matches and the parameters that the
/// route captured, in the route's order.
pub uninterp spec fn route_match(routes: Seq<(Seq<char>, usize)>, path: Seq<char>) -> Option<
    (usize, Seq<(Seq<char>, Seq<char>)>),
>;

/// `matchit::Router::new`: a router without routes.
#[verifier::external_body]
pub(crate) fn router_new() -> (r: Router<usize>)
    ensures
        router_routes(r).len() == 0,
{
    Router::new()
}

/// `Clone::clone` of `matchit::Router`: a router with the same routes.
#[verifier::external_body]
pub(crate) fn router_clone(router: &Router<usize>) -> (r: Router<usize>)
    ensures
        router_routes(r) == router_routes(*router),
{
    router.clone()
}

/// `matchit::Router::insert`, for a route with fewer opening braces than
/// `MAX_PARAMETERS`, and so with fewer parameters: where the route is taken
/// in, it is the last of the router's routes from now on. Whether it is
/// taken in depends on the route and on the routes that are there.
#[verifier::external_body]
pub(crate) fn router_insert(router: &mut Router<usize>, route: &str, value: usize) -> (r: Result<
    (),
    matchit::InsertError,
>)
    requires
        openers(route@, 0) < MAX_PARAMETERS,
    ensures
        r is Ok <==> route_accepted(router_routes(*old(router)), route@),
        r is Ok ==> router_routes(*final(router)) == router_routes(*old(router)).push(
            (route@, value),
        ),
{
    router.insert(route, value)
}

/// `matchit::Router::at`: the value of the route that matches the path,
/// with the parameters that the route captured, each as name and value. The
/// value is one that was inserted.
#[verifier::external_body]
pub(crate) fn router_at(router: &Router<usize>, path: &str) -> (r: Option<(usize, PathArgs)>)
    ensures
        match route_match(router_routes(*router), path@) {
            Some(found) => r is Some && r->Some_0.0 == found.0 && r->Some_0.1@ == found.1,
            None => r is None,
        },
        r is Some ==> exists|i: int|
            0 <= i < router_routes(*router).len() && (#[trigger] router_routes(*router)[i]).1
                == r->Some_0.0,
{
    match router.at(path) {
        Ok(found) => Some(
            (
                *found.value,
                PathArgs(found.params.iter().map(|(k, v)| (k.to_string(), v.to_string())).collect()),
            ),
        ),
        Err(_) => None,
    }
}

} // verus!
