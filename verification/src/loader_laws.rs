//! What the loading of routes asks for at each step.

use vstd::prelude::*;

use crate::addr::IpAddr;
use crate::route::destination_of;
use crate::route::plan_view;
use crate::route::DestinationFault;
use crate::route::PlannedRoute;
use crate::route::RouteAttempt;
use crate::route::RouteRequest;
use crate::route_file::json_array;
use crate::route_file::quoted_list;
use crate::route_loader::in_flight;
use crate::route_loader::is_next;
use crate::route_loader::is_replied;
use crate::route_loader::Flight;
use crate::route_loader::LoadAction;
use crate::route_loader::LoadStep;
use crate::route_loader::LoaderView;
use crate::text::texts;

verus! {

/// The routes under way are counted one by one.
pub proof fn law_count_under_way(flights: Seq<Flight>, next: Flight)
    ensures
        in_flight(Seq::empty()) == 0,
        in_flight(flights.push(next)) == in_flight(flights) + (if next is UnderWay {
            1int
        } else {
            0
        }),
        in_flight(flights) == 0 <==> forall|i: int|
            0 <= i < flights.len() ==> !(#[trigger] flights[i] is UnderWay),
    decreases flights.len(),
{
    assert(flights.push(next).drop_last() =~= flights);
    if flights.len() > 0 {
        let t = flights.drop_last();
        law_count_under_way(t, next);
        if in_flight(flights) == 0 {
            assert forall|i: int| 0 <= i < flights.len() implies !(
            #[trigger] flights[i] is UnderWay) by {
                if i < t.len() {
                    assert(t[i] == flights[i]);
                }
            }
        }
        if forall|i: int| 0 <= i < flights.len() ==> !(#[trigger] flights[i] is UnderWay) {
            assert(!(flights[flights.len() - 1] is UnderWay));
            assert forall|i: int| 0 <= i < t.len() implies !(#[trigger] t[i] is UnderWay) by {
                assert(t[i] == flights[i]);
            }
        }
    }
}

/// Where there is room and no route was refused, the next route is begun, and its
/// request is that of its destination on the interface, with its gateway if that is
/// of the same family.
pub proof fn law_routes_are_begun(
    before: LoaderView,
    after: LoaderView,
    action: LoadAction,
    ip: IpAddr,
    prefix_len: u8,
)
    requires
        is_next(before, after, action),
        before.flights.len() < before.routes.len(),
        in_flight(before.flights) < before.limit,
        forall|i: int| 0 <= i < before.flights.len() ==> !(#[trigger] before.flights[i] is Refused),
        destination_of(before.routes[before.flights.len() as int].0) == Ok::<
            (IpAddr, u8),
            DestinationFault,
        >((ip, prefix_len)),
    ensures
        ({
            let gateway = before.routes[before.flights.len() as int].1;
            &&& action matches LoadAction::Request(i, request)
            &&& i == before.flights.len()
            &&& request.ip == ip && request.prefix_len == prefix_len
            &&& request.iface_index == before.iface_index
            &&& request.gateway == (if gateway is Some && (gateway.unwrap() is V4 <==> ip is V4) {
                gateway
            } else {
                None
            })
            &&& after.flights == before.flights.push(
                Flight::UnderWay(
                    RouteAttempt {
                        ip,
                        prefix_len,
                        gateway,
                        iface_index: before.iface_index,
                        fallback: false,
                    },
                ),
            )
            &&& after.files == before.files && after.routes == before.routes
        }),
{
}

/// While routes are under way and none can be begun, the loader waits. It changes
/// nothing by that.
pub proof fn law_loader_waits(before: LoaderView, after: LoaderView, action: LoadAction)
    requires
        is_next(before, after, action),
        in_flight(before.flights) > 0,
        before.flights.len() >= before.routes.len() || in_flight(before.flights) >= before.limit || (
        exists|i: int| 0 <= i < before.flights.len() && #[trigger] before.flights[i] is Refused)
            || destination_of(before.routes[before.flights.len() as int].0) is Err,
    ensures
        action is Wait,
        after == before,
{
}

/// With all routes of a file there, the next file is read, the first of those left;
/// with none left, loading is finished.
pub proof fn law_next_file(before: LoaderView, after: LoaderView, action: LoadAction)
    requires
        is_next(before, after, action),
        before.flights.len() >= before.routes.len(),
        forall|i: int| 0 <= i < before.flights.len() ==> #[trigger] before.flights[i] is Added,
    ensures
        before.files.len() > 0 ==> action is ReadFile && action->ReadFile_0@ == before.files[0]
            && after.files == before.files.skip(1),
        before.files.len() == 0 ==> action is Finish,
{
    law_count_under_way(before.flights, Flight::Added);
    assert forall|i: int| 0 <= i < before.flights.len() implies !(
    #[trigger] before.flights[i] is Refused) by {
        assert(before.flights[i] is Added);
    }
}

/// What a reply does to its route and to no other: one that is added, or said to be
/// there, is there; one that fails with its gateway is requested without it; any
/// other that fails is refused.
pub proof fn law_replies(
    before: LoaderView,
    after: LoaderView,
    i: int,
    added: bool,
    exists: bool,
    step: LoadStep,
    k: int,
)
    requires
        0 <= i < before.flights.len(),
        before.flights[i] is UnderWay,
        is_replied(before, after, i, added, exists, step),
    ensures
        ({
            let a = before.flights[i]->UnderWay_0;
            let again = !added && !exists && a.gateway is Some && !a.fallback;
            &&& added || exists ==> after.flights[i] == Flight::Added && step == LoadStep::Settled
            &&& again ==> after.flights[i] == Flight::UnderWay(RouteAttempt { fallback: true, ..a })
                && step == LoadStep::Retry(
                RouteRequest {
                    ip: a.ip,
                    prefix_len: a.prefix_len,
                    gateway: None,
                    iface_index: a.iface_index,
                },
            )
            &&& !added && !exists && !again ==> after.flights[i] == Flight::Refused(a.fallback)
                && step == LoadStep::Settled
        }),
        after.flights.len() == before.flights.len(),
        0 <= k < before.flights.len() && k != i ==> after.flights[k] == before.flights[k],
        after.files == before.files && after.routes == before.routes,
        after.limit == before.limit && after.iface_index == before.iface_index,
{
}

/// The views of routes and of texts leave nothing out.
pub proof fn law_plan_views(routes: Seq<PlannedRoute>, v: Seq<String>, i: int)
    ensures
        plan_view(routes).len() == routes.len(),
        0 <= i < routes.len() ==> plan_view(routes)[i] == (
            routes[i].destination@,
            routes[i].gateway,
        ),
        texts(v).len() == v.len(),
        0 <= i < v.len() ==> texts(v)[i] == v[i]@,
{
}

/// A JSON array of plain texts in its shortest form: brackets round it, quotes round
/// each text, and a comma between each two.
pub proof fn law_plain_arrays(items: Seq<Seq<char>>, a: Seq<char>, b: Seq<char>)
    requires
        items.len() > 0,
    ensures
        json_array(Seq::empty()) == seq!['[', ']'],
        json_array(seq![a]) == seq!['[', '"'] + a + seq!['"', ']'],
        json_array(seq![a, b]) == seq!['[', '"'] + a + seq!['"', ',', '"'] + b + seq!['"', ']'],
        quoted_list(items.push(b)) == quoted_list(items) + seq![',', '"'] + b + seq!['"'],
{
    assert(json_array(Seq::empty()) =~= seq!['[', ']']);
    assert(json_array(seq![a]) =~= seq!['[', '"'] + a + seq!['"', ']']);
    assert(seq![a, b].drop_last() =~= seq![a]);
    assert(json_array(seq![a, b]) =~= seq!['[', '"'] + a + seq!['"', ',', '"'] + b + seq!['"', ']']);
    assert(items.push(b).drop_last() =~= items);
}

} // verus!
