//! Loading the routes of a directory.
//!
//! The loader asks for files one at a time and for a limited number of requests
//! at once, and is told what came of each. Files that cannot be read or parsed
//! are passed over. The first route that cannot be added ends the loading, when
//! all that was begun has come to an end.

use vstd::prelude::*;
use vstd::string::StringExecFns;

use crate::addr::IpAddr;
use crate::order::in_order;
use crate::route::attempt_after_failure;
use crate::route::destination_of;
use crate::route::destination_text;
use crate::route::is_route_file;
use crate::route::plan_view;
use crate::route::planned;
use crate::route::reports_exists;
use crate::route::request_of;
use crate::route::route_files;
use crate::route::step_after_failure;
use crate::route::Gateways;
use crate::route::PlannedRoute;
use crate::route::RouteAttempt;
use crate::route::RouteReply;
use crate::route::RouteRequest;
use crate::route::RouteStep;
use crate::route_file::json_read;
use crate::route_file::plan_file;
use crate::route_file::RouteFileError;
use crate::text::joined;
use crate::text::lowered;
use crate::text::texts;

verus! {

/// A route that was begun.
#[derive(Debug, Clone, Copy, PartialEq, Eq, Structural)]
pub enum Flight {
    /// A request was sent, and there is no reply yet.
    UnderWay(RouteAttempt),
    /// The route is there.
    Added,
    /// The route cannot be added. Says whether its gateway was left out.
    Refused(bool),
}

/// Loads the routes of a directory.
pub struct RouteLoader {
    files: Vec<String>,
    file_at: usize,
    routes: Vec<PlannedRoute>,
    flights: Vec<Flight>,
    under_way: usize,
    refused: bool,
    gateways: Gateways,
    iface_name: String,
    iface_index: u32,
    limit: usize,
}

/// What a loader has yet to do.
pub struct LoaderView {
    /// The files to be read.
    pub files: Seq<Seq<char>>,
    /// The routes of the file that was read last.
    pub routes: Seq<(Seq<char>, Option<IpAddr>)>,
    /// The routes among them that were begun, in their order.
    pub flights: Seq<Flight>,
    pub gateways: Gateways,
    pub iface_name: Seq<char>,
    pub iface_index: u32,
    /// How many routes may be under way at once.
    pub limit: nat,
}

/// What a loader asks for.
pub enum LoadAction {
    /// Read a file of the directory.
    ReadFile(String),
    /// Send a request for the route with this number.
    Request(usize, RouteRequest),
    /// Wait for a reply.
    Wait,
    /// Nothing: all routes are there.
    Finish,
    /// Nothing: the route with this number cannot be added. Says whether its
    /// gateway was left out.
    Refuse(usize, bool),
    /// Nothing: a route has no valid destination. The message says why.
    Abort(String),
}

/// What a reply means for a route.
#[derive(Debug, Clone, Copy, PartialEq, Eq, Structural)]
pub enum LoadStep {
    /// It has come to an end.
    Settled,
    /// Send this request for it.
    Retry(RouteRequest),
}

impl View for RouteLoader {
    type V = LoaderView;

    closed spec fn view(&self) -> LoaderView {
        LoaderView {
            files: texts(self.files@).skip(self.file_at as int),
            routes: plan_view(self.routes@),
            flights: self.flights@,
            gateways: self.gateways,
            iface_name: self.iface_name@,
            iface_index: self.iface_index,
            limit: self.limit as nat,
        }
    }
}

/// How many routes are under way.
pub open spec fn in_flight(flights: Seq<Flight>) -> nat
    decreases flights.len(),
{
    if flights.len() == 0 {
        0
    } else {
        in_flight(flights.drop_last()) + (if flights.last() is UnderWay {
            1nat
        } else {
            0
        })
    }
}

/// Whether a route cannot be added.
pub open spec fn has_refused(flights: Seq<Flight>) -> bool {
    exists|i: int| 0 <= i < flights.len() && #[trigger] flights[i] is Refused
}

/// Whether `i` is the first route that cannot be added.
pub open spec fn is_first_refused(flights: Seq<Flight>, i: int) -> bool {
    &&& 0 <= i < flights.len()
    &&& flights[i] is Refused
    &&& forall|k: int| 0 <= k < i ==> !(#[trigger] flights[k] is Refused)
}

/// A route counts as one or none, by whether it is under way.
proof fn lemma_in_flight_update(flights: Seq<Flight>, i: int, value: Flight)
    requires
        0 <= i < flights.len(),
    ensures
        in_flight(flights.update(i, value)) == in_flight(flights) - (if flights[i] is UnderWay {
            1int
        } else {
            0
        }) + (if value is UnderWay {
            1int
        } else {
            0
        }),
    decreases flights.len(),
{
    let after = flights.update(i, value);
    if i == flights.len() - 1 {
        assert(after.drop_last() =~= flights.drop_last());
    } else {
        assert(after.drop_last() =~= flights.drop_last().update(i, value));
        lemma_in_flight_update(flights.drop_last(), i, value);
    }
}

/// Where no route is under way, each is there or refused.
proof fn lemma_none_in_flight(flights: Seq<Flight>)
    requires
        in_flight(flights) == 0,
    ensures
        forall|i: int| 0 <= i < flights.len() ==> !(#[trigger] flights[i] is UnderWay),
{
    assert forall|i: int| 0 <= i < flights.len() implies !(#[trigger] flights[i] is UnderWay) by {
        lemma_in_flight_update(flights, i, Flight::Added);
    }
}

/// What is said of a route that cannot be added.
pub open spec fn failure_text(dest: Seq<char>, reason: Seq<char>) -> Seq<char> {
    "Failed to add route "@ + dest + ": "@ + reason
}

/// What is said of a route that cannot be added.
pub fn failure_message(dest: &str, reason: &str) -> (r: String)
    ensures
        r@ == failure_text(dest@, reason@),
{
    joined("Failed to add route ", dest).concat(": ").concat(reason)
}

/// What a loader asks for, and what it has to do after that. Routes are begun in
/// their order while there is room and none was refused. A file is read when all
/// routes of the last one are there, and a failure is told when no route is under
/// way.
pub open spec fn is_next(before: LoaderView, after: LoaderView, action: LoadAction) -> bool {
    let at = before.flights.len() as int;
    let begins = at < before.routes.len() && in_flight(before.flights) < before.limit
        && !has_refused(before.flights);
    let (dest, gateway) = before.routes[at];
    if begins && destination_of(dest) is Ok {
        let (ip, prefix_len) = destination_of(dest)->Ok_0;
        let a = RouteAttempt {
            ip,
            prefix_len,
            gateway,
            iface_index: before.iface_index,
            fallback: false,
        };
        &&& after == LoaderView { flights: before.flights.push(Flight::UnderWay(a)), ..before }
        &&& action matches LoadAction::Request(i, request)
        &&& i == at
        &&& request == request_of(a)
    } else if in_flight(before.flights) > 0 {
        after == before && action is Wait
    } else if has_refused(before.flights) {
        &&& after == before
        &&& action matches LoadAction::Refuse(i, fallback)
        &&& is_first_refused(before.flights, i as int)
        &&& before.flights[i as int] == Flight::Refused(fallback)
    } else if begins {
        &&& after == before
        &&& action is Abort
        &&& action->Abort_0@ == failure_text(
            dest,
            destination_text(destination_of(dest)->Err_0, dest),
        )
    } else if before.files.len() > 0 {
        &&& after == LoaderView { files: before.files.skip(1), ..before }
        &&& action is ReadFile
        &&& action->ReadFile_0@ == before.files[0]
    } else {
        after == before && action is Finish
    }
}

/// What becomes of a route when its request is replied to: it is there, or it is
/// tried again without its gateway, or it cannot be added.
pub open spec fn flight_after(a: RouteAttempt, added: bool, exists: bool) -> Flight {
    if added || step_after_failure(a, exists) == RouteStep::Done {
        Flight::Added
    } else if step_after_failure(a, exists) == RouteStep::Retry {
        Flight::UnderWay(attempt_after_failure(a, exists))
    } else {
        Flight::Refused(a.fallback)
    }
}

/// What a reply for the route `i` makes of a loader.
pub open spec fn is_replied(
    before: LoaderView,
    after: LoaderView,
    i: int,
    added: bool,
    exists: bool,
    step: LoadStep,
) -> bool {
    let next = flight_after(before.flights[i]->UnderWay_0, added, exists);
    &&& after == LoaderView { flights: before.flights.update(i, next), ..before }
    &&& step == (match next {
        Flight::UnderWay(a) => LoadStep::Retry(request_of(a)),
        _ => LoadStep::Settled,
    })
}

impl RouteLoader {
    /// Whether no more routes are begun than there are, and no more are under way
    /// than may be.
    pub closed spec fn wf(&self) -> bool {
        &&& self.file_at <= self.files@.len()
        &&& self.flights@.len() <= self.routes@.len()
        &&& self.under_way == in_flight(self.flights@)
        &&& self.refused == has_refused(self.flights@)
        &&& self.under_way <= self.limit
        &&& self.limit > 0
    }

    /// Begins to load the route files among the files of a directory, with at
    /// most `concurrency` routes under way at once, but one in any case.
    pub fn new(
        names: &Vec<String>,
        gateways: Gateways,
        iface_name: &str,
        iface_index: u32,
        concurrency: usize,
    ) -> (r: Self)
        ensures
            r.wf(),
            in_order(r@.files),
            r@.files.to_multiset() == texts(names@).filter(
                |name: Seq<char>| is_route_file(name),
            ).to_multiset(),
            r@.routes.len() == 0,
            r@.flights.len() == 0,
            r@.gateways == gateways,
            r@.iface_name == iface_name@,
            r@.iface_index == iface_index,
            r@.limit == (if concurrency == 0 {
                1
            } else {
                concurrency as nat
            }),
    {
        let r = RouteLoader {
            files: route_files(names),
            file_at: 0,
            routes: Vec::new(),
            flights: Vec::new(),
            under_way: 0,
            refused: false,
            gateways,
            iface_name: iface_name.to_string(),
            iface_index,
            limit: if concurrency == 0 {
                1
            } else {
                concurrency
            },
        };
        assert(r@.files =~= texts(r.files@));
        r
    }

    /// The first route that cannot be added.
    fn first_refused(&self) -> (r: (usize, bool))
        requires
            has_refused(self.flights@),
        ensures
            is_first_refused(self.flights@, r.0 as int),
            self.flights@[r.0 as int] == Flight::Refused(r.1),
    {
        let mut i: usize = 0;
        while i < self.flights.len()
            invariant
                i <= self.flights.len(),
                has_refused(self.flights@),
                forall|k: int| 0 <= k < i ==> !(#[trigger] self.flights@[k] is Refused),
            decreases self.flights.len() - i,
        {
            match self.flights[i] {
                Flight::Refused(fallback) => {
                    return (i, fallback);
                },
                _ => {},
            }
            i = i + 1;
        }
        proof {
            let k = choose|k: int|
                0 <= k < self.flights@.len() && #[trigger] self.flights@[k] is Refused;
            assert(false);
        }
        (0, false)
    }

    /// Says what is to be done next.
    pub fn next(&mut self) -> (r: LoadAction)
        requires
            old(self).wf(),
        ensures
            final(self).wf(),
            is_next(old(self)@, final(self)@, r),
            r matches LoadAction::Request(i, _) ==> i == old(self)@.flights.len()
                && final(self)@.flights.len() == i + 1
                && final(self)@.flights[i as int] is UnderWay,
            r matches LoadAction::Refuse(i, _) ==> i < final(self)@.routes.len(),
    {
        let at: usize = self.flights.len();
        let mut fault: Option<String> = None;
        if at < self.routes.len() && self.under_way < self.limit && !self.refused {
            let route = &self.routes[at];
            let ghost item = (route.destination@, route.gateway);
            assert(self@.routes[at as int] == item);
            match RouteAttempt::new(route.destination.as_str(), route.gateway, self.iface_index) {
                Ok(a) => {
                    let ghost before = self.flights@;
                    self.flights.push(Flight::UnderWay(a));
                    self.under_way = self.under_way + 1;
                    proof {
                        assert(self.flights@.drop_last() =~= before);
                        assert forall|k: int| 0 <= k < self.flights@.len() implies !(
                        #[trigger] self.flights@[k] is Refused) by {
                            if k < before.len() {
                                assert(!(before[k] is Refused));
                            }
                        }
                    }
                    return LoadAction::Request(at, a.request());
                },
                Err(e) => {
                    fault = Some(
                        failure_message(route.destination.as_str(), e.message().as_str()),
                    );
                },
            }
        }
        if self.under_way > 0 {
            return LoadAction::Wait;
        }
        if self.refused {
            let (i, fallback) = self.first_refused();
            return LoadAction::Refuse(i, fallback);
        }
        match fault {
            Some(message) => {
                return LoadAction::Abort(message);
            },
            None => {},
        }
        if self.file_at < self.files.len() {
            let name = self.files[self.file_at].clone();
            proof {
                assert(self@.files[0] == name@);
                assert(texts(self.files@).skip(self.file_at as int).skip(1) =~= texts(
                    self.files@,
                ).skip(self.file_at + 1));
            }
            self.file_at = self.file_at + 1;
            return LoadAction::ReadFile(name);
        }
        LoadAction::Finish
    }

    /// Takes the contents of a file.
    pub fn on_file(&mut self, data: &str) -> (r: Result<(), RouteFileError>)
        requires
            old(self).wf(),
            in_flight(old(self)@.flights) == 0,
        ensures
            final(self).wf(),
            match json_read(data@) {
                Ok(dests) => r is Ok && final(self)@ == (LoaderView {
                    routes: planned(dests, old(self)@.gateways, old(self)@.iface_name),
                    flights: Seq::empty(),
                    ..old(self)@
                }),
                Err(reason) => r is Err && r->Err_0.reason@ == reason && final(self)@ == old(self)@,
            },
    {
        match plan_file(data, &self.gateways, self.iface_name.as_str()) {
            Ok(routes) => {
                self.routes = routes;
                self.flights = Vec::new();
                self.refused = false;
                proof {
                    assert(self@.flights =~= Seq::empty());
                    assert(self@.files =~= old(self)@.files);
                }
                Ok(())
            },
            Err(e) => Err(e),
        }
    }

    /// A route of the file that was read last.
    pub fn route(&self, i: usize) -> (r: &PlannedRoute)
        requires
            i < self@.routes.len(),
        ensures
            (r.destination@, r.gateway) == self@.routes[i as int],
    {
        &self.routes[i]
    }

    /// Takes the reply to a request for the route `i`.
    pub fn on_reply(&mut self, i: usize, reply: &RouteReply) -> (r: LoadStep)
        requires
            old(self).wf(),
            i < old(self)@.flights.len(),
            old(self)@.flights[i as int] is UnderWay,
        ensures
            final(self).wf(),
            match *reply {
                RouteReply::Added => is_replied(
                    old(self)@,
                    final(self)@,
                    i as int,
                    true,
                    true,
                    r,
                ),
                RouteReply::Failed(e) => is_replied(
                    old(self)@,
                    final(self)@,
                    i as int,
                    false,
                    reports_exists(e.causes@, lowered(e.message@)),
                    r,
                ),
            },
            r is Retry ==> final(self)@.flights[i as int] is UnderWay,
    {
        let mut attempt = match self.flights[i] {
            Flight::UnderWay(a) => a,
            _ => {
                return LoadStep::Settled;
            },
        };
        let ghost before = self.flights@;
        let next = match attempt.on_reply(reply) {
            RouteStep::Done => Flight::Added,
            RouteStep::Retry => Flight::UnderWay(attempt),
            RouteStep::Fail => Flight::Refused(attempt.fallback),
        };
        proof {
            lemma_in_flight_update(before, i as int, next);
        }
        self.flights.set(i, next);
        proof {
            let after = self.flights@;
            assert(forall|k: int| 0 <= k < after.len() && k != i ==> after[k] == before[k]);
            assert(after[i as int] == next);
            if has_refused(before) {
                let k = choose|k: int| 0 <= k < before.len() && #[trigger] before[k] is Refused;
                assert(after[k] is Refused);
            }
            if has_refused(after) && !(next is Refused) {
                let k = choose|k: int| 0 <= k < after.len() && #[trigger] after[k] is Refused;
                assert(before[k] is Refused);
            }
        }
        match next {
            Flight::UnderWay(a) => LoadStep::Retry(a.request()),
            Flight::Added => {
                self.under_way = self.under_way - 1;
                LoadStep::Settled
            },
            Flight::Refused(_) => {
                self.under_way = self.under_way - 1;
                self.refused = true;
                LoadStep::Settled
            },
        }
    }
}

/// At most as many routes are under way as may be: what the loader asks for and
/// what it is told keeps that so.
pub proof fn law_routes_under_way(
    before: LoaderView,
    after: LoaderView,
    action: LoadAction,
    i: int,
    added: bool,
    exists: bool,
    step: LoadStep,
)
    requires
        in_flight(before.flights) <= before.limit,
        is_next(before, after, action) || (0 <= i < before.flights.len() && before.flights[i] is UnderWay
            && is_replied(before, after, i, added, exists, step)),
    ensures
        after.limit == before.limit,
        in_flight(after.flights) <= after.limit,
{
    if is_next(before, after, action) {
        if action is Request {
            assert(after.flights.drop_last() =~= before.flights);
        }
    } else {
        lemma_in_flight_update(
            before.flights,
            i,
            flight_after(before.flights[i]->UnderWay_0, added, exists),
        );
    }
}

/// How many replies a route that was begun can still take.
pub open spec fn replies_left(flight: Flight) -> nat {
    match flight {
        Flight::UnderWay(a) if step_after_failure(a, false) == RouteStep::Retry => 2,
        Flight::UnderWay(_) => 1,
        _ => 0,
    }
}

/// How many replies the routes that were begun can still take.
pub open spec fn all_replies_left(flights: Seq<Flight>) -> nat
    decreases flights.len(),
{
    if flights.len() == 0 {
        0
    } else {
        all_replies_left(flights.drop_last()) + replies_left(flights.last())
    }
}

/// How much a loader has to do with the file at hand.
pub open spec fn work_left(v: LoaderView) -> int {
    3 * (v.routes.len() - v.flights.len()) + all_replies_left(v.flights)
}

/// The replies that a route can still take count as its own.
proof fn lemma_replies_update(flights: Seq<Flight>, i: int, value: Flight)
    requires
        0 <= i < flights.len(),
    ensures
        all_replies_left(flights.update(i, value)) == all_replies_left(flights) - replies_left(
            flights[i],
        ) + replies_left(value),
    decreases flights.len(),
{
    let after = flights.update(i, value);
    if i == flights.len() - 1 {
        assert(after.drop_last() =~= flights.drop_last());
    } else {
        assert(after.drop_last() =~= flights.drop_last().update(i, value));
        lemma_replies_update(flights.drop_last(), i, value);
    }
}

/// Loading ends: every file that is asked for is one less, and with the file at
/// hand every route that is begun and every reply leaves less to do.
pub proof fn law_loading_ends(
    before: LoaderView,
    after: LoaderView,
    action: LoadAction,
    i: int,
    added: bool,
    exists: bool,
    step: LoadStep,
)
    requires
        before.flights.len() <= before.routes.len(),
    ensures
        work_left(before) >= 0,
        is_next(before, after, action) && action is ReadFile ==> after.files.len()
            == before.files.len() - 1,
        is_next(before, after, action) && action is Request ==> after.files == before.files
            && work_left(after) < work_left(before),
        0 <= i < before.flights.len() && before.flights[i] is UnderWay && is_replied(
            before,
            after,
            i,
            added,
            exists,
            step,
        ) ==> after.files == before.files && work_left(after) < work_left(before),
{
    if is_next(before, after, action) && action is Request {
        assert(after.flights.drop_last() =~= before.flights);
    }
    if 0 <= i < before.flights.len() && before.flights[i] is UnderWay {
        lemma_replies_update(
            before.flights,
            i,
            flight_after(before.flights[i]->UnderWay_0, added, exists),
        );
    }
}

/// When the next file is read or loading finishes, every route of the last file is
/// there, and loading finishes when every file was read.
pub proof fn law_finished_is_complete(before: LoaderView, after: LoaderView, action: LoadAction)
    requires
        before.limit > 0,
        before.flights.len() <= before.routes.len(),
        is_next(before, after, action),
        action is Finish || action is ReadFile,
    ensures
        before.flights.len() == before.routes.len(),
        forall|i: int| 0 <= i < before.flights.len() ==> #[trigger] before.flights[i] is Added,
        action is Finish ==> before.files.len() == 0,
{
    lemma_none_in_flight(before.flights);
}

/// A failure is told of the first route that fails, and when all routes before it
/// are there: none of them is under way or left out.
pub proof fn law_first_failure_is_told(before: LoaderView, after: LoaderView, action: LoadAction)
    requires
        is_next(before, after, action),
        action is Refuse || action is Abort,
    ensures
        in_flight(before.flights) == 0,
        action matches LoadAction::Refuse(i, _) ==> before.flights[i as int] is Refused && forall|
            k: int,
        |
            0 <= k < i ==> #[trigger] before.flights[k] is Added,
        action is Abort ==> {
            &&& destination_of(before.routes[before.flights.len() as int].0) is Err
            &&& forall|k: int|
                0 <= k < before.flights.len() ==> #[trigger] before.flights[k] is Added
        },
{
    lemma_none_in_flight(before.flights);
}

} // verus!
