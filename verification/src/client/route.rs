//! The routes into the tunnel.
use vstd::prelude::*;

use crate::io_error::{IoError, IoErrorKind};
use crate::net::{Ipv4Addr, Ipv4Net};
use crate::sysprobe::collectors as views;
use crate::text;

verus! {

/// With what `ip` adds a route.
pub fn route_add_args(subnet: Ipv4Net, dev_name: &str) -> (r: Vec<String>)
    ensures
        views::string_texts(r@) == seq![
            "route"@,
            "add"@,
            subnet@.text(),
            "dev"@,
            dev_name@,
        ],
{
    let mut r: Vec<String> = Vec::new();
    r.push("route".to_string());
    r.push("add".to_string());
    r.push(subnet.to_text());
    r.push("dev".to_string());
    r.push(dev_name.to_string());
    assert(views::string_texts(r@) =~= seq![
        "route"@,
        "add"@,
        subnet@.text(),
        "dev"@,
        dev_name@,
    ]);
    r
}

/// With what `ip` shows a route.
pub fn route_show_args(subnet: Ipv4Net, dev_name: &str) -> (r: Vec<String>)
    ensures
        views::string_texts(r@) == seq![
            "route"@,
            "show"@,
            "to"@,
            subnet@.text(),
            "dev"@,
            dev_name@,
        ],
{
    let mut r: Vec<String> = Vec::new();
    r.push("route".to_string());
    r.push("show".to_string());
    r.push("to".to_string());
    r.push(subnet.to_text());
    r.push("dev".to_string());
    r.push(dev_name.to_string());
    assert(views::string_texts(r@) =~= seq![
        "route"@,
        "show"@,
        "to"@,
        subnet@.text(),
        "dev"@,
        dev_name@,
    ]);
    r
}

/// How a command has ended: whether well, and with what code, if with one.
#[derive(Debug, Clone, Copy, PartialEq, Eq, Structural)]
pub struct CommandEnd {
    pub success: bool,
    pub code: Option<i32>,
}

/// What has happened to a route that is to be added.
#[derive(Debug)]
pub enum RouteEvent {
    /// The command that adds it has run, or could not.
    Added(Result<CommandEnd, IoError>),
    /// The command that shows it has run, or could not, after the first has ended so.
    Shown { added: CommandEnd, shown: Result<CommandEnd, IoError> },
}

/// What has to be done next for a route that is to be added.
#[derive(Debug)]
pub enum RouteAction {
    Done,
    Show,
    Fail(IoError),
}

/// What is said of a route that cannot be added.
pub open spec fn add_failure(subnet: Ipv4Net, dev_name: Seq<char>, code: Option<i32>) -> Seq<char> {
    "failed to add route "@ + subnet@.text() + " dev "@ + dev_name + ": ip exited with "@
        + text::signed_decimal(
        match code {
            Some(c) => c as int,
            None => -1int,
        },
    )
}

/// The next step for a route that is to be added: where it cannot be, it may be there already,
/// which is as good.
pub fn route_step(event: RouteEvent, subnet: Ipv4Net, dev_name: &str) -> (r: RouteAction)
    ensures
        match event {
            RouteEvent::Added(Ok(end)) => r == (if end.success {
                RouteAction::Done
            } else {
                RouteAction::Show
            }),
            RouteEvent::Added(Err(e)) => r == RouteAction::Fail(e),
            RouteEvent::Shown { added, shown: Ok(end) } => if end.success {
                r == RouteAction::Done
            } else {
                r matches RouteAction::Fail(e) && e.kind == IoErrorKind::Other && e.message@
                    == add_failure(subnet, dev_name@, added.code)
            },
            RouteEvent::Shown { added: _, shown: Err(e) } => r == RouteAction::Fail(e),
        },
{
    match event {
        RouteEvent::Added(Ok(end)) => {
            if end.success {
                RouteAction::Done
            } else {
                RouteAction::Show
            }
        },
        RouteEvent::Added(Err(e)) => RouteAction::Fail(e),
        RouteEvent::Shown { added, shown: Ok(end) } => {
            if end.success {
                return RouteAction::Done;
            }
            let mut message = text::join2("failed to add route ", subnet.to_text().as_str());
            message.append(" dev ");
            message.append(dev_name);
            message.append(": ip exited with ");
            let code: i32 = match added.code {
                Some(c) => c,
                None => -1,
            };
            text::push_signed(&mut message, code);
            RouteAction::Fail(IoError { kind: IoErrorKind::Other, message })
        },
        RouteEvent::Shown { added: _, shown: Err(e) } => RouteAction::Fail(e),
    }
}

/// A route into the tunnel.
#[derive(Debug, Clone, PartialEq, Eq)]
pub struct RouteEntry {
    pub network: Ipv4Addr,
    pub prefix: u8,
    pub if_name: String,
}

/// The routes that have to be added, in order. Where there are none, nothing has to be opened.
pub fn planned_routes(dev_name: &str, routes: &[Ipv4Net]) -> (r: Vec<RouteEntry>)
    ensures
        r@.len() == routes@.len(),
        forall|i: int|
            0 <= i < r@.len() ==> {
                &&& (#[trigger] r@[i]).network.bits == routes@[i]@.network()
                &&& r@[i].prefix == routes@[i]@.prefix
                &&& r@[i].if_name@ == dev_name@
            },
{
    let mut r: Vec<RouteEntry> = Vec::new();
    let mut i: usize = 0;
    while i < routes.len()
        invariant
            i <= routes@.len(),
            r@.len() == i,
            forall|j: int|
                0 <= j < i ==> {
                    &&& (#[trigger] r@[j]).network.bits == routes@[j]@.network()
                    &&& r@[j].prefix == routes@[j]@.prefix
                    &&& r@[j].if_name@ == dev_name@
                },
        decreases routes@.len() - i,
    {
        let route = routes[i];
        r.push(
            RouteEntry {
                network: route.network(),
                prefix: route.prefix_len(),
                if_name: dev_name.to_string(),
            },
        );
        i = i + 1;
    }
    r
}

/// An error of the system, and its number, if it has one.
#[derive(Debug, Clone, PartialEq, Eq)]
pub struct SystemError {
    pub os_error: Option<i32>,
    pub error: IoError,
}

/// What adding a route amounts to: that it is there already, for which the system has the
/// number `exists_code`, is as good.
pub fn route_added(outcome: Result<(), SystemError>, exists_code: i32) -> (r: Result<(), IoError>)
    ensures
        r == match outcome {
            Ok(()) => Ok::<(), IoError>(()),
            Err(e) => if e.os_error == Some(exists_code) {
                Ok(())
            } else {
                Err(e.error)
            },
        },
{
    match outcome {
        Ok(()) => Ok(()),
        Err(e) => match e.os_error {
            Some(code) => {
                if code == exists_code {
                    Ok(())
                } else {
                    Err(e.error)
                }
            },
            None => Err(e.error),
        },
    }
}

/// What has happened to the routes that have to be added.
#[derive(Debug)]
pub enum RoutesEvent {
    /// They were planned.
    Planned,
    /// The way to the system's routes was opened, or could not be.
    Opened(Result<(), IoError>),
    /// One of them was added, or could not be.
    Added { index: usize, outcome: Result<(), SystemError> },
}

/// What has to be done next for the routes that have to be added.
#[derive(Debug)]
pub enum RoutesAction {
    Open,
    Add(usize),
    Done(Result<(), IoError>),
}

/// What adding the route at `index` leaves to do.
pub open spec fn after_route(
    index: int,
    outcome: Result<(), SystemError>,
    planned: int,
    exists_code: i32,
) -> RoutesAction {
    match outcome {
        Err(e) if e.os_error != Some(exists_code) => RoutesAction::Done(Err(e.error)),
        _ => if index + 1 < planned {
            RoutesAction::Add((index + 1) as usize)
        } else {
            RoutesAction::Done(Ok(()))
        },
    }
}

/// The next step for the routes that have to be added: one after the other, up to the first
/// that cannot be. Where there are none, nothing is opened.
pub fn routes_step(event: RoutesEvent, planned: &[RouteEntry], exists_code: i32) -> (r:
    RoutesAction)
    requires
        event is Opened ==> planned@.len() > 0,
        event matches RoutesEvent::Added { index, .. } ==> index < planned@.len(),
    ensures
        r == match event {
            RoutesEvent::Planned => if planned@.len() == 0 {
                RoutesAction::Done(Ok(()))
            } else {
                RoutesAction::Open
            },
            RoutesEvent::Opened(Ok(())) => RoutesAction::Add(0),
            RoutesEvent::Opened(Err(e)) => RoutesAction::Done(Err(e)),
            RoutesEvent::Added { index, outcome } => after_route(
                index as int,
                outcome,
                planned@.len() as int,
                exists_code,
            ),
        },
{
    match event {
        RoutesEvent::Planned => {
            if planned.len() == 0 {
                RoutesAction::Done(Ok(()))
            } else {
                RoutesAction::Open
            }
        },
        RoutesEvent::Opened(Ok(())) => RoutesAction::Add(0),
        RoutesEvent::Opened(Err(e)) => RoutesAction::Done(Err(e)),
        RoutesEvent::Added { index, outcome } => match route_added(outcome, exists_code) {
            Ok(()) => {
                let count: usize = planned.len();
                if index + 1 < count {
                    RoutesAction::Add(index + 1)
                } else {
                    RoutesAction::Done(Ok(()))
                }
            },
            Err(e) => RoutesAction::Done(Err(e)),
        },
    }
}

/// What is said of a route that cannot be added names the route, the device and the code with
/// which the command ended; one that ended with none counts as -1.
pub proof fn law_failed_route_is_named(subnet: Ipv4Net, dev_name: Seq<char>, code: i32)
    ensures
        add_failure(subnet, dev_name, Some(code)) == "failed to add route "@ + subnet@.text()
            + " dev "@ + dev_name + ": ip exited with "@ + text::signed_decimal(code as int),
        add_failure(subnet, dev_name, None) == "failed to add route "@ + subnet@.text() + " dev "@
            + dev_name + ": ip exited with "@ + text::signed_decimal(-1),
{
}

/// Routes are added one after the other: behind one that was added, or was there already, comes
/// the next, and behind the last of them all is done. The first that cannot be added ends it,
/// with its error.
pub proof fn law_routes_are_added_in_turn(
    index: int,
    planned: int,
    exists_code: i32,
    code: Option<i32>,
    error: IoError,
)
    requires
        0 <= index < planned <= usize::MAX,
    ensures
        index + 1 < planned ==> after_route(index, Ok(()), planned, exists_code)
            == RoutesAction::Add((index + 1) as usize),
        index + 1 == planned ==> after_route(index, Ok(()), planned, exists_code)
            == RoutesAction::Done(Ok(())),
        code == Some(exists_code) ==> after_route(
            index,
            Err(SystemError { os_error: code, error }),
            planned,
            exists_code,
        ) == after_route(index, Ok(()), planned, exists_code),
        code != Some(exists_code) ==> after_route(
            index,
            Err(SystemError { os_error: code, error }),
            planned,
            exists_code,
        ) == RoutesAction::Done(Err(error)),
{
}

/// A route is there once the command that adds it or the one that shows it has ended well. Where
/// the first did not, the second is run; where neither did, the route has failed.
pub proof fn law_route_is_added_or_found(
    added: CommandEnd,
    shown: CommandEnd,
    subnet: Ipv4Net,
    dev_name: &str,
    first: RouteAction,
    second: RouteAction,
)
    requires
        call_ensures(route_step, (RouteEvent::Added(Ok(added)), subnet, dev_name), first),
        call_ensures(
            route_step,
            (RouteEvent::Shown { added, shown: Ok(shown) }, subnet, dev_name),
            second,
        ),
    ensures
        first is Done <==> added.success,
        first is Show <==> !added.success,
        second is Done <==> shown.success,
        second is Fail <==> !shown.success,
{
}

/// A command that cannot be run fails the route with the very error, whichever of the two it is.
pub proof fn law_command_that_cannot_run_fails_the_route(
    e: IoError,
    added: CommandEnd,
    subnet: Ipv4Net,
    dev_name: &str,
    first: RouteAction,
    second: RouteAction,
)
    requires
        call_ensures(route_step, (RouteEvent::Added(Err(e)), subnet, dev_name), first),
        call_ensures(
            route_step,
            (RouteEvent::Shown { added, shown: Err(e) }, subnet, dev_name),
            second,
        ),
    ensures
        first == RouteAction::Fail(e),
        second == RouteAction::Fail(e),
{
}

/// That a route is there already is as good as that it was added; any other error is kept.
pub proof fn law_route_that_is_there_is_added(
    code: Option<i32>,
    error: IoError,
    exists_code: i32,
    r: Result<(), IoError>,
)
    requires
        call_ensures(route_added, (Err(SystemError { os_error: code, error }), exists_code), r),
    ensures
        r is Ok <==> code == Some(exists_code),
        r matches Err(e) ==> e == error,
{
}

/// The way to the system's routes is opened if and only if there is a route to add, and the
/// first one then comes first.
pub proof fn law_nothing_is_opened_for_no_routes(
    planned: &[RouteEntry],
    exists_code: i32,
    e: IoError,
    start: RoutesAction,
    opened: RoutesAction,
    shut: RoutesAction,
)
    requires
        call_ensures(routes_step, (RoutesEvent::Planned, planned, exists_code), start),
        call_ensures(routes_step, (RoutesEvent::Opened(Ok(())), planned, exists_code), opened),
        call_ensures(routes_step, (RoutesEvent::Opened(Err(e)), planned, exists_code), shut),
    ensures
        start is Open <==> planned@.len() > 0,
        planned@.len() == 0 ==> start == RoutesAction::Done(Ok(())),
        opened == RoutesAction::Add(0),
        shut == RoutesAction::Done(Err(e)),
{
}

} // verus!
