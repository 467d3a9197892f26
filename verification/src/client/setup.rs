//! How the client's end of the tunnel is set up.
use vstd::prelude::*;

use crate::client::ClientTunParams;
use crate::io_error::IoError;
use crate::net::Ipv4Net;

verus! {

/// What is set up, in this order.
#[derive(Debug, Clone, Copy, PartialEq, Eq, Structural)]
pub enum SetupStage {
    Device,
    SubnetRoute,
    ExtraRoutes,
}

impl SetupStage {
    /// What is said where this cannot be set up.
    pub open spec fn failure(self) -> Seq<char> {
        match self {
            SetupStage::Device => "failed to create client TUN device"@,
            SetupStage::SubnetRoute => "failed to configure subnet route"@,
            SetupStage::ExtraRoutes => "failed to add extra routes"@,
        }
    }

    /// What is said where this cannot be set up.
    pub fn failure_text(self) -> (r: &'static str)
        ensures
            r@ == self.failure(),
    {
        match self {
            SetupStage::Device => "failed to create client TUN device",
            SetupStage::SubnetRoute => "failed to configure subnet route",
            SetupStage::ExtraRoutes => "failed to add extra routes",
        }
    }
}

/// What has happened so far.
#[derive(Debug)]
pub enum SetupEvent {
    /// The device was made, and told its name, if it could; or it could not be made.
    Created(Result<Option<String>, IoError>),
    /// The route to the subnet through the device was set up, or could not be.
    SubnetRouted { dev_name: String, outcome: Result<(), IoError> },
    /// The other routes were set up, or could not be.
    RoutesAdded(Result<(), IoError>),
}

/// What has to be done next.
#[derive(Debug)]
pub enum SetupAction {
    EnsureSubnetRoute { dev_name: String, subnet: Ipv4Net },
    AddRoutes { dev_name: String, routes: Vec<Ipv4Net> },
    Ready,
    Fail { stage: SetupStage, error: IoError },
}

/// The next step: the device comes first, then the route to its subnet, then the other routes.
/// The first step that fails is the last. A device that cannot tell its name has an empty one.
pub fn setup_step(event: SetupEvent, params: &ClientTunParams) -> (r: SetupAction)
    ensures
        match event {
            SetupEvent::Created(Ok(name)) => match r {
                SetupAction::EnsureSubnetRoute { dev_name, subnet } => {
                    &&& subnet == params.subnet
                    &&& dev_name@ == match name {
                        Some(n) => n@,
                        None => Seq::empty(),
                    }
                },
                _ => false,
            },
            SetupEvent::Created(Err(e)) => r == (SetupAction::Fail {
                stage: SetupStage::Device,
                error: e,
            }),
            SetupEvent::SubnetRouted { dev_name: dev, outcome: Ok(()) } => match r {
                SetupAction::AddRoutes { dev_name, routes } => dev_name == dev && routes@
                    == params.routes@,
                _ => false,
            },
            SetupEvent::SubnetRouted { dev_name: _, outcome: Err(e) } => r == (SetupAction::Fail {
                stage: SetupStage::SubnetRoute,
                error: e,
            }),
            SetupEvent::RoutesAdded(Ok(())) => r == SetupAction::Ready,
            SetupEvent::RoutesAdded(Err(e)) => r == (SetupAction::Fail {
                stage: SetupStage::ExtraRoutes,
                error: e,
            }),
        },
{
    match event {
        SetupEvent::Created(Ok(name)) => {
            let dev_name = match name {
                Some(n) => n,
                None => {
                    let n = String::new();
                    assert(n@ =~= Seq::<char>::empty());
                    n
                },
            };
            SetupAction::EnsureSubnetRoute { dev_name, subnet: params.subnet }
        },
        SetupEvent::Created(Err(e)) => SetupAction::Fail { stage: SetupStage::Device, error: e },
        SetupEvent::SubnetRouted { dev_name, outcome: Ok(()) } => {
            let mut routes: Vec<Ipv4Net> = Vec::new();
            let mut i: usize = 0;
            while i < params.routes.len()
                invariant
                    i <= params.routes@.len(),
                    routes@ == params.routes@.take(i as int),
                decreases params.routes@.len() - i,
            {
                routes.push(params.routes[i]);
                assert(routes@ =~= params.routes@.take(i + 1));
                i = i + 1;
            }
            assert(params.routes@.take(i as int) =~= params.routes@);
            SetupAction::AddRoutes { dev_name, routes }
        },
        SetupEvent::SubnetRouted { dev_name: _, outcome: Err(e) } => SetupAction::Fail {
            stage: SetupStage::SubnetRoute,
            error: e,
        },
        SetupEvent::RoutesAdded(Ok(())) => SetupAction::Ready,
        SetupEvent::RoutesAdded(Err(e)) => SetupAction::Fail {
            stage: SetupStage::ExtraRoutes,
            error: e,
        },
    }
}

/// What is said of each step that fails.
pub proof fn law_failed_steps_have_their_words()
    ensures
        SetupStage::Device.failure() == "failed to create client TUN device"@,
        SetupStage::SubnetRoute.failure() == "failed to configure subnet route"@,
        SetupStage::ExtraRoutes.failure() == "failed to add extra routes"@,
{
}

/// Where nothing fails, setting up goes from the device to the route to its subnet, on to the
/// other routes, all of them and in order, and is then ready.
pub proof fn law_setup_goes_through(
    name: String,
    params: &ClientTunParams,
    first: SetupAction,
    second: SetupAction,
    third: SetupAction,
)
    requires
        call_ensures(setup_step, (SetupEvent::Created(Ok(Some(name))), params), first),
        call_ensures(
            setup_step,
            (SetupEvent::SubnetRouted { dev_name: name, outcome: Ok(()) }, params),
            second,
        ),
        call_ensures(setup_step, (SetupEvent::RoutesAdded(Ok(())), params), third),
    ensures
        match first {
            SetupAction::EnsureSubnetRoute { dev_name, subnet } => dev_name@ == name@ && subnet
                == params.subnet,
            _ => false,
        },
        match second {
            SetupAction::AddRoutes { dev_name, routes } => dev_name@ == name@ && routes@
                == params.routes@,
            _ => false,
        },
        third == SetupAction::Ready,
{
}

/// A step that fails is the last, and is told with its own name and its error.
pub proof fn law_setup_ends_with_the_first_failure(
    name: String,
    e: IoError,
    params: &ClientTunParams,
    first: SetupAction,
    second: SetupAction,
    third: SetupAction,
)
    requires
        call_ensures(setup_step, (SetupEvent::Created(Err(e)), params), first),
        call_ensures(
            setup_step,
            (SetupEvent::SubnetRouted { dev_name: name, outcome: Err(e) }, params),
            second,
        ),
        call_ensures(setup_step, (SetupEvent::RoutesAdded(Err(e)), params), third),
    ensures
        first == (SetupAction::Fail { stage: SetupStage::Device, error: e }),
        second == (SetupAction::Fail { stage: SetupStage::SubnetRoute, error: e }),
        third == (SetupAction::Fail { stage: SetupStage::ExtraRoutes, error: e }),
{
}

} // verus!
