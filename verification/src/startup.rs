//! From the settings of a run to a fleet that is ready to go: the addresses
//! are checked first, and only where all of them parse is any loop planned.

use crate::connection::{channel_accepts, ConnectionError, ConnectionPlan, PlanView, Target};
use crate::fleet::Fleet;
use crate::scheduler::Scheduler;
use vstd::prelude::*;

verus! {

/// The settings of a run.
#[derive(Debug, PartialEq, Eq)]
pub struct Config {
    /// Address of the replica that takes the writes.
    pub leader: String,
    /// Addresses of the replicas that serve the reads, in round-robin order.
    pub followers: Vec<String>,
    /// Number of readers at startup.
    pub readers: usize,
    /// Number of writers at startup.
    pub writers: usize,
    /// Size in bytes of the payload of every write.
    pub payload_size: usize,
}

/// A run that may begin: the replicas to connect to and the scheduler with
/// the fleet to start once they are connected.
#[derive(Debug)]
pub struct Startup {
    pub plan: ConnectionPlan,
    pub scheduler: Scheduler,
}

impl Startup {
    /// Checks the addresses and lays out the fleet.
    ///
    /// A malformed address is fatal: the first one, leader before followers,
    /// is returned as the error, and then there is no scheduler and no loop.
    /// Otherwise the plan holds the addresses as given, and the scheduler
    /// the fleet at startup, with one follower to deal readers to for each
    /// follower address.
    pub fn prepare(config: Config) -> (outcome: Result<Startup, ConnectionError>)
        ensures
            match outcome {
                Ok(startup) => {
                    &&& startup.plan@ == PlanView::of(config.leader@, config.followers@)
                    &&& startup.plan@.accepted()
                    &&& startup.scheduler.wf()
                    &&& startup.scheduler@ == Fleet::initial(
                        config.writers,
                        config.readers,
                        config.payload_size,
                        config.followers@.len() as usize,
                    )
                },
                Err(ConnectionError::MalformedAddress(target)) => PlanView::of(
                    config.leader@,
                    config.followers@,
                ).first_rejected(target),
            },
            !channel_accepts(config.leader@) || config.leader@.len() == 0 ==> outcome matches Err(
                ConnectionError::MalformedAddress(Target::Leader),
            ),
    {
        let followers = config.followers.len();
        match ConnectionPlan::new(config.leader, config.followers) {
            Ok(plan) => {
                let scheduler = Scheduler::start(
                    config.writers,
                    config.readers,
                    config.payload_size,
                    followers,
                );
                Ok(Startup { plan, scheduler })
            },
            Err(error) => Err(error),
        }
    }
}

} // verus!
