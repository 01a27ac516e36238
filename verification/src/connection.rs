//! Addresses of the replicas, checked before anything is connected.
//!
//! The leader takes the writes and each follower serves reads. An address
//! that cannot be parsed ends the startup: the first such address, leader
//! first and then the followers in the order given, is reported.

use vstd::prelude::*;

verus! {

/// One replica of the cluster.
#[derive(Debug, Clone, Copy, PartialEq, Eq, Structural)]
pub enum Target {
    /// The replica that accepts writes.
    Leader,
    /// The follower at this position of the follower list.
    Follower(usize),
}

impl Target {
    /// Position of the replica in the order in which addresses are checked
    /// and connected: the leader at 0, follower `i` at `i + 1`.
    pub open spec fn position(self) -> int {
        match self {
            Target::Leader => 0,
            Target::Follower(i) => i + 1,
        }
    }
}

/// Why the startup was given up.
#[derive(Debug, Clone, Copy, PartialEq, Eq, Structural)]
pub enum ConnectionError {
    /// The address of this replica cannot be parsed.
    MalformedAddress(Target),
}

/// Whether `tonic::transport::Channel::from_shared` accepts `address`. The
/// answer is that of the URI parser that tonic hands the text to, and
/// depends on nothing but the text.
pub uninterp spec fn channel_accepts(address: Seq<char>) -> bool;

/// Hands `address` to `tonic::transport::Channel::from_shared` and reports
/// whether an endpoint came back. The call parses the text as a URI and
/// does nothing else: no name is resolved and nothing is connected. It
/// rejects the empty text.
#[verifier::external_body]
fn channel_from_shared(address: &str) -> (accepted: bool)
    ensures
        accepted == channel_accepts(address@),
        address@.len() == 0 ==> !accepted,
{
    tonic::transport::Channel::from_shared(address.to_owned()).is_ok()
}

/// `position` is the first at which `checks` says no.
pub open spec fn is_first_rejected(checks: Seq<bool>, position: int) -> bool {
    &&& 0 <= position < checks.len()
    &&& !checks[position]
    &&& forall|j: int| 0 <= j < position ==> checks[j]
}

/// Judges the outcome of the checks, one per address in checking order:
/// all is well where every address was accepted, and otherwise the first
/// rejected address is the error.
pub fn verdict(checks: &Vec<bool>) -> (outcome: Result<(), ConnectionError>)
    ensures
        match outcome {
            Ok(()) => forall|i: int| 0 <= i < checks@.len() ==> checks@[i],
            Err(ConnectionError::MalformedAddress(target)) => is_first_rejected(
                checks@,
                target.position(),
            ),
        },
{
    let mut i: usize = 0;
    while i < checks.len()
        invariant
            i <= checks@.len(),
            forall|j: int| 0 <= j < i ==> checks@[j],
        decreases checks@.len() - i,
    {
        if !checks[i] {
            let target = if i == 0 {
                Target::Leader
            } else {
                Target::Follower(i - 1)
            };
            return Err(ConnectionError::MalformedAddress(target));
        }
        i = i + 1;
    }
    Ok(())
}

/// What a connection plan holds, as plain values.
pub struct PlanView {
    pub leader: Seq<char>,
    pub followers: Seq<Seq<char>>,
}

impl PlanView {
    /// The plan for these addresses.
    pub open spec fn of(leader: Seq<char>, followers: Seq<String>) -> PlanView {
        PlanView { leader, followers: Seq::new(followers.len(), |i: int| followers[i]@) }
    }

    /// The addresses in the order in which they are checked and connected:
    /// the leader's, then the followers'.
    pub open spec fn addresses(self) -> Seq<Seq<char>> {
        seq![self.leader] + self.followers
    }

    /// For each address, in that order, whether it is accepted.
    pub open spec fn acceptance(self) -> Seq<bool> {
        Seq::new(self.addresses().len(), |i: int| channel_accepts(self.addresses()[i]))
    }

    /// Every address is accepted.
    pub open spec fn accepted(self) -> bool {
        forall|i: int| 0 <= i < self.acceptance().len() ==> self.acceptance()[i]
    }

    /// The address of `target` is the first that is not accepted.
    pub open spec fn first_rejected(self, target: Target) -> bool {
        is_first_rejected(self.acceptance(), target.position())
    }
}

/// The replicas to connect to, every address checked: one connection for
/// the leader and one for each follower, in the order given.
#[derive(Debug)]
pub struct ConnectionPlan {
    leader: String,
    followers: Vec<String>,
}

impl View for ConnectionPlan {
    type V = PlanView;

    closed spec fn view(&self) -> PlanView {
        PlanView::of(self.leader@, self.followers@)
    }
}

impl ConnectionPlan {
    /// Checks the leader's address and then each follower's, in the order
    /// given. The plan is made where all are accepted; otherwise the first
    /// that is not is the error and no plan is made. An empty address is
    /// never accepted.
    pub fn new(leader: String, followers: Vec<String>) -> (outcome: Result<
        ConnectionPlan,
        ConnectionError,
    >)
        ensures
            match outcome {
                Ok(plan) => plan@ == PlanView::of(leader@, followers@) && plan@.accepted(),
                Err(ConnectionError::MalformedAddress(target)) => PlanView::of(
                    leader@,
                    followers@,
                ).first_rejected(target),
            },
            !channel_accepts(leader@) || leader@.len() == 0 ==> outcome matches Err(
                ConnectionError::MalformedAddress(Target::Leader),
            ),
    {
        let ghost expected = PlanView::of(leader@, followers@).acceptance();
        let mut checks: Vec<bool> = Vec::new();
        checks.push(channel_from_shared(leader.as_str()));
        let mut i: usize = 0;
        while i < followers.len()
            invariant
                i <= followers@.len(),
                expected == PlanView::of(leader@, followers@).acceptance(),
                checks@.len() == i + 1,
                forall|j: int| 0 <= j <= i ==> checks@[j] == expected[j],
            decreases followers@.len() - i,
        {
            checks.push(channel_from_shared(followers[i].as_str()));
            i = i + 1;
        }
        assert(checks@ =~= expected);
        assert(checks@[0] == channel_accepts(leader@));
        match verdict(&checks) {
            Ok(()) => Ok(ConnectionPlan { leader, followers }),
            Err(error) => Err(error),
        }
    }

    /// The address of the leader.
    pub fn leader(&self) -> (address: &str)
        ensures
            address@ == self@.leader,
    {
        self.leader.as_str()
    }

    /// Number of followers.
    pub fn follower_count(&self) -> (count: usize)
        ensures
            count == self@.followers.len(),
    {
        self.followers.len()
    }

    /// The address of the follower at `position` of the follower list, or
    /// `None` past its end.
    pub fn follower(&self, position: usize) -> (address: Option<&str>)
        ensures
            match address {
                Some(text) => position < self@.followers.len() && text@ == self@.followers[
                    position as int
                ],
                None => position >= self@.followers.len(),
            },
    {
        if position < self.followers.len() {
            Some(self.followers[position].as_str())
        } else {
            None
        }
    }
}

} // verus!
