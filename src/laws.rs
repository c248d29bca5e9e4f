//! Laws of the organization that hold across operations, proved over the
//! transitions of `DAOModel`. The executable operations perform exactly those
//! transitions, so the laws hold of them too.

use vstd::prelude::*;
use crate::error::DAOError;
use crate::model::{
    lemma_active_power_push,
    lemma_active_power_update,
    DAOModel,
    MemberModel,
    Status,
};

verus! {

/// One call of an operation that changes the organization, with its
/// arguments.
pub enum Operation {
    AddMember { caller: Seq<u8>, member: Seq<u8>, voting_power: nat, now: nat },
    RemoveMember { caller: Seq<u8>, member: Seq<u8> },
    CreateProposal { caller: Seq<u8>, description: Seq<char>, now: nat },
    Vote { caller: Seq<u8>, proposal_id: nat, support: bool, now: nat },
    ExecuteProposal { proposal_id: nat, now: nat },
}

impl DAOModel {
    /// The state after one operation, whether it succeeded or was rejected.
    pub open spec fn apply(self, op: Operation) -> DAOModel {
        match op {
            Operation::AddMember { caller, member, voting_power, now } => self.add_member(
                caller,
                member,
                voting_power,
                now,
            ).0,
            Operation::RemoveMember { caller, member } => self.remove_member(caller, member).0,
            Operation::CreateProposal { caller, description, now } => self.create_proposal(
                caller,
                description,
                now,
            ).0,
            Operation::Vote { caller, proposal_id, support, now } => self.vote(
                caller,
                proposal_id,
                support,
                now,
            ).0,
            Operation::ExecuteProposal { proposal_id, now } => self.execute_proposal(
                proposal_id,
                now,
            ).0,
        }
    }

    /// The state after a sequence of operations, first to last.
    pub open spec fn run(self, ops: Seq<Operation>) -> DAOModel
        decreases ops.len(),
    {
        if ops.len() == 0 {
            self
        } else {
            self.apply(ops[0]).run(ops.drop_first())
        }
    }

    /// What every operation keeps: the creator and its roster slot exactly as
    /// they were (active, same weight), a well-formed roster, every
    /// existing proposal with its end time and voters, and every decided
    /// proposal exactly as it was.
    pub open spec fn keeps(self, t: DAOModel) -> bool {
        &&& t.wf()
        &&& t.creator == self.creator
        &&& t.members[t.index_of(t.creator)] == self.members[self.index_of(self.creator)]
        &&& t.proposals.len() >= self.proposals.len()
        &&& forall|id: int|
            0 <= id < self.proposals.len() ==> {
                &&& #[trigger] t.proposals[id].end_time == self.proposals[id].end_time
                &&& forall|a: Seq<u8>|
                    #[trigger] self.proposals[id].voters.contains(a)
                        ==> t.proposals[id].voters.contains(a)
                &&& self.proposals[id].status != Status::Open ==> t.proposals[id]
                    == self.proposals[id]
            }
    }
}

proof fn lemma_apply_keeps(s: DAOModel, op: Operation)
    requires
        s.wf(),
    ensures
        s.keeps(s.apply(op)),
{
    let t = s.apply(op);
    match op {
        Operation::AddMember { caller, member, voting_power, now } => {
            s.lemma_add_member_wf(caller, member, voting_power, now);
            s.lemma_member_slot(s.creator);
            let k = s.index_of(s.creator);
            if s.add_member(caller, member, voting_power, now).1 is Ok {
                assert(t.members[k] == s.members[k]);
                t.lemma_index_of(k);
            }
        },
        Operation::RemoveMember { caller, member } => {
            s.lemma_remove_member_wf(caller, member);
            s.lemma_member_slot(s.creator);
            let k = s.index_of(s.creator);
            if s.remove_member(caller, member).1 is Ok {
                s.lemma_member_slot(member);
                assert(t.members[k] == s.members[k]);
                t.lemma_index_of(k);
            }
        },
        Operation::CreateProposal { caller, description, now } => {
            assert forall|id: int| 0 <= id < s.proposals.len() implies #[trigger] t.proposals[id]
                == s.proposals[id] by {}
            assert(t.members == s.members);
        },
        Operation::Vote { caller, proposal_id, support, now } => {
            let r = s.vote(caller, proposal_id, support, now).1;
            if r is Ok {
                let j = proposal_id as int;
                assert forall|id: int, a: Seq<u8>|
                    0 <= id < s.proposals.len() && #[trigger] s.proposals[id].voters.contains(a)
                    implies t.proposals[id].voters.contains(a) by {
                    if id == j {
                        let k = choose|k: int|
                            0 <= k < s.proposals[id].voters.len() && s.proposals[id].voters[k]
                                == a;
                        assert(t.proposals[id].voters[k] == a);
                    }
                }
            }
            assert(t.members == s.members);
        },
        Operation::ExecuteProposal { proposal_id, now } => {
            assert(t.members == s.members);
        },
    }
}

/// Every sequence of operations keeps what each single one keeps.
pub proof fn lemma_run_keeps(s: DAOModel, ops: Seq<Operation>)
    requires
        s.wf(),
    ensures
        s.keeps(s.run(ops)),
    decreases ops.len(),
{
    if ops.len() == 0 {
        assert(s.keeps(s));
    } else {
        let u = s.apply(ops[0]);
        lemma_apply_keeps(s, ops[0]);
        lemma_run_keeps(u, ops.drop_first());
        let t = s.run(ops);
        assert(t == u.run(ops.drop_first()));
        assert(t.members[t.index_of(t.creator)] == u.members[u.index_of(u.creator)]);
        assert forall|id: int| 0 <= id < s.proposals.len() implies {
            &&& #[trigger] t.proposals[id].end_time == s.proposals[id].end_time
            &&& forall|a: Seq<u8>|
                #[trigger] s.proposals[id].voters.contains(a) ==> t.proposals[id].voters.contains(
                    a,
                )
            &&& s.proposals[id].status != Status::Open ==> t.proposals[id] == s.proposals[id]
        } by {
            assert(u.proposals[id].end_time == s.proposals[id].end_time);
            assert(t.proposals[id].end_time == u.proposals[id].end_time);
            assert forall|a: Seq<u8>| #[trigger]
                s.proposals[id].voters.contains(a) implies t.proposals[id].voters.contains(a) by {
                assert(u.proposals[id].voters.contains(a));
            }
        }
    }
}

/// Adding a member raises the total voting power by exactly the new weight,
/// removing one lowers it by exactly that member's weight, and a rejected
/// change leaves it as it was: the total is always the summed weight of the
/// active members, each counted once.
pub proof fn membership_changes_move_total_by_weight(
    s: DAOModel,
    caller: Seq<u8>,
    member: Seq<u8>,
    voting_power: nat,
    now: nat,
)
    requires
        s.wf(),
    ensures
        ({
            let (t, r) = s.add_member(caller, member, voting_power, now);
            &&& r is Ok ==> t.total_voting_power() == s.total_voting_power() + voting_power
            &&& r is Err ==> t.total_voting_power() == s.total_voting_power()
        }),
        ({
            let (t, r) = s.remove_member(caller, member);
            &&& r is Ok ==> s.is_member(member) && t.total_voting_power() + s.weight_of(member)
                == s.total_voting_power()
            &&& r is Err ==> t.total_voting_power() == s.total_voting_power()
        }),
{
    let entry = MemberModel { address: member, is_member: true, voting_power, joined_at: now };
    if s.add_member(caller, member, voting_power, now).1 is Ok {
        if s.listed(member) {
            let i = s.index_of(member);
            s.lemma_index_of(i);
            lemma_active_power_update(s.members, i, entry);
        } else {
            lemma_active_power_push(s.members, entry);
        }
    }
    if s.remove_member(caller, member).1 is Ok {
        s.lemma_member_slot(member);
        let i = s.index_of(member);
        lemma_active_power_update(s.members, i, MemberModel { is_member: false, ..s.members[i] });
    }
}

/// Whatever operations follow, in whatever order, the creator stays an
/// active member with the same roster slot and weight, and every attempt to
/// remove the creator is rejected.
pub proof fn creator_is_never_removed(s: DAOModel, ops: Seq<Operation>, caller: Seq<u8>)
    requires
        s.wf(),
    ensures
        s.run(ops).creator == s.creator,
        s.run(ops).is_member(s.creator),
        s.run(ops).members[s.run(ops).index_of(s.creator)] == s.members[s.index_of(s.creator)],
        s.run(ops).weight_of(s.creator) == s.weight_of(s.creator),
        s.run(ops).remove_member(caller, s.creator).1 is Err,
        s.run(ops).remove_member(caller, s.creator).0 == s.run(ops),
{
    lemma_run_keeps(s, ops);
}

/// From its creation on, whatever operations follow, an organization keeps
/// its creator as an active member with weight 1.
pub proof fn creator_keeps_initial_enrolment(
    name: Seq<char>,
    creator: Seq<u8>,
    voting_period: nat,
    quorum_percentage: nat,
    now: nat,
    ops: Seq<Operation>,
)
    ensures
        ({
            let t = DAOModel::initial(name, creator, voting_period, quorum_percentage, now).run(ops);
            &&& t.creator == creator
            &&& t.is_member(creator)
            &&& t.weight_of(creator) == 1
        }),
{
    let s = DAOModel::initial(name, creator, voting_period, quorum_percentage, now);
    assert(s.members[0].address == creator);
    assert(s.wf());
    s.lemma_index_of(0);
    lemma_run_keeps(s, ops);
}

/// Once a member has voted on a proposal, whatever operations follow, a
/// second vote by that member on that proposal is rejected and changes
/// nothing; while the member is active and the end time has not come, it is
/// rejected as a repeated vote, whether the proposal has been decided or not.
pub proof fn one_vote_per_member_and_proposal(
    s: DAOModel,
    caller: Seq<u8>,
    proposal_id: nat,
    support: bool,
    now: nat,
    ops: Seq<Operation>,
    again: bool,
    later: nat,
)
    requires
        s.wf(),
        s.vote(caller, proposal_id, support, now).1 is Ok,
    ensures
        ({
            let t = s.vote(caller, proposal_id, support, now).0.run(ops);
            let (u, r) = t.vote(caller, proposal_id, again, later);
            &&& u == t
            &&& r is Err
            &&& t.is_member(caller) && later < t.proposals[proposal_id as int].end_time ==> r == Err::<
                (),
                DAOError,
            >(DAOError::AlreadyVoted)
        }),
{
    let v = s.vote(caller, proposal_id, support, now).0;
    let id = proposal_id as int;
    let n = v.proposals[id].voters.len() - 1;
    assert(v.proposals[id].voters[n] == caller);
    assert(v.proposals[id].voters.contains(caller));
    lemma_apply_keeps(s, Operation::Vote { caller, proposal_id, support, now });
    lemma_run_keeps(v, ops);
}

/// A vote by an active member at or after a proposal's end time is rejected
/// because the period has ended; executing a proposal before its end time is
/// rejected because the period has not ended. Neither changes anything.
pub proof fn voting_window_is_enforced(
    s: DAOModel,
    caller: Seq<u8>,
    proposal_id: nat,
    support: bool,
    now: nat,
)
    requires
        proposal_id < s.proposals.len(),
    ensures
        s.is_member(caller) && now >= s.proposals[proposal_id as int].end_time ==> s.vote(
            caller,
            proposal_id,
            support,
            now,
        ) == (s, Err::<(), DAOError>(DAOError::VotingPeriodEnded)),
        now < s.proposals[proposal_id as int].end_time ==> s.execute_proposal(proposal_id, now) == (
            s,
            Err::<(), DAOError>(DAOError::VotingPeriodNotEnded),
        ),
{
}

/// Executing a proposal succeeds at most once: after the first success,
/// whatever operations follow, the outcome stays as first decided, and every
/// later execution is rejected and changes nothing (as already executed, once
/// the end time has passed).
pub proof fn execution_latches(
    s: DAOModel,
    proposal_id: nat,
    now: nat,
    ops: Seq<Operation>,
    later: nat,
)
    requires
        s.wf(),
        s.execute_proposal(proposal_id, now).1 is Ok,
    ensures
        ({
            let d = s.execute_proposal(proposal_id, now).0;
            let t = d.run(ops);
            let (u, r) = t.execute_proposal(proposal_id, later);
            &&& d.proposals[proposal_id as int].status != Status::Open
            &&& t.proposals[proposal_id as int] == d.proposals[proposal_id as int]
            &&& u == t
            &&& r is Err
            &&& later >= t.proposals[proposal_id as int].end_time ==> r == Err::<(), DAOError>(
                DAOError::AlreadyExecuted,
            )
        }),
{
    let d = s.execute_proposal(proposal_id, now).0;
    lemma_apply_keeps(s, Operation::ExecuteProposal { proposal_id, now });
    lemma_run_keeps(d, ops);
}

} // verus!
