//! The organization as a mathematical value, and what each operation does to
//! it. The executable state in `dao` is proved to follow these transitions
//! exactly.

use vstd::prelude::*;
use crate::error::DAOError;
use crate::resolution::{passes, resolution_overflows};
use crate::word::word_bound;

verus! {

/// Where a proposal stands: open for votes, or decided once and for all.
#[derive(Clone, Copy, Debug, PartialEq, Eq, Structural)]
pub enum Status {
    Open,
    Decided { passed: bool },
}

/// A slot of the member roster. Removal clears `is_member` and leaves the
/// slot in place.
pub struct MemberModel {
    pub address: Seq<u8>,
    pub is_member: bool,
    pub voting_power: nat,
    pub joined_at: nat,
}

pub struct ProposalModel {
    pub description: Seq<char>,
    pub proposer: Seq<u8>,
    pub for_votes: nat,
    pub against_votes: nat,
    pub start_time: nat,
    pub end_time: nat,
    pub status: Status,
    /// Everyone who has voted, in the order they voted.
    pub voters: Seq<Seq<u8>>,
}

/// A notification for outside observers, emitted after the change it reports.
pub enum NotificationModel {
    MemberAdded { member: Seq<u8>, voting_power: nat },
    MemberRemoved { member: Seq<u8> },
    ProposalCreated { proposal_id: nat, description: Seq<char>, proposer: Seq<u8> },
    VoteCast { proposal_id: nat, voter: Seq<u8>, support: bool, weight: nat },
    ProposalExecuted { proposal_id: nat, passed: bool },
}

pub struct DAOModel {
    pub name: Seq<char>,
    pub creator: Seq<u8>,
    pub voting_period: nat,
    pub quorum_percentage: nat,
    /// The roster: every address that was ever added, once each.
    pub members: Seq<MemberModel>,
    /// Proposal `i` has id `i`.
    pub proposals: Seq<ProposalModel>,
    /// Notifications not yet handed out.
    pub pending: Seq<NotificationModel>,
}

/// The weight that a roster slot contributes to the total.
pub open spec fn contribution(m: MemberModel) -> nat {
    if m.is_member {
        m.voting_power
    } else {
        0
    }
}

/// The summed weight of the active slots of a roster.
pub open spec fn active_power(members: Seq<MemberModel>) -> nat
    decreases members.len(),
{
    if members.len() == 0 {
        0
    } else {
        active_power(members.drop_last()) + contribution(members.last())
    }
}

/// The number of active slots of a roster.
pub open spec fn active_count(members: Seq<MemberModel>) -> nat
    decreases members.len(),
{
    if members.len() == 0 {
        0
    } else {
        active_count(members.drop_last()) + if members.last().is_member {
            1nat
        } else {
            0nat
        }
    }
}

/// No address holds two slots of `members`, and `creator` holds an active one.
pub open spec fn roster_wf(members: Seq<MemberModel>, creator: Seq<u8>) -> bool {
    &&& forall|i: int, j: int|
        0 <= i < j < members.len() ==> #[trigger] members[i].address
            != #[trigger] members[j].address
    &&& exists|i: int|
        0 <= i < members.len() && #[trigger] members[i].address == creator
            && members[i].is_member
}

impl DAOModel {
    /// A new organization whose only member is `creator`, with weight 1,
    /// joined at `now`.
    pub open spec fn initial(
        name: Seq<char>,
        creator: Seq<u8>,
        voting_period: nat,
        quorum_percentage: nat,
        now: nat,
    ) -> DAOModel {
        DAOModel {
            name,
            creator,
            voting_period,
            quorum_percentage,
            members: seq![MemberModel { address: creator, is_member: true, voting_power: 1, joined_at: now }],
            proposals: Seq::empty(),
            pending: Seq::empty(),
        }
    }

    /// `a` holds a roster slot, active or not.
    pub open spec fn listed(self, a: Seq<u8>) -> bool {
        exists|i: int| 0 <= i < self.members.len() && #[trigger] self.members[i].address == a
    }

    /// The roster slot of a listed address.
    pub open spec fn index_of(self, a: Seq<u8>) -> int
        recommends
            self.listed(a),
    {
        choose|i: int| 0 <= i < self.members.len() && #[trigger] self.members[i].address == a
    }

    /// `a` is an active member.
    pub open spec fn is_member(self, a: Seq<u8>) -> bool {
        exists|i: int|
            0 <= i < self.members.len() && #[trigger] self.members[i].address == a
                && self.members[i].is_member
    }

    /// The current voting weight of a listed address.
    pub open spec fn weight_of(self, a: Seq<u8>) -> nat {
        self.members[self.index_of(a)].voting_power
    }

    /// The sum of the voting weights of the active members.
    pub open spec fn total_voting_power(self) -> nat {
        active_power(self.members)
    }

    /// The number of active members.
    pub open spec fn member_count(self) -> nat {
        active_count(self.members)
    }

    /// No address holds two roster slots, and the creator is an active member.
    pub open spec fn wf(self) -> bool {
        roster_wf(self.members, self.creator)
    }

    pub open spec fn add_member(self, caller: Seq<u8>, member: Seq<u8>, voting_power: nat, now: nat) -> (
        DAOModel,
        Result<(), DAOError>,
    ) {
        if !self.is_member(caller) {
            (self, Err(DAOError::NotMember))
        } else if self.is_member(member) {
            (self, Err(DAOError::AlreadyMember))
        } else if voting_power == 0 {
            (self, Err(DAOError::InvalidVotingPower))
        } else {
            let entry = MemberModel { address: member, is_member: true, voting_power, joined_at: now };
            let members = if self.listed(member) {
                self.members.update(self.index_of(member), entry)
            } else {
                self.members.push(entry)
            };
            let note = NotificationModel::MemberAdded { member, voting_power };
            (DAOModel { members, pending: self.pending.push(note), ..self }, Ok(()))
        }
    }

    pub open spec fn remove_member(self, caller: Seq<u8>, member: Seq<u8>) -> (
        DAOModel,
        Result<(), DAOError>,
    ) {
        if !self.is_member(caller) || !self.is_member(member) {
            (self, Err(DAOError::NotMember))
        } else if member == self.creator {
            (self, Err(DAOError::CannotRemoveCreator))
        } else {
            let i = self.index_of(member);
            let entry = MemberModel { is_member: false, ..self.members[i] };
            let note = NotificationModel::MemberRemoved { member };
            (
                DAOModel {
                    members: self.members.update(i, entry),
                    pending: self.pending.push(note),
                    ..self
                },
                Ok(()),
            )
        }
    }

    pub open spec fn create_proposal(self, caller: Seq<u8>, description: Seq<char>, now: nat) -> (
        DAOModel,
        Result<nat, DAOError>,
    ) {
        if !self.is_member(caller) {
            (self, Err(DAOError::NotMember))
        } else if now + self.voting_period >= word_bound() {
            (self, Err(DAOError::Overflow))
        } else {
            let id = self.proposals.len();
            let p = ProposalModel {
                description,
                proposer: caller,
                for_votes: 0,
                against_votes: 0,
                start_time: now,
                end_time: now + self.voting_period,
                status: Status::Open,
                voters: Seq::empty(),
            };
            let note = NotificationModel::ProposalCreated { proposal_id: id, description, proposer: caller };
            (
                DAOModel {
                    proposals: self.proposals.push(p),
                    pending: self.pending.push(note),
                    ..self
                },
                Ok(id),
            )
        }
    }

    /// A vote is rejected unless the caller is an active member and the
    /// proposal exists, is before its end time, has no vote from the caller
    /// yet, and is undecided. An id that no proposal has counts as a proposal
    /// whose end time is 0, long past.
    pub open spec fn vote(self, caller: Seq<u8>, id: nat, support: bool, now: nat) -> (
        DAOModel,
        Result<(), DAOError>,
    ) {
        if !self.is_member(caller) {
            (self, Err(DAOError::NotMember))
        } else if id >= self.proposals.len() || now >= self.proposals[id as int].end_time {
            (self, Err(DAOError::VotingPeriodEnded))
        } else if self.proposals[id as int].voters.contains(caller) {
            (self, Err(DAOError::AlreadyVoted))
        } else if self.proposals[id as int].status != Status::Open {
            (self, Err(DAOError::VotingPeriodEnded))
        } else {
            let p = self.proposals[id as int];
            let weight = self.weight_of(caller);
            let tally = if support {
                p.for_votes + weight
            } else {
                p.against_votes + weight
            };
            if tally >= word_bound() {
                (self, Err(DAOError::Overflow))
            } else {
                let voters = p.voters.push(caller);
                let p2 = if support {
                    ProposalModel { for_votes: tally, voters, ..p }
                } else {
                    ProposalModel { against_votes: tally, voters, ..p }
                };
                let note = NotificationModel::VoteCast { proposal_id: id, voter: caller, support, weight };
                (
                    DAOModel {
                        proposals: self.proposals.update(id as int, p2),
                        pending: self.pending.push(note),
                        ..self
                    },
                    Ok(()),
                )
            }
        }
    }

    pub open spec fn execute_proposal(self, id: nat, now: nat) -> (DAOModel, Result<(), DAOError>) {
        if id >= self.proposals.len() {
            (self, Err(DAOError::ProposalNotFound))
        } else if now < self.proposals[id as int].end_time {
            (self, Err(DAOError::VotingPeriodNotEnded))
        } else if self.proposals[id as int].status != Status::Open {
            (self, Err(DAOError::AlreadyExecuted))
        } else {
            let p = self.proposals[id as int];
            let total = self.total_voting_power();
            if total >= word_bound() || resolution_overflows(
                p.for_votes,
                p.against_votes,
                total,
                self.quorum_percentage,
            ) {
                (self, Err(DAOError::Overflow))
            } else {
                let passed = passes(p.for_votes, p.against_votes, total, self.quorum_percentage);
                let p2 = ProposalModel { status: Status::Decided { passed }, ..p };
                let note = NotificationModel::ProposalExecuted { proposal_id: id, passed };
                (
                    DAOModel {
                        proposals: self.proposals.update(id as int, p2),
                        pending: self.pending.push(note),
                        ..self
                    },
                    Ok(()),
                )
            }
        }
    }
}

/// Appending a slot adds its contribution to the roster's power.
pub proof fn lemma_active_power_push(members: Seq<MemberModel>, m: MemberModel)
    ensures
        active_power(members.push(m)) == active_power(members) + contribution(m),
        active_count(members.push(m)) == active_count(members) + if m.is_member {
            1nat
        } else {
            0nat
        },
{
    assert(members.push(m).drop_last() =~= members);
}

/// Replacing slot `i` trades its contribution for the new slot's.
pub proof fn lemma_active_power_update(members: Seq<MemberModel>, i: int, m: MemberModel)
    requires
        0 <= i < members.len(),
    ensures
        active_power(members.update(i, m)) + contribution(members[i]) == active_power(members)
            + contribution(m),
    decreases members.len(),
{
    let u = members.update(i, m);
    if i == members.len() - 1 {
        assert(u.drop_last() =~= members.drop_last());
    } else {
        lemma_active_power_update(members.drop_last(), i, m);
        assert(u.drop_last() =~= members.drop_last().update(i, m));
    }
}

/// The power of a prefix of the roster does not exceed that of the roster.
pub proof fn lemma_active_power_prefix(members: Seq<MemberModel>, k: int)
    requires
        0 <= k <= members.len(),
    ensures
        active_power(members.take(k)) <= active_power(members),
    decreases members.len(),
{
    if k < members.len() {
        lemma_active_power_prefix(members.drop_last(), k);
        assert(members.drop_last().take(k) =~= members.take(k));
    } else {
        assert(members.take(k) =~= members);
    }
}

impl DAOModel {
    /// In a roster without repeated addresses, the slot holding `a` is the
    /// one that `index_of` picks.
    pub proof fn lemma_index_of(self, i: int)
        requires
            self.wf(),
            0 <= i < self.members.len(),
        ensures
            self.listed(self.members[i].address),
            self.index_of(self.members[i].address) == i,
            self.is_member(self.members[i].address) == self.members[i].is_member,
    {
        let a = self.members[i].address;
        assert(self.listed(a));
        let j = self.index_of(a);
        assert(self.members[j].address == a);
        if j < i {
            assert(self.members[j].address != self.members[i].address);
        } else if i < j {
            assert(self.members[i].address != self.members[j].address);
        }
        if self.is_member(a) {
            let k = choose|k: int|
                0 <= k < self.members.len() && #[trigger] self.members[k].address == a
                    && self.members[k].is_member;
            if k < i {
                assert(self.members[k].address != self.members[i].address);
            } else if i < k {
                assert(self.members[i].address != self.members[k].address);
            }
        }
    }

    /// An active member holds the slot that `index_of` picks, and it is active.
    pub proof fn lemma_member_slot(self, a: Seq<u8>)
        requires
            self.wf(),
            self.is_member(a),
        ensures
            self.listed(a),
            0 <= self.index_of(a) < self.members.len(),
            self.members[self.index_of(a)].address == a,
            self.members[self.index_of(a)].is_member,
    {
        let k = choose|k: int|
            0 <= k < self.members.len() && #[trigger] self.members[k].address == a
                && self.members[k].is_member;
        self.lemma_index_of(k);
    }

    /// Changing the roster only at slot `i`, keeping its address, keeps the
    /// roster free of repeats.
    pub proof fn lemma_wf_update(self, i: int, m: MemberModel, creator_slot: int)
        requires
            self.wf(),
            0 <= i < self.members.len(),
            m.address == self.members[i].address,
            0 <= creator_slot < self.members.len(),
            self.members[creator_slot].address == self.creator,
            creator_slot != i || m.is_member,
        ensures
            (DAOModel { members: self.members.update(i, m), ..self }).wf(),
    {
        let t = DAOModel { members: self.members.update(i, m), ..self };
        self.lemma_index_of(creator_slot);
        assert(t.members[creator_slot].address == t.creator);
        assert(t.members[creator_slot].is_member);
    }

    /// Appending a slot for an unlisted address keeps the roster free of
    /// repeats.
    pub proof fn lemma_wf_push(self, m: MemberModel)
        requires
            self.wf(),
            !self.listed(m.address),
        ensures
            (DAOModel { members: self.members.push(m), ..self }).wf(),
    {
        let t = DAOModel { members: self.members.push(m), ..self };
        let k = choose|k: int|
            0 <= k < self.members.len() && #[trigger] self.members[k].address == self.creator
                && self.members[k].is_member;
        assert(t.members[k] == self.members[k]);
        assert forall|i: int, j: int| 0 <= i < j < t.members.len() implies #[trigger] t.members[i].address
            != #[trigger] t.members[j].address by {
            if j == self.members.len() {
                assert(t.members[i] == self.members[i]);
            } else {
                assert(t.members[i] == self.members[i]);
                assert(t.members[j] == self.members[j]);
            }
        }
    }
}

impl DAOModel {
    /// Adding a member keeps the roster free of repeats and the creator in.
    pub proof fn lemma_add_member_wf(self, caller: Seq<u8>, member: Seq<u8>, voting_power: nat, now: nat)
        requires
            self.wf(),
        ensures
            self.add_member(caller, member, voting_power, now).0.wf(),
    {
        let (post, r) = self.add_member(caller, member, voting_power, now);
        if r is Ok {
            self.lemma_member_slot(self.creator);
            let entry = MemberModel { address: member, is_member: true, voting_power, joined_at: now };
            if self.listed(member) {
                let i = self.index_of(member);
                self.lemma_index_of(i);
                self.lemma_wf_update(i, entry, self.index_of(self.creator));
                let mid = DAOModel { members: self.members.update(i, entry), ..self };
                let k = choose|k: int|
                    0 <= k < mid.members.len() && #[trigger] mid.members[k].address == mid.creator
                        && mid.members[k].is_member;
                assert(post.members[k] == mid.members[k]);
            } else {
                self.lemma_wf_push(entry);
                let mid = DAOModel { members: self.members.push(entry), ..self };
                let k = choose|k: int|
                    0 <= k < mid.members.len() && #[trigger] mid.members[k].address == mid.creator
                        && mid.members[k].is_member;
                assert(post.members[k] == mid.members[k]);
            }
        }
    }

    /// Removing a member keeps the roster free of repeats and the creator in.
    pub proof fn lemma_remove_member_wf(self, caller: Seq<u8>, member: Seq<u8>)
        requires
            self.wf(),
        ensures
            self.remove_member(caller, member).0.wf(),
    {
        let (post, r) = self.remove_member(caller, member);
        if r is Ok {
            self.lemma_member_slot(self.creator);
            self.lemma_member_slot(member);
            let i = self.index_of(member);
            let entry = MemberModel { is_member: false, ..self.members[i] };
            self.lemma_wf_update(i, entry, self.index_of(self.creator));
            let mid = DAOModel { members: self.members.update(i, entry), ..self };
            let k = choose|k: int|
                0 <= k < mid.members.len() && #[trigger] mid.members[k].address == mid.creator
                    && mid.members[k].is_member;
            assert(post.members[k] == mid.members[k]);
        }
    }
}

} // verus!
