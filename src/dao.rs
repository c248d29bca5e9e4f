//! The organization: membership registry, proposal store and voting engine.
//!
//! Every operation takes the caller's identity and the current time as plain
//! values and is all-or-nothing: a rejected operation leaves the state as it
//! was. Each one is proved to perform exactly the transition of the same name
//! on `DAOModel`.

use vstd::prelude::*;
use crate::address::Address;
use crate::error::DAOError;
use crate::model::{
    active_count,
    active_power,
    lemma_active_power_prefix,
    DAOModel,
    MemberModel,
    NotificationModel,
    ProposalModel,
    Status,
};
use crate::resolution::resolve;
use crate::word::{word_bound, Word};

verus! {

struct Member {
    address: Address,
    is_member: bool,
    voting_power: Word,
    joined_at: Word,
}

impl View for Member {
    type V = MemberModel;

    closed spec fn view(&self) -> MemberModel {
        MemberModel {
            address: self.address@,
            is_member: self.is_member,
            voting_power: self.voting_power.value(),
            joined_at: self.joined_at.value(),
        }
    }
}

struct Proposal {
    description: String,
    proposer: Address,
    for_votes: Word,
    against_votes: Word,
    start_time: Word,
    end_time: Word,
    status: Status,
    voters: Vec<Address>,
}

pub open spec fn addresses_view(v: Seq<Address>) -> Seq<Seq<u8>> {
    v.map_values(|a: Address| a@)
}

impl View for Proposal {
    type V = ProposalModel;

    closed spec fn view(&self) -> ProposalModel {
        ProposalModel {
            description: self.description@,
            proposer: self.proposer@,
            for_votes: self.for_votes.value(),
            against_votes: self.against_votes.value(),
            start_time: self.start_time.value(),
            end_time: self.end_time.value(),
            status: self.status,
            voters: addresses_view(self.voters@),
        }
    }
}

/// A notification for outside observers, queued after the change it reports.
#[derive(Debug, PartialEq, Eq)]
pub enum Notification {
    MemberAdded { member: Address, voting_power: Word },
    MemberRemoved { member: Address },
    ProposalCreated { proposal_id: Word, description: String, proposer: Address },
    VoteCast { proposal_id: Word, voter: Address, support: bool, weight: Word },
    ProposalExecuted { proposal_id: Word, passed: bool },
}

impl View for Notification {
    type V = NotificationModel;

    open spec fn view(&self) -> NotificationModel {
        match self {
            Notification::MemberAdded { member, voting_power } => NotificationModel::MemberAdded {
                member: member@,
                voting_power: voting_power.value(),
            },
            Notification::MemberRemoved { member } => NotificationModel::MemberRemoved {
                member: member@,
            },
            Notification::ProposalCreated { proposal_id, description, proposer } =>
                NotificationModel::ProposalCreated {
                proposal_id: proposal_id.value(),
                description: description@,
                proposer: proposer@,
            },
            Notification::VoteCast { proposal_id, voter, support, weight } =>
                NotificationModel::VoteCast {
                proposal_id: proposal_id.value(),
                voter: voter@,
                support: *support,
                weight: weight.value(),
            },
            Notification::ProposalExecuted { proposal_id, passed } =>
                NotificationModel::ProposalExecuted {
                proposal_id: proposal_id.value(),
                passed: *passed,
            },
        }
    }
}

pub open spec fn notifications_view(v: Seq<Notification>) -> Seq<NotificationModel> {
    v.map_values(|n: Notification| n@)
}

spec fn members_view(v: Seq<Member>) -> Seq<MemberModel> {
    v.map_values(|m: Member| m@)
}

spec fn proposals_view(v: Seq<Proposal>) -> Seq<ProposalModel> {
    v.map_values(|p: Proposal| p@)
}

/// Overwrites roster slot `i`.
fn replace_member(members: &mut Vec<Member>, i: usize, entry: Member)
    requires
        i < old(members)@.len(),
    ensures
        members_view(final(members)@) == members_view(old(members)@).update(i as int, entry@),
{
    members[i] = entry;
    proof {
        assert(members_view(members@) =~= members_view(old(members)@).update(i as int, entry@));
    }
}

/// Appends a roster slot.
fn push_member(members: &mut Vec<Member>, entry: Member)
    ensures
        members_view(final(members)@) == members_view(old(members)@).push(entry@),
{
    members.push(entry);
    proof {
        assert(members_view(members@) =~= members_view(old(members)@).push(entry@));
    }
}

/// The organization's whole state, owned by one value and changed only
/// through its operations. `init` builds a well-formed state and every
/// operation keeps it so; the operations ask for it in their preconditions.
pub struct DAO {
    name: String,
    creator: Address,
    voting_period: Word,
    quorum_percentage: Word,
    members: Vec<Member>,
    proposals: Vec<Proposal>,
    notifications: Vec<Notification>,
}

impl View for DAO {
    type V = DAOModel;

    closed spec fn view(&self) -> DAOModel {
        DAOModel {
            name: self.name@,
            creator: self.creator@,
            voting_period: self.voting_period.value(),
            quorum_percentage: self.quorum_percentage.value(),
            members: members_view(self.members@),
            proposals: proposals_view(self.proposals@),
            pending: notifications_view(self.notifications@),
        }
    }
}

impl DAO {
    /// A new organization whose only member is `creator`, with weight 1.
    pub fn init(
        name: String,
        creator: Address,
        voting_period: Word,
        quorum_percentage: Word,
        now: u64,
    ) -> (r: DAO)
        ensures
            r@.wf(),
            r@ == DAOModel::initial(
                name@,
                creator@,
                voting_period.value(),
                quorum_percentage.value(),
                now as nat,
            ),
    {
        let first = Member {
            address: creator,
            is_member: true,
            voting_power: Word::from_u64(1),
            joined_at: Word::from_u64(now),
        };
        let mut members: Vec<Member> = Vec::new();
        members.push(first);
        proof {
            assert(members_view(members@) =~= seq![first@]);
            assert(members_view(members@)[0].address == creator@);
        }
        let r = DAO {
            name,
            creator,
            voting_period,
            quorum_percentage,
            members,
            proposals: Vec::new(),
            notifications: Vec::new(),
        };
        proof {
            assert(r@.proposals =~= Seq::empty());
            assert(r@.pending =~= Seq::empty());
        }
        r
    }

    proof fn lemma_member_view(&self, i: int)
        requires
            0 <= i < self.members@.len(),
        ensures
            self@.members[i] == self.members@[i]@,
            self@.members.len() == self.members@.len(),
    {
    }

    /// The roster slot held by `a`, if any.
    fn find_member(&self, a: &Address) -> (r: Option<usize>)
        requires
            self@.wf(),
        ensures
            match r {
                Some(i) => i < self.members@.len() && self@.listed(a@) && i == self@.index_of(a@)
                    && self@.members[i as int].address == a@,
                None => !self@.listed(a@) && !self@.is_member(a@),
            },
    {
        let mut i: usize = 0;
        while i < self.members.len()
            invariant
                self@.wf(),
                0 <= i <= self.members@.len(),
                self@.members.len() == self.members@.len(),
                forall|j: int| 0 <= j < i ==> #[trigger] self@.members[j].address != a@,
            decreases self.members@.len() - i,
        {
            proof {
                self.lemma_member_view(i as int);
            }
            if self.members[i].address.same(a) {
                proof {
                    self@.lemma_index_of(i as int);
                }
                return Some(i);
            }
            i = i + 1;
        }
        None
    }

    /// Whether `a` is an active member: the check behind every member-only
    /// operation.
    pub fn is_member(&self, a: &Address) -> (r: bool)
        requires
            self@.wf(),
        ensures
            r == self@.is_member(a@),
    {
        match self.find_member(a) {
            Some(i) => {
                proof {
                    self@.lemma_index_of(i as int);
                }
                self.members[i].is_member
            },
            None => false,
        }
    }

    /// The position of proposal `id` in the store, if there is one.
    fn proposal_index(&self, id: &Word) -> (r: Option<usize>)
        ensures
            match r {
                Some(i) => i < self.proposals@.len() && i == id.value(),
                None => id.value() >= self.proposals@.len(),
            },
    {
        let count = Word::from_u64(self.proposals.len() as u64);
        if id.lt(&count) {
            proof {
                id.lemma_low_limb();
            }
            Some(id.limbs[0] as usize)
        } else {
            None
        }
    }

    /// The sum of the voting weights of the active members, computed afresh
    /// from the roster; `Overflow` when it does not fit in 256 bits.
    pub fn get_total_voting_power(&self) -> (r: Result<Word, DAOError>)
        ensures
            match r {
                Ok(w) => self@.total_voting_power() < word_bound() && w.value()
                    == self@.total_voting_power(),
                Err(e) => e == DAOError::Overflow && self@.total_voting_power() >= word_bound(),
            },
    {
        let mut total = Word::zero();
        let mut i: usize = 0;
        while i < self.members.len()
            invariant
                0 <= i <= self.members@.len(),
                self@.members.len() == self.members@.len(),
                total.value() == active_power(self@.members.take(i as int)),
            decreases self.members@.len() - i,
        {
            proof {
                self.lemma_member_view(i as int);
                assert(self@.members.take(i + 1).drop_last() =~= self@.members.take(i as int));
            }
            if self.members[i].is_member {
                match total.checked_add(&self.members[i].voting_power) {
                    Some(s) => total = s,
                    None => {
                        proof {
                            lemma_active_power_prefix(self@.members, i + 1);
                        }
                        return Err(DAOError::Overflow);
                    },
                }
            }
            i = i + 1;
        }
        proof {
            assert(self@.members.take(i as int) =~= self@.members);
            total.lemma_value_bound();
        }
        Ok(total)
    }
}

impl DAO {
    /// Whether `a` has voted on the proposal at position `idx`.
    fn has_voted(&self, idx: usize, a: &Address) -> (r: bool)
        requires
            idx < self.proposals@.len(),
        ensures
            r == self@.proposals[idx as int].voters.contains(a@),
    {
        let voters = &self.proposals[idx].voters;
        proof {
            assert(self@.proposals.len() == self.proposals@.len());
            assert(self@.proposals[idx as int] == self.proposals@[idx as int]@);
        }
        let ghost vs = self@.proposals[idx as int].voters;
        let mut i: usize = 0;
        while i < voters.len()
            invariant
                0 <= i <= voters@.len(),
                vs == addresses_view(voters@),
                vs == self@.proposals[idx as int].voters,
                vs.len() == voters@.len(),
                forall|j: int| 0 <= j < i ==> vs[j] != a@,
            decreases voters@.len() - i,
        {
            if voters[i].same(a) {
                assert(vs[i as int] == a@);
                assert(vs.contains(a@));
                return true;
            }
            i = i + 1;
        }
        assert(!vs.contains(a@)) by {
            if vs.contains(a@) {
                let j = choose|j: int| 0 <= j < vs.len() && vs[j] == a@;
                assert(vs[j] != a@);
            }
        }
        false
    }

    /// Casts the caller's current weight for or against proposal
    /// `proposal_id`. Rejected unless the caller is an active member, the
    /// proposal exists, `now` is before its end time, the caller has not
    /// voted on it yet, and it is not decided.
    pub fn vote(&mut self, caller: Address, proposal_id: Word, support: bool, now: u64) -> (r: Result<
        (),
        DAOError,
    >)
        requires
            old(self)@.wf(),
        ensures
            final(self)@.wf(),
            (final(self)@, r) == old(self)@.vote(caller@, proposal_id.value(), support, now as nat),
    {
        let slot = match self.find_member(&caller) {
            Some(i) => i,
            None => return Err(DAOError::NotMember),
        };
        proof {
            self@.lemma_index_of(slot as int);
            self.lemma_member_view(slot as int);
        }
        if !self.members[slot].is_member {
            return Err(DAOError::NotMember);
        }
        let idx = match self.proposal_index(&proposal_id) {
            Some(i) => i,
            None => return Err(DAOError::VotingPeriodEnded),
        };
        proof {
            assert(self@.proposals[idx as int] == self.proposals@[idx as int]@);
        }
        let now_word = Word::from_u64(now);
        if !now_word.lt(&self.proposals[idx].end_time) {
            return Err(DAOError::VotingPeriodEnded);
        }
        if self.has_voted(idx, &caller) {
            return Err(DAOError::AlreadyVoted);
        }
        if self.proposals[idx].status != Status::Open {
            return Err(DAOError::VotingPeriodEnded);
        }
        let weight = self.members[slot].voting_power;
        let tally = if support {
            self.proposals[idx].for_votes.checked_add(&weight)
        } else {
            self.proposals[idx].against_votes.checked_add(&weight)
        };
        let tally = match tally {
            Some(t) => t,
            None => return Err(DAOError::Overflow),
        };
        let ghost pre = self@;
        let ghost pre_proposals = self.proposals@;
        let ghost pre_notes = self.notifications@;
        if support {
            self.proposals[idx].for_votes = tally;
        } else {
            self.proposals[idx].against_votes = tally;
        }
        self.proposals[idx].voters.push(caller);
        let note = Notification::VoteCast { proposal_id, voter: caller, support, weight };
        self.notifications.push(note);
        proof {
            let post = pre.vote(caller@, proposal_id.value(), support, now as nat).0;
            let p = pre_proposals[idx as int];
            let q = self.proposals@[idx as int];
            assert(addresses_view(q.voters@) =~= addresses_view(p.voters@).push(caller@));
            assert(q@ == post.proposals[idx as int]);
            assert(self@.proposals =~= post.proposals) by {
                assert forall|j: int| 0 <= j < self@.proposals.len() implies self@.proposals[j]
                    == post.proposals[j] by {
                    if j != idx {
                        assert(self.proposals@[j] == pre_proposals[j]);
                    }
                }
            }
            assert(notifications_view(self.notifications@) =~= notifications_view(pre_notes).push(
                note@,
            ));
            assert(self@.members =~= pre.members);
            assert(self@ == post);
        }
        Ok(())
    }
}

impl DAO {
    /// Resolves proposal `proposal_id` once its voting window has closed:
    /// it passes when the quorum of the current total voting power took part
    /// and strictly more weight voted for than against. Anyone may call it;
    /// it succeeds at most once per proposal.
    pub fn execute_proposal(&mut self, proposal_id: Word, now: u64) -> (r: Result<(), DAOError>)
        requires
            old(self)@.wf(),
        ensures
            final(self)@.wf(),
            (final(self)@, r) == old(self)@.execute_proposal(proposal_id.value(), now as nat),
    {
        let idx = match self.proposal_index(&proposal_id) {
            Some(i) => i,
            None => return Err(DAOError::ProposalNotFound),
        };
        proof {
            assert(self@.proposals[idx as int] == self.proposals@[idx as int]@);
        }
        let now_word = Word::from_u64(now);
        if now_word.lt(&self.proposals[idx].end_time) {
            return Err(DAOError::VotingPeriodNotEnded);
        }
        if self.proposals[idx].status != Status::Open {
            return Err(DAOError::AlreadyExecuted);
        }
        let total = match self.get_total_voting_power() {
            Ok(t) => t,
            Err(e) => return Err(e),
        };
        let passed = match resolve(
            &self.proposals[idx].for_votes,
            &self.proposals[idx].against_votes,
            &total,
            &self.quorum_percentage,
        ) {
            Ok(p) => p,
            Err(e) => return Err(e),
        };
        let ghost pre = self@;
        let ghost pre_proposals = self.proposals@;
        let ghost pre_notes = self.notifications@;
        self.proposals[idx].status = Status::Decided { passed };
        let note = Notification::ProposalExecuted { proposal_id, passed };
        self.notifications.push(note);
        proof {
            let post = pre.execute_proposal(proposal_id.value(), now as nat).0;
            assert(self.proposals@[idx as int]@ == post.proposals[idx as int]);
            assert(self@.proposals =~= post.proposals) by {
                assert forall|j: int| 0 <= j < self@.proposals.len() implies self@.proposals[j]
                    == post.proposals[j] by {
                    if j != idx {
                        assert(self.proposals@[j] == pre_proposals[j]);
                    }
                }
            }
            assert(notifications_view(self.notifications@) =~= notifications_view(pre_notes).push(
                note@,
            ));
            assert(self@.members =~= pre.members);
            assert(self@ == post);
        }
        Ok(())
    }
}

impl DAO {
    /// Opens a new proposal for votes from `now` until `now` plus the voting
    /// period, and returns its id: the number of proposals made before it.
    /// Only an active member may propose.
    pub fn create_proposal(&mut self, caller: Address, description: String, now: u64) -> (r: Result<
        Word,
        DAOError,
    >)
        requires
            old(self)@.wf(),
        ensures
            final(self)@.wf(),
            final(self)@ == old(self)@.create_proposal(caller@, description@, now as nat).0,
            match r {
                Ok(id) => old(self)@.create_proposal(caller@, description@, now as nat).1 == Ok::<
                    nat,
                    DAOError,
                >(id.value()),
                Err(e) => old(self)@.create_proposal(caller@, description@, now as nat).1 == Err::<
                    nat,
                    DAOError,
                >(e),
            },
    {
        if !self.is_member(&caller) {
            return Err(DAOError::NotMember);
        }
        let start = Word::from_u64(now);
        let end = match start.checked_add(&self.voting_period) {
            Some(e) => e,
            None => return Err(DAOError::Overflow),
        };
        let proposal_id = Word::from_u64(self.proposals.len() as u64);
        let note = Notification::ProposalCreated {
            proposal_id,
            description: description.clone(),
            proposer: caller,
        };
        let proposal = Proposal {
            description,
            proposer: caller,
            for_votes: Word::zero(),
            against_votes: Word::zero(),
            start_time: start,
            end_time: end,
            status: Status::Open,
            voters: Vec::new(),
        };
        let ghost pre = self@;
        let ghost pre_proposals = self.proposals@;
        let ghost pre_notes = self.notifications@;
        self.proposals.push(proposal);
        self.notifications.push(note);
        proof {
            let post = pre.create_proposal(caller@, description@, now as nat).0;
            assert(addresses_view(proposal.voters@) =~= Seq::empty());
            assert(self@.proposals =~= post.proposals) by {
                assert forall|j: int| 0 <= j < self@.proposals.len() implies self@.proposals[j]
                    == post.proposals[j] by {
                    if j < pre_proposals.len() {
                        assert(self.proposals@[j] == pre_proposals[j]);
                    }
                }
            }
            assert(notifications_view(self.notifications@) =~= notifications_view(pre_notes).push(
                note@,
            ));
            assert(self@.members =~= pre.members);
            assert(self@ == post);
        }
        Ok(proposal_id)
    }
}

impl DAO {
    /// Makes `member` an active member with weight `voting_power`, joined at
    /// `now`. Only an active member may add one; the address must not be an
    /// active member already and the weight must not be zero. A former member
    /// gets its old roster slot back, so the roster never repeats an address.
    pub fn add_member(&mut self, caller: Address, member: Address, voting_power: Word, now: u64) -> (r:
        Result<(), DAOError>)
        requires
            old(self)@.wf(),
        ensures
            final(self)@.wf(),
            (final(self)@, r) == old(self)@.add_member(
                caller@,
                member@,
                voting_power.value(),
                now as nat,
            ),
    {
        if !self.is_member(&caller) {
            return Err(DAOError::NotMember);
        }
        let slot = self.find_member(&member);
        if let Some(i) = slot {
            proof {
                self@.lemma_index_of(i as int);
                self.lemma_member_view(i as int);
            }
            if self.members[i].is_member {
                return Err(DAOError::AlreadyMember);
            }
        }
        if voting_power.is_zero() {
            return Err(DAOError::InvalidVotingPower);
        }
        let entry = Member {
            address: member,
            is_member: true,
            voting_power,
            joined_at: Word::from_u64(now),
        };
        let ghost pre = self@;
        let ghost pre_notes = self.notifications@;
        proof {
            pre.lemma_add_member_wf(caller@, member@, voting_power.value(), now as nat);
        }
        match slot {
            Some(i) => replace_member(&mut self.members, i, entry),
            None => push_member(&mut self.members, entry),
        }
        let note = Notification::MemberAdded { member, voting_power };
        self.notifications.push(note);
        proof {
            assert(notifications_view(self.notifications@) =~= notifications_view(pre_notes).push(
                note@,
            ));
            assert(self@.proposals =~= pre.proposals);
        }
        Ok(())
    }

    /// Ends the membership of `member`: its slot stays on the roster,
    /// inactive. Only an active member may remove one, the address must be an
    /// active member, and the creator can never be removed.
    pub fn remove_member(&mut self, caller: Address, member: Address) -> (r: Result<(), DAOError>)
        requires
            old(self)@.wf(),
        ensures
            final(self)@.wf(),
            (final(self)@, r) == old(self)@.remove_member(caller@, member@),
    {
        if !self.is_member(&caller) {
            return Err(DAOError::NotMember);
        }
        let i = match self.find_member(&member) {
            Some(i) => i,
            None => return Err(DAOError::NotMember),
        };
        proof {
            self@.lemma_index_of(i as int);
            self.lemma_member_view(i as int);
        }
        if !self.members[i].is_member {
            return Err(DAOError::NotMember);
        }
        if member.same(&self.creator) {
            return Err(DAOError::CannotRemoveCreator);
        }
        let ghost pre = self@;
        let ghost pre_notes = self.notifications@;
        let entry = Member {
            address: self.members[i].address,
            is_member: false,
            voting_power: self.members[i].voting_power,
            joined_at: self.members[i].joined_at,
        };
        proof {
            pre.lemma_remove_member_wf(caller@, member@);
        }
        replace_member(&mut self.members, i, entry);
        let note = Notification::MemberRemoved { member };
        self.notifications.push(note);
        proof {
            assert(notifications_view(self.notifications@) =~= notifications_view(pre_notes).push(
                note@,
            ));
            assert(self@.proposals =~= pre.proposals);
        }
        Ok(())
    }
}

impl DAO {
    /// The details of proposal `proposal_id`: its description, proposer,
    /// weight for, weight against, end time, whether it has been decided,
    /// and whether it passed (false while undecided). An id that no proposal
    /// has reads as an empty record: empty description, the zero address,
    /// zeros and false.
    pub fn get_proposal_info(&self, proposal_id: Word) -> (r: Result<
        (String, Address, Word, Word, Word, bool, bool),
        DAOError,
    >)
        ensures
            match r {
                Ok((description, proposer, for_votes, against_votes, end_time, executed, passed)) => {
                    if proposal_id.value() < self@.proposals.len() {
                        let p = self@.proposals[proposal_id.value() as int];
                        &&& description@ == p.description
                        &&& proposer@ == p.proposer
                        &&& for_votes.value() == p.for_votes
                        &&& against_votes.value() == p.against_votes
                        &&& end_time.value() == p.end_time
                        &&& executed == (p.status != Status::Open)
                        &&& passed == (p.status == Status::Decided { passed: true })
                    } else {
                        &&& description@ == Seq::<char>::empty()
                        &&& proposer.is_zero()
                        &&& for_votes.value() == 0
                        &&& against_votes.value() == 0
                        &&& end_time.value() == 0
                        &&& !executed
                        &&& !passed
                    }
                },
                Err(_) => false,
            },
    {
        let idx = match self.proposal_index(&proposal_id) {
            Some(i) => i,
            None => {
                return Ok(
                    (
                        String::new(),
                        Address::zero(),
                        Word::zero(),
                        Word::zero(),
                        Word::zero(),
                        false,
                        false,
                    ),
                );
            },
        };
        proof {
            assert(self@.proposals[idx as int] == self.proposals@[idx as int]@);
        }
        let p = &self.proposals[idx];
        let (executed, passed) = match p.status {
            Status::Open => (false, false),
            Status::Decided { passed } => (true, passed),
        };
        Ok(
            (
                p.description.clone(),
                p.proposer,
                p.for_votes,
                p.against_votes,
                p.end_time,
                executed,
                passed,
            ),
        )
    }

    /// The organization's name.
    pub fn name(&self) -> (r: Result<String, DAOError>)
        ensures
            r matches Ok(n) && n@ == self@.name,
    {
        Ok(self.name.clone())
    }

    /// The address that created the organization.
    pub fn creator(&self) -> (r: Result<Address, DAOError>)
        ensures
            r matches Ok(a) && a@ == self@.creator,
    {
        Ok(self.creator)
    }

    /// How many proposals have been made; the next proposal gets this id.
    pub fn proposal_count(&self) -> (r: Result<Word, DAOError>)
        ensures
            r matches Ok(c) && c.value() == self@.proposals.len(),
    {
        Ok(Word::from_u64(self.proposals.len() as u64))
    }

    /// How many addresses are active members.
    pub fn member_count(&self) -> (r: Result<Word, DAOError>)
        ensures
            r matches Ok(c) && c.value() == self@.member_count(),
    {
        let mut count: u64 = 0;
        let mut i: usize = 0;
        while i < self.members.len()
            invariant
                0 <= i <= self.members@.len(),
                self@.members.len() == self.members@.len(),
                count == active_count(self@.members.take(i as int)),
                count <= i,
            decreases self.members@.len() - i,
        {
            proof {
                self.lemma_member_view(i as int);
                assert(self@.members.take(i + 1).drop_last() =~= self@.members.take(i as int));
            }
            if self.members[i].is_member {
                count = count + 1;
            }
            i = i + 1;
        }
        proof {
            assert(self@.members.take(i as int) =~= self@.members);
        }
        Ok(Word::from_u64(count))
    }

    /// The length of each proposal's voting window.
    pub fn voting_period(&self) -> (r: Result<Word, DAOError>)
        ensures
            r matches Ok(p) && p.value() == self@.voting_period,
    {
        Ok(self.voting_period)
    }

    /// The share of the total voting power, in percent, that must take part
    /// for a proposal to pass.
    pub fn quorum_percentage(&self) -> (r: Result<Word, DAOError>)
        ensures
            r matches Ok(q) && q.value() == self@.quorum_percentage,
    {
        Ok(self.quorum_percentage)
    }

    /// Hands out the queued notifications, oldest first, and empties the
    /// queue.
    pub fn take_notifications(&mut self) -> (r: Vec<Notification>)
        ensures
            notifications_view(r@) == old(self)@.pending,
            final(self)@ == (DAOModel { pending: Seq::empty(), ..old(self)@ }),
    {
        let mut taken: Vec<Notification> = Vec::new();
        std::mem::swap(&mut taken, &mut self.notifications);
        proof {
            assert(notifications_view(self.notifications@) =~= Seq::empty());
        }
        taken
    }
}

} // verus!
