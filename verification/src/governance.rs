//! Governance: judicial cases, governance bonds, reputation-weighted
//! voting, and zero-knowledge vote records.

use vstd::prelude::*;

verus! {

/// A dispute brought before the chain's judiciary.
pub struct JudicialCase {
    pub case_id: String,
    pub claimant: String,
    pub respondent: String,
    pub case_details: String,
    pub evidence: Vec<String>,
    pub status: JudicialStatus,
    pub verdict: Option<String>,
}

/// Where a case stands.
#[derive(Clone, Copy, PartialEq, Eq, Structural, Debug)]
pub enum JudicialStatus {
    Open,
    InReview,
    VerdictGiven,
    Appealed,
}

/// A treasury bond: amounts in integer token units, the interest rate
/// in parts per thousand.
pub struct Bond {
    pub investor: String,
    pub amount: u128,
    pub interest_rate_milli: u64,
    pub maturity: u64,
}

/// A governance bond sold to fund proposals; the interest rate in
/// parts per thousand.
pub struct GovernanceBond {
    pub bond_id: String,
    pub investor: String,
    pub amount: u64,
    pub maturity_date: u64,
    pub interest_rate_milli: u64,
}

/// A vote whose ballot is hidden behind a zero-knowledge proof.
pub struct ZKVote {
    pub voter_id: String,
    pub proposal_id: String,
    pub proof: Vec<u8>,
}

/// A governance proposal and its tally.
pub struct Proposal {
    pub proposal_id: String,
    pub votes_for: u64,
    pub votes_against: u64,
}

/// Which way a ballot goes.
#[derive(Clone, Copy, PartialEq, Eq, Structural, Debug)]
pub enum VoteType {
    For,
    Against,
}

/// The weight a voter's reputation grants: three at ninety and above,
/// two at seventy and above, one otherwise.
pub open spec fn spec_vote_weight(reputation: u64) -> u64 {
    if reputation >= 90 {
        3u64
    } else if reputation >= 70 {
        2u64
    } else {
        1u64
    }
}

/// The weight a voter's reputation grants.
pub fn vote_weight(reputation: u64) -> (r: u64)
    ensures
        r == spec_vote_weight(reputation),
{
    if reputation >= 90 {
        3
    } else if reputation >= 70 {
        2
    } else {
        1
    }
}

impl JudicialCase {
    /// Opens a case with the given parties and details.
    pub fn new(
        case_id: String,
        claimant: String,
        respondent: String,
        case_details: String,
    ) -> (r: JudicialCase)
        ensures
            r.case_id == case_id,
            r.claimant == claimant,
            r.respondent == respondent,
            r.status == JudicialStatus::Open,
            r.verdict is None,
            r.evidence@.len() == 0,
    {
        JudicialCase {
            case_id,
            claimant,
            respondent,
            case_details,
            evidence: Vec::new(),
            status: JudicialStatus::Open,
            verdict: Option::None,
        }
    }

    /// Files one piece of evidence and moves an open case into
    /// review.
    pub fn submit_evidence(&mut self, item: String)
        ensures
            final(self).evidence@ == old(self).evidence@ + seq![item],
            final(self).status == (if old(self).status == JudicialStatus::Open {
                JudicialStatus::InReview
            } else {
                old(self).status
            }),
            final(self).verdict == old(self).verdict,
            final(self).case_id == old(self).case_id,
    {
        self.evidence.push(item);
        if self.status == JudicialStatus::Open {
            self.status = JudicialStatus::InReview;
        }
    }

    /// Closes the case with a verdict; a case already decided keeps
    /// its first verdict and reports failure.
    pub fn resolve(&mut self, verdict: String) -> (r: bool)
        ensures
            old(self).status == JudicialStatus::VerdictGiven ==> r == false && *final(self)
                == *old(self),
            old(self).status != JudicialStatus::VerdictGiven ==> r == true && final(self).status
                == JudicialStatus::VerdictGiven && final(self).verdict == Option::Some(verdict)
                && final(self).case_id == old(self).case_id && final(self).evidence@ == old(
                self,
            ).evidence@,
    {
        if self.status == JudicialStatus::VerdictGiven {
            return false;
        }
        self.status = JudicialStatus::VerdictGiven;
        self.verdict = Option::Some(verdict);
        true
    }
}

impl Proposal {
    /// A fresh proposal with an empty tally.
    pub fn new(proposal_id: String) -> (r: Proposal)
        ensures
            r.proposal_id == proposal_id,
            r.votes_for == 0,
            r.votes_against == 0,
    {
        Proposal { proposal_id, votes_for: 0, votes_against: 0 }
    }

    /// Casts one ballot weighted by the voter's reputation: the
    /// chosen side's tally grows by exactly the reputation's weight
    /// (saturating); the other side is untouched.
    pub fn vote_with_reputation(&mut self, reputation: u64, vote_type: VoteType)
        ensures
            vote_type == VoteType::For ==> final(self).votes_for as int
                == crate::consensus::spec_saturate_u64(
                old(self).votes_for + spec_vote_weight(reputation),
            ) && final(self).votes_against == old(self).votes_against,
            vote_type == VoteType::Against ==> final(self).votes_against as int
                == crate::consensus::spec_saturate_u64(
                old(self).votes_against + spec_vote_weight(reputation),
            ) && final(self).votes_for == old(self).votes_for,
            final(self).proposal_id == old(self).proposal_id,
    {
        let weight = vote_weight(reputation);
        match vote_type {
            VoteType::For => {
                self.votes_for = if self.votes_for <= u64::MAX - weight {
                    self.votes_for + weight
                } else {
                    u64::MAX
                };
            },
            VoteType::Against => {
                self.votes_against = if self.votes_against <= u64::MAX - weight {
                    self.votes_against + weight
                } else {
                    u64::MAX
                };
            },
        }
    }
}

/// Issues a governance bond into the book.
pub fn issue_bond(
    bonds: &mut Vec<GovernanceBond>,
    bond_id: String,
    investor: String,
    amount: u64,
    interest_rate_milli: u64,
    maturity_date: u64,
) -> (r: usize)
    ensures
        final(bonds)@.len() == old(bonds)@.len() + 1,
        r == old(bonds)@.len(),
        final(bonds)@.last().bond_id == bond_id,
        final(bonds)@.last().investor == investor,
        final(bonds)@.last().amount == amount,
        final(bonds)@.last().interest_rate_milli == interest_rate_milli,
        final(bonds)@.last().maturity_date == maturity_date,
        final(bonds)@.subrange(0, old(bonds)@.len() as int) == old(bonds)@,
{
    let index = bonds.len();
    bonds.push(
        GovernanceBond { bond_id, investor, amount, maturity_date, interest_rate_milli },
    );
    proof {
        assert(bonds@.subrange(0, old(bonds)@.len() as int) =~= old(bonds)@);
    }
    index
}

} // verus!
