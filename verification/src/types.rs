//! The records that governance keeps and the failures it reports.

use vstd::prelude::*;

verus! {

/// Length of the text form of an identity.
pub const ADDRESS_LEN: usize = 56;

/// An account or contract identity, held as the bytes of its text form.
/// Two identities are the same exactly when these bytes agree.
#[derive(Clone, Copy, Debug, PartialEq, Eq, Hash)]
pub struct Address {
    pub key: [u8; 56],
}

impl Address {
    /// The identity whose text form is `key`.
    pub fn new(key: [u8; 56]) -> (address: Address)
        ensures
            address.key == key,
    {
        Address { key }
    }

    /// Whether two identities are the same one.
    pub fn same(&self, other: &Address) -> (b: bool)
        ensures
            b == (*self == *other),
    {
        let mut i: usize = 0;
        while i < ADDRESS_LEN
            invariant
                i <= ADDRESS_LEN,
                forall|j: int| 0 <= j < i ==> self.key[j] == other.key[j],
            decreases ADDRESS_LEN - i,
        {
            if self.key[i] != other.key[i] {
                return false;
            }
            i += 1;
        }
        assert(self.key =~= other.key);
        true
    }
}

/// Why an operation was refused.
#[derive(Clone, Copy, Debug, PartialEq, Eq, Structural)]
pub enum DAOError {
    AlreadyInitialised,
    NotInitialised,
    InvalidProposal,
    ProposalExpired,
    AlreadyVoted,
    InsufficientTokens,
    VotingNotClosed,
    InvalidVote,
}

impl DAOError {
    /// The number under which a failure is reported to the outside.
    pub open spec fn spec_code(self) -> u32 {
        match self {
            DAOError::AlreadyInitialised => 1,
            DAOError::NotInitialised => 2,
            DAOError::InvalidProposal => 3,
            DAOError::ProposalExpired => 4,
            DAOError::AlreadyVoted => 5,
            DAOError::InsufficientTokens => 6,
            DAOError::VotingNotClosed => 7,
            DAOError::InvalidVote => 8,
        }
    }

    /// The failure's number.
    #[verifier::when_used_as_spec(spec_code)]
    pub fn code(self) -> (code: u32)
        ensures
            code == self.spec_code(),
    {
        match self {
            DAOError::AlreadyInitialised => 1,
            DAOError::NotInitialised => 2,
            DAOError::InvalidProposal => 3,
            DAOError::ProposalExpired => 4,
            DAOError::AlreadyVoted => 5,
            DAOError::InsufficientTokens => 6,
            DAOError::VotingNotClosed => 7,
            DAOError::InvalidVote => 8,
        }
    }

    /// The failure that is reported under `code`.
    pub open spec fn spec_from_code(code: u32) -> Option<DAOError> {
        if code == 1 {
            Some(DAOError::AlreadyInitialised)
        } else if code == 2 {
            Some(DAOError::NotInitialised)
        } else if code == 3 {
            Some(DAOError::InvalidProposal)
        } else if code == 4 {
            Some(DAOError::ProposalExpired)
        } else if code == 5 {
            Some(DAOError::AlreadyVoted)
        } else if code == 6 {
            Some(DAOError::InsufficientTokens)
        } else if code == 7 {
            Some(DAOError::VotingNotClosed)
        } else if code == 8 {
            Some(DAOError::InvalidVote)
        } else {
            None
        }
    }

    /// Reads a failure back from its number: the one failure with that code,
    /// or none where no failure has it.
    #[verifier::when_used_as_spec(spec_from_code)]
    pub fn from_code(code: u32) -> (error: Option<DAOError>)
        ensures
            error == DAOError::spec_from_code(code),
            error matches Some(read) ==> read.code() == code,
            error is Some <==> 1 <= code <= 8,
    {
        match code {
            1 => Some(DAOError::AlreadyInitialised),
            2 => Some(DAOError::NotInitialised),
            3 => Some(DAOError::InvalidProposal),
            4 => Some(DAOError::ProposalExpired),
            5 => Some(DAOError::AlreadyVoted),
            6 => Some(DAOError::InsufficientTokens),
            7 => Some(DAOError::VotingNotClosed),
            8 => Some(DAOError::InvalidVote),
            _ => None,
        }
    }

    /// Each failure is read back from its own code.
    pub proof fn law_code_reads_back(self)
        ensures
            DAOError::spec_from_code(self.code()) == Some(self),
    {
    }
}

/// The token settings, written once when the organisation is set up.
#[derive(Clone, Copy, Debug, PartialEq, Eq)]
pub struct TokenConfig {
    pub total_supply: u64,
    pub admin: Address,
}

/// One governance item under vote.
#[derive(Debug, PartialEq, Eq)]
pub struct Proposal {
    pub id: u64,
    pub title: String,
    pub description: String,
    pub deadline: u64,
    pub yes_votes: u64,
    pub no_votes: u64,
    pub creator: Address,
    pub active: bool,
}

impl Clone for Proposal {
    fn clone(&self) -> (copy: Proposal)
        ensures
            copy == *self,
    {
        Proposal {
            id: self.id,
            title: self.title.clone(),
            description: self.description.clone(),
            deadline: self.deadline,
            yes_votes: self.yes_votes,
            no_votes: self.no_votes,
            creator: self.creator,
            active: self.active,
        }
    }
}

/// The weight one voter committed to one proposal, and its direction.
#[derive(Clone, Copy, Debug, PartialEq, Eq)]
pub struct Vote {
    pub voter: Address,
    pub amount: u64,
    pub is_yes: bool,
}

/// The name under which a record is kept.
#[derive(Clone, Copy, Debug, PartialEq, Eq)]
pub enum DataKey {
    TokenConfig,
    Proposal(u64),
    ProposalCount,
    Vote(u64, Address),
    LockedTokens(Address),
}

impl DataKey {
    /// Whether two names are the same one.
    pub fn same(&self, other: &DataKey) -> (b: bool)
        ensures
            b == (*self == *other),
    {
        match (self, other) {
            (DataKey::TokenConfig, DataKey::TokenConfig) => true,
            (DataKey::Proposal(a), DataKey::Proposal(b)) => *a == *b,
            (DataKey::ProposalCount, DataKey::ProposalCount) => true,
            (DataKey::Vote(a, v), DataKey::Vote(b, w)) => *a == *b && v.same(w),
            (DataKey::LockedTokens(v), DataKey::LockedTokens(w)) => v.same(w),
            _ => false,
        }
    }
}

/// A kept record. Each kind of name holds one kind of record.
#[derive(Debug, PartialEq, Eq)]
pub enum Record {
    Config(TokenConfig),
    Count(u64),
    Proposal(Proposal),
    Vote(Vote),
    Locked(u64),
}

impl Clone for Record {
    fn clone(&self) -> (copy: Record)
        ensures
            copy == *self,
    {
        match self {
            Record::Config(config) => Record::Config(*config),
            Record::Count(count) => Record::Count(*count),
            Record::Proposal(proposal) => Record::Proposal(proposal.clone()),
            Record::Vote(vote) => Record::Vote(*vote),
            Record::Locked(amount) => Record::Locked(*amount),
        }
    }
}

/// Whether `record` is of the kind that `key` names.
pub open spec fn well_kinded(key: DataKey, record: Record) -> bool {
    match key {
        DataKey::TokenConfig => record is Config,
        DataKey::Proposal(_) => record is Proposal,
        DataKey::ProposalCount => record is Count,
        DataKey::Vote(_, _) => record is Vote,
        DataKey::LockedTokens(_) => record is Locked,
    }
}

} // verus!
