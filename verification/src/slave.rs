//! EtherCAT State Machine states and the AL status word.
use vstd::prelude::*;

verus! {

/// AL status/control bit that flags (status) or acknowledges (control) an
/// AL error.
pub const AL_ERROR_FLAG: u16 = 0x0010;

#[derive(Clone, Copy, Debug, PartialEq, Eq, Structural)]
pub enum EthercatState {
    Unknown,
    Init,
    PreOp,
    Boot,
    SafeOp,
    Op,
}

impl EthercatState {
    /// The state's code in the AL control/status register.
    pub open spec fn spec_code(self) -> u16 {
        match self {
            EthercatState::Unknown => 0,
            EthercatState::Init => 1,
            EthercatState::PreOp => 2,
            EthercatState::Boot => 3,
            EthercatState::SafeOp => 4,
            EthercatState::Op => 8,
        }
    }

    /// The state a 4-bit state code denotes.
    pub open spec fn spec_from_code(code: int) -> EthercatState {
        if code == 1 {
            EthercatState::Init
        } else if code == 2 {
            EthercatState::PreOp
        } else if code == 3 {
            EthercatState::Boot
        } else if code == 4 {
            EthercatState::SafeOp
        } else if code == 8 {
            EthercatState::Op
        } else {
            EthercatState::Unknown
        }
    }

    #[verifier::when_used_as_spec(spec_code)]
    pub fn code(self) -> (code: u16)
        ensures
            code == self.spec_code(),
    {
        match self {
            EthercatState::Unknown => 0,
            EthercatState::Init => 1,
            EthercatState::PreOp => 2,
            EthercatState::Boot => 3,
            EthercatState::SafeOp => 4,
            EthercatState::Op => 8,
        }
    }

    pub fn from_code(code: u16) -> (state: EthercatState)
        ensures
            state == Self::spec_from_code(code as int),
    {
        if code == 1 {
            EthercatState::Init
        } else if code == 2 {
            EthercatState::PreOp
        } else if code == 3 {
            EthercatState::Boot
        } else if code == 4 {
            EthercatState::SafeOp
        } else if code == 8 {
            EthercatState::Op
        } else {
            EthercatState::Unknown
        }
    }

    /// Rank on the operational ladder INIT < PREOP < SAFEOP < OP.
    pub open spec fn rank(self) -> int {
        match self {
            EthercatState::Init => 1,
            EthercatState::PreOp => 2,
            EthercatState::SafeOp => 3,
            EthercatState::Op => 4,
            _ => 0,
        }
    }
}

/// Decoding a state's own code gives the state back.
pub proof fn lemma_state_code_round_trip(state: EthercatState)
    ensures
        EthercatState::spec_from_code(state.spec_code() as int) == state,
{
}

/// A single ESM transition the slave accepts in one AL control write:
/// one step up the INIT/PREOP/SAFEOP/OP ladder, any step down it, or a move
/// between INIT and BOOT.
pub open spec fn legal_transition(from: EthercatState, to: EthercatState) -> bool {
    ||| (from.rank() > 0 && to.rank() > 0 && to.rank() == from.rank() + 1)
    ||| (from.rank() > 0 && to.rank() > 0 && to.rank() < from.rank())
    ||| (from == EthercatState::Init && to == EthercatState::Boot)
    ||| (from == EthercatState::Boot && to == EthercatState::Init)
}

/// The next single legal state on the way from `current` to `requested`.
pub open spec fn spec_next_state(current: EthercatState, requested: EthercatState) -> Option<
    EthercatState,
> {
    if current == EthercatState::Unknown || requested == EthercatState::Unknown
        || current == requested {
        None
    } else if current == EthercatState::Boot {
        Some(EthercatState::Init)
    } else if requested == EthercatState::Boot {
        if current == EthercatState::Init {
            Some(EthercatState::Boot)
        } else {
            Some(EthercatState::Init)
        }
    } else if requested.rank() < current.rank() {
        Some(requested)
    } else if current == EthercatState::Init {
        Some(EthercatState::PreOp)
    } else if current == EthercatState::PreOp {
        Some(EthercatState::SafeOp)
    } else {
        Some(EthercatState::Op)
    }
}

/// The next single legal state on the way from `current` to `requested`,
/// or `None` when either state is unknown or no step is needed.
pub fn next_state(current: EthercatState, requested: EthercatState) -> (next: Option<
    EthercatState,
>)
    ensures
        next == spec_next_state(current, requested),
{
    if current == EthercatState::Unknown || requested == EthercatState::Unknown
        || current == requested {
        return None;
    }
    match (current, requested) {
        (EthercatState::Boot, _) => Some(EthercatState::Init),
        (EthercatState::Init, EthercatState::Boot) => Some(EthercatState::Boot),
        (_, EthercatState::Boot) => Some(EthercatState::Init),
        (EthercatState::Op, _) => Some(requested),
        (EthercatState::SafeOp, EthercatState::Op) => Some(EthercatState::Op),
        (EthercatState::SafeOp, _) => Some(requested),
        (EthercatState::PreOp, EthercatState::Init) => Some(EthercatState::Init),
        (EthercatState::PreOp, _) => Some(EthercatState::SafeOp),
        (EthercatState::Init, _) => Some(EthercatState::PreOp),
        _ => None,
    }
}

/// Every step `next_state` proposes is a legal ESM transition that does not
/// overshoot the requested state.
pub proof fn lemma_next_state_is_legal_step(current: EthercatState, requested: EthercatState)
    requires
        spec_next_state(current, requested) is Some,
    ensures
        legal_transition(current, spec_next_state(current, requested)->0),
        requested.rank() > 0 && current.rank() > 0 ==> {
            let next = spec_next_state(current, requested)->0;
            &&& (requested.rank() > current.rank() ==> current.rank() < next.rank()
                <= requested.rank())
            &&& (requested.rank() < current.rank() ==> next == requested)
        },
{
}

/// The AL status register image: state, error flag, raw word and status code.
#[derive(Clone, Copy, Debug, PartialEq, Eq, Structural)]
pub struct AlStatus {
    pub state: EthercatState,
    pub error: bool,
    pub raw: u16,
    pub code: u16,
}

impl AlStatus {
    /// The status a raw AL status word and AL status code describe.
    pub open spec fn spec_new(raw: u16, code: u16) -> AlStatus {
        AlStatus {
            state: EthercatState::spec_from_code(raw as int % 16),
            error: (raw as int / 16) % 2 == 1,
            raw,
            code,
        }
    }

    pub fn new(raw: u16, code: u16) -> (status: AlStatus)
        ensures
            status == Self::spec_new(raw, code),
    {
        AlStatus {
            state: EthercatState::from_code(raw % 16),
            error: (raw / 16) % 2 == 1,
            raw,
            code,
        }
    }
}

} // verus!
