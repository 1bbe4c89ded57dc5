//! Activation-time multi-rate schedule generation.
//!
//! The runtime only indexes a precomputed due-mask. Period validation,
//! hyperperiod calculation and phase expansion happen before activation.
use vstd::prelude::*;
use crate::bits::{has_bit, lemma_zero_has_no_bits, set_bit, test_bit};

verus! {

#[derive(Clone, Copy, Debug, PartialEq, Eq, Structural)]
pub struct ScheduleDomain {
    pub id: u8,
    pub period_ticks: u32,
    pub phase_ticks: u32,
}

impl ScheduleDomain {
    pub fn empty() -> (domain: Self)
        ensures
            domain == (ScheduleDomain { id: 0, period_ticks: 0, phase_ticks: 0 }),
    {
        ScheduleDomain { id: 0, period_ticks: 0, phase_ticks: 0 }
    }
}

#[derive(Clone, Copy, Debug, PartialEq, Eq, Structural)]
pub struct ScheduleSlot {
    pub due_mask: u64,
}

impl ScheduleSlot {
    pub fn empty() -> (slot: Self)
        ensures
            slot.due_mask == 0,
    {
        ScheduleSlot { due_mask: 0 }
    }

    /// Whether the domain with `domain_id` is due in this slot.
    pub fn is_due(self, domain_id: u8) -> (due: bool)
        ensures
            due == (domain_id < 64 && has_bit(self.due_mask, domain_id as u64)),
    {
        domain_id < 64 && test_bit(self.due_mask, domain_id as u64)
    }
}

#[derive(Clone, Copy, Debug, PartialEq, Eq, Structural)]
pub enum ScheduleError {
    InvalidBaseTick,
    CapacityExceeded,
    TooManyDomains,
    DuplicateDomainId,
    InvalidPeriod,
    InvalidPhase,
    HyperperiodOverflow,
    HyperperiodTooLarge,
}

/// Greatest common divisor by Euclid's algorithm.
pub open spec fn spec_gcd(left: nat, right: nat) -> nat
    decreases right,
{
    if right == 0 {
        left
    } else {
        spec_gcd(right, left % right)
    }
}

/// The least common multiple as computed: `left / gcd * right`.
pub open spec fn spec_lcm(left: nat, right: nat) -> int {
    if spec_gcd(left, right) == 0 {
        0
    } else {
        (left / spec_gcd(left, right)) as int * right
    }
}

/// Whether domain `d` already uses an id among the first `k` of `ds`.
pub open spec fn id_taken(ds: Seq<ScheduleDomain>, k: int, id: u8) -> bool {
    exists|j: int| 0 <= j < k && #[trigger] ds[j].id == id
}

/// Validate the first `k` domains in order and fold their hyperperiod.
pub open spec fn spec_hyperperiod(ds: Seq<ScheduleDomain>, k: int) -> Result<int, ScheduleError>
    decreases k,
{
    if k <= 0 {
        Ok(1)
    } else {
        match spec_hyperperiod(ds, k - 1) {
            Err(e) => Err(e),
            Ok(h) => {
                let d = ds[k - 1];
                if d.period_ticks == 0 {
                    Err(ScheduleError::InvalidPeriod)
                } else if d.phase_ticks >= d.period_ticks {
                    Err(ScheduleError::InvalidPhase)
                } else if id_taken(ds, k - 1, d.id) {
                    Err(ScheduleError::DuplicateDomainId)
                } else if d.id >= 64 {
                    Err(ScheduleError::TooManyDomains)
                } else if spec_lcm(h as nat, d.period_ticks as nat) > u32::MAX {
                    Err(ScheduleError::HyperperiodOverflow)
                } else {
                    Ok(spec_lcm(h as nat, d.period_ticks as nat))
                }
            },
        }
    }
}

/// Whether any of the domains `ds` with `id` is due at tick `slot`.
pub open spec fn spec_due(ds: Seq<ScheduleDomain>, slot: int, id: u8) -> bool {
    exists|j: int|
        0 <= j < ds.len() && #[trigger] ds[j].id == id && slot % (ds[j].period_ticks as int)
            == ds[j].phase_ticks
}

/// The build outcome for a base tick and a domain list.
pub open spec fn spec_build_error(base_tick_ns: u64, ds: Seq<ScheduleDomain>, domains: usize, slots: usize) -> Option<ScheduleError> {
    if base_tick_ns == 0 {
        Some(ScheduleError::InvalidBaseTick)
    } else if ds.len() > domains {
        Some(ScheduleError::CapacityExceeded)
    } else if ds.len() > 64 {
        Some(ScheduleError::TooManyDomains)
    } else if slots == 0 {
        Some(ScheduleError::HyperperiodTooLarge)
    } else {
        match spec_hyperperiod(ds, ds.len() as int) {
            Err(e) => Some(e),
            Ok(h) => if h > slots {
                Some(ScheduleError::HyperperiodTooLarge)
            } else {
                None
            },
        }
    }
}

pub proof fn lemma_gcd_bounds(left: nat, right: nat)
    requires
        left > 0 || right > 0,
    ensures
        spec_gcd(left, right) > 0,
        left > 0 ==> spec_gcd(left, right) <= left,
        right > 0 ==> spec_gcd(left, right) <= right,
    decreases right,
{
    if right > 0 {
        let r = left % right;
        lemma_gcd_bounds(right, r);
        assert(r <= left) by (nonlinear_arith)
            requires
                r == left % right,
                right > 0,
        {
        }
        if r == 0 && left > 0 {
            assert(left >= right) by (nonlinear_arith)
                requires
                    left % right == 0,
                    left > 0,
                    right > 0,
            {
                assert(left == right * (left / right) + left % right);
                assert(left / right >= 1);
            }
        }
    }
}

pub proof fn lemma_hyperperiod_error_persists(ds: Seq<ScheduleDomain>, k: int, m: int)
    requires
        0 <= k <= m,
        spec_hyperperiod(ds, k) is Err,
    ensures
        spec_hyperperiod(ds, m) == spec_hyperperiod(ds, k),
    decreases m,
{
    if m > k {
        lemma_hyperperiod_error_persists(ds, k, m - 1);
    }
}

pub proof fn lemma_hyperperiod_ok_domains_valid(ds: Seq<ScheduleDomain>, k: int)
    requires
        0 <= k <= ds.len(),
        spec_hyperperiod(ds, k) is Ok,
    ensures
        forall|j: int| 0 <= j < k ==> (#[trigger] ds[j]).period_ticks > 0,
        forall|j: int| 0 <= j < k ==> (#[trigger] ds[j]).phase_ticks < ds[j].period_ticks,
        forall|j: int| 0 <= j < k ==> (#[trigger] ds[j]).id < 64,
        spec_hyperperiod(ds, k)->Ok_0 > 0,
    decreases k,
{
    if k > 0 {
        lemma_hyperperiod_ok_domains_valid(ds, k - 1);
        lemma_lcm_positive(spec_hyperperiod(ds, k - 1)->Ok_0 as nat, ds[k - 1].period_ticks as nat);
    }
}

pub proof fn lemma_lcm_positive(left: nat, right: nat)
    requires
        left > 0,
        right > 0,
    ensures
        spec_lcm(left, right) >= right,
{
    lemma_gcd_bounds(left, right);
    let g = spec_gcd(left, right);
    assert(left / g >= 1) by (nonlinear_arith)
        requires
            0 < g <= left,
    {
    }
    assert((left / g) as int * right >= right) by (nonlinear_arith)
        requires
            left / g >= 1,
            right > 0,
    {
    }
}

fn gcd(left: u32, right: u32) -> (result: u32)
    ensures
        result == spec_gcd(left as nat, right as nat),
{
    let mut a = left;
    let mut b = right;
    while b != 0
        invariant
            spec_gcd(a as nat, b as nat) == spec_gcd(left as nat, right as nat),
        decreases b,
    {
        let r = a % b;
        a = b;
        b = r;
    }
    a
}

fn lcm(left: u32, right: u32) -> (result: Option<u32>)
    ensures
        match result {
            Some(v) => spec_gcd(left as nat, right as nat) != 0 && v == spec_lcm(left as nat, right as nat),
            None => spec_gcd(left as nat, right as nat) == 0 || spec_lcm(left as nat, right as nat) > u32::MAX,
        },
{
    let divisor = gcd(left, right);
    if divisor == 0 {
        return None;
    }
    let quotient = left / divisor;
    quotient.checked_mul(right)
}

/// A fixed-size, activation-time generated multi-rate schedule.
pub struct ScheduleTable<const DOMAINS: usize, const SLOTS: usize> {
    base_tick_ns: u64,
    hyperperiod_ticks: u32,
    domains: Vec<ScheduleDomain>,
    slots: Vec<ScheduleSlot>,
}

impl<const DOMAINS: usize, const SLOTS: usize> ScheduleTable<DOMAINS, SLOTS> {
    pub closed spec fn spec_base_tick_ns(&self) -> u64 {
        self.base_tick_ns
    }

    pub closed spec fn spec_hyperperiod_ticks(&self) -> u32 {
        self.hyperperiod_ticks
    }

    pub closed spec fn spec_domains(&self) -> Seq<ScheduleDomain> {
        self.domains@
    }

    /// The due mask of each slot of one hyperperiod.
    pub closed spec fn spec_slots(&self) -> Seq<ScheduleSlot> {
        self.slots@
    }

    pub closed spec fn wf(&self) -> bool {
        &&& 0 < self.hyperperiod_ticks
        &&& self.slots@.len() == self.hyperperiod_ticks
        &&& self.domains@.len() <= DOMAINS
        &&& self.domains@.len() <= 64
        &&& forall|j: int| 0 <= j < self.domains@.len() ==> (#[trigger] self.domains@[j]).id < 64
    }

    /// Validate the domains and expand one hyperperiod of due masks.
    pub fn build(base_tick_ns: u64, domains: &[ScheduleDomain]) -> (result: Result<Self, ScheduleError>)
        ensures
            match spec_build_error(base_tick_ns, domains@, DOMAINS, SLOTS) {
                Some(e) => result == Err::<Self, ScheduleError>(e),
                None => result matches Ok(table) && {
                    &&& table.wf()
                    &&& table.spec_base_tick_ns() == base_tick_ns
                    &&& spec_hyperperiod(domains@, domains@.len() as int) == Ok::<int, ScheduleError>(table.spec_hyperperiod_ticks() as int)
                    &&& table.spec_domains() == domains@
                    &&& forall|slot: int, id: u8|
                        0 <= slot < table.spec_hyperperiod_ticks() && id < 64 ==> (#[trigger] has_bit(table.spec_slots()[slot].due_mask, id as u64) <==> spec_due(domains@, slot, id))
                },
            },
    {
        if base_tick_ns == 0 {
            return Err(ScheduleError::InvalidBaseTick);
        }
        if domains.len() > DOMAINS {
            return Err(ScheduleError::CapacityExceeded);
        }
        if domains.len() > 64 {
            return Err(ScheduleError::TooManyDomains);
        }
        if SLOTS == 0 {
            return Err(ScheduleError::HyperperiodTooLarge);
        }
        let count = domains.len();
        let mut hyperperiod: u32 = 1;
        let mut copied: Vec<ScheduleDomain> = Vec::new();
        let mut index: usize = 0;
        while index < count
            invariant
                count == domains@.len(),
                count <= 64,
                index <= count,
                copied@ == domains@.subrange(0, index as int),
                spec_hyperperiod(domains@, index as int) == Ok::<int, ScheduleError>(hyperperiod as int),
                hyperperiod > 0,
                base_tick_ns != 0,
                count <= DOMAINS,
                SLOTS > 0,
            decreases count - index,
        {
            let domain = domains[index];
            if domain.period_ticks == 0 {
                assert(spec_hyperperiod(domains@, index + 1) == Err::<int, ScheduleError>(ScheduleError::InvalidPeriod));
                proof { lemma_hyperperiod_error_persists(domains@, index + 1, count as int); }
                return Err(ScheduleError::InvalidPeriod);
            }
            if domain.phase_ticks >= domain.period_ticks {
                assert(spec_hyperperiod(domains@, index + 1) == Err::<int, ScheduleError>(ScheduleError::InvalidPhase));
                proof { lemma_hyperperiod_error_persists(domains@, index + 1, count as int); }
                return Err(ScheduleError::InvalidPhase);
            }
            let mut j: usize = 0;
            while j < index
                invariant
                    j <= index,
                    index < count,
                    count == domains@.len(),
                    copied@ == domains@.subrange(0, index as int),
                    domain == domains@[index as int],
                    forall|k: int| 0 <= k < j ==> domains@[k].id != domain.id,
                    spec_hyperperiod(domains@, index as int) == Ok::<int, ScheduleError>(hyperperiod as int),
                    domain.period_ticks > 0,
                    domain.phase_ticks < domain.period_ticks,
                    base_tick_ns != 0,
                    count <= DOMAINS,
                    count <= 64,
                    SLOTS > 0,
                decreases index - j,
            {
                if copied[j].id == domain.id {
                    assert(domains@[j as int].id == domain.id);
                    assert(id_taken(domains@, index as int, domain.id));
                    assert(spec_hyperperiod(domains@, index + 1) == Err::<int, ScheduleError>(ScheduleError::DuplicateDomainId));
                proof { lemma_hyperperiod_error_persists(domains@, index + 1, count as int); }
                return Err(ScheduleError::DuplicateDomainId);
                }
                j = j + 1;
            }
            assert(!id_taken(domains@, index as int, domain.id));
            if domain.id >= 64 {
                assert(spec_hyperperiod(domains@, index + 1) == Err::<int, ScheduleError>(ScheduleError::TooManyDomains));
                proof { lemma_hyperperiod_error_persists(domains@, index + 1, count as int); }
                return Err(ScheduleError::TooManyDomains);
            }
            proof {
                lemma_gcd_bounds(hyperperiod as nat, domain.period_ticks as nat);
                lemma_lcm_positive(hyperperiod as nat, domain.period_ticks as nat);
            }
            hyperperiod = match lcm(hyperperiod, domain.period_ticks) {
                Some(value) => value,
                None => {
                    assert(spec_hyperperiod(domains@, index + 1) == Err::<int, ScheduleError>(ScheduleError::HyperperiodOverflow));
                proof { lemma_hyperperiod_error_persists(domains@, index + 1, count as int); }
                return Err(ScheduleError::HyperperiodOverflow);
                },
            };
            copied.push(domain);
            index = index + 1;
            assert(copied@ =~= domains@.subrange(0, index as int));
        }
        if hyperperiod as usize > SLOTS {
            return Err(ScheduleError::HyperperiodTooLarge);
        }
        assert(copied@ =~= domains@);
        proof { lemma_hyperperiod_ok_domains_valid(domains@, count as int); }
        let mut slots: Vec<ScheduleSlot> = Vec::new();
        let mut slot: u32 = 0;
        while slot < hyperperiod
            invariant
                slot <= hyperperiod,
                slots@.len() == slot,
                copied@ == domains@,
                count == domains@.len(),
                forall|s: int, id: u8|
                    0 <= s < slot && id < 64 ==> (#[trigger] has_bit(slots@[s].due_mask, id as u64)
                        <==> spec_due(domains@, s, id)),
                forall|k: int| 0 <= k < count ==> domains@[k].period_ticks > 0,
                forall|k: int| 0 <= k < count ==> domains@[k].id < 64,
            decreases hyperperiod - slot,
        {
            let mut due_mask: u64 = 0;
            let mut k: usize = 0;
            proof {
                assert forall|id: u8| id < 64 implies !#[trigger] has_bit(0u64, id as u64) by {
                    lemma_zero_has_no_bits(id as u64);
                }
            }
            while k < count
                invariant
                    k <= count,
                    count == domains@.len(),
                    copied@ == domains@,
                    forall|k2: int| 0 <= k2 < count ==> domains@[k2].period_ticks > 0,
                    forall|k2: int| 0 <= k2 < count ==> domains@[k2].id < 64,
                    forall|id: u8|
                        id < 64 ==> (#[trigger] has_bit(due_mask, id as u64) <==> exists|j: int|
                            0 <= j < k && #[trigger] domains@[j].id == id && (slot as int)
                                % (domains@[j].period_ticks as int) == domains@[j].phase_ticks),
                decreases count - k,
            {
                let domain = copied[k];
                if slot % domain.period_ticks == domain.phase_ticks {
                    due_mask = set_bit(due_mask, domain.id as u64);
                }
                k = k + 1;
            }
            slots.push(ScheduleSlot { due_mask });
            slot = slot + 1;
        }
        Ok(ScheduleTable { base_tick_ns, hyperperiod_ticks: hyperperiod, domains: copied, slots })
    }

    /// A built table repeats a positive number of ticks and names domains
    /// with ids below 64.
    pub proof fn lemma_wf_shape(&self)
        requires
            self.wf(),
        ensures
            0 < self.spec_hyperperiod_ticks(),
            self.spec_slots().len() == self.spec_hyperperiod_ticks(),
            self.spec_domains().len() <= 64,
            self.spec_domains().len() <= DOMAINS,
            forall|j: int| 0 <= j < self.spec_domains().len() ==> (#[trigger] self.spec_domains()[j]).id < 64,
    {
    }

    pub fn base_tick_ns(&self) -> (base: u64)
        ensures
            base == self.spec_base_tick_ns(),
    {
        self.base_tick_ns
    }

    pub fn hyperperiod_ticks(&self) -> (ticks: u32)
        ensures
            ticks == self.spec_hyperperiod_ticks(),
    {
        self.hyperperiod_ticks
    }

    pub fn domain_count(&self) -> (count: usize)
        ensures
            count == self.spec_domains().len(),
    {
        self.domains.len()
    }

    pub fn domains(&self) -> (domains: &[ScheduleDomain])
        ensures
            domains@ == self.spec_domains(),
    {
        self.domains.as_slice()
    }

    /// The schedule slot for an absolute tick; the table repeats every
    /// hyperperiod.
    pub fn slot(&self, tick: u32) -> (slot: ScheduleSlot)
        requires
            self.wf(),
        ensures
            slot == self.spec_slots()[(tick % self.spec_hyperperiod_ticks()) as int],
    {
        self.slots[(tick % self.hyperperiod_ticks) as usize]
    }

    pub fn due_mask(&self, tick: u32) -> (mask: u64)
        requires
            self.wf(),
        ensures
            mask == self.spec_slots()[(tick % self.spec_hyperperiod_ticks()) as int].due_mask,
    {
        self.slot(tick).due_mask
    }
}

} // verus!
