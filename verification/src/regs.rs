//! SIA32 architectural integer-register identities and ABI roles.
//!
//! The architectural `Reg` type is used by the exact encoder. A register is
//! always one of r0..r15; the type invariant keeps every value in that range.

use regalloc2::{MachineEnv, PReg, PRegSet, RegClass};
use vstd::prelude::*;

verus! {

/// One of SIA32's sixteen architectural integer registers.
#[derive(Clone, Copy, Debug, PartialEq, Eq, Structural, PartialOrd, Ord, Hash)]
pub struct Reg(u8);

impl View for Reg {
    type V = u8;

    closed spec fn view(&self) -> u8 {
        self.0
    }
}

/// Registers available to ordinary integer register allocation: r1..r11 and r15.
pub open spec fn spec_normally_allocatable(n: u8) -> bool {
    (1 <= n <= 11) || n == 15
}

/// Caller-saved registers: r1..r8.
pub open spec fn spec_caller_saved(n: u8) -> bool {
    1 <= n <= 8
}

/// Callee-saved registers: r9..r11 and r15.
pub open spec fn spec_callee_saved(n: u8) -> bool {
    (9 <= n <= 11) || n == 15
}

/// The textual name of register number `n`: `sp`, `lr`, otherwise `r<n>`.
pub open spec fn spec_reg_name(n: u8) -> Seq<char> {
    if n == 13 {
        seq!['s', 'p']
    } else if n == 14 {
        seq!['l', 'r']
    } else if n < 10 {
        seq!['r', (('0' as u8) + n) as char]
    } else {
        seq!['r', '1', (('0' as u8) + (n - 10)) as char]
    }
}

impl Reg {
    #[verifier::type_invariant]
    closed spec fn inv(self) -> bool {
        self.0 < 16
    }

    /// The register numbered `n` (meaningful for `n < 16`).
    pub closed spec fn spec_new(n: u8) -> Reg {
        Reg(n)
    }

    pub broadcast proof fn lemma_spec_new_view(n: u8)
        ensures
            #[trigger] Reg::spec_new(n)@ == n,
    {
    }

    /// Two registers are equal exactly when their numbers are equal.
    pub proof fn lemma_view_injective(a: Reg, b: Reg)
        ensures
            a@ == b@ <==> a == b,
    {
    }

    /// Construct an architectural register. Values outside r0..r15 are rejected.
    pub fn new(index: u8) -> (res: Option<Self>)
        ensures
            index < 16 <==> res.is_some(),
            res matches Some(r) ==> r@ == index,
    {
        if index < 16 {
            Some(Self(index))
        } else {
            None
        }
    }

    /// The architectural register number.
    pub fn index(self) -> (n: u8)
        ensures
            n == self@,
            n < 16,
    {
        proof {
            use_type_invariant(self);
        }
        self.0
    }

    /// The fixed zero register r0.
    pub fn zero() -> (r: Self)
        ensures
            r@ == 0,
    {
        Self(0)
    }

    /// The stack pointer r13.
    pub fn sp() -> (r: Self)
        ensures
            r@ == 13,
    {
        Self(13)
    }

    /// The link register r14.
    pub fn lr() -> (r: Self)
        ensures
            r@ == 14,
    {
        Self(14)
    }

    /// The optional frame-pointer register r15.
    pub fn fp() -> (r: Self)
        ensures
            r@ == 15,
    {
        Self(15)
    }

    /// The reserved backend scratch register r12.
    pub fn scratch() -> (r: Self)
        ensures
            r@ == 12,
    {
        Self(12)
    }

    pub fn is_zero(self) -> (b: bool)
        ensures
            b == (self@ == 0),
    {
        self.0 == 0
    }

    pub fn is_sp(self) -> (b: bool)
        ensures
            b == (self@ == 13),
    {
        self.0 == 13
    }

    pub fn is_lr(self) -> (b: bool)
        ensures
            b == (self@ == 14),
    {
        self.0 == 14
    }

    pub fn is_fp(self) -> (b: bool)
        ensures
            b == (self@ == 15),
    {
        self.0 == 15
    }

    pub fn is_backend_scratch(self) -> (b: bool)
        ensures
            b == (self@ == 12),
    {
        self.0 == 12
    }

    /// Registers available to ordinary integer register allocation under the
    /// frozen initial ABI. r15 remains allocatable unless a function elects to
    /// use it as a frame pointer.
    pub fn normally_allocatable(self) -> (b: bool)
        ensures
            b == spec_normally_allocatable(self@),
    {
        (1 <= self.0 && self.0 <= 11) || self.0 == 15
    }

    pub fn caller_saved(self) -> (b: bool)
        ensures
            b == spec_caller_saved(self@),
    {
        1 <= self.0 && self.0 <= 8
    }

    pub fn callee_saved(self) -> (b: bool)
        ensures
            b == spec_callee_saved(self@),
    {
        (9 <= self.0 && self.0 <= 11) || self.0 == 15
    }

    /// The position of this register among the argument registers r1..r6.
    pub fn argument_index(self) -> (res: Option<u8>)
        ensures
            (1 <= self@ <= 6) <==> res.is_some(),
            res matches Some(i) ==> i == self@ - 1,
    {
        if 1 <= self.0 && self.0 <= 6 {
            Some(self.0 - 1)
        } else {
            None
        }
    }

    /// The textual name used by disassembly: `sp`, `lr`, or `r<n>`.
    pub fn name(self) -> (s: &'static str)
        ensures
            s@ == spec_reg_name(self@),
    {
        proof {
            use_type_invariant(self);
        }
        let s = match self.0 {
            0 => "r0",
            1 => "r1",
            2 => "r2",
            3 => "r3",
            4 => "r4",
            5 => "r5",
            6 => "r6",
            7 => "r7",
            8 => "r8",
            9 => "r9",
            10 => "r10",
            11 => "r11",
            12 => "r12",
            13 => "sp",
            14 => "lr",
            _ => "r15",
        };
        proof {
            reveal_strlit("r0");
            reveal_strlit("r1");
            reveal_strlit("r2");
            reveal_strlit("r3");
            reveal_strlit("r4");
            reveal_strlit("r5");
            reveal_strlit("r6");
            reveal_strlit("r7");
            reveal_strlit("r8");
            reveal_strlit("r9");
            reveal_strlit("r10");
            reveal_strlit("r11");
            reveal_strlit("r12");
            reveal_strlit("sp");
            reveal_strlit("lr");
            reveal_strlit("r15");
        }
        s
    }
}

/// The low word of a returned value: r1.
pub fn return_low() -> (r: Reg)
    ensures
        r@ == 1,
{
    Reg(1)
}

/// The high word of a returned I64: r2.
pub fn return_high() -> (r: Reg)
    ensures
        r@ == 2,
{
    Reg(2)
}

/// The argument registers, in assignment order: r1..r6.
pub fn arg_regs() -> (a: [Reg; 6])
    ensures
        forall|i: int| 0 <= i < 6 ==> #[trigger] a@[i]@ == i + 1,
{
    [Reg(1), Reg(2), Reg(3), Reg(4), Reg(5), Reg(6)]
}

/// The caller-saved registers r1..r8.
pub fn caller_saved_regs() -> (a: [Reg; 8])
    ensures
        forall|i: int| 0 <= i < 8 ==> #[trigger] a@[i]@ == i + 1,
{
    [Reg(1), Reg(2), Reg(3), Reg(4), Reg(5), Reg(6), Reg(7), Reg(8)]
}

/// The callee-saved registers r9, r10, r11, r15.
pub fn callee_saved_regs() -> (a: [Reg; 4])
    ensures
        a@[0]@ == 9,
        a@[1]@ == 10,
        a@[2]@ == 11,
        a@[3]@ == 15,
{
    [Reg(9), Reg(10), Reg(11), Reg(15)]
}

// ---------------------------------------------------------------------------
// Machine registers
// ---------------------------------------------------------------------------

/// A register that an instruction defines.
#[derive(Clone, Copy, Debug)]
pub struct Writable<T> {
    reg: T,
}

impl<T: Copy> Writable<T> {
    pub closed spec fn spec_reg(self) -> T {
        self.reg
    }

    pub fn from_reg(reg: T) -> (w: Self)
        ensures
            w.spec_reg() == reg,
    {
        Writable { reg }
    }

    pub fn to_reg(self) -> (r: T)
        ensures
            r == self.spec_reg(),
    {
        self.reg
    }
}

/// The machine register for architectural register number `index`.
pub fn mach_reg(index: u8) -> (r: Reg)
    requires
        index < 16,
    ensures
        r@ == index,
{
    Reg(index)
}

pub fn zero_reg() -> (r: Reg)
    ensures
        r@ == 0,
{
    mach_reg(Reg::zero().index())
}

pub fn stack_reg() -> (r: Reg)
    ensures
        r@ == 13,
{
    mach_reg(Reg::sp().index())
}

pub fn link_reg() -> (r: Reg)
    ensures
        r@ == 14,
{
    mach_reg(Reg::lr().index())
}

pub fn fp_reg() -> (r: Reg)
    ensures
        r@ == 15,
{
    mach_reg(Reg::fp().index())
}

pub fn scratch_reg() -> (r: Reg)
    ensures
        r@ == 12,
{
    mach_reg(Reg::scratch().index())
}

pub fn writable_zero_reg() -> (w: Writable<Reg>)
    ensures
        w.spec_reg()@ == 0,
{
    Writable::from_reg(zero_reg())
}

pub fn writable_stack_reg() -> (w: Writable<Reg>)
    ensures
        w.spec_reg()@ == 13,
{
    Writable::from_reg(stack_reg())
}

pub fn writable_link_reg() -> (w: Writable<Reg>)
    ensures
        w.spec_reg()@ == 14,
{
    Writable::from_reg(link_reg())
}

pub fn writable_fp_reg() -> (w: Writable<Reg>)
    ensures
        w.spec_reg()@ == 15,
{
    Writable::from_reg(fp_reg())
}

pub fn writable_scratch_reg() -> (w: Writable<Reg>)
    ensures
        w.spec_reg()@ == 12,
{
    Writable::from_reg(scratch_reg())
}

// ---------------------------------------------------------------------------
// Register-allocator view of the registers
// ---------------------------------------------------------------------------

#[verifier::external_type_specification]
#[verifier::external_body]
pub struct ExPReg(PReg);

#[verifier::external_type_specification]
#[verifier::external_body]
pub struct ExPRegSet(PRegSet);

#[verifier::external_type_specification]
#[verifier::external_body]
pub struct ExMachineEnv(MachineEnv);

/// `PRegSet::clone`: the set is `Copy`, so a clone is the same set.
pub assume_specification[ <PRegSet as Clone>::clone ](s: &PRegSet) -> (r: PRegSet)
    ensures
        r == *s,
;

/// `PReg::index`: the register's index in the index space shared by all
/// classes (integer registers are 0..=63, by hardware number).
pub uninterp spec fn preg_index(p: PReg) -> usize;

/// The registers of a `PRegSet`, each given by its `PReg::index`.
pub uninterp spec fn preg_set_indices(s: PRegSet) -> Set<usize>;

/// The preferred allocatable registers of each class, by index.
pub uninterp spec fn machine_env_preferred(e: MachineEnv) -> Seq<Set<usize>>;

/// The non-preferred allocatable registers of each class, by index.
pub uninterp spec fn machine_env_non_preferred(e: MachineEnv) -> Seq<Set<usize>>;

/// The dedicated scratch register of each class, by index.
pub uninterp spec fn machine_env_scratch(e: MachineEnv) -> Seq<Option<usize>>;

/// The registers that stand for fixed stack slots, by index.
pub uninterp spec fn machine_env_fixed_stack_slots(e: MachineEnv) -> Seq<usize>;

/// `PReg::new(index, RegClass::Int)`: the allocator's integer register with
/// hardware number `index`. Its index is `(Int << 6) | index`, which is
/// `index` for the integer class.
#[verifier::external_body]
pub fn preg(index: u8) -> (p: PReg)
    requires
        index < 16,
    ensures
        preg_index(p) == index,
{
    PReg::new(index as usize, RegClass::Int)
}

/// `PRegSet::empty`: the set with no registers.
#[verifier::external_body]
pub(crate) fn preg_set_empty() -> (s: PRegSet)
    ensures
        preg_set_indices(s) == Set::<usize>::empty(),
{
    PRegSet::empty()
}

/// `PRegSet::with`: the set with one more register.
#[verifier::external_body]
pub(crate) fn preg_set_with(s: PRegSet, p: PReg) -> (r: PRegSet)
    ensures
        preg_set_indices(r) == preg_set_indices(s).insert(preg_index(p)),
{
    s.with(p)
}

/// `PRegSet::remove`: the set without the register.
#[verifier::external_body]
pub(crate) fn preg_set_remove(s: &mut PRegSet, p: PReg)
    ensures
        preg_set_indices(*final(s)) == preg_set_indices(*old(s)).remove(preg_index(p)),
{
    s.remove(p)
}

/// The index of an optional register.
pub open spec fn opt_preg_index(o: Option<PReg>) -> Option<usize> {
    match o {
        Some(p) => Some(preg_index(p)),
        None => None,
    }
}

/// `MachineEnv { .. }`: the environment with the given preferred and
/// non-preferred registers, dedicated scratch register and fixed stack slots
/// per class, each field holding exactly what it is given.
#[verifier::external_body]
fn machine_env(
    preferred: [PRegSet; 3],
    non_preferred: [PRegSet; 3],
    scratch: [Option<PReg>; 3],
    fixed_stack_slots: Vec<PReg>,
) -> (e: MachineEnv)
    ensures
        machine_env_preferred(e) == seq![
            preg_set_indices(preferred@[0]),
            preg_set_indices(preferred@[1]),
            preg_set_indices(preferred@[2]),
        ],
        machine_env_non_preferred(e) == seq![
            preg_set_indices(non_preferred@[0]),
            preg_set_indices(non_preferred@[1]),
            preg_set_indices(non_preferred@[2]),
        ],
        machine_env_scratch(e) == scratch@.map_values(|o: Option<PReg>| opt_preg_index(o)),
        machine_env_fixed_stack_slots(e) == fixed_stack_slots@.map_values(|p: PReg| preg_index(p)),
{
    MachineEnv {
        preferred_regs_by_class: preferred,
        non_preferred_regs_by_class: non_preferred,
        fixed_stack_slots,
        scratch_by_class: scratch,
    }
}

/// The set holding the integer registers numbered `from..=to`, added to `s`.
fn with_range(s: PRegSet, from: u8, to: u8) -> (r: PRegSet)
    requires
        from <= to < 16,
    ensures
        preg_set_indices(r) == preg_set_indices(s).union(Set::new(|i: usize| from <= i <= to)),
{
    let mut r = s;
    let mut n = from;
    while n <= to
        invariant
            from <= n <= to + 1,
            to < 16,
            preg_set_indices(r) == preg_set_indices(s).union(Set::new(|i: usize| from <= i < n)),
        decreases to + 1 - n,
    {
        r = preg_set_with(r, preg(n));
        assert(preg_set_indices(r) =~= preg_set_indices(s).union(Set::new(|i: usize| from <= i < n + 1)));
        n = n + 1;
    }
    assert(Set::new(|i: usize| from <= i < n) =~= Set::new(|i: usize| from <= i <= to));
    r
}

/// The register-allocation environment. Caller-saved r1..r8 are preferred so
/// leaf functions avoid save/restore work; callee-saved r9..r11 and r15 come
/// second. The zero register r0, the scratch r12, `sp` (r13) and `lr` (r14)
/// are fixed and in neither set; there are no dedicated scratch registers
/// (r12 belongs to the emitter, not the allocator) and no fixed stack slots.
pub fn create_reg_environment() -> (e: MachineEnv)
    ensures
        machine_env_preferred(e) == seq![
            Set::new(|i: usize| 1 <= i <= 8),
            Set::<usize>::empty(),
            Set::<usize>::empty(),
        ],
        machine_env_non_preferred(e) == seq![
            set![9usize, 10, 11, 15],
            Set::<usize>::empty(),
            Set::<usize>::empty(),
        ],
        machine_env_scratch(e) == seq![None::<usize>, None, None],
        machine_env_fixed_stack_slots(e) == Seq::<usize>::empty(),
{
    let preferred = with_range(preg_set_empty(), 1, 8);
    let non_preferred = preg_set_with(
        preg_set_with(preg_set_with(preg_set_with(preg_set_empty(), preg(9)), preg(10)), preg(11)),
        preg(15),
    );
    assert(preg_set_indices(preferred) =~= Set::new(|i: usize| 1 <= i <= 8));
    assert(preg_set_indices(non_preferred) =~= set![9usize, 10, 11, 15]);
    let scratch: [Option<PReg>; 3] = [None, None, None];
    let fixed_stack_slots: Vec<PReg> = Vec::new();
    let e = machine_env(
        [preferred, preg_set_empty(), preg_set_empty()],
        [non_preferred, preg_set_empty(), preg_set_empty()],
        scratch,
        fixed_stack_slots,
    );
    assert(scratch@.map_values(|o: Option<PReg>| opt_preg_index(o)) =~= seq![None::<usize>, None, None]);
    assert(fixed_stack_slots@.map_values(|p: PReg| preg_index(p)) =~= Seq::<usize>::empty());
    e
}

/// The allocatable registers of the environment are exactly the normally
/// allocatable ones: the caller-saved registers are preferred, the
/// callee-saved ones are not, and the fixed registers r0, r12, r13 and r14
/// are in neither set.
pub proof fn lemma_reg_environment_roles()
    ensures
        forall|n: u8|
            n < 16 ==> (Set::new(|i: usize| 1 <= i <= 8).contains(n as usize) <==> #[trigger] spec_caller_saved(n)),
        forall|n: u8|
            n < 16 ==> (set![9usize, 10, 11, 15].contains(n as usize) <==> #[trigger] spec_callee_saved(n)),
        forall|n: u8|
            n < 16 ==> (#[trigger] spec_normally_allocatable(n) <==> spec_caller_saved(n) || spec_callee_saved(n)),
        forall|n: u8| n == 0 || n == 12 || n == 13 || n == 14 ==> !#[trigger] spec_normally_allocatable(n),
{
    assert forall|n: u8| n < 16 implies (set![9usize, 10, 11, 15].contains(n as usize) <==> #[trigger] spec_callee_saved(n)) by {
        if spec_callee_saved(n) {
            assert(set![9usize, 10, 11, 15].contains(n as usize));
        }
    }
}

} // verus!
