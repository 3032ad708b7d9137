//! The SIA32 compiler ABI as the code generator implements it: argument and
//! return placement, frame layout, prologue/epilogue and clobber-save
//! sequences, and the register roles of calls.
//!
//! Only the SystemV calling-convention identifier is accepted; features outside
//! the initial contract (by-value struct arguments, stack probing, tail calls,
//! floating point and vectors) are rejected.

use crate::abi_contract::{
    align_to, align_up, initial_cursor, lemma_align_up, lemma_prefix_bounds, lemma_prefix_monotone,
    place_prefix, place_step, spec_arg_locations, spec_arg_stack_end, spec_arg_stack_size, spec_ret_locations, ArgCursor, Location, ValueKind,
};
use crate::inst::{
    rc_for_type, spec_reg_parts, stack_offset, FrameLayout, FunctionCalls, Inst, StackAMode, UnsupportedType, ValueType,
};
use smallvec::SmallVec;
use crate::regs::{
    create_reg_environment, machine_env_fixed_stack_slots, machine_env_non_preferred,
    machine_env_preferred, machine_env_scratch, preg, preg_set_empty, preg_set_indices,
    preg_set_with, Reg,
};
use regalloc2::{MachineEnv, PRegSet};
use vstd::prelude::*;

verus! {

broadcast use Reg::lemma_spec_new_view;

/// Calling-convention identifiers.
#[derive(Clone, Copy, Debug, PartialEq, Eq, Structural)]
pub enum CallConv {
    Fast,
    Tail,
    SystemV,
    WindowsFastcall,
    AppleAarch64,
    Probestack,
    Winch,
    PreserveAll,
}

/// The textual name of each calling convention.
pub open spec fn spec_call_conv_name(cc: CallConv) -> Seq<char> {
    match cc {
        CallConv::Fast => "fast"@,
        CallConv::Tail => "tail"@,
        CallConv::SystemV => "system_v"@,
        CallConv::WindowsFastcall => "windows_fastcall"@,
        CallConv::AppleAarch64 => "apple_aarch64"@,
        CallConv::Probestack => "probestack"@,
        CallConv::Winch => "winch"@,
        CallConv::PreserveAll => "preserve_all"@,
    }
}

impl CallConv {
    /// The calling convention's name, as it is written in text.
    pub fn name(self) -> (s: &'static str)
        ensures
            s@ == spec_call_conv_name(self),
    {
        match self {
            Self::Fast => "fast",
            Self::Tail => "tail",
            Self::SystemV => "system_v",
            Self::WindowsFastcall => "windows_fastcall",
            Self::AppleAarch64 => "apple_aarch64",
            Self::Probestack => "probestack",
            Self::Winch => "winch",
            Self::PreserveAll => "preserve_all",
        }
    }
}

/// How a narrow integer argument is extended to its register or slot.
#[derive(Clone, Copy, Debug, PartialEq, Eq, Structural)]
pub enum ArgumentExtension {
    /// No extension is promised.
    NoExt,
    Uext,
    Sext,
}

/// The role of a parameter in a signature.
#[derive(Clone, Copy, Debug, PartialEq, Eq, Structural)]
pub enum ArgumentPurpose {
    Normal,
    /// A by-value aggregate of the given size.
    StructArgument(u32),
    StructReturn,
    VMContext,
}

/// One parameter or return value of a signature.
#[derive(Clone, Copy, Debug, PartialEq, Eq, Structural)]
pub struct AbiParam {
    pub value_type: ValueType,
    pub purpose: ArgumentPurpose,
    pub extension: ArgumentExtension,
}

#[derive(Clone, Copy, Debug, PartialEq, Eq, Structural)]
pub enum ArgsOrRets {
    Args,
    Rets,
}

/// Whether a value is passed in a register or on the stack.
#[derive(Clone, Copy, Debug, PartialEq, Eq, Structural)]
pub enum ABIArgLocation {
    Reg,
    Stack,
}

/// One 32-bit part of an argument or return value.
#[derive(Clone, Copy, Debug, PartialEq, Eq, Structural)]
pub enum ABIArgSlot {
    Reg { reg: Reg, ty: ValueType, extension: ArgumentExtension },
    /// A slot at `offset` bytes into the stack argument or return area.
    Stack { offset: i64, ty: ValueType, extension: ArgumentExtension },
}

/// An argument or return value: its parts, low word first, and its purpose.
#[derive(Clone, Debug)]
pub enum ABIArg {
    Slots { slots: Vec<ABIArgSlot>, purpose: ArgumentPurpose },
}

impl View for ABIArg {
    type V = (Seq<ABIArgSlot>, ArgumentPurpose);

    open spec fn view(&self) -> (Seq<ABIArgSlot>, ArgumentPurpose) {
        match self {
            ABIArg::Slots { slots, purpose } => (slots@, *purpose),
        }
    }
}

/// The reasons an ABI request is refused.
#[derive(Clone, Copy, Debug, PartialEq, Eq, Structural)]
pub enum AbiError {
    /// Only the SystemV identifier is accepted.
    UnsupportedCallConv(CallConv),
    /// A return-area pointer was requested while placing return values.
    ReturnAreaPointerOnReturns,
    /// By-value aggregates must be lowered to an explicit pointer first.
    StructArgument,
    /// The value type has no integer-register representation.
    UnsupportedType(ValueType),
    /// Return values beyond r1:r2 while implicit sret is disabled.
    ReturnsExceedRegisters,
}

/// Only the SystemV calling-convention identifier is accepted.
pub fn ensure_call_conv(call_conv: CallConv) -> (res: Result<(), AbiError>)
    ensures
        res == if call_conv == CallConv::SystemV {
            Ok::<(), AbiError>(())
        } else {
            Err(AbiError::UnsupportedCallConv(call_conv))
        },
{
    if call_conv == CallConv::SystemV {
        Ok(())
    } else {
        Err(AbiError::UnsupportedCallConv(call_conv))
    }
}

// ---------------------------------------------------------------------------
// Short instruction lists
// ---------------------------------------------------------------------------

/// A short list of instructions, held inline for up to four entries
/// (a `SmallVec<[Inst; 4]>`).
#[verifier::external_body]
pub struct SmallInstVec {
    pub items: SmallVec<[Inst; 4]>,
}

/// A list of instructions held inline for up to sixteen entries
/// (a `SmallVec<[Inst; 16]>`), used for callee-save sequences.
#[verifier::external_body]
pub struct SmallInstVec16 {
    pub items: SmallVec<[Inst; 16]>,
}

/// The instructions held, in order, by a `SmallInstVec`.
pub uninterp spec fn inst_vec_items(v: SmallInstVec) -> Seq<Inst>;

/// The instructions held, in order, by a `SmallInstVec16`.
pub uninterp spec fn save_vec_items(v: SmallInstVec16) -> Seq<Inst>;

impl SmallInstVec {
    /// `SmallVec::new`: an empty list.
    #[verifier::external_body]
    pub(crate) fn new() -> (v: Self)
        ensures
            inst_vec_items(v) == Seq::<Inst>::empty(),
    {
        SmallInstVec { items: SmallVec::new() }
    }

    /// `SmallVec::push`: the item is appended at the end. It panics only when
    /// the length no longer fits the capacity arithmetic, far beyond the bound
    /// here.
    #[verifier::external_body]
    pub(crate) fn push(&mut self, inst: Inst)
        requires
            inst_vec_items(*old(self)).len() < 0x8000_0000,
        ensures
            inst_vec_items(*final(self)) == inst_vec_items(*old(self)).push(inst),
    {
        self.items.push(inst)
    }

}

impl SmallInstVec16 {
    /// `SmallVec::new`: an empty list.
    #[verifier::external_body]
    pub(crate) fn new() -> (v: Self)
        ensures
            save_vec_items(v) == Seq::<Inst>::empty(),
    {
        SmallInstVec16 { items: SmallVec::new() }
    }

    /// `SmallVec::push`: the item is appended at the end. It panics only when
    /// the length no longer fits the capacity arithmetic, far beyond the bound
    /// here.
    #[verifier::external_body]
    pub(crate) fn push(&mut self, inst: Inst)
        requires
            save_vec_items(*old(self)).len() < 0x8000_0000,
        ensures
            save_vec_items(*final(self)) == save_vec_items(*old(self)).push(inst),
    {
        self.items.push(inst)
    }

}

// ---------------------------------------------------------------------------
// Argument and return placement
// ---------------------------------------------------------------------------

/// A narrow value keeps its declared extension; the two words of an I64 have none.
pub open spec fn part_extension(parts: int, e: ArgumentExtension) -> ArgumentExtension {
    if parts == 1 {
        e
    } else {
        ArgumentExtension::NoExt
    }
}

/// The register slots of a value of `parts` words starting at register `first`.
pub open spec fn reg_slots(first: int, parts: int, e: ArgumentExtension) -> Seq<ABIArgSlot> {
    Seq::new(
        parts as nat,
        |k: int|
            ABIArgSlot::Reg {
                reg: Reg::spec_new((first + k) as u8),
                ty: ValueType::I32,
                extension: part_extension(parts, e),
            },
    )
}

/// The stack slots of a value of `parts` words starting at byte `offset`.
pub open spec fn stack_slots(offset: int, parts: int, e: ArgumentExtension) -> Seq<ABIArgSlot> {
    Seq::new(
        parts as nat,
        |k: int|
            ABIArgSlot::Stack {
                offset: (offset + 4 * k) as i64,
                ty: ValueType::I32,
                extension: part_extension(parts, e),
            },
    )
}

/// The last register of the register area: r6 for arguments, r2 for returns.
pub open spec fn reg_last(rets: bool) -> int {
    if rets {
        2
    } else {
        6
    }
}

/// Placement of one parameter. An aggregate or an unsupported type is refused.
/// A value of one word takes the next register; an I64 takes the next pair that
/// starts on an odd register. A value that does not fit the register area goes
/// to the stack, aligned to its size; after that, later arguments (not return
/// values) go to the stack as well. A return value that does not fit is refused
/// unless implicit sret is enabled.
pub open spec fn param_step(c: ArgCursor, p: AbiParam, rets: bool, implicit_sret: bool) -> Result<
    ((Seq<ABIArgSlot>, ArgumentPurpose), ArgCursor),
    AbiError,
> {
    if p.purpose is StructArgument {
        Err(AbiError::StructArgument)
    } else {
        match spec_reg_parts(p.value_type) {
            None => Err(AbiError::UnsupportedType(p.value_type)),
            Some(parts) => {
                let nr = if parts == 2 && c.next_reg % 2 == 0 {
                    c.next_reg + 1
                } else {
                    c.next_reg
                };
                if !c.stack_only && nr <= reg_last(rets) && nr + parts - 1 <= reg_last(rets) {
                    Ok(
                        (
                            (reg_slots(nr, parts as int, p.extension), p.purpose),
                            ArgCursor { next_reg: nr + parts, ..c },
                        ),
                    )
                } else if rets && !implicit_sret {
                    Err(AbiError::ReturnsExceedRegisters)
                } else {
                    let off = align_up(c.next_stack, 4 * parts);
                    Ok(
                        (
                            (stack_slots(off, parts as int, p.extension), p.purpose),
                            ArgCursor {
                                next_reg: nr,
                                stack_only: c.stack_only || !rets,
                                next_stack: off + 4 * parts,
                            },
                        ),
                    )
                }
            },
        }
    }
}

/// The placed parameters so far, the cursor, and the first refusal if any.
pub struct PlacementState {
    pub args: Seq<(Seq<ABIArgSlot>, ArgumentPurpose)>,
    pub cursor: ArgCursor,
    pub error: Option<AbiError>,
}

/// Placement of the first `n` parameters; placement stops at the first refusal.
pub open spec fn place_params(
    params: Seq<AbiParam>,
    n: nat,
    rets: bool,
    sret: bool,
    implicit_sret: bool,
) -> PlacementState
    decreases n,
{
    if n == 0 {
        PlacementState { args: Seq::empty(), cursor: initial_cursor(sret), error: None }
    } else {
        let st = place_params(params, (n - 1) as nat, rets, sret, implicit_sret);
        if st.error is Some {
            st
        } else {
            match param_step(st.cursor, params[n - 1], rets, implicit_sret) {
                Err(e) => PlacementState { error: Some(e), ..st },
                Ok((a, c)) => PlacementState { args: st.args.push(a), cursor: c, error: None },
            }
        }
    }
}

/// The hidden return-area pointer: r1, after every formal argument.
pub open spec fn ret_area_arg() -> (Seq<ABIArgSlot>, ArgumentPurpose) {
    (reg_slots(1, 1, ArgumentExtension::NoExt), ArgumentPurpose::Normal)
}

/// `new` is `old` with arguments of the given views appended.
pub open spec fn appended(old: Seq<ABIArg>, new: Seq<ABIArg>, added: Seq<(Seq<ABIArgSlot>, ArgumentPurpose)>) -> bool {
    &&& new.len() == old.len() + added.len()
    &&& forall|i: int| 0 <= i < old.len() ==> new[i] == old[i]
    &&& forall|j: int| 0 <= j < added.len() ==> (#[trigger] new[old.len() + j])@ == added[j]
}

proof fn lemma_place_bounds(params: Seq<AbiParam>, n: nat, rets: bool, sret: bool, implicit_sret: bool)
    requires
        n <= params.len(),
    ensures
        ({
            let st = place_params(params, n, rets, sret, implicit_sret);
            &&& 1 <= st.cursor.next_reg <= 7
            &&& 0 <= st.cursor.next_stack <= 12 * n
            &&& st.cursor.next_stack % 4 == 0
            &&& st.args.len() <= n
        }),
    decreases n,
{
    if n > 0 {
        lemma_place_bounds(params, (n - 1) as nat, rets, sret, implicit_sret);
        let st = place_params(params, (n - 1) as nat, rets, sret, implicit_sret);
        lemma_align_up(st.cursor.next_stack, 4);
        lemma_align_up(st.cursor.next_stack, 8);
    }
}

/// The stack cursor of the placement never moves down.
proof fn lemma_place_monotone(params: Seq<AbiParam>, i: nat, j: nat, rets: bool, sret: bool, implicit_sret: bool)
    requires
        i <= j <= params.len(),
    ensures
        place_params(params, i, rets, sret, implicit_sret).cursor.next_stack
            <= place_params(params, j, rets, sret, implicit_sret).cursor.next_stack,
    decreases j - i,
{
    if i < j {
        lemma_place_monotone(params, i, (j - 1) as nat, rets, sret, implicit_sret);
        lemma_place_bounds(params, (j - 1) as nat, rets, sret, implicit_sret);
        let st = place_params(params, (j - 1) as nat, rets, sret, implicit_sret);
        lemma_align_up(st.cursor.next_stack, 4);
        lemma_align_up(st.cursor.next_stack, 8);
    }
}

/// Whether the placement's 32-bit stack cursor stays in range: every value it
/// reaches fits 32 bits, and unless a parameter is refused, so does the
/// stack area rounded up to 8 bytes.
pub open spec fn arg_stack_fits(params: Seq<AbiParam>, rets: bool, sret: bool, implicit_sret: bool) -> bool {
    let st = place_params(params, params.len(), rets, sret, implicit_sret);
    &&& st.cursor.next_stack <= u32::MAX
    &&& st.error is None ==> st.cursor.next_stack + 7 <= u32::MAX
}

proof fn lemma_error_sticky(
    params: Seq<AbiParam>,
    k: nat,
    n: nat,
    rets: bool,
    sret: bool,
    implicit_sret: bool,
)
    requires
        k <= n,
        place_params(params, k, rets, sret, implicit_sret).error is Some,
    ensures
        place_params(params, n, rets, sret, implicit_sret) == place_params(params, k, rets, sret, implicit_sret),
    decreases n - k,
{
    if n > k {
        lemma_error_sticky(params, k, (n - 1) as nat, rets, sret, implicit_sret);
    }
}

proof fn lemma_appended_push(
    old: Seq<ABIArg>,
    mid: Seq<ABIArg>,
    added: Seq<(Seq<ABIArgSlot>, ArgumentPurpose)>,
    a: ABIArg,
)
    requires
        appended(old, mid, added),
    ensures
        appended(old, mid.push(a), added.push(a@)),
{
    let new = mid.push(a);
    let added2 = added.push(a@);
    assert forall|j: int| 0 <= j < added2.len() implies (#[trigger] new[old.len() + j])@ == added2[j] by {
        if j < added.len() {
            assert(new[old.len() + j] == mid[old.len() + j]);
        }
    }
}

fn reg_of(n: u8) -> (r: Reg)
    requires
        n < 16,
    ensures
        r@ == n,
        r == Reg::spec_new(n),
{
    let r = Reg::new(n).unwrap();
    proof {
        Reg::lemma_view_injective(r, Reg::spec_new(n));
    }
    r
}

/// Placement of one parameter from the cursor (`next_reg`, `stack_only`,
/// `next_stack`).
fn place_one(
    param: AbiParam,
    next_reg: u8,
    stack_only: bool,
    next_stack: u32,
    rets: bool,
    implicit_sret: bool,
) -> (res: Result<(ABIArg, u8, bool, u32), AbiError>)
    requires
        1 <= next_reg <= 7,
        next_stack % 4 == 0,
        match param_step(ArgCursor { next_reg: next_reg as int, stack_only, next_stack: next_stack as int }, param, rets, implicit_sret) {
            Ok((_, c)) => c.next_stack <= u32::MAX,
            Err(_) => true,
        },
    ensures
        match param_step(ArgCursor { next_reg: next_reg as int, stack_only, next_stack: next_stack as int }, param, rets, implicit_sret) {
            Err(e) => res == Err::<(ABIArg, u8, bool, u32), AbiError>(e),
            Ok((a, c)) => res matches Ok((arg, nr, so, ns)) && arg@ == a && nr == c.next_reg
                && so == c.stack_only && ns == c.next_stack,
        },
{
    proof {
        lemma_align_up(next_stack as int, 4);
        lemma_align_up(next_stack as int, 8);
    }
    let mut next_reg = next_reg;
    let mut stack_only = stack_only;
    let mut next_stack = next_stack;
    let reg_last_n: u8 = if rets {
        2
    } else {
        6
    };
    if let ArgumentPurpose::StructArgument(_) = param.purpose {
        return Err(AbiError::StructArgument);
    }
    let parts = match rc_for_type(param.value_type) {
        Ok(n) => n,
        Err(UnsupportedType(t)) => {
            return Err(AbiError::UnsupportedType(t));
        },
    };
    if parts == 2 && next_reg % 2 == 0 {
        next_reg = next_reg + 1;
    }
    let fits = !stack_only && next_reg <= reg_last_n && next_reg + parts - 1 <= reg_last_n;
    let mut slots: Vec<ABIArgSlot> = Vec::new();
    if fits {
        if parts == 1 {
            slots.push(
                ABIArgSlot::Reg {
                    reg: reg_of(next_reg),
                    ty: ValueType::I32,
                    extension: param.extension,
                },
            );
        } else {
            slots.push(
                ABIArgSlot::Reg {
                    reg: reg_of(next_reg),
                    ty: ValueType::I32,
                    extension: ArgumentExtension::NoExt,
                },
            );
            slots.push(
                ABIArgSlot::Reg {
                    reg: reg_of(next_reg + 1),
                    ty: ValueType::I32,
                    extension: ArgumentExtension::NoExt,
                },
            );
        }
        proof {
            assert(slots@ =~= reg_slots(next_reg as int, parts as int, param.extension));
        }
        next_reg = next_reg + parts;
    } else {
        if rets && !implicit_sret {
            return Err(AbiError::ReturnsExceedRegisters);
        }
        if !rets {
            stack_only = true;
        }
        let value_align: u32 = if parts == 2 {
            8
        } else {
            4
        };
        next_stack = align_to(next_stack, value_align);
        if parts == 1 {
            slots.push(
                ABIArgSlot::Stack {
                    offset: next_stack as i64,
                    ty: ValueType::I32,
                    extension: param.extension,
                },
            );
        } else {
            slots.push(
                ABIArgSlot::Stack {
                    offset: next_stack as i64,
                    ty: ValueType::I32,
                    extension: ArgumentExtension::NoExt,
                },
            );
            slots.push(
                ABIArgSlot::Stack {
                    offset: (next_stack + 4) as i64,
                    ty: ValueType::I32,
                    extension: ArgumentExtension::NoExt,
                },
            );
        }
        proof {
            assert(slots@ =~= stack_slots(next_stack as int, parts as int, param.extension));
        }
        next_stack = next_stack + 4 * (parts as u32);
    }
    Ok((ABIArg::Slots { slots, purpose: param.purpose }, next_reg, stack_only, next_stack))
}

// ---------------------------------------------------------------------------
// Agreement with the ABI contract
// ---------------------------------------------------------------------------

/// The ABI contract's kind of an integer value type.
pub open spec fn value_kind(ty: ValueType) -> ValueKind {
    match ty {
        ValueType::I8 => ValueKind::I8,
        ValueType::I16 => ValueKind::I16,
        ValueType::I64 => ValueKind::I64,
        _ => ValueKind::I32,
    }
}

pub open spec fn param_kinds(params: Seq<AbiParam>) -> Seq<ValueKind> {
    params.map_values(|p: AbiParam| value_kind(p.value_type))
}

/// Every parameter has an integer-register representation and none is a
/// by-value aggregate.
pub open spec fn plain_int_params(params: Seq<AbiParam>) -> bool {
    forall|i: int|
        0 <= i < params.len() ==> (#[trigger] spec_reg_parts(params[i].value_type)) is Some
            && !(params[i].purpose is StructArgument)
}

/// The slots that stand for a contract location.
pub open spec fn location_slots(loc: Location, e: ArgumentExtension) -> Seq<ABIArgSlot> {
    match loc {
        Location::Reg(r) => reg_slots(r as int, 1, e),
        Location::RegPair { low, .. } => reg_slots(low as int, 2, e),
        Location::Stack { offset, size, .. } => stack_slots(offset as int, size as int / 4, e),
    }
}

#[verifier::rlimit(30)]
proof fn lemma_args_follow_contract(params: Seq<AbiParam>, n: nat, sret: bool, implicit_sret: bool)
    requires
        n <= params.len(),
        spec_arg_stack_end(param_kinds(params), sret) <= u32::MAX,
        plain_int_params(params),
    ensures
        ({
            let st = place_params(params, n, false, sret, implicit_sret);
            let (locs, c) = place_prefix(param_kinds(params), n, sret);
            &&& st.error is None
            &&& st.args.len() == n
            &&& locs.len() == n
            &&& forall|i: int|
                0 <= i < n ==> #[trigger] st.args[i] == (
                    location_slots(locs[i], params[i].extension),
                    params[i].purpose,
                )
            &&& st.cursor.stack_only == c.stack_only
            &&& st.cursor.next_stack == c.next_stack
            &&& !c.stack_only ==> st.cursor.next_reg == c.next_reg
        }),
    decreases n,
{
    if n > 0 {
        let m = (n - 1) as nat;
        lemma_args_follow_contract(params, m, sret, implicit_sret);
        lemma_place_bounds(params, m, false, sret, implicit_sret);
        let kinds = param_kinds(params);
        assert(kinds.len() == params.len());
        lemma_prefix_bounds(kinds, m, sret);
        lemma_prefix_monotone(kinds, m, kinds.len(), sret);
        let st = place_params(params, m, false, sret, implicit_sret);
        let (locs, c) = place_prefix(kinds, m, sret);
        let p = params[m as int];
        assert(spec_reg_parts(p.value_type) is Some);
        assert(kinds[m as int] == value_kind(p.value_type));
        let st2 = place_params(params, n, false, sret, implicit_sret);
        let (locs2, c2) = place_prefix(kinds, n, sret);
        assert forall|i: int| 0 <= i < n implies #[trigger] st2.args[i] == (
            location_slots(locs2[i], params[i].extension),
            params[i].purpose,
        ) by {
            if i < m {
                assert(st2.args[i] == st.args[i]);
                assert(locs2[i] == locs[i]);
            } else {
                let (loc, _) = place_step(c, kinds[m as int]);
                assert(locs2[i] == loc);
                match loc {
                    Location::Stack { offset, size, .. } => {
                        lemma_align_up(c.next_stack, 4);
                        lemma_align_up(c.next_stack, 8);
                        assert(stack_slots(offset as int, size as int / 4, p.extension) =~= st2.args[i].0);
                    },
                    Location::RegPair { low, .. } => {
                        assert(reg_slots(low as int, 2, p.extension) =~= st2.args[i].0);
                    },
                    Location::Reg(r) => {
                        assert(reg_slots(r as int, 1, p.extension) =~= st2.args[i].0);
                    },
                }
            }
        }
    }
}

/// The argument placement of the code generator is the ABI contract's: for
/// integer arguments (no by-value aggregates), every argument gets exactly the
/// registers or stack slots that the contract's placement gives its kind, and
/// the stack argument area has the contract's size (for any list of arguments
/// whose stack slots have 32-bit offsets).
pub proof fn lemma_arg_locs_follow_contract(params: Seq<AbiParam>, sret: bool, implicit_sret: bool)
    requires
        spec_arg_stack_end(param_kinds(params), sret) <= u32::MAX,
        plain_int_params(params),
    ensures
        ({
            let st = place_params(params, params.len(), false, sret, implicit_sret);
            let locs = spec_arg_locations(param_kinds(params), sret);
            &&& st.error is None
            &&& st.args.len() == params.len()
            &&& forall|i: int|
                0 <= i < params.len() ==> #[trigger] st.args[i] == (
                    location_slots(locs[i], params[i].extension),
                    params[i].purpose,
                )
            &&& align_up(st.cursor.next_stack, 8) == spec_arg_stack_size(param_kinds(params), sret)
        }),
{
    lemma_args_follow_contract(params, params.len(), sret, implicit_sret);
    assert(param_kinds(params).len() == params.len());
}

/// Return values follow the contract: with implicit sret disabled, integer
/// return values are placed exactly when the contract can return them in
/// r1:r2 (one value, or two values of at most 32 bits), in the contract's
/// registers; any other list is refused.
pub proof fn lemma_ret_locs_follow_contract(params: Seq<AbiParam>)
    requires
        plain_int_params(params),
    ensures
        ({
            let st = place_params(params, params.len(), true, false, false);
            let kinds = param_kinds(params);
            &&& (st.error is None) == (spec_ret_locations(kinds) is Some)
            &&& st.error is Some ==> st.error == Some(AbiError::ReturnsExceedRegisters)
            &&& spec_ret_locations(kinds) matches Some(locs) ==> st.args.len() == locs.len()
                && forall|i: int|
                0 <= i < locs.len() ==> #[trigger] st.args[i] == (
                    location_slots(locs[i], params[i].extension),
                    params[i].purpose,
                )
        }),
{
    let kinds = param_kinds(params);
    let n = params.len();
    let s0 = place_params(params, 0, true, false, false);
    if n >= 1 {
        assert(spec_reg_parts(params[0].value_type) is Some);
        assert(kinds[0] == value_kind(params[0].value_type));
        let s1 = place_params(params, 1, true, false, false);
        assert(s1.error is None);
        assert(s1.args[0].0 =~= location_slots(
            if kinds[0] == ValueKind::I64 {
                Location::RegPair { low: 1, high: 2 }
            } else {
                Location::Reg(1)
            },
            params[0].extension,
        ));
        if n >= 2 {
            assert(spec_reg_parts(params[1].value_type) is Some);
            assert(kinds[1] == value_kind(params[1].value_type));
            let s2 = place_params(params, 2, true, false, false);
            if kinds[0] != ValueKind::I64 && kinds[1] != ValueKind::I64 {
                assert(s2.error is None);
                assert(s2.args[1].0 =~= location_slots(Location::Reg(2), params[1].extension));
                assert(s2.args[0] == s1.args[0]);
                if n >= 3 {
                    assert(spec_reg_parts(params[2].value_type) is Some);
                    let s3 = place_params(params, 3, true, false, false);
                    assert(s3.error == Some(AbiError::ReturnsExceedRegisters));
                    lemma_error_sticky(params, 3, n, true, false, false);
                }
            } else {
                assert(s2.error == Some(AbiError::ReturnsExceedRegisters));
                lemma_error_sticky(params, 2, n, true, false, false);
            }
        }
    }
}

// ---------------------------------------------------------------------------
// Frame layout and frame sequences
// ---------------------------------------------------------------------------

/// `[n]` when register `n` occurs in `written`, `[]` otherwise.
pub open spec fn keep_if_written(written: Seq<Reg>, n: u8) -> Seq<Reg> {
    if written.contains(Reg::spec_new(n)) {
        seq![Reg::spec_new(n)]
    } else {
        Seq::empty()
    }
}

/// The callee-saved registers (r9, r10, r11, r15) that occur in `written`, in
/// ascending order, each once.
pub open spec fn callee_saves_of(written: Seq<Reg>) -> Seq<Reg> {
    keep_if_written(written, 9) + keep_if_written(written, 10) + keep_if_written(written, 11)
        + keep_if_written(written, 15)
}

/// The size of the save area for `n` callee-saved registers: none, or four
/// bytes each rounded up to eight.
pub open spec fn clobber_area(n: int) -> int {
    if n == 0 {
        0
    } else {
        align_up(4 * n, 8)
    }
}

fn written_contains(written: &[Reg], n: u8) -> (b: bool)
    requires
        n < 16,
    ensures
        b == written@.contains(Reg::spec_new(n)),
{
    let target = reg_of(n);
    let mut i: usize = 0;
    while i < written.len()
        invariant
            i <= written@.len(),
            target == Reg::spec_new(n),
            forall|j: int| 0 <= j < i ==> written@[j] != target,
        decreases written@.len() - i,
    {
        if written[i] == target {
            assert(written@[i as int] == target);
            return true;
        }
        i = i + 1;
    }
    false
}

/// Append register `n` to `saves` when it occurs in `written`.
fn push_if_written(saves: &mut Vec<Reg>, written: &[Reg], n: u8)
    requires
        n < 16,
    ensures
        final(saves)@ == old(saves)@ + keep_if_written(written@, n),
{
    if written_contains(written, n) {
        saves.push(reg_of(n));
    }
    assert(saves@ =~= old(saves)@ + keep_if_written(written@, n));
}

/// The registers r1..r8, r12 and r14 by number: the registers a call clobbers.
pub open spec fn call_clobber_numbers() -> Set<usize> {
    set![1usize, 2, 3, 4, 5, 6, 7, 8, 12, 14]
}

/// The bytes the callee-save sequence allocates below the setup area: the
/// clobber, fixed-storage and outgoing-argument areas.
pub open spec fn clobber_stack_size(f: FrameLayout) -> int {
    f.clobber_size + f.fixed_frame_storage_size + f.outgoing_args_size
}

/// Callee saves sit above the fixed storage and the outgoing arguments.
pub open spec fn save_base(f: FrameLayout) -> int {
    f.fixed_frame_storage_size + f.outgoing_args_size
}

pub open spec fn lr() -> Reg {
    Reg::spec_new(14)
}

pub open spec fn sp() -> Reg {
    Reg::spec_new(13)
}

/// A function that calls reserves 8 bytes and saves `lr` at its bottom.
pub open spec fn frame_setup_insts(f: FrameLayout) -> Seq<Inst> {
    if f.setup_area_size != 0 {
        seq![
            Inst::SpAdjust { amount: -8i32 },
            Inst::StoreBaseOffset { src: lr(), base: sp(), offset: 0, ty: ValueType::I32 },
        ]
    } else {
        Seq::empty()
    }
}

/// The inverse of the frame setup: reload `lr`, then release the 8 bytes.
pub open spec fn frame_restore_insts(f: FrameLayout) -> Seq<Inst> {
    if f.setup_area_size != 0 {
        seq![
            Inst::LoadBaseOffset { dst: lr(), base: sp(), offset: 0, ty: ValueType::I32 },
            Inst::SpAdjust { amount: 8 },
        ]
    } else {
        Seq::empty()
    }
}

/// Allocate the clobber, fixed and outgoing areas in one SP adjustment, then
/// store each callee-saved register in its slot above the fixed and outgoing
/// areas.
pub open spec fn clobber_save_insts(f: FrameLayout) -> Seq<Inst> {
    let n = f.clobbered_callee_saves@.len();
    if clobber_stack_size(f) == 0 {
        Seq::empty()
    } else {
        seq![Inst::SpAdjust { amount: (-clobber_stack_size(f)) as i32 }] + Seq::new(
            n,
            |i: int|
                Inst::StoreBaseOffset {
                    src: f.clobbered_callee_saves@[i],
                    base: sp(),
                    offset: (save_base(f) + 4 * i) as i32,
                    ty: ValueType::I32,
                },
        )
    }
}

/// Reload each callee-saved register from its slot, then release the areas.
pub open spec fn clobber_restore_insts(f: FrameLayout) -> Seq<Inst> {
    let n = f.clobbered_callee_saves@.len();
    if clobber_stack_size(f) == 0 {
        Seq::empty()
    } else {
        Seq::new(
            n,
            |i: int|
                Inst::LoadBaseOffset {
                    dst: f.clobbered_callee_saves@[i],
                    base: sp(),
                    offset: (save_base(f) + 4 * i) as i32,
                    ty: ValueType::I32,
                },
        ) + seq![Inst::SpAdjust { amount: clobber_stack_size(f) as i32 }]
    }
}

/// What the save and restore sequences need to fit 32-bit signed offsets.
pub open spec fn clobber_frame_ok(f: FrameLayout) -> bool {
    &&& clobber_stack_size(f) <= i32::MAX
    &&& clobber_stack_size(f) == 0 || save_base(f) + 4 * f.clobbered_callee_saves@.len() <= i32::MAX
}

/// The callee saves of a frame are the callee-saved registers (r9..r11, r15)
/// that were written, each once, in strictly ascending order.
pub proof fn lemma_callee_saves_sorted_distinct(written: Seq<Reg>)
    ensures
        ({
            let saves = callee_saves_of(written);
            &&& forall|i: int|
                0 <= i < saves.len() ==> crate::regs::spec_callee_saved((#[trigger] saves[i])@)
                    && written.contains(saves[i])
            &&& forall|r: Reg|
                written.contains(r) && crate::regs::spec_callee_saved(r@) ==> #[trigger] saves.contains(r)
            &&& forall|i: int, j: int| 0 <= i < j < saves.len() ==> (#[trigger] saves[i])@ < (#[trigger] saves[j])@
        }),
{
    let saves = callee_saves_of(written);
    assert forall|r: Reg|
        written.contains(r) && crate::regs::spec_callee_saved(r@) implies #[trigger] saves.contains(r) by {
        let n = r@;
        Reg::lemma_view_injective(r, Reg::spec_new(n));
        let k: int = if n == 9 {
            0
        } else if n == 10 {
            keep_if_written(written, 9).len() as int
        } else if n == 11 {
            (keep_if_written(written, 9).len() + keep_if_written(written, 10).len()) as int
        } else {
            (keep_if_written(written, 9).len() + keep_if_written(written, 10).len()
                + keep_if_written(written, 11).len()) as int
        };
        assert(saves[k] == r);
    }
}

/// The clobber restore sequence undoes the save sequence: the frame allocated
/// by the first adjustment is released by the last one, and each register is
/// reloaded from the very slot (same base, offset and type) it was stored to.
pub proof fn lemma_clobber_restore_undoes_save(f: FrameLayout)
    ensures
        ({
            let save = clobber_save_insts(f);
            let restore = clobber_restore_insts(f);
            let n = f.clobbered_callee_saves@.len() as int;
            &&& clobber_stack_size(f) == 0 ==> save.len() == 0 && restore.len() == 0
            &&& clobber_stack_size(f) != 0 ==> {
                &&& save.len() == n + 1
                &&& restore.len() == n + 1
                &&& save[0] matches Inst::SpAdjust { amount: a } && restore[n] matches Inst::SpAdjust {
                    amount: b,
                } && (clobber_frame_ok(f) ==> a + b == 0)
                &&& forall|i: int|
                    0 <= i < n ==> (#[trigger] save[i + 1] matches Inst::StoreBaseOffset {
                        src,
                        base,
                        offset,
                        ty,
                    } && restore[i] matches Inst::LoadBaseOffset { dst, base: b2, offset: o2, ty: t2 }
                        && dst == src && b2 == base && o2 == offset && t2 == ty)
            }
        }),
{
}

/// The frame restore undoes the frame setup: `lr` is reloaded from the slot it
/// was saved to, and the 8-byte adjustment is released.
pub proof fn lemma_frame_restore_undoes_setup(f: FrameLayout)
    ensures
        ({
            let setup = frame_setup_insts(f);
            let restore = frame_restore_insts(f);
            &&& setup.len() == restore.len()
            &&& setup.len() == 2 ==> {
                &&& setup[0] matches Inst::SpAdjust { amount: a } && restore[1] matches Inst::SpAdjust {
                    amount: b,
                } && a + b == 0
                &&& setup[1] matches Inst::StoreBaseOffset { src, base, offset, ty }
                    && restore[0] matches Inst::LoadBaseOffset { dst, base: b2, offset: o2, ty: t2 }
                    && dst == src && src == lr() && b2 == base && o2 == offset && t2 == ty
            }
        }),
{
}

/// In a frame laid out by `compute_frame_layout`, every callee-save slot lies
/// inside the clobber area, above the fixed storage and outgoing arguments and
/// below the frame's top, and slots of different registers do not overlap.
pub proof fn lemma_save_slots_within_clobber_area(f: FrameLayout)
    requires
        f.clobber_size == clobber_area(f.clobbered_callee_saves@.len() as int),
    ensures
        forall|i: int|
            0 <= i < f.clobbered_callee_saves@.len() ==> save_base(f) <= #[trigger] (save_base(f) + 4 * i)
                && save_base(f) + 4 * i + 4 <= clobber_stack_size(f),
{
    let n = f.clobbered_callee_saves@.len() as int;
    if n > 0 {
        assert(align_up(4 * n, 8) >= 4 * n) by {
            vstd::arithmetic::div_mod::lemma_fundamental_div_mod(4 * n + 7, 8);
        }
    }
}

/// A call clobbers exactly the caller-saved registers together with the scratch
/// r12 and the link register r14, and none of the callee-saved registers.
pub proof fn lemma_call_clobbers_are_caller_saved()
    ensures
        forall|n: u8|
            n < 16 ==> (#[trigger] call_clobber_numbers().contains(n as usize) <==> crate::regs::spec_caller_saved(n)
                || n == 12 || n == 14),
        forall|n: u8| #[trigger] crate::regs::spec_callee_saved(n) ==> !call_clobber_numbers().contains(n as usize),
{
    assert forall|n: u8| n < 16 implies (#[trigger] call_clobber_numbers().contains(n as usize)
        <==> crate::regs::spec_caller_saved(n) || n == 12 || n == 14) by {
        if crate::regs::spec_caller_saved(n) || n == 12 || n == 14 {
            assert(call_clobber_numbers().contains(n as usize));
        }
    }
}

proof fn lemma_align_up_8(v: int)
    requires
        v >= 0,
    ensures
        align_up(v, 8) % 8 == 0,
        v <= align_up(v, 8) < v + 8,
{
    vstd::arithmetic::div_mod::lemma_fundamental_div_mod(v + 7, 8);
    vstd::arithmetic::div_mod::lemma_mod_multiples_basic((v + 7) / 8, 8);
}

/// The stack adjustments of a frame laid out by `compute_frame_layout` keep
/// the 8-byte call-boundary alignment: the clobber, fixed and outgoing areas
/// together, and the setup area, are each a multiple of 8 bytes.
pub proof fn lemma_frame_keeps_stack_alignment(f: FrameLayout, fixed_frame_storage_size: u32, outgoing_args_size: u32)
    requires
        f.clobber_size == clobber_area(f.clobbered_callee_saves@.len() as int),
        f.fixed_frame_storage_size == align_up(fixed_frame_storage_size as int, 8),
        f.outgoing_args_size == align_up(outgoing_args_size as int, 8),
        f.setup_area_size == 0 || f.setup_area_size == 8,
    ensures
        clobber_stack_size(f) % 8 == 0,
        (f.setup_area_size + clobber_stack_size(f)) % 8 == 0,
{
    lemma_align_up_8(fixed_frame_storage_size as int);
    lemma_align_up_8(outgoing_args_size as int);
    lemma_align_up_8(4 * f.clobbered_callee_saves@.len() as int);
}

/// The bytes by which a sequence of instructions lowers SP through its
/// `SpAdjust` instructions.
pub open spec fn sp_lowering(insts: Seq<Inst>) -> int
    decreases insts.len(),
{
    if insts.len() == 0 {
        0
    } else {
        sp_lowering(insts.drop_last()) - match insts.last() {
            Inst::SpAdjust { amount } => amount as int,
            _ => 0,
        }
    }
}

proof fn lemma_sp_lowering_append(a: Seq<Inst>, b: Seq<Inst>)
    ensures
        sp_lowering(a + b) == sp_lowering(a) + sp_lowering(b),
    decreases b.len(),
{
    if b.len() == 0 {
        assert(a + b =~= a);
    } else {
        lemma_sp_lowering_append(a, b.drop_last());
        assert((a + b).drop_last() =~= a + b.drop_last());
        assert((a + b).last() == b.last());
    }
}

proof fn lemma_saves_keep_sp(f: FrameLayout, n: nat)
    requires
        n <= f.clobbered_callee_saves@.len(),
    ensures
        sp_lowering(
            Seq::new(
                n,
                |i: int|
                    Inst::StoreBaseOffset {
                        src: f.clobbered_callee_saves@[i],
                        base: sp(),
                        offset: (save_base(f) + 4 * i) as i32,
                        ty: ValueType::I32,
                    },
            ),
        ) == 0,
    decreases n,
{
    let saves = Seq::new(
        n,
        |i: int|
            Inst::StoreBaseOffset {
                src: f.clobbered_callee_saves@[i],
                base: sp(),
                offset: (save_base(f) + 4 * i) as i32,
                ty: ValueType::I32,
            },
    );
    if n > 0 {
        lemma_saves_keep_sp(f, (n - 1) as nat);
        assert(saves.drop_last() =~= Seq::new(
            (n - 1) as nat,
            |i: int|
                Inst::StoreBaseOffset {
                    src: f.clobbered_callee_saves@[i],
                    base: sp(),
                    offset: (save_base(f) + 4 * i) as i32,
                    ty: ValueType::I32,
                },
        ));
    }
}

/// The frame setup and the clobber save together lower SP by the setup,
/// clobber, fixed-storage and outgoing-argument areas; so the offset of an
/// incoming argument, which the stack pseudos add to the SP left by the
/// prologue, is that lowering plus the tail-argument area, less the distance
/// of the argument from the end of its area.
pub proof fn lemma_incoming_args_above_prologue(f: FrameLayout, offset: i64, size: u32)
    requires
        f.setup_area_size == 0 || f.setup_area_size == 8,
        clobber_frame_ok(f),
    ensures
        sp_lowering(frame_setup_insts(f) + clobber_save_insts(f)) == f.setup_area_size
            + f.clobber_size + f.fixed_frame_storage_size + f.outgoing_args_size,
        stack_offset(StackAMode::IncomingArg(offset, size), f) == f.tail_args_size + sp_lowering(
            frame_setup_insts(f) + clobber_save_insts(f),
        ) - (size - offset),
{
    lemma_sp_lowering_append(frame_setup_insts(f), clobber_save_insts(f));
    if f.setup_area_size != 0 {
        let setup = frame_setup_insts(f);
        let one = seq![Inst::SpAdjust { amount: -8i32 }];
        assert(setup.drop_last() =~= one);
        assert(one.drop_last() =~= Seq::<Inst>::empty());
        assert(sp_lowering(Seq::<Inst>::empty()) == 0);
        assert(one.last() == Inst::SpAdjust { amount: -8i32 });
        assert(sp_lowering(one) == 8);
        assert(sp_lowering(setup) == 8);
    } else {
        assert(frame_setup_insts(f) =~= Seq::<Inst>::empty());
    }
    let n = f.clobbered_callee_saves@.len();
    if clobber_stack_size(f) != 0 {
        let adjust = seq![Inst::SpAdjust { amount: (-clobber_stack_size(f)) as i32 }];
        let saves = Seq::new(
            n,
            |i: int|
                Inst::StoreBaseOffset {
                    src: f.clobbered_callee_saves@[i],
                    base: sp(),
                    offset: (save_base(f) + 4 * i) as i32,
                    ty: ValueType::I32,
                },
        );
        lemma_saves_keep_sp(f, n);
        lemma_sp_lowering_append(adjust, saves);
        assert(adjust.drop_last() =~= Seq::<Inst>::empty());
        assert(sp_lowering(Seq::<Inst>::empty()) == 0);
        assert(sp_lowering(adjust) == clobber_stack_size(f));
        assert(clobber_save_insts(f) == adjust + saves);
    } else {
        assert(clobber_save_insts(f) =~= Seq::<Inst>::empty());
    }
}

/// A register class of the register allocator.
#[derive(Clone, Copy, Debug, PartialEq, Eq, Structural)]
pub enum RegClass {
    Int,
    Float,
    Vector,
}

/// The stack-argument and stack-return size limit: 128 MiB.
pub const STACK_ARG_RET_SIZE_LIMIT: u32 = 134217728;

/// The ABI rules of the SIA32 code generator.
pub struct Sia32MachineDeps;

impl Sia32MachineDeps {
    /// Place the parameters or return values of a signature, appending one
    /// `ABIArg` per value to `args`, and the return-area pointer (in r1) after
    /// them when one is requested. Returns the 8-byte-aligned size of the stack
    /// area and the position of the return-area pointer among the appended
    /// values. The stack cursor is a 32-bit offset, which must stay in range
    /// (`arg_stack_fits`) wherever placement takes place.
    pub fn compute_arg_locs(
        call_conv: CallConv,
        enable_multi_ret_implicit_sret: bool,
        params: &[AbiParam],
        args_or_rets: ArgsOrRets,
        add_ret_area_ptr: bool,
        args: &mut Vec<ABIArg>,
    ) -> (res: Result<(u32, Option<usize>), AbiError>)
        requires
            call_conv == CallConv::SystemV && !(add_ret_area_ptr && args_or_rets == ArgsOrRets::Rets)
                ==> arg_stack_fits(
                params@,
                args_or_rets == ArgsOrRets::Rets,
                add_ret_area_ptr,
                enable_multi_ret_implicit_sret,
            ),
        ensures
            ({
                let rets = args_or_rets == ArgsOrRets::Rets;
                let st = place_params(
                    params@,
                    params@.len(),
                    rets,
                    add_ret_area_ptr,
                    enable_multi_ret_implicit_sret,
                );
                if call_conv != CallConv::SystemV {
                    &&& res == Err::<(u32, Option<usize>), AbiError>(
                        AbiError::UnsupportedCallConv(call_conv),
                    )
                    &&& final(args)@ == old(args)@
                } else if add_ret_area_ptr && rets {
                    &&& res == Err::<(u32, Option<usize>), AbiError>(
                        AbiError::ReturnAreaPointerOnReturns,
                    )
                    &&& final(args)@ == old(args)@
                } else {
                    match st.error {
                        Some(e) => {
                            &&& res == Err::<(u32, Option<usize>), AbiError>(e)
                            &&& appended(old(args)@, final(args)@, st.args)
                        },
                        None => {
                            &&& res == Ok::<(u32, Option<usize>), AbiError>(
                                (
                                    align_up(st.cursor.next_stack, 8) as u32,
                                    if add_ret_area_ptr {
                                        Some(params@.len() as usize)
                                    } else {
                                        None
                                    },
                                ),
                            )
                            &&& appended(
                                old(args)@,
                                final(args)@,
                                if add_ret_area_ptr {
                                    st.args.push(ret_area_arg())
                                } else {
                                    st.args
                                },
                            )
                        },
                    }
                }
            }),
    {
        if let Err(e) = ensure_call_conv(call_conv) {
            return Err(e);
        }
        let rets = match args_or_rets {
            ArgsOrRets::Args => false,
            ArgsOrRets::Rets => true,
        };
        if add_ret_area_ptr && rets {
            return Err(AbiError::ReturnAreaPointerOnReturns);
        }
        let mut next_reg: u8 = if add_ret_area_ptr {
            2
        } else {
            1
        };
        let mut stack_only = false;
        let mut next_stack: u32 = 0;
        let ghost ps = params@;
        let mut i: usize = 0;
        while i < params.len()
            invariant
                ps == params@,
                i <= ps.len(),
                arg_stack_fits(ps, rets, add_ret_area_ptr, enable_multi_ret_implicit_sret),
                rets == (args_or_rets == ArgsOrRets::Rets),
                call_conv == CallConv::SystemV,
                !(add_ret_area_ptr && rets),
                ({
                    let st = place_params(ps, i as nat, rets, add_ret_area_ptr, enable_multi_ret_implicit_sret);
                    &&& st.error is None
                    &&& next_reg == st.cursor.next_reg
                    &&& stack_only == st.cursor.stack_only
                    &&& next_stack == st.cursor.next_stack
                    &&& appended(old(args)@, args@, st.args)
                }),
            decreases ps.len() - i,
        {
            proof {
                lemma_place_bounds(ps, i as nat, rets, add_ret_area_ptr, enable_multi_ret_implicit_sret);
                lemma_place_monotone(ps, (i + 1) as nat, ps.len(), rets, add_ret_area_ptr, enable_multi_ret_implicit_sret);
            }
            let ghost st = place_params(ps, i as nat, rets, add_ret_area_ptr, enable_multi_ret_implicit_sret);
            match place_one(params[i], next_reg, stack_only, next_stack, rets, enable_multi_ret_implicit_sret) {
                Err(e) => {
                    proof {
                        lemma_error_sticky(ps, (i + 1) as nat, ps.len(), rets, add_ret_area_ptr, enable_multi_ret_implicit_sret);
                    }
                    return Err(e);
                },
                Ok((arg, nr, so, ns)) => {
                    proof {
                        lemma_appended_push(old(args)@, args@, st.args, arg);
                    }
                    args.push(arg);
                    next_reg = nr;
                    stack_only = so;
                    next_stack = ns;
                },
            }
            i = i + 1;
        }
        proof {
            lemma_place_bounds(ps, ps.len(), rets, add_ret_area_ptr, enable_multi_ret_implicit_sret);
            lemma_align_up(next_stack as int, 8);
            assert(ps.subrange(0, ps.len() as int) =~= ps);
        }
        let stack_size = align_to(next_stack, 8);
        if add_ret_area_ptr {
            let mut slots: Vec<ABIArgSlot> = Vec::new();
            slots.push(
                ABIArgSlot::Reg {
                    reg: reg_of(1),
                    ty: ValueType::I32,
                    extension: ArgumentExtension::NoExt,
                },
            );
            let arg = ABIArg::Slots { slots, purpose: ArgumentPurpose::Normal };
            proof {
                assert(slots@ =~= reg_slots(1, 1, ArgumentExtension::NoExt));
                let st = place_params(ps, ps.len(), rets, add_ret_area_ptr, enable_multi_ret_implicit_sret);
                lemma_appended_push(old(args)@, args@, st.args, arg);
            }
            args.push(arg);
            Ok((stack_size, Some(params.len())))
        } else {
            Ok((stack_size, None))
        }
    }

    /// SIA32 words are 32 bits.
    pub fn word_bits() -> (n: u32)
        ensures
            n == 32,
    {
        32
    }

    /// SIA32 words are 4 bytes.
    pub fn word_bytes() -> (n: u32)
        ensures
            n == 4,
    {
        Self::word_bits() / 8
    }

    /// The call-boundary stack alignment: 8 bytes.
    pub fn stack_align(call_conv: CallConv) -> (n: u32)
        requires
            call_conv == CallConv::SystemV,
        ensures
            n == 8,
    {
        8
    }

    /// Lay out the frame of a function: the callee-saved registers among
    /// `regs_written`, in ascending order and once each; an 8-byte `lr` save
    /// area when the function makes regular calls; and fixed storage and
    /// outgoing arguments rounded up to 8 bytes.
    pub fn compute_frame_layout(
        call_conv: CallConv,
        regs_written: &[Reg],
        function_calls: FunctionCalls,
        incoming_args_size: u32,
        tail_args_size: u32,
        stackslots_size: u32,
        fixed_frame_storage_size: u32,
        outgoing_args_size: u32,
    ) -> (f: FrameLayout)
        requires
            call_conv == CallConv::SystemV,
            fixed_frame_storage_size + 7 <= u32::MAX,
            outgoing_args_size + 7 <= u32::MAX,
        ensures
            f.word_bytes == 4,
            f.incoming_args_size == incoming_args_size,
            f.tail_args_size == tail_args_size,
            f.setup_area_size == if function_calls == FunctionCalls::Regular {
                8u32
            } else {
                0u32
            },
            f.clobbered_callee_saves@ == callee_saves_of(regs_written@),
            f.clobber_size == clobber_area(f.clobbered_callee_saves@.len() as int),
            f.fixed_frame_storage_size == align_up(fixed_frame_storage_size as int, 8),
            f.stackslots_size == stackslots_size,
            f.outgoing_args_size == align_up(outgoing_args_size as int, 8),
            f.function_calls == function_calls,
    {
        let mut saves: Vec<Reg> = Vec::new();
        push_if_written(&mut saves, regs_written, 9);
        push_if_written(&mut saves, regs_written, 10);
        push_if_written(&mut saves, regs_written, 11);
        push_if_written(&mut saves, regs_written, 15);
        assert(saves@ =~= callee_saves_of(regs_written@));
        let setup_area_size: u32 = if function_calls == FunctionCalls::Regular {
            8
        } else {
            0
        };
        let clobber_size: u32 = if saves.len() == 0 {
            0
        } else {
            align_to(saves.len() as u32 * 4, 8)
        };
        FrameLayout {
            word_bytes: 4,
            incoming_args_size,
            tail_args_size,
            setup_area_size,
            clobber_size,
            fixed_frame_storage_size: align_to(fixed_frame_storage_size, 8),
            stackslots_size,
            outgoing_args_size: align_to(outgoing_args_size, 8),
            clobbered_callee_saves: saves,
            function_calls,
        }
    }

    /// A function that makes calls saves `lr` in its 8-byte setup area.
    pub fn gen_prologue_frame_setup(call_conv: CallConv, frame_layout: &FrameLayout) -> (v: SmallInstVec)
        requires
            call_conv == CallConv::SystemV,
        ensures
            inst_vec_items(v) == frame_setup_insts(*frame_layout),
    {
        let mut out = SmallInstVec::new();
        if frame_layout.setup_area_size != 0 {
            out.push(Inst::SpAdjust { amount: -8 });
            out.push(Inst::StoreBaseOffset { src: reg_of(14), base: reg_of(13), offset: 0, ty: ValueType::I32 });
        }
        assert(inst_vec_items(out) =~= frame_setup_insts(*frame_layout));
        out
    }

    /// The inverse of the frame setup.
    pub fn gen_epilogue_frame_restore(call_conv: CallConv, frame_layout: &FrameLayout) -> (v: SmallInstVec)
        requires
            call_conv == CallConv::SystemV,
        ensures
            inst_vec_items(v) == frame_restore_insts(*frame_layout),
    {
        let mut out = SmallInstVec::new();
        if frame_layout.setup_area_size != 0 {
            out.push(Inst::LoadBaseOffset { dst: reg_of(14), base: reg_of(13), offset: 0, ty: ValueType::I32 });
            out.push(Inst::SpAdjust { amount: 8 });
        }
        assert(inst_vec_items(out) =~= frame_restore_insts(*frame_layout));
        out
    }

    /// Return through `lr`.
    pub fn gen_return(call_conv: CallConv, frame_layout: &FrameLayout) -> (v: SmallInstVec)
        requires
            call_conv == CallConv::SystemV,
        ensures
            inst_vec_items(v) == seq![Inst::Ret],
    {
        let mut out = SmallInstVec::new();
        out.push(Inst::Ret);
        assert(inst_vec_items(out) =~= seq![Inst::Ret]);
        out
    }

    /// Allocate the frame below the setup area and save the clobbered
    /// callee-saved registers.
    pub fn gen_clobber_save(call_conv: CallConv, frame_layout: &FrameLayout) -> (v: SmallInstVec16)
        requires
            call_conv == CallConv::SystemV,
            clobber_frame_ok(*frame_layout),
        ensures
            save_vec_items(v) == clobber_save_insts(*frame_layout),
    {
        let mut out = SmallInstVec16::new();
        let stack_size = frame_layout.clobber_size + frame_layout.fixed_frame_storage_size
            + frame_layout.outgoing_args_size;
        if stack_size == 0 {
            assert(save_vec_items(out) =~= clobber_save_insts(*frame_layout));
            return out;
        }
        out.push(Inst::SpAdjust { amount: -(stack_size as i32) });
        let base = frame_layout.fixed_frame_storage_size + frame_layout.outgoing_args_size;
        let saves = &frame_layout.clobbered_callee_saves;
        let ghost f = *frame_layout;
        let mut i: usize = 0;
        while i < saves.len()
            invariant
                f == *frame_layout,
                saves@ == f.clobbered_callee_saves@,
                clobber_frame_ok(f),
                clobber_stack_size(f) != 0,
                stack_size == clobber_stack_size(f),
                base == save_base(f),
                i <= saves@.len(),
                save_vec_items(out) == clobber_save_insts(f).subrange(0, i + 1),
            decreases saves@.len() - i,
        {
            out.push(
                Inst::StoreBaseOffset {
                    src: saves[i],
                    base: reg_of(13),
                    offset: (base as i32) + (i as i32) * 4,
                    ty: ValueType::I32,
                },
            );
            assert(save_vec_items(out) =~= clobber_save_insts(f).subrange(0, i + 2));
            i = i + 1;
        }
        assert(clobber_save_insts(f).subrange(0, saves@.len() + 1int) =~= clobber_save_insts(f));
        out
    }

    /// Reload the clobbered callee-saved registers and release the frame.
    pub fn gen_clobber_restore(call_conv: CallConv, frame_layout: &FrameLayout) -> (v: SmallInstVec16)
        requires
            call_conv == CallConv::SystemV,
            clobber_frame_ok(*frame_layout),
        ensures
            save_vec_items(v) == clobber_restore_insts(*frame_layout),
    {
        let mut out = SmallInstVec16::new();
        let stack_size = frame_layout.clobber_size + frame_layout.fixed_frame_storage_size
            + frame_layout.outgoing_args_size;
        if stack_size == 0 {
            assert(save_vec_items(out) =~= clobber_restore_insts(*frame_layout));
            return out;
        }
        let base = frame_layout.fixed_frame_storage_size + frame_layout.outgoing_args_size;
        let saves = &frame_layout.clobbered_callee_saves;
        let ghost f = *frame_layout;
        let mut i: usize = 0;
        while i < saves.len()
            invariant
                f == *frame_layout,
                saves@ == f.clobbered_callee_saves@,
                clobber_frame_ok(f),
                clobber_stack_size(f) != 0,
                stack_size == clobber_stack_size(f),
                base == save_base(f),
                i <= saves@.len(),
                save_vec_items(out) == clobber_restore_insts(f).subrange(0, i as int),
            decreases saves@.len() - i,
        {
            out.push(
                Inst::LoadBaseOffset {
                    dst: saves[i],
                    base: reg_of(13),
                    offset: (base as i32) + (i as i32) * 4,
                    ty: ValueType::I32,
                },
            );
            assert(save_vec_items(out) =~= clobber_restore_insts(f).subrange(0, i + 1));
            i = i + 1;
        }
        out.push(Inst::SpAdjust { amount: stack_size as i32 });
        assert(save_vec_items(out) =~= clobber_restore_insts(f));
        out
    }


    pub fn gen_load_stack(mem: StackAMode, into_reg: Reg, ty: ValueType) -> (i: Inst)
        ensures
            i == (Inst::LoadStack { dst: into_reg, mem, ty }),
    {
        Inst::LoadStack { dst: into_reg, mem, ty }
    }

    pub fn gen_store_stack(mem: StackAMode, from_reg: Reg, ty: ValueType) -> (i: Inst)
        ensures
            i == (Inst::StoreStack { src: from_reg, mem, ty }),
    {
        Inst::StoreStack { src: from_reg, mem, ty }
    }

    /// The canonical 32-bit register move.
    pub fn gen_move(to_reg: Reg, from_reg: Reg, ty: ValueType) -> (i: Inst)
        requires
            ty == ValueType::I32,
        ensures
            i == (Inst::Mov { dst: to_reg, src: from_reg }),
    {
        Inst::gen_move(to_reg, from_reg, ty)
    }

    pub fn gen_extend(to_reg: Reg, from_reg: Reg, signed: bool, from_bits: u8, to_bits: u8) -> (i: Inst)
        ensures
            i == (Inst::Extend { dst: to_reg, src: from_reg, signed, from_bits, to_bits }),
    {
        Inst::Extend { dst: to_reg, src: from_reg, signed, from_bits, to_bits }
    }

    pub fn gen_args(args: Vec<crate::inst::ArgPair>) -> (i: Inst)
        ensures
            i == (Inst::Args { args }),
    {
        Inst::Args { args }
    }

    pub fn gen_rets(rets: Vec<crate::inst::ArgPair>) -> (i: Inst)
        ensures
            i == (Inst::Rets { rets }),
    {
        Inst::Rets { rets }
    }

    /// `into_reg <- from_reg + imm`, for an immediate that fits `i32`.
    pub fn gen_add_imm(call_conv: CallConv, into_reg: Reg, from_reg: Reg, imm: u32) -> (v: SmallInstVec)
        requires
            call_conv == CallConv::SystemV,
            imm <= i32::MAX,
        ensures
            inst_vec_items(v) == seq![Inst::AddImm { dst: into_reg, src: from_reg, imm: imm as i32 }],
    {
        let mut out = SmallInstVec::new();
        out.push(Inst::AddImm { dst: into_reg, src: from_reg, imm: imm as i32 });
        assert(inst_vec_items(out) =~= seq![Inst::AddImm { dst: into_reg, src: from_reg, imm: imm as i32 }]);
        out
    }

    pub fn gen_stack_lower_bound_trap(limit_reg: Reg) -> (v: SmallInstVec)
        ensures
            inst_vec_items(v) == seq![Inst::StackLowerBoundTrap { limit: limit_reg }],
    {
        let mut out = SmallInstVec::new();
        out.push(Inst::StackLowerBoundTrap { limit: limit_reg });
        assert(inst_vec_items(out) =~= seq![Inst::StackLowerBoundTrap { limit: limit_reg }]);
        out
    }

    pub fn gen_get_stack_addr(mem: StackAMode, into_reg: Reg) -> (i: Inst)
        ensures
            i == (Inst::StackAddr { dst: into_reg, mem }),
    {
        Inst::StackAddr { dst: into_reg, mem }
    }

    pub fn gen_load_base_offset(into_reg: Reg, base: Reg, offset: i32, ty: ValueType) -> (i: Inst)
        ensures
            i == (Inst::LoadBaseOffset { dst: into_reg, base, offset, ty }),
    {
        Inst::LoadBaseOffset { dst: into_reg, base, offset, ty }
    }

    pub fn gen_store_base_offset(base: Reg, offset: i32, from_reg: Reg, ty: ValueType) -> (i: Inst)
        ensures
            i == (Inst::StoreBaseOffset { src: from_reg, base, offset, ty }),
    {
        Inst::StoreBaseOffset { src: from_reg, base, offset, ty }
    }

    /// An SP adjustment, or nothing for a zero amount.
    pub fn gen_sp_reg_adjust(amount: i32) -> (v: SmallInstVec)
        ensures
            inst_vec_items(v) == if amount == 0 {
                Seq::<Inst>::empty()
            } else {
                seq![Inst::SpAdjust { amount }]
            },
    {
        let mut out = SmallInstVec::new();
        if amount != 0 {
            out.push(Inst::SpAdjust { amount });
        }
        assert(inst_vec_items(out) =~= if amount == 0 {
            Seq::<Inst>::empty()
        } else {
            seq![Inst::SpAdjust { amount }]
        });
        out
    }

    /// Each integer value takes one spill slot; there are no other classes.
    pub fn get_number_of_spillslots_for_value(rc: RegClass, target_vector_bytes: u32) -> (n: u32)
        requires
            rc == RegClass::Int,
        ensures
            n == 1,
    {
        1
    }

    /// Argument extension follows the signature.
    pub fn get_ext_mode(
        call_conv: CallConv,
        specified: ArgumentExtension,
        location: ABIArgLocation,
    ) -> (e: ArgumentExtension)
        requires
            call_conv == CallConv::SystemV,
        ensures
            e == specified,
    {
        specified
    }

    /// The temporary for return values: the reserved scratch register r12.
    pub fn retval_temp_reg(call_conv_of_callee: CallConv) -> (r: Reg)
        requires
            call_conv_of_callee == CallConv::SystemV,
        ensures
            r@ == 12,
    {
        Reg::scratch()
    }

    /// Exception payloads arrive in r1 and r2.
    pub fn exception_payload_regs(callee_conv: CallConv) -> (regs: [Reg; 2])
        requires
            callee_conv == CallConv::SystemV,
        ensures
            regs@[0]@ == 1,
            regs@[1]@ == 2,
    {
        [reg_of(1), reg_of(2)]
    }


    /// The register-allocation environment of `create_reg_environment`.
    pub fn get_machine_env(call_conv: CallConv) -> (e: MachineEnv)
        requires
            call_conv == CallConv::SystemV,
        ensures
            machine_env_preferred(e) == seq![
                Set::new(|i: usize| 1 <= i <= 8),
                Set::<usize>::empty(),
                Set::<usize>::empty(),
            ],
            machine_env_non_preferred(e) == seq![
                set![9usize, 10, 11, 15],
                Set::<usize>::empty(),
                Set::<usize>::empty(),
            ],
            machine_env_scratch(e) == seq![None::<usize>, None, None],
            machine_env_fixed_stack_slots(e) == Seq::<usize>::empty(),
    {
        create_reg_environment()
    }

    /// A call clobbers the caller-saved registers r1..r8, the scratch r12
    /// and the link register r14.
    pub fn get_regs_clobbered_by_call(call_conv_of_callee: CallConv, is_exception: bool) -> (s: PRegSet)
        requires
            call_conv_of_callee == CallConv::SystemV,
        ensures
            preg_set_indices(s) == call_clobber_numbers(),
    {
        let mut s = preg_set_empty();
        let mut n: u8 = 1;
        while n <= 8
            invariant
                1 <= n <= 9,
                preg_set_indices(s) == Set::new(|i: usize| 1 <= i < n),
            decreases 9 - n,
        {
            s = preg_set_with(s, preg(n));
            assert(preg_set_indices(s) =~= Set::new(|i: usize| 1 <= i < n + 1));
            n = n + 1;
        }
        s = preg_set_with(s, preg(12));
        s = preg_set_with(s, preg(14));
        assert(preg_set_indices(s) =~= call_clobber_numbers());
        s
    }

}

} // verus!
