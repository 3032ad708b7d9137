//! Executable model of the frozen SIA32 compiler ABI: where call arguments and
//! return values are placed.

use vstd::prelude::*;

verus! {

#[derive(Clone, Copy, Debug, PartialEq, Eq, Structural)]
pub enum ValueKind {
    I8,
    I16,
    I32,
    Ptr32,
    I64,
}

pub open spec fn spec_stack_size(kind: ValueKind) -> int {
    match kind {
        ValueKind::I64 => 8,
        _ => 4,
    }
}

pub open spec fn spec_register_words(kind: ValueKind) -> int {
    match kind {
        ValueKind::I64 => 2,
        _ => 1,
    }
}

impl ValueKind {
    /// Stack bytes of one value: 4, or 8 for an I64.
    fn stack_size(self) -> (n: u32)
        ensures
            n == spec_stack_size(self),
    {
        match self {
            Self::I8 | Self::I16 | Self::I32 | Self::Ptr32 => 4,
            Self::I64 => 8,
        }
    }

    /// Stack alignment of one value; equal to its size.
    fn stack_align(self) -> (n: u32)
        ensures
            n == spec_stack_size(self),
    {
        self.stack_size()
    }

    /// Argument registers one value occupies: 1, or 2 for an I64.
    fn register_words(self) -> (n: u8)
        ensures
            n == spec_register_words(self),
    {
        match self {
            Self::I8 | Self::I16 | Self::I32 | Self::Ptr32 => 1,
            Self::I64 => 2,
        }
    }
}

#[derive(Clone, Copy, Debug, PartialEq, Eq, Structural)]
pub enum Location {
    Reg(u8),
    RegPair { low: u8, high: u8 },
    Stack { offset: u32, size: u32, align: u32 },
}

#[derive(Clone, Debug, PartialEq, Eq)]
pub struct Placement {
    pub values: Vec<Location>,
    pub stack_size: u32,
}

const ARG_FIRST: u8 = 1;

const ARG_LAST: u8 = 6;

const STACK_ALIGN: u32 = 8;

/// The least multiple of `align` that is at least `value`.
pub open spec fn align_up(value: int, align: int) -> int {
    ((value + align - 1) / align) * align
}

pub(crate) fn align_to(value: u32, align: u32) -> (r: u32)
    requires
        align == 4 || align == 8,
        value + align - 1 <= u32::MAX,
    ensures
        r == align_up(value as int, align as int),
{
    let m = align - 1;
    let s = value + m;
    let r = s & !m;
    assert(r == (s / align) * align) by (bit_vector)
        requires
            m == 3 && align == 4 || m == 7 && align == 8,
            r == s & !m,
    ;
    r
}

/// The argument cursor: the next free argument register, whether arguments
/// have moved to the stack, and the next free stack byte.
pub struct ArgCursor {
    pub next_reg: int,
    pub stack_only: bool,
    pub next_stack: int,
}

/// The first register of an aligned pair at or after `r`: pairs begin on an
/// odd-numbered register.
pub open spec fn pair_start(r: int) -> int {
    if r % 2 == 0 {
        r + 1
    } else {
        r
    }
}

/// Placement of one argument. A scalar takes the next argument register while
/// one is left; an I64 takes the next aligned pair that fits completely; any
/// value that does not fit goes to the stack, aligned to its size, and every
/// later argument follows it onto the stack.
pub open spec fn place_step(c: ArgCursor, kind: ValueKind) -> (Location, ArgCursor) {
    let words = spec_register_words(kind);
    let start = pair_start(c.next_reg);
    if !c.stack_only && words == 1 && c.next_reg <= 6 {
        (Location::Reg(c.next_reg as u8), ArgCursor { next_reg: c.next_reg + 1, ..c })
    } else if !c.stack_only && words == 2 && start + 1 <= 6 {
        (
            Location::RegPair { low: start as u8, high: (start + 1) as u8 },
            ArgCursor { next_reg: start + 2, ..c },
        )
    } else {
        let size = spec_stack_size(kind);
        let offset = align_up(c.next_stack, size);
        (
            Location::Stack { offset: offset as u32, size: size as u32, align: size as u32 },
            ArgCursor {
                next_reg: if !c.stack_only && words == 2 {
                    start
                } else {
                    c.next_reg
                },
                stack_only: true,
                next_stack: offset + size,
            },
        )
    }
}

/// The cursor before any user argument: r1 is taken by a hidden sret pointer.
pub open spec fn initial_cursor(hidden_sret: bool) -> ArgCursor {
    ArgCursor { next_reg: if hidden_sret { 2 } else { 1 }, stack_only: false, next_stack: 0 }
}

/// The locations of the first `n` arguments and the cursor after them.
pub open spec fn place_prefix(kinds: Seq<ValueKind>, n: nat, hidden_sret: bool) -> (Seq<Location>, ArgCursor)
    decreases n,
{
    if n == 0 {
        (Seq::empty(), initial_cursor(hidden_sret))
    } else {
        let (locs, c) = place_prefix(kinds, (n - 1) as nat, hidden_sret);
        let (loc, c2) = place_step(c, kinds[n - 1]);
        (locs.push(loc), c2)
    }
}

/// The argument locations of a call.
pub open spec fn spec_arg_locations(kinds: Seq<ValueKind>, hidden_sret: bool) -> Seq<Location> {
    place_prefix(kinds, kinds.len(), hidden_sret).0
}

/// The first stack byte after the last stack argument, before rounding.
pub open spec fn spec_arg_stack_end(kinds: Seq<ValueKind>, hidden_sret: bool) -> int {
    place_prefix(kinds, kinds.len(), hidden_sret).1.next_stack
}

/// The stack argument area: every stack argument, rounded up to the 8-byte
/// call-boundary alignment.
pub open spec fn spec_arg_stack_size(kinds: Seq<ValueKind>, hidden_sret: bool) -> int {
    align_up(spec_arg_stack_end(kinds, hidden_sret), 8)
}

pub(crate) proof fn lemma_align_up(v: int, a: int)
    requires
        a == 4 || a == 8,
        v >= 0,
        v % 4 == 0,
    ensures
        v <= align_up(v, a) <= v + a - 4,
        align_up(v, a) % a == 0,
        align_up(v, a) % 4 == 0,
{
    let q = (v + a - 1) / a;
    vstd::arithmetic::div_mod::lemma_fundamental_div_mod(v + a - 1, a);
    assert(q * a <= v + a - 1 < q * a + a);
    assert(align_up(v, a) == q * a);
    vstd::arithmetic::div_mod::lemma_mod_multiples_basic(q, a);
    if a == 8 {
        assert((q * 8) % 4 == 0) by (nonlinear_arith);
    }
}

pub(crate) proof fn lemma_prefix_bounds(kinds: Seq<ValueKind>, n: nat, hidden_sret: bool)
    requires
        n <= kinds.len(),
    ensures
        place_prefix(kinds, n, hidden_sret).0.len() == n,
        1 <= place_prefix(kinds, n, hidden_sret).1.next_reg <= 8,
        0 <= place_prefix(kinds, n, hidden_sret).1.next_stack <= 8 * n,
        place_prefix(kinds, n, hidden_sret).1.next_stack % 4 == 0,
    decreases n,
{
    if n > 0 {
        lemma_prefix_bounds(kinds, (n - 1) as nat, hidden_sret);
        let c = place_prefix(kinds, (n - 1) as nat, hidden_sret).1;
        lemma_align_up(c.next_stack, spec_stack_size(kinds[n - 1]));
    }
}

/// The stack cursor never moves down, and a value placed on the stack ends
/// at or below every later cursor.
pub(crate) proof fn lemma_prefix_monotone(kinds: Seq<ValueKind>, i: nat, j: nat, hidden_sret: bool)
    requires
        i <= j <= kinds.len(),
    ensures
        place_prefix(kinds, i, hidden_sret).1.next_stack <= place_prefix(kinds, j, hidden_sret).1.next_stack,
        i < j ==> place_prefix(kinds, i, hidden_sret).1.next_stack + spec_stack_size(kinds[i as int])
            <= place_prefix(kinds, j, hidden_sret).1.next_stack || !(place_step(
            place_prefix(kinds, i, hidden_sret).1,
            kinds[i as int],
        ).0 is Stack),
    decreases j - i,
{
    if i < j {
        lemma_prefix_monotone(kinds, i + 1, j, hidden_sret);
        lemma_prefix_bounds(kinds, i, hidden_sret);
        let c = place_prefix(kinds, i, hidden_sret).1;
        lemma_align_up(c.next_stack, spec_stack_size(kinds[i as int]));
        assert(place_prefix(kinds, i + 1, hidden_sret).1 == place_step(c, kinds[i as int]).1);
    }
}

/// Place ordinary call arguments according to the frozen SIA32 ABI.
///
/// If `hidden_sret` is true then r1 is consumed by the hidden return-area
/// pointer before user arguments are assigned. Once one argument has to move to
/// the stack, all following arguments are stack-assigned as well. I64 values
/// use the pairs r1:r2, r3:r4 or r5:r6 and never straddle the register/stack
/// boundary.
///
/// The stack cursor is a 32-bit offset: the arguments' stack area, before and
/// after rounding, must fit it.
pub fn place_args(kinds: &[ValueKind], hidden_sret: bool) -> (p: Placement)
    requires
        spec_arg_stack_end(kinds@, hidden_sret) + 7 <= u32::MAX,
    ensures
        p.values@ == spec_arg_locations(kinds@, hidden_sret),
        p.stack_size == spec_arg_stack_size(kinds@, hidden_sret),
{
    let mut values: Vec<Location> = Vec::new();
    let mut next_reg: u8 = if hidden_sret {
        2
    } else {
        ARG_FIRST
    };
    let mut stack_only = false;
    let mut next_stack = 0u32;
    let mut i: usize = 0;
    while i < kinds.len()
        invariant
            0 <= i <= kinds@.len(),
            spec_arg_stack_end(kinds@, hidden_sret) + 7 <= u32::MAX,
            ({
                let (locs, c) = place_prefix(kinds@, i as nat, hidden_sret);
                &&& values@ == locs
                &&& next_reg == c.next_reg
                &&& stack_only == c.stack_only
                &&& next_stack == c.next_stack
            }),
        decreases kinds@.len() - i,
    {
        proof {
            lemma_prefix_bounds(kinds@, i as nat, hidden_sret);
            lemma_align_up(next_stack as int, spec_stack_size(kinds@[i as int]));
            lemma_prefix_monotone(kinds@, i as nat, kinds@.len(), hidden_sret);
        }
        let kind = kinds[i];
        let words = kind.register_words();
        let mut placed = false;
        if !stack_only {
            if words == 1 && next_reg <= ARG_LAST {
                values.push(Location::Reg(next_reg));
                next_reg = next_reg + 1;
                placed = true;
            } else if words == 2 {
                // 64-bit values begin on an odd-numbered architectural
                // register, yielding ABI pairs 1:2, 3:4, 5:6. If the current
                // scalar cursor points at an even register, leave that
                // register unused rather than changing the pair ABI.
                if next_reg % 2 == 0 {
                    next_reg = next_reg + 1;
                }
                if next_reg + 1 <= ARG_LAST {
                    values.push(Location::RegPair { low: next_reg, high: next_reg + 1 });
                    next_reg = next_reg + 2;
                    placed = true;
                }
            }
        }
        if !placed {
            stack_only = true;
            let align = kind.stack_align();
            next_stack = align_to(next_stack, align);
            let size = kind.stack_size();
            values.push(Location::Stack { offset: next_stack, size, align });
            next_stack = next_stack + size;
        }
        i = i + 1;
    }
    proof {
        lemma_prefix_bounds(kinds@, kinds@.len(), hidden_sret);
        lemma_align_up(next_stack as int, 8);
    }
    Placement { values, stack_size: align_to(next_stack, STACK_ALIGN) }
}


/// The first argument register available to user arguments.
pub open spec fn first_arg_reg(hidden_sret: bool) -> int {
    if hidden_sret {
        2
    } else {
        1
    }
}

pub open spec fn is_reg_location(loc: Location) -> bool {
    loc is Reg || loc is RegPair
}

/// The lowest register of a register location.
pub open spec fn low_reg(loc: Location) -> int {
    match loc {
        Location::Reg(r) => r as int,
        Location::RegPair { low, .. } => low as int,
        _ => 0,
    }
}

/// The highest register of a register location.
pub open spec fn high_reg(loc: Location) -> int {
    match loc {
        Location::Reg(r) => r as int,
        Location::RegPair { high, .. } => high as int,
        _ => 0,
    }
}

/// The first stack byte after a stack location.
pub open spec fn stack_end(loc: Location) -> int {
    match loc {
        Location::Stack { offset, size, .. } => offset + size,
        _ => 0,
    }
}

/// What the ABI allows for one value: a scalar in one of the argument
/// registers, an I64 in an aligned odd/even pair within r1..r6, or a stack slot
/// of the value's size, aligned to that size.
pub open spec fn location_fits(loc: Location, kind: ValueKind, first: int) -> bool {
    match loc {
        Location::Reg(r) => spec_register_words(kind) == 1 && first <= r <= 6,
        Location::RegPair { low, high } => {
            &&& kind == ValueKind::I64
            &&& low % 2 == 1
            &&& high == low + 1
            &&& first <= low
            &&& high <= 6
        },
        Location::Stack { offset, size, align } => {
            &&& size == spec_stack_size(kind)
            &&& align == size
            &&& offset % align == 0
        },
    }
}

/// Relations between two earlier/later values `a` (first) and `b` (second).
pub open spec fn ordered_pair(a: Location, b: Location) -> bool {
    &&& a is Stack ==> b is Stack
    &&& is_reg_location(a) && is_reg_location(b) ==> high_reg(a) < low_reg(b)
    &&& a is Stack && b is Stack ==> stack_end(a) <= match b {
        Location::Stack { offset, .. } => offset as int,
        _ => 0,
    }
}

spec fn prefix_inv(kinds: Seq<ValueKind>, n: nat, hidden_sret: bool) -> bool {
    let (locs, c) = place_prefix(kinds, n, hidden_sret);
    let first = first_arg_reg(hidden_sret);
    &&& locs.len() == n
    &&& c.next_reg >= first
    &&& forall|i: int| 0 <= i < n ==> location_fits(#[trigger] locs[i], kinds[i], first)
    &&& forall|i: int|
        0 <= i < n && is_reg_location(#[trigger] locs[i]) ==> high_reg(locs[i]) < c.next_reg
    &&& forall|i: int|
        0 <= i < n && #[trigger] locs[i] is Stack ==> c.stack_only && stack_end(locs[i]) <= c.next_stack
    &&& forall|i: int, j: int| 0 <= i < j < n ==> ordered_pair(#[trigger] locs[i], #[trigger] locs[j])
}

proof fn lemma_prefix_inv(kinds: Seq<ValueKind>, n: nat, hidden_sret: bool)
    requires
        n <= kinds.len(),
        spec_arg_stack_end(kinds, hidden_sret) + 7 <= u32::MAX,
    ensures
        prefix_inv(kinds, n, hidden_sret),
    decreases n,
{
    if n > 0 {
        let m = (n - 1) as nat;
        lemma_prefix_inv(kinds, m, hidden_sret);
        lemma_prefix_bounds(kinds, m, hidden_sret);
        let (locs, c) = place_prefix(kinds, m, hidden_sret);
        let kind = kinds[m as int];
        let (loc, c2) = place_step(c, kind);
        let locs2 = locs.push(loc);
        let first = first_arg_reg(hidden_sret);
        lemma_align_up(c.next_stack, spec_stack_size(kind));
        lemma_prefix_monotone(kinds, m, kinds.len(), hidden_sret);
        assert(locs2[m as int] == loc);
        assert(location_fits(loc, kind, first));
        assert forall|i: int| 0 <= i < m implies ordered_pair(#[trigger] locs2[i], locs2[m as int]) by {
            assert(locs2[i] == locs[i]);
        }
        assert forall|i: int, j: int| 0 <= i < j < n implies ordered_pair(
            #[trigger] locs2[i],
            #[trigger] locs2[j],
        ) by {
            if j < m {
                assert(locs2[i] == locs[i] && locs2[j] == locs[j]);
            }
        }
        assert forall|i: int| 0 <= i < n implies location_fits(#[trigger] locs2[i], kinds[i], first) by {
            if i < m {
                assert(locs2[i] == locs[i]);
            }
        }
        assert forall|i: int|
            0 <= i < n && is_reg_location(#[trigger] locs2[i]) implies high_reg(locs2[i])
            < c2.next_reg by {
            if i < m {
                assert(locs2[i] == locs[i]);
            }
        }
        assert forall|i: int|
            0 <= i < n && #[trigger] locs2[i] is Stack implies c2.stack_only && stack_end(locs2[i])
            <= c2.next_stack by {
            if i < m {
                assert(locs2[i] == locs[i]);
            }
        }
    }
}

/// The laws of argument placement: every value gets a location the ABI allows
/// for its kind (registers r1..r6, or r2..r6 behind a hidden sret pointer;
/// I64 only in aligned pairs; stack slots aligned to their size); once one
/// value is on the stack every later value is too; registers are assigned in
/// increasing order and never twice; stack slots follow one another without
/// overlap; and the stack area is a multiple of 8 bytes that holds every slot.
/// (This holds whenever the stack area fits the 32-bit offsets of the slots.)
pub proof fn lemma_arg_placement_laws(kinds: Seq<ValueKind>, hidden_sret: bool)
    requires
        spec_arg_stack_end(kinds, hidden_sret) + 7 <= u32::MAX,
    ensures
        ({
            let locs = spec_arg_locations(kinds, hidden_sret);
            let total = spec_arg_stack_size(kinds, hidden_sret);
            &&& locs.len() == kinds.len()
            &&& forall|i: int|
                0 <= i < locs.len() ==> location_fits(
                    #[trigger] locs[i],
                    kinds[i],
                    first_arg_reg(hidden_sret),
                )
            &&& forall|i: int, j: int|
                0 <= i < j < locs.len() ==> ordered_pair(#[trigger] locs[i], #[trigger] locs[j])
            &&& forall|i: int| 0 <= i < locs.len() ==> stack_end(#[trigger] locs[i]) <= total
            &&& total % 8 == 0
        }),
{
    lemma_prefix_inv(kinds, kinds.len(), hidden_sret);
    lemma_prefix_bounds(kinds, kinds.len(), hidden_sret);
    let c = place_prefix(kinds, kinds.len(), hidden_sret).1;
    lemma_align_up(c.next_stack, 8);
}

/// A hidden sret pointer is placed as a leading `Ptr32` argument would be: it
/// takes r1, and the user arguments behind it receive the same locations and
/// the same stack area as they do after such a leading argument.
pub proof fn lemma_hidden_sret_is_leading_pointer(kinds: Seq<ValueKind>)
    ensures
        spec_arg_locations(seq![ValueKind::Ptr32] + kinds, false) == seq![Location::Reg(1)]
            + spec_arg_locations(kinds, true),
        spec_arg_stack_end(seq![ValueKind::Ptr32] + kinds, false) == spec_arg_stack_end(kinds, true),
        spec_arg_stack_size(seq![ValueKind::Ptr32] + kinds, false) == spec_arg_stack_size(kinds, true),
{
    lemma_sret_prefix(kinds, kinds.len());
    assert((seq![ValueKind::Ptr32] + kinds).len() == kinds.len() + 1);
}

proof fn lemma_sret_prefix(kinds: Seq<ValueKind>, n: nat)
    requires
        n <= kinds.len(),
    ensures
        place_prefix(seq![ValueKind::Ptr32] + kinds, n + 1, false).0 == seq![Location::Reg(1)]
            + place_prefix(kinds, n, true).0,
        place_prefix(seq![ValueKind::Ptr32] + kinds, n + 1, false).1 == place_prefix(kinds, n, true).1,
    decreases n,
{
    let all = seq![ValueKind::Ptr32] + kinds;
    if n == 0 {
        assert(all[0] == ValueKind::Ptr32);
        let p0 = place_prefix(all, 0, false);
        assert(p0.0 == Seq::<Location>::empty());
        let (loc, c) = place_step(p0.1, all[0]);
        assert(loc == Location::Reg(1));
        assert(c == initial_cursor(true));
        assert(place_prefix(all, 1, false).0 =~= seq![Location::Reg(1)] + place_prefix(kinds, 0, true).0);
    } else {
        lemma_sret_prefix(kinds, (n - 1) as nat);
        assert(all[n as int] == kinds[n - 1]);
        let (locs, c) = place_prefix(kinds, (n - 1) as nat, true);
        let (loc, c2) = place_step(c, kinds[n - 1]);
        assert(place_prefix(all, n + 1, false).0 =~= seq![Location::Reg(1)] + locs.push(loc));
    }
}

/// One scalar or I64 return value, or two scalars; anything else is not
/// representable in r1:r2 and is refused.
pub open spec fn spec_ret_locations(kinds: Seq<ValueKind>) -> Option<Seq<Location>> {
    if kinds.len() == 0 {
        Some(Seq::empty())
    } else if kinds.len() == 1 && kinds[0] != ValueKind::I64 {
        Some(seq![Location::Reg(1)])
    } else if kinds.len() == 1 {
        Some(seq![Location::RegPair { low: 1, high: 2 }])
    } else if kinds.len() == 2 && kinds[0] != ValueKind::I64 && kinds[1] != ValueKind::I64 {
        Some(seq![Location::Reg(1), Location::Reg(2)])
    } else {
        None
    }
}

/// Place return values: one value of at most 32 bits returns in r1, one I64 in
/// r1:r2, two values of at most 32 bits in r1 and r2. Anything larger must be
/// converted by the caller into the hidden-sret form.
pub fn place_rets(kinds: &[ValueKind]) -> (res: Option<Placement>)
    ensures
        match spec_ret_locations(kinds@) {
            Some(locs) => res matches Some(p) && p.values@ == locs && p.stack_size == 0,
            None => res is None,
        },
{
    let n = kinds.len();
    let mut values: Vec<Location> = Vec::new();
    if n == 0 {
    } else if n == 1 && kinds[0] != ValueKind::I64 {
        values.push(Location::Reg(1));
    } else if n == 1 {
        values.push(Location::RegPair { low: 1, high: 2 });
    } else if n == 2 && kinds[0] != ValueKind::I64 && kinds[1] != ValueKind::I64 {
        values.push(Location::Reg(1));
        values.push(Location::Reg(2));
    } else {
        return None;
    }
    proof {
        assert(values@ == spec_ret_locations(kinds@).unwrap());
    }
    Some(Placement { values, stack_size: 0 })
}

} // verus!
