//! Target properties of the SIA32 code generator.

use crate::abi::ArgumentExtension;
use crate::inst::{FunctionAlignment, Inst};
use crate::regs::{spec_reg_name, Reg};
use vstd::prelude::*;

verus! {

/// The SIA32 target as the rest of the compiler sees it.
pub struct Sia32Backend;

impl Sia32Backend {
    pub fn name(&self) -> (s: &'static str)
        ensures
            s@ == "sia32"@,
    {
        "sia32"
    }

    /// Pages are aligned to 2 KiB.
    pub fn page_size_align_log2(&self) -> (n: u8)
        ensures
            n == 11,
    {
        11
    }

    /// Registers print as `sp`, `lr` or `r<n>`.
    pub fn pretty_print_reg(&self, reg: Reg, size: u8) -> (s: String)
        ensures
            s@ == spec_reg_name(reg@),
    {
        reg.name().to_owned()
    }

    pub fn function_alignment(&self) -> (a: FunctionAlignment)
        ensures
            a == (FunctionAlignment { minimum: 4, preferred: 4 }),
    {
        Inst::function_alignment()
    }

    /// Arguments are not extended unless the signature asks for it.
    pub fn default_argument_extension(&self) -> (e: ArgumentExtension)
        ensures
            e == ArgumentExtension::NoExt,
    {
        ArgumentExtension::NoExt
    }
}

} // verus!
