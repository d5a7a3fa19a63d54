//! Mode tokens: values that witness which mode the processor runs in, and whose methods are
//! the only way from one mode to another. Each token carries the CR0 value that holds in its
//! mode and, for verification only, the segment state of `modes::SegmentState` (CR0, `ds`,
//! the limit cached for `ds`, and the stack). The tokens of the modes in which BIOS interrupts
//! work dereference to a `BiosCaller`.

use vstd::prelude::*;
use core::marker::PhantomData;
use crate::bios::BiosCaller;
use crate::modes::{
    self, run_steps, unreal_mode_steps, with_cr0, ControlRegisters, ModeStep, SegmentState, CR0_PE,
    FLAT_DATA_SELECTOR, FLAT_LIMIT,
};

verus! {

/// A witness of running in real mode.
pub struct RealMode {
    bios: BiosCaller,
    cr0: u32,
    segments: Ghost<SegmentState>,
}

/// A witness of running in unreal mode: real mode, with the limit of `ds` covering the whole
/// 32-bit address space.
pub struct UnrealMode {
    bios: BiosCaller,
    cr0: u32,
    segments: Ghost<SegmentState>,
}

/// A mode that protected mode is entered from and returns to.
pub trait ReturnMode {
    /// Whether the limit of `ds` covers the whole 32-bit address space in this mode, and so
    /// must be kept while in protected mode.
    spec fn flat_data_segment() -> bool;
}

impl ReturnMode for RealMode {
    open spec fn flat_data_segment() -> bool {
        false
    }
}

impl ReturnMode for UnrealMode {
    open spec fn flat_data_segment() -> bool {
        true
    }
}

/// A witness of running in protected mode, entered from the mode `U` and returning to it.
pub struct ProtectedMode<U: ReturnMode> {
    cr0: u32,
    segments: Ghost<SegmentState>,
    _p: PhantomData<U>,
}

impl RealMode {
    #[verifier::type_invariant]
    spec fn inv(self) -> bool {
        &&& self.cr0 & CR0_PE == 0
        &&& self.segments@.0 == self.cr0
    }

    /// The segment state in this mode.
    pub closed spec fn segments(&self) -> SegmentState {
        self.segments@
    }

    /// The value of CR0 in this mode.
    pub fn cr0(&self) -> (r: u32)
        ensures
            r == self.segments().0,
            r & CR0_PE == 0,
    {
        proof {
            use_type_invariant(self);
        }
        self.cr0
    }

    /// Acquire a witness of being in real mode, given from startup with the value of CR0 read
    /// then. This should only be done at the very start of the boot process, as then it is
    /// guaranteed that we are in real mode. Of the segment state only CR0 is known.
    pub fn begin(cr0: u32) -> (r: RealMode)
        requires
            cr0 & CR0_PE == 0,
        ensures
            r.segments().0 == cr0,
    {
        RealMode {
            bios: BiosCaller::new(),
            cr0,
            segments: Ghost((cr0, arbitrary(), arbitrary(), arbitrary())),
        }
    }

    /// Exit real mode and enter protected mode: only CR0 changes, its PE bit is set.
    pub fn enter_protected_mode(self) -> (r: ProtectedMode<RealMode>)
        ensures
            r.segments() == with_cr0(self.segments(), self.segments().0 | CR0_PE),
    {
        proof {
            use_type_invariant(&self);
            modes::lemma_protected_mode_roundtrip(self.cr0);
        }
        let cr0 = modes::enter_protected_mode(self.cr0);
        ProtectedMode { cr0, segments: Ghost(with_cr0(self.segments@, cr0)), _p: PhantomData }
    }

    /// Enter unreal mode, which will give us full access to the 32 bit address space, while
    /// still being able to call BIOS interrupts. Returns the unreal mode token and the register
    /// operations that make the switch: `ds` is saved, protected mode is entered, `ds` is
    /// loaded with the flat data segment, protected mode is left, and `ds` is restored. With a
    /// GDT whose flat data entry spans the 32-bit address space, those operations end in the
    /// token's state: CR0, `ds` and the stack as they were, and the limit of `ds` covering the
    /// whole 32-bit address space.
    pub fn enter_unreal_mode(self) -> (r: (UnrealMode, Vec<ModeStep>))
        ensures
            r.1@ == unreal_mode_steps(self.segments().0),
            r.0.segments() == (
                self.segments().0,
                self.segments().1,
                FLAT_LIMIT,
                self.segments().3,
            ),
            forall|gdt_limit: spec_fn(u16) -> u32|
                gdt_limit(FLAT_DATA_SELECTOR) == FLAT_LIMIT ==> #[trigger] run_steps(
                    gdt_limit,
                    self.segments(),
                    r.1@,
                ) == r.0.segments(),
    {
        proof {
            use_type_invariant(&self);
        }
        let cr0 = self.cr0;
        let ghost st = self.segments@;
        let steps = modes::enter_unreal_mode(cr0);
        proof {
            assert forall|gdt_limit: spec_fn(u16) -> u32|
                gdt_limit(FLAT_DATA_SELECTOR) == FLAT_LIMIT implies #[trigger] run_steps(
                gdt_limit,
                st,
                steps@,
            ) == (st.0, st.1, FLAT_LIMIT, st.3) by {
                modes::lemma_unreal_mode_entered(gdt_limit, st.0, st.1, st.2, st.3);
            }
        }
        let unreal = UnrealMode {
            bios: BiosCaller::new(),
            cr0,
            segments: Ghost((st.0, st.1, FLAT_LIMIT, st.3)),
        };
        (unreal, steps)
    }
}

impl core::ops::Deref for RealMode {
    type Target = BiosCaller;

    fn deref(&self) -> &BiosCaller {
        &self.bios
    }
}

impl core::ops::Deref for UnrealMode {
    type Target = BiosCaller;

    fn deref(&self) -> &BiosCaller {
        &self.bios
    }
}

impl UnrealMode {
    #[verifier::type_invariant]
    spec fn inv(self) -> bool {
        &&& self.cr0 & CR0_PE == 0
        &&& self.segments@.0 == self.cr0
        &&& self.segments@.2 == FLAT_LIMIT
    }

    /// The segment state in this mode.
    pub closed spec fn segments(&self) -> SegmentState {
        self.segments@
    }

    /// The value of CR0 in this mode; the limit of `ds` covers the 32-bit address space.
    pub fn cr0(&self) -> (r: u32)
        ensures
            r == self.segments().0,
            r & CR0_PE == 0,
            self.segments().2 == FLAT_LIMIT,
    {
        proof {
            use_type_invariant(self);
        }
        self.cr0
    }

    /// Exit unreal mode and enter protected mode: only CR0 changes, its PE bit is set; `ds`,
    /// its cached limit and the stack are kept.
    pub fn enter_protected_mode(self) -> (r: ProtectedMode<UnrealMode>)
        ensures
            r.segments() == with_cr0(self.segments(), self.segments().0 | CR0_PE),
    {
        proof {
            use_type_invariant(&self);
            modes::lemma_protected_mode_roundtrip(self.cr0);
        }
        let cr0 = modes::enter_protected_mode(self.cr0);
        ProtectedMode { cr0, segments: Ghost(with_cr0(self.segments@, cr0)), _p: PhantomData }
    }
}

impl<U: ReturnMode> ProtectedMode<U> {
    #[verifier::type_invariant]
    spec fn inv(self) -> bool {
        &&& self.cr0 & CR0_PE == CR0_PE
        &&& self.segments@.0 == self.cr0
        &&& U::flat_data_segment() ==> self.segments@.2 == FLAT_LIMIT
    }

    /// The segment state in this mode.
    pub closed spec fn segments(&self) -> SegmentState {
        self.segments@
    }

    /// The value of CR0 in this mode.
    pub fn cr0(&self) -> (r: u32)
        ensures
            r == self.segments().0,
            r & CR0_PE == CR0_PE,
    {
        proof {
            use_type_invariant(self);
        }
        self.cr0
    }
}

impl ProtectedMode<RealMode> {
    /// Exit protected mode and reenter real mode: only CR0 changes, its PE bit is cleared.
    pub fn enter_real_mode(self) -> (r: RealMode)
        ensures
            r.segments() == with_cr0(self.segments(), self.segments().0 & !CR0_PE),
    {
        proof {
            use_type_invariant(&self);
            modes::lemma_protected_mode_roundtrip(self.cr0);
        }
        let cr0 = modes::exit_protected_mode(self.cr0);
        RealMode { bios: BiosCaller::new(), cr0, segments: Ghost(with_cr0(self.segments@, cr0)) }
    }
}

impl ProtectedMode<UnrealMode> {
    /// Exit protected mode and reenter unreal mode: only CR0 changes, its PE bit is cleared;
    /// `ds` keeps the limit that covers the 32-bit address space.
    pub fn enter_unreal_mode(self) -> (r: UnrealMode)
        ensures
            r.segments() == with_cr0(self.segments(), self.segments().0 & !CR0_PE),
    {
        proof {
            use_type_invariant(&self);
            modes::lemma_protected_mode_roundtrip(self.cr0);
        }
        let cr0 = modes::exit_protected_mode(self.cr0);
        UnrealMode { bios: BiosCaller::new(), cr0, segments: Ghost(with_cr0(self.segments@, cr0)) }
    }
}

/// Passing through protected mode and back restores the whole segment state: from real mode,
/// and from unreal mode, which so stays unreal mode.
pub proof fn lemma_protected_mode_detour(st: SegmentState)
    requires
        st.0 & CR0_PE == 0,
    ensures
        with_cr0(with_cr0(st, st.0 | CR0_PE), (st.0 | CR0_PE) & !CR0_PE) == st,
{
    modes::lemma_protected_mode_roundtrip(st.0);
}

/// Enter long mode: the control register values to write, given their current values. See
/// `modes::enter_long_mode` for what else must hold before 64-bit code runs.
pub fn enter_long_mode(regs: ControlRegisters) -> (r: ControlRegisters)
    ensures
        r == modes::long_mode_entered(regs),
{
    modes::enter_long_mode(regs)
}

/// Exit long mode and reenter real mode, where BIOS interrupts are safe to call: the control
/// register values to write, given their current values.
pub fn exit_long_mode(regs: ControlRegisters) -> (r: ControlRegisters)
    ensures
        r == modes::long_mode_exited(regs),
{
    modes::exit_long_mode(regs)
}

} // verus!
