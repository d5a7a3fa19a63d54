//! CPU mode management: the control register images that enter and leave protected mode and
//! long mode, and the register operations that enter unreal mode.

use vstd::prelude::*;

verus! {

/// CR0.PE: protection enable.
pub const CR0_PE: u32 = 0x1;

/// CR0.PG: paging.
pub const CR0_PG: u32 = 0x8000_0000;

/// CR4.PAE: physical address extension, required by long mode.
pub const CR4_PAE: u32 = 0x20;

/// IA32_EFER.LME: long mode enable.
pub const EFER_LME: u64 = 0x100;

/// The selector of the flat data segment in the bootloader's GDT: entry 2 (bits 3-15 of a
/// selector index the GDT), table indicator 0, privilege level 0.
pub const FLAT_DATA_SELECTOR: u16 = 0x10;

/// The segment limit that the flat data segment gives: the whole 32-bit address space.
pub const FLAT_LIMIT: u32 = 0xffff_ffff;

/// Enter protected mode: the value of CR0 to write, given its current value. In protected mode,
/// BIOS interrupts will be mostly disabled, so no interrupt should be executed. To exit, call
/// `exit_protected_mode`.
///
/// This function is always valid to call.
pub fn enter_protected_mode(cr0: u32) -> (r: u32)
    ensures
        r == cr0 | CR0_PE,
{
    cr0 | CR0_PE
}

/// Exit protected mode and reenter real mode, where BIOS interrupts are safe to call: the value
/// of CR0 to write, given its current value.
///
/// This function is always valid to call.
pub fn exit_protected_mode(cr0: u32) -> (r: u32)
    ensures
        r == cr0 & !CR0_PE,
{
    cr0 & !CR0_PE
}

/// Entering protected mode sets exactly the PE bit; leaving it clears exactly the PE bit; and
/// leaving after entering gives back a CR0 value that had PE clear.
pub proof fn lemma_protected_mode_roundtrip(cr0: u32)
    ensures
        (cr0 | CR0_PE) & CR0_PE == CR0_PE,
        (cr0 | CR0_PE) & !CR0_PE == cr0 & !CR0_PE,
        (cr0 & !CR0_PE) & CR0_PE == 0,
        (cr0 & !CR0_PE) | CR0_PE == cr0 | CR0_PE,
        cr0 & CR0_PE == 0 ==> (cr0 | CR0_PE) & !CR0_PE == cr0,
{
    assert((cr0 | 1) & 1 == 1) by (bit_vector);
    assert((cr0 | 1) & !1u32 == cr0 & !1u32) by (bit_vector);
    assert((cr0 & !1u32) & 1 == 0) by (bit_vector);
    assert((cr0 & !1u32) | 1 == cr0 | 1) by (bit_vector);
    assert(cr0 & 1 == 0 ==> (cr0 | 1) & !1u32 == cr0) by (bit_vector);
}

/// The control registers that take part in switching between real mode and long mode.
#[derive(Clone, Copy, Debug, PartialEq, Eq, Structural)]
pub struct ControlRegisters {
    pub cr0: u32,
    pub cr4: u32,
    pub efer: u64,
}

/// The four bits that activate long mode are set: protection, paging, PAE and long mode
/// enable. Long mode then runs with the page tables that CR3 names; 64-bit code runs only once
/// a 64-bit code segment is loaded.
pub open spec fn long_mode_active(r: ControlRegisters) -> bool {
    &&& r.cr0 & CR0_PE == CR0_PE
    &&& r.cr0 & CR0_PG == CR0_PG
    &&& r.cr4 & CR4_PAE == CR4_PAE
    &&& r.efer & EFER_LME == EFER_LME
}

/// The processor is in real mode, with neither paging, PAE nor long mode enabled.
pub open spec fn real_mode_active(r: ControlRegisters) -> bool {
    &&& r.cr0 & CR0_PE == 0
    &&& r.cr0 & CR0_PG == 0
    &&& r.cr4 & CR4_PAE == 0
    &&& r.efer & EFER_LME == 0
}

/// Enter long mode: the control register values to write, given their current values. In long
/// mode, BIOS interrupts will be mostly disabled, so no interrupt should be executed. To exit,
/// call `exit_long_mode`.
///
/// Computing the values is always valid. Writing them turns paging on with the page tables
/// that CR3 names, so CR3 must hold a valid PML4 first (with the identity mapping of the code
/// that runs), and 64-bit code runs only after a far jump to a 64-bit code segment; neither is
/// done here.
pub fn enter_long_mode(regs: ControlRegisters) -> (r: ControlRegisters)
    ensures
        r.cr0 == regs.cr0 | CR0_PE | CR0_PG,
        r.cr4 == regs.cr4 | CR4_PAE,
        r.efer == regs.efer | EFER_LME,
{
    ControlRegisters {
        cr0: regs.cr0 | CR0_PE | CR0_PG,
        cr4: regs.cr4 | CR4_PAE,
        efer: regs.efer | EFER_LME,
    }
}

/// Exit long mode and reenter real mode, where BIOS interrupts are safe to call: the control
/// register values to write, given their current values. Computing them is always valid; they
/// must be written from code in a 16-bit-compatible segment.
pub fn exit_long_mode(regs: ControlRegisters) -> (r: ControlRegisters)
    ensures
        r.cr0 == regs.cr0 & !(CR0_PE | CR0_PG),
        r.cr4 == regs.cr4 & !CR4_PAE,
        r.efer == regs.efer & !EFER_LME,
{
    ControlRegisters {
        cr0: regs.cr0 & !(CR0_PE | CR0_PG),
        cr4: regs.cr4 & !CR4_PAE,
        efer: regs.efer & !EFER_LME,
    }
}

/// The registers as `enter_long_mode` leaves them.
pub open spec fn long_mode_entered(regs: ControlRegisters) -> ControlRegisters {
    ControlRegisters {
        cr0: regs.cr0 | CR0_PE | CR0_PG,
        cr4: regs.cr4 | CR4_PAE,
        efer: regs.efer | EFER_LME,
    }
}

/// The registers as `exit_long_mode` leaves them.
pub open spec fn long_mode_exited(regs: ControlRegisters) -> ControlRegisters {
    ControlRegisters {
        cr0: regs.cr0 & !(CR0_PE | CR0_PG),
        cr4: regs.cr4 & !CR4_PAE,
        efer: regs.efer & !EFER_LME,
    }
}

/// Entering long mode makes it active from any state; exiting it always lands in real mode;
/// and exiting after entering from real mode restores every register exactly.
pub proof fn lemma_long_mode_roundtrip(regs: ControlRegisters)
    ensures
        long_mode_active(long_mode_entered(regs)),
        real_mode_active(long_mode_exited(regs)),
        real_mode_active(regs) ==> long_mode_exited(long_mode_entered(regs)) == regs,
{
    let c0 = regs.cr0;
    let c4 = regs.cr4;
    let e = regs.efer;
    assert((c0 | 1u32 | 0x8000_0000u32) & 1u32 == 1u32) by (bit_vector);
    assert((c0 | 1u32 | 0x8000_0000u32) & 0x8000_0000u32 == 0x8000_0000u32) by (bit_vector);
    assert((c4 | 0x20u32) & 0x20u32 == 0x20u32) by (bit_vector);
    assert((e | 0x100u64) & 0x100u64 == 0x100u64) by (bit_vector);
    assert((c0 & !(1u32 | 0x8000_0000u32)) & 1u32 == 0) by (bit_vector);
    assert((c0 & !(1u32 | 0x8000_0000u32)) & 0x8000_0000u32 == 0) by (bit_vector);
    assert((c4 & !0x20u32) & 0x20u32 == 0) by (bit_vector);
    assert((e & !0x100u64) & 0x100u64 == 0) by (bit_vector);
    assert(c0 & 1u32 == 0 && c0 & 0x8000_0000u32 == 0 ==> (c0 | 1u32 | 0x8000_0000u32) & !(1u32
        | 0x8000_0000u32) == c0) by (bit_vector);
    assert(c4 & 0x20u32 == 0 ==> (c4 | 0x20u32) & !0x20u32 == c4) by (bit_vector);
    assert(e & 0x100u64 == 0 ==> (e | 0x100u64) & !0x100u64 == e) by (bit_vector);
}

/// One register operation of a mode switch.
#[derive(Clone, Copy, Debug, PartialEq, Eq, Structural)]
pub enum ModeStep {
    /// Push `ds` on the stack.
    PushDs,
    /// Pop the top of the stack into `ds`.
    PopDs,
    /// Write the value to CR0.
    WriteCr0(u32),
    /// Load the selector into `ds`.
    LoadDs(u16),
}

/// The processor state that mode switches touch: CR0, the `ds` register, the limit held in the
/// hidden descriptor cache of `ds`, and the stack.
pub type SegmentState = (u32, u16, u32, Seq<u16>);

/// `st` with CR0 set to `cr0` and everything else kept.
pub open spec fn with_cr0(st: SegmentState, cr0: u32) -> SegmentState {
    (cr0, st.1, st.2, st.3)
}

/// Loading `selector` into `ds`. In protected mode the descriptor cache is filled from the GDT
/// entry that the selector names; in real mode only the segment base changes and the cached
/// limit stays as it was.
pub open spec fn load_ds(gdt_limit: spec_fn(u16) -> u32, st: SegmentState, selector: u16) -> SegmentState {
    let limit = if st.0 & CR0_PE == CR0_PE {
        gdt_limit(selector)
    } else {
        st.2
    };
    (st.0, selector, limit, st.3)
}

/// The state after one step, with the GDT giving each selector's segment limit.
pub open spec fn step_effect(gdt_limit: spec_fn(u16) -> u32, st: SegmentState, step: ModeStep) -> SegmentState {
    match step {
        ModeStep::PushDs => (st.0, st.1, st.2, st.3.push(st.1)),
        ModeStep::PopDs => load_ds(gdt_limit, (st.0, st.1, st.2, st.3.drop_last()), st.3.last()),
        ModeStep::WriteCr0(v) => with_cr0(st, v),
        ModeStep::LoadDs(selector) => load_ds(gdt_limit, st, selector),
    }
}

/// The state after running `steps` in order.
pub open spec fn run_steps(gdt_limit: spec_fn(u16) -> u32, st: SegmentState, steps: Seq<ModeStep>) -> SegmentState
    decreases steps.len(),
{
    if steps.len() == 0 {
        st
    } else {
        step_effect(gdt_limit, run_steps(gdt_limit, st, steps.drop_last()), steps.last())
    }
}

/// The steps that enter unreal mode from real mode with the given CR0 value.
pub open spec fn unreal_mode_steps(cr0: u32) -> Seq<ModeStep> {
    seq![
        ModeStep::PushDs,
        ModeStep::WriteCr0(cr0 | CR0_PE),
        ModeStep::LoadDs(FLAT_DATA_SELECTOR),
        ModeStep::WriteCr0((cr0 | CR0_PE) & !CR0_PE),
        ModeStep::PopDs,
    ]
}

/// Enter unreal mode, which will give us full access to the 32 bit address space, while still
/// being able to call BIOS interrupts: the register operations to perform, given the current
/// value of CR0. `ds` is saved, protected mode is entered, `ds` is loaded with the flat data
/// segment, protected mode is left, and `ds` is restored.
pub fn enter_unreal_mode(cr0: u32) -> (r: Vec<ModeStep>)
    ensures
        r@ == unreal_mode_steps(cr0),
        r@.len() == 5,
        r@[0] == ModeStep::PushDs,
        r@[1] == ModeStep::WriteCr0(cr0 | CR0_PE),
        r@[2] == ModeStep::LoadDs(FLAT_DATA_SELECTOR),
        r@[3] == ModeStep::WriteCr0(cr0 & !CR0_PE),
        r@[4] == ModeStep::PopDs,
{
    proof {
        lemma_protected_mode_roundtrip(cr0);
    }
    let mut steps: Vec<ModeStep> = Vec::new();
    steps.push(ModeStep::PushDs);
    let protected = enter_protected_mode(cr0);
    steps.push(ModeStep::WriteCr0(protected));
    // Bits 3-15 of a selector index the GDT; the descriptor it selects in protected mode stays
    // in the cache of `ds` after we return to real mode.
    steps.push(ModeStep::LoadDs(FLAT_DATA_SELECTOR));
    steps.push(ModeStep::WriteCr0(exit_protected_mode(protected)));
    steps.push(ModeStep::PopDs);
    assert(steps@ =~= unreal_mode_steps(cr0));
    steps
}

/// The steps that enter unreal mode save `ds` first and restore it last, load the flat data
/// selector between two writes of CR0, and every value they write to CR0 differs from the
/// current CR0 in the PE bit alone: the first sets it, the second clears it.
pub proof fn lemma_unreal_mode_steps_touch_only_pe(cr0: u32)
    ensures
        unreal_mode_steps(cr0).len() == 5,
        unreal_mode_steps(cr0)[0] == ModeStep::PushDs,
        unreal_mode_steps(cr0)[2] == ModeStep::LoadDs(FLAT_DATA_SELECTOR),
        unreal_mode_steps(cr0)[4] == ModeStep::PopDs,
        forall|i: int|
            0 <= i < 5 && (#[trigger] unreal_mode_steps(cr0)[i] is WriteCr0) ==> unreal_mode_steps(
                cr0,
            )[i]->WriteCr0_0 & !CR0_PE == cr0 & !CR0_PE,
        unreal_mode_steps(cr0)[1] matches ModeStep::WriteCr0(v) && v & CR0_PE == CR0_PE,
        unreal_mode_steps(cr0)[3] matches ModeStep::WriteCr0(v) && v & CR0_PE == 0,
{
    lemma_protected_mode_roundtrip(cr0);
    let s = unreal_mode_steps(cr0);
    assert forall|i: int|
        0 <= i < 5 && (#[trigger] s[i] is WriteCr0) implies s[i]->WriteCr0_0 & !CR0_PE == cr0
            & !CR0_PE by {
        if i == 1 {
            assert(s[i]->WriteCr0_0 == cr0 | CR0_PE);
        } else if i == 3 {
            assert(s[i]->WriteCr0_0 == (cr0 | CR0_PE) & !CR0_PE);
            assert(((cr0 | 1) & !1u32) & !1u32 == cr0 & !1u32) by (bit_vector);
        }
    }
}

/// Entering unreal mode from real mode, with a GDT whose flat data entry spans the 32-bit
/// address space, ends in real mode again with CR0, `ds` and the stack as they were, and with
/// the limit of `ds` covering the whole 32-bit address space.
pub proof fn lemma_unreal_mode_entered(
    gdt_limit: spec_fn(u16) -> u32,
    cr0: u32,
    ds: u16,
    ds_limit: u32,
    stack: Seq<u16>,
)
    requires
        gdt_limit(FLAT_DATA_SELECTOR) == FLAT_LIMIT,
        cr0 & CR0_PE == 0,
    ensures
        run_steps(gdt_limit, (cr0, ds, ds_limit, stack), unreal_mode_steps(cr0)) == (
            cr0,
            ds,
            FLAT_LIMIT,
            stack,
        ),
{
    lemma_protected_mode_roundtrip(cr0);
    let st0: SegmentState = (cr0, ds, ds_limit, stack);
    let s1 = seq![ModeStep::PushDs];
    let s2 = s1.push(ModeStep::WriteCr0(cr0 | CR0_PE));
    let s3 = s2.push(ModeStep::LoadDs(FLAT_DATA_SELECTOR));
    let s4 = s3.push(ModeStep::WriteCr0((cr0 | CR0_PE) & !CR0_PE));
    let s5 = s4.push(ModeStep::PopDs);
    assert(s5 =~= unreal_mode_steps(cr0));
    assert(s1.drop_last() =~= Seq::<ModeStep>::empty());
    assert(s2.drop_last() =~= s1);
    assert(s3.drop_last() =~= s2);
    assert(s4.drop_last() =~= s3);
    assert(s5.drop_last() =~= s4);
    assert(run_steps(gdt_limit, st0, Seq::<ModeStep>::empty()) == st0);
    assert(s1.last() == ModeStep::PushDs);
    assert(run_steps(gdt_limit, st0, s1) == (cr0, ds, ds_limit, stack.push(ds)));
    assert(run_steps(gdt_limit, st0, s2) == (cr0 | CR0_PE, ds, ds_limit, stack.push(ds)));
    assert(run_steps(gdt_limit, st0, s3) == (cr0 | CR0_PE, FLAT_DATA_SELECTOR, FLAT_LIMIT, stack.push(ds)));
    assert(run_steps(gdt_limit, st0, s4) == (cr0, FLAT_DATA_SELECTOR, FLAT_LIMIT, stack.push(ds)));
    assert(stack.push(ds).drop_last() =~= stack);
}

} // verus!
