use bootloader::modes::{
    enter_long_mode, enter_protected_mode, enter_unreal_mode, exit_long_mode,
    exit_protected_mode, ControlRegisters, ModeStep, FLAT_DATA_SELECTOR,
};
use bootloader::typestate::{self, RealMode};

#[test]
fn protected_mode_sets_and_clears_pe() {
    assert_eq!(enter_protected_mode(0x6000_0010), 0x6000_0011);
    assert_eq!(exit_protected_mode(0x6000_0011), 0x6000_0010);
    assert_eq!(enter_protected_mode(0x11), 0x11);
    assert_eq!(exit_protected_mode(0x10), 0x10);
}

#[test]
fn protected_mode_roundtrip_restores_cr0() {
    for cr0 in [0u32, 0x10, 0x6000_0010, 0xFFFF_FFFE] {
        assert_eq!(exit_protected_mode(enter_protected_mode(cr0)), cr0);
    }
}

#[test]
fn long_mode_sets_the_four_bits() {
    let regs = ControlRegisters { cr0: 0x10, cr4: 0x0, efer: 0x0 };
    let long = enter_long_mode(regs);
    assert_eq!(long, ControlRegisters { cr0: 0x8000_0011, cr4: 0x20, efer: 0x100 });
    assert_eq!(exit_long_mode(long), regs);
}

#[test]
fn exit_long_mode_clears_only_its_bits() {
    let regs = ControlRegisters { cr0: 0xFFFF_FFFF, cr4: 0xFF, efer: 0xD01 };
    assert_eq!(
        exit_long_mode(regs),
        ControlRegisters { cr0: 0x7FFF_FFFE, cr4: 0xDF, efer: 0xC01 }
    );
}

#[test]
fn typestate_long_mode_functions_agree() {
    let regs = ControlRegisters { cr0: 0x10, cr4: 0x1, efer: 0x1 };
    assert_eq!(typestate::enter_long_mode(regs), enter_long_mode(regs));
    assert_eq!(typestate::exit_long_mode(regs), exit_long_mode(regs));
}

#[test]
fn unreal_mode_steps() {
    assert_eq!(
        enter_unreal_mode(0x10),
        vec![
            ModeStep::PushDs,
            ModeStep::WriteCr0(0x11),
            ModeStep::LoadDs(FLAT_DATA_SELECTOR),
            ModeStep::WriteCr0(0x10),
            ModeStep::PopDs,
        ]
    );
    assert_eq!(FLAT_DATA_SELECTOR >> 3, 2);
}

#[test]
fn mode_tokens_track_cr0() {
    let real = RealMode::begin(0x10);
    assert_eq!(real.cr0(), 0x10);
    let prot = real.enter_protected_mode();
    assert_eq!(prot.cr0(), 0x11);
    let real = prot.enter_real_mode();
    assert_eq!(real.cr0(), 0x10);
    let (unreal, steps) = real.enter_unreal_mode();
    assert_eq!(unreal.cr0(), 0x10);
    assert_eq!(steps, enter_unreal_mode(0x10));
    let prot = unreal.enter_protected_mode();
    assert_eq!(prot.cr0(), 0x11);
    let unreal = prot.enter_unreal_mode();
    assert_eq!(unreal.cr0(), 0x10);
    // Both real and unreal mode tokens reach the BIOS.
    let _writer = unreal.writer();
}
