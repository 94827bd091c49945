use my_os::interrupts::{
    end_of_interrupt, init_idt, EndOfInterrupt, HandlerKind, InterruptIndex,
    DOUBLE_FAULT_IST_INDEX, PIC_1_OFFSET, PIC_2_OFFSET,
};
use my_os::qemu::{exit_status, QemuExitCode};

#[test]
fn interrupt_vectors_sit_above_the_exceptions() {
    assert_eq!(PIC_1_OFFSET, 32);
    assert_eq!(PIC_2_OFFSET, 40);
    assert_eq!(InterruptIndex::Timer.as_u8(), 32);
    assert_eq!(InterruptIndex::Keyboard.as_u8(), 33);
    assert_eq!(InterruptIndex::Timer.as_usize(), 32);
    assert_eq!(InterruptIndex::Keyboard.as_usize(), 33);
}

#[test]
fn idt_carries_the_kernel_handlers() {
    let idt = init_idt();
    assert_eq!(idt.entry_at(3).handler, HandlerKind::Breakpoint);
    assert_eq!(idt.entry_at(14).handler, HandlerKind::PageFault);
    let double_fault = idt.entry_at(8);
    assert_eq!(double_fault.handler, HandlerKind::DoubleFault);
    // the double fault handler runs on its dedicated known-good stack
    assert_eq!(double_fault.stack_index, Some(DOUBLE_FAULT_IST_INDEX));
    assert_eq!(idt.entry_at(InterruptIndex::Timer.as_u8()).handler, HandlerKind::Timer);
    assert_eq!(idt.entry_at(InterruptIndex::Keyboard.as_u8()).handler,
        HandlerKind::Keyboard);
}

#[test]
fn idt_leaves_other_vectors_unset() {
    let idt = init_idt();
    for v in [0u8, 1, 2, 4, 7, 13, 31, 34, 48, 200, 255] {
        let entry = idt.entry_at(v);
        assert_eq!(entry.handler, HandlerKind::Unset);
        assert_eq!(entry.stack_index, None);
    }
}

#[test]
fn end_of_interrupt_names_the_owning_controllers() {
    // handled vectors acknowledge their controller; the secondary is
    // chained, so its vectors acknowledge both
    assert_eq!(end_of_interrupt(32), EndOfInterrupt::Primary);
    assert_eq!(end_of_interrupt(33), EndOfInterrupt::Primary);
    assert_eq!(end_of_interrupt(39), EndOfInterrupt::Primary);
    assert_eq!(end_of_interrupt(40), EndOfInterrupt::Both);
    assert_eq!(end_of_interrupt(47), EndOfInterrupt::Both);
    assert_eq!(end_of_interrupt(31), EndOfInterrupt::Neither);
    assert_eq!(end_of_interrupt(48), EndOfInterrupt::Neither);
    assert_eq!(end_of_interrupt(3), EndOfInterrupt::Neither);
}

#[test]
fn qemu_exit_codes_and_status() {
    assert_eq!(QemuExitCode::Success.as_u32(), 0x10);
    assert_eq!(QemuExitCode::Failed.as_u32(), 0x11);
    // the device reports (value << 1) | 1
    assert_eq!(exit_status(QemuExitCode::Success), 0x21);
    assert_eq!(exit_status(QemuExitCode::Failed), 0x23);
}
