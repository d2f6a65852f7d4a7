use win16emu::api_helpers::ReturnValue;
use win16emu::emulated_gdi::EmulatedGdi;
use win16emu::emulated_kernel::EmulatedKernel;
use win16emu::emulated_keyboard::EmulatedKeyboard;
use win16emu::emulated_user::EmulatedUser;
use win16emu::emulator::Emulator;
use win16emu::emulator_error::EmulatorError;
use win16emu::memory::{Memory, SegmentAndOffset};
use win16emu::object_environment::ObjectEnvironment;
use win16emu::registers::Registers;
use win16emu::window_manager::WindowManager;

/// A machine with `code` at 0:0, data and stack segment 0x100.
fn machine_with_code(code: &[u8]) -> Emulator {
    let mut memory = Memory::new();
    memory.copy_from(code, 0).unwrap();
    Emulator::new(
        memory,
        0x100,
        0,
        0,
        EmulatedKernel::new(),
        EmulatedUser::new(SegmentAndOffset { segment: 0, offset: 0 }),
        EmulatedGdi::new(),
        EmulatedKeyboard::new(),
        ObjectEnvironment::new(WindowManager::new()),
    )
}

fn ax(e: &Emulator) -> u16 {
    e.accessor().regs.read_gpr_16(Registers::REG_AX)
}

#[test]
fn mov_immediates_into_registers() {
    // mov ax, 0x1234; mov al, 0x56; mov ah, 0x78
    let mut e = machine_with_code(&[0xB8, 0x34, 0x12, 0xB0, 0x56, 0xB4, 0x78]);
    e.step().unwrap();
    assert_eq!(ax(&e), 0x1234);
    e.step().unwrap();
    assert_eq!(ax(&e), 0x1256);
    e.step().unwrap();
    assert_eq!(ax(&e), 0x7856);
    assert_eq!(e.accessor().regs.ip(), 7);
}

#[test]
fn push_then_pop_restores_value_and_stack_pointer() {
    // mov ax, 0xBEEF; push ax; mov ax, 0; pop si
    let mut e = machine_with_code(&[0xB8, 0xEF, 0xBE, 0x50, 0xB8, 0x00, 0x00, 0x5E]);
    let sp = e.accessor().regs.read_gpr_16(Registers::REG_SP);
    e.step().unwrap();
    e.step().unwrap();
    assert_eq!(e.accessor().regs.read_gpr_16(Registers::REG_SP), sp - 2);
    e.step().unwrap();
    e.step().unwrap();
    assert_eq!(e.accessor().regs.read_gpr_16(Registers::REG_SI), 0xBEEF);
    assert_eq!(e.accessor().regs.read_gpr_16(Registers::REG_SP), sp);
}

#[test]
fn far_call_then_far_return() {
    // 0:0 call far 0:0x10 ; at 0:0x10 retf
    let mut code = vec![0x9A, 0x10, 0x00, 0x00, 0x00];
    code.resize(0x10, 0x90);
    code.push(0xCB);
    let mut e = machine_with_code(&code);
    let sp = e.accessor().regs.read_gpr_16(Registers::REG_SP);
    e.step().unwrap();
    assert_eq!(e.accessor().regs.ip(), 0x10);
    assert_eq!(e.accessor().regs.read_gpr_16(Registers::REG_SP), sp - 4);
    e.step().unwrap();
    assert_eq!(e.accessor().regs.ip(), 5);
    assert_eq!(e.accessor().regs.read_segment(Registers::REG_CS), 0);
    assert_eq!(e.accessor().regs.read_gpr_16(Registers::REG_SP), sp);
}

#[test]
fn near_call_then_return_with_pop() {
    // call +3 ; nop nop nop ; ret 2 (after a push)
    let mut e = machine_with_code(&[0x6A, 0x07, 0xE8, 0x01, 0x00, 0x90, 0xC2, 0x02, 0x00]);
    let sp = e.accessor().regs.read_gpr_16(Registers::REG_SP);
    e.step().unwrap(); // push 7
    e.step().unwrap(); // call
    assert_eq!(e.accessor().regs.ip(), 6);
    e.step().unwrap(); // ret 2
    assert_eq!(e.accessor().regs.ip(), 5);
    assert_eq!(e.accessor().regs.read_gpr_16(Registers::REG_SP), sp);
}

#[test]
fn add_register_to_register_sets_zero_flag() {
    // mov ax, 0xFFFF; mov cx, 1 (via B9); add cx, ax (01 C1)
    let mut e = machine_with_code(&[0xB8, 0xFF, 0xFF, 0xB9, 0x01, 0x00, 0x01, 0xC1]);
    e.step().unwrap();
    e.step().unwrap();
    e.step().unwrap();
    assert_eq!(e.accessor().regs.read_gpr_16(Registers::REG_CX), 0);
    assert!(e.accessor().regs.flag_zero());
    assert!(e.accessor().regs.flag_carry());
}

#[test]
fn compare_and_conditional_jump() {
    // mov ax, 5; cmp ax, 5; jz +2; mov ax, 1; (target) nop
    let mut e = machine_with_code(&[0xB8, 0x05, 0x00, 0x3D, 0x05, 0x00, 0x74, 0x03, 0xB8, 0x01, 0x00, 0x90]);
    e.step().unwrap();
    e.step().unwrap();
    assert!(e.accessor().regs.flag_zero());
    e.step().unwrap();
    assert_eq!(e.accessor().regs.ip(), 11);
    assert_eq!(ax(&e), 5);
}

#[test]
fn xor_register_with_itself_is_zero() {
    // mov ax, 0x1234; xor ax, ax (33 C0)
    let mut e = machine_with_code(&[0xB8, 0x34, 0x12, 0x33, 0xC0]);
    e.step().unwrap();
    e.step().unwrap();
    assert_eq!(ax(&e), 0);
    assert!(e.accessor().regs.flag_zero());
}

#[test]
fn memory_operand_through_data_segment() {
    // mov ax, 0xABCD; mov [0x20], ax (A3); mov bx, 0x20 (via C7 C3 imm? use 8B) ; mov cx, [0x20] (8B 0E 20 00)
    let mut e = machine_with_code(&[0xB8, 0xCD, 0xAB, 0xA3, 0x20, 0x00, 0x8B, 0x0E, 0x20, 0x00]);
    e.step().unwrap();
    e.step().unwrap();
    assert_eq!(e.accessor().memory.read_u16(0x1000 + 0x20).unwrap(), 0xABCD);
    e.step().unwrap();
    assert_eq!(e.accessor().regs.read_gpr_16(Registers::REG_CX), 0xABCD);
}

#[test]
fn lea_computes_offset_without_reading() {
    // mov bx, ... via B8? use lea si, [bx+si+0x10] with zero regs: 8D 70 10
    let mut e = machine_with_code(&[0x8D, 0x70, 0x10]);
    e.step().unwrap();
    assert_eq!(e.accessor().regs.read_gpr_16(Registers::REG_SI), 0x10);
}

#[test]
fn cwd_copies_sign_bit() {
    // mov ax, 0x8000; cwd
    let mut e = machine_with_code(&[0xB8, 0x00, 0x80, 0x99]);
    e.step().unwrap();
    e.step().unwrap();
    assert_eq!(e.accessor().regs.read_gpr_16(Registers::REG_DX), 1);
}

#[test]
fn unknown_opcode_is_invalid() {
    let mut e = machine_with_code(&[0x0F]);
    assert_eq!(e.step(), Err(EmulatorError::InvalidOpcode));
}

#[test]
fn string_store_is_unsupported() {
    let mut e = machine_with_code(&[0xAA]);
    assert_eq!(e.step(), Err(EmulatorError::Unsupported));
}

#[test]
fn dos_version_query() {
    // mov ah, 0x30; int 0x21
    let mut e = machine_with_code(&[0xB4, 0x30, 0xCD, 0x21]);
    e.step().unwrap();
    e.step().unwrap();
    // MS-DOS 5.0: AL holds the major version, AH the minor
    assert_eq!(ax(&e), 0x0005);
    assert_eq!(e.accessor().regs.read_gpr_8(Registers::REG_AL), 5);
    assert_eq!(e.accessor().regs.read_gpr_8(4), 0);
}

#[test]
fn dos_exit() {
    // mov ah, 0x4C; int 0x21
    let mut e = machine_with_code(&[0xB4, 0x4C, 0xCD, 0x21]);
    e.step().unwrap();
    assert_eq!(e.step(), Err(EmulatorError::Exit));
}

#[test]
fn other_interrupt_exits() {
    let mut e = machine_with_code(&[0xCD, 0x10]);
    assert_eq!(e.step(), Err(EmulatorError::Exit));
}

#[test]
fn kernel_get_version_through_interrupt() {
    // mov ax, 3; int 0xFF
    let mut e = machine_with_code(&[0xB8, 0x03, 0x00, 0xCD, 0xFF]);
    e.step().unwrap();
    e.step().unwrap();
    assert_eq!(ax(&e), 0x0A03);
}

#[test]
fn kernel_get_winflags_in_dx_ax() {
    // mov ax, 132; int 0xFF
    let mut e = machine_with_code(&[0xB8, 132, 0x00, 0xCD, 0xFF]);
    e.step().unwrap();
    e.step().unwrap();
    assert_eq!(ax(&e), 0x0421);
    assert_eq!(e.accessor().regs.read_gpr_16(Registers::REG_DX), 0);
}

#[test]
fn keyboard_calls_are_unsupported() {
    let mut e = machine_with_code(&[0xB8, 0x01, 0x00, 0xCD, 0xFC]);
    e.step().unwrap();
    assert_eq!(e.step(), Err(EmulatorError::Unsupported));
}

#[test]
fn unknown_kernel_call_is_unsupported() {
    let mut e = machine_with_code(&[0xB8, 0xE7, 0x03, 0xCD, 0xFF]);
    e.step().unwrap();
    assert_eq!(e.step(), Err(EmulatorError::Unsupported));
}

#[test]
fn delivery_of_each_return_value_kind() {
    let mut e = machine_with_code(&[0x90]);
    e.deliver_return_value(ReturnValue::U16(7)).unwrap();
    assert_eq!(ax(&e), 7);
    e.deliver_return_value(ReturnValue::U32(0x0001_0002)).unwrap();
    assert_eq!(ax(&e), 2);
    assert_eq!(e.accessor().regs.read_gpr_16(Registers::REG_DX), 1);
    // No procedure call was set up: the delayed word goes to AX too
    e.deliver_return_value(ReturnValue::DelayedU16(9)).unwrap();
    assert_eq!(ax(&e), 9);
    e.deliver_return_value(ReturnValue::Empty).unwrap();
    assert_eq!(ax(&e), 9);
}

#[test]
fn instruction_fetch_outside_memory() {
    let mut memory = Memory::new();
    memory.copy_from(&[0x90], 0).unwrap();
    let mut e = Emulator::new(
        memory,
        0x100,
        0xFFFF,
        0xFFFF,
        EmulatedKernel::new(),
        EmulatedUser::new(SegmentAndOffset { segment: 0, offset: 0 }),
        EmulatedGdi::new(),
        EmulatedKeyboard::new(),
        ObjectEnvironment::new(WindowManager::new()),
    );
    assert_eq!(e.step(), Err(EmulatorError::OutOfBounds));
}

#[test]
fn read_immediates() {
    let mut e = machine_with_code(&[0xFE, 0x34, 0x12, 0x80, 0x7F]);
    assert_eq!(e.read_ip_u8(), Ok(0xFE));
    assert_eq!(e.read_ip_u16(), Ok(0x1234));
    assert_eq!(e.read_ip_i8(), Ok(-128));
    assert_eq!(e.read_ip_u_generic::<8>(), Ok(0x7F));
    assert_eq!(e.read_ip_u_generic::<32>(), Err(EmulatorError::OutOfBounds));
}
