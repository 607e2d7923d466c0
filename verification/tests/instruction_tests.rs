use chip8::cpu::Cpu;
use chip8::cpu::initialize;
use chip8::optcodes::OptCode;
use chip8::optcodes::decode;

fn machine() -> Cpu {
    let mut cpu = initialize();
    cpu.bootup(Vec::new());
    cpu
}

#[test]
fn decoder_is_total() {
    assert!(matches!(decode(0x00E0), OptCode::CLS(0x00E0)));
    assert!(matches!(decode(0x00EE), OptCode::RET(0x00EE)));
    assert!(matches!(decode(0x0123), OptCode::SYS(0x0123)));
    assert!(matches!(decode(0x1ABC), OptCode::JP(0x1ABC)));
    assert!(matches!(decode(0x2ABC), OptCode::CALL(0x2ABC)));
    assert!(matches!(decode(0x3A12), OptCode::SEVxByte(0x3A12)));
    assert!(matches!(decode(0x4A12), OptCode::SNEVxByte(0x4A12)));
    assert!(matches!(decode(0x5AB0), OptCode::SEVxVy(0x5AB0)));
    assert!(matches!(decode(0x6A12), OptCode::LDVxByte(0x6A12)));
    assert!(matches!(decode(0x7A12), OptCode::ADDVxByte(0x7A12)));
    assert!(matches!(decode(0x8AB0), OptCode::LDVxVy(0x8AB0)));
    assert!(matches!(decode(0x8AB1), OptCode::ORVxVy(0x8AB1)));
    assert!(matches!(decode(0x8AB2), OptCode::ANDVxVy(0x8AB2)));
    assert!(matches!(decode(0x8AB3), OptCode::XORVxVy(0x8AB3)));
    assert!(matches!(decode(0x8AB4), OptCode::ADDVxVy(0x8AB4)));
    assert!(matches!(decode(0x8AB5), OptCode::SUBVxVy(0x8AB5)));
    assert!(matches!(decode(0x8AB6), OptCode::SHRVxVy(0x8AB6)));
    assert!(matches!(decode(0x8ABE), OptCode::SHLVxVy(0x8ABE)));
    assert!(matches!(decode(0x8AB7), OptCode::Unknown(0x8AB7)));
    assert!(matches!(decode(0x9AB0), OptCode::SNEVxVy(0x9AB0)));
    assert!(matches!(decode(0xA123), OptCode::LDIAddr(0xA123)));
    assert!(matches!(decode(0xB123), OptCode::Unknown(0xB123)));
    assert!(matches!(decode(0xC123), OptCode::RNDVxByte(0xC123)));
    assert!(matches!(decode(0xD123), OptCode::DRWNibble(0xD123)));
    assert!(matches!(decode(0xEA9E), OptCode::SKPVx(0xEA9E)));
    assert!(matches!(decode(0xEAA1), OptCode::SKNPVx(0xEAA1)));
    assert!(matches!(decode(0xEA00), OptCode::Unknown(0xEA00)));
    assert!(matches!(decode(0xFA07), OptCode::LDVxDT(0xFA07)));
    assert!(matches!(decode(0xFA0A), OptCode::LDVxK(0xFA0A)));
    assert!(matches!(decode(0xFA15), OptCode::LDDTVx(0xFA15)));
    assert!(matches!(decode(0xFA18), OptCode::LDSTVx(0xFA18)));
    assert!(matches!(decode(0xFA1E), OptCode::ADDIVx(0xFA1E)));
    assert!(matches!(decode(0xFA29), OptCode::LDFVx(0xFA29)));
    assert!(matches!(decode(0xFA33), OptCode::LDBVx(0xFA33)));
    assert!(matches!(decode(0xFA55), OptCode::LDIVx(0xFA55)));
    assert!(matches!(decode(0xFA65), OptCode::LDVxI(0xFA65)));
    assert!(matches!(decode(0xFA99), OptCode::Unknown(0xFA99)));
}

#[test]
fn add_with_carry_wraps_and_sets_flag() {
    let mut cpu = machine();
    cpu.v[0] = 0xFF;
    cpu.v[1] = 0x01;
    cpu.add_vx_vy(0x8014);
    assert_eq!(cpu.v[0], 0x00);
    assert_eq!(cpu.v[0xF], 1);
    assert_eq!(cpu.pc, 0x202);
}

#[test]
fn add_without_carry_clears_flag() {
    let mut cpu = machine();
    cpu.v[0] = 2;
    cpu.v[1] = 3;
    cpu.v[0xF] = 1;
    cpu.add_vx_vy(0x8014);
    assert_eq!(cpu.v[0], 5);
    assert_eq!(cpu.v[0xF], 0);
}

#[test]
fn immediate_add_wraps_without_touching_flags() {
    let mut cpu = machine();
    cpu.v[0] = 0xFF;
    cpu.v[0xF] = 7;
    cpu.add_vx_byte(0x7001);
    assert_eq!(cpu.v[0], 0x00);
    assert_eq!(cpu.v[0xF], 7);
}

#[test]
fn sub_with_borrow_wraps_and_clears_flag() {
    let mut cpu = machine();
    cpu.v[0] = 0x05;
    cpu.v[1] = 0x0A;
    cpu.sub_vx_vy(0x8015);
    assert_eq!(cpu.v[0], 0xFB);
    assert_eq!(cpu.v[0xF], 0);
}

#[test]
fn sub_without_borrow_sets_flag() {
    let mut cpu = machine();
    cpu.v[0] = 0x0A;
    cpu.v[1] = 0x05;
    cpu.sub_vx_vy(0x8015);
    assert_eq!(cpu.v[0], 0x05);
    assert_eq!(cpu.v[0xF], 1);
}

#[test]
fn shift_flags_come_from_the_post_shift_high_bit() {
    let mut cpu = machine();
    cpu.v[2] = 0x40;
    cpu.shl_vx_vy(0x82FE);
    assert_eq!(cpu.v[2], 0x80);
    assert_eq!(cpu.v[0xF], 1);

    cpu.v[3] = 0xFF;
    cpu.shr_vx_vy(0x83F6);
    assert_eq!(cpu.v[3], 0x7F);
    // the flag follows the shifted value's high bit, not the bit
    // shifted out
    assert_eq!(cpu.v[0xF], 0);
}

#[test]
fn bitwise_ops_store_into_vx() {
    let mut cpu = machine();
    cpu.v[4] = 0b1100;
    cpu.v[5] = 0b1010;
    cpu.or_vx_vy(0x8451);
    assert_eq!(cpu.v[4], 0b1110);
    cpu.v[4] = 0b1100;
    cpu.and_vx_vy(0x8452);
    assert_eq!(cpu.v[4], 0b1000);
    cpu.v[4] = 0b1100;
    cpu.xor_vx_vy(0x8453);
    assert_eq!(cpu.v[4], 0b0110);
}

#[test]
fn register_transfers() {
    let mut cpu = machine();
    cpu.ld_vx_byte(0x6A5C);
    assert_eq!(cpu.v[0xA], 0x5C);
    cpu.ld_vx_vy(0x80A0);
    assert_eq!(cpu.v[0], 0x5C);
    cpu.ld_i_addr(0xA123);
    assert_eq!(cpu.i, 0x123);
}

#[test]
fn skips_follow_the_shared_convention() {
    let mut cpu = machine();
    cpu.v[0] = 9;
    cpu.se_vx_byte(0x3009);
    assert_eq!(cpu.pc, 0x204);
    cpu.se_vx_byte(0x3008);
    assert_eq!(cpu.pc, 0x206);
    cpu.sne_vx_byte(0x4008);
    assert_eq!(cpu.pc, 0x20A);
    cpu.v[1] = 9;
    cpu.se_vx_vy(0x5010);
    assert_eq!(cpu.pc, 0x20E);
    cpu.sne_vx_vy(0x9010);
    assert_eq!(cpu.pc, 0x210);
}

#[test]
fn call_and_ret_round_trip() {
    let mut cpu = machine();
    cpu.call(0x2ABC);
    assert_eq!(cpu.pc, 0xABC);
    assert_eq!(cpu.sp, 1);
    assert_eq!(cpu.stack[0], 0x200);
    cpu.ret();
    assert_eq!(cpu.pc, 0x202);
    assert_eq!(cpu.sp, 0);
}

#[test]
fn stack_pointer_wraps_rather_than_trapping() {
    let mut cpu = machine();
    cpu.ret();
    // a pop from an empty stack wraps the pointer to the top
    assert_eq!(cpu.sp, 15);
    let mut cpu2 = machine();
    cpu2.sp = 15;
    cpu2.call(0x2300);
    assert_eq!(cpu2.sp, 0);
    assert_eq!(cpu2.stack[15], 0x200);
}

#[test]
fn sys_is_a_no_op_that_advances() {
    let mut cpu = machine();
    cpu.sys(0x0123);
    assert_eq!(cpu.pc, 0x202);
    assert!(!cpu.quit);
}

#[test]
fn jump_assigns_the_counter() {
    let mut cpu = machine();
    cpu.jp(0x1F00);
    assert_eq!(cpu.pc, 0xF00);
}

#[test]
fn font_address_is_five_times_the_digit() {
    for d in 0..16u8 {
        let mut cpu = machine();
        cpu.v[7] = d;
        cpu.ld_f_vx(0xF729);
        assert_eq!(cpu.i, d as usize * 5);
    }
}

#[test]
fn bcd_of_255_is_2_5_5() {
    let mut cpu = machine();
    cpu.v[3] = 255;
    cpu.i = 0x300;
    cpu.ld_b_vx(0xF333);
    assert_eq!(cpu.memory[0x300], 2);
    assert_eq!(cpu.memory[0x301], 5);
    assert_eq!(cpu.memory[0x302], 5);
    assert_eq!(cpu.pc, 0x202);
}

#[test]
fn bcd_of_a_small_value() {
    let mut cpu = machine();
    cpu.v[3] = 42;
    cpu.i = 0x300;
    cpu.ld_b_vx(0xF333);
    assert_eq!(cpu.memory[0x300], 0);
    assert_eq!(cpu.memory[0x301], 4);
    assert_eq!(cpu.memory[0x302], 2);
}

#[test]
fn bcd_out_of_memory_is_fatal() {
    let mut cpu = machine();
    cpu.i = 4094;
    cpu.ld_b_vx(0xF033);
    assert!(cpu.quit);
    assert_eq!(cpu.pc, 0x200);
}

#[test]
fn store_and_load_registers_round_trip() {
    let mut cpu = machine();
    for k in 0..6u8 {
        cpu.v[k as usize] = 10 + k;
    }
    cpu.i = 0x400;
    cpu.ld_i_vx(0xF555);
    for k in 0..6usize {
        assert_eq!(cpu.memory[0x400 + k], 10 + k as u8);
    }
    assert_eq!(cpu.memory[0x406], 0);

    let mut cpu2 = machine();
    cpu2.memory[0x400..0x406].copy_from_slice(&[10, 11, 12, 13, 14, 15]);
    cpu2.i = 0x400;
    cpu2.v[6] = 99;
    cpu2.ld_vx_i(0xF565);
    for k in 0..6usize {
        assert_eq!(cpu2.v[k], 10 + k as u8);
    }
    assert_eq!(cpu2.v[6], 99);
}

#[test]
fn block_transfer_out_of_memory_is_fatal() {
    let mut cpu = machine();
    cpu.i = 4093;
    cpu.ld_i_vx(0xF555);
    assert!(cpu.quit);
    assert_eq!(cpu.pc, 0x200);
    let mut cpu2 = machine();
    cpu2.i = 4093;
    cpu2.ld_vx_i(0xF565);
    assert!(cpu2.quit);
}

#[test]
fn add_to_index_accumulates() {
    let mut cpu = machine();
    cpu.i = 0x100;
    cpu.v[2] = 0x30;
    cpu.add_i_vx(0xF21E);
    assert_eq!(cpu.i, 0x130);
    // no flag is set, unlike the register addition
    assert_eq!(cpu.v[0xF], 0);
}

#[test]
fn timer_transfer_instructions() {
    let mut cpu = machine();
    cpu.v[1] = 77;
    cpu.ld_dt_vx(0xF115);
    assert_eq!(cpu.delay_timer, 77);
    cpu.ld_st_vx(0xF118);
    assert_eq!(cpu.sound_timer, 77);
    cpu.delay_timer = 33;
    cpu.ld_vx_dt(0xF207);
    assert_eq!(cpu.v[2], 33);
}

#[test]
fn random_mask_of_zero_forces_zero() {
    let mut cpu = machine();
    cpu.v[0] = 0xAA;
    cpu.rnd_vx_byte(0xC000);
    assert_eq!(cpu.v[0], 0);
    assert_eq!(cpu.pc, 0x202);
}

#[test]
fn random_byte_stays_under_255() {
    // the generator's uniform range covers 0-254 inclusive, never 255
    for _ in 0..200 {
        let mut cpu = machine();
        cpu.rnd_vx_byte(0xC0FF);
        assert!(cpu.v[0] < 255);
    }
}

#[test]
fn random_with_fixed_byte_applies_the_mask() {
    let mut cpu = machine();
    cpu.rnd_vx_byte_with(0xC30F, 0xAB);
    assert_eq!(cpu.v[3], 0x0B);
}

#[test]
fn key_skips_read_the_snapshot() {
    let mut cpu = machine();
    cpu.v[0] = 4;
    cpu.set_key(4, true);
    cpu.skp_vx(0xE09E);
    assert_eq!(cpu.pc, 0x204);
    cpu.sknp_vx(0xE0A1);
    assert_eq!(cpu.pc, 0x206);
    cpu.clear_keyboard();
    cpu.skp_vx(0xE09E);
    assert_eq!(cpu.pc, 0x208);
    cpu.sknp_vx(0xE0A1);
    assert_eq!(cpu.pc, 0x20C);
}

#[test]
fn key_skip_on_a_register_that_names_no_key_is_fatal() {
    let mut cpu = machine();
    cpu.v[0] = 20;
    cpu.skp_vx(0xE09E);
    assert!(cpu.quit);
    assert_eq!(cpu.pc, 0x200);
}

#[test]
fn unknown_instruction_halts() {
    let mut cpu = machine();
    cpu.none(0x8AB7);
    assert!(cpu.quit);
    assert_eq!(cpu.pc, 0x200);
}
