use chip8::cpu::initialize;

#[test]
fn clear_display_program_runs_one_cycle() {
    let mut cpu = initialize();
    cpu.bootup(vec![0x00, 0xE0]);
    cpu.display[100] = 1;
    cpu.display_redraw = false;
    cpu.step();
    assert!(cpu.display.iter().all(|&d| d == 0));
    assert_eq!(cpu.pc, 0x202);
    assert!(cpu.display_redraw);
    assert!(!cpu.quit);
}

#[test]
fn sprite_wraps_around_the_right_edge() {
    let mut cpu = initialize();
    cpu.bootup(Vec::new());
    cpu.memory[0x300] = 0xFF;
    cpu.i = 0x300;
    cpu.v[0] = 60;
    cpu.v[1] = 0;
    cpu.drw_vx_vy_nibble(0xD011);
    // columns 60-63 of row 0, then wrapped onto columns 0-3
    for c in 60..64usize {
        assert_eq!(cpu.display[c], 1);
    }
    for c in 0..4usize {
        assert_eq!(cpu.display[c], 1);
    }
    for c in 4..60usize {
        assert_eq!(cpu.display[c], 0);
    }
    assert!(cpu.display[64..].iter().all(|&d| d == 0));
    assert_eq!(cpu.v[0xF], 0);
    assert!(cpu.display_redraw);
}

#[test]
fn sprite_wraps_around_the_bottom_edge() {
    let mut cpu = initialize();
    cpu.bootup(Vec::new());
    cpu.memory[0x300] = 0x80;
    cpu.memory[0x301] = 0x80;
    cpu.i = 0x300;
    cpu.v[0] = 0;
    cpu.v[1] = 31;
    cpu.drw_vx_vy_nibble(0xD012);
    assert_eq!(cpu.display[31 * 64], 1);
    assert_eq!(cpu.display[0], 1);
}

#[test]
fn drawing_twice_restores_the_display_and_reports_the_collision() {
    let mut cpu = initialize();
    cpu.bootup(Vec::new());
    cpu.memory[0x300] = 0xA5;
    cpu.memory[0x301] = 0x3C;
    cpu.i = 0x300;
    cpu.v[0] = 10;
    cpu.v[1] = 5;
    cpu.drw_vx_vy_nibble(0xD012);
    assert_eq!(cpu.v[0xF], 0);
    assert!(cpu.display.iter().any(|&d| d == 1));
    cpu.drw_vx_vy_nibble(0xD012);
    // every pixel of the second draw lands on one that the first set
    assert_eq!(cpu.v[0xF], 1);
    assert!(cpu.display.iter().all(|&d| d == 0));
}

#[test]
fn draw_collision_accumulates_previous_pixels() {
    let mut cpu = initialize();
    cpu.bootup(Vec::new());
    cpu.memory[0x300] = 0x80;
    cpu.i = 0x300;
    cpu.display[0] = 1;
    cpu.v[0] = 0;
    cpu.v[1] = 0;
    cpu.drw_vx_vy_nibble(0xD011);
    assert_eq!(cpu.display[0], 0);
    assert_eq!(cpu.v[0xF], 1);
}

#[test]
fn draw_with_sprite_outside_memory_is_fatal() {
    let mut cpu = initialize();
    cpu.bootup(Vec::new());
    cpu.i = 4095;
    cpu.drw_vx_vy_nibble(0xD012);
    assert!(cpu.quit);
    assert_eq!(cpu.pc, 0x200);
}

#[test]
fn draw_of_height_zero_only_clears_the_flag() {
    let mut cpu = initialize();
    cpu.bootup(Vec::new());
    cpu.v[0xF] = 1;
    cpu.drw_vx_vy_nibble(0xD010);
    assert_eq!(cpu.v[0xF], 0);
    assert!(cpu.display.iter().all(|&d| d == 0));
    assert_eq!(cpu.pc, 0x202);
}

#[test]
fn key_wait_blocks_by_re_execution() {
    let mut cpu = initialize();
    cpu.bootup(vec![0xF0, 0x0A]);
    // three iterations with no key down: the counter never moves
    for _ in 0..3 {
        cpu.step();
        assert_eq!(cpu.pc, 0x200);
        assert!(!cpu.quit);
    }
    // the iteration in which a key is down stores it and advances
    cpu.set_key(5, true);
    cpu.step();
    assert_eq!(cpu.pc, 0x202);
    assert_eq!(cpu.v[0], 5);
}

#[test]
fn key_wait_takes_the_highest_pressed_key() {
    let mut cpu = initialize();
    cpu.bootup(vec![0xF2, 0x0A]);
    cpu.set_key(3, true);
    cpu.set_key(9, true);
    cpu.step();
    assert_eq!(cpu.v[2], 9);
    assert_eq!(cpu.pc, 0x202);
}

#[test]
fn a_small_program_runs_to_its_unknown_instruction() {
    // set V0 to 7, add 3, then hit an undefined word
    let mut cpu = initialize();
    cpu.bootup(vec![0x60, 0x07, 0x70, 0x03, 0x8A, 0xB7]);
    cpu.step();
    assert_eq!(cpu.v[0], 7);
    cpu.step();
    assert_eq!(cpu.v[0], 10);
    assert_eq!(cpu.pc, 0x204);
    cpu.step();
    assert!(cpu.quit);
    assert_eq!(cpu.pc, 0x204);
}

#[test]
fn step_at_the_end_of_memory_is_fatal() {
    let mut cpu = initialize();
    cpu.bootup(Vec::new());
    cpu.pc = 4095;
    cpu.step();
    assert!(cpu.quit);
    assert_eq!(cpu.pc, 4095);
}

#[test]
fn a_jump_loop_stays_in_place() {
    let mut cpu = initialize();
    cpu.bootup(vec![0x12, 0x00]);
    for _ in 0..5 {
        cpu.step();
        assert_eq!(cpu.pc, 0x200);
        assert!(!cpu.quit);
    }
}

#[test]
fn call_and_return_through_the_decoder() {
    // call a routine at 0x204 that sets V1 and returns; execution
    // resumes two past the call site
    let mut cpu = initialize();
    cpu.bootup(vec![0x22, 0x04, 0x8A, 0xB7, 0x61, 0x2A, 0x00, 0xEE]);
    cpu.step();
    assert_eq!(cpu.pc, 0x204);
    assert_eq!(cpu.stack[0], 0x200);
    assert_eq!(cpu.sp, 1);
    cpu.step();
    assert_eq!(cpu.v[1], 0x2A);
    cpu.step();
    assert_eq!(cpu.pc, 0x202);
    assert_eq!(cpu.sp, 0);
    assert!(!cpu.quit);
}

#[test]
fn random_instruction_through_the_decoder() {
    let mut cpu = initialize();
    cpu.bootup(vec![0xC0, 0x0F]);
    cpu.step();
    assert!(cpu.v[0] <= 0x0F);
    assert_eq!(cpu.pc, 0x202);
}

#[test]
fn skip_program_advances_by_four() {
    // V0 starts at 0, so skip-if-equal-to-0 jumps over the halt word
    let mut cpu = initialize();
    cpu.bootup(vec![0x30, 0x00, 0x8A, 0xB7, 0x60, 0x09]);
    cpu.step();
    assert_eq!(cpu.pc, 0x204);
    cpu.step();
    assert_eq!(cpu.v[0], 9);
    assert!(!cpu.quit);
}
