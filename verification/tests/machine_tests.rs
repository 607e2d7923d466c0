use chip8::cpu::initialize;
use chip8::log_level;

#[test]
fn startup_state_is_zeroed() {
    let cpu = initialize();
    assert_eq!(cpu.pc, 0x200);
    assert_eq!(cpu.i, 0);
    assert_eq!(cpu.sp, 0);
    assert_eq!(cpu.delay_timer, 0);
    assert_eq!(cpu.sound_timer, 0);
    assert!(!cpu.quit);
    assert!(cpu.display_redraw);
    assert!(cpu.v.iter().all(|&r| r == 0));
    assert!(cpu.memory.iter().all(|&b| b == 0));
    assert!(cpu.stack.iter().all(|&s| s == 0));
    assert!(cpu.display.iter().all(|&d| d == 0));
    assert!(cpu.keyboard.iter().all(|&k| !k));
}

#[test]
fn bootup_loads_font_and_program() {
    let mut cpu = initialize();
    cpu.bootup(vec![0x12, 0x34, 0x56]);
    // the first glyph (digit 0) and the last glyph (digit F)
    assert_eq!(&cpu.memory[0..5], &[0xF0, 0x90, 0x90, 0x90, 0xF0]);
    assert_eq!(&cpu.memory[75..80], &[0xF0, 0x80, 0xF0, 0x80, 0x80]);
    // the program image at its fixed start
    assert_eq!(&cpu.memory[0x200..0x203], &[0x12, 0x34, 0x56]);
    assert_eq!(cpu.memory[0x203], 0);
    // memory between font and program stays zero
    assert!(cpu.memory[80..0x200].iter().all(|&b| b == 0));
    assert_eq!(cpu.pc, 0x200);
}

#[test]
fn bootup_empty_program() {
    let mut cpu = initialize();
    cpu.bootup(Vec::new());
    assert_eq!(&cpu.memory[0..5], &[0xF0, 0x90, 0x90, 0x90, 0xF0]);
    assert!(cpu.memory[0x200..].iter().all(|&b| b == 0));
}

#[test]
fn bootup_accepts_largest_program() {
    let mut cpu = initialize();
    let program = vec![0xAB; 4096 - 0x200];
    cpu.bootup(program);
    assert_eq!(cpu.memory[0x200], 0xAB);
    assert_eq!(cpu.memory[4095], 0xAB);
}

#[test]
fn timers_count_down_and_stop_at_zero() {
    let mut cpu = initialize();
    cpu.delay_timer = 2;
    cpu.sound_timer = 1;
    let sound_on = cpu.timer_tick();
    assert_eq!(cpu.delay_timer, 1);
    assert_eq!(cpu.sound_timer, 0);
    assert!(!sound_on);
    // further iterations never push a timer below zero
    for _ in 0..10 {
        cpu.timer_tick();
        assert!(cpu.delay_timer <= 1);
        assert_eq!(cpu.sound_timer, 0);
    }
    assert_eq!(cpu.delay_timer, 0);
}

#[test]
fn sound_plays_while_sound_timer_runs() {
    let mut cpu = initialize();
    cpu.sound_timer = 2;
    assert!(cpu.timer_tick());
    assert!(!cpu.timer_tick());
}

#[test]
fn keyboard_set_and_clear() {
    let mut cpu = initialize();
    cpu.set_key(0xA, true);
    assert!(cpu.keyboard[0xA]);
    cpu.clear_keyboard();
    assert!(cpu.keyboard.iter().all(|&k| !k));
}

#[test]
fn request_quit_halts() {
    let mut cpu = initialize();
    cpu.request_quit();
    assert!(cpu.quit);
}

#[test]
fn dump_display_renders_rows() {
    let mut cpu = initialize();
    cpu.display[0] = 1;
    cpu.display[1 * 64 + 63] = 1;
    let text = cpu.dump_display();
    assert_eq!(text.len(), 32 * 65);
    assert_eq!(text[0], b'1');
    assert_eq!(text[1], b'0');
    assert_eq!(text[64], b'\n');
    assert_eq!(text[1 * 65 + 63], b'1');
    assert_eq!(text[31 * 65 + 64], b'\n');
}

#[test]
fn log_level_names_each_count() {
    assert_eq!(log_level(0), "none");
    assert_eq!(log_level(1), "error");
    assert_eq!(log_level(2), "warn");
    assert_eq!(log_level(3), "info");
    assert_eq!(log_level(4), "debug");
    assert_eq!(log_level(5), "trace");
    // saturates at the most verbose level
    assert_eq!(log_level(6), "trace");
    assert_eq!(log_level(100), "trace");
}
