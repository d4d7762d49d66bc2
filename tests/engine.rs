use chip8::cpu::{Cpu, LoadError, MEMORY_SIZE, PROGRAM_START};
use chip8::display::{HEIGHT, WIDTH};

fn run(cpu: &mut Cpu, opcode: u16) {
    cpu.execute_instruction(opcode, 0);
}

#[test]
fn new_machine_state() {
    let cpu = Cpu::new();
    assert_eq!(cpu.program_counter(), 0x200);
    assert_eq!(cpu.index(), 0x200);
    assert_eq!(cpu.stack_depth(), 0);
    assert_eq!(cpu.delay_timer(), 0);
    assert_eq!(cpu.sound_timer(), 0);
    assert_eq!(cpu.memory_at(0), 0xF0);
    assert_eq!(cpu.memory_at(5), 0x20);
    assert_eq!(cpu.memory_at(79), 0x80);
    assert_eq!(cpu.memory_at(80), 0);
    assert_eq!(cpu.memory_at(MEMORY_SIZE - 1), 0);
    for r in 0..16 {
        assert_eq!(cpu.register(r), 0);
    }
    assert!(cpu.display.is_dirty());
}

#[test]
fn load_immediate_sets_register() {
    for nn in 0..=255u16 {
        let mut cpu = Cpu::new();
        run(&mut cpu, 0x6A00 | nn);
        assert_eq!(cpu.register(0xA), nn as u8);
        assert_eq!(cpu.program_counter(), 0x202);
    }
}

#[test]
fn skip_if_equal() {
    let mut cpu = Cpu::new();
    run(&mut cpu, 0x6312);
    run(&mut cpu, 0x3312);
    assert_eq!(cpu.program_counter(), 0x206);
    run(&mut cpu, 0x3313);
    assert_eq!(cpu.program_counter(), 0x208);
}

#[test]
fn skip_if_not_equal() {
    let mut cpu = Cpu::new();
    run(&mut cpu, 0x6312);
    run(&mut cpu, 0x4312);
    assert_eq!(cpu.program_counter(), 0x204);
    run(&mut cpu, 0x4313);
    assert_eq!(cpu.program_counter(), 0x208);
}

#[test]
fn add_immediate_wraps_without_flag() {
    let mut cpu = Cpu::new();
    run(&mut cpu, 0x60FF);
    run(&mut cpu, 0x6F07);
    run(&mut cpu, 0x7002);
    assert_eq!(cpu.register(0), 0x01);
    assert_eq!(cpu.register(0xF), 0x07);
}

#[test]
fn add_with_carry_sets_flag() {
    let mut cpu = Cpu::new();
    run(&mut cpu, 0x61FF);
    run(&mut cpu, 0x6201);
    run(&mut cpu, 0x8124);
    assert_eq!(cpu.register(1), 0x00);
    assert_eq!(cpu.register(0xF), 1);
    run(&mut cpu, 0x6110);
    run(&mut cpu, 0x8124);
    assert_eq!(cpu.register(1), 0x11);
    assert_eq!(cpu.register(0xF), 0);
}

#[test]
fn subtract_with_borrow_flag() {
    let mut cpu = Cpu::new();
    run(&mut cpu, 0x6101);
    run(&mut cpu, 0x6202);
    run(&mut cpu, 0x8125);
    assert_eq!(cpu.register(1), 0xFF);
    assert_eq!(cpu.register(0xF), 0);
    run(&mut cpu, 0x6105);
    run(&mut cpu, 0x8125);
    assert_eq!(cpu.register(1), 0x03);
    assert_eq!(cpu.register(0xF), 1);
}

#[test]
fn copy_and_bitwise_and() {
    let mut cpu = Cpu::new();
    run(&mut cpu, 0x61F0);
    run(&mut cpu, 0x623C);
    run(&mut cpu, 0x8122);
    assert_eq!(cpu.register(1), 0x30);
    run(&mut cpu, 0x8320);
    assert_eq!(cpu.register(3), 0x3C);
    assert_eq!(cpu.program_counter(), 0x208);
}

#[test]
fn bcd_digits() {
    for v in 0..=255u16 {
        let mut cpu = Cpu::new();
        run(&mut cpu, 0xA300);
        run(&mut cpu, 0x6500 | v);
        run(&mut cpu, 0xF533);
        let d0 = cpu.memory_at(0x300) as u16;
        let d1 = cpu.memory_at(0x301) as u16;
        let d2 = cpu.memory_at(0x302) as u16;
        assert_eq!(d0 * 100 + d1 * 10 + d2, v);
        assert!(d0 <= 9 && d1 <= 9 && d2 <= 9);
    }
    let mut cpu = Cpu::new();
    run(&mut cpu, 0xA300);
    run(&mut cpu, 0x65FE);
    run(&mut cpu, 0xF533);
    assert_eq!(
        (cpu.memory_at(0x300), cpu.memory_at(0x301), cpu.memory_at(0x302)),
        (2, 5, 4)
    );
}

#[test]
fn register_block_round_trip() {
    let mut cpu = Cpu::new();
    for r in 0..=5u16 {
        run(&mut cpu, 0x6000 | (r << 8) | (r * 17 + 3));
    }
    run(&mut cpu, 0xA400);
    run(&mut cpu, 0xF555);
    assert_eq!(cpu.index(), 0x406);
    for r in 0..=5usize {
        assert_eq!(cpu.memory_at(0x400 + r), cpu.register(r));
    }
    for r in 0..=5u16 {
        run(&mut cpu, 0x6000 | (r << 8));
    }
    run(&mut cpu, 0xA400);
    run(&mut cpu, 0xF565);
    assert_eq!(cpu.index(), 0x406);
    for r in 0..=5u16 {
        assert_eq!(cpu.register(r as usize), (r * 17 + 3) as u8);
    }
}

#[test]
fn load_registers_leaves_higher_registers() {
    let mut cpu = Cpu::new();
    run(&mut cpu, 0x6977);
    run(&mut cpu, 0xA000);
    run(&mut cpu, 0xF165);
    assert_eq!(cpu.register(0), 0xF0);
    assert_eq!(cpu.register(1), 0x90);
    assert_eq!(cpu.register(9), 0x77);
    assert_eq!(cpu.index(), 2);
}

#[test]
fn store_registers_wraps_at_end_of_memory() {
    let mut cpu = Cpu::new();
    run(&mut cpu, 0x6011);
    run(&mut cpu, 0x6122);
    run(&mut cpu, 0xAFFF);
    run(&mut cpu, 0xF155);
    assert_eq!(cpu.memory_at(0xFFF), 0x11);
    assert_eq!(cpu.memory_at(0x000), 0x22);
    assert_eq!(cpu.index(), 0x1001);
}

#[test]
fn font_address() {
    let mut cpu = Cpu::new();
    run(&mut cpu, 0x640B);
    run(&mut cpu, 0xF429);
    assert_eq!(cpu.index(), 55);
    assert_eq!(cpu.memory_at(55), 0xE0);
}

#[test]
fn timers_set_read_and_tick() {
    let mut cpu = Cpu::new();
    run(&mut cpu, 0x6203);
    run(&mut cpu, 0xF215);
    run(&mut cpu, 0xF218);
    assert_eq!(cpu.delay_timer(), 3);
    assert_eq!(cpu.sound_timer(), 3);
    assert_eq!(cpu.program_counter(), 0x206);
    assert!(!cpu.tick_timers());
    assert!(!cpu.tick_timers());
    assert!(cpu.tick_timers());
    assert!(!cpu.tick_timers());
    assert_eq!(cpu.delay_timer(), 0);
    assert_eq!(cpu.sound_timer(), 0);
    run(&mut cpu, 0x6409);
    run(&mut cpu, 0xF415);
    assert!(!cpu.tick_timers());
    run(&mut cpu, 0xF507);
    assert_eq!(cpu.register(5), 8);
}

#[test]
fn jump_call_and_return() {
    let mut cpu = Cpu::new();
    run(&mut cpu, 0x1ABC);
    assert_eq!(cpu.program_counter(), 0xABC);
    run(&mut cpu, 0x2300);
    assert_eq!(cpu.program_counter(), 0x300);
    assert_eq!(cpu.stack_depth(), 1);
    run(&mut cpu, 0x00EE);
    assert_eq!(cpu.program_counter(), 0xABE);
    assert_eq!(cpu.stack_depth(), 0);
}

#[test]
fn call_with_full_stack_only_advances() {
    let mut cpu = Cpu::new();
    for _ in 0..16 {
        run(&mut cpu, 0x2400);
    }
    assert_eq!(cpu.stack_depth(), 16);
    run(&mut cpu, 0x2600);
    assert_eq!(cpu.stack_depth(), 16);
    assert_eq!(cpu.program_counter(), 0x402);
}

#[test]
fn unrecognized_instructions_advance_by_one() {
    for op in [0x5120u16, 0x8121, 0x8126, 0x9120, 0xB123, 0xE1FF, 0xF10A, 0xF11E, 0x0123] {
        let mut cpu = Cpu::new();
        run(&mut cpu, 0x6155);
        run(&mut cpu, op);
        assert_eq!(cpu.program_counter(), 0x204);
        assert_eq!(cpu.register(1), 0x55);
    }
}

#[test]
fn random_and_masks_with_immediate() {
    let mut cpu = Cpu::new();
    cpu.execute_instruction(0xC30F, 0xAB);
    assert_eq!(cpu.register(3), 0x0B);
    assert_eq!(cpu.program_counter(), 0x202);
    let mut cpu = Cpu::new();
    cpu.load_game(&[0xC3, 0x00, 0xC4, 0xF0]).unwrap();
    cpu.cpu_cycle();
    assert_eq!(cpu.register(3), 0);
    cpu.cpu_cycle();
    assert_eq!(cpu.register(4) & 0x0F, 0);
    assert_eq!(cpu.program_counter(), 0x204);
}

#[test]
fn key_skips() {
    let mut cpu = Cpu::new();
    run(&mut cpu, 0x6207);
    cpu.keypad.set_pressed(7, true);
    run(&mut cpu, 0xE29E);
    assert_eq!(cpu.program_counter(), 0x206);
    run(&mut cpu, 0xE2A1);
    assert_eq!(cpu.program_counter(), 0x208);
    cpu.keypad.set_pressed(7, false);
    run(&mut cpu, 0xE29E);
    assert_eq!(cpu.program_counter(), 0x20A);
    run(&mut cpu, 0xE2A1);
    assert_eq!(cpu.program_counter(), 0x20E);
    run(&mut cpu, 0x6230);
    run(&mut cpu, 0xE29E);
    assert_eq!(cpu.program_counter(), 0x212);
}

#[test]
fn program_runs_then_returns_on_empty_stack() {
    let mut cpu = Cpu::new();
    cpu.load_game(&[0x60, 0x05, 0x70, 0x03, 0x00, 0xEE]).unwrap();
    cpu.step(0);
    cpu.step(0);
    assert_eq!(cpu.register(0), 8);
    cpu.step(0);
    assert_eq!(cpu.register(0), 8);
    assert_eq!(cpu.stack_depth(), 0);
    assert_eq!(cpu.program_counter(), 0x206);
    assert_eq!(cpu.opcode(), 0x00EE);
}

#[test]
fn draw_from_index_lights_top_left_row() {
    let mut cpu = Cpu::new();
    cpu.load_game(&[0xFF]).unwrap();
    run(&mut cpu, 0x6000);
    run(&mut cpu, 0xA200);
    run(&mut cpu, 0xD005);
    for x in 0..8 {
        assert!(cpu.display.pixel(x, 0));
    }
    assert!(!cpu.display.pixel(8, 0));
    assert_eq!(cpu.register(0xF), 0);
    assert!(cpu.display.is_dirty());
    run(&mut cpu, 0xD001);
    assert_eq!(cpu.register(0xF), 1);
    assert!(!cpu.display.pixel(0, 0));
}

#[test]
fn draw_wraps_and_clear_blanks() {
    let mut cpu = Cpu::new();
    run(&mut cpu, 0x6000);
    run(&mut cpu, 0xF029);
    run(&mut cpu, 0x603E);
    run(&mut cpu, 0x611F);
    run(&mut cpu, 0xD011);
    assert!(cpu.display.pixel(62, 31));
    assert!(cpu.display.pixel(63, 31));
    assert!(cpu.display.pixel(0, 31));
    assert!(cpu.display.pixel(1, 31));
    cpu.display.mark_presented();
    run(&mut cpu, 0x00E0);
    assert!(cpu.display.is_dirty());
    for y in 0..HEIGHT {
        for x in 0..WIDTH {
            assert!(!cpu.display.pixel(x, y));
        }
    }
}

#[test]
fn load_game_rejects_oversized_program() {
    let mut cpu = Cpu::new();
    let big = vec![1u8; MEMORY_SIZE - PROGRAM_START + 1];
    assert_eq!(cpu.load_game(&big), Err(LoadError::TooLarge));
    assert_eq!(cpu.memory_at(PROGRAM_START), 0);
    let fits = vec![7u8; MEMORY_SIZE - PROGRAM_START];
    assert_eq!(cpu.load_game(&fits), Ok(()));
    assert_eq!(cpu.memory_at(PROGRAM_START), 7);
    assert_eq!(cpu.memory_at(MEMORY_SIZE - 1), 7);
}

#[test]
fn fetch_is_big_endian() {
    let mut cpu = Cpu::new();
    cpu.load_game(&[0x12, 0x34]).unwrap();
    cpu.fetch_opcode();
    assert_eq!(cpu.opcode(), 0x1234);
    cpu.execute_opcode();
    assert_eq!(cpu.program_counter(), 0x234);
}
