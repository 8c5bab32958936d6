use chip8::machine::{decode, Fault, LoadError, Opcode, VirtualMachine, MAX_PROGRAM_SIZE};

fn machine(program: &[u8]) -> VirtualMachine {
    VirtualMachine::new(program).unwrap()
}

fn run(vm: &mut VirtualMachine, cycles: usize) {
    for _ in 0..cycles {
        vm.step(0).unwrap();
    }
}

fn pixel(vm: &VirtualMachine, row: usize, col: usize) -> bool {
    (vm.canvas[row] >> col) & 1 == 1
}

#[test]
fn decode_slices_fields() {
    assert_eq!(
        decode(0xD1, 0x25),
        Opcode { class: 0xD, address: 0x125, x: 0x1, y: 0x2, byte: 0x25, nibble: 0x5 }
    );
    assert_eq!(
        decode(0x8A, 0xBE),
        Opcode { class: 0x8, address: 0xABE, x: 0xA, y: 0xB, byte: 0xBE, nibble: 0xE }
    );
}

#[test]
fn new_loads_program_and_font() {
    let vm = machine(&[0x12, 0x34]);
    assert_eq!(vm.pc(), 0x200);
    assert_eq!(vm.index(), 0x200);
    assert_eq!(vm.memory_at(0x200), 0x12);
    assert_eq!(vm.memory_at(0x201), 0x34);
    assert_eq!(vm.memory_at(0x202), 0);
    // Glyph for 0 and the last row of the glyph for F.
    assert_eq!(vm.memory_at(0x50), 0xF0);
    assert_eq!(vm.memory_at(0x51), 0x90);
    assert_eq!(vm.memory_at(0x9F), 0x80);
    assert_eq!(vm.memory_at(0xA0), 0);
    assert_eq!(vm.registers(), [0; 16]);
    assert_eq!(vm.stack_depth(), 0);
    assert_eq!(vm.canvas, [0; 32]);
    assert_eq!(vm.pressed_key, None);
}

#[test]
fn new_rejects_a_program_that_does_not_fit() {
    assert!(VirtualMachine::new(&vec![0u8; MAX_PROGRAM_SIZE]).is_ok());
    assert!(matches!(
        VirtualMachine::new(&vec![0u8; MAX_PROGRAM_SIZE + 1]),
        Err(LoadError::ProgramTooLarge)
    ));
}

#[test]
fn set_then_add_immediate() {
    let mut vm = machine(&[0x60, 0x05, 0x70, 0x03]);
    run(&mut vm, 2);
    assert_eq!(vm.registers()[0], 8);
    assert_eq!(vm.pc(), 0x204);
}

#[test]
fn add_immediate_wraps_and_keeps_flag() {
    let mut vm = machine(&[0x6F, 0x07, 0x60, 0xFF, 0x70, 0x02]);
    run(&mut vm, 3);
    assert_eq!(vm.registers()[0], 1);
    assert_eq!(vm.registers()[15], 7);
}

#[test]
fn draw_font_glyph_on_blank_canvas() {
    let mut program = vec![0u8; 0x2F];
    program[0] = 0xA2;
    program[1] = 0x2A;
    program[2] = 0xD0;
    program[3] = 0x15;
    let sprite = [0xF0, 0x90, 0xF0, 0x90, 0xF0];
    program[0x2A..0x2F].copy_from_slice(&sprite);
    let mut vm = machine(&program);
    run(&mut vm, 2);
    assert_eq!(vm.index(), 0x22A);
    assert_eq!(vm.registers()[15], 0);
    for row in 0..32 {
        for col in 0..64 {
            let expected = row < 5 && col < 8 && (sprite[row] >> (7 - col)) & 1 == 1;
            assert_eq!(pixel(&vm, row, col), expected, "row {} col {}", row, col);
        }
    }
}

#[test]
fn drawing_twice_restores_canvas_and_collides() {
    // I = glyph of V0 (0); draw at (0, 0) twice.
    let mut vm = machine(&[0xF0, 0x29, 0xD0, 0x05, 0xD0, 0x05]);
    run(&mut vm, 2);
    assert_eq!(vm.registers()[15], 0);
    let drawn = vm.canvas;
    assert_ne!(drawn, [0; 32]);
    run(&mut vm, 1);
    assert_eq!(vm.canvas, [0; 32]);
    assert_eq!(vm.registers()[15], 1);
}

#[test]
fn sprite_wraps_horizontally() {
    // V0 = 60, V1 = 0, I = 0x208, draw one row of 0xFF.
    let mut vm = machine(&[0x60, 0x3C, 0x61, 0x00, 0xA2, 0x08, 0xD0, 0x11, 0xFF]);
    run(&mut vm, 4);
    for col in 0..64 {
        assert_eq!(pixel(&vm, 0, col), col >= 60 || col < 4, "col {}", col);
    }
    for row in 1..32 {
        assert_eq!(vm.canvas[row], 0);
    }
}

#[test]
fn sprite_wraps_vertically() {
    // V0 = 0, V1 = 31, I = 0x208, draw two rows 0x80, 0x40.
    let mut vm = machine(&[0x60, 0x00, 0x61, 0x1F, 0xA2, 0x08, 0xD0, 0x12, 0x80, 0x40]);
    run(&mut vm, 4);
    assert_eq!(vm.canvas[31], 1);
    assert_eq!(vm.canvas[0], 2);
    for row in 1..31 {
        assert_eq!(vm.canvas[row], 0);
    }
}

#[test]
fn bcd_of_255() {
    let mut vm = machine(&[0x60, 0xFF, 0xA3, 0x00, 0xF0, 0x33]);
    run(&mut vm, 3);
    assert_eq!(vm.memory_at(0x300), 2);
    assert_eq!(vm.memory_at(0x301), 5);
    assert_eq!(vm.memory_at(0x302), 5);
}

#[test]
fn bcd_of_small_values() {
    let mut vm = machine(&[0x60, 0x07, 0xA3, 0x00, 0xF0, 0x33, 0x60, 0x80, 0xF0, 0x33]);
    run(&mut vm, 3);
    assert_eq!([vm.memory_at(0x300), vm.memory_at(0x301), vm.memory_at(0x302)], [0, 0, 7]);
    run(&mut vm, 2);
    assert_eq!([vm.memory_at(0x300), vm.memory_at(0x301), vm.memory_at(0x302)], [1, 2, 8]);
}

#[test]
fn dump_then_load_round_trips() {
    let mut vm = machine(&[
        0x60, 0x11, 0x61, 0x22, 0x62, 0x33, 0x63, 0x44, // V0..V3
        0xA3, 0x00, 0xF2, 0x55, // I = 0x300, dump V0..=V2
        0x60, 0x00, 0x61, 0x00, 0x62, 0x00, // clear V0..V2
        0xF2, 0x65, // load V0..=V2
    ]);
    run(&mut vm, 6);
    assert_eq!([vm.memory_at(0x300), vm.memory_at(0x301), vm.memory_at(0x302)], [0x11, 0x22, 0x33]);
    assert_eq!(vm.memory_at(0x303), 0);
    run(&mut vm, 3);
    assert_eq!(&vm.registers()[0..4], &[0, 0, 0, 0x44]);
    run(&mut vm, 1);
    assert_eq!(&vm.registers()[0..4], &[0x11, 0x22, 0x33, 0x44]);
    assert_eq!(vm.index(), 0x300);
}

#[test]
fn timers_decay_to_zero() {
    let mut vm = machine(&[0x60, 0x0A, 0xF0, 0x15, 0xF0, 0x18]);
    run(&mut vm, 3);
    assert_eq!(vm.delay_timer, 10);
    assert_eq!(vm.sound_timer, 10);
    for _ in 0..3 {
        vm.tick_timers();
    }
    assert_eq!(vm.delay_timer, 7);
    assert!(vm.sound_active());
    for _ in 0..20 {
        vm.tick_timers();
    }
    assert_eq!(vm.delay_timer, 0);
    assert_eq!(vm.sound_timer, 0);
    assert!(!vm.sound_active());
}

#[test]
fn sound_timer_floor_of_two() {
    let mut vm = machine(&[0x60, 0x01, 0xF0, 0x18, 0x60, 0x00, 0xF0, 0x18]);
    run(&mut vm, 2);
    assert_eq!(vm.sound_timer, 2);
    vm.tick_timers();
    vm.tick_timers();
    run(&mut vm, 2);
    assert_eq!(vm.sound_timer, 2);
}

#[test]
fn delay_timer_read_back() {
    let mut vm = machine(&[0x60, 0x09, 0xF0, 0x15, 0xF1, 0x07]);
    run(&mut vm, 2);
    vm.tick_timers();
    run(&mut vm, 1);
    assert_eq!(vm.registers()[1], 8);
}

#[test]
fn key_wait_blocks_then_consumes() {
    let mut vm = machine(&[0xF3, 0x0A]);
    run(&mut vm, 1);
    assert_eq!(vm.pc(), 0x200);
    run(&mut vm, 1);
    assert_eq!(vm.pc(), 0x200);
    vm.pressed_key = Some(7);
    run(&mut vm, 1);
    assert_eq!(vm.pc(), 0x202);
    assert_eq!(vm.registers()[3], 7);
    assert_eq!(vm.pressed_key, None);
}

#[test]
fn skip_if_key() {
    // V0 = 5; skip if key 5 held; skip if key 5 not held.
    let mut vm = machine(&[0x60, 0x05, 0xE0, 0x9E]);
    run(&mut vm, 1);
    vm.pressed_key = Some(5);
    run(&mut vm, 1);
    assert_eq!(vm.pc(), 0x206);
    assert_eq!(vm.pressed_key, Some(5));

    let mut vm = machine(&[0x60, 0x05, 0xE0, 0xA1]);
    run(&mut vm, 1);
    vm.pressed_key = Some(4);
    run(&mut vm, 1);
    assert_eq!(vm.pc(), 0x206);

    let mut vm = machine(&[0x60, 0x05, 0xE0, 0xA1]);
    run(&mut vm, 1);
    vm.pressed_key = Some(5);
    run(&mut vm, 1);
    assert_eq!(vm.pc(), 0x204);

    let mut vm = machine(&[0x60, 0x05, 0xE0, 0x9E]);
    run(&mut vm, 2);
    assert_eq!(vm.pc(), 0x204);
}

#[test]
fn conditional_skips() {
    let mut vm = machine(&[0x60, 0x05, 0x30, 0x05]);
    run(&mut vm, 2);
    assert_eq!(vm.pc(), 0x206);
    let mut vm = machine(&[0x60, 0x05, 0x30, 0x06]);
    run(&mut vm, 2);
    assert_eq!(vm.pc(), 0x204);
    let mut vm = machine(&[0x60, 0x05, 0x40, 0x06]);
    run(&mut vm, 2);
    assert_eq!(vm.pc(), 0x206);
    let mut vm = machine(&[0x60, 0x05, 0x61, 0x05, 0x50, 0x10]);
    run(&mut vm, 3);
    assert_eq!(vm.pc(), 0x208);
    let mut vm = machine(&[0x60, 0x05, 0x61, 0x05, 0x90, 0x10]);
    run(&mut vm, 3);
    assert_eq!(vm.pc(), 0x206);
}

#[test]
fn jumps_calls_and_returns() {
    let mut vm = machine(&[0x22, 0x06, 0x00, 0x00, 0x00, 0x00, 0x00, 0xEE]);
    run(&mut vm, 1);
    assert_eq!(vm.pc(), 0x206);
    assert_eq!(vm.stack_depth(), 1);
    run(&mut vm, 1);
    assert_eq!(vm.pc(), 0x202);
    assert_eq!(vm.stack_depth(), 0);

    let mut vm = machine(&[0x13, 0x45]);
    run(&mut vm, 1);
    assert_eq!(vm.pc(), 0x345);

    let mut vm = machine(&[0x60, 0x10, 0xB3, 0x00]);
    run(&mut vm, 2);
    assert_eq!(vm.pc(), 0x310);
}

#[test]
fn legacy_machine_routine_is_a_call() {
    let mut vm = machine(&[0x03, 0x00]);
    run(&mut vm, 1);
    assert_eq!(vm.pc(), 0x300);
    assert_eq!(vm.stack_depth(), 1);
}

#[test]
fn arithmetic_through_opcodes() {
    // V0 = 200, V1 = 100, V0 += V1 with carry.
    let mut vm = machine(&[0x60, 0xC8, 0x61, 0x64, 0x80, 0x14]);
    run(&mut vm, 3);
    assert_eq!(vm.registers()[0], 44);
    assert_eq!(vm.registers()[15], 1);
    // V0 = 3, V1 = 5, V0 -= V1 with borrow.
    let mut vm = machine(&[0x60, 0x03, 0x61, 0x05, 0x80, 0x15]);
    run(&mut vm, 3);
    assert_eq!(vm.registers()[0], 254);
    assert_eq!(vm.registers()[15], 0);
    // V0 = 3, V1 = 5, V0 = V1 - V0.
    let mut vm = machine(&[0x60, 0x03, 0x61, 0x05, 0x80, 0x17]);
    run(&mut vm, 3);
    assert_eq!(vm.registers()[0], 2);
    assert_eq!(vm.registers()[15], 1);
    // Shift right ignores V1.
    let mut vm = machine(&[0x60, 0x03, 0x61, 0xFF, 0x80, 0x16]);
    run(&mut vm, 3);
    assert_eq!(vm.registers()[0], 1);
    assert_eq!(vm.registers()[15], 1);
    // Shift left.
    let mut vm = machine(&[0x60, 0x81, 0x80, 0x0E]);
    run(&mut vm, 2);
    assert_eq!(vm.registers()[0], 2);
    assert_eq!(vm.registers()[15], 1);
    // A result in the flag register wins over the flag.
    let mut vm = machine(&[0x6F, 0xFF, 0x61, 0x02, 0x8F, 0x14]);
    run(&mut vm, 3);
    assert_eq!(vm.registers()[15], 1);
}

#[test]
fn index_operations() {
    let mut vm = machine(&[0xAF, 0xFF, 0x60, 0xFF, 0xF0, 0x1E, 0x61, 0x0F, 0xF1, 0x29]);
    run(&mut vm, 3);
    assert_eq!(vm.index(), 0x10FE);
    run(&mut vm, 2);
    assert_eq!(vm.index(), 0x50 + 15 * 5);
}

#[test]
fn random_is_masked() {
    let mut vm = machine(&[0xC0, 0x0F, 0xC1, 0x00]);
    vm.step(0xAB).unwrap();
    assert_eq!(vm.registers()[0], 0x0B);
    vm.execute_opcode().unwrap();
    assert_eq!(vm.registers()[1], 0);
    assert_eq!(vm.pc(), 0x204);
}

#[test]
fn execute_opcode_runs_one_cycle() {
    let mut vm = machine(&[0x60, 0x05, 0x70, 0x03]);
    vm.execute_opcode().unwrap();
    vm.execute_opcode().unwrap();
    assert_eq!(vm.registers()[0], 8);
    assert_eq!(vm.pc(), 0x204);
}

#[test]
fn clear_screen_opcode() {
    let mut vm = machine(&[0xD0, 0x05, 0x00, 0xE0]);
    run(&mut vm, 1);
    assert_ne!(vm.canvas, [0; 32]);
    run(&mut vm, 1);
    assert_eq!(vm.canvas, [0; 32]);
    assert_eq!(vm.pc(), 0x204);
}

#[test]
fn clear_canvas_turns_every_pixel_off() {
    let mut vm = machine(&[]);
    vm.canvas = [u64::MAX; 32];
    vm.clear_canvas();
    assert_eq!(vm.canvas, [0; 32]);
}

#[test]
fn return_with_empty_stack_faults() {
    let mut vm = machine(&[0x00, 0xEE]);
    assert_eq!(vm.step(0), Err(Fault::StackUnderflow));
    assert_eq!(vm.pc(), 0x200);
}

#[test]
fn call_past_capacity_faults() {
    let mut vm = machine(&[0x22, 0x00]);
    for _ in 0..100 {
        vm.step(0).unwrap();
    }
    assert_eq!(vm.stack_depth(), 100);
    assert_eq!(vm.step(0), Err(Fault::StackOverflow));
    assert_eq!(vm.stack_depth(), 100);
}

#[test]
fn unknown_opcodes_fault() {
    for program in [[0x50, 0x11], [0x80, 0x18], [0x90, 0x11], [0xE0, 0x00], [0xF0, 0xFF]] {
        let mut vm = machine(&program);
        assert_eq!(vm.step(0), Err(Fault::UnknownOpcode));
        assert_eq!(vm.pc(), 0x200);
    }
}

#[test]
fn out_of_range_accesses_fault() {
    let mut vm = machine(&[0x1F, 0xFF]);
    run(&mut vm, 1);
    assert_eq!(vm.step(0), Err(Fault::AddressOutOfRange));

    let mut vm = machine(&[0xAF, 0xFE, 0xF0, 0x33]);
    run(&mut vm, 1);
    assert_eq!(vm.step(0), Err(Fault::AddressOutOfRange));
    assert_eq!(vm.pc(), 0x202);

    let mut vm = machine(&[0xAF, 0xFE, 0xF2, 0x55]);
    run(&mut vm, 1);
    assert_eq!(vm.step(0), Err(Fault::AddressOutOfRange));

    let mut vm = machine(&[0xAF, 0xFE, 0xF2, 0x65]);
    run(&mut vm, 1);
    assert_eq!(vm.step(0), Err(Fault::AddressOutOfRange));

    let mut vm = machine(&[0xAF, 0xFE, 0xD0, 0x03]);
    run(&mut vm, 1);
    assert_eq!(vm.step(0), Err(Fault::AddressOutOfRange));
    assert_eq!(vm.canvas, [0; 32]);
}
