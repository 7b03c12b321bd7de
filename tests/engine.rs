use hp16c::cpu::Hp16cCpu;
use hp16c::rom;

#[test]
fn test_rpn_stack_push_pop() {
    let mut calc = Hp16cCpu::new();

    calc.push(42);
    assert_eq!(calc.x, 42);
    assert_eq!(calc.y, 0);

    calc.push(100);
    assert_eq!(calc.x, 100);
    assert_eq!(calc.y, 42);

    let popped = calc.pop();
    assert_eq!(popped, 100);
    assert_eq!(calc.x, 42);
}

#[test]
fn test_basic_arithmetic() {
    let mut calc = Hp16cCpu::new();

    calc.push(10);
    calc.push(5);
    calc.add();
    assert_eq!(calc.x, 15);

    calc.push(3);
    calc.subtract();
    assert_eq!(calc.x, 12);

    calc.push(2);
    calc.multiply();
    assert_eq!(calc.x, 24);

    calc.push(4);
    calc.divide();
    assert_eq!(calc.x, 6);
}

#[test]
fn test_bitwise_operations() {
    let mut calc = Hp16cCpu::new();

    calc.push(0xF0);
    calc.push(0x0F);
    calc.and();
    assert_eq!(calc.x, 0x00);

    calc.push(0xF0);
    calc.push(0x0F);
    calc.or();
    assert_eq!(calc.x, 0xFF);

    calc.push(0xFF);
    calc.push(0xAA);
    calc.xor();
    assert_eq!(calc.x, 0x55);
}

#[test]
fn test_stack_operations() {
    let mut calc = Hp16cCpu::new();

    calc.push(1);
    calc.push(2);
    calc.push(3);
    calc.push(4);

    assert_eq!(calc.x, 4);
    assert_eq!(calc.y, 3);
    assert_eq!(calc.z, 2);
    assert_eq!(calc.t, 1);

    calc.swap_xy();
    assert_eq!(calc.x, 3);
    assert_eq!(calc.y, 4);

    calc.roll_down();
    assert_eq!(calc.x, 4);
    assert_eq!(calc.y, 2);
    assert_eq!(calc.z, 1);
    assert_eq!(calc.t, 3);
}

#[test]
fn test_word_size_masking() {
    let mut calc = Hp16cCpu::new();

    calc.set_word_size(8);
    calc.push(0x1FF);
    assert_eq!(calc.x, 0xFF);

    calc.set_word_size(4);
    calc.push(0x20);
    assert_eq!(calc.x, 0x0);
}

#[test]
fn test_memory_operations() {
    let mut calc = Hp16cCpu::new();

    calc.push(0xDEAD);
    calc.store(5);
    assert_eq!(calc.memory[5], 0xDEAD);

    calc.x = 0;
    calc.recall(5);
    assert_eq!(calc.x, 0xDEAD);
}

#[test]
fn test_rom_loading() {
    let rom = rom::Rom::new();

    assert_eq!(rom.size(), 0);
    assert_eq!(rom.read(0x1000), 0);
}

#[test]
fn new_engine_starts_cleared() {
    let calc = Hp16cCpu::new();
    assert_eq!((calc.x, calc.y, calc.z, calc.t), (0, 0, 0, 0));
    assert_eq!(calc.word_size, 16);
    assert_eq!(calc.base, 16);
    assert!(!calc.carry);
    assert!(!calc.overflow);
    assert_eq!(calc.memory, [0u128; 16]);
}

#[test]
fn push_masks_for_every_word_size() {
    let v: u128 = 0xF0E1_D2C3_B4A5_9687_7869_5A4B_3C2D_1E0F;
    for w in 1u8..=128 {
        let mut calc = Hp16cCpu::new();
        calc.set_word_size(w);
        calc.push(v);
        let expected = if w == 128 { v } else { v % (1u128 << w) };
        assert_eq!(calc.x, expected, "word size {}", w);
    }
}

#[test]
fn four_pushes_fill_the_stack_in_order() {
    let mut calc = Hp16cCpu::new();
    calc.push(0xA);
    calc.push(0xB);
    calc.push(0xC);
    calc.push(0xD);
    assert_eq!((calc.t, calc.z, calc.y, calc.x), (0xA, 0xB, 0xC, 0xD));
    calc.push(0xE);
    assert_eq!((calc.t, calc.z, calc.y, calc.x), (0xB, 0xC, 0xD, 0xE));
}

#[test]
fn swap_twice_restores_x_and_y() {
    let mut calc = Hp16cCpu::new();
    calc.push(7);
    calc.push(9);
    calc.swap_xy();
    assert_eq!((calc.x, calc.y), (7, 9));
    calc.swap_xy();
    assert_eq!((calc.x, calc.y), (9, 7));
}

#[test]
fn four_rolls_restore_the_stack() {
    let mut calc = Hp16cCpu::new();
    for v in [1u128, 2, 3, 4] {
        calc.push(v);
    }
    for _ in 0..4 {
        calc.roll_down();
    }
    assert_eq!((calc.x, calc.y, calc.z, calc.t), (4, 3, 2, 1));
    calc.roll_up();
    assert_eq!((calc.x, calc.y, calc.z, calc.t), (1, 4, 3, 2));
    for _ in 0..3 {
        calc.roll_up();
    }
    assert_eq!((calc.x, calc.y, calc.z, calc.t), (4, 3, 2, 1));
}

#[test]
fn pop_and_drop_repeat_t() {
    let mut calc = Hp16cCpu::new();
    for v in [1u128, 2, 3, 4] {
        calc.push(v);
    }
    assert_eq!(calc.pop(), 4);
    assert_eq!((calc.x, calc.y, calc.z, calc.t), (3, 2, 1, 1));
    calc.drop();
    assert_eq!((calc.x, calc.y, calc.z, calc.t), (2, 1, 1, 1));
}

#[test]
fn arithmetic_at_word_size_eight() {
    let mut calc = Hp16cCpu::new();
    calc.set_word_size(8);
    calc.push(10);
    calc.push(5);
    calc.add();
    assert_eq!(calc.x, 15);
    assert!(!calc.carry);

    calc.push(0xF0);
    calc.push(0x0F);
    calc.and();
    assert_eq!(calc.x, 0);

    calc.push(0xFF);
    calc.push(0xAA);
    calc.xor();
    assert_eq!(calc.x, 0x55);
}

#[test]
fn carry_is_taken_at_full_width() {
    let mut calc = Hp16cCpu::new();
    calc.set_word_size(4);
    calc.push(15);
    calc.push(1);
    calc.add();
    assert_eq!(calc.x, 0);
    assert!(!calc.carry);

    let mut wide = Hp16cCpu::new();
    wide.set_word_size(128);
    wide.push(u128::MAX);
    wide.push(1);
    wide.add();
    assert_eq!(wide.x, 0);
    assert!(wide.carry);
}

#[test]
fn subtract_borrows_and_wraps() {
    let mut calc = Hp16cCpu::new();
    calc.set_word_size(8);
    calc.push(3);
    calc.push(5);
    calc.subtract();
    assert_eq!(calc.x, 0xFE);
    assert!(calc.carry);
    calc.push(0x10);
    calc.subtract();
    assert_eq!(calc.x, 0xEE);
    assert!(!calc.carry);
}

#[test]
fn multiply_sets_carry_past_128_bits() {
    let mut calc = Hp16cCpu::new();
    calc.set_word_size(128);
    calc.push(1u128 << 127);
    calc.push(3);
    calc.multiply();
    assert_eq!(calc.x, 1u128 << 127);
    assert!(calc.carry);

    calc.set_word_size(8);
    calc.push(0x20);
    calc.push(0x10);
    calc.multiply();
    assert_eq!(calc.x, 0);
    assert!(!calc.carry);
}

#[test]
fn divide_by_zero_sets_overflow_only() {
    let mut calc = Hp16cCpu::new();
    calc.push(5);
    calc.push(0);
    calc.divide();
    assert!(calc.overflow);
    assert_eq!(calc.x, 0);
    assert_eq!(calc.y, 5);

    let mut other = Hp16cCpu::new();
    other.push(0);
    other.push(5);
    other.divide();
    assert!(!other.overflow);
    assert_eq!(other.x, 0);
}

#[test]
fn divide_truncates_and_clears_carry() {
    let mut calc = Hp16cCpu::new();
    calc.push(0xFFFF);
    calc.push(1);
    calc.add();
    assert_eq!(calc.x, 0);
    calc.carry = true;
    calc.push(17);
    calc.push(5);
    calc.divide();
    assert_eq!(calc.x, 3);
    assert!(!calc.carry);
}

#[test]
fn not_stays_in_the_word() {
    let mut calc = Hp16cCpu::new();
    calc.set_word_size(8);
    calc.push(0x0F);
    calc.not();
    assert_eq!(calc.x, 0xF0);
    calc.set_word_size(128);
    calc.push(0);
    calc.not();
    assert_eq!(calc.x, u128::MAX);
}

#[test]
fn shift_left_reports_bits_that_leave() {
    let mut calc = Hp16cCpu::new();
    calc.set_word_size(8);
    calc.x = 0x81;
    calc.shift_left(1);
    assert!(calc.carry);
    assert_eq!(calc.x, 0x02);
    calc.shift_left(3);
    assert!(!calc.carry);
    assert_eq!(calc.x, 0x10);
}

#[test]
fn shift_right_reports_bits_that_fall_off() {
    let mut calc = Hp16cCpu::new();
    calc.set_word_size(8);
    calc.x = 0x81;
    calc.shift_right(1);
    assert!(calc.carry);
    assert_eq!(calc.x, 0x40);
    calc.shift_right(6);
    assert!(!calc.carry);
    assert_eq!(calc.x, 0x01);
}

#[test]
fn memory_round_trip_and_bad_registers() {
    let mut calc = Hp16cCpu::new();
    calc.push(0xDEAD);
    calc.store(5);
    calc.x = 0;
    calc.recall(5);
    assert_eq!(calc.x, 0xDEAD);

    calc.store(16);
    assert_eq!(calc.memory, {
        let mut m = [0u128; 16];
        m[5] = 0xDEAD;
        m
    });
    let before = (calc.x, calc.y, calc.z, calc.t);
    calc.recall(99);
    assert_eq!((calc.x, calc.y, calc.z, calc.t), before);
}

#[test]
fn recall_masks_to_the_current_word_size() {
    let mut calc = Hp16cCpu::new();
    calc.push(0x1234);
    calc.store(0);
    calc.set_word_size(8);
    assert_eq!(calc.memory[0], 0x1234);
    calc.recall(0);
    assert_eq!(calc.x, 0x34);
}

#[test]
fn invalid_settings_are_ignored() {
    let mut calc = Hp16cCpu::new();
    calc.push(0xABCD);
    calc.set_word_size(0);
    calc.set_word_size(129);
    assert_eq!(calc.word_size, 16);
    assert_eq!(calc.x, 0xABCD);
    calc.set_base(3);
    assert_eq!(calc.base, 16);
    calc.set_base(2);
    assert_eq!(calc.base, 2);
}

#[test]
fn word_size_change_remasks_the_stack() {
    let mut calc = Hp16cCpu::new();
    for v in [0x1FFu128, 0x2FF, 0x3FF, 0x4FF] {
        calc.push(v);
    }
    calc.set_word_size(8);
    assert_eq!((calc.t, calc.z, calc.y, calc.x), (0xFF, 0xFF, 0xFF, 0xFF));
}

#[test]
fn display_in_each_base() {
    let mut calc = Hp16cCpu::new();
    calc.push(255);
    assert_eq!(calc.format_display(), "FF");
    calc.set_base(2);
    assert_eq!(calc.format_display(), "11111111");
    calc.set_base(8);
    assert_eq!(calc.format_display(), "377");
    calc.set_base(10);
    assert_eq!(calc.format_display(), "255");
    calc.push(0);
    assert_eq!(calc.format_display(), "0");
}

#[test]
fn stack_display_labels_each_level() {
    let mut calc = Hp16cCpu::new();
    calc.push(0x1A);
    calc.push(0x2B);
    let lines = calc.get_stack_display();
    assert_eq!(lines, ["T: 0".to_string(), "Z: 0".to_string(), "Y: 1A".to_string(), "X: 2B".to_string()]);
    calc.set_base(10);
    assert_eq!(calc.get_stack_display()[3], "X: 43");
}
