use gt911_chip::chip::{
    touch_report, Chip, ChipState, I2C_ADDRESS, INIT_LEN, ONE_POINT, SCREEN_HEIGHT, SCREEN_WIDTH,
    TOUCH_DOWN, TOUCH_LEN,
};
use gt911_chip::pin::{inverted_level, PIN_HIGH, PIN_LOW};
use gt911_chip::registry::ChipRegistry;

const MIDDLE_REPORT: [u8; 8] = [0x80, 0x01, 0x01, 0x90, 0x02, 0x80, 0x00, 0x00];

#[test]
fn reads_from_power_up_send_init_then_repeat_report() {
    let mut chip = Chip::new(1, 2);
    let mut got = Vec::new();
    for _ in 0..(3 + 8 * 4 + 5) {
        got.push(chip.read_byte());
    }
    assert_eq!(&got[0..3], &[0, 0, 0]);
    for (k, b) in got.iter().enumerate().skip(3) {
        assert_eq!(*b, MIDDLE_REPORT[(k - 3) % 8], "byte {}", k);
    }
}

#[test]
fn read_state_moves_to_touch_after_init_buffer() {
    let mut chip = Chip::new(1, 2);
    assert_eq!(chip.chip_state, ChipState::Init);
    chip.read_byte();
    chip.read_byte();
    assert_eq!(chip.chip_state, ChipState::Init);
    assert_eq!(chip.current_byte, 2);
    chip.read_byte();
    assert_eq!(chip.chip_state, ChipState::Touch);
    assert_eq!(chip.current_byte, 0);
    for _ in 0..7 {
        chip.read_byte();
    }
    assert_eq!(chip.current_byte, 7);
    chip.read_byte();
    assert_eq!(chip.chip_state, ChipState::Touch);
    assert_eq!(chip.current_byte, 0);
}

#[test]
fn read_bytes_matches_single_reads() {
    let mut a = Chip::new(5, 6);
    let mut b = Chip::new(5, 6);
    let many = a.read_bytes(30);
    let single: Vec<u8> = (0..30).map(|_| b.read_byte()).collect();
    assert_eq!(many, single);
    assert_eq!(a.current_byte, b.current_byte);
    assert_eq!(a.chip_state, b.chip_state);
}

#[test]
fn read_bytes_of_zero_changes_nothing() {
    let mut a = Chip::new(5, 6);
    assert_eq!(a.read_bytes(0), Vec::<u8>::new());
    assert_eq!(a.chip_state, ChipState::Init);
    assert_eq!(a.current_byte, 0);
}

#[test]
fn touch_report_of_middle_of_panel() {
    let chip = Chip::new(0, 1);
    assert_eq!(SCREEN_WIDTH / 2, 400);
    assert_eq!(SCREEN_HEIGHT / 2, 640);
    assert_eq!(chip.touch_data, MIDDLE_REPORT);
    assert_eq!(chip.init_data, [0, 0, 0]);
    assert_eq!(touch_report(400, 640), MIDDLE_REPORT);
}

#[test]
fn touch_report_puts_high_byte_first() {
    assert_eq!(
        touch_report(0x1234, 0xABCD),
        [TOUCH_DOWN, ONE_POINT, 0x12, 0x34, 0xAB, 0xCD, 0, 0]
    );
    assert_eq!(touch_report(0, 0), [0x80, 0x01, 0, 0, 0, 0, 0, 0]);
    assert_eq!(touch_report(0xFFFF, 0x00FF), [0x80, 0x01, 0xFF, 0xFF, 0x00, 0xFF, 0, 0]);
}

#[test]
fn buffer_lengths_and_address() {
    assert_eq!(INIT_LEN, 3);
    assert_eq!(TOUCH_LEN, 8);
    assert_eq!(I2C_ADDRESS, 0x5D);
}

#[test]
fn connect_rewinds_cursor_and_keeps_state() {
    let mut chip = Chip::new(1, 2);
    chip.read_byte();
    chip.read_byte();
    chip.connect();
    assert_eq!(chip.current_byte, 0);
    assert_eq!(chip.chip_state, ChipState::Init);
    assert_eq!(chip.read_bytes(3), vec![0, 0, 0]);
    assert_eq!(chip.chip_state, ChipState::Touch);
    chip.read_bytes(5);
    chip.connect();
    assert_eq!(chip.chip_state, ChipState::Touch);
    assert_eq!(chip.read_bytes(8), MIDDLE_REPORT.to_vec());
}

#[test]
fn pin_high_input_drives_low_output() {
    assert_eq!(inverted_level(PIN_HIGH), PIN_LOW);
}

#[test]
fn pin_low_input_drives_high_output() {
    assert_eq!(inverted_level(PIN_LOW), PIN_HIGH);
}

#[test]
fn pin_other_input_drives_high_output() {
    assert_eq!(inverted_level(7), PIN_HIGH);
}

#[test]
fn pin_levels_match_host() {
    assert_eq!(PIN_LOW, wokwi_chip_ll::LOW);
    assert_eq!(PIN_HIGH, wokwi_chip_ll::HIGH);
}

#[test]
fn registry_keeps_chips_apart() {
    let mut reg = ChipRegistry::new();
    assert_eq!(reg.len(), 0);
    let a = reg.chip_init(10, 11);
    let b = reg.chip_init(20, 21);
    assert_eq!((a, b), (0, 1));
    assert_eq!(reg.len(), 2);
    for _ in 0..4 {
        reg.i2c_read(a);
    }
    assert_eq!(reg.chips[a].chip_state, ChipState::Touch);
    assert_eq!(reg.chips[a].current_byte, 1);
    assert_eq!(reg.chips[b].chip_state, ChipState::Init);
    assert_eq!(reg.chips[b].current_byte, 0);
    assert_eq!(reg.i2c_read(b), 0);
    assert_eq!(reg.i2c_read(a), 0x01);
}

#[test]
fn registry_connect_accepts_and_rewinds() {
    let mut reg = ChipRegistry::new();
    let a = reg.chip_init(1, 2);
    reg.i2c_read(a);
    assert!(reg.i2c_connect(a));
    assert_eq!(reg.chips[a].current_byte, 0);
    assert_eq!(reg.chips[a].chip_state, ChipState::Init);
}

#[test]
fn registry_pin_change_targets_output_pin() {
    let mut reg = ChipRegistry::new();
    reg.chip_init(1, 2);
    let b = reg.chip_init(3, 4);
    assert_eq!(reg.on_pin_change(b, PIN_HIGH), (4, PIN_LOW));
    assert_eq!(reg.on_pin_change(b, PIN_LOW), (4, PIN_HIGH));
    assert_eq!(reg.on_pin_change(0, PIN_HIGH), (2, PIN_LOW));
}
