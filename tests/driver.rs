use pong_wars::discovery::{select_modules, MatrixError, PortListing, UsbIdentity, VENDOR_ID};
use pong_wars::game::{Ball, GameState, SquareColor};
use pong_wars::matrix::{MatrixState, RecoveryAction, MAX_CONSECUTIVE_ERRORS, RECOVERY_DELAY_MS, RETRY_DELAY_MS};
use pong_wars::protocol::{
    brightness_command, bw_frame, commit_grey_command, grey_column_command, BW_FRAME_LEN,
};
use pong_wars::{percent_to_led_value, tray_command, TrayCommand};
use rand::rngs::StdRng;
use rand::SeedableRng;

fn module(name: &str, serial: Option<&str>) -> PortListing {
    PortListing {
        port_name: name.as_bytes().to_vec(),
        usb: Some(UsbIdentity {
            vid: VENDOR_ID,
            pid: 0x0020,
            serial_number: serial.map(|s| s.as_bytes().to_vec()),
        }),
    }
}

fn other(name: &str) -> PortListing {
    PortListing {
        port_name: name.as_bytes().to_vec(),
        usb: Some(UsbIdentity { vid: 0x1234, pid: 0x0020, serial_number: None }),
    }
}

fn game_with_balls(width: usize, day: (i64, i64), night: (i64, i64)) -> GameState {
    let mut game = GameState::new(width, 34, 1, StdRng::seed_from_u64(5));
    game.balls[0] = Ball { x: day.0, y: day.1, dx: 3000, dy: 3000, color_type: SquareColor::Day };
    game.balls[1] = Ball { x: night.0, y: night.1, dx: 3000, dy: 3000, color_type: SquareColor::Night };
    game
}

#[test]
fn bw_frame_is_bit_exact() {
    let game = game_with_balls(9, (25000, 305000), (65000, 35000));
    let frame = bw_frame(&game, 0, 34);
    let mut expected = vec![0x32u8, 0xAC, 0x06];
    expected.extend_from_slice(&[
        0, 0, 0, 0, 2, 0, 0, 0, 0, 0, 0, 0, 0, 0, 0, 0, 0, 0, 0, 254, 255, 255, 255, 255, 255, 255, 255, 255,
        255, 255, 255, 255, 255, 255, 254, 255, 255, 255, 3,
    ]);
    assert_eq!(frame.len(), BW_FRAME_LEN);
    assert_eq!(frame, expected);
}

#[test]
fn bw_frames_split_columns_between_modules() {
    let game = game_with_balls(18, (25000, 305000), (125000, 35000));
    let state = MatrixState::bind(2, true, 34, 128).unwrap();
    let frames = state.frames(&game);
    assert_eq!(frames.len(), 2);
    let left: Vec<u8> = vec![
        0, 0, 0, 0, 0, 0, 0, 0, 0, 0, 0, 0, 0, 0, 0, 0, 0, 0, 0, 254, 255, 255, 255, 255, 255, 255, 255, 255,
        255, 255, 255, 255, 255, 255, 254, 255, 255, 255, 3,
    ];
    let right: Vec<u8> = vec![
        0, 0, 0, 64, 0, 0, 0, 0, 0, 0, 0, 0, 0, 0, 0, 0, 0, 0, 0, 254, 255, 255, 255, 255, 255, 255, 255, 255,
        255, 255, 255, 255, 255, 255, 255, 255, 255, 255, 3,
    ];
    assert_eq!(&frames[0][3..], &left[..]);
    assert_eq!(&frames[1][3..], &right[..]);
    assert_eq!(&frames[1][..3], &[0x32, 0xAC, 0x06]);
}

#[test]
fn bw_frame_beyond_grid_is_dark() {
    let game = game_with_balls(9, (25000, 305000), (65000, 35000));
    let frame = bw_frame(&game, 1, 34);
    assert!(frame[3..].iter().all(|&b| b == 0));
    let short = bw_frame(&game, 0, 10);
    assert!(short[3 + 12..].iter().all(|&b| b == 0));
}

#[test]
fn command_bytes() {
    assert_eq!(brightness_command(200), vec![0x32, 0xAC, 0x00, 200]);
    assert_eq!(commit_grey_command(), vec![0x32, 0xAC, 0x08, 0x00]);
    assert_eq!(grey_column_command(4, &vec![1, 2, 3]), vec![0x32, 0xAC, 0x07, 4, 1, 2, 3]);
}

#[test]
fn no_module_is_device_not_found() {
    assert_eq!(select_modules(&vec![], false), Err(MatrixError::DeviceNotFound));
    let ports = vec![other("/dev/ttyUSB0"), PortListing { port_name: b"/dev/ttyS0".to_vec(), usb: None }];
    assert_eq!(select_modules(&ports, false), Err(MatrixError::DeviceNotFound));
    assert_eq!(select_modules(&ports, true), Err(MatrixError::DeviceNotFound));
}

#[test]
fn one_module_in_dual_mode_is_insufficient() {
    let ports = vec![other("/dev/ttyUSB0"), module("/dev/ttyACM0", Some("FRAKDEAM1"))];
    assert_eq!(select_modules(&ports, true), Err(MatrixError::InsufficientModules { found: 1 }));
    assert_eq!(select_modules(&ports, false), Ok(vec![1]));
}

#[test]
fn modules_are_ordered_by_serial_number() {
    let ports = vec![
        module("/dev/ttyACM0", Some("FRAKDEBZ")),
        other("/dev/ttyUSB0"),
        module("/dev/ttyACM1", Some("FRAKDEAM")),
        module("/dev/ttyACM2", None),
    ];
    assert_eq!(select_modules(&ports, false), Ok(vec![2]));
    // The first in order shows the right half, so it comes second.
    assert_eq!(select_modules(&ports, true), Ok(vec![0, 2]));
}

#[test]
fn modules_without_serial_are_ordered_by_name_and_last() {
    let ports = vec![module("/dev/ttyACM1", None), module("/dev/ttyACM0", None)];
    assert_eq!(select_modules(&ports, true), Ok(vec![0, 1]));
    let ports = vec![module("/dev/ttyACM0", None), module("/dev/ttyACM9", Some("Z"))];
    assert_eq!(select_modules(&ports, false), Ok(vec![1]));
    let ports = vec![module("/dev/ttyACM0", Some("AB")), module("/dev/ttyACM1", Some("A"))];
    assert_eq!(select_modules(&ports, false), Ok(vec![1]));
}

#[test]
fn equal_serial_numbers_keep_listing_order() {
    let ports = vec![module("/dev/ttyACM1", Some("S")), module("/dev/ttyACM0", Some("S"))];
    assert_eq!(select_modules(&ports, true), Ok(vec![1, 0]));
}

#[test]
fn reconnect_after_threshold_failures() {
    let mut state = MatrixState::bind(1, false, 34, 100).unwrap();
    assert_eq!(MAX_CONSECUTIVE_ERRORS, 3);
    assert_eq!(state.record_failure(), RecoveryAction::RetryNextTick { delay_ms: RETRY_DELAY_MS });
    assert_eq!(state.record_failure(), RecoveryAction::RetryNextTick { delay_ms: RETRY_DELAY_MS });
    assert_eq!(state.record_failure(), RecoveryAction::Reconnect { delay_ms: RECOVERY_DELAY_MS });
    assert_eq!(state.consecutive_errors, 3);
    // A reconnect that fails leaves the count, so the next failure reconnects again.
    assert_eq!(state.record_failure(), RecoveryAction::Reconnect { delay_ms: RECOVERY_DELAY_MS });
    state.record_success();
    assert_eq!(state.consecutive_errors, 0);
    assert_eq!(state.record_failure(), RecoveryAction::RetryNextTick { delay_ms: RETRY_DELAY_MS });
}

#[test]
fn bind_needs_an_open_module() {
    assert!(matches!(MatrixState::bind(0, true, 34, 10), Err(MatrixError::PortOpenFailed)));
    let state = MatrixState::bind(2, true, 34, 10).unwrap();
    assert_eq!(state.width(), 18);
    assert_eq!(state.consecutive_errors, 0);
    assert!(state.dual_mode);
}

#[test]
fn brightness_is_recorded_and_encoded() {
    let mut state = MatrixState::bind(1, false, 34, 10).unwrap();
    assert_eq!(state.set_brightness(77), vec![0x32, 0xAC, 0x00, 77]);
    assert_eq!(state.brightness, 77);
}

#[test]
fn max_fps_follows_wire_capacity() {
    assert_eq!(MatrixState::bind(1, false, 34, 10).unwrap().estimated_max_fps(), 249);
    assert_eq!(MatrixState::bind(2, true, 34, 10).unwrap().estimated_max_fps(), 124);
}

#[test]
fn percent_converts_to_led_scale() {
    assert_eq!(percent_to_led_value(0), 0);
    assert_eq!(percent_to_led_value(50), 127);
    assert_eq!(percent_to_led_value(100), 255);
}

#[test]
fn tray_exit_request() {
    assert_eq!(tray_command(true), Some(TrayCommand::Exit));
    assert_eq!(tray_command(false), None);
}

#[test]
fn bind_succeeds_with_opened_modules() {
    let one = MatrixState::bind(1, false, 34, 10).unwrap();
    assert_eq!(one.width(), 9);
    assert!(!one.dual_mode);
    let two = MatrixState::bind(2, true, 34, 10).unwrap();
    assert_eq!(two.width(), 18);
    assert_eq!(two.modules, 2);
}
