use lcd_async::interface::Interface;
use lcd_async::mock::{new_mock_display, MockDelay, MockDisplayInterface, MockOutputPin, MockPacket};
use lcd_async::models::ili9225::ILI9225Rgb565;
use lcd_async::models::Model;
use lcd_async::options::{
    ColorInversion, ColorOrder, ModelOptions, Orientation, Rotation, TearingEffect,
};
use lcd_async::Display;

fn options(rotation: Rotation, display_size: (u16, u16), display_offset: (u16, u16)) -> ModelOptions {
    ModelOptions {
        orientation: Orientation { rotation, mirrored: false },
        color_order: ColorOrder::Rgb,
        invert_colors: ColorInversion::Normal,
        display_size,
        display_offset,
    }
}

fn display_with(
    di: MockDisplayInterface,
    opts: ModelOptions,
) -> Display<MockDisplayInterface, ILI9225Rgb565, MockOutputPin> {
    Display::new(di, ILI9225Rgb565, None, opts)
}

#[test]
fn init_sends_the_vendor_table() {
    let mut di = MockDisplayInterface::new();
    let mut delay = MockDelay::new();
    let mut model = ILI9225Rgb565;
    let opts = options(Rotation::Deg0, (176, 220), (0, 0));
    assert!(model.init(&mut di, &mut delay, &opts).is_ok());
    let records = di.records();
    assert_eq!(records.len(), 44);
    // Power control registers are zeroed first.
    assert_eq!(records[0], MockPacket::Command(0x10, vec![0x00, 0x00]));
    assert_eq!(records[4], MockPacket::Command(0x14, vec![0x00, 0x00]));
    // The orientation-dependent driver output control for no rotation.
    assert_eq!(records[12], MockPacket::Command(0x01, vec![0x01, 0x1c]));
    assert_eq!(records[13], MockPacket::Command(0x03, vec![0x00, 0x38]));
    // The final display-on command carries the inversion bits.
    assert_eq!(records[43], MockPacket::Command(0x07, vec![0x10, 0x13]));
    // Mandated settle times, in order.
    assert_eq!(delay.waited(), &vec![40000, 10000, 30000, 50000, 50000]);
}

#[test]
fn mock_display_starts_awake() {
    let display = new_mock_display();
    assert!(!display.is_sleeping());
}

#[test]
fn transfer_applies_display_offset() {
    // With an untransformed orientation the window is the logical rectangle
    // translated by the display offset: (2, 2) to (5, 5).
    let mut display = display_with(
        MockDisplayInterface::new(),
        options(Rotation::Deg0, (160, 200), (2, 2)),
    );
    let data = vec![0u8; 4 * 4 * 2];
    assert!(display.show_raw_data(0, 0, 4, 4, &data).is_ok());
    let (di, _, _) = display.release();
    let records = di.records();
    assert_eq!(records.len(), 8);
    assert_eq!(records[0], MockPacket::Command(0x37, vec![0, 2]));
    assert_eq!(records[1], MockPacket::Command(0x36, vec![0, 5]));
    assert_eq!(records[2], MockPacket::Command(0x39, vec![0, 2]));
    assert_eq!(records[3], MockPacket::Command(0x38, vec![0, 5]));
    assert_eq!(records[4], MockPacket::Command(0x20, vec![0, 2]));
    assert_eq!(records[5], MockPacket::Command(0x21, vec![0, 2]));
    assert_eq!(records[6], MockPacket::Command(0x22, vec![]));
    assert_eq!(records[7], MockPacket::Data(data));
}

#[test]
fn transfer_reverses_axes_on_half_turn() {
    // A half turn reverses both axes, so the offset becomes
    // framebuffer - (display size + offset) on each axis.
    let fb = (176u16, 220u16);
    let disp = (160u16, 200u16);
    let off = (2u16, 2u16);
    let mut display = display_with(
        MockDisplayInterface::new(),
        options(Rotation::Deg180, disp, off),
    );
    let data = vec![0u8; 4 * 4 * 2];
    assert!(display.show_raw_data(0, 0, 4, 4, &data).is_ok());
    let ox = fb.0 - (disp.0 + off.0);
    let oy = fb.1 - (disp.1 + off.1);
    assert_eq!((ox, oy), (14, 18));
    let (di, _, _) = display.release();
    let records = di.records();
    assert_eq!(
        records[0],
        MockPacket::Command(0x37, vec![(ox >> 8) as u8, (ox & 0xff) as u8])
    );
    assert_eq!(
        records[1],
        MockPacket::Command(0x36, vec![((ox + 3) >> 8) as u8, ((ox + 3) & 0xff) as u8])
    );
    assert_eq!(
        records[2],
        MockPacket::Command(0x39, vec![(oy >> 8) as u8, (oy & 0xff) as u8])
    );
    assert_eq!(
        records[3],
        MockPacket::Command(0x38, vec![((oy + 3) >> 8) as u8, ((oy + 3) & 0xff) as u8])
    );
}

#[test]
fn sleep_and_wake_track_state() {
    let mut display = new_mock_display();
    let mut delay = MockDelay::new();
    assert!(!display.is_sleeping());
    assert!(display.sleep(&mut delay).is_ok());
    assert!(display.is_sleeping());
    assert_eq!(delay.waited(), &vec![50000, 50000]);
    assert!(display.wake(&mut delay).is_ok());
    assert!(!display.is_sleeping());
    assert_eq!(delay.waited(), &vec![50000, 50000, 50000]);
}

#[test]
fn sleep_sends_the_power_down_sequence() {
    let mut display = display_with(
        MockDisplayInterface::new(),
        options(Rotation::Deg0, (176, 220), (0, 0)),
    );
    let mut delay = MockDelay::new();
    assert!(display.sleep(&mut delay).is_ok());
    let (di, _, _) = display.release();
    let records = di.records();
    assert_eq!(records.len(), 3);
    assert_eq!(records[0], MockPacket::Command(0x07, vec![0x00, 0x00]));
    assert_eq!(records[1], MockPacket::Command(0x11, vec![0x00, 0x07]));
    assert_eq!(records[2], MockPacket::Command(0x10, vec![0x0a, 0x01]));
}

#[test]
fn failed_sleep_keeps_state_awake() {
    let mut display = display_with(
        MockDisplayInterface::failing_at(0),
        options(Rotation::Deg0, (176, 220), (0, 0)),
    );
    let mut delay = MockDelay::new();
    assert!(display.sleep(&mut delay).is_err());
    assert!(!display.is_sleeping());
}

#[test]
fn set_orientation_applies_options() {
    let mut display = display_with(
        MockDisplayInterface::new(),
        options(Rotation::Deg0, (176, 220), (0, 0)),
    );
    let new_orientation = Orientation { rotation: Rotation::Deg180, mirrored: false };
    assert!(display.set_orientation(new_orientation).is_ok());
    assert_eq!(display.orientation(), new_orientation);
    let (di, _, _) = display.release();
    let records = di.records();
    assert_eq!(records.len(), 2);
    // Driver output control for a half turn, then entry mode.
    assert_eq!(records[0], MockPacket::Command(0x01, vec![0x02, 0x1c]));
    assert_eq!(records[1], MockPacket::Command(0x03, vec![0x00, 0x38]));
}

#[test]
fn scroll_configuration_is_ignored_by_this_model() {
    let mut display = display_with(
        MockDisplayInterface::new(),
        options(Rotation::Deg0, (176, 220), (0, 0)),
    );
    assert!(display.set_vertical_scroll_region(10, 10).is_ok());
    assert!(display.set_vertical_scroll_offset(4).is_ok());
    let (di, _, _) = display.release();
    assert!(di.records().is_empty());
}

#[test]
fn tearing_effect_writes_display_control() {
    let mut display = display_with(
        MockDisplayInterface::new(),
        options(Rotation::Deg0, (176, 220), (0, 0)),
    );
    assert!(display.set_tearing_effect(TearingEffect::Vertical).is_ok());
    let (di, _, _) = display.release();
    let records = di.records();
    assert_eq!(records.len(), 1);
    assert_eq!(records[0], MockPacket::Command(0x07, vec![0x10, 0x13]));
}

#[test]
fn init_error_is_surfaced() {
    let mut di = MockDisplayInterface::failing_at(3);
    let mut delay = MockDelay::new();
    let mut model = ILI9225Rgb565;
    let opts = options(Rotation::Deg0, (176, 220), (0, 0));
    assert!(model.init(&mut di, &mut delay, &opts).is_err());
    // The commands before the fault stay sent.
    assert_eq!(di.records().len(), 3);
}

#[test]
fn raw_command_access_shares_the_transcript() {
    let mut display = display_with(
        MockDisplayInterface::new(),
        options(Rotation::Deg0, (176, 220), (0, 0)),
    );
    assert!(display.dcs().send_command(0x0f, &[0x0e, 0x01]).is_ok());
    let (di, _, _) = display.release();
    assert_eq!(di.records(), &vec![MockPacket::Command(0x0f, vec![0x0e, 0x01])]);
}

#[test]
fn transfer_swaps_axes_on_quarter_turn() {
    // A quarter turn reverses the column axis and exchanges the offset
    // components; the model then programs the exchanged register pairs.
    let mut display = display_with(
        MockDisplayInterface::new(),
        options(Rotation::Deg90, (160, 200), (2, 2)),
    );
    // Column rule: 176 - (160 + 2) = 14; swapped offset is (2, 14).
    let data = vec![0u8; 3 * 2 * 2];
    assert!(display.show_raw_data(1, 2, 3, 2, &data).is_ok());
    let (di, _, _) = display.release();
    let records = di.records();
    assert_eq!(records[0], MockPacket::Command(0x39, vec![0, 3]));
    assert_eq!(records[1], MockPacket::Command(0x38, vec![0, 5]));
    assert_eq!(records[2], MockPacket::Command(0x37, vec![0, 16]));
    assert_eq!(records[3], MockPacket::Command(0x36, vec![0, 17]));
    assert_eq!(records[4], MockPacket::Command(0x21, vec![0, 3]));
    assert_eq!(records[5], MockPacket::Command(0x20, vec![0, 16]));
}

#[test]
fn wake_sends_the_power_up_sequence() {
    let mut display = display_with(
        MockDisplayInterface::new(),
        options(Rotation::Deg0, (176, 220), (0, 0)),
    );
    let mut delay = MockDelay::new();
    assert!(display.sleep(&mut delay).is_ok());
    assert!(display.wake(&mut delay).is_ok());
    let (di, _, _) = display.release();
    let records = di.records();
    assert_eq!(records.len(), 6);
    assert_eq!(records[3], MockPacket::Command(0x10, vec![0x0a, 0x00]));
    assert_eq!(records[4], MockPacket::Command(0x11, vec![0x10, 0x3b]));
    assert_eq!(records[5], MockPacket::Command(0x07, vec![0x10, 0x17]));
}
