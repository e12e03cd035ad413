use lcd_async::interface::{Generic16BitBus, Generic8BitBus, Interface, OutputBus, ParallelError,
    ParallelInterface};
use lcd_async::mock::{MockError, MockOutputPin};

fn eight_pins() -> (
    MockOutputPin,
    MockOutputPin,
    MockOutputPin,
    MockOutputPin,
    MockOutputPin,
    MockOutputPin,
    MockOutputPin,
    MockOutputPin,
) {
    (
        MockOutputPin::new(),
        MockOutputPin::new(),
        MockOutputPin::new(),
        MockOutputPin::new(),
        MockOutputPin::new(),
        MockOutputPin::new(),
        MockOutputPin::new(),
        MockOutputPin::new(),
    )
}

#[test]
fn repeated_word_writes_no_pins() {
    // Setting the same word twice issues pin writes only on the first call.
    let mut bus = Generic8BitBus::new(eight_pins());
    assert!(bus.set_value(0x5a).is_ok());
    assert!(bus.set_value(0x5a).is_ok());
    let pins = bus.release();
    // 0x5a = 0b0101_1010, pin 0 is the least significant bit.
    assert_eq!(pins.0.history(), &vec![Some(false)]);
    assert_eq!(pins.1.history(), &vec![Some(true)]);
    assert_eq!(pins.2.history(), &vec![Some(false)]);
    assert_eq!(pins.3.history(), &vec![Some(true)]);
    assert_eq!(pins.4.history(), &vec![Some(true)]);
    assert_eq!(pins.5.history(), &vec![Some(false)]);
    assert_eq!(pins.6.history(), &vec![Some(true)]);
    assert_eq!(pins.7.history(), &vec![Some(false)]);
}

#[test]
fn only_changed_bits_are_written() {
    let mut bus = Generic8BitBus::new(eight_pins());
    assert!(bus.set_value(0x00).is_ok());
    assert!(bus.set_value(0x03).is_ok());
    let pins = bus.release();
    // Bits 0 and 1 changed; the others were already low.
    assert_eq!(pins.0.history(), &vec![Some(false), Some(true)]);
    assert_eq!(pins.1.history(), &vec![Some(false), Some(true)]);
    assert_eq!(pins.2.history(), &vec![Some(false)]);
    assert_eq!(pins.7.history(), &vec![Some(false)]);
}

#[test]
fn failure_forces_full_rewrite() {
    // After a pin failure the remembered word is invalidated, so the next
    // call rewrites every bit even though the requested value is unchanged.
    let mut pins = eight_pins();
    pins.7 = MockOutputPin::failing_at(1);
    let mut bus = Generic8BitBus::new(pins);
    assert!(bus.set_value(0x00).is_ok());
    // Only bit 7 changes; its second write attempt fails.
    assert_eq!(bus.set_value(0x80), Err(MockError));
    // Same value again: every pin is rewritten.
    assert!(bus.set_value(0x80).is_ok());
    let pins = bus.release();
    assert_eq!(pins.0.history(), &vec![Some(false), Some(false)]);
    assert_eq!(pins.1.history(), &vec![Some(false), Some(false)]);
    assert_eq!(pins.2.history(), &vec![Some(false), Some(false)]);
    assert_eq!(pins.3.history(), &vec![Some(false), Some(false)]);
    assert_eq!(pins.4.history(), &vec![Some(false), Some(false)]);
    assert_eq!(pins.5.history(), &vec![Some(false), Some(false)]);
    assert_eq!(pins.6.history(), &vec![Some(false), Some(false)]);
    assert_eq!(pins.7.history(), &vec![Some(false), None, Some(true)]);
}

#[test]
fn sixteen_bit_bus_drives_every_pin() {
    let pins = (
        MockOutputPin::new(),
        MockOutputPin::new(),
        MockOutputPin::new(),
        MockOutputPin::new(),
        MockOutputPin::new(),
        MockOutputPin::new(),
        MockOutputPin::new(),
        MockOutputPin::new(),
        MockOutputPin::new(),
        MockOutputPin::new(),
        MockOutputPin::new(),
        MockOutputPin::new(),
        MockOutputPin::new(),
        MockOutputPin::new(),
        MockOutputPin::new(),
        MockOutputPin::new(),
    );
    let mut bus = Generic16BitBus::new(pins);
    assert!(bus.set_value(0x8001).is_ok());
    let pins = bus.release();
    assert_eq!(pins.0.history(), &vec![Some(true)]);
    assert_eq!(pins.1.history(), &vec![Some(false)]);
    assert_eq!(pins.14.history(), &vec![Some(false)]);
    assert_eq!(pins.15.history(), &vec![Some(true)]);
}

#[test]
fn parallel_command_strobes_each_word() {
    let bus = Generic8BitBus::new(eight_pins());
    let mut iface = ParallelInterface::new(bus, MockOutputPin::new(), MockOutputPin::new());
    assert!(iface.send_command(0x2a, &[0, 0, 0, 239]).is_ok());
    let (_, dc, wr) = iface.release();
    // Selector: low for the instruction, high for the parameters.
    assert_eq!(dc.history(), &vec![Some(false), Some(true)]);
    // One low-high strobe per word: instruction plus four parameters.
    let mut expected_wr = Vec::new();
    for _ in 0..5 {
        expected_wr.push(Some(false));
        expected_wr.push(Some(true));
    }
    assert_eq!(wr.history(), &expected_wr);
}

#[test]
fn parallel_data_leaves_selector_untouched() {
    let bus = Generic8BitBus::new(eight_pins());
    let mut iface = ParallelInterface::new(bus, MockOutputPin::new(), MockOutputPin::new());
    assert!(iface.send_data_slice(&[1, 2, 3]).is_ok());
    let (_, dc, wr) = iface.release();
    assert!(dc.history().is_empty());
    assert_eq!(wr.history().len(), 6);
}

#[test]
fn parallel_selector_error_is_surfaced() {
    let bus = Generic8BitBus::new(eight_pins());
    let mut iface = ParallelInterface::new(bus, MockOutputPin::failing_at(0), MockOutputPin::new());
    let r = iface.send_command(0x2a, &[]);
    assert!(matches!(r, Err(ParallelError::Dc(_))));
}

#[test]
fn parallel_write_enable_error_is_surfaced() {
    let bus = Generic8BitBus::new(eight_pins());
    let mut iface = ParallelInterface::new(bus, MockOutputPin::new(), MockOutputPin::failing_at(0));
    let r = iface.send_command(0x2a, &[]);
    assert!(matches!(r, Err(ParallelError::Wr(_))));
}

#[test]
fn parallel_bus_error_is_surfaced() {
    let mut pins = eight_pins();
    pins.3 = MockOutputPin::failing_at(0);
    let bus = Generic8BitBus::new(pins);
    let mut iface = ParallelInterface::new(bus, MockOutputPin::new(), MockOutputPin::new());
    let r = iface.send_command(0x08, &[]);
    assert!(matches!(r, Err(ParallelError::Bus(_))));
}
