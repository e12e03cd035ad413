use lcd_async::interface::{Interface, SpiError, SpiInterface};
use lcd_async::mock::{MockOutputPin, MockSpi};

#[test]
fn serial_command_is_two_bursts() {
    // An instruction burst while the selector is low, then the parameter
    // burst while it is high.
    let mut iface = SpiInterface::new(MockSpi::new(), MockOutputPin::new());
    let r = iface.send_command(0x2a, &[0, 0, 0, 239]);
    assert!(r.is_ok());
    let (spi, dc) = iface.release();
    assert_eq!(spi.bursts(), &vec![vec![0x2a], vec![0, 0, 0, 239]]);
    assert_eq!(dc.history(), &vec![Some(false), Some(true)]);
}

#[test]
fn serial_data_is_streamed_unmodified() {
    let mut iface = SpiInterface::new(MockSpi::new(), MockOutputPin::new());
    let frame = vec![1u8, 2, 3, 4, 5, 6];
    assert!(iface.send_data_slice(&frame).is_ok());
    let (spi, dc) = iface.release();
    assert_eq!(spi.bursts(), &vec![frame]);
    // A data burst never touches the selector.
    assert!(dc.history().is_empty());
}

#[test]
fn serial_bus_error_is_surfaced() {
    let mut iface = SpiInterface::new(MockSpi::failing_at(0), MockOutputPin::new());
    let r = iface.send_command(0x2a, &[1, 2]);
    assert!(matches!(r, Err(SpiError::Spi(_))));
}

#[test]
fn serial_selector_error_is_surfaced() {
    let mut iface = SpiInterface::new(MockSpi::new(), MockOutputPin::failing_at(0));
    let r = iface.send_command(0x2a, &[1, 2]);
    assert!(matches!(r, Err(SpiError::Dc(_))));
    // Nothing reached the bus: the selector never went low.
    let (spi, _) = iface.release();
    assert!(spi.bursts().is_empty());
}
