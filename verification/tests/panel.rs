use led_panel::sink::RecordingSink;
use led_panel::sink::RejectingSink;
use led_panel::to_wire_order;
use led_panel::wire_protocol::byte_to_spi_bytes;
use led_panel::ColorRGB;
use led_panel::LedError;
use led_panel::LedPanel;

fn encoded(channels: &[u8]) -> Vec<u8> {
    let mut out: Vec<u8> = Vec::new();
    for &ch in channels {
        out.extend_from_slice(&byte_to_spi_bytes(ch));
    }
    out
}

#[test]
fn wire_order_is_green_red_blue() {
    let color = ColorRGB(1, 2, 3);
    assert_eq!((2, 1, 3), to_wire_order(&color));
}

#[test]
fn two_led_frame_payload() {
    // Panel with two LEDs: each color contributes 3 channels of 3 bytes each.
    let mut panel = LedPanel::new(RecordingSink::new(), 2);
    let r = panel.set_leds(&[ColorRGB(0x33, 0, 0), ColorRGB(0, 0x33, 0)]);
    assert!(r.is_ok());
    let transfers = &panel.spi().transfers;
    assert_eq!(1, transfers.len());
    let payload = &transfers[0];
    assert_eq!(18, payload.len());
    // LED 0, wire channel 1 is green = 0
    assert_eq!([36, 73, 146], payload[0..3]);
    // LED 0, wire channel 2 is red = 0x33
    assert_eq!(byte_to_spi_bytes(0x33)[..], payload[3..6]);
    // full frame: (g, r, b) per LED
    assert_eq!(encoded(&[0, 0x33, 0, 0x33, 0, 0]), *payload);
}

#[test]
fn single_color_round_trip() {
    let mut panel = LedPanel::new(RecordingSink::new(), 1);
    let r = panel.set_leds(&[ColorRGB(10, 20, 30)]);
    assert!(r.is_ok());
    // payload is the three reordered channels (green, red, blue), each encoded
    assert_eq!(encoded(&[20, 10, 30]), panel.spi().transfers[0]);
}

#[test]
fn clear_all_twice_same_payload() {
    let mut panel = LedPanel::new(RecordingSink::new(), 2);
    assert!(panel.clear_all_leds().is_ok());
    assert!(panel.clear_all_leds().is_ok());
    let transfers = &panel.spi().transfers;
    assert_eq!(2, transfers.len());
    assert_eq!(transfers[0], transfers[1]);
    // num_leds repetitions of the encoded zero color, 3 channels per LED
    assert_eq!(encoded(&[0, 0, 0, 0, 0, 0]), transfers[0]);
    assert_eq!(18, transfers[0].len());
}

#[test]
fn clear_discards_buffered_bytes() {
    let mut panel = LedPanel::new(RecordingSink::new(), 1);
    let r = panel.convert_and_push(&["ff00ff"]);
    assert!(r.is_ok());
    assert_eq!(9, panel.buffer_len());
    assert!(panel.clear_all_leds().is_ok());
    // the stale frame was dropped: the transfer holds only the zero color
    assert_eq!(encoded(&[0, 0, 0]), panel.spi().transfers[0]);
}

#[test]
fn buffer_empty_after_flush() {
    let mut panel = LedPanel::new(RecordingSink::new(), 3);
    assert!(panel.set_leds(&[ColorRGB(1, 2, 3)]).is_ok());
    assert_eq!(0, panel.buffer_len());
    assert!(panel.clear_all_leds().is_ok());
    assert_eq!(0, panel.buffer_len());
    assert!(panel.write().is_ok());
    assert_eq!(0, panel.buffer_len());
}

#[test]
fn failed_transfer_reports_bus_error_and_drains() {
    let mut panel = LedPanel::new(RejectingSink::new(), 2);
    let r = panel.set_leds(&[ColorRGB(5, 6, 7)]);
    assert_eq!(Err(LedError::BusTransferError), r);
    // the buffer is drained even on failure: no stale bytes survive
    assert_eq!(0, panel.buffer_len());
    assert_eq!(Err(LedError::BusTransferError), panel.clear_all_leds());
    assert_eq!(0, panel.buffer_len());
}

#[test]
fn led_count_is_not_enforced_on_frames() {
    // the caller is responsible for the frame length: a one-LED panel still
    // encodes and transfers a two-color frame
    let mut panel = LedPanel::new(RecordingSink::new(), 1);
    assert!(panel.set_leds(&[ColorRGB(1, 2, 3), ColorRGB(4, 5, 6)]).is_ok());
    assert_eq!(18, panel.spi().transfers[0].len());
}

#[test]
fn empty_frame_transfers_empty_payload() {
    let mut panel = LedPanel::new(RecordingSink::new(), 4);
    assert!(panel.set_leds(&[]).is_ok());
    assert_eq!(1, panel.spi().transfers.len());
    assert_eq!(0, panel.spi().transfers[0].len());
}

#[test]
fn new_panel_is_at_rest() {
    let panel = LedPanel::new(RecordingSink::new(), 256);
    assert_eq!(0, panel.buffer_len());
    assert_eq!(256, panel.num_leds());
    assert_eq!(0, panel.spi().transfers.len());
}
