use led_panel::hex::hex_to_bin;
use led_panel::sink::RecordingSink;
use led_panel::wire_protocol::byte_to_spi_bytes;
use led_panel::ColorRGB;
use led_panel::LedError;
use led_panel::LedPanel;

#[test]
fn parses_six_hex_digits() {
    assert_eq!(Ok(ColorRGB(0x33, 0x00, 0x00)), hex_to_bin("330000"));
    assert_eq!(Ok(ColorRGB(0x01, 0x02, 0x03)), hex_to_bin("010203"));
    assert_eq!(Ok(ColorRGB(0xff, 0xff, 0xff)), hex_to_bin("ffffff"));
}

#[test]
fn parsing_is_case_insensitive() {
    assert_eq!(Ok(ColorRGB(0xaa, 0xbb, 0xcc)), hex_to_bin("aAbBcC"));
    assert_eq!(Ok(ColorRGB(0xde, 0xad, 0x0f)), hex_to_bin("DEAD0F"));
}

#[test]
fn rejects_wrong_length() {
    assert_eq!(Err(LedError::InvalidColorFormat), hex_to_bin("33000"));
    assert_eq!(Err(LedError::InvalidColorFormat), hex_to_bin("3300000"));
    assert_eq!(Err(LedError::InvalidColorFormat), hex_to_bin(""));
}

#[test]
fn rejects_non_hex_characters() {
    assert_eq!(Err(LedError::InvalidColorFormat), hex_to_bin("GG0000"));
    assert_eq!(Err(LedError::InvalidColorFormat), hex_to_bin("33000g"));
    assert_eq!(Err(LedError::InvalidColorFormat), hex_to_bin("#30000"));
}

#[test]
fn malformed_code_leaves_buffer_untouched() {
    let mut panel = LedPanel::new(RecordingSink::new(), 2);
    let r = panel.convert_and_push(&["330000", "GG0000"]);
    assert_eq!(Err(LedError::InvalidColorFormat), r);
    // eager validation: nothing of the batch reached the buffer or the bus
    assert_eq!(0, panel.buffer_len());
    assert_eq!(0, panel.spi().transfers.len());
}

#[test]
fn convert_and_push_buffers_encodings() {
    let mut panel = LedPanel::new(RecordingSink::new(), 2);
    assert!(panel.convert_and_push(&["330000"]).is_ok());
    // three channels of three bytes each, not yet flushed
    assert_eq!(9, panel.buffer_len());
    assert_eq!(0, panel.spi().transfers.len());
}

#[test]
fn convert_and_write_flushes_parsed_colors() {
    let mut panel = LedPanel::new(RecordingSink::new(), 2);
    let r = panel.convert_and_write(&["330000", "003300"]);
    assert!(r.is_ok());
    assert_eq!(0, panel.buffer_len());
    let transfers = &panel.spi().transfers;
    assert_eq!(1, transfers.len());
    let mut expected: Vec<u8> = Vec::new();
    // wire order green, red, blue per color
    for ch in [0x00u8, 0x33, 0x00, 0x33, 0x00, 0x00] {
        expected.extend_from_slice(&byte_to_spi_bytes(ch));
    }
    assert_eq!(expected, transfers[0]);
}

#[test]
fn convert_and_write_rejects_malformed_batch() {
    let mut panel = LedPanel::new(RecordingSink::new(), 2);
    let r = panel.convert_and_write(&["330000", "33000"]);
    assert_eq!(Err(LedError::InvalidColorFormat), r);
    assert_eq!(0, panel.buffer_len());
    assert_eq!(0, panel.spi().transfers.len());
}
