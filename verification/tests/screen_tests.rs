use hexview::screen::render_frame;

#[test]
fn frame_has_one_line_per_row_and_a_status_row() {
    let buffer: Vec<u8> = vec![0x41; 40];
    let frame = render_frame(&buffer, 0, 4, 20, "Press 'q' to quit");
    assert_eq!(frame.len(), 4);
    assert_eq!(frame[0], "00000000: 41 41 41 4");
    assert_eq!(frame[1], "00000010: 41 41 41 4");
    assert_eq!(frame[2], "00000020: 41 41 41 4");
    assert_eq!(frame[3], "Press 'q' to quit   ");
}

#[test]
fn frame_starts_at_the_scroll_offset() {
    let buffer: Vec<u8> = vec![0x42; 64];
    let frame = render_frame(&buffer, 2, 3, 12, "status");
    assert_eq!(frame.len(), 3);
    assert_eq!(frame[0], "00000020: 42");
    assert_eq!(frame[1], "00000030: 42");
    assert_eq!(frame[2], "status      ");
}

#[test]
fn frame_rows_past_the_buffer_show_empty_lines() {
    let buffer: Vec<u8> = vec![0x43; 8];
    let frame = render_frame(&buffer, 0, 4, 67, "s");
    assert_eq!(frame[0], format!("00000000: {}{} CCCCCCCC", "43 ".repeat(8), " ".repeat(24)));
    assert_eq!(frame[1], format!("00000010: {} {}", " ".repeat(48), " ".repeat(8)));
    assert_eq!(frame[2], format!("00000020: {} {}", " ".repeat(48), " ".repeat(8)));
    assert_eq!(frame[3], format!("s{}", " ".repeat(66)));
    for line in &frame {
        assert_eq!(line.chars().count(), 67);
    }
}
