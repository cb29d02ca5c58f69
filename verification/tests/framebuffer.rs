//! The double-buffer protocol and the sprite draw, exercised directly on
//! DisplayBuffer.

use chip8::display::DisplayBuffer;

#[test]
fn swap_twice_restores_current_slot() {
    let mut d = DisplayBuffer::new();
    let before = d.current_buffer_index();
    d.swap_buffers();
    assert_ne!(d.current_buffer_index(), before);
    d.swap_buffers();
    assert_eq!(d.current_buffer_index(), before);
}

#[test]
fn set_buffer_addresses_current_inactive_and_physical_slots() {
    let mut d = DisplayBuffer::new();
    assert_eq!(d.current_buffer_index(), 0);

    let mut marked = vec![0u8; 2048];
    marked[5] = 255;
    d.set_buffer(-1, marked.clone());
    assert_eq!(d.current_buffer()[5], 255);
    assert_eq!(d.inactive_buffer()[5], 0);

    let mut other = vec![0u8; 2048];
    other[7] = 255;
    d.set_buffer(-2, other);
    assert_eq!(d.inactive_buffer()[7], 255);
    assert_eq!(d.current_buffer()[7], 0);

    let mut phys = vec![0u8; 2048];
    phys[9] = 255;
    d.set_buffer(1, phys);
    assert_eq!(d.inactive_buffer()[9], 255);

    d.swap_buffers();
    assert_eq!(d.current_buffer()[9], 255);
    assert_eq!(d.inactive_buffer()[5], 255);
}

#[test]
fn clear_resets_one_slot() {
    let mut d = DisplayBuffer::new();
    let mut marked = vec![0u8; 2048];
    marked[5] = 255;
    d.set_buffer(0, marked.clone());
    d.set_buffer(1, marked);
    d.clear(0);
    assert!(d.current_buffer().iter().all(|&p| p == 0));
    assert_eq!(d.inactive_buffer()[5], 255);
    d.clear(1);
    assert!(d.inactive_buffer().iter().all(|&p| p == 0));
}

#[test]
fn draw_toggles_pixels_and_reports_erasure() {
    let mut d = DisplayBuffer::new();
    let sprite = vec![0xFFu8];
    let erased = d.draw(-1, 0, 0, &sprite);
    assert!(!erased);
    let g = d.current_buffer();
    for col in 0..8 {
        assert_eq!(g[31 * 64 + col], 255);
    }
    for col in 8..64 {
        assert_eq!(g[31 * 64 + col], 0);
    }
    let erased = d.draw(-1, 0, 0, &sprite);
    assert!(erased);
    assert!(d.current_buffer().iter().all(|&p| p == 0));
}

#[test]
fn draw_wraps_origin_coordinates() {
    // x = 70 wraps to column 6; y = 33 wraps to 1 and flips to stored row 30.
    let mut d = DisplayBuffer::new();
    let sprite = vec![0x80u8];
    let erased = d.draw(-1, 70, 33, &sprite);
    assert!(!erased);
    assert_eq!(d.current_buffer()[30 * 64 + 6], 255);
}

#[test]
fn draw_clips_columns_past_the_right_edge() {
    // At x = 60 only four of the eight sprite columns exist; the rest are
    // skipped, not wrapped around.
    let mut d = DisplayBuffer::new();
    let sprite = vec![0xFFu8];
    d.draw(-1, 60, 0, &sprite);
    let g = d.current_buffer();
    for col in 60..64 {
        assert_eq!(g[31 * 64 + col], 255);
    }
    for col in 0..60 {
        assert_eq!(g[31 * 64 + col], 0);
    }
}

#[test]
fn draw_skips_rows_past_the_flipped_origin() {
    // y = 31 flips to stored row 0; the second sprite row would land below
    // the grid and is skipped.
    let mut d = DisplayBuffer::new();
    let sprite = vec![0x80u8, 0x80u8];
    d.draw(-1, 0, 31, &sprite);
    let g = d.current_buffer();
    assert_eq!(g[0], 255);
    assert_eq!(g.iter().filter(|&&p| p != 0).count(), 1);
}

#[test]
fn draw_partial_overlap_erases_only_hit_pixels() {
    let mut d = DisplayBuffer::new();
    d.draw(-1, 0, 0, &vec![0xF0u8]);
    let erased = d.draw(-1, 4, 0, &vec![0xF0u8]);
    assert!(!erased);
    let g = d.current_buffer();
    for col in 0..8 {
        assert_eq!(g[31 * 64 + col], 255);
    }
    let erased = d.draw(-1, 0, 0, &vec![0xFFu8]);
    assert!(erased);
    let g = d.current_buffer();
    for col in 0..8 {
        assert_eq!(g[31 * 64 + col], 0);
    }
}

#[test]
fn draw_targets_the_selected_slot() {
    let mut d = DisplayBuffer::new();
    d.draw(-2, 0, 0, &vec![0x80u8]);
    assert_eq!(d.current_buffer()[31 * 64], 0);
    assert_eq!(d.inactive_buffer()[31 * 64], 255);
    d.draw(0, 8, 0, &vec![0x80u8]);
    assert_eq!(d.current_buffer()[31 * 64 + 8], 255);
}
