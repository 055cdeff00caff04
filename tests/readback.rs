use frame_readback::fixture::{pattern_bytes, seeded_texture_bytes};
use frame_readback::layout::{finish_readback, plan_layout, strip_row_padding, MapOutcome};

#[test]
fn plan_for_full_frame() {
    let l = plan_layout(1024, 1024, 256).unwrap();
    assert_eq!(l.width, 1024);
    assert_eq!(l.height, 1024);
    assert_eq!(l.row_bytes, 4096);
    assert_eq!(l.padded_row_bytes, 4096);
    assert_eq!(l.buffer_size, 4096 * 1024);
    assert_eq!(l.output_len, 1024 * 1024 * 4);
}

#[test]
fn plan_pads_narrow_rows() {
    let l = plan_layout(3, 2, 256).unwrap();
    assert_eq!(l.row_bytes, 12);
    assert_eq!(l.padded_row_bytes, 256);
    assert_eq!(l.buffer_size, 512);
    assert_eq!(l.output_len, 24);
}

#[test]
fn plan_rounds_up_to_next_multiple() {
    let l = plan_layout(65, 1, 256).unwrap();
    assert_eq!(l.row_bytes, 260);
    assert_eq!(l.padded_row_bytes, 512);
    assert_eq!(l.buffer_size, 512);
}

#[test]
fn plan_of_empty_texture() {
    let l = plan_layout(0, 5, 256).unwrap();
    assert_eq!(l.padded_row_bytes, 0);
    assert_eq!(l.buffer_size, 0);
    assert_eq!(l.output_len, 0);
}

#[test]
fn plan_refuses_rows_wider_than_u32() {
    assert!(plan_layout(u32::MAX / 4, 1, 256).is_none());
    assert!(plan_layout(u32::MAX, u32::MAX, 1).is_none());
    let l = plan_layout(u32::MAX / 4, 3, 1).unwrap();
    assert_eq!(l.row_bytes, u32::MAX - 3);
    assert_eq!(l.buffer_size, (u32::MAX as u64 - 3) * 3);
}

#[test]
fn strip_drops_row_padding() {
    let l = plan_layout(1, 2, 8).unwrap();
    let mapped: Vec<u8> = vec![1, 2, 3, 4, 9, 9, 9, 9, 5, 6, 7, 8, 9, 9, 9, 9];
    assert_eq!(strip_row_padding(&mapped, &l), vec![1, 2, 3, 4, 5, 6, 7, 8]);
}

#[test]
fn pattern_round_trips_through_padded_buffer() {
    let (w, h) = (5u32, 3u32);
    let l = plan_layout(w, h, 256).unwrap();
    let image = pattern_bytes(l.output_len as usize);
    let mut mapped: Vec<u8> = vec![0xAA; l.buffer_size as usize];
    for r in 0..h as usize {
        let row = l.row_bytes as usize;
        let pad = l.padded_row_bytes as usize;
        mapped[r * pad..r * pad + row].copy_from_slice(&image[r * row..(r + 1) * row]);
    }
    let out = finish_readback(MapOutcome::Mapped, &mapped, &l);
    assert_eq!(out, image);
    assert!(!out.contains(&0xAA));
}

#[test]
fn successful_readback_has_four_bytes_per_pixel() {
    let l = plan_layout(7, 4, 256).unwrap();
    let mapped: Vec<u8> = vec![3; l.buffer_size as usize];
    let out = finish_readback(MapOutcome::Mapped, &mapped, &l);
    assert_eq!(out.len(), 7 * 4 * 4);
    assert!(out.iter().all(|b| *b == 3));
}

#[test]
fn failed_mapping_gives_empty_buffer() {
    let l = plan_layout(2, 2, 256).unwrap();
    let mapped: Vec<u8> = vec![1; l.buffer_size as usize];
    assert!(finish_readback(MapOutcome::Failed, &mapped, &l).is_empty());
}

#[test]
fn abandoned_mapping_gives_empty_buffer() {
    let l = plan_layout(2, 2, 256).unwrap();
    let mapped: Vec<u8> = vec![1; l.buffer_size as usize];
    assert!(finish_readback(MapOutcome::Abandoned, &mapped, &l).is_empty());
}

#[test]
fn short_mapped_region_gives_empty_buffer() {
    let l = plan_layout(2, 2, 256).unwrap();
    let mapped: Vec<u8> = vec![1; l.buffer_size as usize - 1];
    assert!(finish_readback(MapOutcome::Mapped, &mapped, &l).is_empty());
}

#[test]
fn pattern_repeats_one_to_four() {
    assert_eq!(pattern_bytes(10), vec![1, 2, 3, 4, 1, 2, 3, 4, 1, 2]);
    assert!(pattern_bytes(0).is_empty());
}

#[test]
fn seeded_noise_has_four_bytes_per_pixel() {
    assert_eq!(seeded_texture_bytes(7, 1024, 1024).unwrap().len(), 1024 * 1024 * 4);
    assert!(seeded_texture_bytes(7, 0, 9).unwrap().is_empty());
}

#[test]
fn seeded_noise_repeats_for_one_seed() {
    let a = seeded_texture_bytes(42, 16, 8).unwrap();
    let b = seeded_texture_bytes(42, 16, 8).unwrap();
    assert_eq!(a, b);
    assert_ne!(a, seeded_texture_bytes(43, 16, 8).unwrap());
    assert!(a.iter().any(|x| *x != 0));
}

#[test]
fn seeded_noise_refuses_unaddressable_size() {
    if usize::MAX as u128 >= (u32::MAX as u128) * (u32::MAX as u128) * 4 {
        return;
    }
    assert!(seeded_texture_bytes(1, u32::MAX, u32::MAX).is_none());
}
