use hex_guest::arena::Arena;
use hex_guest::boundary::unpack;
use hex_guest::exports::{decode_export, encode_export};
use hex_guest::marshal::{copy_in, hand_off, log_params, LinearMemoryRegion, OwnedBuffer};

/// Plays the host: writes `input` into a region it allocates, invokes one
/// transform export, and returns the output bytes together with the output
/// region so the test can release it.
fn call_export(
    arena: &mut Arena,
    input: &[u8],
    export: fn(&mut Arena, u32, u32) -> Option<u64>,
) -> Option<(Vec<u8>, u32, u32)> {
    let len = input.len() as u32;
    let in_ptr = arena.allocate(len).expect("input region");
    arena.write(in_ptr, input);
    let result = export(arena, in_ptr, len);
    arena.release(in_ptr, len);
    result.map(|handle| {
        let (out_ptr, out_len) = unpack(handle);
        (arena.read(out_ptr, out_len), out_ptr, out_len)
    })
}

#[test]
fn encode_export_round() {
    let mut arena = Arena::new(256);
    let (bytes, out_ptr, out_len) =
        call_export(&mut arena, &[0x00, 0xFF, 0x10], encode_export).unwrap();
    assert_eq!(bytes, b"00ff10".to_vec());
    assert_eq!(out_len, 6);
    arena.release(out_ptr, out_len);
}

#[test]
fn decode_export_round() {
    let mut arena = Arena::new(256);
    let (bytes, out_ptr, out_len) = call_export(&mut arena, b"00ff10", decode_export).unwrap();
    assert_eq!(bytes, vec![0x00, 0xFF, 0x10]);
    assert_eq!(out_len, 3);
    arena.release(out_ptr, out_len);
}

#[test]
fn exports_compose_to_identity() {
    let mut arena = Arena::new(1 << 12);
    let input: Vec<u8> = (0u16..=255).map(|b| b as u8).collect();
    let (text, t_ptr, t_len) = call_export(&mut arena, &input, encode_export).unwrap();
    let (bytes, b_ptr, b_len) = call_export(&mut arena, &text, decode_export).unwrap();
    assert_eq!(bytes, input);
    arena.release(t_ptr, t_len);
    arena.release(b_ptr, b_len);
}

#[test]
fn decode_export_refuses_odd_length() {
    let mut arena = Arena::new(64);
    assert!(call_export(&mut arena, b"abc", decode_export).is_none());
}

#[test]
fn decode_export_refuses_non_hex() {
    let mut arena = Arena::new(64);
    assert!(call_export(&mut arena, b"zz01", decode_export).is_none());
}

#[test]
fn decode_export_leaves_memory_unchanged_on_malformed_input() {
    let mut arena = Arena::new(64);
    let in_ptr = arena.allocate(4).unwrap();
    arena.write(in_ptr, b"zz01");
    assert_eq!(decode_export(&mut arena, in_ptr, 4), None);
    assert_eq!(arena.read(in_ptr, 4), b"zz01".to_vec());
    arena.release(in_ptr, 4);
}

#[test]
fn encode_export_does_not_touch_borrowed_input() {
    let mut arena = Arena::new(64);
    let in_ptr = arena.allocate(3).unwrap();
    arena.write(in_ptr, &[0x00, 0xFF, 0x10]);
    let handle = encode_export(&mut arena, in_ptr, 3).unwrap();
    assert_eq!(arena.read(in_ptr, 3), vec![0x00, 0xFF, 0x10]);
    let (out_ptr, out_len) = unpack(handle);
    arena.release(out_ptr, out_len);
    arena.release(in_ptr, 3);
}

#[test]
fn hand_off_transfers_bytes_without_the_buffer() {
    let mut arena = Arena::new(32);
    let buffer = OwnedBuffer::from_vec(vec![9, 8, 7]);
    let region = hand_off(&mut arena, buffer).unwrap();
    assert_eq!(region.length, 3);
    assert_eq!(arena.read(region.pointer, region.length), vec![9, 8, 7]);
    arena.release(region.pointer, region.length);
}

#[test]
fn copy_in_borrows_and_copies() {
    let mut arena = Arena::new(32);
    let p = arena.allocate(5).unwrap();
    arena.write(p, b"hello");
    let buffer = copy_in(&arena, LinearMemoryRegion { pointer: p, length: 5 });
    assert_eq!(buffer.as_bytes(), b"hello");
    // The source region is untouched and still the caller's to release.
    assert_eq!(arena.read(p, 5), b"hello".to_vec());
    arena.release(p, 5);
}

#[test]
fn owned_buffer_reports_its_length() {
    let buffer = OwnedBuffer::from_vec(vec![1, 2, 3, 4]);
    assert_eq!(buffer.len(), 4);
    assert_eq!(buffer.as_bytes(), &[1, 2, 3, 4]);
}

#[test]
fn logging_does_not_take_the_region() {
    let mut arena = Arena::new(32);
    let p = arena.allocate(5).unwrap();
    arena.write(p, b"hello");
    let region = LinearMemoryRegion { pointer: p, length: 5 };
    let (ptr, len) = log_params(&region);
    assert_eq!((ptr, len), (p, 5));
    // The guest can still release the same region itself afterwards.
    arena.release(p, 5);
}
