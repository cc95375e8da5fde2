use oxibloom::error::{internal_desc, SysError, INTERNAL_START, UNSUPPORTED};
use oxibloom::os_random::{
    check_slice_bounds, extern_error, get_random_i128, get_random_i16, get_random_i32,
    get_random_i64, get_random_i8, get_random_u128, get_random_u16, get_random_u32,
    get_random_u64, get_random_u8, status_error, EntropyBuffer, BUFFER_LENGTH,
};

fn counting_bytes(offset: u8) -> Vec<u8> {
    (0..BUFFER_LENGTH).map(|i| (i as u8).wrapping_add(offset)).collect()
}

#[test]
fn unfilled_buffer_asks_for_refill() {
    let mut buffer = EntropyBuffer::new();
    assert!(buffer.needs_refill(1));
    assert_eq!(get_random_u8(&mut buffer), None);
    assert_eq!(get_random_u64(&mut buffer), None);
    assert_eq!(buffer.buffer_index(), 0);
}

#[test]
fn reads_advance_the_cursor() {
    let mut buffer = EntropyBuffer::new();
    buffer.refill(counting_bytes(0));
    assert!(!buffer.needs_refill(16));
    assert_eq!(get_random_u8(&mut buffer), Some(0));
    assert_eq!(buffer.buffer_index(), 1);
    assert_eq!(get_random_u16(&mut buffer), Some(u16::from_ne_bytes([1, 2])));
    assert_eq!(buffer.buffer_index(), 3);
    assert_eq!(get_random_u32(&mut buffer), Some(u32::from_ne_bytes([3, 4, 5, 6])));
    assert_eq!(buffer.buffer_index(), 7);
    assert_eq!(
        get_random_u64(&mut buffer),
        Some(u64::from_ne_bytes([7, 8, 9, 10, 11, 12, 13, 14]))
    );
    assert_eq!(buffer.buffer_index(), 15);
    let expected: [u8; 16] = core::array::from_fn(|i| 15 + i as u8);
    assert_eq!(get_random_u128(&mut buffer), Some(u128::from_ne_bytes(expected)));
    assert_eq!(buffer.buffer_index(), 31);
}

#[test]
fn multi_byte_reads_differ_from_single_bytes() {
    let mut buffer = EntropyBuffer::new();
    buffer.refill(counting_bytes(1));
    let v = get_random_u16(&mut buffer).unwrap();
    assert!(v == 0x0102 || v == 0x0201);
    let w = get_random_u32(&mut buffer).unwrap();
    assert!(w == 0x0304_0506 || w == 0x0605_0403);
}

#[test]
fn signed_reads_are_twos_complement() {
    let mut fresh = vec![0xFFu8; BUFFER_LENGTH];
    fresh[0] = 0x80;
    let mut buffer = EntropyBuffer::new();
    buffer.refill(fresh);
    assert_eq!(get_random_i8(&mut buffer), Some(i8::MIN));
    assert_eq!(get_random_i8(&mut buffer), Some(-1));
    assert_eq!(get_random_i16(&mut buffer), Some(-1));
    assert_eq!(get_random_i32(&mut buffer), Some(-1));
    assert_eq!(get_random_i64(&mut buffer), Some(-1));
    assert_eq!(get_random_i128(&mut buffer), Some(-1));
    assert_eq!(buffer.buffer_index(), 1 + 1 + 2 + 4 + 8 + 16);
}

#[test]
fn exhausted_buffer_refills_and_serves_from_start() {
    let mut buffer = EntropyBuffer::new();
    buffer.refill(counting_bytes(0));
    for _ in 0..63 {
        assert!(get_random_u128(&mut buffer).is_some());
    }
    assert_eq!(buffer.buffer_index(), 1008);
    assert!(buffer.needs_refill(16));
    assert_eq!(get_random_u128(&mut buffer), None);
    assert_eq!(buffer.buffer_index(), 1008);
    assert!(!buffer.needs_refill(15));
    buffer.refill(counting_bytes(100));
    let expected: [u8; 16] = core::array::from_fn(|i| 100 + i as u8);
    assert_eq!(get_random_u128(&mut buffer), Some(u128::from_ne_bytes(expected)));
    assert_eq!(buffer.buffer_index(), 16);
}

#[test]
fn slice_bounds_exclude_the_last_byte() {
    assert!(check_slice_bounds(0, 1023));
    assert!(!check_slice_bounds(0, 1024));
    assert!(check_slice_bounds(1008, 15));
    assert!(!check_slice_bounds(1008, 16));
    assert!(!check_slice_bounds(usize::MAX, 2));
    assert!(!check_slice_bounds(2, usize::MAX));
}

#[test]
fn windows_status_codes() {
    assert!(extern_error(0xC000_0001));
    assert!(!extern_error(0x8000_0000));
    assert!(!extern_error(0));
    assert_eq!(status_error(0), None);
    assert_eq!(status_error(0x4000_0000), None);
    let e = status_error(0xC000_0005).unwrap();
    assert_eq!(e.code(), 0x4000_0005);
    assert_eq!(e.raw_os_error(), Some(0x4000_0005));
}

#[test]
fn error_codes_and_descriptions() {
    assert_eq!(SysError::from_code(0), None);
    let os = SysError::from_code(5).unwrap();
    assert_eq!(os.raw_os_error(), Some(5));
    assert_eq!(internal_desc(os), None);
    let unsupported = SysError::internal_error(0);
    assert_eq!(unsupported.code(), UNSUPPORTED);
    assert_eq!(unsupported.code(), INTERNAL_START);
    assert_eq!(unsupported.raw_os_error(), None);
    assert_eq!(internal_desc(unsupported), Some("getrandom: this target is not supported"));
    assert_eq!(
        internal_desc(SysError::internal_error(1)),
        Some("errno: did not return a positive value")
    );
    assert_eq!(
        internal_desc(SysError::internal_error(4)),
        Some("RtlGenRandom: Windows system function failure")
    );
    assert_eq!(
        internal_desc(SysError::internal_error(5)),
        Some("RDRAND: failed multiple times: CPU issue likely")
    );
    assert_eq!(
        internal_desc(SysError::internal_error(6)),
        Some("RDRAND: instruction not supported")
    );
    assert_eq!(internal_desc(SysError::internal_error(2)), None);
    let custom = SysError::from_code(0xC000_0000).unwrap();
    assert_eq!(custom.raw_os_error(), None);
    assert_eq!(internal_desc(custom), None);
}
