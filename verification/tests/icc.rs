use jxl_reconstruct::icc::ICC_CONTEXTS;
use jxl_reconstruct::{get_icc_ctx, Error, IccStream};

#[test]
fn icc_ctx_is_zero_for_the_first_bytes() {
    assert_eq!(get_icc_ctx(0, b'a', b'b'), 0);
    assert_eq!(get_icc_ctx(128, 255, 255), 0);
    assert_ne!(get_icc_ctx(129, 255, 255), 0);
}

#[test]
fn icc_ctx_classes_of_the_last_byte() {
    // second byte is a letter (class 0), so the context is 1 + class of the first
    assert_eq!(get_icc_ctx(200, b'a', b'a'), 1);
    assert_eq!(get_icc_ctx(200, b'z', b'a'), 1);
    assert_eq!(get_icc_ctx(200, b'A', b'a'), 1);
    assert_eq!(get_icc_ctx(200, b'Z', b'a'), 1);
    assert_eq!(get_icc_ctx(200, b'0', b'a'), 2);
    assert_eq!(get_icc_ctx(200, b'9', b'a'), 2);
    assert_eq!(get_icc_ctx(200, b'.', b'a'), 2);
    assert_eq!(get_icc_ctx(200, b',', b'a'), 2);
    assert_eq!(get_icc_ctx(200, 0, b'a'), 3);
    assert_eq!(get_icc_ctx(200, 1, b'a'), 4);
    assert_eq!(get_icc_ctx(200, 2, b'a'), 5);
    assert_eq!(get_icc_ctx(200, 15, b'a'), 5);
    assert_eq!(get_icc_ctx(200, 241, b'a'), 6);
    assert_eq!(get_icc_ctx(200, 254, b'a'), 6);
    assert_eq!(get_icc_ctx(200, 255, b'a'), 7);
    assert_eq!(get_icc_ctx(200, 16, b'a'), 8);
    assert_eq!(get_icc_ctx(200, b'-', b'a'), 8);
    assert_eq!(get_icc_ctx(200, 240, b'a'), 8);
    assert_eq!(get_icc_ctx(200, b'[', b'a'), 8);
}

#[test]
fn icc_ctx_classes_of_the_earlier_byte() {
    assert_eq!(get_icc_ctx(200, b'a', b'q'), 1);
    assert_eq!(get_icc_ctx(200, b'a', b'5'), 9);
    assert_eq!(get_icc_ctx(200, b'a', b','), 9);
    assert_eq!(get_icc_ctx(200, b'a', 0), 17);
    assert_eq!(get_icc_ctx(200, b'a', 15), 17);
    assert_eq!(get_icc_ctx(200, b'a', 241), 25);
    assert_eq!(get_icc_ctx(200, b'a', 255), 25);
    assert_eq!(get_icc_ctx(200, b'a', 16), 33);
    assert_eq!(get_icc_ctx(200, b'a', 240), 33);
    assert_eq!(get_icc_ctx(200, 100 + 100, 200), 1 + 7 + 8 * 4);
}

#[test]
fn icc_ctx_stays_below_the_context_count() {
    for b1 in 0..=255u8 {
        for b2 in 0..=255u8 {
            assert!(get_icc_ctx(1000, b1, b2) >= 1);
            assert!(get_icc_ctx(1000, b1, b2) < ICC_CONTEXTS);
        }
    }
    assert_eq!(ICC_CONTEXTS, 41);
}

#[test]
fn icc_stream_tracks_the_last_two_bytes() {
    let mut s = IccStream::new();
    assert_eq!(s.len(), 0);
    assert_eq!(s.next_ctx(), 0);
    for _ in 0..129 {
        assert_eq!(s.next_ctx(), 0);
        assert_eq!(s.push_symbol(b'a' as u32), Ok(()));
    }
    assert_eq!(s.len(), 129);
    assert_eq!(s.next_ctx(), get_icc_ctx(129, b'a', b'a'));
    assert_eq!(s.push_symbol(255), Ok(()));
    assert_eq!(s.next_ctx(), get_icc_ctx(130, 255, b'a'));
    assert_eq!(s.next_ctx(), 7);
    assert_eq!(s.push_symbol(b'7' as u32), Ok(()));
    assert_eq!(s.next_ctx(), get_icc_ctx(131, b'7', 255));
    assert_eq!(s.next_ctx(), 2 + 8 * 3);
}

#[test]
fn icc_stream_rejects_symbols_that_are_no_bytes() {
    let mut s = IccStream::new();
    assert_eq!(s.push_symbol(1), Ok(()));
    assert_eq!(s.push_symbol(256), Err(Error::InvalidCoefficient));
    assert_eq!(s.push_symbol(u32::MAX), Err(Error::InvalidCoefficient));
    assert_eq!(s.len(), 1);
    assert_eq!(s.push_symbol(255), Ok(()));
    assert_eq!(s.into_bytes(), vec![1u8, 255]);
}
