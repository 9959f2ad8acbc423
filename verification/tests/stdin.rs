use leaf_core::stdin::{read_stdin_limited, stdin_read_limit, StdinError, MAX_STDIN_BYTES};

#[test]
fn read_limit_is_one_past_the_maximum() {
    assert_eq!(stdin_read_limit(5), 6);
    assert_eq!(stdin_read_limit(MAX_STDIN_BYTES), 8 * 1024 * 1024 + 1);
    if usize::BITS == 64 {
        assert_eq!(stdin_read_limit(usize::MAX), u64::MAX);
    }
}

#[test]
fn largest_limit_still_accepts_text() {
    assert_eq!(read_stdin_limited(b"hi".to_vec(), usize::MAX), Ok("hi".to_string()));
}

#[test]
fn accepts_text_within_the_limit() {
    let bytes = "héllo".as_bytes().to_vec();
    assert_eq!(read_stdin_limited(bytes, 6), Ok("héllo".to_string()));
    assert_eq!(read_stdin_limited(Vec::new(), 0), Ok(String::new()));
}

#[test]
fn refuses_too_many_bytes() {
    assert_eq!(read_stdin_limited(b"abcdef".to_vec(), 5), Err(StdinError::TooLarge { max_bytes: 5 }));
}

#[test]
fn refuses_invalid_utf8() {
    assert_eq!(read_stdin_limited(vec![b'a', 0xff], 5), Err(StdinError::InvalidUtf8));
}
