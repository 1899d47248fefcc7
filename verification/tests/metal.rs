use mlx_rs::error::IoError;
use mlx_rs::metal::{c_string, is_available, set_metallib_path};

#[test]
fn availability_is_what_was_answered() {
    assert!(is_available(0, true, String::new()).unwrap());
    assert!(!is_available(0, false, String::new()).unwrap());
    assert_eq!(is_available(1, true, "no device".to_string()).unwrap_err().what, "no device");
}

#[test]
fn a_path_becomes_a_c_string() {
    let call = set_metallib_path("/opt/mlx/größe.metallib".as_bytes()).unwrap();
    let mut expected = "/opt/mlx/größe.metallib".as_bytes().to_vec();
    expected.push(0);
    assert_eq!(call.path, expected);
    assert!(call.finish(0, String::new()).is_ok());

    let empty = set_metallib_path(b"").unwrap();
    assert_eq!(empty.path, [0]);
    match empty.finish(1, "cannot set".to_string()) {
        Err(IoError::Exception(err)) => assert_eq!(err.what, "cannot set"),
        _ => unreachable!(),
    }
}

#[test]
fn a_path_that_is_not_utf8_is_refused() {
    for bytes in [&[0x2f, 0xff][..], &[0xc3], &[0xed, 0xa0, 0x80], &[0xff, 0x00], &[0xf4, 0x90, 0x80, 0x80]] {
        assert!(matches!(set_metallib_path(bytes), Err(IoError::InvalidUtf8)));
    }
}

#[test]
fn a_path_with_a_nul_byte_is_refused() {
    match set_metallib_path(b"/a\0b\0") {
        Err(IoError::NulError(err)) => {
            assert_eq!(err.position, 2);
            assert_eq!(err.bytes, b"/a\0b\0");
        }
        _ => unreachable!(),
    }
}

#[test]
fn a_c_string_is_read_back_up_to_its_end() {
    let c = c_string(b"causal").unwrap();
    let end = c.iter().position(|&b| b == 0).unwrap();
    assert_eq!(&c[..end], b"causal");
    assert_eq!(end, c.len() - 1);
    assert_eq!(c_string(b"\0").unwrap_err().position, 0);
}
