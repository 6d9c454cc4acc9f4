use docr::get_error_code;
use docr::languages_to_json;
use docr::resolve::lowercase_tags;
use docr::DocrError;
use docr::PixelBuffer;

#[test]
fn error_code_keeps_platform_code() {
    let err = DocrError::RuntimeError("device lost".to_string(), 42);
    assert_eq!(get_error_code(err), 42);
}

#[test]
fn error_code_is_minus_one_for_validation_errors() {
    let err = DocrError::OperationError("bad input".to_string());
    assert_eq!(get_error_code(err), -1);
}

#[test]
fn error_message_is_kept_verbatim() {
    let err = DocrError::RuntimeError("device lost".to_string(), 42);
    assert_eq!(err.message().as_str(), "device lost");
    let err = DocrError::OperationError("bad input".to_string());
    assert_eq!(err.message().as_str(), "bad input");
}

#[test]
fn file_open_error_names_the_file() {
    let err = docr::error::file_open_error("missing.jpg");
    match err {
        DocrError::OperationError(message) => {
            assert_eq!(message, "Failed to open image file: missing.jpg");
        }
        DocrError::RuntimeError(..) => panic!("expected a validation error"),
    }
}

#[test]
fn from_raw_rejects_short_buffer() {
    // 2 x 2 pixels need 16 bytes; 15 must be rejected before any engine call.
    let data = vec![0u8; 15];
    let result = PixelBuffer::from_raw(data, 2, 2);
    match result {
        Err(DocrError::OperationError(_)) => {}
        Err(DocrError::RuntimeError(..)) => panic!("expected a validation error"),
        Ok(_) => panic!("a short buffer must be rejected"),
    }
}

#[test]
fn from_raw_rejects_oversized_buffer() {
    let data = vec![0u8; 17];
    assert!(PixelBuffer::from_raw(data, 2, 2).is_err());
}

#[test]
fn from_raw_accepts_exact_buffer() {
    let data = vec![7u8; 16];
    let buffer = PixelBuffer::from_raw(data.clone(), 2, 2).unwrap();
    assert_eq!(buffer.width(), 2);
    assert_eq!(buffer.height(), 2);
    assert_eq!(buffer.bytes(), &data);
}

#[test]
fn from_raw_accepts_zero_dimensions_only_with_empty_buffer() {
    assert!(PixelBuffer::from_raw(Vec::new(), 0, 0).is_ok());
    assert!(PixelBuffer::from_raw(vec![0u8; 4], 0, 1).is_err());
}

#[test]
fn languages_json_lowercases_and_encodes() {
    let tags = vec!["EN".to_string(), "ar-EG".to_string()];
    assert_eq!(languages_to_json(&tags), "[\"en\",\"ar-eg\"]");
}

#[test]
fn languages_json_empty_list() {
    let tags: Vec<String> = Vec::new();
    assert_eq!(languages_to_json(&tags), "[]");
}

#[test]
fn lowercase_tags_keeps_order_and_non_letters() {
    let tags = vec!["Zh-Hans-CN".to_string(), "fr".to_string()];
    let lowered = lowercase_tags(&tags);
    assert_eq!(lowered, vec!["zh-hans-cn".to_string(), "fr".to_string()]);
}
