use base64::Engine as _;
use increase_app_version::app_apis::FileConteAppDataApi;
use increase_app_version::app_errors::{AppErrors, DecodeFailure};

fn encoded_file(content: String, encoding: &str) -> FileConteAppDataApi {
    FileConteAppDataApi {
        type_: "file".to_string(),
        encoding: encoding.to_string(),
        size: 0,
        name: "version.hpp".to_string(),
        path: "version.hpp".to_string(),
        content,
    }
}

/// Base64 broken into lines of 60 characters, each followed by a line feed,
/// as the contents API sends it.
fn multiline_base64(bytes: &[u8]) -> String {
    let encoded = base64::engine::general_purpose::STANDARD.encode(bytes);
    let mut out = String::new();
    for chunk in encoded.as_bytes().chunks(60) {
        out.push_str(std::str::from_utf8(chunk).unwrap());
        out.push('\n');
    }
    out
}

#[test]
fn multiline_content_decodes_to_the_encoded_text() {
    let text: String = (0..40)
        .map(|i| format!("line {} with ünïcödé and #define VERSION \"1.{}.0\"\n", i, i))
        .collect();
    let mut file = encoded_file(multiline_base64(text.as_bytes()), "base64");
    assert!(file.content.matches('\n').count() > 2);
    assert!(file.decode_file().is_ok());
    assert_eq!(file.content, text);
    assert_eq!(file.encoding, "base64");
}

#[test]
fn empty_content_decodes_to_empty_text() {
    let mut file = encoded_file(String::new(), "base64");
    assert!(file.decode_file().is_ok());
    assert_eq!(file.content, "");
}

#[test]
fn unknown_encoding_is_refused() {
    let mut file = encoded_file("aGVsbG8=".to_string(), "utf-8");
    let result = file.decode_file();
    assert!(matches!(
        result,
        Err(AppErrors::FailedToDecodeFile(DecodeFailure::UnsupportedEncoding))
    ));
    assert_eq!(file.content, "aGVsbG8=");
}

#[test]
fn invalid_base64_is_refused() {
    let mut file = encoded_file("aGVsbG8=\n!!!!\n".to_string(), "base64");
    let result = file.decode_file();
    assert!(matches!(
        result,
        Err(AppErrors::FailedToDecodeFile(DecodeFailure::InvalidBase64))
    ));
    assert_eq!(file.content, "aGVsbG8=\n!!!!\n");
}

#[test]
fn bytes_that_are_not_utf8_are_refused() {
    let content = multiline_base64(&[0x66, 0xff, 0xfe]);
    let mut file = encoded_file(content, "base64");
    let result = file.decode_file();
    assert!(matches!(
        result,
        Err(AppErrors::FailedToDecodeFile(DecodeFailure::InvalidUtf8))
    ));
}

#[test]
fn decoded_file_then_bumped() {
    let text = "#pragma once\n#define VERSION \"1.4.7\"\n";
    let mut file = encoded_file(multiline_base64(text.as_bytes()), "base64");
    file.decode_file().unwrap();
    let decoded = match file.increase_version(&"#define VERSION".to_string()) {
        Ok(d) => d,
        Err(e) => panic!("unexpected failure: {:?}", e),
    };
    assert_eq!(decoded.content, "#pragma once\n#define VERSION \"1.5.7\"\n");
    assert_eq!(decoded.new_version, "1.5.7");
}
