use hmac::{Hmac, Mac};
use increase_app_version::app_config::AppConfig;
use increase_app_version::app_errors::{AppErrors, SignatureFailure};
use increase_app_version::callback_validator::{
    callback_validator, names_match, HeaderEntry, RequestHeaders, RequiredHeader,
};
use sha2::Sha256;

const SECRET: &str = "It's a Secret to Everybody";
const BODY: &str = "Hello, World!";

fn config() -> AppConfig {
    let mut c = AppConfig::default();
    c.callback_token = SECRET.to_string();
    c
}

fn signature_of(body: &[u8], secret: &str) -> String {
    let mut mac = <Hmac<Sha256> as Mac>::new_from_slice(secret.as_bytes()).unwrap();
    mac.update(body);
    hex::encode(mac.finalize().into_bytes())
}

fn header(name: &str, value: &str) -> HeaderEntry {
    HeaderEntry { name: name.to_string(), value: value.as_bytes().to_vec() }
}

fn headers_for(body: &[u8]) -> Vec<HeaderEntry> {
    vec![
        header("X-GitHub-Hook-ID", "292430182"),
        header("X-GitHub-Event", "push"),
        header("X-GitHub-Delivery", "72d3162e-cc78-11e3-81ab-4c9367dc0958"),
        header("X-Hub-Signature", "sha1=7d38cdd689735b008b3c702edd92eea23791c5f6"),
        header("X-Hub-Signature-256", &format!("sha256={}", signature_of(body, SECRET))),
        header("User-Agent", "GitHub-Hookshot/044aadd"),
        header("X-GitHub-Hook-Installation-Target-Type", "repository"),
        header("X-GitHub-Hook-Installation-Target-ID", "79929171"),
    ]
}

fn authenticate(entries: Vec<HeaderEntry>, body: &[u8]) -> Result<(), AppErrors> {
    callback_validator(&config(), &Vec::new(), &RequestHeaders { entries }, &body.to_vec())
}

fn replace(entries: &mut Vec<HeaderEntry>, name: &str, value: &[u8]) {
    for e in entries.iter_mut() {
        if e.name == name {
            e.value = value.to_vec();
        }
    }
}

#[test]
fn signed_request_is_accepted() {
    assert!(authenticate(headers_for(BODY.as_bytes()), BODY.as_bytes()).is_ok());
}

#[test]
fn known_signature_of_the_platform_documentation() {
    assert_eq!(
        signature_of(BODY.as_bytes(), SECRET),
        "757107ea0eb2509fc211221cce984b8a37570b6d7586c22c46f4379c8b043e17"
    );
    let mut entries = headers_for(BODY.as_bytes());
    replace(
        &mut entries,
        "X-Hub-Signature-256",
        b"sha256=757107EA0EB2509FC211221CCE984B8A37570B6D7586C22C46F4379C8B043E17",
    );
    assert!(authenticate(entries, BODY.as_bytes()).is_ok());
}

#[test]
fn header_names_are_matched_without_case() {
    let entries: Vec<HeaderEntry> = headers_for(BODY.as_bytes())
        .into_iter()
        .map(|e| HeaderEntry { name: e.name.to_lowercase(), value: e.value })
        .collect();
    assert!(authenticate(entries, BODY.as_bytes()).is_ok());
    assert!(names_match("x-hub-signature-256", "X-Hub-Signature-256"));
    assert!(!names_match("x-hub-signature", "X-Hub-Signature-256"));
}

#[test]
fn altered_body_is_refused() {
    let entries = headers_for(BODY.as_bytes());
    let result = authenticate(entries, b"Hello, World?");
    assert!(matches!(result, Err(AppErrors::SignatureError(SignatureFailure::Mismatch))));
}

#[test]
fn wrong_secret_is_refused() {
    let mut entries = headers_for(BODY.as_bytes());
    let other = format!("sha256={}", signature_of(BODY.as_bytes(), "another secret"));
    replace(&mut entries, "X-Hub-Signature-256", other.as_bytes());
    let result = authenticate(entries, BODY.as_bytes());
    assert!(matches!(result, Err(AppErrors::SignatureError(SignatureFailure::Mismatch))));
}

#[test]
fn odd_length_digest_is_refused() {
    let mut entries = headers_for(BODY.as_bytes());
    replace(&mut entries, "X-Hub-Signature-256", b"sha256=abc");
    let result = authenticate(entries, BODY.as_bytes());
    assert!(matches!(result, Err(AppErrors::SignatureError(SignatureFailure::OddLength))));
}

#[test]
fn non_hex_digest_is_refused() {
    let mut entries = headers_for(BODY.as_bytes());
    replace(&mut entries, "X-Hub-Signature-256", b"sha256=zz");
    let result = authenticate(entries, BODY.as_bytes());
    assert!(matches!(result, Err(AppErrors::SignatureError(SignatureFailure::InvalidHex))));
}

#[test]
fn removing_any_required_header_is_refused() {
    let names = [
        (RequiredHeader::HookId, "X-GitHub-Hook-ID"),
        (RequiredHeader::Event, "X-GitHub-Event"),
        (RequiredHeader::Delivery, "X-GitHub-Delivery"),
        (RequiredHeader::Signature, "X-Hub-Signature"),
        (RequiredHeader::Signature256, "X-Hub-Signature-256"),
        (RequiredHeader::UserAgent, "User-Agent"),
        (RequiredHeader::InstallationTargetType, "X-GitHub-Hook-Installation-Target-Type"),
        (RequiredHeader::InstallationTargetId, "X-GitHub-Hook-Installation-Target-ID"),
    ];
    for (required, name) in names {
        assert_eq!(required.name(), name);
        let entries: Vec<HeaderEntry> = headers_for(BODY.as_bytes())
            .into_iter()
            .filter(|e| e.name != name)
            .collect();
        match authenticate(entries, BODY.as_bytes()) {
            Err(AppErrors::MissingHeader(h)) => assert_eq!(h, required),
            other => panic!("{} removed, got {:?}", name, other),
        }
    }
}

#[test]
fn query_parameters_are_refused() {
    let params = vec![("a".to_string(), "1".to_string()), ("b".to_string(), "2".to_string())];
    let result = callback_validator(
        &config(),
        &params,
        &RequestHeaders { entries: headers_for(BODY.as_bytes()) },
        &BODY.as_bytes().to_vec(),
    );
    assert!(matches!(result, Err(AppErrors::TooManyQueryParams(2))));
}

#[test]
fn header_that_is_not_ascii_is_refused() {
    let mut entries = headers_for(BODY.as_bytes());
    replace(&mut entries, "X-GitHub-Event", &[0x70, 0xc3, 0xbc]);
    let result = authenticate(entries, BODY.as_bytes());
    assert!(matches!(result, Err(AppErrors::HeaderParsingError(RequiredHeader::Event))));
}

#[test]
fn wrong_prefixes_are_refused() {
    let mut entries = headers_for(BODY.as_bytes());
    replace(&mut entries, "User-Agent", b"curl/8.0");
    let result = authenticate(entries, BODY.as_bytes());
    assert!(matches!(result, Err(AppErrors::HeaderInvalidFormatError(RequiredHeader::UserAgent))));

    let mut entries = headers_for(BODY.as_bytes());
    replace(&mut entries, "X-Hub-Signature", b"md5=00");
    let result = authenticate(entries, BODY.as_bytes());
    assert!(matches!(result, Err(AppErrors::HeaderInvalidFormatError(RequiredHeader::Signature))));

    let mut entries = headers_for(BODY.as_bytes());
    replace(&mut entries, "X-Hub-Signature-256", b"sha512=00");
    let result = authenticate(entries, BODY.as_bytes());
    assert!(matches!(
        result,
        Err(AppErrors::HeaderInvalidFormatError(RequiredHeader::Signature256))
    ));
}

#[test]
fn non_integer_ids_are_refused() {
    let mut entries = headers_for(BODY.as_bytes());
    replace(&mut entries, "X-GitHub-Hook-ID", b"12a");
    let result = authenticate(entries, BODY.as_bytes());
    assert!(matches!(result, Err(AppErrors::HeaderInvalidFormatError(RequiredHeader::HookId))));

    let mut entries = headers_for(BODY.as_bytes());
    replace(&mut entries, "X-GitHub-Hook-Installation-Target-ID", b"");
    let result = authenticate(entries, BODY.as_bytes());
    assert!(matches!(
        result,
        Err(AppErrors::HeaderInvalidFormatError(RequiredHeader::InstallationTargetId))
    ));
}
