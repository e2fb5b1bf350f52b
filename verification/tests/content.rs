use marker_sweep::cleaner::Rewrite;
use marker_sweep::content::process_content;
use marker_sweep::failure::{exit_status, FailureKind};

#[test]
fn bytes_that_are_not_utf8_are_a_decode_failure() {
    let outcome = process_content(vec![b'a', 0xFF, b'b'], "rs");
    assert!(matches!(outcome, Err(FailureKind::Decode)));
    let outcome = process_content(vec![0xE2, 0x80], "py");
    assert!(matches!(outcome, Err(FailureKind::Decode)));
}

#[test]
fn untouched_content_is_kept() {
    let outcome = process_content(b"fn main() {} // fine\n".to_vec(), "rs");
    assert!(matches!(outcome, Ok(Rewrite::Keep)));
    let outcome = process_content(Vec::new(), "rs");
    assert!(matches!(outcome, Ok(Rewrite::Keep)));
}

#[test]
fn flagged_content_is_replaced() {
    let bytes = "let x = 1; // \u{203C}\u{FE0F} temp\nlet y = 2;\n".as_bytes().to_vec();
    match process_content(bytes, "rs") {
        Ok(Rewrite::Replace(text)) => assert_eq!(text, "let x = 1;\nlet y = 2;"),
        other => panic!("unexpected outcome: {:?}", other),
    }
}

#[test]
fn the_extension_decides_the_syntax() {
    let content = "a # \u{203C}\u{FE0F} note\n";
    assert!(matches!(process_content(content.as_bytes().to_vec(), "rs"), Ok(Rewrite::Keep)));
    match process_content(content.as_bytes().to_vec(), "toml") {
        Ok(Rewrite::Replace(text)) => assert_eq!(text, "a"),
        other => panic!("unexpected outcome: {:?}", other),
    }
}

#[test]
fn decoded_text_keeps_characters_beyond_ascii() {
    let content = "gr\u{FC}\u{DF}e = \"\u{4F60}\u{597D}\"  # \u{203C}\u{FE0F}\n";
    match process_content(content.as_bytes().to_vec(), "py") {
        Ok(Rewrite::Replace(text)) => assert_eq!(text, "gr\u{FC}\u{DF}e = \"\u{4F60}\u{597D}\""),
        other => panic!("unexpected outcome: {:?}", other),
    }
}

#[test]
fn failures_of_the_run_are_fatal() {
    assert!(FailureKind::RepoDiscovery.is_fatal());
    assert!(FailureKind::BareRepository.is_fatal());
    assert!(FailureKind::Traversal.is_fatal());
    assert!(FailureKind::InvalidPattern.is_fatal());
}

#[test]
fn failures_of_one_file_are_not_fatal() {
    assert!(!FailureKind::Read.is_fatal());
    assert!(!FailureKind::Decode.is_fatal());
    assert!(!FailureKind::Write.is_fatal());
}

#[test]
fn exit_status_is_nonzero_only_after_a_fatal_failure() {
    assert_eq!(exit_status(None), 0);
    assert_eq!(exit_status(Some(FailureKind::Decode)), 0);
    assert_eq!(exit_status(Some(FailureKind::Write)), 0);
    assert_eq!(exit_status(Some(FailureKind::RepoDiscovery)), 1);
    assert_eq!(exit_status(Some(FailureKind::BareRepository)), 1);
    assert_eq!(exit_status(Some(FailureKind::Traversal)), 1);
    assert_eq!(exit_status(Some(FailureKind::InvalidPattern)), 1);
}
