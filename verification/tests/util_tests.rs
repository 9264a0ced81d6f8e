use openclaw_mesh::error::{ErrorKind, MeshError};
use openclaw_mesh::records::Stamp;
use openclaw_mesh::text::is_blank;
use openclaw_mesh::util::{hash_to_u64, now_iso, random_hex, random_token, sha256_hex, tokenize};

#[test]
fn tokenize_splits_lowercases_and_drops_empties() {
    assert_eq!(tokenize("Hello, World_1-2!"), vec!["hello".to_string(), "world_1-2".to_string()]);
    assert_eq!(tokenize(""), Vec::<String>::new());
    assert_eq!(tokenize("  ,;  "), Vec::<String>::new());
    assert_eq!(tokenize("a"), vec!["a".to_string()]);
}

#[test]
fn tokenize_keeps_source_order_and_duplicates() {
    let tokens = tokenize("b a b  A");
    assert_eq!(tokens, vec!["b".to_string(), "a".to_string(), "b".to_string(), "a".to_string()]);
    assert_eq!(tokens.concat(), "baba");
}

#[test]
fn tokenize_is_stable_under_repeated_invocation() {
    let text = "The quick-brown fox_jumps over 13 lazy dogs; THE END.";
    let first = tokenize(text);
    let second = tokenize(text);
    assert_eq!(first, second);
    let again: Vec<String> = first.iter().flat_map(|t| tokenize(t)).collect();
    assert_eq!(again, first);
}

#[test]
fn tokenize_splits_at_characters_outside_ascii() {
    assert_eq!(tokenize("caf\u{e9} au lait"), vec!["caf".to_string(), "au".to_string(), "lait".to_string()]);
    assert_eq!(tokenize("\"hello world\""), vec!["hello".to_string(), "world".to_string()]);
}

#[test]
fn sha256_hex_of_known_texts() {
    assert_eq!(
        sha256_hex("abc"),
        "ba7816bf8f01cfea414140de5dae2223b00361a396177a9cb410ff61f20015ad"
    );
    assert_eq!(
        sha256_hex(""),
        "e3b0c44298fc1c149afbf4c8996fb92427ae41e4649b934ca495991b7852b855"
    );
}

#[test]
fn hash_to_u64_reads_the_first_eight_bytes_big_endian() {
    assert_eq!(hash_to_u64("abc"), 0xba7816bf8f01cfea);
    assert_eq!(hash_to_u64(""), 0xe3b0c44298fc1c14);
}

#[test]
fn random_hex_has_two_digits_per_byte() {
    for n in [0usize, 1, 8, 33] {
        let s = random_hex(n);
        assert_eq!(s.len(), 2 * n);
        assert!(s.chars().all(|c| c.is_ascii_digit() || ('a'..='f').contains(&c)));
    }
    assert_ne!(random_hex(16), random_hex(16));
}

#[test]
fn random_token_is_alphanumeric() {
    for n in [0usize, 1, 12, 40] {
        let s = random_token(n);
        assert_eq!(s.chars().count(), n);
        assert!(s.chars().all(|c| c.is_ascii_alphanumeric()));
    }
    assert_ne!(random_token(24), random_token(24));
}

#[test]
fn the_clock_gives_rfc3339_and_milliseconds() {
    let iso = now_iso();
    assert!(iso.len() >= 20);
    assert_eq!(&iso[4..5], "-");
    assert!(iso.contains('T'));
    assert!(iso.ends_with("+00:00"));
    let stamp = Stamp::now();
    assert!(stamp.millis > 1_600_000_000_000);
    assert!(stamp.iso.contains('T'));
    assert!(stamp.iso.ends_with("+00:00"));
    assert!(stamp.iso.len() >= 25);
}

#[test]
fn every_error_has_its_class_and_message() {
    assert_eq!(MeshError::InvalidAmount.kind(), ErrorKind::InvalidInput);
    assert_eq!(MeshError::InvalidEscrowAmount.kind(), ErrorKind::InvalidInput);
    assert_eq!(MeshError::EscrowExists.kind(), ErrorKind::InvalidInput);
    assert_eq!(MeshError::MissingDescription.kind(), ErrorKind::InvalidInput);
    assert_eq!(MeshError::MissingBounty.kind(), ErrorKind::InvalidInput);
    assert_eq!(MeshError::InvalidCapsule.kind(), ErrorKind::InvalidInput);
    assert_eq!(MeshError::TaskNotOpen.kind(), ErrorKind::InvalidInput);
    assert_eq!(MeshError::BalanceOverflow.kind(), ErrorKind::InvalidInput);
    assert_eq!(MeshError::AccountNotFound.kind(), ErrorKind::NotFound);
    assert_eq!(MeshError::TaskNotFound.kind(), ErrorKind::NotFound);
    assert_eq!(MeshError::OperatorNotConfigured.kind(), ErrorKind::Unauthorized);
    assert_eq!(MeshError::OperatorNotAuthorized.kind(), ErrorKind::Unauthorized);
    assert_eq!(MeshError::InsufficientBalance.kind(), ErrorKind::InsufficientBalance);
    assert_eq!(MeshError::DhtTimeout.kind(), ErrorKind::Timeout);
    assert_eq!(MeshError::MalformedFrame.kind(), ErrorKind::Transport);
    assert_eq!(MeshError::StoreConflict.kind(), ErrorKind::StoreBackend);
    assert_eq!(MeshError::InvalidAmount.message(), "Invalid amount");
    assert_eq!(MeshError::InsufficientBalance.message(), "Insufficient balance");
    assert_eq!(MeshError::OperatorNotAuthorized.message(), "Genesis account operator not authorized");
    assert_eq!(MeshError::OperatorNotConfigured.message(), "Genesis operator not configured");
    assert_eq!(MeshError::AccountNotFound.message(), "Account not found");
    assert_eq!(MeshError::TaskNotFound.message(), "Task not found");
    assert_eq!(MeshError::TaskNotOpen.message(), "Task is not open");
    assert_eq!(MeshError::MissingDescription.message(), "Invalid task: missing description");
    assert_eq!(MeshError::MissingBounty.message(), "Invalid task: missing bounty");
    assert_eq!(MeshError::InvalidEscrowAmount.message(), "Invalid escrow amount");
    assert_eq!(MeshError::EscrowExists.message(), "Escrow already locked");
    assert_eq!(MeshError::DhtTimeout.message(), "DHT query timeout");
}

#[test]
fn blank_texts_are_those_of_white_space_only() {
    assert!(is_blank(""));
    assert!(is_blank(" \t\n\u{000B}\u{000C}\r"));
    assert!(is_blank("\u{0085}\u{00A0}\u{1680}\u{2000}\u{2005}\u{200A}"));
    assert!(is_blank("\u{2028}\u{2029}\u{202F}\u{205F}\u{3000}"));
    assert!(!is_blank("d"));
    assert!(!is_blank("  d  "));
    assert!(!is_blank("\u{0008}"));
    assert!(!is_blank("\u{000E}"));
    assert!(!is_blank("\u{180E}"));
    assert!(!is_blank("\u{200B}"));
    assert!(!is_blank("\u{2060}"));
    assert!(!is_blank("\u{FEFF}"));
}

#[test]
fn white_space_is_the_listed_code_points_and_no_other() {
    let listed = |c: char| {
        ('\u{0009}'..='\u{000D}').contains(&c)
            || c == '\u{0020}'
            || c == '\u{0085}'
            || c == '\u{00A0}'
            || c == '\u{1680}'
            || ('\u{2000}'..='\u{200A}').contains(&c)
            || c == '\u{2028}'
            || c == '\u{2029}'
            || c == '\u{202F}'
            || c == '\u{205F}'
            || c == '\u{3000}'
    };
    let mut text = String::new();
    for c in '\u{0000}'..=char::MAX {
        text.clear();
        text.push(c);
        assert_eq!(is_blank(&text), listed(c), "U+{:04X}", c as u32);
    }
}

#[test]
fn tokenizing_the_joined_tokens_gives_the_same_tokens() {
    for text in ["", "Hello, World_1-2!", "b a b  A", "  x--y__z  ", "a.b.c", "ÄÖ ü1 2", "one"] {
        let tokens = tokenize(text);
        assert_eq!(tokenize(text), tokens);
        assert_eq!(tokenize(&tokens.join(" ")), tokens, "{:?}", text);
    }
}
