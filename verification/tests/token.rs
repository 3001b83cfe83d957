use pifrost::token::{cluster_token, generate_token, token_from_bytes, TOKEN_BYTES};

#[test]
fn bytes_are_written_in_hex() {
    assert_eq!(token_from_bytes(&vec![0, 1, 15, 16, 127, 128, 171, 255]), "00010f107f80abff");
    assert_eq!(token_from_bytes(&Vec::new()), "");
}

#[test]
fn different_bytes_have_different_tokens() {
    let mut seen: Vec<String> = (0..=255u8).map(|b| token_from_bytes(&vec![b])).collect();
    seen.sort();
    seen.dedup();
    assert_eq!(seen.len(), 256);
}

#[test]
fn generated_tokens_have_their_form() {
    assert_eq!(TOKEN_BYTES, 16);
    for _ in 0..20 {
        let t = generate_token();
        assert_eq!(t.len(), 32);
        assert!(t.chars().all(|c| c.is_ascii_digit() || ('a'..='f').contains(&c)));
    }
    assert_ne!(generate_token(), generate_token());
}

#[test]
fn a_given_token_is_kept() {
    assert_eq!(cluster_token(Some("my token".to_string())), "my token");
    assert_eq!(cluster_token(None).len(), 32);
}
