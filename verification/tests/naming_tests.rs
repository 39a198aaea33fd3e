use image_upload::naming::{make_converted_leaf, make_path, make_raw_leaf, sanitize, Token};

const FIRST: &str = "00000000-0000-4000-8000-000000000001";

#[test]
fn a_token_is_read_from_its_text() {
    let token = Token::parse(FIRST).unwrap();
    assert_eq!(token.as_str(), FIRST);
    assert!(Token::parse("0123abcd-4567-89ef-0123-456789abcdef").is_some());
}

#[test]
fn what_has_not_the_shape_is_no_token() {
    assert!(Token::parse("").is_none());
    assert!(Token::parse("00000000-0000-4000-8000-00000000000").is_none());
    assert!(Token::parse("00000000-0000-4000-8000-0000000000011").is_none());
    assert!(Token::parse("00000000+0000-4000-8000-000000000001").is_none());
    assert!(Token::parse("0000000000000-4000-8000-000000000001").is_none());
    assert!(Token::parse("00000000-0000-4000-8000-00000000000G").is_none());
    assert!(Token::parse("00000000-0000-4000-8000-00000000000g").is_none());
    assert!(Token::parse("00000000-0000-4000-8000-00000000000A").is_none());
    assert!(Token::parse("00000000-0000-4000-8000-00000000000/").is_none());
    assert!(Token::parse("../../../../../../../../../../../etc").is_none());
    assert!(Token::parse("-0000000-0000-4000-8000-000000000001").is_none());
    assert!(Token::parse("00000000-0000-4000-8000-00000000000\u{e9}").is_none());
}

#[test]
fn a_drawn_token_has_the_shape_of_a_random_uuid() {
    let token = Token::generate();
    let text: Vec<char> = token.as_str().chars().collect();
    assert_eq!(text.len(), 36);
    for (i, c) in text.iter().enumerate() {
        if i == 8 || i == 13 || i == 18 || i == 23 {
            assert_eq!(*c, '-');
        } else {
            assert!(c.is_ascii_digit() || ('a'..='f').contains(c));
        }
    }
    assert_eq!(text[14], '4');
    assert!(matches!(text[19], '8' | '9' | 'a' | 'b'));
    assert_eq!(Token::parse(token.as_str()), Some(token));
}

#[test]
fn drawn_tokens_differ() {
    let mut seen: Vec<Token> = Vec::new();
    for _ in 0..200 {
        let token = Token::generate();
        assert!(!seen.contains(&token));
        seen.push(token);
    }
}

#[test]
fn copies_of_a_token_are_the_same() {
    let token = Token::parse(FIRST).unwrap();
    let copy = token.duplicate();
    assert!(token.same_as(&copy));
    assert_eq!(token.clone(), copy);
    let other = Token::parse("00000000-0000-4000-8000-000000000002").unwrap();
    assert!(!token.same_as(&other));
}

#[test]
fn sanitizing_strips_path_separators() {
    assert_eq!(sanitize("photo.png"), "photo.png");
    assert_eq!(sanitize("../../etc/passwd"), "....etcpasswd");
    assert_eq!(sanitize("a\\b/c"), "abc");
    assert_eq!(sanitize("/"), "");
    assert_eq!(sanitize("\\\\//"), "");
    assert_eq!(sanitize(""), "");
    assert_eq!(sanitize("caf\u{e9}/\u{1f600}.png"), "caf\u{e9}\u{1f600}.png");
}

#[test]
fn a_raw_name_is_the_token_then_the_sanitized_name() {
    let token = Token::parse(FIRST).unwrap();
    assert_eq!(
        make_raw_leaf(&token, Some("cat.png")),
        "00000000-0000-4000-8000-000000000001-cat.png"
    );
    assert_eq!(
        make_raw_leaf(&token, Some("../../etc/passwd")),
        "00000000-0000-4000-8000-000000000001-....etcpasswd"
    );
    assert_eq!(make_raw_leaf(&token, Some("")), "00000000-0000-4000-8000-000000000001-");
    assert_eq!(make_raw_leaf(&token, None), "00000000-0000-4000-8000-000000000001");
}

#[test]
fn a_converted_name_is_the_token_then_the_extension() {
    let token = Token::parse(FIRST).unwrap();
    assert_eq!(make_converted_leaf(&token, "gif"), "00000000-0000-4000-8000-000000000001.gif");
    assert_eq!(make_converted_leaf(&token, "/g/if"), "00000000-0000-4000-8000-000000000001.gif");
    assert_eq!(make_converted_leaf(&token, ""), "00000000-0000-4000-8000-000000000001.");
}

#[test]
fn a_path_is_the_directory_then_the_name() {
    assert_eq!(make_path("./upload", "a.gif"), "./upload/a.gif");
    assert_eq!(make_path("", "a"), "/a");
    assert_eq!(make_path("/srv/data", ""), "/srv/data/");
}

#[test]
fn a_hostile_name_stays_in_the_directory() {
    let token = Token::parse(FIRST).unwrap();
    let leaf = make_raw_leaf(&token, Some("/../../../root/.ssh/authorized_keys"));
    assert!(!leaf.contains('/'));
    assert!(!leaf.contains('\\'));
    assert!(leaf.starts_with(FIRST));
    let path = make_path("./upload", &leaf);
    assert_eq!(path, "./upload/00000000-0000-4000-8000-000000000001-......root.sshauthorized_keys");
    assert_eq!(path.matches('/').count(), 2);
}

#[test]
fn different_tokens_give_different_paths() {
    let first = Token::parse(FIRST).unwrap();
    let second = Token::parse("00000000-0000-4000-8000-000000000002").unwrap();
    let a = make_path("./upload", &make_raw_leaf(&first, Some("same.png")));
    let b = make_path("./upload", &make_raw_leaf(&second, Some("same.png")));
    assert_ne!(a, b);
    let c = make_path("./upload", &make_converted_leaf(&first, "gif"));
    let d = make_path("./upload", &make_converted_leaf(&second, "gif"));
    assert_ne!(c, d);
}
