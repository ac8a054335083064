use rand::Rng;
use wsl_hello::pem::{normalize_public_key_pem, wrap_public_key_pem};

const HEADER: &str = "-----BEGIN PUBLIC KEY-----\n";
const FOOTER: &str = "-----END PUBLIC KEY-----\n";

fn document(rows: &[&str]) -> String {
    let mut out = String::from(HEADER);
    for row in rows {
        out.push_str(row);
        out.push('\n');
    }
    out + FOOTER
}

/// What the standard library makes of a document.
fn expected(pem: &str) -> String {
    let body: String = pem
        .lines()
        .map(str::trim)
        .filter(|line| !line.is_empty() && !line.starts_with("-----"))
        .collect();
    let rows: Vec<&str> =
        body.as_bytes().chunks(64).map(|row| std::str::from_utf8(row).unwrap_or_default()).collect();
    document(&rows)
}

#[test]
fn a_long_body_is_wrapped() {
    let a = "A".repeat(64);
    let b = "B".repeat(64);
    let pem = format!("{}{}{}{}\n{}", HEADER, a, b, "CC==", FOOTER);
    assert_eq!(normalize_public_key_pem(&pem), document(&[&a, &b, "CC=="]));
}

#[test]
fn full_rows_leave_no_empty_row() {
    let a = "A".repeat(64);
    assert_eq!(wrap_public_key_pem(&a), document(&[&a]));
    assert_eq!(wrap_public_key_pem(&"A".repeat(65)), document(&[&a, "A"]));
    assert_eq!(wrap_public_key_pem("A"), document(&["A"]));
}

#[test]
fn an_empty_document_has_no_body() {
    assert_eq!(wrap_public_key_pem(""), document(&[]));
    assert_eq!(normalize_public_key_pem(""), document(&[]));
    assert_eq!(normalize_public_key_pem("-----\n\n ----- x"), document(&[]));
}

#[test]
fn rows_of_other_lengths_are_wrapped_anew() {
    let pem = format!("{}abc\r\n  def \r\n\r\nghi{}{}", HEADER, "\n", FOOTER);
    assert_eq!(normalize_public_key_pem(&pem), document(&["abcdefghi"]));
}

#[test]
fn boundaries_of_any_label_are_replaced() {
    let pem = "-----BEGIN RSA PUBLIC KEY-----\nabcd\n-----END RSA PUBLIC KEY-----";
    assert_eq!(normalize_public_key_pem(pem), document(&["abcd"]));
}

#[test]
fn normalizing_twice_is_normalizing_once() {
    let once = normalize_public_key_pem(&"abcd+/09=".repeat(40));
    assert_eq!(normalize_public_key_pem(&once), once);
}

#[test]
fn white_space_at_a_row_end_is_lost_the_second_time() {
    let line = format!("{} b", "a".repeat(63));
    let once = normalize_public_key_pem(&line);
    assert_eq!(once, document(&[&format!("{} ", "a".repeat(63)), "b"]));
    assert_eq!(normalize_public_key_pem(&once), document(&[&format!("{}b", "a".repeat(63))]));
}

#[test]
fn a_row_that_splits_a_character_is_left_out() {
    let body = format!("{}\u{e9}tail", "a".repeat(63));
    assert_eq!(wrap_public_key_pem(&body), document(&["", ""]));
    let body = format!("{}\u{e9}tail", "a".repeat(62));
    assert_eq!(
        wrap_public_key_pem(&body),
        document(&[&format!("{}\u{e9}", "a".repeat(62)), "tail"])
    );
}

#[test]
fn normalizing_agrees_with_the_standard_library() {
    let pieces = [
        "", "\n", "\r\n", "\r", " ", "\t", "\u{85}", "\u{2028}", "-----", "----", "ab=", "\u{1f511}",
        "\u{e9}", "0123456789012345678901234567890123456789012345678901234567890",
    ];
    for a in pieces {
        for b in pieces {
            for c in pieces {
                for d in pieces {
                    let pem = format!("{}{}{}{}", a, b, c, d);
                    assert_eq!(normalize_public_key_pem(&pem), expected(&pem), "{:?}", pem);
                }
            }
        }
    }
}

#[test]
fn random_documents_agree_with_the_standard_library() {
    let alphabet: Vec<char> = "AbC019+/=- \t\r\n\n\u{a0}\u{e9}\u{1f511}".chars().collect();
    let mut rng = rand::thread_rng();
    for _ in 0..2000 {
        let length = rng.gen_range(0..300);
        let pem: String = (0..length).map(|_| alphabet[rng.gen_range(0..alphabet.len())]).collect();
        assert_eq!(normalize_public_key_pem(&pem), expected(&pem), "{:?}", pem);
    }
}

#[test]
fn line_endings_and_boundaries_do_not_matter() {
    let texts = ["", "AAAA", "AAAA\n", "AA\r\n\nBB\n", "\r", "-----X-----\nAA\n", " A \n\tB", "\u{e9}\n"];
    for text in texts {
        let document = normalize_public_key_pem(text);
        assert_eq!(normalize_public_key_pem(&text.replace('\n', "\r\n")), document);
        assert_eq!(normalize_public_key_pem(&format!("{}{}\n{}", HEADER, text, FOOTER)), document);
        let other = format!("-----BEGIN KEY-----\n\n  -----\n{}", text);
        assert_eq!(normalize_public_key_pem(&other), document);
    }
}
