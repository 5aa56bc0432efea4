use charly::decode::urlencoding_decode;
use charly::file_uris::{file_uri_paths, white_space};

/// An independent decoding that reads escapes with `u8::from_str_radix`.
fn reference_decode(input: &str) -> String {
    let mut result = String::with_capacity(input.len());
    let mut chars = input.chars();
    while let Some(c) = chars.next() {
        if c == '%' {
            let hex: String = chars.by_ref().take(2).collect();
            if hex.len() == 2 {
                if let Ok(byte) = u8::from_str_radix(&hex, 16) {
                    result.push(byte as char);
                } else {
                    result.push('%');
                    result.push_str(&hex);
                }
            } else {
                result.push('%');
                result.push_str(&hex);
            }
        } else if c == '+' {
            result.push(' ');
        } else {
            result.push(c);
        }
    }
    result
}

fn reference_paths(text: &str) -> Vec<String> {
    let mut files = Vec::new();
    if text.starts_with("file://") {
        for line in text.lines() {
            let trimmed = line.trim();
            if trimmed.starts_with("file://") {
                let path = trimmed.strip_prefix("file://").unwrap_or(trimmed);
                files.push(reference_decode(path));
            }
        }
    }
    files
}

#[test]
fn decodes_space_escape() {
    assert_eq!(urlencoding_decode("hello%20world"), "hello world");
}

#[test]
fn decodes_plus_as_space() {
    assert_eq!(urlencoding_decode("a+b+c"), "a b c");
}

#[test]
fn decodes_upper_and_lower_hex() {
    assert_eq!(urlencoding_decode("%41%6a%4A"), "AjJ");
}

#[test]
fn decodes_signed_escape() {
    assert_eq!(urlencoding_decode("%+A"), "\n");
    assert_eq!(urlencoding_decode("%+41"), "\u{4}1");
}

#[test]
fn keeps_invalid_escape() {
    assert_eq!(urlencoding_decode("%zz%"), "%zz%");
    assert_eq!(urlencoding_decode("%-1"), "%-1");
    assert_eq!(urlencoding_decode("%%41"), "%%41");
}

#[test]
fn keeps_short_escape_at_end() {
    assert_eq!(urlencoding_decode("abc%4"), "abc%4");
    assert_eq!(urlencoding_decode("abc%"), "abc%");
    assert_eq!(urlencoding_decode("%é"), "%é");
}

#[test]
fn escape_bytes_become_latin1_chars() {
    assert_eq!(urlencoding_decode("caf%C3%A9"), "caf\u{c3}\u{a9}");
    assert_eq!(urlencoding_decode("%FF"), "\u{ff}");
}

#[test]
fn plus_inside_failed_escape_is_kept() {
    assert_eq!(urlencoding_decode("%++x"), "%++x");
}

#[test]
fn plain_text_is_unchanged() {
    assert_eq!(urlencoding_decode("/home/user/notes.txt"), "/home/user/notes.txt");
    assert_eq!(urlencoding_decode(""), "");
}

#[test]
fn decoding_matches_from_str_radix() {
    let pieces = ["%", "+", "a", "F", "0", "9", "g", "-", "é", "%2", "%+", "\n", " ", "z"];
    let mut inputs = vec![String::new()];
    for _ in 0..4 {
        let mut next = Vec::new();
        for s in &inputs {
            for p in pieces.iter() {
                next.push(format!("{}{}", s, p));
            }
        }
        inputs.extend(next);
        inputs.sort();
        inputs.dedup();
        if inputs.len() > 30000 {
            break;
        }
    }
    for s in &inputs {
        assert_eq!(urlencoding_decode(s), reference_decode(s), "input {:?}", s);
    }
}

#[test]
fn white_space_matches_std() {
    for u in 0u32..0x11000 {
        if let Some(c) = char::from_u32(u) {
            assert_eq!(white_space(c), c.is_whitespace(), "char {:x}", u);
        }
    }
}

#[test]
fn file_list_is_split_trimmed_and_decoded() {
    let text = "file:///home/u/a%20b.txt\r\n   file:///tmp/x  \nhttp://example.com\nfile:///c+d\n";
    assert_eq!(file_uri_paths(text), vec!["/home/u/a b.txt", "/tmp/x", "/c d"]);
}

#[test]
fn text_not_starting_with_scheme_names_no_files() {
    assert!(file_uri_paths(" file:///tmp/x").is_empty());
    assert!(file_uri_paths("hello\nfile:///tmp/x").is_empty());
    assert!(file_uri_paths("").is_empty());
}

#[test]
fn file_list_matches_lines_and_trim() {
    let samples = [
        "file:///a",
        "file://",
        "file:///a\n",
        "file:///a\n\n",
        "file:///a\r\nfile:///b\r\n",
        "file:///a\n \u{3000}file:///b%41\u{a0}\nfile:/c\n\tfile://d e",
        "file:///x\nnot a file\n  file:///y%zz\n",
        "file:///a\u{2028}file:///b",
        "file:///a\r",
        "file:///\n\r\n\n",
    ];
    for s in samples.iter() {
        assert_eq!(file_uri_paths(s), reference_paths(s), "input {:?}", s);
    }
}

#[test]
fn decoding_splits_after_text_without_percent() {
    assert_eq!(urlencoding_decode("a+b%41"), format!("{}{}", urlencoding_decode("a+b"), urlencoding_decode("%41")));
}

#[test]
fn decoding_never_lengthens() {
    for s in ["%41%42", "%zz", "a+b", "%", "%4", "plain"] {
        assert!(urlencoding_decode(s).chars().count() <= s.chars().count());
    }
}

#[test]
fn percent_encoding_of_latin1_text_round_trips() {
    for s in ["hello world", "a+b/c?d=e&f", "%41", "", "caf\u{e9} \u{ff}\u{0}"] {
        let mut encoded = String::new();
        for c in s.chars() {
            encoded.push_str(&format!("%{:02X}", c as u32));
        }
        assert_eq!(urlencoding_decode(&encoded), s, "encoded {:?}", encoded);
    }
}
