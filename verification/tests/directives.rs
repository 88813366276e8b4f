use tracing_profile::{check_directives, is_whitespace};
use tracing_subscriber::filter::EnvFilter;

#[test]
fn whitespace_matches_std() {
    for v in 0u32..0x11_0000 {
        if let Some(c) = char::from_u32(v) {
            assert_eq!(is_whitespace(c), c.is_whitespace(), "{v:#x}");
        }
    }
}

#[test]
fn ordinary_directives_are_safe() {
    assert!(check_directives(""));
    assert!(check_directives("info"));
    assert!(check_directives("my_crate=debug,é=trace"));
    assert!(check_directives(" info, my_crate=debug"));
    assert!(check_directives("é, info"));
}

#[test]
fn leading_whitespace_without_cut_inside_a_character_is_safe() {
    assert!(check_directives(" aé"));
    assert!(check_directives("\u{3000}info"));
    assert!(check_directives("\u{3000}"));
    assert!(check_directives(" a=é"));
    assert!(check_directives(" é"));
}

#[test]
fn cuts_inside_a_character_are_refused() {
    // " é=debug": the parser cuts at byte 2 of the untrimmed text, inside 'é'.
    assert!(!check_directives(" é=debug"));
    assert!(!check_directives("info, é=debug"));
    // "\u{3000}a=b": the cut at byte 1 falls inside the 3-byte space.
    assert!(!check_directives("\u{3000}a=b"));
    assert!(!check_directives("\u{3000}[x]"));
}

/// Every directive string over a small alphabet that `check_directives` admits is read
/// by the real parser without panicking.
#[test]
fn admitted_strings_parse_without_panic() {
    let alphabet = [' ', 'a', 'é', '\u{3000}', '=', '[', ']', '{', '}', ','];
    let builder = EnvFilter::builder();
    let mut admitted = 0usize;
    let mut refused = 0usize;
    let mut stack: Vec<String> = vec![String::new()];
    while let Some(s) = stack.pop() {
        if check_directives(&s) {
            admitted += 1;
            let _ = builder.parse_lossy(&s);
        } else {
            refused += 1;
        }
        if s.chars().count() < 4 {
            for c in alphabet {
                let mut t = s.clone();
                t.push(c);
                stack.push(t);
            }
        }
    }
    assert!(admitted > 0 && refused > 0);
}
