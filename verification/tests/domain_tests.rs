//! The shape of generated labels and domain lines.
use domgen::domain::{domain_line, format_domain, generate_domains, generate_label, LABEL_LEN};

fn is_charset_char(c: char) -> bool {
    ('a'..='z').contains(&c) || ('2'..='7').contains(&c)
}

fn check_line_shape(line: &str, tld: &str) {
    let chars: Vec<char> = line.chars().collect();
    assert_eq!(chars.len(), LABEL_LEN + 1 + tld.chars().count());
    for i in 0..LABEL_LEN {
        assert!(is_charset_char(chars[i]), "bad label char {:?} in {:?}", chars[i], line);
    }
    assert_eq!(chars[LABEL_LEN], '.');
    let suffix: String = chars[LABEL_LEN + 1..].iter().collect();
    assert_eq!(suffix, tld);
}

#[test]
fn label_has_requested_length_and_charset() {
    for &len in &[0usize, 1, 2, 16, 40] {
        let label = generate_label(len);
        assert_eq!(label.chars().count(), len);
        for c in label.chars() {
            assert!(is_charset_char(c), "bad char {:?} in {:?}", c, label);
        }
    }
}

#[test]
fn label_length_zero_is_empty() {
    assert_eq!(generate_label(0), "");
}

#[test]
fn format_domain_joins_with_a_dot() {
    assert_eq!(format_domain("abc", "onion"), "abc.onion");
    assert_eq!(format_domain("", ""), ".");
    assert_eq!(format_domain("x2", "test"), "x2.test");
}

#[test]
fn domain_line_has_the_invariant_shape() {
    let line = domain_line("onion");
    check_line_shape(&line, "onion");
    assert!(line.ends_with(".onion"));
}

#[test]
fn generate_domains_emits_exactly_count_lines() {
    for &count in &[0usize, 1, 3, 10] {
        let lines = generate_domains(count, "onion");
        assert_eq!(lines.len(), count);
        for line in &lines {
            check_line_shape(line, "onion");
        }
    }
}

#[test]
fn default_shape_ten_lines_ending_in_onion() {
    let lines = generate_domains(10, "onion");
    assert_eq!(lines.len(), 10);
    for line in &lines {
        assert!(line.ends_with(".onion"));
        check_line_shape(line, "onion");
    }
}

#[test]
fn shape_invariant_holds_across_runs() {
    let first = generate_domains(5, "test");
    let second = generate_domains(5, "test");
    assert_eq!(first.len(), 5);
    assert_eq!(second.len(), 5);
    for line in first.iter().chain(second.iter()) {
        check_line_shape(line, "test");
    }
}
