//! The command-line surface, end to end through getopts.
use domgen::cli::{decide, parse_invocation, usage_text, Invocation};
use domgen::count::CountError;
use domgen::domain::generate_domains;

fn args(list: &[&str]) -> Vec<String> {
    list.iter().map(|s| s.to_string()).collect()
}

#[test]
fn help_flag_wins_over_everything() {
    assert_eq!(parse_invocation(&args(&["-h"])), Invocation::Help);
    assert_eq!(parse_invocation(&args(&["--help"])), Invocation::Help);
    assert_eq!(parse_invocation(&args(&["--help", "--count", "3"])), Invocation::Help);
    assert_eq!(parse_invocation(&args(&["--count", "abc", "-h"])), Invocation::Help);
}

#[test]
fn stray_positional_arguments_stop_a_run() {
    assert_eq!(parse_invocation(&args(&["leftover"])), Invocation::Stray);
    assert_eq!(parse_invocation(&args(&["--count", "3", "extra"])), Invocation::Stray);
}

#[test]
fn unknown_flag_is_malformed() {
    match parse_invocation(&args(&["--nope"])) {
        Invocation::Malformed(msg) => assert!(!msg.is_empty()),
        other => panic!("expected Malformed, got {:?}", other),
    }
}

#[test]
fn missing_option_value_is_malformed() {
    match parse_invocation(&args(&["--count"])) {
        Invocation::Malformed(msg) => assert!(!msg.is_empty()),
        other => panic!("expected Malformed, got {:?}", other),
    }
}

#[test]
fn unparseable_count_is_reported_not_run() {
    assert_eq!(
        parse_invocation(&args(&["--count", "abc"])),
        Invocation::BadCount(CountError::BadDigit)
    );
    assert_eq!(
        parse_invocation(&args(&["-c", "99999999999999999999999"])),
        Invocation::BadCount(CountError::TooLarge)
    );
}

#[test]
fn defaults_are_onion_and_ten() {
    match parse_invocation(&args(&[])) {
        Invocation::Run(cfg) => {
            assert_eq!(cfg.tld, "onion");
            assert_eq!(cfg.count, 10);
        }
        other => panic!("expected Run, got {:?}", other),
    }
}

#[test]
fn tld_test_count_three_yields_three_test_lines() {
    match parse_invocation(&args(&["--tld", "test", "--count", "3"])) {
        Invocation::Run(cfg) => {
            assert_eq!(cfg.tld, "test");
            assert_eq!(cfg.count, 3);
            let lines = generate_domains(cfg.count as usize, &cfg.tld);
            assert_eq!(lines.len(), 3);
            for line in &lines {
                let chars: Vec<char> = line.chars().collect();
                assert_eq!(chars.len(), 16 + 1 + 4);
                for &c in &chars[..16] {
                    assert!(('a'..='z').contains(&c) || ('2'..='7').contains(&c));
                }
                assert_eq!(chars[16], '.');
                assert!(line.ends_with(".test"));
            }
        }
        other => panic!("expected Run, got {:?}", other),
    }
}

#[test]
fn short_flags_work_like_the_long_ones() {
    match parse_invocation(&args(&["-t", "net", "-c", "2"])) {
        Invocation::Run(cfg) => {
            assert_eq!(cfg.tld, "net");
            assert_eq!(cfg.count, 2);
        }
        other => panic!("expected Run, got {:?}", other),
    }
}

#[test]
fn decide_follows_its_inputs() {
    let no_free: Vec<String> = vec![];
    let one_free = args(&["stray"]);
    assert_eq!(decide(true, &one_free, &Some("abc".to_string()), &None), Invocation::Help);
    assert_eq!(decide(false, &one_free, &None, &None), Invocation::Stray);
    match decide(false, &no_free, &Some("4".to_string()), &Some("org".to_string())) {
        Invocation::Run(cfg) => {
            assert_eq!(cfg.count, 4);
            assert_eq!(cfg.tld, "org");
        }
        other => panic!("expected Run, got {:?}", other),
    }
    assert_eq!(
        decide(false, &no_free, &Some("".to_string()), &None),
        Invocation::BadCount(CountError::Empty)
    );
}

#[test]
fn usage_begins_with_the_brief_and_names_the_options() {
    let text = usage_text("domgen");
    assert!(text.starts_with("Usage: domgen [-t onion | -c 10 ]"));
    assert!(text.contains("--help"));
    assert!(text.contains("--tld"));
    assert!(text.contains("--count"));
}

#[test]
fn equals_form_of_options_works() {
    match parse_invocation(&args(&["--tld=test", "--count=3"])) {
        Invocation::Run(cfg) => {
            assert_eq!(cfg.tld, "test");
            assert_eq!(cfg.count, 3);
        }
        other => panic!("expected Run, got {:?}", other),
    }
}
