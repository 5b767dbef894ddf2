use metadata_guardian::metadata_guardian::crate_version;
use metadata_guardian::metadata_guardian::DataRule;
use metadata_guardian::metadata_guardian::DataRules;
use metadata_guardian::metadata_guardian::MetadataGuardianError;

#[test]
fn test_validate_word_with_pii_should_not_contain_results() {
    let data_guardian = DataRules::new(
        "PII",
        vec![DataRule::new(
            "email content".to_string(),
            "([a-z0-9!#$%&'*+/=?^_`{|.}~-]+@(?:[a-z0-9](?:[a-z0-9-]*[a-z0-9])?\\.)+[a-z0-9](?:[a-z0-9-]*[a-z0-9])?)".to_string(),
            "The email is a personal identifiable information.\n".to_string(),
        )],
    )
    .unwrap();
    let content = "no pii";
    let category = "PII";
    let result = data_guardian.validate_word(content);
    assert_eq!(result.category, category);
    assert_eq!(result.content, content);
    assert_eq!(result.data_rules.len(), 0);
}

#[test]
fn test_validate_word_with_pii_should_contains_results() {
    let data_guardian = DataRules::new(
        "PII",
        vec![DataRule::new(
            "email content".to_string(),
            "([a-z0-9!#$%&'*+/=?^_`{|.}~-]+@(?:[a-z0-9](?:[a-z0-9-]*[a-z0-9])?\\.)+[a-z0-9](?:[a-z0-9-]*[a-z0-9])?)".to_string(),
            "The email is a personal identifiable information.\n".to_string(),
        )],
    )
    .unwrap();
    let content = "test@gmail.com";
    let category = "PII";
    let result = data_guardian.validate_word(content);
    let data_rules = vec![DataRule {
        pattern: "([a-z0-9!#$%&'*+/=?^_`{|.}~-]+@(?:[a-z0-9](?:[a-z0-9-]*[a-z0-9])?\\.)+[a-z0-9](?:[a-z0-9-]*[a-z0-9])?)".to_string(),
        documentation: "The email is a personal identifiable information.\n".to_string(),
        rule_name: "email content".to_string(),
    }];
    assert_eq!(result.category, category);
    assert_eq!(result.content, content);
    assert_eq!(result.data_rules[0], data_rules[0]);
}

#[test]
fn test_validate_word_with_inclusion_should_contains_results() {
    let data_guardian = DataRules::new(
        "INCLUSION",
        vec![DataRule::new(
            "master".to_string(),
            "\\b(slave|master|mastership)\\b".to_string(),
            "\"Master–slave\" is an offensive and exclusionary metaphor that cannot be detached from American\nhistory. Prefer describing a hierarchical relationship between nodes more precisely. Prefer using\nleader/follower, primary/replica or primary/standby.\n".to_string(),
        )],
    )
    .unwrap();
    let content = "master";
    let category = "INCLUSION";
    let result = data_guardian.validate_word(content);
    let data_rules = vec![DataRule {
        pattern: "\\b(slave|master|mastership)\\b".to_string(),
        documentation: "\"Master–slave\" is an offensive and exclusionary metaphor that cannot be detached from American\nhistory. Prefer describing a hierarchical relationship between nodes more precisely. Prefer using\nleader/follower, primary/replica or primary/standby.\n".to_string(),
        rule_name: "master".to_string(),
    }];
    assert_eq!(result.category, category);
    assert_eq!(result.content, content);
    assert_eq!(result.data_rules[0], data_rules[0]);
}

#[test]
fn test_validate_words_with_inclusion_should_contains_results() {
    let data_guardian = DataRules::new(
        "INCLUSION",
        vec![DataRule::new(
            "master".to_string(),
            "\\b(slave|master|mastership)\\b".to_string(),
            "\"Master–slave\" is an offensive and exclusionary metaphor that cannot be detached from American\nhistory. Prefer describing a hierarchical relationship between nodes more precisely. Prefer using\nleader/follower, primary/replica or primary/standby.\n".to_string(),
        )],
    )
    .unwrap();
    let content = vec!["no error", "no error 2", "master"];
    let category = "INCLUSION";
    let results = data_guardian.validate_words(content);
    let data_rules = vec![DataRule {
        pattern: "\\b(slave|master|mastership)\\b".to_string(),
        documentation: "\"Master–slave\" is an offensive and exclusionary metaphor that cannot be detached from American\nhistory. Prefer describing a hierarchical relationship between nodes more precisely. Prefer using\nleader/follower, primary/replica or primary/standby.\n".to_string(),
        rule_name: "master".to_string(),
    }];
    assert_eq!(results.len(), 1);
    let result = &results[0];
    assert_eq!(result.category, category);
    assert_eq!(result.content, "master");
    assert_eq!(result.data_rules[0], data_rules[0]);
}

#[test]
fn test_validate_lines_with_inclusion_should_contains_results() {
    let data_guardian = DataRules::new(
        "INCLUSION",
        vec![DataRule::new(
            "master".to_string(),
            "\\b(slave|master|mastership)\\b".to_string(),
            "\"Master–slave\" is an offensive and exclusionary metaphor that cannot be detached from American\nhistory. Prefer describing a hierarchical relationship between nodes more precisely. Prefer using\nleader/follower, primary/replica or primary/standby.\n".to_string(),
        )],
    )
    .unwrap();
    let lines = vec![
        "Slavery in the ancient world, from the earliest known recorded evidence",
        "was in many instances a complex interplay of both",
        "unpaid and unfree workers. Any particular slave may fulfill one, several, or",
        "",
        "all of the roles over the course of a working life.",
    ];
    let results = data_guardian.validate_words(lines);
    assert_eq!(results.len(), 1);
    let result = &results[0];
    assert_eq!(result.category, "INCLUSION");
    assert_eq!(
        result.content,
        "unpaid and unfree workers. Any particular slave may fulfill one, several, or"
    );
    assert_eq!(result.data_rules[0].rule_name, "master");
    assert_eq!(result.data_rules[0].pattern, "\\b(slave|master|mastership)\\b");
}

#[test]
fn test_invalid_pattern_fails_construction() {
    let result = DataRules::new(
        "PII",
        vec![
            DataRule::new(
                "fine".to_string(),
                "[0-9]+".to_string(),
                "digits".to_string(),
            ),
            DataRule::new(
                "broken".to_string(),
                "(unclosed".to_string(),
                "not a valid regular expression".to_string(),
            ),
        ],
    );
    match result {
        Err(MetadataGuardianError::InvalidRegex { message }) => {
            assert!(!message.is_empty());
        }
        _ => panic!("construction must fail with InvalidRegex"),
    }
}

#[test]
fn test_valid_patterns_construct_atomically() {
    let rules = DataRules::new(
        "PII",
        vec![
            DataRule::new("a".to_string(), "[0-9]+".to_string(), "digits".to_string()),
            DataRule::new("b".to_string(), "[a-z]+".to_string(), "letters".to_string()),
        ],
    )
    .unwrap();
    assert_eq!(rules.category, "PII");
    assert_eq!(rules.data_rules.len(), 2);
}

#[test]
fn test_validate_word_is_idempotent() {
    let data_guardian = DataRules::new(
        "INCLUSION",
        vec![DataRule::new(
            "master".to_string(),
            "\\b(slave|master|mastership)\\b".to_string(),
            "doc".to_string(),
        )],
    )
    .unwrap();
    let first = data_guardian.validate_word("the master node");
    let second = data_guardian.validate_word("the master node");
    assert_eq!(first, second);
}

#[test]
fn test_validate_words_skips_empty_strings() {
    let data_guardian = DataRules::new(
        "INCLUSION",
        vec![DataRule::new(
            "anything".to_string(),
            ".*".to_string(),
            "matches every word, even so the empty string is skipped".to_string(),
        )],
    )
    .unwrap();
    let results = data_guardian.validate_words(vec!["", "x", ""]);
    assert_eq!(results.len(), 1);
    assert_eq!(results[0].content, "x");
    assert!(!results[0].data_rules.is_empty());
}

#[test]
fn test_validate_unit_filters_like_the_batch() {
    let data_guardian = DataRules::new(
        "INCLUSION",
        vec![DataRule::new(
            "master".to_string(),
            "\\b(slave|master|mastership)\\b".to_string(),
            "doc".to_string(),
        )],
    )
    .unwrap();
    assert!(data_guardian.validate_unit("").is_none());
    assert!(data_guardian.validate_unit("a clean line").is_none());
    let kept = data_guardian.validate_unit("the master node").unwrap();
    assert_eq!(kept.content, "the master node");
    assert_eq!(kept.data_rules.len(), 1);
}

#[test]
fn test_matched_rules_are_in_rule_order() {
    let data_guardian = DataRules::new(
        "ORDER",
        vec![
            DataRule::new("digits".to_string(), "[0-9]+".to_string(), "d".to_string()),
            DataRule::new("letters".to_string(), "[a-z]+".to_string(), "l".to_string()),
            DataRule::new("dash".to_string(), "--".to_string(), "never here".to_string()),
        ],
    )
    .unwrap();
    let result = data_guardian.validate_word("abc123");
    assert_eq!(result.data_rules.len(), 2);
    assert_eq!(result.data_rules[0].rule_name, "digits");
    assert_eq!(result.data_rules[1].rule_name, "letters");
}

#[test]
fn test_match_is_substring_without_implicit_anchors() {
    let data_guardian = DataRules::new(
        "SUBSTRING",
        vec![DataRule::new(
            "plain".to_string(),
            "abc".to_string(),
            "unanchored pattern".to_string(),
        )],
    )
    .unwrap();
    assert_eq!(data_guardian.validate_word("xxabcxx").data_rules.len(), 1);
    assert_eq!(data_guardian.validate_word("xxabxx").data_rules.len(), 0);
}

#[test]
fn test_empty_rule_set_matches_nothing() {
    let data_guardian = DataRules::new("EMPTY", vec![]).unwrap();
    let result = data_guardian.validate_word("anything");
    assert_eq!(result.category, "EMPTY");
    assert_eq!(result.data_rules.len(), 0);
    assert_eq!(data_guardian.validate_words(vec!["a", "b"]).len(), 0);
}

#[test]
fn test_data_rules_equality_ignores_compiled_matcher() {
    let a = DataRules::new(
        "PII",
        vec![DataRule::new("a".to_string(), "[0-9]+".to_string(), "d".to_string())],
    )
    .unwrap();
    let b = DataRules::new(
        "PII",
        vec![DataRule::new("a".to_string(), "[0-9]+".to_string(), "d".to_string())],
    )
    .unwrap();
    let c = DataRules::new(
        "OTHER",
        vec![DataRule::new("a".to_string(), "[0-9]+".to_string(), "d".to_string())],
    )
    .unwrap();
    assert_eq!(a, b);
    assert_ne!(a, c);
}

#[test]
fn test_data_rule_equality_is_by_fields() {
    let a = DataRule::new("n".to_string(), "p".to_string(), "d".to_string());
    let b = DataRule::new("n".to_string(), "p".to_string(), "d".to_string());
    let c = DataRule::new("n".to_string(), "q".to_string(), "d".to_string());
    assert_eq!(a, b);
    assert_ne!(a, c);
}

#[test]
fn test_error_message_is_exposed_as_string() {
    let result = DataRules::new(
        "X",
        vec![DataRule::new(
            "broken".to_string(),
            "(".to_string(),
            "doc".to_string(),
        )],
    );
    match result {
        Err(e) => assert!(!e.message().is_empty()),
        Ok(_) => panic!("an unclosed group must not compile"),
    }
}

#[test]
fn test_crate_version() {
    assert_eq!(crate_version(), "0.1.0");
}
