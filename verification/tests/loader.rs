use pushdown::error::PdaRulesError;
use pushdown::rules::{PdaRules, RawDescription, RawStateDecl, RawTransition};
use pushdown::PdaStateType;

fn ab_json() -> &'static str {
    r##"{
        "input_symbols": "ab#",
        "stack_symbols": "ab",
        "states": [
            {"symbol": "A", "accepting": true},
            {"symbol": "B", "accepting": false},
            {"symbol": "E", "accepting": false}
        ],
        "start_state": "A",
        "transitions": [
            {"curr_state": "A", "input": "a", "top": null, "dest_state": "B", "push_sequence": "a"},
            {"curr_state": "B", "input": "b", "top": "a", "dest_state": "B", "push_sequence": null},
            {"curr_state": "B", "input": "#", "top": null, "dest_state": "A", "push_sequence": null}
        ]
    }"##
}

#[test]
fn parsing_test() {
    let rules = PdaRules::from_json(ab_json());
    println!("rules {:?}", rules);
    assert!(rules.is_ok());
}

fn invalid_rule_message(r: Result<PdaRules, PdaRulesError>) -> String {
    match r {
        Err(PdaRulesError::InvalidRule(m)) => m,
        other => panic!("expected an invalid-rule error, got {:?}", other),
    }
}

fn parser_failed_message(r: Result<PdaRules, PdaRulesError>) -> String {
    match r {
        Err(PdaRulesError::RulesParserFailed(m)) => m,
        other => panic!("expected a parse failure, got {:?}", other),
    }
}

#[test]
fn malformed_json_is_a_parse_failure() {
    let r = PdaRules::from_json("{ this is not json");
    assert_eq!(parser_failed_message(r), "JSON error");
}

#[test]
fn missing_section_is_a_parse_failure() {
    let r = PdaRules::from_json(r#"{"input_symbols": "ab"}"#);
    assert_eq!(
        parser_failed_message(r),
        "invalid stack symbols definition format"
    );
}

#[test]
fn empty_input_symbols_rejected() {
    let json = r#"{
        "input_symbols": "",
        "stack_symbols": "ab",
        "states": [{"symbol": "A", "accepting": true}],
        "start_state": "A",
        "transitions": []
    }"#;
    assert_eq!(
        invalid_rule_message(PdaRules::from_json(json)),
        "empty input symbols"
    );
}

#[test]
fn empty_stack_symbols_rejected() {
    let json = r#"{
        "input_symbols": "ab",
        "stack_symbols": "",
        "states": [{"symbol": "A", "accepting": true}],
        "start_state": "A",
        "transitions": []
    }"#;
    assert_eq!(
        invalid_rule_message(PdaRules::from_json(json)),
        "empty stack symbols"
    );
}

#[test]
fn duplicate_state_rejected_naming_the_atom() {
    let json = r#"{
        "input_symbols": "ab",
        "stack_symbols": "ab",
        "states": [
            {"symbol": "A", "accepting": true},
            {"symbol": "B", "accepting": false},
            {"symbol": "A", "accepting": false}
        ],
        "start_state": "A",
        "transitions": []
    }"#;
    assert_eq!(
        invalid_rule_message(PdaRules::from_json(json)),
        "state redefinition: A"
    );
}

#[test]
fn unknown_start_state_rejected() {
    let json = r#"{
        "input_symbols": "ab",
        "stack_symbols": "ab",
        "states": [{"symbol": "A", "accepting": true}],
        "start_state": "X",
        "transitions": []
    }"#;
    assert_eq!(
        invalid_rule_message(PdaRules::from_json(json)),
        "unknown start state"
    );
}

#[test]
fn dangling_transition_references_rejected() {
    let base = |trans: &str| -> String {
        format!(
            r#"{{
                "input_symbols": "ab",
                "stack_symbols": "xy",
                "states": [{{"symbol": "A", "accepting": true}}],
                "start_state": "A",
                "transitions": [{}]
            }}"#,
            trans
        )
    };

    let r = PdaRules::from_json(&base(
        r#"{"curr_state": "Q", "input": "a", "top": null, "dest_state": "A", "push_sequence": null}"#,
    ));
    assert_eq!(
        invalid_rule_message(r),
        "unknown curr state in transition: Q"
    );

    let r = PdaRules::from_json(&base(
        r#"{"curr_state": "A", "input": "c", "top": null, "dest_state": "A", "push_sequence": null}"#,
    ));
    assert_eq!(invalid_rule_message(r), "unknown input in transition: c");

    let r = PdaRules::from_json(&base(
        r#"{"curr_state": "A", "input": "a", "top": "z", "dest_state": "A", "push_sequence": null}"#,
    ));
    assert_eq!(
        invalid_rule_message(r),
        "unknown stack top in transition: z"
    );

    let r = PdaRules::from_json(&base(
        r#"{"curr_state": "A", "input": "a", "top": null, "dest_state": "Q", "push_sequence": null}"#,
    ));
    assert_eq!(
        invalid_rule_message(r),
        "unknown dest state in transition: Q"
    );

    let r = PdaRules::from_json(&base(
        r#"{"curr_state": "A", "input": "a", "top": null, "dest_state": "A", "push_sequence": "xz"}"#,
    ));
    assert_eq!(
        invalid_rule_message(r),
        "unknown stack symbol in push sequence in transition: xz"
    );
}

fn small_description() -> RawDescription {
    RawDescription {
        input_symbols: "ab".to_string(),
        stack_symbols: "xy".to_string(),
        states: vec![
            RawStateDecl { symbol: "A".to_string(), accepting: true },
            RawStateDecl { symbol: "B".to_string(), accepting: false },
        ],
        start_state: "A".to_string(),
        transitions: vec![RawTransition {
            curr_state: "A".to_string(),
            input: "a".to_string(),
            top: None,
            dest_state: "B".to_string(),
            push_sequence: Some("xy".to_string()),
        }],
    }
}

#[test]
fn from_description_accepts_a_valid_description() {
    let r = PdaRules::from_description(&small_description());
    assert!(r.is_ok());
}

#[test]
fn from_description_rejects_long_state_atom_as_parse_failure() {
    let mut d = small_description();
    d.states[1].symbol = "BB".to_string();
    // The transition referencing "B" would now dangle too, but the state
    // atom format is checked first.
    let r = PdaRules::from_description(&d);
    assert_eq!(parser_failed_message(r), "invalid state symbol format");
}

#[test]
fn from_description_rejects_long_start_atom_as_parse_failure() {
    let mut d = small_description();
    d.start_state = "AB".to_string();
    let r = PdaRules::from_description(&d);
    assert_eq!(parser_failed_message(r), "invalid start state symbol");
}

#[test]
fn from_description_validation_order_is_fixed() {
    // Both alphabets empty and the start state unknown: the input
    // alphabet is reported, as the first rule checked.
    let mut d = small_description();
    d.input_symbols = String::new();
    d.stack_symbols = String::new();
    d.start_state = "Q".to_string();
    assert_eq!(
        invalid_rule_message(PdaRules::from_description(&d)),
        "empty input symbols"
    );
}

#[test]
fn rules_error_messages_carry_the_detail() {
    let e = PdaRulesError::RulesParserFailed("JSON error".to_string());
    assert_eq!(
        e.describe(),
        "pda rules error: failed to parse rules script: JSON error"
    );
    let e = PdaRulesError::InvalidRule("unknown start state".to_string());
    assert_eq!(
        e.describe(),
        "pda rules error: invalid rule: unknown start state"
    );
}

#[test]
fn alphabet_and_classification_queries() {
    let rules = PdaRules::from_json(ab_json()).unwrap();
    assert!(rules.is_input_symbol('a'));
    assert!(rules.is_input_symbol('#'));
    assert!(!rules.is_input_symbol('z'));
    assert!(matches!(rules.get_state_type('A'), PdaStateType::Accepting));
    assert!(matches!(rules.get_state_type('B'), PdaStateType::NonAccepting));
    // An undeclared atom is simply not accepting.
    assert!(matches!(rules.get_state_type('?'), PdaStateType::NonAccepting));
}
