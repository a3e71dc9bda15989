use pushdown::error::PdaError;
use pushdown::rules::PdaRules;
use pushdown::{Pda, PdaStateType};

fn ab_json() -> &'static str {
    r##"{
        "input_symbols": "ab#",
        "stack_symbols": "ab",
        "states": [
            {"symbol": "A", "accepting": true},
            {"symbol": "B", "accepting": false},
            {"symbol": "E", "accepting": false}
        ],
        "start_state": "A",
        "transitions": [
            {"curr_state": "A", "input": "a", "top": null, "dest_state": "B", "push_sequence": "a"},
            {"curr_state": "A", "input": "b", "top": null, "dest_state": "E", "push_sequence": null},
            {"curr_state": "A", "input": "#", "top": null, "dest_state": "A", "push_sequence": null},
            {"curr_state": "B", "input": "a", "top": "a", "dest_state": "B", "push_sequence": "aa"},
            {"curr_state": "B", "input": "a", "top": null, "dest_state": "B", "push_sequence": "a"},
            {"curr_state": "B", "input": "b", "top": "a", "dest_state": "B", "push_sequence": null},
            {"curr_state": "B", "input": "b", "top": null, "dest_state": "E", "push_sequence": null},
            {"curr_state": "B", "input": "#", "top": null, "dest_state": "A", "push_sequence": null},
            {"curr_state": "B", "input": "#", "top": "a", "dest_state": "E", "push_sequence": null},
            {"curr_state": "E", "input": "a", "top": null, "dest_state": "E", "push_sequence": null},
            {"curr_state": "E", "input": "b", "top": null, "dest_state": "E", "push_sequence": null},
            {"curr_state": "E", "input": "#", "top": null, "dest_state": "E", "push_sequence": null},
            {"curr_state": "E", "input": "a", "top": "a", "dest_state": "E", "push_sequence": null},
            {"curr_state": "E", "input": "b", "top": "a", "dest_state": "E", "push_sequence": null},
            {"curr_state": "E", "input": "#", "top": "a", "dest_state": "E", "push_sequence": null}
        ]
    }"##
}

#[test]
fn pushdown_test() {
    let json_script = ab_json();
    let rules = PdaRules::from_json(json_script).unwrap();
    let mut pda = Pda::new(rules);

    pda.reset();
    let input_string = "ab#";
    for input in input_string.chars() {
        pda.step(input).unwrap();
    }
    assert_eq!(pda.get_curr_state().0, 'A');
    assert!(matches!(pda.get_curr_state().1, PdaStateType::Accepting));

    pda.reset();
    let input_string = "abb#";
    for input in input_string.chars() {
        pda.step(input).unwrap();
    }
    assert_eq!(pda.get_curr_state().0, 'E');
    assert!(matches!(pda.get_curr_state(), ('E', PdaStateType::NonAccepting)));

    pda.reset();
    let input_string = "#";
    for input in input_string.chars() {
        pda.step(input).unwrap();
    }
    assert_eq!(pda.get_curr_state().0, 'A');
    assert!(matches!(pda.get_curr_state().1, PdaStateType::Accepting));

    pda.reset();
    let input_string = "aabababb#";
    for input in input_string.chars() {
        pda.step(input).unwrap();
    }
    assert_eq!(pda.get_curr_state().0, 'A');
    assert!(matches!(pda.get_curr_state().1, PdaStateType::Accepting));

    pda.reset();
    let input_string = "aabbbababb#";
    for input in input_string.chars() {
        pda.step(input).unwrap();
    }
    assert_eq!(pda.get_curr_state().0, 'E');
    assert!(matches!(pda.get_curr_state().1, PdaStateType::NonAccepting));
}

#[test]
fn unknown_input_symbol_leaves_all_untouched() {
    let rules = PdaRules::from_json(ab_json()).unwrap();
    let mut pda = Pda::new(rules);

    // Put something on the stack first, then fail, then finish the word:
    // the run still accepts, so the failed step left state and stack alone.
    pda.step('a').unwrap();
    let before = pda.get_curr_state();
    assert_eq!(pda.step('z'), Err(PdaError::UnknownInputSymbol('z')));
    assert_eq!(pda.get_curr_state(), before);
    pda.step('b').unwrap();
    let status = pda.step('#').unwrap();
    assert_eq!(status, ('A', PdaStateType::Accepting));
}

#[test]
fn unresolved_transition_reports_triple_and_changes_nothing() {
    let json = r#"{
        "input_symbols": "pq",
        "stack_symbols": "x",
        "states": [{"symbol": "S", "accepting": false}],
        "start_state": "S",
        "transitions": [
            {"curr_state": "S", "input": "p", "top": null, "dest_state": "S", "push_sequence": "x"}
        ]
    }"#;
    let rules = PdaRules::from_json(json).unwrap();
    let mut pda = Pda::new(rules);

    // No rule for input 'q' from the start configuration.
    let before = pda.get_curr_state();
    assert_eq!(
        pda.step('q'),
        Err(PdaError::UnresolvedTransition(('S', 'q', None)))
    );
    assert_eq!(pda.get_curr_state(), before);

    // After a push the reported top changes with the configuration.
    pda.step('p').unwrap();
    assert_eq!(
        pda.step('q'),
        Err(PdaError::UnresolvedTransition(('S', 'q', Some('x'))))
    );
}

#[test]
fn push_order_first_atom_ends_on_top() {
    // One transition pushes "xy" onto the empty stack. The decoy rule for
    // top 'y' is declared before the rule for top 'x': if 'x' ends on top,
    // the 'x' rule fires and the run goes to 'U', not 'W'.
    let json = r#"{
        "input_symbols": "pq",
        "stack_symbols": "xy",
        "states": [
            {"symbol": "S", "accepting": false},
            {"symbol": "T", "accepting": false},
            {"symbol": "U", "accepting": false},
            {"symbol": "W", "accepting": false},
            {"symbol": "Z", "accepting": true}
        ],
        "start_state": "S",
        "transitions": [
            {"curr_state": "S", "input": "p", "top": null, "dest_state": "T", "push_sequence": "xy"},
            {"curr_state": "T", "input": "q", "top": "y", "dest_state": "W", "push_sequence": null},
            {"curr_state": "T", "input": "q", "top": "x", "dest_state": "U", "push_sequence": null},
            {"curr_state": "U", "input": "q", "top": "y", "dest_state": "Z", "push_sequence": null}
        ]
    }"#;
    let rules = PdaRules::from_json(json).unwrap();
    let mut pda = Pda::new(rules);

    pda.step('p').unwrap();
    let status = pda.step('q').unwrap();
    assert_eq!(status, ('U', PdaStateType::NonAccepting));
    // 'y' was beneath 'x': it is the top now that 'x' is popped.
    let status = pda.step('q').unwrap();
    assert_eq!(status, ('Z', PdaStateType::Accepting));
}

#[test]
fn determinism_same_run_same_result() {
    let rules = PdaRules::from_json(ab_json()).unwrap();
    let rules2 = PdaRules::from_json(ab_json()).unwrap();
    let mut first = Pda::new(rules);
    let mut second = Pda::new(rules2);

    for _ in 0..3 {
        first.reset();
        second.reset();
        for input in "aabababb#".chars() {
            let a = first.step(input).unwrap();
            let b = second.step(input).unwrap();
            assert_eq!(a, b);
        }
        assert_eq!(first.get_curr_state(), ('A', PdaStateType::Accepting));
        assert_eq!(second.get_curr_state(), ('A', PdaStateType::Accepting));
    }
}

#[test]
fn reset_is_idempotent() {
    let rules = PdaRules::from_json(ab_json()).unwrap();
    let mut pda = Pda::new(rules);

    assert_eq!(pda.get_curr_state(), ('A', PdaStateType::Accepting));
    pda.step('a').unwrap();
    pda.step('a').unwrap();
    assert_eq!(pda.get_curr_state().0, 'B');

    for _ in 0..4 {
        pda.reset();
        assert_eq!(pda.get_curr_state(), ('A', PdaStateType::Accepting));
        // The stack is empty again: the empty-top '#' rule fires from 'A'.
        let status = pda.step('#').unwrap();
        assert_eq!(status, ('A', PdaStateType::Accepting));
        pda.reset();
    }
    assert_eq!(pda.get_curr_state(), ('A', PdaStateType::Accepting));
}

#[test]
fn error_messages_name_the_offender() {
    let e = PdaError::UnknownInputSymbol('z');
    assert_eq!(e.describe(), "pda error: unknown input symbol 'z'");

    let e = PdaError::UnresolvedTransition(('S', 'q', Some('x')));
    assert_eq!(
        e.describe(),
        "pda error: unresolved transition (state: 'S', input: 'q', top: 'x') -> ?"
    );

    let e = PdaError::UnresolvedTransition(('S', 'q', None));
    assert_eq!(
        e.describe(),
        format!(
            "pda error: unresolved transition (state: 'S', input: 'q', top: '{}') -> ?",
            '\u{3b5}'
        )
    );
}

#[test]
fn duplicate_transition_keys_first_declared_wins() {
    // The loader lets two transitions share a (state, input, top) key;
    // the engine then takes the first one in declaration order.
    let json = r#"{
        "input_symbols": "p",
        "stack_symbols": "x",
        "states": [
            {"symbol": "S", "accepting": false},
            {"symbol": "T", "accepting": true},
            {"symbol": "U", "accepting": false}
        ],
        "start_state": "S",
        "transitions": [
            {"curr_state": "S", "input": "p", "top": null, "dest_state": "T", "push_sequence": null},
            {"curr_state": "S", "input": "p", "top": null, "dest_state": "U", "push_sequence": null}
        ]
    }"#;
    let rules = PdaRules::from_json(json).unwrap();
    let mut pda = Pda::new(rules);
    assert_eq!(pda.step('p').unwrap(), ('T', PdaStateType::Accepting));
}
