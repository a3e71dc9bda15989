use vstd::prelude::*;

use crate::text::{make_msg, push_char, push_str};

verus! {

/// Run-time error of the automaton engine. Either error leaves the
/// automaton's state and stack exactly as they were.
#[derive(Debug, Clone, Copy, PartialEq, Eq)]
pub enum PdaError {
    /// The supplied atom is outside the declared input alphabet.
    UnknownInputSymbol(char),
    /// No transition matches the (state, input, stack top) triple.
    UnresolvedTransition((char, char, Option<char>)),
}

impl PdaError {
    /// A diagnostic line naming the offending atom or configuration.
    /// An empty stack top is rendered as the epsilon character.
    pub fn describe(&self) -> (r: String)
        ensures
            (match self {
                PdaError::UnknownInputSymbol(c) => r@ == "pda error: unknown input symbol '"@
                    + seq![*c] + "'"@,
                PdaError::UnresolvedTransition((s, i, t)) => r@
                    == "pda error: unresolved transition (state: '"@ + seq![*s]
                    + "', input: '"@ + seq![*i] + "', top: '"@ + seq![
                    match t {
                        Some(c) => *c,
                        None => '\u{3b5}',
                    },
                ] + "') -> ?"@,
            }),
    {
        match self {
            PdaError::UnknownInputSymbol(c) => {
                let mut m = "pda error: unknown input symbol '".to_owned();
                push_char(&mut m, *c);
                push_str(&mut m, "'");
                m
            },
            PdaError::UnresolvedTransition((s, i, t)) => {
                let mut m = "pda error: unresolved transition (state: '".to_owned();
                push_char(&mut m, *s);
                push_str(&mut m, "', input: '");
                push_char(&mut m, *i);
                push_str(&mut m, "', top: '");
                match t {
                    Some(c) => push_char(&mut m, *c),
                    None => push_char(&mut m, '\u{3b5}'),
                }
                push_str(&mut m, "') -> ?");
                m
            },
        }
    }
}

/// Load-time error of the rule-set loader. The loader never hands out a
/// partially valid rule set: any of these means no rule set at all.
#[derive(Debug, Clone, PartialEq, Eq)]
pub enum PdaRulesError {
    /// The description could not be structurally parsed.
    RulesParserFailed(String),
    /// A validation rule was violated (empty alphabet, duplicate state,
    /// unknown start state, dangling reference in a transition).
    InvalidRule(String),
}

impl PdaRulesError {
    /// A diagnostic line carrying the detail message.
    pub fn describe(&self) -> (r: String)
        ensures
            (match self {
                PdaRulesError::RulesParserFailed(m) => r@
                    == "pda rules error: failed to parse rules script: "@ + m@,
                PdaRulesError::InvalidRule(m) => r@ == "pda rules error: invalid rule: "@ + m@,
            }),
    {
        match self {
            PdaRulesError::RulesParserFailed(m) => make_msg(
                "pda rules error: failed to parse rules script: ",
                m.as_str(),
            ),
            PdaRulesError::InvalidRule(m) => make_msg(
                "pda rules error: invalid rule: ",
                m.as_str(),
            ),
        }
    }
}

} // verus!
