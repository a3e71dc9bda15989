use vstd::prelude::*;

use crate::error::PdaRulesError;
use crate::json::{json_as_array, json_as_bool, json_as_str, json_from_str, json_get, json_is_null, spec_json_ok};
use crate::text::{chars_of, contains_char, make_msg, single_char};
use crate::{PdaState, PdaStateType, PdaTransition, TransitionView};

verus! {

/// A validated, immutable rule set: alphabets, state declarations
/// (atom plus accepting flag), start state and transition table.
#[derive(Debug, Clone)]
pub struct PdaRules {
    pub(crate) input_symbols: Vec<char>,
    pub(crate) stack_symbols: Vec<char>,
    pub(crate) states: Vec<(char, bool)>,
    pub(crate) start_state: PdaState,
    pub(crate) transitions: Vec<PdaTransition>,
}

/// Mathematical model of a rule set.
pub struct RulesView {
    pub input_symbols: Seq<char>,
    pub stack_symbols: Seq<char>,
    pub states: Seq<(char, bool)>,
    pub start_state: char,
    pub transitions: Seq<TransitionView>,
}

impl View for PdaRules {
    type V = RulesView;

    open(crate) spec fn view(&self) -> RulesView {
        RulesView {
            input_symbols: self.input_symbols@,
            stack_symbols: self.stack_symbols@,
            states: self.states@,
            start_state: self.start_state,
            transitions: self.transitions@.map_values(|t: PdaTransition| t@),
        }
    }
}

/// Whether `s` is among the declared state atoms.
pub open spec fn spec_is_state(states: Seq<(char, bool)>, s: char) -> bool {
    exists|i: int| 0 <= i < states.len() && states[i].0 == s
}

/// The accepting flag of the first declaration of `s`, `false` when `s`
/// is not declared.
pub open spec fn spec_is_accepting(states: Seq<(char, bool)>, s: char) -> bool
    decreases states.len(),
{
    if states.len() == 0 {
        false
    } else if states[0].0 == s {
        states[0].1
    } else {
        spec_is_accepting(states.drop_first(), s)
    }
}

/// Classification of state `s` under rule set `rv`.
pub open spec fn spec_classify(rv: RulesView, s: char) -> PdaStateType {
    if spec_is_accepting(rv.states, s) {
        PdaStateType::Accepting
    } else {
        PdaStateType::NonAccepting
    }
}

/// Well-formedness of a rule set: the invariants that validation establishes.
pub open spec fn rules_wf(rv: RulesView) -> bool {
    &&& rv.input_symbols.len() > 0
    &&& rv.stack_symbols.len() > 0
    &&& rv.states.len() > 0
    &&& (forall|i: int, j: int|
        0 <= i < j < rv.states.len() ==> rv.states[i].0 != rv.states[j].0)
    &&& spec_is_state(rv.states, rv.start_state)
    &&& (forall|k: int| 0 <= k < rv.transitions.len() ==> trans_wf(rv, #[trigger] rv.transitions[k]))
}

/// Well-formedness of one transition against the declared alphabets and states.
pub open spec fn trans_wf(rv: RulesView, t: TransitionView) -> bool {
    &&& spec_is_state(rv.states, t.curr_state)
    &&& rv.input_symbols.contains(t.input)
    &&& (t.top matches Some(c) ==> rv.stack_symbols.contains(c))
    &&& spec_is_state(rv.states, t.dest_state)
    &&& (t.push_sequence matches Some(ps) ==> forall|i: int|
        0 <= i < ps.len() ==> rv.stack_symbols.contains(#[trigger] ps[i]))
}

/// Declarative description of one state: its atom (a one-character
/// string) and whether it is accepting.
#[derive(Debug, Clone)]
pub struct RawStateDecl {
    pub symbol: String,
    pub accepting: bool,
}

/// Mathematical model of a state declaration.
pub struct RawStateDeclView {
    pub symbol: Seq<char>,
    pub accepting: bool,
}

impl View for RawStateDecl {
    type V = RawStateDeclView;

    open spec fn view(&self) -> RawStateDeclView {
        RawStateDeclView { symbol: self.symbol@, accepting: self.accepting }
    }
}

/// Declarative description of one transition, all atoms still strings.
#[derive(Debug, Clone)]
pub struct RawTransition {
    pub curr_state: String,
    pub input: String,
    pub top: Option<String>,
    pub dest_state: String,
    pub push_sequence: Option<String>,
}

/// Mathematical model of a transition declaration.
pub struct RawTransitionView {
    pub curr_state: Seq<char>,
    pub input: Seq<char>,
    pub top: Option<Seq<char>>,
    pub dest_state: Seq<char>,
    pub push_sequence: Option<Seq<char>>,
}

impl View for RawTransition {
    type V = RawTransitionView;

    open spec fn view(&self) -> RawTransitionView {
        RawTransitionView {
            curr_state: self.curr_state@,
            input: self.input@,
            top: match self.top {
                Some(ref s) => Some(s@),
                None => None,
            },
            dest_state: self.dest_state@,
            push_sequence: match self.push_sequence {
                Some(ref s) => Some(s@),
                None => None,
            },
        }
    }
}

/// The five declarative sections of a rule description, exactly as
/// read, before any validation.
#[derive(Debug, Clone)]
pub struct RawDescription {
    pub input_symbols: String,
    pub stack_symbols: String,
    pub states: Vec<RawStateDecl>,
    pub start_state: String,
    pub transitions: Vec<RawTransition>,
}

/// Mathematical model of a rule description.
pub struct RawDescriptionView {
    pub input_symbols: Seq<char>,
    pub stack_symbols: Seq<char>,
    pub states: Seq<RawStateDeclView>,
    pub start_state: Seq<char>,
    pub transitions: Seq<RawTransitionView>,
}

impl View for RawDescription {
    type V = RawDescriptionView;

    open spec fn view(&self) -> RawDescriptionView {
        RawDescriptionView {
            input_symbols: self.input_symbols@,
            stack_symbols: self.stack_symbols@,
            states: self.states@.map_values(|s: RawStateDecl| s@),
            start_state: self.start_state@,
            transitions: self.transitions@.map_values(|t: RawTransition| t@),
        }
    }
}

/// Both alphabets are non-empty.
pub open spec fn alphabets_ok(d: RawDescriptionView) -> bool {
    d.input_symbols.len() > 0 && d.stack_symbols.len() > 0
}

/// Every declared state atom is exactly one character.
pub open spec fn state_syms_ok(d: RawDescriptionView) -> bool {
    forall|i: int| 0 <= i < d.states.len() ==> (#[trigger] d.states[i].symbol).len() == 1
}

/// A later declaration repeats the atom of declaration `i`.
pub open spec fn dup_at(d: RawDescriptionView, i: int) -> bool {
    exists|j: int| i < j < d.states.len() && d.states[j].symbol == d.states[i].symbol
}

/// Some state atom is declared twice.
pub open spec fn has_dup_state(d: RawDescriptionView) -> bool {
    exists|i: int| 0 <= i < d.states.len() && dup_at(d, i)
}

/// Declaration `i` is the first one that a later declaration repeats.
pub open spec fn first_dup_at(d: RawDescriptionView, i: int) -> bool {
    &&& 0 <= i < d.states.len()
    &&& dup_at(d, i)
    &&& forall|k: int| 0 <= k < i ==> !dup_at(d, k)
}

/// The declared states as (atom, accepting) pairs; meaningful once
/// `state_syms_ok` holds.
pub open spec fn decl_states(d: RawDescriptionView) -> Seq<(char, bool)> {
    d.states.map_values(|s: RawStateDeclView| (s.symbol[0], s.accepting))
}

/// The start-state atom is one character and names a declared state.
pub open spec fn start_ok(d: RawDescriptionView) -> bool {
    d.start_state.len() == 1 && spec_is_state(decl_states(d), d.start_state[0])
}

/// The transition's current state names a declared state.
pub open spec fn raw_curr_ok(t: RawTransitionView, sts: Seq<(char, bool)>) -> bool {
    t.curr_state.len() == 1 && spec_is_state(sts, t.curr_state[0])
}

/// The transition's input atom belongs to the input alphabet.
pub open spec fn raw_input_ok(t: RawTransitionView, inp: Seq<char>) -> bool {
    t.input.len() == 1 && inp.contains(t.input[0])
}

/// The transition's top atom, when present, belongs to the stack alphabet.
pub open spec fn raw_top_ok(t: RawTransitionView, stk: Seq<char>) -> bool {
    t.top matches Some(s) ==> s.len() == 1 && stk.contains(s[0])
}

/// The transition's destination names a declared state.
pub open spec fn raw_dest_ok(t: RawTransitionView, sts: Seq<(char, bool)>) -> bool {
    t.dest_state.len() == 1 && spec_is_state(sts, t.dest_state[0])
}

/// Every atom of the push sequence, when present, belongs to the stack
/// alphabet.
pub open spec fn raw_push_ok(t: RawTransitionView, stk: Seq<char>) -> bool {
    t.push_sequence matches Some(ps) ==> forall|i: int|
        0 <= i < ps.len() ==> stk.contains(#[trigger] ps[i])
}

/// Structural and referential well-formedness of one transition against
/// the given alphabets and state declarations.
pub open spec fn trans_parts_ok(
    t: RawTransitionView,
    inp: Seq<char>,
    stk: Seq<char>,
    sts: Seq<(char, bool)>,
) -> bool {
    raw_curr_ok(t, sts) && raw_input_ok(t, inp) && raw_top_ok(t, stk) && raw_dest_ok(t, sts)
        && raw_push_ok(t, stk)
}

/// Structural and referential well-formedness of one transition.
pub open spec fn raw_trans_ok(t: RawTransitionView, d: RawDescriptionView) -> bool {
    trans_parts_ok(t, d.input_symbols, d.stack_symbols, decl_states(d))
}

/// Transition `k` is the first invalid one.
pub open spec fn first_bad_trans_at(d: RawDescriptionView, k: int) -> bool {
    &&& 0 <= k < d.transitions.len()
    &&& !raw_trans_ok(d.transitions[k], d)
    &&& forall|k2: int| 0 <= k2 < k ==> raw_trans_ok(#[trigger] d.transitions[k2], d)
}

/// The detail message for the first offending field of an invalid
/// transition, checked in field order.
pub open spec fn trans_parts_err_msg(
    t: RawTransitionView,
    inp: Seq<char>,
    stk: Seq<char>,
    sts: Seq<(char, bool)>,
) -> Seq<char> {
    if !raw_curr_ok(t, sts) {
        "unknown curr state in transition: "@ + t.curr_state
    } else if !raw_input_ok(t, inp) {
        "unknown input in transition: "@ + t.input
    } else if !raw_top_ok(t, stk) {
        "unknown stack top in transition: "@ + (t.top->0)
    } else if !raw_dest_ok(t, sts) {
        "unknown dest state in transition: "@ + t.dest_state
    } else {
        "unknown stack symbol in push sequence in transition: "@ + (t.push_sequence->0)
    }
}

/// The detail message for the first offending field of an invalid
/// transition of a description.
pub open spec fn raw_trans_err_msg(t: RawTransitionView, d: RawDescriptionView) -> Seq<char> {
    trans_parts_err_msg(t, d.input_symbols, d.stack_symbols, decl_states(d))
}

/// A description passes every validation rule.
pub open spec fn desc_valid(d: RawDescriptionView) -> bool {
    &&& alphabets_ok(d)
    &&& state_syms_ok(d)
    &&& !has_dup_state(d)
    &&& start_ok(d)
    &&& forall|k: int| 0 <= k < d.transitions.len() ==> raw_trans_ok(#[trigger] d.transitions[k], d)
}

/// The full loader contract over a description `d`: `Ok` exactly on
/// valid descriptions, the denoted rule set on success, and for each
/// validation rule, checked in order, its exact error kind and message.
pub open spec fn validation_outcome(
    d: RawDescriptionView,
    r: Result<PdaRules, PdaRulesError>,
) -> bool {
    &&& (r is Ok <==> desc_valid(d))
    &&& (r matches Ok(rules) ==> rules@ == spec_rules_of(d) && rules_wf(rules@))
    &&& (d.input_symbols.len() == 0 ==> (r matches Err(PdaRulesError::InvalidRule(m)) && m@
        == "empty input symbols"@))
    &&& (d.input_symbols.len() > 0 && d.stack_symbols.len() == 0 ==> (r matches Err(
        PdaRulesError::InvalidRule(m),
    ) && m@ == "empty stack symbols"@))
    &&& (alphabets_ok(d) && !state_syms_ok(d) ==> (r matches Err(
        PdaRulesError::RulesParserFailed(m),
    ) && m@ == "invalid state symbol format"@))
    &&& (alphabets_ok(d) && state_syms_ok(d) && has_dup_state(d) ==> (r matches Err(
        PdaRulesError::InvalidRule(m),
    ) && (exists|i: int|
        first_dup_at(d, i) && m@ == "state redefinition: "@ + d.states[i].symbol)))
    &&& (alphabets_ok(d) && state_syms_ok(d) && !has_dup_state(d) && d.start_state.len() != 1 ==> (
    r matches Err(PdaRulesError::RulesParserFailed(m)) && m@ == "invalid start state symbol"@))
    &&& (alphabets_ok(d) && state_syms_ok(d) && !has_dup_state(d) && d.start_state.len() == 1
        && !start_ok(d) ==> (r matches Err(PdaRulesError::InvalidRule(m)) && m@
        == "unknown start state"@))
    &&& (alphabets_ok(d) && state_syms_ok(d) && !has_dup_state(d) && start_ok(d) && !desc_valid(d)
        ==> (r matches Err(PdaRulesError::InvalidRule(m)) && (exists|k: int|
        first_bad_trans_at(d, k) && m@ == raw_trans_err_msg(d.transitions[k], d))))
}

/// The transition that a valid declaration denotes.
pub open spec fn spec_trans_of(t: RawTransitionView) -> TransitionView {
    TransitionView {
        curr_state: t.curr_state[0],
        input: t.input[0],
        top: match t.top {
            Some(s) => Some(s[0]),
            None => None,
        },
        dest_state: t.dest_state[0],
        push_sequence: t.push_sequence,
    }
}

/// The rule set that a valid description denotes.
pub open spec fn spec_rules_of(d: RawDescriptionView) -> RulesView {
    RulesView {
        input_symbols: d.input_symbols,
        stack_symbols: d.stack_symbols,
        states: decl_states(d),
        start_state: d.start_state[0],
        transitions: d.transitions.map_values(|t: RawTransitionView| spec_trans_of(t)),
    }
}

/// Returns whether `c` is a declared state atom.
fn contains_state(states: &Vec<(char, bool)>, c: char) -> (r: bool)
    ensures
        r == spec_is_state(states@, c),
{
    let mut i: usize = 0;
    while i < states.len()
        invariant
            i <= states@.len(),
            forall|j: int| 0 <= j < i ==> states@[j].0 != c,
        decreases states@.len() - i,
    {
        if states[i].0 == c {
            return true;
        }
        i = i + 1;
    }
    false
}

/// Checks a one-character atom against the declared states.
fn check_state_atom(states: &Vec<(char, bool)>, s: &str) -> (r: Option<char>)
    ensures
        match r {
            Some(c) => s@.len() == 1 && c == s@[0] && spec_is_state(states@, c),
            None => !(s@.len() == 1 && spec_is_state(states@, s@[0])),
        },
{
    match single_char(s) {
        Some(c) => if contains_state(states, c) {
            Some(c)
        } else {
            None
        },
        None => None,
    }
}

/// Checks a one-character atom against an alphabet.
fn check_alpha_atom(alpha: &Vec<char>, s: &str) -> (r: Option<char>)
    ensures
        match r {
            Some(c) => s@.len() == 1 && c == s@[0] && alpha@.contains(c),
            None => !(s@.len() == 1 && alpha@.contains(s@[0])),
        },
{
    match single_char(s) {
        Some(c) => if contains_char(alpha, c) {
            Some(c)
        } else {
            None
        },
        None => None,
    }
}

/// Returns whether every element of `v` occurs in `alpha`.
fn all_in(alpha: &Vec<char>, v: &Vec<char>) -> (r: bool)
    ensures
        r == (forall|i: int| 0 <= i < v@.len() ==> alpha@.contains(#[trigger] v@[i])),
{
    let mut i: usize = 0;
    while i < v.len()
        invariant
            i <= v@.len(),
            forall|j: int| 0 <= j < i ==> alpha@.contains(#[trigger] v@[j]),
        decreases v@.len() - i,
    {
        if !contains_char(alpha, v[i]) {
            return false;
        }
        i = i + 1;
    }
    true
}

/// Converts one transition declaration, validating each field in order
/// against the given alphabets and state declarations.
fn convert_transition(
    input_symbols: &Vec<char>,
    stack_symbols: &Vec<char>,
    states: &Vec<(char, bool)>,
    t: &RawTransition,
) -> (r: Result<PdaTransition, PdaRulesError>)
    ensures
        match r {
            Ok(pt) => trans_parts_ok(t@, input_symbols@, stack_symbols@, states@) && pt@
                == spec_trans_of(t@),
            Err(e) => !trans_parts_ok(t@, input_symbols@, stack_symbols@, states@) && (
            e matches PdaRulesError::InvalidRule(m) && m@ == trans_parts_err_msg(
                t@,
                input_symbols@,
                stack_symbols@,
                states@,
            )),
        },
{
    let curr = match check_state_atom(states, t.curr_state.as_str()) {
        None => {
            return Err(
                PdaRulesError::InvalidRule(
                    make_msg("unknown curr state in transition: ", t.curr_state.as_str()),
                ),
            );
        },
        Some(c) => c,
    };
    let input = match check_alpha_atom(input_symbols, t.input.as_str()) {
        None => {
            return Err(
                PdaRulesError::InvalidRule(
                    make_msg("unknown input in transition: ", t.input.as_str()),
                ),
            );
        },
        Some(c) => c,
    };
    let top: Option<char> = match &t.top {
        None => None,
        Some(s) => match check_alpha_atom(stack_symbols, s.as_str()) {
            None => {
                proof {
                    assert(t@.top == Some(s@));
                }
                return Err(
                    PdaRulesError::InvalidRule(
                        make_msg("unknown stack top in transition: ", s.as_str()),
                    ),
                );
            },
            Some(c) => Some(c),
        },
    };
    let dest = match check_state_atom(states, t.dest_state.as_str()) {
        None => {
            return Err(
                PdaRulesError::InvalidRule(
                    make_msg("unknown dest state in transition: ", t.dest_state.as_str()),
                ),
            );
        },
        Some(c) => c,
    };
    let push_sequence: Option<Vec<char>> = match &t.push_sequence {
        None => None,
        Some(s) => {
            let v = chars_of(s.as_str());
            if !all_in(stack_symbols, &v) {
                proof {
                    assert(t@.push_sequence == Some(s@));
                    let j = choose|j: int| 0 <= j < v@.len() && !stack_symbols@.contains(v@[j]);
                    assert(!stack_symbols@.contains((t@.push_sequence->0)[j]));
                    assert(!raw_push_ok(t@, stack_symbols@));
                }
                return Err(
                    PdaRulesError::InvalidRule(
                        make_msg(
                            "unknown stack symbol in push sequence in transition: ",
                            s.as_str(),
                        ),
                    ),
                );
            }
            Some(v)
        },
    };
    Ok(PdaTransition { curr_state: curr, input, top, dest_state: dest, push_sequence })
}

impl PdaRules {
    /// Well-formedness of this rule set.
    pub open spec fn wf(&self) -> bool {
        rules_wf(self@)
    }

    /// Whether `c` belongs to the declared input alphabet.
    pub fn is_input_symbol(&self, c: char) -> (r: bool)
        ensures
            r == self@.input_symbols.contains(c),
    {
        contains_char(&self.input_symbols, c)
    }

    /// Classification of `s`: `Accepting` iff `s` was declared accepting.
    pub fn get_state_type(&self, s: PdaState) -> (r: PdaStateType)
        ensures
            r == spec_classify(self@, s),
    {
        let mut i: usize = 0;
        proof {
            assert(self@.states.skip(0) =~= self@.states);
        }
        while i < self.states.len()
            invariant
                i <= self.states@.len(),
                spec_is_accepting(self@.states, s) == spec_is_accepting(
                    self@.states.skip(i as int),
                    s,
                ),
            decreases self.states@.len() - i,
        {
            let (c, accepting) = self.states[i];
            if c == s {
                if accepting {
                    return PdaStateType::Accepting;
                } else {
                    return PdaStateType::NonAccepting;
                }
            }
            proof {
                assert(self@.states.skip(i as int).drop_first() =~= self@.states.skip(
                    i as int + 1,
                ));
            }
            i = i + 1;
        }
        PdaStateType::NonAccepting
    }

    /// Validates a rule description and builds the rule set it denotes.
    /// All-or-nothing: on any violation the matching error is returned
    /// and no rule set at all. The validation rules, checked in this
    /// order, each with its own failure:
    /// non-empty input alphabet, non-empty stack alphabet, one-character
    /// state atoms, no state declared twice, a declared one-character
    /// start state, and every transition referencing only declared
    /// states and alphabet atoms.
    #[verifier::loop_isolation(false)]
    #[verifier::rlimit(30)]
    pub fn from_description(desc: &RawDescription) -> (r: Result<PdaRules, PdaRulesError>)
        ensures
            r is Ok <==> desc_valid(desc@),
            validation_outcome(desc@, r),
    {
        let ghost d = desc@;
        let input_symbols = chars_of(desc.input_symbols.as_str());
        if input_symbols.len() == 0 {
            return Err(PdaRulesError::InvalidRule("empty input symbols".to_owned()));
        }
        let stack_symbols = chars_of(desc.stack_symbols.as_str());
        if stack_symbols.len() == 0 {
            return Err(PdaRulesError::InvalidRule("empty stack symbols".to_owned()));
        }
        let mut states: Vec<(char, bool)> = Vec::new();
        let mut i: usize = 0;
        while i < desc.states.len()
            invariant
                i <= d.states.len(),
                states@.len() == i,
                forall|k: int|
                    0 <= k < i ==> (#[trigger] d.states[k].symbol).len() == 1 && states@[k] == (
                    d.states[k].symbol[0],
                    d.states[k].accepting,
                ),
            decreases d.states.len() - i,
        {
            proof {
                assert(d.states[i as int] == desc.states@[i as int]@);
            }
            match single_char(desc.states[i].symbol.as_str()) {
                None => {
                    proof {
                        assert(d.states[i as int].symbol.len() != 1);
                        assert(!state_syms_ok(d));
                    }
                    return Err(
                        PdaRulesError::RulesParserFailed("invalid state symbol format".to_owned()),
                    );
                },
                Some(c) => {
                    states.push((c, desc.states[i].accepting));
                },
            }
            i = i + 1;
        }
        proof {
            assert(states@ =~= decl_states(d));
        }
        let mut i: usize = 0;
        while i < states.len()
            invariant
                i <= states@.len(),
                forall|i2: int| 0 <= i2 < i ==> !dup_at(d, i2),
            decreases states@.len() - i,
        {
            let mut j: usize = i + 1;
            while j < states.len()
                invariant
                    i < j <= states@.len(),
                    forall|j2: int| i < j2 < j ==> d.states[j2].symbol != d.states[i as int].symbol,
                decreases states@.len() - j,
            {
                if states[j].0 == states[i].0 {
                    proof {
                        assert(d.states[j as int].symbol =~= d.states[i as int].symbol);
                        assert(dup_at(d, i as int));
                        assert(first_dup_at(d, i as int));
                    }
                    return Err(
                        PdaRulesError::InvalidRule(
                            make_msg("state redefinition: ", desc.states[i].symbol.as_str()),
                        ),
                    );
                }
                proof {
                    if d.states[j as int].symbol == d.states[i as int].symbol {
                        assert(d.states[j as int].symbol[0] == d.states[i as int].symbol[0]);
                        assert(false);
                    }
                }
                j = j + 1;
            }
            proof {
                assert(!dup_at(d, i as int));
            }
            i = i + 1;
        }
        proof {
            assert(!has_dup_state(d));
        }
        let start_state = match single_char(desc.start_state.as_str()) {
            None => {
                return Err(
                    PdaRulesError::RulesParserFailed("invalid start state symbol".to_owned()),
                );
            },
            Some(c) => c,
        };
        if !contains_state(&states, start_state) {
            return Err(PdaRulesError::InvalidRule("unknown start state".to_owned()));
        }
        let mut transitions: Vec<PdaTransition> = Vec::new();
        let mut k: usize = 0;
        while k < desc.transitions.len()
            invariant
                k <= d.transitions.len(),
                transitions@.len() == k,
                forall|k2: int|
                    0 <= k2 < k ==> raw_trans_ok(#[trigger] d.transitions[k2], d)
                        && transitions@[k2]@ == spec_trans_of(d.transitions[k2]),
            decreases d.transitions.len() - k,
        {
            proof {
                assert(d.transitions[k as int] == desc.transitions@[k as int]@);
            }
            match convert_transition(&input_symbols, &stack_symbols, &states, &desc.transitions[k])
            {
                Err(e) => {
                    proof {
                        assert(!raw_trans_ok(d.transitions[k as int], d));
                        assert(first_bad_trans_at(d, k as int));
                        assert(raw_trans_err_msg(d.transitions[k as int], d)
                            == trans_parts_err_msg(d.transitions[k as int], d.input_symbols, d.stack_symbols, decl_states(d)));
                    }
                    return Err(e);
                },
                Ok(nt) => {
                    transitions.push(nt);
                },
            }
            k = k + 1;
        }
        let rules = PdaRules { input_symbols, stack_symbols, states, start_state, transitions };
        proof {
            assert(rules@.transitions =~= spec_rules_of(d).transitions);
            assert(rules@ == spec_rules_of(d));
            lemma_valid_desc_wf(d);
        }
        Ok(rules)
    }

    /// Loads a rule set from JSON text: parses the text, reads the five
    /// sections with `parse_raw`, and validates them exactly as
    /// `from_description` does — the full validation contract,
    /// `validation_outcome`, lives there. All-or-nothing: text that is
    /// not valid JSON (`spec_json_ok`) fails with exactly "JSON error",
    /// missing or mistyped sections are parse failures too, and a rule
    /// set comes back only as the denotation of some valid description.
    pub fn from_json(json_str: &str) -> (r: Result<PdaRules, PdaRulesError>)
        ensures
            r matches Ok(rules) ==> rules.wf() && (exists|d: RawDescriptionView|
                desc_valid(d) && rules@ == #[trigger] spec_rules_of(d)),
            !spec_json_ok(json_str@) ==> (r matches Err(PdaRulesError::RulesParserFailed(m)) && m@
                == "JSON error"@),
    {
        let v = match json_from_str(json_str) {
            Ok(v) => v,
            Err(_) => {
                return Err(PdaRulesError::RulesParserFailed("JSON error".to_owned()));
            },
        };
        let raw = match parse_raw(&v) {
            Ok(raw) => raw,
            Err(e) => {
                return Err(e);
            },
        };
        let r = PdaRules::from_description(&raw);
        proof {
            if r is Ok {
                assert(desc_valid(raw@) && (r->Ok_0)@ == spec_rules_of(raw@));
            }
        }
        r
    }
}

/// A parse error with the given detail.
fn parser_err(m: &str) -> (r: PdaRulesError)
    ensures
        r is RulesParserFailed,
        r matches PdaRulesError::RulesParserFailed(d) && d@ == m@,
{
    PdaRulesError::RulesParserFailed(m.to_owned())
}

/// Reads the string under `key` of a JSON object, if it is there.
fn get_str_field(v: &serde_json::Value, key: &str) -> Option<String> {
    match json_get(v, key) {
        Some(f) => json_as_str(f),
        None => None,
    }
}

/// Reads the five declarative sections out of a parsed JSON value.
/// Purely structural: a missing or mistyped field is a parse failure;
/// no atom or reference is validated here.
fn parse_raw(v: &serde_json::Value) -> (r: Result<RawDescription, PdaRulesError>)
    ensures
        r matches Err(e) ==> e is RulesParserFailed,
{
    let input_symbols = match get_str_field(v, "input_symbols") {
        Some(s) => s,
        None => {
            return Err(parser_err("invalid input symbols definition format"));
        },
    };
    let stack_symbols = match get_str_field(v, "stack_symbols") {
        Some(s) => s,
        None => {
            return Err(parser_err("invalid stack symbols definition format"));
        },
    };
    let mut states: Vec<RawStateDecl> = Vec::new();
    let states_arr = match json_get(v, "states") {
        Some(f) => match json_as_array(f) {
            Some(arr) => arr,
            None => {
                return Err(parser_err("invalid states definition format"));
            },
        },
        None => {
            return Err(parser_err("invalid states definition format"));
        },
    };
    let mut i: usize = 0;
    while i < states_arr.len()
        decreases states_arr@.len() - i,
    {
        let st = &states_arr[i];
        let symbol = match get_str_field(st, "symbol") {
            Some(s) => s,
            None => {
                return Err(parser_err("invalid state symbol definition format"));
            },
        };
        let accepting = match json_get(st, "accepting") {
            Some(f) => match json_as_bool(f) {
                Some(b) => b,
                None => {
                    return Err(parser_err("invalid state accepting flag definition format"));
                },
            },
            None => {
                return Err(parser_err("invalid state accepting flag definition format"));
            },
        };
        states.push(RawStateDecl { symbol, accepting });
        i = i + 1;
    }
    let start_state = match get_str_field(v, "start_state") {
        Some(s) => s,
        None => {
            return Err(parser_err("invalid start state definition format"));
        },
    };
    let mut transitions: Vec<RawTransition> = Vec::new();
    let trans_arr = match json_get(v, "transitions") {
        Some(f) => match json_as_array(f) {
            Some(arr) => arr,
            None => {
                return Err(parser_err("invalid transitions definition format"));
            },
        },
        None => {
            return Err(parser_err("invalid transitions definition format"));
        },
    };
    let mut i: usize = 0;
    while i < trans_arr.len()
        decreases trans_arr@.len() - i,
    {
        let tr = &trans_arr[i];
        let curr_state = match get_str_field(tr, "curr_state") {
            Some(s) => s,
            None => {
                return Err(parser_err("invalid curr state in transition"));
            },
        };
        let input = match get_str_field(tr, "input") {
            Some(s) => s,
            None => {
                return Err(parser_err("invalid input in transition"));
            },
        };
        let top: Option<String> = match json_get(tr, "top") {
            None => None,
            Some(f) => match json_as_str(f) {
                Some(s) => Some(s),
                None => {
                    if json_is_null(f) {
                        None
                    } else {
                        return Err(parser_err("invalid stack top in transition"));
                    }
                },
            },
        };
        let dest_state = match get_str_field(tr, "dest_state") {
            Some(s) => s,
            None => {
                return Err(parser_err("invalid dest state in transition"));
            },
        };
        let push_sequence: Option<String> = match json_get(tr, "push_sequence") {
            None => None,
            Some(f) => match json_as_str(f) {
                Some(s) => Some(s),
                None => {
                    if json_is_null(f) {
                        None
                    } else {
                        return Err(parser_err("invalid push sequence in transition"));
                    }
                },
            },
        };
        transitions.push(
            RawTransition { curr_state, input, top, dest_state, push_sequence },
        );
        i = i + 1;
    }
    Ok(RawDescription { input_symbols, stack_symbols, states, start_state, transitions })
}

/// A valid description denotes a well-formed rule set.
proof fn lemma_valid_desc_wf(d: RawDescriptionView)
    requires
        desc_valid(d),
    ensures
        rules_wf(spec_rules_of(d)),
{
    let rv = spec_rules_of(d);
    assert forall|i: int, j: int| 0 <= i < j < rv.states.len() implies rv.states[i].0
        != rv.states[j].0 by {
        if rv.states[i].0 == rv.states[j].0 {
            assert(d.states[i].symbol =~= d.states[j].symbol);
            assert(dup_at(d, i));
        }
    }
    assert forall|k: int| 0 <= k < rv.transitions.len() implies trans_wf(
        rv,
        #[trigger] rv.transitions[k],
    ) by {
        assert(raw_trans_ok(d.transitions[k], d));
        assert(rv.transitions[k] == spec_trans_of(d.transitions[k]));
    }
}

} // verus!
