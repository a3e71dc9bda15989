//! A deterministic pushdown automaton: a validated, immutable rule set
//! (alphabets, states, transition table) and an engine that tracks the
//! current state and stack, applies one transition per input symbol,
//! and reports the resulting status or a precise error.

pub mod error;
pub mod rules;
mod json;
mod text;

use vstd::prelude::*;

use crate::error::PdaError;
use crate::rules::{spec_classify, PdaRules, RulesView};

verus! {

/// A PDA state is a single-character atom.
pub type PdaState = char;

/// Classification of a state: whether it belongs to the accepting set.
#[derive(Debug, Clone, Copy, PartialEq, Eq, Structural)]
pub enum PdaStateType {
    Accepting,
    NonAccepting,
}

/// The pair (current state, classification) reported after each step.
pub type PdaStatus = (PdaState, PdaStateType);

/// One transition rule: on (curr_state, input, top) go to dest_state and
/// push the given sequence. `top == None` matches only an empty stack.
#[derive(Debug, Clone)]
pub struct PdaTransition {
    pub curr_state: PdaState,
    pub input: char,
    pub top: Option<char>,
    pub dest_state: PdaState,
    pub push_sequence: Option<Vec<char>>,
}

/// Mathematical model of a transition rule.
pub struct TransitionView {
    pub curr_state: char,
    pub input: char,
    pub top: Option<char>,
    pub dest_state: char,
    pub push_sequence: Option<Seq<char>>,
}

impl View for PdaTransition {
    type V = TransitionView;

    open spec fn view(&self) -> TransitionView {
        TransitionView {
            curr_state: self.curr_state,
            input: self.input,
            top: self.top,
            dest_state: self.dest_state,
            push_sequence: match self.push_sequence {
                Some(ps) => Some(ps@),
                None => None,
            },
        }
    }
}

/// The automaton: a rule set, a current state and a stack whose top is
/// the element at index 0.
#[derive(Debug)]
pub struct Pda {
    rules: PdaRules,
    curr_state: PdaState,
    stack: Vec<char>,
}

/// Mathematical model of an automaton configuration.
pub struct PdaView {
    pub rules: RulesView,
    pub state: char,
    pub stack: Seq<char>,
}

impl View for Pda {
    type V = PdaView;

    open(crate) spec fn view(&self) -> PdaView {
        PdaView { rules: self.rules@, state: self.curr_state, stack: self.stack@ }
    }
}

/// The stack top: the element at index 0, or `None` for an empty stack.
pub open spec fn spec_top(stack: Seq<char>) -> Option<char> {
    if stack.len() == 0 {
        None
    } else {
        Some(stack[0])
    }
}

/// Whether transition `t` matches the configuration (state, input, top).
/// `t.top == None` matches only `top == None`, that is an empty stack.
pub open spec fn tr_matches(t: TransitionView, state: char, input: char, top: Option<char>) -> bool {
    t.curr_state == state && t.input == input && t.top == top
}

/// The first transition in declaration order that matches, if any:
/// the rule set is used deterministically, first match wins.
pub open spec fn first_match(
    trs: Seq<TransitionView>,
    state: char,
    input: char,
    top: Option<char>,
) -> Option<TransitionView>
    decreases trs.len(),
{
    if trs.len() == 0 {
        None
    } else if tr_matches(trs[0], state, input, top) {
        Some(trs[0])
    } else {
        first_match(trs.drop_first(), state, input, top)
    }
}

/// The stack after transition `t` fires: the matched top (if any) is
/// popped, then the push sequence is laid over the remainder so that its
/// first atom becomes the new top.
pub open spec fn spec_stack_after(t: TransitionView, stack: Seq<char>) -> Seq<char> {
    let rest = if t.top is Some {
        stack.skip(1)
    } else {
        stack
    };
    match t.push_sequence {
        Some(ps) => ps + rest,
        None => rest,
    }
}

/// One step of the automaton as a mathematical function: the new
/// configuration and the returned status or error. On either error the
/// configuration is returned unchanged.
pub open spec fn spec_step(c: PdaView, input: char) -> (PdaView, Result<PdaStatus, PdaError>) {
    if !c.rules.input_symbols.contains(input) {
        (c, Err(PdaError::UnknownInputSymbol(input)))
    } else {
        let top = spec_top(c.stack);
        match first_match(c.rules.transitions, c.state, input, top) {
            None => (c, Err(PdaError::UnresolvedTransition((c.state, input, top)))),
            Some(t) => (
                (PdaView { rules: c.rules, state: t.dest_state, stack: spec_stack_after(t, c.stack) }),
                Ok((t.dest_state, spec_classify(c.rules, t.dest_state))),
            ),
        }
    }
}

/// The configuration after a reset: start state, empty stack, same rules.
pub open spec fn spec_reset(c: PdaView) -> PdaView {
    PdaView { rules: c.rules, state: c.rules.start_state, stack: Seq::empty() }
}

/// The configuration after stepping through a whole input sequence.
pub open spec fn spec_run(c: PdaView, inputs: Seq<char>) -> PdaView
    decreases inputs.len(),
{
    if inputs.len() == 0 {
        c
    } else {
        spec_run(spec_step(c, inputs[0]).0, inputs.drop_first())
    }
}

/// Compares two optional characters.
fn opt_char_eq(a: &Option<char>, b: &Option<char>) -> (r: bool)
    ensures
        r == (*a == *b),
{
    match (a, b) {
        (Option::None, Option::None) => true,
        (Option::Some(x), Option::Some(y)) => *x == *y,
        _ => false,
    }
}

/// Index of the first transition of `rules` that matches, in declaration
/// order, tied to the `first_match` model.
fn find_transition(rules: &PdaRules, curr: char, input: char, top: Option<char>) -> (r: Option<
    usize,
>)
    ensures
        match r {
            Some(i) => {
                &&& i < rules@.transitions.len()
                &&& tr_matches(rules@.transitions[i as int], curr, input, top)
                &&& forall|j: int|
                    0 <= j < i ==> !tr_matches(rules@.transitions[j], curr, input, top)
                &&& first_match(rules@.transitions, curr, input, top) == Some(
                    rules@.transitions[i as int],
                )
            },
            None => first_match(rules@.transitions, curr, input, top) is None,
        },
{
    let ghost trs = rules@.transitions;
    let n = rules.transitions.len();
    let mut idx: usize = 0;
    proof {
        assert(trs.skip(0) =~= trs);
    }
    while idx < n
        invariant
            idx <= n,
            n == rules.transitions@.len(),
            trs == rules@.transitions,
            first_match(trs, curr, input, top) == first_match(
                trs.skip(idx as int),
                curr,
                input,
                top,
            ),
            forall|j: int| 0 <= j < idx ==> !tr_matches(trs[j], curr, input, top),
        decreases n - idx,
    {
        let t = &rules.transitions[idx];
        if t.curr_state == curr && t.input == input && opt_char_eq(&t.top, &top) {
            proof {
                assert(trs.skip(idx as int)[0] == trs[idx as int]);
            }
            return Some(idx);
        }
        proof {
            assert(trs.skip(idx as int)[0] == trs[idx as int]);
            assert(trs.skip(idx as int).drop_first() =~= trs.skip(idx as int + 1));
        }
        idx = idx + 1;
    }
    None
}

impl Pda {
    /// Builds an automaton over `rules`: current state is the start
    /// state, the stack is empty.
    pub fn new(rules: PdaRules) -> (r: Pda)
        ensures
            r@.rules == rules@,
            r@.state == rules@.start_state,
            r@.stack == Seq::<char>::empty(),
    {
        let start_state = rules.start_state;
        Pda { rules, curr_state: start_state, stack: Vec::new() }
    }

    /// Reinitializes the automaton: current state back to the start
    /// state, stack cleared. Idempotent; the rules are untouched.
    pub fn reset(&mut self)
        ensures
            final(self)@ == spec_reset(old(self)@),
    {
        self.curr_state = self.rules.start_state;
        self.stack = Vec::new();
    }

    /// One step on `input`: looks up the first matching transition and
    /// commits it, or reports an error and changes nothing.
    pub fn step(&mut self, input: char) -> (r: Result<PdaStatus, PdaError>)
        ensures
            final(self)@ == spec_step(old(self)@, input).0,
            r == spec_step(old(self)@, input).1,
            r is Err ==> final(self)@ == old(self)@,
            r matches Ok(st) ==> st.0 == final(self)@.state && st.1 == spec_classify(
                old(self)@.rules,
                st.0,
            ),
            (!old(self)@.rules.input_symbols.contains(input)) <==> r == Err::<PdaStatus, PdaError>(
                PdaError::UnknownInputSymbol(input),
            ),
    {
        if !self.rules.is_input_symbol(input) {
            return Err(PdaError::UnknownInputSymbol(input));
        }
        let top: Option<char> = if self.stack.len() > 0 {
            Some(self.stack[0])
        } else {
            None
        };
        proof {
            assert(top == spec_top(old(self)@.stack));
        }
        match find_transition(&self.rules, self.curr_state, input, top) {
            None => Err(PdaError::UnresolvedTransition((self.curr_state, input, top))),
            Some(idx) => {
                let ghost tv = self.rules@.transitions[idx as int];
                let dest = self.rules.transitions[idx].dest_state;
                let pops = self.rules.transitions[idx].top.is_some();
                let mut new_stack: Vec<char> = Vec::new();
                match &self.rules.transitions[idx].push_sequence {
                    Some(ps) => crate::text::extend_from(&mut new_stack, ps, 0),
                    None => {},
                }
                proof {
                    if tv.top is Some {
                        assert(spec_top(old(self)@.stack) is Some);
                    }
                }
                let from: usize = if pops {
                    1
                } else {
                    0
                };
                crate::text::extend_from(&mut new_stack, &self.stack, from);
                proof {
                    assert(new_stack@ =~= spec_stack_after(tv, old(self)@.stack));
                }
                self.curr_state = dest;
                self.stack = new_stack;
                let st = self.rules.get_state_type(dest);
                Ok((dest, st))
            },
        }
    }

    /// The current status: (current state, its classification). Pure query.
    pub fn get_curr_state(&self) -> (r: PdaStatus)
        ensures
            r.0 == self@.state,
            r.1 == spec_classify(self@.rules, self@.state),
    {
        let st = self.rules.get_state_type(self.curr_state);
        (self.curr_state, st)
    }
}

/// A matching `first_match` result does match the configuration it was
/// looked up for, and `None` means no transition matches at all.
pub proof fn lemma_first_match(trs: Seq<TransitionView>, s: char, i: char, tp: Option<char>)
    ensures
        first_match(trs, s, i, tp) matches Some(t) ==> tr_matches(t, s, i, tp),
        first_match(trs, s, i, tp) is None ==> forall|k: int|
            0 <= k < trs.len() ==> !tr_matches(#[trigger] trs[k], s, i, tp),
    decreases trs.len(),
{
    if trs.len() > 0 && !tr_matches(trs[0], s, i, tp) {
        lemma_first_match(trs.drop_first(), s, i, tp);
        assert forall|k: int|
            first_match(trs, s, i, tp) is None && 0 <= k < trs.len() implies !tr_matches(
            #[trigger] trs[k],
            s,
            i,
            tp,
        ) by {
            if k > 0 {
                assert(trs.drop_first()[k - 1] == trs[k]);
            }
        }
    }
}

/// Determinism: from equal configurations, one input sequence always
/// leads to the same final configuration, hence the same final state and
/// classification.
pub proof fn lemma_deterministic(c1: PdaView, c2: PdaView, inputs: Seq<char>)
    requires
        c1 == c2,
    ensures
        spec_run(c1, inputs) == spec_run(c2, inputs),
        spec_classify(spec_run(c1, inputs).rules, spec_run(c1, inputs).state) == spec_classify(
            spec_run(c2, inputs).rules,
            spec_run(c2, inputs).state,
        ),
{
}

/// Atomicity of failure: a step that returns an error leaves the whole
/// configuration, state and full stack contents, exactly as it was.
pub proof fn lemma_step_failure_atomic(c: PdaView, input: char)
    ensures
        spec_step(c, input).1 is Err ==> spec_step(c, input).0 == c,
{
}

/// Reset idempotence: resetting an already reset configuration changes
/// nothing, so any number of resets in a row ends at the start state
/// with an empty stack.
pub proof fn lemma_reset_idempotent(c: PdaView)
    ensures
        spec_reset(spec_reset(c)) == spec_reset(c),
        spec_reset(c).state == c.rules.start_state,
        spec_reset(c).stack.len() == 0,
{
}

/// Push order: a transition with push sequence `[x, y]` fired on an
/// empty stack leaves the stack `[x, y]` with `x` on top, so afterwards
/// only a transition whose top is `x` can match; one with top `y != x`
/// cannot.
pub proof fn lemma_push_order(c: PdaView, input: char, x: char, y: char)
    requires
        c.stack.len() == 0,
        c.rules.input_symbols.contains(input),
        first_match(c.rules.transitions, c.state, input, None) is Some,
        (first_match(c.rules.transitions, c.state, input, None)->0).push_sequence == Some(
            seq![x, y],
        ),
    ensures
        spec_step(c, input).0.stack =~= seq![x, y],
        spec_top(spec_step(c, input).0.stack) == Some(x),
        forall|t: TransitionView, s2: char, i2: char|
            t.top == Some(y) && y != x ==> !tr_matches(
                t,
                s2,
                i2,
                spec_top(spec_step(c, input).0.stack),
            ),
{
    assert(spec_top(c.stack) == None::<char>);
    lemma_first_match(c.rules.transitions, c.state, input, None);
    let t = first_match(c.rules.transitions, c.state, input, None)->0;
    assert(t.top is None);
    assert(spec_stack_after(t, c.stack) =~= seq![x, y]);
}

} // verus!
