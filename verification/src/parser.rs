//! Quote-aware tokenizer.
//!
//! An input line is split into tokens at unquoted spaces and tabs. A
//! single-quoted region takes every character literally until the next
//! single quote; a double-quoted region does the same until the next
//! double quote. Quote boundaries never split a token, so `ab'c d'ef`
//! is the single token `abc def`. An empty quoted region by itself
//! contributes no token: only a non-empty accumulator is ever flushed.

use vstd::prelude::*;

verus! {

/// The quoting state of the tokenizer at a character boundary.
#[derive(Clone, Copy, PartialEq, Eq, Structural)]
pub enum Mode {
    /// Between tokens.
    Start,
    /// Building a token from literal characters.
    Unquoted,
    /// Inside a single-quoted region.
    SingleQuoted,
    /// Inside a double-quoted region.
    DoubleQuoted,
}

/// Unquoted token separators: space and tab.
pub open spec fn is_separator(c: char) -> bool {
    c == ' ' || c == '\t'
}

/// The mathematical configuration of the tokenizer: the quoting state,
/// the accumulator of the token being built, and the tokens emitted so
/// far.
#[verifier::ext_equal]
pub struct LexState {
    pub mode: Mode,
    pub acc: Seq<char>,
    pub toks: Seq<Seq<char>>,
}

/// The configuration before any character has been consumed.
pub open spec fn init_state() -> LexState {
    LexState { mode: Mode::Start, acc: Seq::empty(), toks: Seq::empty() }
}

/// Emits the accumulator as one more token, unless it is empty.
pub open spec fn flush_spec(st: LexState) -> Seq<Seq<char>> {
    if st.acc.len() == 0 {
        st.toks
    } else {
        st.toks.push(st.acc)
    }
}

/// One transition of the tokenizer: consumes exactly one character.
pub open spec fn step_spec(st: LexState, c: char) -> LexState {
    match st.mode {
        Mode::Start | Mode::Unquoted => {
            if is_separator(c) {
                LexState { mode: Mode::Start, acc: Seq::empty(), toks: flush_spec(st) }
            } else if c == '\'' {
                LexState { mode: Mode::SingleQuoted, ..st }
            } else if c == '"' {
                LexState { mode: Mode::DoubleQuoted, ..st }
            } else {
                LexState { mode: Mode::Unquoted, acc: st.acc.push(c), toks: st.toks }
            }
        },
        Mode::SingleQuoted => {
            if c == '\'' {
                LexState { mode: Mode::Unquoted, ..st }
            } else {
                LexState { mode: Mode::SingleQuoted, acc: st.acc.push(c), toks: st.toks }
            }
        },
        Mode::DoubleQuoted => {
            if c == '"' {
                LexState { mode: Mode::Unquoted, ..st }
            } else {
                LexState { mode: Mode::DoubleQuoted, acc: st.acc.push(c), toks: st.toks }
            }
        },
    }
}

/// Runs the tokenizer over a whole character sequence.
pub open spec fn run_spec(st: LexState, s: Seq<char>) -> LexState
    decreases s.len(),
{
    if s.len() == 0 {
        st
    } else {
        run_spec(step_spec(st, s[0]), s.subrange(1, s.len() as int))
    }
}

/// The tokens of a whole input line: run the machine, then flush the
/// token still in progress, if any.
pub open spec fn spec_tokenize(s: Seq<char>) -> Seq<Seq<char>> {
    flush_spec(run_spec(init_state(), s))
}

/// Running over `s` then consuming `c` is one step past running over `s`.
pub proof fn lemma_run_snoc(st: LexState, s: Seq<char>, c: char)
    ensures
        run_spec(st, s.push(c)) == step_spec(run_spec(st, s), c),
    decreases s.len(),
{
    let t = s.push(c);
    if s.len() == 0 {
        assert(t[0] == c);
        assert(t.subrange(1, t.len() as int) =~= Seq::<char>::empty());
        assert(run_spec(st, t) == run_spec(step_spec(st, c), t.subrange(1, t.len() as int)));
        assert(run_spec(st, s) == st);
    } else {
        assert(t[0] == s[0]);
        assert(t.subrange(1, t.len() as int) =~= s.subrange(1, s.len() as int).push(c));
        assert(run_spec(st, t) == run_spec(step_spec(st, s[0]), t.subrange(1, t.len() as int)));
        lemma_run_snoc(step_spec(st, s[0]), s.subrange(1, s.len() as int), c);
        assert(run_spec(st, s) == run_spec(step_spec(st, s[0]), s.subrange(1, s.len() as int)));
    }
}

/// An input that is empty or made of separators only yields no tokens.
pub proof fn lemma_tokenize_whitespace(s: Seq<char>)
    requires
        forall|i: int| 0 <= i < s.len() ==> is_separator(s[i]),
    ensures
        spec_tokenize(s) == Seq::<Seq<char>>::empty(),
    decreases s.len(),
{
    if s.len() > 0 {
        assert(step_spec(init_state(), s[0]) =~= init_state());
        lemma_tokenize_whitespace(s.subrange(1, s.len() as int));
    }
}

/// Relies on `String::push` from std: appends one character at the end
/// of the string.
#[verifier::external_body]
pub(crate) fn push_char(s: &mut String, c: char)
    ensures
        final(s)@ == old(s)@.push(c),
{
    s.push(c);
}

/// The executable tokenizer state: the quoting mode, the token being
/// built, and the tokens emitted so far.
pub struct StateMachine {
    pub mode: Mode,
    pub current_token: String,
    pub tokens: Vec<String>,
}

impl View for StateMachine {
    type V = LexState;

    open spec fn view(&self) -> LexState {
        LexState { mode: self.mode, acc: self.current_token@, toks: self.tokens.deep_view() }
    }
}

impl StateMachine {
    /// A fresh machine: between tokens, nothing accumulated, nothing
    /// emitted.
    pub fn new() -> (r: Self)
        ensures
            r@ == init_state(),
    {
        let r = StateMachine { mode: Mode::Start, current_token: String::new(), tokens: Vec::new() };
        proof {
            assert(r@ =~= init_state());
        }
        r
    }

    /// Emits the accumulated token if it is non-empty and returns to the
    /// between-tokens state.
    fn flush_token(&mut self)
        ensures
            final(self)@ == (LexState {
                mode: Mode::Start,
                acc: Seq::empty(),
                toks: flush_spec(old(self)@),
            }),
    {
        if !self.current_token.as_str().is_empty() {
            let tok = self.current_token.clone();
            self.tokens.push(tok);
            proof {
                assert(self.tokens.deep_view() =~= old(self)@.toks.push(old(self)@.acc));
            }
        }
        self.current_token = String::new();
        self.mode = Mode::Start;
        proof {
            assert(self@ =~= (LexState {
                mode: Mode::Start,
                acc: Seq::empty(),
                toks: flush_spec(old(self)@),
            }));
        }
    }

    /// Consumes one character of input.
    pub fn process(&mut self, c: char)
        ensures
            final(self)@ == step_spec(old(self)@, c),
    {
        match self.mode {
            Mode::Start | Mode::Unquoted => {
                if c == ' ' || c == '\t' {
                    self.flush_token();
                } else if c == '\'' {
                    self.mode = Mode::SingleQuoted;
                } else if c == '"' {
                    self.mode = Mode::DoubleQuoted;
                } else {
                    push_char(&mut self.current_token, c);
                    self.mode = Mode::Unquoted;
                }
            },
            Mode::SingleQuoted => {
                if c == '\'' {
                    self.mode = Mode::Unquoted;
                } else {
                    push_char(&mut self.current_token, c);
                }
            },
            Mode::DoubleQuoted => {
                if c == '"' {
                    self.mode = Mode::Unquoted;
                } else {
                    push_char(&mut self.current_token, c);
                }
            },
        }
        proof {
            assert(self@ =~= step_spec(old(self)@, c));
        }
    }

    /// Ends the input: the token still in progress, if non-empty, becomes
    /// the final token. An unterminated quoted region is flushed the same
    /// way; it is not an error.
    pub fn finalize(self) -> (r: Vec<String>)
        ensures
            r.deep_view() == flush_spec(self@),
    {
        let mut sm = self;
        if !sm.current_token.as_str().is_empty() {
            let tok = sm.current_token;
            sm.tokens.push(tok);
            proof {
                assert(sm.tokens.deep_view() =~= flush_spec(self@));
            }
        }
        sm.tokens
    }
}

/// Splits an input line into shell tokens, honoring single and double
/// quotes. Consecutive separators produce no empty tokens, and an input
/// that is empty or all whitespace produces none at all.
pub fn tokenize(input: &str) -> (r: Vec<String>)
    ensures
        r.deep_view() == spec_tokenize(input@),
{
    let mut sm = StateMachine::new();
    let n: usize = input.unicode_len();
    proof {
        assert(input@.subrange(0, 0) =~= Seq::<char>::empty());
    }
    let mut i: usize = 0;
    while i < n
        invariant
            n == input@.len(),
            i <= n,
            sm@ == run_spec(init_state(), input@.subrange(0, i as int)),
        decreases n - i,
    {
        let c = input.get_char(i);
        sm.process(c);
        proof {
            assert(input@.subrange(0, i + 1) =~= input@.subrange(0, i as int).push(input@[i as int]));
            lemma_run_snoc(init_state(), input@.subrange(0, i as int), input@[i as int]);
        }
        i += 1;
    }
    proof {
        assert(input@.subrange(0, n as int) =~= input@);
    }
    sm.finalize()
}

} // verus!
