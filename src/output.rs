//! The result of lexing a source text, as handed to a front end.
use vstd::prelude::*;
use crate::lexer::{Lexer, Token, tokens_view, lex_spec, lex_message};

verus! {

/// The tokens of a source text.
pub struct TokenOutput {
    pub tokens: Vec<Token>,
}

/// What a run produced.
pub enum MambaOutput {
    Tokens(TokenOutput),
}

/// A message about the source text.
pub enum MambaProblem {
    Error(String),
    Warning(String),
    Info(String),
}

/// The output of a run, or the problems that stopped it.
pub struct MambaResult {
    pub output: Option<MambaOutput>,
    pub problems: Option<Vec<MambaProblem>>,
}

/// Lexes `source`: its tokens, or the lexical error as the one problem.
pub fn lex_result(source: String) -> (r: MambaResult)
    ensures
        match lex_spec(source@) {
            Ok(ts) => r.problems is None && (r.output matches Some(MambaOutput::Tokens(t))
                && tokens_view(t.tokens@) == ts),
            Err(k) => r.output is None && (r.problems matches Some(ps) && ps@.len() == 1
                && (ps@[0] matches MambaProblem::Error(m) && m@ == lex_message(k))),
        },
{
    let mut lexer = Lexer::new(source);
    match lexer.get_tokens() {
        Ok(tokens) => MambaResult {
            output: Some(MambaOutput::Tokens(TokenOutput { tokens })),
            problems: None,
        },
        Err(error) => {
            let mut problems: Vec<MambaProblem> = Vec::new();
            problems.push(MambaProblem::Error(error.0));
            MambaResult { output: None, problems: Some(problems) }
        },
    }
}

} // verus!
