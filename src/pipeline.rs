//! The whole front end: text to tokens to syntax tree to symbol table.
use vstd::prelude::*;

use crate::lex::{scan, tokens_from, errors_from, errors_view, ScanError, ScanErrorView};
use crate::parser::{parse_tokens, parse_view, ParseError, ParseErrorView};
use crate::symbols::{walk_ast, resolve_view, AstError, AwsSym, AwsSymView, MissingField};

verus! {

/// Why the front end produced no symbol table.
pub enum CompileError {
    Parse(ParseError),
    Resolve(AstError),
}

pub enum CompileErrorView {
    Parse(ParseErrorView),
    Resolve(MissingField),
}

/// The symbol table of a text, or the first fatal error: a parse error, else
/// a resolution error.
pub open spec fn compile_view(s: Seq<char>) -> Result<AwsSymView, CompileErrorView> {
    match parse_view(tokens_from(s, 0)) {
        Err(e) => Err(CompileErrorView::Parse(e)),
        Ok(n) => match resolve_view(n) {
            Ok(sym) => Ok(sym),
            Err(f) => Err(CompileErrorView::Resolve(f)),
        },
    }
}

/// What a result of the front end is.
pub open spec fn compile_result_view(r: Result<AwsSym, CompileError>) -> Result<
    AwsSymView,
    CompileErrorView,
> {
    match r {
        Ok(s) => Ok(s@),
        Err(CompileError::Parse(e)) => Err(CompileErrorView::Parse(e@)),
        Err(CompileError::Resolve(e)) => Err(CompileErrorView::Resolve(e.missing)),
    }
}

/// Scan, parse and resolve `contents`. Scan diagnostics do not stop the
/// pipeline; they come back beside its result.
pub fn compile(contents: String) -> (r: (Vec<ScanError>, Result<AwsSym, CompileError>))
    requires
        contents@.len() < usize::MAX,
    ensures
        errors_view(r.0@) == errors_from(contents@, 0),
        compile_result_view(r.1) == compile_view(contents@),
{
    let ghost s = contents@;
    let (tokens, errors) = scan(contents);
    let result = match parse_tokens(&tokens) {
        Err(e) => Err(CompileError::Parse(e)),
        Ok(node) => match walk_ast(&node) {
            Ok(sym) => Ok(sym),
            Err(e) => Err(CompileError::Resolve(e)),
        },
    };
    (errors, result)
}

} // verus!
