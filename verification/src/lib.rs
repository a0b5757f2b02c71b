//! A CSS parser and style-sheet manager.
pub mod analyzer;
pub mod at_rules;
pub mod color;
pub mod declaration;
pub mod duration;
pub mod effects;
pub mod error;
pub mod length;
pub mod lexer;
pub mod parser;
pub mod properties;
pub mod selector;
pub mod shorthand;
pub mod style;
pub mod text;
pub mod units;
pub mod values;

use vstd::prelude::*;

pub use crate::declaration::Declaration;
pub use crate::duration::DurationUnitExt;
pub use crate::error::ParseError;
pub use crate::selector::PseudoClass;
pub use crate::style::StyleSheet;

use crate::analyzer::{
    analyze_tokens as token_errors, error_views, syntax_errors, SyntaxError, SyntaxErrorView,
};
use crate::lexer::{lemma_lex_selector_texts, lex, views, Lexer, Token};
use crate::parser::{
    lemma_rules_from_wf, parse_rules, replace_vars, rule_views, with_vars_replaced, Parser, Rule,
    RuleView,
};

verus! {

/// What reading a CSS text gives: where it has no syntax error, its rules
/// with `:root` variables substituted; otherwise every syntax error, in order.
pub open spec fn rules_result(s: Seq<char>) -> Result<Seq<RuleView>, Seq<SyntaxErrorView>> {
    if syntax_errors(lex(s)).len() == 0 {
        Ok(with_vars_replaced(parse_rules(lex(s))))
    } else {
        Err(syntax_errors(lex(s)))
    }
}

/// What checking a CSS text gives: nothing where it has no syntax error;
/// otherwise every syntax error, in order.
pub open spec fn analysis_result(s: Seq<char>) -> Result<(), Seq<SyntaxErrorView>> {
    if syntax_errors(lex(s)).len() == 0 {
        Ok(())
    } else {
        Err(syntax_errors(lex(s)))
    }
}

/// A result of `css_to_rules` by its views.
pub open spec fn rules_result_view<'a>(r: Result<Vec<Rule<'a>>, Vec<SyntaxError<'a>>>) -> Result<
    Seq<RuleView>,
    Seq<SyntaxErrorView>,
> {
    match r {
        Ok(rules) => Ok(rule_views(rules@)),
        Err(errors) => Err(error_views(errors@)),
    }
}

/// A result of `analyze` by its views.
pub open spec fn analysis_result_view<'a>(r: Result<(), Vec<SyntaxError<'a>>>) -> Result<
    (),
    Seq<SyntaxErrorView>,
> {
    match r {
        Ok(()) => Ok(()),
        Err(errors) => Err(error_views(errors@)),
    }
}

/// Reading rules and checking for errors agree: a text fails to read exactly
/// when checking it finds errors, and then both report the same errors in the
/// same order.
pub proof fn law_rules_agree_with_analysis(s: Seq<char>)
    ensures
        rules_result(s) is Err <==> analysis_result(s) is Err,
        rules_result(s) is Err ==> rules_result(s)->Err_0 == analysis_result(s)->Err_0,
{
}

/// Parses a CSS string into a vector of rules.
///
/// Returns `Ok(rules)` where the text has no syntax error, with `:root`
/// variables substituted, and `Err(errors)` with every syntax error otherwise.
#[must_use]
pub fn css_to_rules(input: &str) -> (r: Result<Vec<Rule<'_>>, Vec<SyntaxError<'_>>>)
    requires
        input@.len() < u32::MAX,
    ensures
        rules_result_view(r) == rules_result(input@),
{
    let mut lexer = Lexer::new(input);
    let tokens = lexer.tokens();
    analyze_tokens(&tokens, input)?;
    proof {
        lemma_lex_selector_texts(input@, 0, seq![], false);
        lemma_rules_from_wf(crate::parser::ptoks(lex(input@)), 0);
    }
    let rules = Parser::new(tokens).parse();
    Ok(replace_vars(rules))
}

/// Checks a CSS string for syntax errors.
pub fn analyze(input: &str) -> (r: Result<(), Vec<SyntaxError<'_>>>)
    requires
        input@.len() < usize::MAX,
    ensures
        analysis_result_view(r) == analysis_result(input@),
{
    let mut lexer = Lexer::new(input);
    let tokens = lexer.tokens();
    let res = token_errors(&tokens, input);
    if res.len() > 0 {
        return Err(res);
    }
    Ok(())
}

/// Checks a token stream for syntax errors.
pub fn analyze_tokens<'a>(tokens: &[Token<'a>], input: &'a str) -> (r: Result<(), Vec<SyntaxError<'a>>>)
    ensures
        match r {
            Ok(()) => syntax_errors(views(tokens@)).len() == 0,
            Err(errors) => syntax_errors(views(tokens@)).len() > 0 && error_views(errors@)
                == syntax_errors(views(tokens@)),
        },
{
    let res = token_errors(tokens, input);
    if res.len() > 0 {
        return Err(res);
    }
    Ok(())
}

} // verus!
