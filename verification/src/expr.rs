//! Expression fragments: the opaque case-argument values that the engine
//! binds to parameters, and the parsing step that validates a piece of
//! source text as an expression and normalizes its rendering.

use vstd::prelude::*;
use quote::ToTokens;

verus! {

/// The errors the engine can report.  Detection and abort is all that is
/// required here; rendering a message is the host compiler's job.
#[derive(Debug)]
pub enum RsTestError {
    /// An attribute list item named something other than `case` stood where
    /// only `case` groups are accepted; carries the offending name.
    UnknownParameterOption(String),
    /// A literal or embedded expression fragment failed to parse as a valid
    /// expression, or a case argument had a shape the engine does not accept.
    UnknownError,
    /// The annotated item is not a function declaration.
    StructuralMismatch,
    /// A parameter is not a simple name binding.
    InvalidParameterPattern,
}

/// The normalized token text of `s` when `s` parses as an expression,
/// `None` when it does not.  The result depends on the text alone.
pub uninterp spec fn parsed_expr(s: Seq<char>) -> Option<Seq<char>>;

/// Relies on `syn::parse_str::<syn::Expr>` to decide whether a piece of
/// source text is a valid expression, and on `quote`'s token rendering
/// (`into_token_stream().to_string()`) for the normalized text of the
/// result; both depend on the input text alone.
#[verifier::external_body]
fn parse_expr_text(s: &str) -> (r: Option<String>)
    ensures
        r is Some <==> parsed_expr(s@) is Some,
        r is Some ==> r->0@ == parsed_expr(s@)->0,
{
    match syn::parse_str::<syn::Expr>(s) {
        Ok(e) => Some(e.into_token_stream().to_string()),
        Err(_) => None,
    }
}

/// An opaque expression fragment: one parameter's value for one case.
/// Two fragments are equal exactly when their normalized texts are equal.
#[derive(Debug, PartialEq, Eq)]
pub struct CaseArg {
    pub text: String,
}

impl View for CaseArg {
    type V = Seq<char>;

    open spec fn view(&self) -> Seq<char> {
        self.text@
    }
}

/// The texts of a sequence of expression fragments.
pub open spec fn exprs_views(cs: Seq<CaseArg>) -> Seq<Seq<char>> {
    Seq::new(cs.len(), |k: int| cs[k]@)
}

impl CaseArg {
    /// An owned copy; resolvers hand out borrowed fragments and callers
    /// copy them at the boundary.
    pub fn duplicate(&self) -> (r: CaseArg)
        ensures
            r == *self,
    {
        CaseArg { text: self.text.clone() }
    }
}

/// `parse_expression` turns source text into an expression fragment;
/// text that does not parse is reported as `UnknownError`.
pub fn parse_expression(s: &str) -> (r: Result<CaseArg, RsTestError>)
    ensures
        r is Ok <==> parsed_expr(s@) is Some,
        r is Ok ==> r->Ok_0@ == parsed_expr(s@)->0,
        r is Err ==> r->Err_0 is UnknownError,
{
    match parse_expr_text(s) {
        Some(text) => Ok(CaseArg { text }),
        None => Err(RsTestError::UnknownError),
    }
}

} // verus!
