//! The rewriter: one declaration and one directive in, the declaration with
//! its marker set out.

use crate::classify::{classified, classify_probed, probe, ClassifyError, Probes, ProbesView};
use crate::declaration::{Declaration, DeclarationView};
use crate::directive::{
    resolve, resolved, token_views, ArgError, Resolution, ResolutionView, Token, TokenView,
};
use crate::target::PlatformDescriptor;
use vstd::prelude::*;

verus! {

/// Why a declaration is not rewritten. None of these can be recovered from:
/// the author has to mend the directive or the declaration.
#[derive(Clone, Copy, Debug, PartialEq, Eq, Structural)]
pub enum AbiError {
    /// The declaration is not one whose ABI can be set.
    Classify(ClassifyError),
    /// The arguments of the directive are malformed.
    Directive(ArgError),
    /// The directive is a table without an entry for this platform, and the
    /// declaration names no ABI of its own to fall back on.
    MissingAbi,
}

impl AbiError {
    /// The message for the author.
    pub open spec fn message_text(self) -> Seq<char> {
        match self {
            AbiError::Classify(e) => e.message_text(),
            AbiError::Directive(e) => e.message_text(),
            AbiError::MissingAbi => "missing ABI for this target, and no default was specified"@,
        }
    }

    /// The message for the author.
    pub fn message(&self) -> (r: String)
        ensures
            r@ == self.message_text(),
    {
        match self {
            AbiError::Classify(e) => e.message().to_owned(),
            AbiError::Directive(e) => e.message(),
            AbiError::MissingAbi => "missing ABI for this target, and no default was specified".to_owned(),
        }
    }
}

/// What a directive makes of a declaration on a platform.
///
/// Malformed arguments are an error. Arguments that resolve to an ABI set the
/// declaration's marker to it. A table that matches nothing leaves a
/// declaration that names an ABI already as it is, and is an error for one
/// that names none.
pub open spec fn applied(
    decl: DeclarationView,
    tokens: Seq<TokenView>,
    platform: PlatformDescriptor,
) -> Result<DeclarationView, AbiError> {
    match resolved(tokens, platform) {
        Err(e) => Err(AbiError::Directive(e)),
        Ok(ResolutionView::Abi(name)) => Ok(decl.rewritten(name)),
        Ok(ResolutionView::Unmatched) => if decl.marker.is_concrete() {
            Ok(decl)
        } else {
            Err(AbiError::MissingAbi)
        },
    }
}

/// What a directive makes of a source text on a platform, given the parser's
/// answers for the text: the text is classified, the directive is applied to
/// the declaration, and the declaration is written out. A text that is not
/// classified fails as such, whatever the directive holds.
pub open spec fn rewritten_source(
    tokens: Seq<TokenView>,
    text: Seq<char>,
    platform: PlatformDescriptor,
    probes: ProbesView,
) -> Result<Seq<char>, AbiError> {
    match classified(text, probes) {
        Err(e) => Err(AbiError::Classify(e)),
        Ok(decl) => match applied(decl, tokens, platform) {
            Err(e) => Err(e),
            Ok(rewritten) => Ok(rewritten.source()),
        },
    }
}

/// What an outcome of applying a directive says, as a mathematical value.
pub open spec fn applied_view(outcome: Result<Declaration, AbiError>) -> Result<
    DeclarationView,
    AbiError,
> {
    match outcome {
        Ok(decl) => Ok(decl@),
        Err(e) => Err(e),
    }
}

/// What an outcome of rewriting a source text says, as a mathematical value.
pub open spec fn source_view(outcome: Result<String, AbiError>) -> Result<Seq<char>, AbiError> {
    match outcome {
        Ok(text) => Ok(text@),
        Err(e) => Err(e),
    }
}

/// Applies a directive to a declaration on a platform. A declaration that
/// comes back names an ABI.
pub fn apply(decl: Declaration, tokens: &[Token], platform: &PlatformDescriptor) -> (r: Result<
    Declaration,
    AbiError,
>)
    ensures
        applied_view(r) == applied(decl@, token_views(tokens@), *platform),
        r matches Ok(rewritten) ==> rewritten@.wf() && rewritten@.marker.is_concrete(),
{
    proof {
        use_type_invariant(&decl);
    }
    match resolve(tokens, platform) {
        Err(e) => Err(AbiError::Directive(e)),
        Ok(Resolution::Abi(name)) => Ok(decl.rewrite(name.as_str())),
        Ok(Resolution::Unmatched) => if decl.marker().is_concrete() {
            Ok(decl)
        } else {
            Err(AbiError::MissingAbi)
        },
    }
}

/// Rewrites a source text by a directive on a platform, given the parser's
/// answers for the text.
pub fn abi_probed(
    tokens: &[Token],
    input: &str,
    platform: &PlatformDescriptor,
    probes: &Probes,
) -> (r: Result<String, AbiError>)
    ensures
        source_view(r) == rewritten_source(token_views(tokens@), input@, *platform, probes@),
{
    let decl = match classify_probed(input, probes) {
        Ok(decl) => decl,
        Err(e) => {
            return Err(AbiError::Classify(e));
        },
    };
    match apply(decl, tokens, platform) {
        Ok(rewritten) => Ok(rewritten.serialize()),
        Err(e) => Err(e),
    }
}

/// Sets the ABI of a declaration as a directive asks.
///
/// `tokens` are the arguments of the directive, `input` is the source text of
/// the declaration it stands on, and `platform` describes the target of the
/// build. The result is the source text of the declaration with its marker
/// set, and with nothing else changed.
///
/// Whatever the parser makes of the input, the outcome is the one that its
/// answers lead to; a directive with malformed arguments never succeeds, and
/// an error of the directive is the one that its arguments call for.
pub fn abi(tokens: &[Token], input: &str, platform: &PlatformDescriptor) -> (r: Result<
    String,
    AbiError,
>)
    ensures
        exists|probes: ProbesView|
            source_view(r) == #[trigger] rewritten_source(
                token_views(tokens@),
                input@,
                *platform,
                probes,
            ),
        r is Ok ==> resolved(token_views(tokens@), *platform) is Ok,
        r matches Err(AbiError::Directive(e)) ==> resolved(token_views(tokens@), *platform) == Err::<
            ResolutionView,
            ArgError,
        >(e),
{
    let probes = probe(input);
    abi_probed(tokens, input, platform, &probes)
}

} // verus!
