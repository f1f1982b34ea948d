//! Classification: reading a source text as one of the supported kinds of
//! declaration.

use crate::declaration::{declaration_at, DeclKind, Declaration, DeclarationView};
use crate::syntax::{
    probe_const, probe_foreign_block, probe_function, probe_static, probe_type_alias, Probe,
    ProbeView,
};
use vstd::prelude::*;

verus! {

/// Why a source text is not accepted as a declaration.
#[derive(Clone, Copy, Debug, PartialEq, Eq, Structural)]
pub enum ClassifyError {
    /// The text is none of the supported kinds of declaration.
    UnsupportedItem,
    /// The text is a type alias, but what it aliases is no bare
    /// function-pointer type.
    UnsupportedAliasTarget,
    /// The text is a constant or a static, but its declared type is no bare
    /// function-pointer type.
    UnsupportedBindingType,
    /// The text is a supported declaration, but the tokens of its marker are
    /// not where the parser said.
    MarkerNotLocated,
}

impl ClassifyError {
    /// The message for the declaration's author.
    pub open spec fn message_text(self) -> Seq<char> {
        match self {
            ClassifyError::UnsupportedItem => "unsupported item kind: an ABI can be set on a function, a foreign block, or a type alias, const or static of a bare function-pointer type"@,
            ClassifyError::UnsupportedAliasTarget => "this type alias does not alias a supported type: only bare function-pointer types are supported"@,
            ClassifyError::UnsupportedBindingType => "not a supported type: only bare function-pointer types are supported, please set the ABI on a type alias instead"@,
            ClassifyError::MarkerNotLocated => "the ABI marker of this declaration could not be located in its source text"@,
        }
    }

    /// The message for the declaration's author.
    pub fn message(&self) -> (r: &'static str)
        ensures
            r@ == self.message_text(),
    {
        match self {
            ClassifyError::UnsupportedItem => "unsupported item kind: an ABI can be set on a function, a foreign block, or a type alias, const or static of a bare function-pointer type",
            ClassifyError::UnsupportedAliasTarget => "this type alias does not alias a supported type: only bare function-pointer types are supported",
            ClassifyError::UnsupportedBindingType => "not a supported type: only bare function-pointer types are supported, please set the ABI on a type alias instead",
            ClassifyError::MarkerNotLocated => "the ABI marker of this declaration could not be located in its source text",
        }
    }
}

/// What the parser says of one source text, read as each kind in turn.
#[derive(Debug, PartialEq, Eq)]
pub struct Probes {
    pub function: Probe,
    pub type_alias: Probe,
    pub constant: Probe,
    pub static_item: Probe,
    pub foreign_block: Probe,
}

/// [`Probes`] as a mathematical value.
pub struct ProbesView {
    pub function: ProbeView,
    pub type_alias: ProbeView,
    pub constant: ProbeView,
    pub static_item: ProbeView,
    pub foreign_block: ProbeView,
}

impl View for Probes {
    type V = ProbesView;

    open spec fn view(&self) -> ProbesView {
        ProbesView {
            function: self.function@,
            type_alias: self.type_alias@,
            constant: self.constant@,
            static_item: self.static_item@,
            foreign_block: self.foreign_block@,
        }
    }
}

impl ProbesView {
    /// What the parser says of the text read as `kind`.
    pub open spec fn of(self, kind: DeclKind) -> ProbeView {
        match kind {
            DeclKind::Function => self.function,
            DeclKind::TypeAlias => self.type_alias,
            DeclKind::Const => self.constant,
            DeclKind::Static => self.static_item,
            DeclKind::ForeignBlock => self.foreign_block,
        }
    }
}

/// What one kind makes of a source text, given the parser's answer for it:
/// `None` where the text is not of that kind, so that the next kind is to be
/// tried; else the declaration, or the reason why the text is refused for good.
pub open spec fn settled(text: Seq<char>, kind: DeclKind, probe: ProbeView) -> Option<
    Result<DeclarationView, ClassifyError>,
> {
    match probe {
        ProbeView::NoMatch => None,
        ProbeView::WrongType => match kind {
            DeclKind::TypeAlias => Some(Err(ClassifyError::UnsupportedAliasTarget)),
            DeclKind::Const | DeclKind::Static => Some(Err(ClassifyError::UnsupportedBindingType)),
            DeclKind::Function | DeclKind::ForeignBlock => None,
        },
        _ => match declaration_at(text, kind, probe) {
            Some(decl) => Some(Ok(decl)),
            None => Some(Err(ClassifyError::MarkerNotLocated)),
        },
    }
}

/// The outcome of trying the kinds from `from` on, in their order of
/// priority: the first kind that settles the text decides.
pub open spec fn classified_from(text: Seq<char>, probes: ProbesView, from: DeclKind) -> Result<
    DeclarationView,
    ClassifyError,
>
    decreases rank_below(from),
{
    match settled(text, from, probes.of(from)) {
        Some(outcome) => outcome,
        None => match next_kind(from) {
            Some(next) => classified_from(text, probes, next),
            None => Err(ClassifyError::UnsupportedItem),
        },
    }
}

/// The kind that is tried after `kind`, if any is left.
pub open spec fn next_kind(kind: DeclKind) -> Option<DeclKind> {
    match kind {
        DeclKind::Function => Some(DeclKind::TypeAlias),
        DeclKind::TypeAlias => Some(DeclKind::Const),
        DeclKind::Const => Some(DeclKind::Static),
        DeclKind::Static => Some(DeclKind::ForeignBlock),
        DeclKind::ForeignBlock => None,
    }
}

/// How many kinds are tried after `kind`.
pub open spec fn rank_below(kind: DeclKind) -> nat {
    match kind {
        DeclKind::Function => 4,
        DeclKind::TypeAlias => 3,
        DeclKind::Const => 2,
        DeclKind::Static => 1,
        DeclKind::ForeignBlock => 0,
    }
}

/// The outcome of classification, given the parser's answers: a function
/// first, then a type alias, a constant, a static, and a foreign block last.
pub open spec fn classified(text: Seq<char>, probes: ProbesView) -> Result<
    DeclarationView,
    ClassifyError,
> {
    classified_from(text, probes, DeclKind::Function)
}

/// What an outcome of classification says, as a mathematical value.
pub open spec fn outcome_view(outcome: Result<Declaration, ClassifyError>) -> Result<
    DeclarationView,
    ClassifyError,
> {
    match outcome {
        Ok(decl) => Ok(decl@),
        Err(e) => Err(e),
    }
}

/// Decides what one kind makes of a source text, given the parser's answer
/// for that kind.
pub fn settle(text: &str, kind: DeclKind, probe: &Probe) -> (r: Option<
    Result<Declaration, ClassifyError>,
>)
    ensures
        match r {
            Some(outcome) => settled(text@, kind, probe@) == Some(outcome_view(outcome)),
            None => settled(text@, kind, probe@) is None,
        },
        r matches Some(Ok(decl)) ==> decl@.wf() && decl@.kind == kind && decl@.source() == text@,
{
    match probe {
        Probe::NoMatch => None,
        Probe::WrongType => match kind {
            DeclKind::TypeAlias => Some(Err(ClassifyError::UnsupportedAliasTarget)),
            DeclKind::Const | DeclKind::Static => Some(Err(ClassifyError::UnsupportedBindingType)),
            DeclKind::Function | DeclKind::ForeignBlock => None,
        },
        _ => match Declaration::read(text, kind, probe) {
            Some(decl) => Some(Ok(decl)),
            None => Some(Err(ClassifyError::MarkerNotLocated)),
        },
    }
}

/// Classifies a source text, given the parser's answers for it. The kinds are
/// tried in their order of priority, and the first that settles the text
/// decides; a text that no kind settles is an unsupported item.
pub fn classify_probed(text: &str, probes: &Probes) -> (r: Result<Declaration, ClassifyError>)
    ensures
        outcome_view(r) == classified(text@, probes@),
        r matches Ok(decl) ==> decl@.wf() && decl@.source() == text@,
{
    proof {
        reveal_with_fuel(classified_from, 5);
    }
    if let Some(outcome) = settle(text, DeclKind::Function, &probes.function) {
        return outcome;
    }
    if let Some(outcome) = settle(text, DeclKind::TypeAlias, &probes.type_alias) {
        return outcome;
    }
    if let Some(outcome) = settle(text, DeclKind::Const, &probes.constant) {
        return outcome;
    }
    if let Some(outcome) = settle(text, DeclKind::Static, &probes.static_item) {
        return outcome;
    }
    if let Some(outcome) = settle(text, DeclKind::ForeignBlock, &probes.foreign_block) {
        return outcome;
    }
    Err(ClassifyError::UnsupportedItem)
}

/// Asks the parser what it makes of a source text, read as each kind.
pub fn probe(text: &str) -> Probes {
    Probes {
        function: probe_function(text),
        type_alias: probe_type_alias(text),
        constant: probe_const(text),
        static_item: probe_static(text),
        foreign_block: probe_foreign_block(text),
    }
}

/// Classifies a source text: parses it and reads it as the first kind of
/// declaration that fits. Whatever the parser answers, a declaration that is
/// returned is well formed and writes out as the very text it was read from.
pub fn classify(text: &str) -> (r: Result<Declaration, ClassifyError>)
    ensures
        exists|probes: ProbesView| outcome_view(r) == classified(text@, probes),
        r matches Ok(decl) ==> decl@.wf() && decl@.source() == text@,
{
    let probes = probe(text);
    classify_probed(text, &probes)
}

} // verus!
