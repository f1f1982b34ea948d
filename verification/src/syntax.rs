//! The parser's view of a declaration: where the tokens of its ABI marker
//! stand and what the marker names.
//!
//! Parsing Rust is left to `syn`. Each function here asks `syn` to read the
//! source text as one kind of item and reports where the `extern` keyword,
//! the ABI's string literal and the `fn` keyword stand in that text, together
//! with the text that the literal denotes. What the marker is and where the
//! declaration is cut is decided from these by the callers.
//!
//! Nothing is claimed of what `syn` answers. In particular the ranges are
//! exact only where `proc_macro2` has lexed the text itself; under a compiler
//! that hands out its own spans they may all be empty. The ranges are
//! therefore checked against the text before anything is built on them.
//!
//! The functions take any text. That rests on the version of `syn` in use:
//! its `Lit::new` has to accept every literal that the lexer of `proc_macro2`
//! lets through, C strings among them, and from 2.0 on it does so by falling
//! back to `Lit::Verbatim`. An older `syn` panics on such a literal.

use quote::ToTokens;
use std::ops::Range;
use vstd::prelude::*;

verus! {

/// What the parser says of a source text read as one kind of declaration.
/// Every range counts bytes of the text.
#[derive(Debug, PartialEq, Eq)]
pub enum Probe {
    /// The text is no declaration of that kind.
    NoMatch,
    /// The text is a declaration of that kind, but the type it declares is no
    /// bare function-pointer type.
    WrongType,
    /// The text is a declaration of that kind without a marker, and its `fn`
    /// keyword stands at `keyword`.
    Unmarked { keyword: Range<usize> },
    /// The text is a declaration of that kind whose marker is `extern` alone,
    /// which stands at `keyword`.
    Bare { keyword: Range<usize> },
    /// The text is a declaration of that kind whose marker is `extern`, which
    /// stands at `keyword`, and a string literal, which stands at `literal`
    /// and denotes `name`.
    Named { keyword: Range<usize>, literal: Range<usize>, name: String },
}

/// A [`Probe`] as a mathematical value.
pub enum ProbeView {
    NoMatch,
    WrongType,
    Unmarked { fn_start: int, fn_end: int },
    Bare { extern_start: int, extern_end: int },
    Named { extern_start: int, extern_end: int, literal_start: int, literal_end: int, name: Seq<char> },
}

impl View for Probe {
    type V = ProbeView;

    open spec fn view(&self) -> ProbeView {
        match self {
            Probe::NoMatch => ProbeView::NoMatch,
            Probe::WrongType => ProbeView::WrongType,
            Probe::Unmarked { keyword } => ProbeView::Unmarked {
                fn_start: keyword.start as int,
                fn_end: keyword.end as int,
            },
            Probe::Bare { keyword } => ProbeView::Bare {
                extern_start: keyword.start as int,
                extern_end: keyword.end as int,
            },
            Probe::Named { keyword, literal, name } => ProbeView::Named {
                extern_start: keyword.start as int,
                extern_end: keyword.end as int,
                literal_start: literal.start as int,
                literal_end: literal.end as int,
                name: name@,
            },
        }
    }
}

/// Calls `syn::parse_str::<syn::ItemFn>` and reads, from the signature, the
/// spans of the `fn` keyword, the `extern` keyword and the ABI literal through
/// `proc_macro2::Span::byte_range`, and the literal's text through
/// `syn::LitStr::value`. Nothing is claimed of the result.
#[verifier::external_body]
pub(crate) fn probe_function(text: &str) -> Probe {
    let Ok(item) = syn::parse_str::<syn::ItemFn>(text) else { return Probe::NoMatch };
    let Some(abi) = item.sig.abi else {
        return Probe::Unmarked { keyword: item.sig.fn_token.span.byte_range() };
    };
    let keyword = abi.extern_token.span.byte_range();
    let Some(name) = abi.name else { return Probe::Bare { keyword } };
    Probe::Named { keyword, literal: name.span().byte_range(), name: name.value() }
}

/// Calls `syn::parse_str::<syn::ItemForeignMod>` and reads, from the block,
/// the spans of the `extern` keyword and the ABI literal through
/// `proc_macro2::Span::byte_range`, and the literal's text through
/// `syn::LitStr::value`. Nothing is claimed of the result.
#[verifier::external_body]
pub(crate) fn probe_foreign_block(text: &str) -> Probe {
    let Ok(item) = syn::parse_str::<syn::ItemForeignMod>(text) else { return Probe::NoMatch };
    let keyword = item.abi.extern_token.span.byte_range();
    let Some(name) = item.abi.name else { return Probe::Bare { keyword } };
    Probe::Named { keyword, literal: name.span().byte_range(), name: name.value() }
}

/// Calls `syn::parse_str::<syn::ItemType>`, then reads the aliased type's
/// tokens again as a `syn::TypeBareFn` with `syn::parse2`, and reads, from
/// that type, the spans of the `fn` keyword, the `extern` keyword and the ABI
/// literal through `proc_macro2::Span::byte_range`, and the literal's text
/// through `syn::LitStr::value`. Nothing is claimed of the result.
#[verifier::external_body]
pub(crate) fn probe_type_alias(text: &str) -> Probe {
    let Ok(item) = syn::parse_str::<syn::ItemType>(text) else { return Probe::NoMatch };
    let Ok(ty) = syn::parse2::<syn::TypeBareFn>(item.ty.to_token_stream()) else {
        return Probe::WrongType;
    };
    let Some(abi) = ty.abi else { return Probe::Unmarked { keyword: ty.fn_token.span.byte_range() } };
    let keyword = abi.extern_token.span.byte_range();
    let Some(name) = abi.name else { return Probe::Bare { keyword } };
    Probe::Named { keyword, literal: name.span().byte_range(), name: name.value() }
}

/// Calls `syn::parse_str::<syn::ItemConst>`, tells a bare function-pointer
/// type from any other declared type, and reads, from that type, the spans of
/// the `fn` keyword, the `extern` keyword and the ABI literal through
/// `proc_macro2::Span::byte_range`, and the literal's text through
/// `syn::LitStr::value`. Nothing is claimed of the result.
#[verifier::external_body]
pub(crate) fn probe_const(text: &str) -> Probe {
    let Ok(item) = syn::parse_str::<syn::ItemConst>(text) else { return Probe::NoMatch };
    let syn::Type::BareFn(ty) = *item.ty else { return Probe::WrongType };
    let Some(abi) = ty.abi else { return Probe::Unmarked { keyword: ty.fn_token.span.byte_range() } };
    let keyword = abi.extern_token.span.byte_range();
    let Some(name) = abi.name else { return Probe::Bare { keyword } };
    Probe::Named { keyword, literal: name.span().byte_range(), name: name.value() }
}

/// Calls `syn::parse_str::<syn::ItemStatic>`, tells a bare function-pointer
/// type from any other declared type, and reads, from that type, the spans of
/// the `fn` keyword, the `extern` keyword and the ABI literal through
/// `proc_macro2::Span::byte_range`, and the literal's text through
/// `syn::LitStr::value`. Nothing is claimed of the result.
#[verifier::external_body]
pub(crate) fn probe_static(text: &str) -> Probe {
    let Ok(item) = syn::parse_str::<syn::ItemStatic>(text) else { return Probe::NoMatch };
    let syn::Type::BareFn(ty) = *item.ty else { return Probe::WrongType };
    let Some(abi) = ty.abi else { return Probe::Unmarked { keyword: ty.fn_token.span.byte_range() } };
    let keyword = abi.extern_token.span.byte_range();
    let Some(name) = abi.name else { return Probe::Bare { keyword } };
    Probe::Named { keyword, literal: name.span().byte_range(), name: name.value() }
}

} // verus!
