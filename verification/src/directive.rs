//! The arguments of the directive, and the ABI that they resolve to.
//!
//! The arguments come as tokens. A single string literal names the ABI
//! outright. Anything else is read as a table of entries `shortcut = "abi"`,
//! optionally separated by commas; the first entry whose shortcut denotes
//! the platform decides, and what follows it is not looked at.

use crate::marker::is_abi_name;
use crate::target::{
    os_family_of, shortcut_named, OsFamily, PlatformDescriptor, PlatformError, Shortcut,
};
use vstd::prelude::*;

verus! {

/// One token of the directive's arguments.
#[derive(Clone, Debug, PartialEq, Eq)]
pub enum Token {
    /// An identifier, by its name.
    Ident(String),
    /// A string literal, by the text that it denotes.
    Str(String),
    /// Any other literal, as it is written.
    Literal(String),
    /// A punctuation character.
    Punct(char),
    /// Any other token, such as a bracketed group.
    Other,
}

/// A [`Token`] as a mathematical value.
pub enum TokenView {
    Ident(Seq<char>),
    Str(Seq<char>),
    Literal(Seq<char>),
    Punct(char),
    Other,
}

impl View for Token {
    type V = TokenView;

    open spec fn view(&self) -> TokenView {
        match self {
            Token::Ident(name) => TokenView::Ident(name@),
            Token::Str(text) => TokenView::Str(text@),
            Token::Literal(text) => TokenView::Literal(text@),
            Token::Punct(c) => TokenView::Punct(*c),
            Token::Other => TokenView::Other,
        }
    }
}

/// The tokens of an argument list as mathematical values.
pub open spec fn token_views(tokens: Seq<Token>) -> Seq<TokenView> {
    Seq::new(tokens.len(), |i: int| tokens[i]@)
}

/// What stood where something else was expected.
#[derive(Clone, Copy, Debug, PartialEq, Eq, Structural)]
pub enum Found {
    Ident,
    Str,
    Literal,
    Punct,
    Other,
    /// The arguments ended.
    End,
}

/// What stands at position `i` of the arguments.
pub open spec fn found_at(tokens: Seq<TokenView>, i: int) -> Found {
    if 0 <= i < tokens.len() {
        match tokens[i] {
            TokenView::Ident(_) => Found::Ident,
            TokenView::Str(_) => Found::Str,
            TokenView::Literal(_) => Found::Literal,
            TokenView::Punct(_) => Found::Punct,
            TokenView::Other => Found::Other,
        }
    } else {
        Found::End
    }
}

/// Why the arguments of a directive are refused. Each position counts tokens
/// from the first, which is at position 0.
#[derive(Clone, Copy, Debug, PartialEq, Eq, Structural)]
pub enum ArgError {
    /// There are no arguments: neither an ABI nor a table of targets.
    Empty,
    /// Something follows the ABI literal, which must stand alone.
    ExtraArgument { position: usize },
    /// The ABI literal at this position is the one to be set, and it is empty
    /// and names nothing.
    EmptyAbi { position: usize },
    /// The shortcut of a target was expected at this position, and something
    /// that is no identifier was found.
    ExpectedShortcut { position: usize, found: Found },
    /// The identifier at this position is no shortcut of the vocabulary.
    UnknownShortcut { position: usize },
    /// An `=` was expected at this position.
    ExpectedEquals { position: usize, found: Found },
    /// A string literal that names the ABI was expected at this position.
    ExpectedAbi { position: usize, found: Found },
    /// The separator at this position is followed by nothing.
    TrailingSeparator { position: usize },
}

impl Found {
    /// How the message for the author speaks of what was found.
    pub open spec fn description(self) -> Seq<char> {
        match self {
            Found::Ident => "an identifier"@,
            Found::Str => "a string literal"@,
            Found::Literal => "a literal"@,
            Found::Punct => "a punctuation character"@,
            Found::Other => "another token"@,
            Found::End => "the end of the arguments"@,
        }
    }

    /// How the message for the author speaks of what was found.
    pub fn describe(self) -> (r: &'static str)
        ensures
            r@ == self.description(),
    {
        match self {
            Found::Ident => "an identifier",
            Found::Str => "a string literal",
            Found::Literal => "a literal",
            Found::Punct => "a punctuation character",
            Found::Other => "another token",
            Found::End => "the end of the arguments",
        }
    }
}

impl ArgError {
    /// The message for the directive's author: what was expected and what was
    /// found in its place.
    pub open spec fn message_text(self) -> Seq<char> {
        match self {
            ArgError::Empty => "no ABI or target table found"@,
            ArgError::ExtraArgument { .. } => "invalid argument found: an ABI given outright must stand alone"@,
            ArgError::EmptyAbi { .. } => "expected the name of an ABI, found an empty string literal"@,
            ArgError::ExpectedShortcut { found, .. } => "expected a target identifier, found "@
                + found.description(),
            ArgError::UnknownShortcut { .. } => "expected one of the targets linux64, linux32, win32, win64, macos32, macos64, linux, win, macos, 64, 32, found an unknown identifier"@,
            ArgError::ExpectedEquals { found, .. } => "expected `=` after the target, found "@
                + found.description(),
            ArgError::ExpectedAbi { found, .. } => "expected a string literal that names the ABI, found "@
                + found.description(),
            ArgError::TrailingSeparator { .. } => "expected a target identifier after `,`, found the end of the arguments"@,
        }
    }

    /// The position of the token that the error is about; `None` where there
    /// are no arguments at all.
    pub open spec fn position_of(self) -> Option<usize> {
        match self {
            ArgError::Empty => None,
            ArgError::ExtraArgument { position } => Some(position),
            ArgError::EmptyAbi { position } => Some(position),
            ArgError::ExpectedShortcut { position, .. } => Some(position),
            ArgError::UnknownShortcut { position } => Some(position),
            ArgError::ExpectedEquals { position, .. } => Some(position),
            ArgError::ExpectedAbi { position, .. } => Some(position),
            ArgError::TrailingSeparator { position } => Some(position),
        }
    }

    /// The message for the directive's author.
    pub fn message(&self) -> (r: String)
        ensures
            r@ == self.message_text(),
    {
        match self {
            ArgError::Empty => "no ABI or target table found".to_owned(),
            ArgError::ExtraArgument { .. } => "invalid argument found: an ABI given outright must stand alone".to_owned(),
            ArgError::EmptyAbi { .. } => "expected the name of an ABI, found an empty string literal".to_owned(),
            ArgError::ExpectedShortcut { found, .. } => {
                let mut out = "expected a target identifier, found ".to_owned();
                out.append(found.describe());
                out
            },
            ArgError::UnknownShortcut { .. } => "expected one of the targets linux64, linux32, win32, win64, macos32, macos64, linux, win, macos, 64, 32, found an unknown identifier".to_owned(),
            ArgError::ExpectedEquals { found, .. } => {
                let mut out = "expected `=` after the target, found ".to_owned();
                out.append(found.describe());
                out
            },
            ArgError::ExpectedAbi { found, .. } => {
                let mut out = "expected a string literal that names the ABI, found ".to_owned();
                out.append(found.describe());
                out
            },
            ArgError::TrailingSeparator { .. } => "expected a target identifier after `,`, found the end of the arguments".to_owned(),
        }
    }

    /// The position of the token that the error is about, counted from 0.
    pub fn position(&self) -> (r: Option<usize>)
        ensures
            r == self.position_of(),
    {
        match self {
            ArgError::Empty => None,
            ArgError::ExtraArgument { position } => Some(*position),
            ArgError::EmptyAbi { position } => Some(*position),
            ArgError::ExpectedShortcut { position, .. } => Some(*position),
            ArgError::UnknownShortcut { position } => Some(*position),
            ArgError::ExpectedEquals { position, .. } => Some(*position),
            ArgError::ExpectedAbi { position, .. } => Some(*position),
            ArgError::TrailingSeparator { position } => Some(*position),
        }
    }
}

/// What the arguments resolve to.
#[derive(Clone, Debug, PartialEq, Eq)]
pub enum Resolution {
    /// The ABI of this name is to be set.
    Abi(String),
    /// The arguments are a table, and none of its shortcuts denotes the
    /// platform.
    Unmatched,
}

/// A [`Resolution`] as a mathematical value.
pub enum ResolutionView {
    Abi(Seq<char>),
    Unmatched,
}

impl View for Resolution {
    type V = ResolutionView;

    open spec fn view(&self) -> ResolutionView {
        match self {
            Resolution::Abi(name) => ResolutionView::Abi(name@),
            Resolution::Unmatched => ResolutionView::Unmatched,
        }
    }
}

/// What an outcome of resolution says, as a mathematical value.
pub open spec fn resolution_view(outcome: Result<Resolution, ArgError>) -> Result<
    ResolutionView,
    ArgError,
> {
    match outcome {
        Ok(resolution) => Ok(resolution@),
        Err(e) => Err(e),
    }
}

/// The table entry that begins at position `i`: a shortcut of the
/// vocabulary, an `=`, and a string literal that names an ABI, which the entry
/// gives with the shortcut. Where one of the three is not there, the error says which was
/// expected, where, and what was found.
pub open spec fn entry_at(tokens: Seq<TokenView>, i: int) -> Result<(Shortcut, Seq<char>), ArgError> {
    match shortcut_at(tokens, i) {
        Err(e) => Err(e),
        Ok(target) => if !(i + 1 < tokens.len() && tokens[i + 1] == TokenView::Punct('=')) {
            Err(ArgError::ExpectedEquals { position: (i + 1) as usize, found: found_at(tokens, i + 1) })
        } else {
            match abi_at(tokens, i + 2) {
                Err(e) => Err(e),
                Ok(name) => Ok((target, name)),
            }
        },
    }
}

/// The shortcut named at position `i`.
pub open spec fn shortcut_at(tokens: Seq<TokenView>, i: int) -> Result<Shortcut, ArgError> {
    if 0 <= i < tokens.len() && tokens[i] is Ident {
        match shortcut_named(tokens[i]->Ident_0) {
            Some(target) => Ok(target),
            None => Err(ArgError::UnknownShortcut { position: i as usize }),
        }
    } else {
        Err(ArgError::ExpectedShortcut { position: i as usize, found: found_at(tokens, i) })
    }
}

/// The ABI named by the string literal at position `i`: the text that the
/// literal denotes, whatever it holds.
pub open spec fn abi_at(tokens: Seq<TokenView>, i: int) -> Result<Seq<char>, ArgError> {
    if 0 <= i < tokens.len() && tokens[i] is Str {
        Ok(tokens[i]->Str_0)
    } else {
        Err(ArgError::ExpectedAbi { position: i as usize, found: found_at(tokens, i) })
    }
}

/// The ABI that is to be set when the string literal at position `i` names
/// it: the name must not be empty.
pub open spec fn abi_set(name: Seq<char>, i: int) -> Result<ResolutionView, ArgError> {
    if is_abi_name(name) {
        Ok(ResolutionView::Abi(name))
    } else {
        Err(ArgError::EmptyAbi { position: i as usize })
    }
}

/// Where the entry after the one at position `i` begins: behind the entry's
/// three tokens and the comma that may follow them. A comma with nothing
/// behind it is an error.
pub open spec fn next_entry(tokens: Seq<TokenView>, i: int) -> Result<int, ArgError> {
    if i + 3 < tokens.len() && tokens[i + 3] == TokenView::Punct(',') {
        if i + 4 < tokens.len() {
            Ok(i + 4)
        } else {
            Err(ArgError::TrailingSeparator { position: (i + 3) as usize })
        }
    } else {
        Ok(i + 3)
    }
}

/// What the table resolves to when it is read from position `i` on: the ABI
/// of the first entry whose shortcut denotes the platform, which must not be
/// empty. Entries behind that one are not read, so that a fault in them goes
/// unseen; an entry before it must have the shape of an entry, and what ABI
/// it names does not matter. Where the table ends without such an entry,
/// nothing is matched.
pub open spec fn scan(tokens: Seq<TokenView>, i: int, platform: PlatformDescriptor) -> Result<
    ResolutionView,
    ArgError,
>
    decreases tokens.len() - i,
{
    if i < 0 || i >= tokens.len() {
        Ok(ResolutionView::Unmatched)
    } else {
        match entry_at(tokens, i) {
            Err(e) => Err(e),
            Ok((target, name)) => if target.holds_on(platform) {
                abi_set(name, i + 2)
            } else {
                match next_entry(tokens, i) {
                    Err(e) => Err(e),
                    Ok(next) => scan(tokens, next, platform),
                }
            },
        }
    }
}

/// The table that the arguments from position `i` on spell out: its entries
/// in the order in which they are written. `None` where the arguments do not
/// make up a table to their end.
pub open spec fn table_from(tokens: Seq<TokenView>, i: int) -> Option<Seq<(Shortcut, Seq<char>)>>
    decreases tokens.len() - i,
{
    if i < 0 || i >= tokens.len() {
        Some(Seq::empty())
    } else {
        match (entry_at(tokens, i), next_entry(tokens, i)) {
            (Ok(entry), Ok(next)) => match table_from(tokens, next) {
                Some(rest) => Some(seq![entry] + rest),
                None => None,
            },
            _ => None,
        }
    }
}

/// What a table resolves to on a platform: the ABI of the earliest entry
/// whose shortcut denotes the platform, whether or not a later entry fits
/// the platform more closely.
pub open spec fn first_match(
    table: Seq<(Shortcut, Seq<char>)>,
    platform: PlatformDescriptor,
) -> ResolutionView
    decreases table.len(),
{
    if table.len() == 0 {
        ResolutionView::Unmatched
    } else if table[0].0.holds_on(platform) {
        ResolutionView::Abi(table[0].1)
    } else {
        first_match(table.drop_first(), platform)
    }
}

/// Whether the arguments name the ABI outright: the first of them is a string
/// literal.
pub open spec fn is_direct(tokens: Seq<TokenView>) -> bool {
    tokens.len() > 0 && tokens[0] is Str
}

/// What the arguments of a directive resolve to on a platform.
///
/// Without arguments there is nothing to resolve. A string literal in the
/// first place names the ABI; it must stand alone and must not be empty. Any
/// other arguments are a table, read entry by entry from the first.
pub open spec fn resolved(tokens: Seq<TokenView>, platform: PlatformDescriptor) -> Result<
    ResolutionView,
    ArgError,
> {
    if tokens.len() == 0 {
        Err(ArgError::Empty)
    } else if is_direct(tokens) {
        if tokens.len() > 1 {
            Err(ArgError::ExtraArgument { position: 1 })
        } else {
            abi_set(tokens[0]->Str_0, 0)
        }
    } else {
        scan(tokens, 0, platform)
    }
}

/// The platform that a directive is resolved for, from the names that the
/// compiler gives.
///
/// A platform of a recognised family is described as it is. On any other
/// operating system a table cannot be resolved, and the platform is refused
/// before the table is read. A directive that names the ABI outright never
/// looks at the platform; it is served everywhere, with a descriptor that
/// stands in for the platform and names Linux.
pub open spec fn platform_chosen(
    tokens: Seq<TokenView>,
    os_name: Seq<char>,
    pointer_width: u32,
) -> Result<PlatformDescriptor, PlatformError> {
    match os_family_of(os_name) {
        Some(os) => Ok(PlatformDescriptor { os, pointer_width }),
        None => if is_direct(tokens) {
            Ok(PlatformDescriptor { os: OsFamily::Linux, pointer_width })
        } else {
            Err(PlatformError::UnsupportedOs)
        },
    }
}

/// Describes the platform that a directive is to be resolved for.
pub fn platform_for(tokens: &[Token], os_name: &str, pointer_width: u32) -> (r: Result<
    PlatformDescriptor,
    PlatformError,
>)
    ensures
        r == platform_chosen(token_views(tokens@), os_name@, pointer_width),
{
    match PlatformDescriptor::new(os_name, pointer_width) {
        Ok(platform) => Ok(platform),
        Err(e) => if names_abi_outright(tokens) {
            Ok(PlatformDescriptor { os: OsFamily::Linux, pointer_width })
        } else {
            Err(e)
        },
    }
}

/// Tells whether the arguments name the ABI outright.
pub fn names_abi_outright(tokens: &[Token]) -> (r: bool)
    ensures
        r == is_direct(token_views(tokens@)),
{
    if tokens.len() == 0 {
        false
    } else {
        match &tokens[0] {
            Token::Str(_) => true,
            _ => false,
        }
    }
}

/// Tells what stands at position `i` of the arguments.
pub fn found(tokens: &[Token], i: usize) -> (r: Found)
    ensures
        r == found_at(token_views(tokens@), i as int),
{
    if i < tokens.len() {
        match &tokens[i] {
            Token::Ident(_) => Found::Ident,
            Token::Str(_) => Found::Str,
            Token::Literal(_) => Found::Literal,
            Token::Punct(_) => Found::Punct,
            Token::Other => Found::Other,
        }
    } else {
        Found::End
    }
}

/// Tells whether the punctuation character `c` stands at position `i`.
fn punct_at(tokens: &[Token], i: usize, c: char) -> (r: bool)
    ensures
        r == (i < tokens@.len() && token_views(tokens@)[i as int] == TokenView::Punct(c)),
{
    if i < tokens.len() {
        match &tokens[i] {
            Token::Punct(p) => *p == c,
            _ => false,
        }
    } else {
        false
    }
}

/// Reads the shortcut named at position `i`.
fn read_shortcut(tokens: &[Token], i: usize) -> (r: Result<Shortcut, ArgError>)
    ensures
        r == shortcut_at(token_views(tokens@), i as int),
{
    if i < tokens.len() {
        if let Token::Ident(name) = &tokens[i] {
            return match Shortcut::from_name(name.as_str()) {
                Some(target) => Ok(target),
                None => Err(ArgError::UnknownShortcut { position: i }),
            };
        }
    }
    Err(ArgError::ExpectedShortcut { position: i, found: found(tokens, i) })
}

/// Reads the ABI named by the string literal at position `i`.
fn read_abi(tokens: &[Token], i: usize) -> (r: Result<String, ArgError>)
    ensures
        match r {
            Ok(name) => abi_at(token_views(tokens@), i as int) == Ok::<Seq<char>, ArgError>(name@),
            Err(e) => abi_at(token_views(tokens@), i as int) == Err::<Seq<char>, ArgError>(e),
        },
{
    if i < tokens.len() {
        if let Token::Str(name) = &tokens[i] {
            return Ok(name.clone());
        }
    }
    Err(ArgError::ExpectedAbi { position: i, found: found(tokens, i) })
}

/// Takes a name as the ABI to be set, where the string literal at position
/// `i` names it.
fn set_abi(name: String, i: usize) -> (r: Result<Resolution, ArgError>)
    ensures
        resolution_view(r) == abi_set(name@, i as int),
        r matches Ok(Resolution::Abi(set)) ==> is_abi_name(set@),
{
    if name.as_str().unicode_len() == 0 {
        Err(ArgError::EmptyAbi { position: i })
    } else {
        Ok(Resolution::Abi(name))
    }
}

/// Reads the table entry that begins at position `i`.
fn read_entry(tokens: &[Token], i: usize) -> (r: Result<(Shortcut, String), ArgError>)
    requires
        i < tokens@.len(),
    ensures
        match r {
            Ok((target, name)) => entry_at(token_views(tokens@), i as int) == Ok::<
                (Shortcut, Seq<char>),
                ArgError,
            >((target, name@)),
            Err(e) => entry_at(token_views(tokens@), i as int) == Err::<
                (Shortcut, Seq<char>),
                ArgError,
            >(e),
        },
{
    let n = tokens.len();
    let target = match read_shortcut(tokens, i) {
        Ok(target) => target,
        Err(e) => {
            return Err(e);
        },
    };
    if !punct_at(tokens, i + 1, '=') {
        return Err(ArgError::ExpectedEquals { position: i + 1, found: found(tokens, i + 1) });
    }
    match read_abi(tokens, i + 2) {
        Ok(name) => Ok((target, name)),
        Err(e) => Err(e),
    }
}

/// Resolves the arguments of a directive on a platform.
pub fn resolve(tokens: &[Token], platform: &PlatformDescriptor) -> (r: Result<Resolution, ArgError>)
    ensures
        resolution_view(r) == resolved(token_views(tokens@), *platform),
        r matches Ok(Resolution::Abi(name)) ==> is_abi_name(name@),
{
    let n = tokens.len();
    if n == 0 {
        return Err(ArgError::Empty);
    }
    if names_abi_outright(tokens) {
        if n > 1 {
            return Err(ArgError::ExtraArgument { position: 1 });
        }
        return match read_abi(tokens, 0) {
            Ok(name) => set_abi(name, 0),
            Err(e) => Err(e),
        };
    }
    let mut i: usize = 0;
    while i < n
        invariant
            n == tokens@.len(),
            !is_direct(token_views(tokens@)),
            scan(token_views(tokens@), i as int, *platform) == scan(
                token_views(tokens@),
                0,
                *platform,
            ),
        decreases n - i,
    {
        let (target, name) = match read_entry(tokens, i) {
            Ok(entry) => entry,
            Err(e) => {
                return Err(e);
            },
        };
        if target.matches(platform) {
            return set_abi(name, i + 2);
        }
        if punct_at(tokens, i + 3, ',') {
            if i + 4 < n {
                i = i + 4;
            } else {
                return Err(ArgError::TrailingSeparator { position: i + 3 });
            }
        } else {
            i = i + 3;
        }
    }
    Ok(Resolution::Unmatched)
}

} // verus!
