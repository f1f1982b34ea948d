//! Declarations: their kind, their marker, and the text around it.

use crate::marker::{
    is_abi_name, lemma_spelled_begins_with_extern, spell, spelled_named, AbiMarker, MarkerView,
};
use crate::syntax::{Probe, ProbeView};
use crate::text::{byte_slice, can_cut, cut, same_text, starts_with};
use vstd::prelude::*;
use vstd::utf8::encode_utf8;

verus! {

/// The kinds of declaration whose marker can be rewritten.
#[derive(Clone, Copy, Debug, PartialEq, Eq, Structural)]
pub enum DeclKind {
    /// A function definition.
    Function,
    /// A type alias for a bare function-pointer type.
    TypeAlias,
    /// A constant whose declared type is a bare function-pointer type.
    Const,
    /// A static whose declared type is a bare function-pointer type.
    Static,
    /// A block of foreign functions.
    ForeignBlock,
}

impl DeclKind {
    /// Whether a declaration of this kind always carries a marker. A foreign
    /// block does; on the other kinds the marker is optional.
    pub open spec fn requires_marker(self) -> bool {
        self == DeclKind::ForeignBlock
    }

    /// Tells whether a declaration of this kind always carries a marker.
    pub fn marker_required(self) -> (r: bool)
        ensures
            r == self.requires_marker(),
    {
        self == DeclKind::ForeignBlock
    }
}

/// A declaration, taken apart at its ABI marker.
///
/// The marker is the only part that rewriting changes. The text before and
/// after it is kept as it was read, so that the declaration can be written
/// out again with nothing else touched.
#[derive(Debug, PartialEq, Eq)]
pub struct Declaration {
    kind: DeclKind,
    before: String,
    spelled: String,
    marker: AbiMarker,
    after: String,
}

/// A [`Declaration`] as a mathematical value.
pub struct DeclarationView {
    pub kind: DeclKind,
    /// The source text before the marker.
    pub before: Seq<char>,
    /// The marker as it is written; empty where there is none.
    pub spelled: Seq<char>,
    /// What the marker says.
    pub marker: MarkerView,
    /// The source text after the marker.
    pub after: Seq<char>,
}

impl DeclarationView {
    /// A declaration is well formed when its marker and its marker's text
    /// agree: without a marker the text is empty and the `fn` keyword stands
    /// where a marker would go, with a marker the text begins with `extern`,
    /// and an unnamed marker is `extern` alone. A kind that requires a marker
    /// has one.
    pub open spec fn wf(self) -> bool {
        &&& self.marker is Absent ==> self.spelled.len() == 0 && "fn"@.is_prefix_of(self.after)
        &&& !(self.marker is Absent) ==> "extern"@.is_prefix_of(self.spelled)
        &&& self.marker is Unnamed ==> self.spelled == "extern"@
        &&& self.kind.requires_marker() ==> !(self.marker is Absent)
    }

    /// The blank that keeps a marker apart from an `fn` keyword that follows
    /// it directly; empty anywhere else.
    pub open spec fn gap(self) -> Seq<char> {
        if self.spelled.len() > 0 && "fn"@.is_prefix_of(self.after) {
            " "@
        } else {
            Seq::<char>::empty()
        }
    }

    /// The declaration written out: the text before the marker, the marker,
    /// and the text after it.
    pub open spec fn source(self) -> Seq<char> {
        self.before + self.spelled + self.gap() + self.after
    }

    /// The declaration with its marker set to name `name`. Nothing else
    /// changes.
    pub open spec fn rewritten(self, name: Seq<char>) -> DeclarationView {
        DeclarationView {
            kind: self.kind,
            before: self.before,
            spelled: spelled_named(name),
            marker: MarkerView::Named(name),
            after: self.after,
        }
    }
}

/// The declaration of kind `kind` whose marker occupies the bytes of a source
/// text from `start` up to `end` and says `marker`. `None` where the text
/// cannot be cut there, or where the declaration so read would not be well
/// formed or would not write out as the text it was read from.
pub open spec fn marked_at(
    text: Seq<char>,
    kind: DeclKind,
    start: int,
    end: int,
    marker: MarkerView,
) -> Option<DeclarationView> {
    if !can_cut(text, start, end) {
        None
    } else {
        let decl = DeclarationView {
            kind,
            before: byte_slice(text, 0, start),
            spelled: byte_slice(text, start, end),
            marker,
            after: byte_slice(text, end, encode_utf8(text).len() as int),
        };
        if decl.wf() && decl.gap().len() == 0 {
            Some(decl)
        } else {
            None
        }
    }
}

/// The declaration of kind `kind` that a source text holds when the tokens of
/// its marker stand where `probe` says.
///
/// A declaration without a marker is cut in front of its `fn` keyword, which
/// must stand where it is said to; the kind must not require a marker. A
/// marker reaches from the start of `extern` to the end of `extern`, where it
/// is unnamed, or to the end of the literal, which must not begin before
/// `extern` ends. `None` where the text does not bear this out.
pub open spec fn declaration_at(text: Seq<char>, kind: DeclKind, probe: ProbeView) -> Option<
    DeclarationView,
> {
    match probe {
        ProbeView::NoMatch | ProbeView::WrongType => None,
        ProbeView::Unmarked { fn_start, fn_end } => if can_cut(text, fn_start, fn_end)
            && byte_slice(text, fn_start, fn_end) == "fn"@ && !kind.requires_marker() {
            Some(
                DeclarationView {
                    kind,
                    before: byte_slice(text, 0, fn_start),
                    spelled: Seq::<char>::empty(),
                    marker: MarkerView::Absent,
                    after: byte_slice(text, fn_start, fn_end) + byte_slice(
                        text,
                        fn_end,
                        encode_utf8(text).len() as int,
                    ),
                },
            )
        } else {
            None
        },
        ProbeView::Bare { extern_start, extern_end } => marked_at(
            text,
            kind,
            extern_start,
            extern_end,
            MarkerView::Unnamed,
        ),
        ProbeView::Named { extern_start, extern_end, literal_start, literal_end, name } => if extern_start
            <= extern_end <= literal_start <= literal_end {
            marked_at(text, kind, extern_start, literal_end, MarkerView::Named(name))
        } else {
            None
        },
    }
}

impl View for Declaration {
    type V = DeclarationView;

    closed spec fn view(&self) -> DeclarationView {
        DeclarationView {
            kind: self.kind,
            before: self.before@,
            spelled: self.spelled@,
            marker: self.marker@,
            after: self.after@,
        }
    }
}

impl Declaration {
    /// Every declaration is well formed.
    #[verifier::type_invariant]
    pub open spec fn well_formed(self) -> bool {
        self@.wf()
    }

    /// Takes a source text apart at the bytes from `start` up to `end`, where
    /// a marker that says `marker` is said to stand.
    fn marked(text: &str, kind: DeclKind, start: usize, end: usize, marker: AbiMarker) -> (r: Option<
        Declaration,
    >)
        requires
            !(marker@ is Absent),
        ensures
            match r {
                Some(decl) => marked_at(text@, kind, start as int, end as int, marker@) == Some(
                    decl@,
                ),
                None => marked_at(text@, kind, start as int, end as int, marker@) is None,
            },
            r matches Some(decl) ==> decl@.wf() && decl@.kind == kind && decl@.source() == text@,
    {
        let (before, spelled, after) = match cut(text, start, end) {
            Some(parts) => parts,
            None => {
                return None;
            },
        };
        proof {
            reveal_strlit(" ");
            reveal_strlit("extern");
        }
        if !starts_with(spelled, "extern") || starts_with(after, "fn") {
            return None;
        }
        let unnamed = match marker {
            AbiMarker::Unnamed => true,
            _ => false,
        };
        if unnamed && !same_text(spelled, "extern") {
            return None;
        }
        proof {
            assert(before@ + spelled@ + Seq::<char>::empty() + after@ =~= text@);
        }
        Some(
            Declaration {
                kind,
                before: before.to_owned(),
                spelled: spelled.to_owned(),
                marker,
                after: after.to_owned(),
            },
        )
    }

    /// Takes a source text apart at its marker, which the parser's answer
    /// `probe` locates, and reads it as a declaration of kind `kind`. `None`
    /// where the text does not bear the answer out.
    pub fn read(text: &str, kind: DeclKind, probe: &Probe) -> (r: Option<Declaration>)
        ensures
            match r {
                Some(decl) => declaration_at(text@, kind, probe@) == Some(decl@),
                None => declaration_at(text@, kind, probe@) is None,
            },
            r matches Some(decl) ==> decl@.wf() && decl@.kind == kind && decl@.source() == text@,
    {
        match probe {
            Probe::NoMatch => None,
            Probe::WrongType => None,
            Probe::Unmarked { keyword } => {
                let (before, keyword, rest) = match cut(text, keyword.start, keyword.end) {
                    Some(parts) => parts,
                    None => {
                        return None;
                    },
                };
                if !same_text(keyword, "fn") || kind.marker_required() {
                    return None;
                }
                let mut after = keyword.to_owned();
                after.append(rest);
                proof {
                    assert(keyword@.subrange(0, keyword@.len() as int) =~= keyword@);
                    assert((keyword@ + rest@).subrange(0, keyword@.len() as int) =~= keyword@);
                    assert(before@ + Seq::<char>::empty() + Seq::<char>::empty() + after@
                        =~= text@);
                }
                Some(
                    Declaration {
                        kind,
                        before: before.to_owned(),
                        spelled: String::new(),
                        marker: AbiMarker::Absent,
                        after,
                    },
                )
            },
            Probe::Bare { keyword } => Declaration::marked(
                text,
                kind,
                keyword.start,
                keyword.end,
                AbiMarker::Unnamed,
            ),
            Probe::Named { keyword, literal, name } => {
                if keyword.start <= keyword.end && keyword.end <= literal.start && literal.start
                    <= literal.end {
                    Declaration::marked(
                        text,
                        kind,
                        keyword.start,
                        literal.end,
                        AbiMarker::Named(name.clone()),
                    )
                } else {
                    None
                }
            },
        }
    }

    /// The kind of the declaration.
    pub fn kind(&self) -> (r: DeclKind)
        ensures
            r == self@.kind,
    {
        self.kind
    }

    /// What the marker says.
    pub fn marker(&self) -> (r: &AbiMarker)
        ensures
            r@ == self@.marker,
    {
        &self.marker
    }

    /// The marker as it is written; empty where there is none.
    pub fn spelled(&self) -> (r: &str)
        ensures
            r@ == self@.spelled,
    {
        self.spelled.as_str()
    }

    /// The source text before the marker.
    pub fn before(&self) -> (r: &str)
        ensures
            r@ == self@.before,
    {
        self.before.as_str()
    }

    /// The source text after the marker.
    pub fn after(&self) -> (r: &str)
        ensures
            r@ == self@.after,
    {
        self.after.as_str()
    }

    /// Sets the marker to name `name`, replacing the one that is there or
    /// putting one where there was none. The rest of the declaration stays as
    /// it is, and the marker then names a convention. The name must not be
    /// empty; it may hold any characters.
    pub fn rewrite(self, name: &str) -> (r: Declaration)
        requires
            is_abi_name(name@),
        ensures
            r@ == self@.rewritten(name@),
            r@.wf(),
            r@.marker.is_concrete(),
    {
        proof {
            use_type_invariant(&self);
            lemma_spelled_begins_with_extern(name@);
            reveal_strlit("extern");
        }
        Declaration {
            kind: self.kind,
            before: self.before,
            spelled: spell(name),
            marker: AbiMarker::Named(name.to_owned()),
            after: self.after,
        }
    }

    /// Writes the declaration out as source text.
    pub fn serialize(&self) -> (r: String)
        ensures
            r@ == self@.source(),
    {
        let mut out = self.before.clone();
        out.append(self.spelled.as_str());
        if self.spelled.as_str().unicode_len() > 0 && starts_with(self.after.as_str(), "fn") {
            out.append(" ");
        }
        out.append(self.after.as_str());
        proof {
            assert(out@ =~= self@.source());
        }
        out
    }
}

} // verus!
