//! The ABI marker of a declaration: what it says and how it is written.

use vstd::prelude::*;

verus! {

/// The calling-convention marker of a declaration.
#[derive(Clone, Debug, PartialEq, Eq)]
pub enum AbiMarker {
    /// No `extern` at all: the convention is left to the compiler.
    Absent,
    /// `extern` without a name: the platform's default convention.
    Unnamed,
    /// `extern` followed by a string literal that names the convention. The
    /// string is the text that the literal denotes.
    Named(String),
}

/// What an [`AbiMarker`] says, as a mathematical value.
pub enum MarkerView {
    Absent,
    Unnamed,
    Named(Seq<char>),
}

impl View for AbiMarker {
    type V = MarkerView;

    open spec fn view(&self) -> MarkerView {
        match self {
            AbiMarker::Absent => MarkerView::Absent,
            AbiMarker::Unnamed => MarkerView::Unnamed,
            AbiMarker::Named(name) => MarkerView::Named(name@),
        }
    }
}

impl MarkerView {
    /// Whether the marker names a convention, with a name that is not empty.
    pub open spec fn is_concrete(self) -> bool {
        self matches MarkerView::Named(name) && name.len() > 0
    }
}

/// Whether a text can be set as the name of an ABI: it is not empty.
pub open spec fn is_abi_name(name: Seq<char>) -> bool {
    name.len() > 0
}

/// How one character is written between the quotes of a string literal: a
/// quote and a backslash with a backslash in front, a carriage return as
/// `\r`, and every other character as it is.
pub open spec fn escaped_char(c: char) -> Seq<char> {
    if c == '"' {
        seq!['\\', '"']
    } else if c == '\\' {
        seq!['\\', '\\']
    } else if c == '\r' {
        seq!['\\', 'r']
    } else {
        seq![c]
    }
}

/// How a text is written between the quotes of a string literal: character by
/// character.
pub open spec fn escaped(text: Seq<char>) -> Seq<char>
    decreases text.len(),
{
    if text.len() == 0 {
        Seq::empty()
    } else {
        escaped_char(text[0]) + escaped(text.drop_first())
    }
}

/// The character that stands behind a backslash in a text written by
/// [`escaped`] stands for this one.
pub open spec fn unescaped_char(c: char) -> char {
    if c == 'r' {
        '\r'
    } else {
        c
    }
}

/// The text that a text written by [`escaped`] denotes: a backslash and the
/// character behind it stand for one character, every other character for
/// itself.
pub open spec fn unescaped(written: Seq<char>) -> Seq<char>
    decreases written.len(),
{
    if written.len() == 0 {
        Seq::empty()
    } else if written[0] == '\\' && written.len() >= 2 {
        seq![unescaped_char(written[1])] + unescaped(written.skip(2))
    } else {
        seq![written[0]] + unescaped(written.drop_first())
    }
}

/// How a marker that names `name` is written: `extern`, a space, and the name
/// as a string literal.
pub open spec fn spelled_named(name: Seq<char>) -> Seq<char> {
    "extern \""@ + escaped(name) + "\""@
}

/// A text is written by writing its beginning and then its last character.
pub proof fn lemma_escaped_push(text: Seq<char>, c: char)
    ensures
        escaped(text.push(c)) == escaped(text) + escaped_char(c),
    decreases text.len(),
{
    if text.len() == 0 {
        reveal_with_fuel(escaped, 2);
        assert(text.push(c).drop_first() =~= Seq::<char>::empty());
        assert(text.push(c)[0] == c);
        assert(escaped(text.push(c)) =~= escaped_char(c) + Seq::<char>::empty());
        assert(escaped_char(c) + Seq::<char>::empty() =~= escaped(text) + escaped_char(c));
    } else {
        assert(text.push(c).drop_first() =~= text.drop_first().push(c));
        assert(text.push(c)[0] == text[0]);
        lemma_escaped_push(text.drop_first(), c);
        assert(escaped_char(text[0]) + (escaped(text.drop_first()) + escaped_char(c)) =~= (
        escaped_char(text[0]) + escaped(text.drop_first())) + escaped_char(c));
    }
}

/// What is written for a text denotes that text: writing loses nothing and
/// adds nothing, whatever characters the text holds.
pub proof fn lemma_escaped_denotes(text: Seq<char>)
    ensures
        unescaped(escaped(text)) == text,
    decreases text.len(),
{
    if text.len() > 0 {
        let c = text[0];
        let rest = escaped(text.drop_first());
        let written = escaped_char(c) + rest;
        lemma_escaped_denotes(text.drop_first());
        if c == '"' || c == '\\' || c == '\r' {
            assert(written[0] == '\\');
            assert(written.skip(2) =~= rest);
            assert(unescaped_char(written[1]) == c);
        } else {
            assert(written[0] == c);
            assert(written.drop_first() =~= rest);
        }
        assert(seq![c] + text.drop_first() =~= text);
    }
}

/// What is written for a text is at least as long as the text and at most
/// twice as long.
pub proof fn lemma_escaped_len(text: Seq<char>)
    ensures
        text.len() <= escaped(text).len() <= 2 * text.len(),
    decreases text.len(),
{
    if text.len() > 0 {
        lemma_escaped_len(text.drop_first());
    }
}

/// A marker written for a name begins with `extern`.
pub proof fn lemma_spelled_begins_with_extern(name: Seq<char>)
    ensures
        "extern"@.is_prefix_of(spelled_named(name)),
        spelled_named(name).len() == escaped(name).len() + 9,
{
    reveal_strlit("extern \"");
    reveal_strlit("extern");
    reveal_strlit("\"");
    assert(spelled_named(name).subrange(0, 6) =~= "extern"@);
}

impl AbiMarker {
    /// Whether the marker names a convention, with a name that is not empty.
    pub fn is_concrete(&self) -> (r: bool)
        ensures
            r == self@.is_concrete(),
    {
        match self {
            AbiMarker::Named(name) => name.as_str().unicode_len() > 0,
            _ => false,
        }
    }

    /// The name of the convention, where the marker gives one.
    pub fn name(&self) -> (r: Option<&str>)
        ensures
            match r {
                Some(name) => self@ == MarkerView::Named(name@),
                None => !(self@ is Named),
            },
    {
        match self {
            AbiMarker::Named(name) => Some(name.as_str()),
            _ => None,
        }
    }
}

/// Writes the marker that names `name`.
pub fn spell(name: &str) -> (r: String)
    ensures
        r@ == spelled_named(name@),
{
    let mut out = "extern \"".to_owned();
    let n = name.unicode_len();
    let mut i: usize = 0;
    proof {
        reveal_strlit("\\\"");
        reveal_strlit("\\\\");
        reveal_strlit("\\r");
        assert(name@.take(0) =~= Seq::<char>::empty());
        assert(out@ =~= "extern \""@ + escaped(name@.take(0)));
    }
    while i < n
        invariant
            i <= n,
            n == name@.len(),
            out@ == "extern \""@ + escaped(name@.take(i as int)),
            "\\\""@ == seq!['\\', '"'],
            "\\\\"@ == seq!['\\', '\\'],
            "\\r"@ == seq!['\\', 'r'],
        decreases n - i,
    {
        let c = name.get_char(i);
        proof {
            lemma_escaped_push(name@.take(i as int), c);
            assert(name@.take(i as int).push(c) =~= name@.take(i + 1));
        }
        if c == '"' {
            out.append("\\\"");
        } else if c == '\\' {
            out.append("\\\\");
        } else if c == '\r' {
            out.append("\\r");
        } else {
            let verbatim = name.substring_char(i, i + 1);
            assert(verbatim@ =~= seq![c]);
            out.append(verbatim);
        }
        assert(out@ =~= "extern \""@ + escaped(name@.take(i + 1)));
        i += 1;
    }
    assert(name@.take(n as int) =~= name@);
    out.append("\"");
    out
}

} // verus!
