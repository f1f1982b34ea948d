//! What holds of the rewriter as a whole: theorems over the functions that
//! the contracts of the library are written in.

use crate::classify::{classified, classified_from, settled, ClassifyError, ProbesView};
use crate::declaration::{declaration_at, DeclKind, DeclarationView};
use crate::directive::{
    abi_set, entry_at, first_match, is_direct, next_entry, resolved, scan, table_from, ArgError,
    ResolutionView, TokenView,
};
use crate::marker::{is_abi_name, lemma_spelled_begins_with_extern, spelled_named, MarkerView};
use crate::rewriter::{applied, rewritten_source, AbiError};
use crate::syntax::ProbeView;
use crate::target::{PlatformDescriptor, Shortcut};
use crate::text::lemma_cut_rejoins;
use vstd::prelude::*;

verus! {

/// The arguments that name the ABI `name` outright.
pub open spec fn direct(name: Seq<char>) -> Seq<TokenView> {
    seq![TokenView::Str(name)]
}

/// Setting the marker changes the marker and nothing else: the kind and the
/// text on both sides stay, the marker then reads as the name that was set,
/// and the declaration stays well formed.
pub proof fn lemma_rewrite_touches_marker_only(decl: DeclarationView, name: Seq<char>)
    requires
        decl.wf(),
    ensures
        decl.rewritten(name).wf(),
        decl.rewritten(name).marker == MarkerView::Named(name),
        decl.rewritten(name).kind == decl.kind,
        decl.rewritten(name).before == decl.before,
        decl.rewritten(name).after == decl.after,
        decl.rewritten(name).source() == decl.before + spelled_named(name) + decl.rewritten(
            name,
        ).gap() + decl.after,
{
    lemma_spelled_begins_with_extern(name);
    reveal_strlit("extern");
}

/// A directive that names an ABI outright sets the marker of any declaration,
/// of whatever kind and on whatever platform, to exactly that name, and leaves
/// the rest of the declaration as it was.
pub proof fn lemma_direct_sets_marker(
    decl: DeclarationView,
    name: Seq<char>,
    platform: PlatformDescriptor,
)
    requires
        decl.wf(),
        is_abi_name(name),
    ensures
        applied(decl, direct(name), platform) == Ok::<DeclarationView, AbiError>(
            decl.rewritten(name),
        ),
        decl.rewritten(name).marker == MarkerView::Named(name),
        decl.rewritten(name).spelled == spelled_named(name),
        decl.rewritten(name).kind == decl.kind,
        decl.rewritten(name).before == decl.before,
        decl.rewritten(name).after == decl.after,
        decl.rewritten(name).wf(),
{
    lemma_rewrite_touches_marker_only(decl, name);
}

/// A directive that names the ABI outright does not look at the platform: it
/// resolves alike, and makes the same of a declaration, on any two platforms.
pub proof fn lemma_direct_ignores_platform(
    decl: DeclarationView,
    tokens: Seq<TokenView>,
    one: PlatformDescriptor,
    other: PlatformDescriptor,
)
    requires
        is_direct(tokens),
    ensures
        resolved(tokens, one) == resolved(tokens, other),
        applied(decl, tokens, one) == applied(decl, tokens, other),
{
}

/// A table entry that stands within the arguments reads the same when more
/// arguments follow.
proof fn lemma_entry_ignores_rest(tokens: Seq<TokenView>, rest: Seq<TokenView>, i: int)
    requires
        entry_at(tokens, i) is Ok,
    ensures
        entry_at(tokens + rest, i) == entry_at(tokens, i),
{
    let all = tokens + rest;
    assert(all[i] == tokens[i]);
    assert(all[i + 1] == tokens[i + 1]);
    assert(all[i + 2] == tokens[i + 2]);
}

/// First match wins, and what follows it is not read: when a table resolves
/// to an ABI, it resolves to the same ABI whatever is appended to it.
pub proof fn lemma_rest_is_not_read(
    tokens: Seq<TokenView>,
    rest: Seq<TokenView>,
    i: int,
    platform: PlatformDescriptor,
)
    requires
        scan(tokens, i, platform) matches Ok(ResolutionView::Abi(_)),
    ensures
        scan(tokens + rest, i, platform) == scan(tokens, i, platform),
    decreases tokens.len() - i,
{
    let all = tokens + rest;
    lemma_entry_ignores_rest(tokens, rest, i);
    let (target, name) = entry_at(tokens, i)->Ok_0;
    if !target.holds_on(platform) {
        let next = next_entry(tokens, i)->Ok_0;
        assert(next < tokens.len()) by {
            reveal_with_fuel(scan, 2);
        }
        assert(all[i + 3] == tokens[i + 3]);
        assert(next_entry(all, i) == next_entry(tokens, i));
        lemma_rest_is_not_read(tokens, rest, next, platform);
    }
}

/// First match wins: where the first entry of a table denotes the platform,
/// its ABI is the one to be set, whatever the later entries hold.
pub proof fn lemma_first_match_wins(tokens: Seq<TokenView>, platform: PlatformDescriptor)
    requires
        !is_direct(tokens),
        entry_at(tokens, 0) is Ok,
        entry_at(tokens, 0)->Ok_0.0.holds_on(platform),
    ensures
        resolved(tokens, platform) == abi_set(entry_at(tokens, 0)->Ok_0.1, 2),
        is_abi_name(entry_at(tokens, 0)->Ok_0.1) ==> resolved(tokens, platform) == Ok::<
            ResolutionView,
            ArgError,
        >(ResolutionView::Abi(entry_at(tokens, 0)->Ok_0.1)),
{
}

/// Arguments that make up a table resolve as the table does: to the ABI of
/// its earliest entry that matches, which must not be empty, and to nothing
/// where none matches. What the entries before the match name, and whether
/// they name anything, does not matter.
pub proof fn lemma_table_resolves_to_first_match(
    tokens: Seq<TokenView>,
    i: int,
    platform: PlatformDescriptor,
)
    requires
        table_from(tokens, i) is Some,
    ensures
        match first_match(table_from(tokens, i)->Some_0, platform) {
            ResolutionView::Abi(name) => if is_abi_name(name) {
                scan(tokens, i, platform) == Ok::<ResolutionView, ArgError>(
                    ResolutionView::Abi(name),
                )
            } else {
                scan(tokens, i, platform) matches Err(ArgError::EmptyAbi { .. })
            },
            ResolutionView::Unmatched => scan(tokens, i, platform) == Ok::<
                ResolutionView,
                ArgError,
            >(ResolutionView::Unmatched),
        },
    decreases tokens.len() - i,
{
    if 0 <= i < tokens.len() {
        let entry = entry_at(tokens, i)->Ok_0;
        let next = next_entry(tokens, i)->Ok_0;
        let rest = table_from(tokens, next)->Some_0;
        let table = seq![entry] + rest;
        assert(table[0] == entry);
        assert(table.drop_first() =~= rest);
        lemma_table_resolves_to_first_match(tokens, next, platform);
    }
}

/// The entry that decides is the earliest that matches: where a table
/// resolves to an ABI, one of its entries gives that ABI and denotes the
/// platform, and no entry before it denotes the platform; where it resolves
/// to nothing, none of its entries denotes the platform.
pub proof fn lemma_first_match_is_earliest(
    table: Seq<(Shortcut, Seq<char>)>,
    platform: PlatformDescriptor,
)
    ensures
        match first_match(table, platform) {
            ResolutionView::Abi(name) => exists|j: int|
                {
                    &&& 0 <= j < table.len()
                    &&& (#[trigger] table[j]).1 == name
                    &&& table[j].0.holds_on(platform)
                    &&& forall|k: int| 0 <= k < j ==> !(#[trigger] table[k]).0.holds_on(platform)
                },
            ResolutionView::Unmatched => forall|k: int|
                0 <= k < table.len() ==> !(#[trigger] table[k]).0.holds_on(platform),
        },
    decreases table.len(),
{
    if table.len() > 0 && !table[0].0.holds_on(platform) {
        let rest = table.drop_first();
        lemma_first_match_is_earliest(rest, platform);
        assert(forall|k: int| 0 <= k < rest.len() ==> rest[k] == table[k + 1]);
        match first_match(rest, platform) {
            ResolutionView::Abi(name) => {
                let j = choose|j: int|
                    {
                        &&& 0 <= j < rest.len()
                        &&& (#[trigger] rest[j]).1 == name
                        &&& rest[j].0.holds_on(platform)
                        &&& forall|k: int| 0 <= k < j ==> !(#[trigger] rest[k]).0.holds_on(platform)
                    };
                assert(table[j + 1] == rest[j]);
                assert forall|k: int| 0 <= k < j + 1 implies !(#[trigger] table[k]).0.holds_on(
                    platform,
                ) by {
                    if k > 0 {
                        assert(table[k] == rest[k - 1]);
                    }
                }
            },
            ResolutionView::Unmatched => {
                assert forall|k: int| 0 <= k < table.len() implies !(#[trigger] table[k]).0.holds_on(
                    platform,
                ) by {
                    if k > 0 {
                        assert(table[k] == rest[k - 1]);
                    }
                }
            },
        }
    } else if table.len() > 0 {
        assert(table[0].1 == first_match(table, platform)->Abi_0);
    }
}

/// An ABI that a table resolves to has a name that can be set: it is not
/// empty.
pub proof fn lemma_scan_names_an_abi(tokens: Seq<TokenView>, i: int, platform: PlatformDescriptor)
    ensures
        scan(tokens, i, platform) matches Ok(ResolutionView::Abi(name)) ==> is_abi_name(name),
    decreases tokens.len() - i,
{
    if 0 <= i < tokens.len() {
        if let Ok((target, name)) = entry_at(tokens, i) {
            if !target.holds_on(platform) {
                if let Ok(next) = next_entry(tokens, i) {
                    lemma_scan_names_an_abi(tokens, next, platform);
                }
            }
        }
    }
}

/// Whatever a directive makes of a declaration, the outcome names an ABI, is
/// well formed, and is of the same kind with the same text on both sides of
/// the marker: only the marker is ever changed.
pub proof fn lemma_applied_keeps_the_rest(
    decl: DeclarationView,
    tokens: Seq<TokenView>,
    platform: PlatformDescriptor,
)
    requires
        decl.wf(),
    ensures
        applied(decl, tokens, platform) matches Ok(out) ==> {
            &&& out.wf()
            &&& out.marker.is_concrete()
            &&& out.kind == decl.kind
            &&& out.before == decl.before
            &&& out.after == decl.after
        },
{
    lemma_scan_names_an_abi(tokens, 0, platform);
    if let Ok(ResolutionView::Abi(name)) = resolved(tokens, platform) {
        lemma_rewrite_touches_marker_only(decl, name);
    }
}

/// Rewriting is idempotent: a directive applied to what it made of a
/// declaration gives that again, and so the same text.
pub proof fn lemma_apply_is_idempotent(
    decl: DeclarationView,
    tokens: Seq<TokenView>,
    platform: PlatformDescriptor,
)
    requires
        applied(decl, tokens, platform) is Ok,
    ensures
        applied(applied(decl, tokens, platform)->Ok_0, tokens, platform) == applied(
            decl,
            tokens,
            platform,
        ),
        applied(applied(decl, tokens, platform)->Ok_0, tokens, platform)->Ok_0.source() == applied(
            decl,
            tokens,
            platform,
        )->Ok_0.source(),
{
    lemma_scan_names_an_abi(tokens, 0, platform);
}

/// A declaration that is read from a text is well formed and writes out as
/// that text, byte for byte, wherever the parser says its marker stands.
pub proof fn lemma_read_is_verbatim(text: Seq<char>, kind: DeclKind, probe: ProbeView)
    ensures
        declaration_at(text, kind, probe) matches Some(decl) ==> decl.wf() && decl.kind == kind
            && decl.source() == text,
{
    if let Some(decl) = declaration_at(text, kind, probe) {
        match probe {
            ProbeView::Unmarked { fn_start, fn_end } => {
                lemma_cut_rejoins(text, fn_start, fn_end);
                let keyword = "fn"@;
                assert(decl.after.subrange(0, keyword.len() as int) =~= keyword);
                assert(decl.before + decl.spelled + Seq::<char>::empty() + decl.after =~= text);
            },
            ProbeView::Bare { extern_start, extern_end } => {
                lemma_cut_rejoins(text, extern_start, extern_end);
                assert(decl.before + decl.spelled + Seq::<char>::empty() + decl.after =~= text);
            },
            ProbeView::Named { extern_start, literal_end, .. } => {
                lemma_cut_rejoins(text, extern_start, literal_end);
                assert(decl.before + decl.spelled + Seq::<char>::empty() + decl.after =~= text);
            },
            _ => {},
        }
    }
}

/// Whatever the parser answers, a declaration that classification accepts is
/// well formed and writes out as the text that was classified.
pub proof fn lemma_classified_is_verbatim(text: Seq<char>, probes: ProbesView)
    ensures
        classified(text, probes) matches Ok(decl) ==> decl.wf() && decl.source() == text,
{
    reveal_with_fuel(classified_from, 5);
    lemma_settled_is_verbatim(text, DeclKind::Function, probes.function);
    lemma_settled_is_verbatim(text, DeclKind::TypeAlias, probes.type_alias);
    lemma_settled_is_verbatim(text, DeclKind::Const, probes.constant);
    lemma_settled_is_verbatim(text, DeclKind::Static, probes.static_item);
    lemma_settled_is_verbatim(text, DeclKind::ForeignBlock, probes.foreign_block);
}

/// A declaration that one kind accepts is well formed, of that kind, and
/// writes out as the text it was read from.
pub proof fn lemma_settled_is_verbatim(text: Seq<char>, kind: DeclKind, probe: ProbeView)
    ensures
        settled(text, kind, probe) matches Some(Ok(decl)) ==> decl.wf() && decl.kind == kind
            && decl.source() == text,
{
    lemma_read_is_verbatim(text, kind, probe);
}

/// A type alias for anything but a bare function-pointer type is refused with
/// a classification error, whatever the directive holds: where the text is no
/// function and the parser reads it as a type alias for another type, neither
/// classification nor rewriting ever succeeds.
pub proof fn lemma_alias_of_other_type_is_refused(
    tokens: Seq<TokenView>,
    text: Seq<char>,
    platform: PlatformDescriptor,
    probes: ProbesView,
)
    requires
        probes.function is NoMatch,
        probes.type_alias is WrongType,
    ensures
        classified(text, probes) == Err::<DeclarationView, ClassifyError>(
            ClassifyError::UnsupportedAliasTarget,
        ),
        rewritten_source(tokens, text, platform, probes) == Err::<Seq<char>, AbiError>(
            AbiError::Classify(ClassifyError::UnsupportedAliasTarget),
        ),
{
    reveal_with_fuel(classified_from, 2);
}

/// A text that the parser reads as none of the kinds is an unsupported item.
pub proof fn lemma_no_match_is_unsupported(text: Seq<char>, probes: ProbesView)
    requires
        probes.function is NoMatch,
        probes.type_alias is NoMatch,
        probes.constant is NoMatch,
        probes.static_item is NoMatch,
        probes.foreign_block is NoMatch,
    ensures
        classified(text, probes) == Err::<DeclarationView, ClassifyError>(
            ClassifyError::UnsupportedItem,
        ),
{
    reveal_with_fuel(classified_from, 5);
}

/// A directive without arguments fails, and says that neither an ABI nor a
/// table of targets was found.
pub proof fn lemma_no_arguments_fail(decl: DeclarationView, platform: PlatformDescriptor)
    ensures
        resolved(Seq::<TokenView>::empty(), platform) == Err::<ResolutionView, ArgError>(
            ArgError::Empty,
        ),
        applied(decl, Seq::<TokenView>::empty(), platform) == Err::<DeclarationView, AbiError>(
            AbiError::Directive(ArgError::Empty),
        ),
        AbiError::Directive(ArgError::Empty).message_text() == "no ABI or target table found"@,
{
}

/// An ABI that is named outright must stand alone: with anything behind it,
/// the directive fails on the argument that follows the ABI, and the extra
/// argument is never passed over in silence.
pub proof fn lemma_extra_argument_fails(
    decl: DeclarationView,
    tokens: Seq<TokenView>,
    platform: PlatformDescriptor,
)
    requires
        is_direct(tokens),
        tokens.len() > 1,
    ensures
        resolved(tokens, platform) == Err::<ResolutionView, ArgError>(
            ArgError::ExtraArgument { position: 1 },
        ),
        applied(decl, tokens, platform) == Err::<DeclarationView, AbiError>(
            AbiError::Directive(ArgError::ExtraArgument { position: 1 }),
        ),
{
}

/// A table that matches nothing leaves a declaration that names an ABI as it
/// is, and fails for one that names none.
pub proof fn lemma_unmatched_table(
    decl: DeclarationView,
    tokens: Seq<TokenView>,
    platform: PlatformDescriptor,
)
    requires
        resolved(tokens, platform) == Ok::<ResolutionView, ArgError>(ResolutionView::Unmatched),
    ensures
        decl.marker.is_concrete() ==> applied(decl, tokens, platform) == Ok::<
            DeclarationView,
            AbiError,
        >(decl),
        !decl.marker.is_concrete() ==> applied(decl, tokens, platform) == Err::<
            DeclarationView,
            AbiError,
        >(AbiError::MissingAbi),
{
}

/// Rewriting a source text changes its marker and nothing else: where a
/// directive that names an ABI outright succeeds on a text, the text can be
/// cut in three so that what comes out is the first part, the marker for that
/// ABI with the blank it may need, and the last part.
pub proof fn lemma_direct_rewrite_of_source(
    name: Seq<char>,
    text: Seq<char>,
    platform: PlatformDescriptor,
    probes: ProbesView,
)
    requires
        is_abi_name(name),
        classified(text, probes) is Ok,
    ensures
        ({
            let decl = classified(text, probes)->Ok_0;
            &&& text == decl.before + decl.spelled + decl.after
            &&& rewritten_source(direct(name), text, platform, probes) == Ok::<Seq<char>, AbiError>(
                decl.before + spelled_named(name) + decl.rewritten(name).gap() + decl.after,
            )
        }),
{
    let decl = classified(text, probes)->Ok_0;
    lemma_classified_is_verbatim(text, probes);
    lemma_classified_has_no_gap(text, probes);
    lemma_direct_sets_marker(decl, name, platform);
    assert(decl.before + decl.spelled + Seq::<char>::empty() + decl.after =~= decl.before
        + decl.spelled + decl.after);
}

/// Two texts that begin alike end alike: what follows a common beginning of
/// two equal texts is the same.
proof fn lemma_same_rest(head: Seq<char>, a: Seq<char>, b: Seq<char>)
    requires
        head + a == head + b,
    ensures
        a == b,
{
    assert((head + a).len() == head.len() + a.len());
    assert((head + b).len() == head.len() + b.len());
    assert forall|i: int| 0 <= i < a.len() implies a[i] == b[i] by {
        assert((head + a)[head.len() + i] == a[i]);
        assert((head + b)[head.len() + i] == b[i]);
    }
    assert(a =~= b);
}

/// Rewriting is idempotent on texts: a directive applied to the text that it
/// made of a declaration gives that text again, byte for byte, provided that
/// the parser finds in that text the marker where it was written and reads it
/// as what it says.
pub proof fn lemma_rewrite_of_source_is_idempotent(
    tokens: Seq<TokenView>,
    text: Seq<char>,
    platform: PlatformDescriptor,
    probes: ProbesView,
    again: ProbesView,
)
    requires
        rewritten_source(tokens, text, platform, probes) is Ok,
        ({
            let first = applied(classified(text, probes)->Ok_0, tokens, platform)->Ok_0;
            &&& classified(first.source(), again) matches Ok(reread)
            &&& reread.before == first.before
            &&& reread.spelled == first.spelled
            &&& reread.marker == first.marker
        }),
    ensures
        rewritten_source(
            tokens,
            rewritten_source(tokens, text, platform, probes)->Ok_0,
            platform,
            again,
        ) == rewritten_source(tokens, text, platform, probes),
{
    let decl = classified(text, probes)->Ok_0;
    let first = applied(decl, tokens, platform)->Ok_0;
    let reread = classified(first.source(), again)->Ok_0;
    lemma_classified_is_verbatim(text, probes);
    lemma_classified_has_no_gap(text, probes);
    lemma_classified_is_verbatim(first.source(), again);
    lemma_classified_has_no_gap(first.source(), again);
    lemma_applied_keeps_the_rest(decl, tokens, platform);
    lemma_scan_names_an_abi(tokens, 0, platform);
    reveal_strlit(" ");
    reveal_strlit("fn");
    let head = first.before + first.spelled;
    assert(reread.source() =~= head + reread.after);
    assert(first.source() =~= head + (first.gap() + first.after));
    lemma_same_rest(head, reread.after, first.gap() + first.after);
    match resolved(tokens, platform) {
        Ok(ResolutionView::Abi(name)) => {
            let second = reread.rewritten(name);
            lemma_spelled_begins_with_extern(name);
            if first.gap().len() > 0 {
                assert(reread.after[0] == ' ');
                assert(!"fn"@.is_prefix_of(reread.after)) by {
                    if "fn"@.is_prefix_of(reread.after) {
                        assert(reread.after.subrange(0, 2)[0] == 'f');
                    }
                }
                assert(second.gap().len() == 0);
            } else {
                assert(reread.after =~= first.after);
            }
            assert(second.source() =~= first.source());
        },
        _ => {},
    }
}

/// A declaration that classification accepts needs no blank behind its
/// marker.
proof fn lemma_classified_has_no_gap(text: Seq<char>, probes: ProbesView)
    ensures
        classified(text, probes) matches Ok(decl) ==> decl.gap().len() == 0,
{
    reveal_with_fuel(classified_from, 5);
}

} // verus!
