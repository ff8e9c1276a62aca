//! What holds of parsing and rendering whatever the format string, the
//! target and the values are.

use vstd::prelude::*;
use crate::buffer::plan_newln;
use crate::error::{syntax_diagnostics, ErrorView};
use crate::grammar::{
    is_brace, is_default_format, lemma_literal_end_bounds, literal_end, next_piece, span_of,
    span_text, tokenize, tokenize_from, ArgumentRef, Count, Piece, Position, Span,
};
use crate::plan::{
    add_argument, add_piece, add_text, advance, arg_fits, args_fit, build_from, default_entry,
    entry_wf, finish, format_argument, is_star, outcome, plan_of, plan_wf, position_cursor,
    resolve_kind, resolve_position, start, unsatisfied, Builder, ParseTarget, PlanView,
    ResolvedCount,
};
use crate::render::{default_layout, render_value, Layout};
use crate::replay::{count_value, entries_of, layout_of, render_entries, render_entry, render_plan};
use crate::value::{FormatTrait, ParamView};

verus! {

/// Is the specifier of every argument reference among `pieces` the default?
pub open spec fn all_default(pieces: Seq<Piece>) -> bool {
    forall|k: int|
        0 <= k < pieces.len() ==> (#[trigger] pieces[k] matches Piece::NextArgument(a)
            ==> is_default_format(a.format))
}

proof fn lemma_build_stays_implicit<T: ParseTarget>(
    target: &T,
    input: Seq<char>,
    pieces: Seq<Piece>,
    b: Builder,
)
    requires
        all_default(pieces),
        b.fmt is None,
        b.args.len() == b.fmt_len,
    ensures
        build_from(target, input, pieces, b) matches Ok(done) ==> done.fmt is None
            && done.args.len() == done.fmt_len,
    decreases pieces.len(),
{
    if pieces.len() > 0 {
        let first = pieces[0];
        match add_piece(target, input, b, first) {
            Ok(next) => {
                assert forall|k: int| 0 <= k < pieces.drop_first().len() implies (
                #[trigger] pieces.drop_first()[k] matches Piece::NextArgument(a)
                    ==> is_default_format(a.format)) by {
                    assert(pieces.drop_first()[k] == pieces[k + 1]);
                }
                lemma_build_stays_implicit(target, input, pieces.drop_first(), next);
            },
            Err(_) => {},
        }
    }
}

/// A format string in which every argument reference has the default
/// specifier gives a plan without explicit specifiers, whatever the
/// positions of the references are.
pub proof fn law_fast_path<T: ParseTarget>(target: &T, text: Seq<char>)
    requires
        all_default(tokenize(text).pieces),
    ensures
        outcome(target, text) matches Ok(plan) ==> plan.fmt is None,
{
    lemma_build_stays_implicit(target, text, tokenize(text).pieces, start());
}

/// The plan of a text without argument references: the text itself.
pub open spec fn literal_plan(text: Seq<char>) -> PlanView {
    PlanView { pieces: seq![text], args: Seq::empty(), fmt: None }
}

/// `{{`, text without braces, `}}`.
pub open spec fn escaped(x: Seq<char>) -> Seq<char> {
    seq!['{', '{'] + x + seq!['}', '}']
}

/// `{`, text, `}`.
pub open spec fn braced(x: Seq<char>) -> Seq<char> {
    seq!['{'] + x + seq!['}']
}

/// Text free of braces between `{{` and `}}` is parsed, against any target,
/// to the plan of that text between `{` and `}`, and is rendered as that,
/// whatever the values are.
pub proof fn law_escape_round_trip<T: ParseTarget>(
    target: &T,
    x: Seq<char>,
    params: Seq<ParamView>,
)
    requires
        forall|i: int| 0 <= i < x.len() ==> !is_brace(#[trigger] x[i]),
        x.len() + 4 <= usize::MAX,
    ensures
        outcome(target, escaped(x)) == Ok::<PlanView, ErrorView>(literal_plan(braced(x))),
        render_plan(literal_plan(braced(x)), params) == Ok::<Seq<char>, ErrorView>(braced(x)),
{
    let s = escaped(x);
    let n = x.len() as int;
    assert(s.len() == n + 4);
    assert(s[0] == '{' && s[1] == '{');
    assert(s[n + 2] == '}' && s[n + 3] == '}');
    assert forall|k: int| 2 <= k < n + 2 implies !is_brace(#[trigger] s[k]) by {
        assert(s[k] == x[k - 2]);
    }
    lemma_literal_end_bounds(s, 2);
    let e = literal_end(s, 2);
    assert(e == n + 2) by {
        if e < n + 2 {
            assert(is_brace(s[e]));
        }
        if e > n + 2 {
            assert(!is_brace(s[n + 2]));
        }
    }
    let first = next_piece(s, 0);
    assert(first.piece == Some(Piece::String(span_of(1, n + 2))));
    assert(first.end == n + 2);
    assert(first.errors =~= Seq::empty());
    let second = next_piece(s, n + 2);
    assert(literal_end(s, n + 4) == n + 4);
    assert(second.piece == Some(Piece::String(span_of(n + 3, n + 4))));
    assert(second.end == n + 4);
    assert(second.errors =~= Seq::empty());
    let rest2 = tokenize_from(s, n + 4);
    assert(rest2.pieces =~= Seq::empty() && rest2.errors =~= Seq::empty());
    let rest1 = tokenize_from(s, n + 2);
    assert(rest1.pieces =~= seq![Piece::String(span_of(n + 3, n + 4))]);
    assert(rest1.errors =~= Seq::empty());
    let all = tokenize(s);
    let opening = Piece::String(span_of(1, n + 2));
    let closing = Piece::String(span_of(n + 3, n + 4));
    assert(all.pieces =~= seq![opening, closing]);
    assert(all.errors =~= Seq::empty());

    let t1 = span_text(s, span_of(1, n + 2));
    let t2 = span_text(s, span_of(n + 3, n + 4));
    assert(t1 + t2 =~= braced(x));
    let b0 = start();
    let b1 = add_text(b0, t1);
    let b2 = add_text(b1, t2);
    assert(b2.accum =~= braced(x));
    assert(add_piece(target, s, b0, opening) == Ok::<Builder, ErrorView>(b1));
    assert(add_piece(target, s, b1, closing) == Ok::<Builder, ErrorView>(b2));
    let tail1 = all.pieces.drop_first();
    assert(tail1 =~= seq![closing]);
    assert(tail1.drop_first() =~= Seq::<Piece>::empty());
    assert(build_from(target, s, tail1.drop_first(), b2) == Ok::<Builder, ErrorView>(b2));
    assert(build_from(target, s, tail1, b1) == Ok::<Builder, ErrorView>(b2));
    assert(build_from(target, s, all.pieces, b0) == Ok::<Builder, ErrorView>(b2));
    assert(finish(b2).pieces =~= seq![braced(x)]);
    assert(finish(b2) == literal_plan(braced(x)));

    let plan = literal_plan(braced(x));
    assert(entries_of(plan) =~= Seq::empty());
    assert(Seq::<char>::empty() + plan.pieces[0] =~= braced(x));
}

proof fn lemma_entries_ignore_tail(
    pieces: Seq<Seq<char>>,
    other: Seq<Seq<char>>,
    plan: PlanView,
    params: Seq<ParamView>,
    n: nat,
)
    requires
        forall|k: int| 0 <= k < n ==> pieces[k] == other[k],
    ensures
        render_entries(pieces, entries_of(plan), plan.args, params, n) == render_entries(
            other,
            entries_of(plan),
            plan.args,
            params,
            n,
        ),
    decreases n,
{
    if n > 0 {
        lemma_entries_ignore_tail(pieces, other, plan, params, (n - 1) as nat);
    }
}

/// A plan with a line feed appended renders, for any values, to what it
/// rendered to before and a line feed; where it failed it fails as before.
pub proof fn law_newln_appends(plan: PlanView, params: Seq<ParamView>)
    requires
        plan_wf(plan),
    ensures
        plan_wf(plan_newln(plan)),
        match render_plan(plan, params) {
            Ok(t) => render_plan(plan_newln(plan), params) == Ok::<Seq<char>, ErrorView>(
                t.push('\n'),
            ),
            Err(e) => render_plan(plan_newln(plan), params) == Err::<Seq<char>, ErrorView>(e),
        },
{
    let after = plan_newln(plan);
    let n = entries_of(plan).len();
    assert(entries_of(after) == entries_of(plan));
    assert(n <= plan.pieces.len() <= n + 1);
    lemma_entries_ignore_tail(plan.pieces, after.pieces, plan, params, n);
    match render_entries(plan.pieces, entries_of(plan), plan.args, params, n) {
        Ok(t) => {
            if plan.pieces.len() > n {
                assert(after.pieces[n as int] =~= plan.pieces[n as int].push('\n'));
                assert(t + after.pieces[n as int] =~= (t + plan.pieces[n as int]).push('\n'));
            } else {
                assert(after.pieces[n as int] =~= seq!['\n']);
                assert(t + after.pieces[n as int] =~= t.push('\n'));
            }
        },
        Err(_) => {},
    }
}

/// How many of `pieces` are argument references.
pub open spec fn references(pieces: Seq<Piece>) -> nat
    decreases pieces.len(),
{
    if pieces.len() == 0 {
        0
    } else {
        references(pieces.drop_first()) + if pieces[0] is NextArgument {
            1nat
        } else {
            0nat
        }
    }
}

spec fn counted_so_far(b: Builder) -> bool {
    &&& b.pieces.len() == b.fmt_len
    &&& match b.fmt {
        None => b.args.len() == b.fmt_len,
        Some(f) => f.len() == b.fmt_len,
    }
}

proof fn lemma_build_counts<T: ParseTarget>(
    target: &T,
    input: Seq<char>,
    pieces: Seq<Piece>,
    b: Builder,
)
    requires
        counted_so_far(b),
    ensures
        build_from(target, input, pieces, b) matches Ok(done) ==> counted_so_far(done)
            && done.fmt_len == b.fmt_len + references(pieces),
    decreases pieces.len(),
{
    if pieces.len() > 0 {
        match add_piece(target, input, b, pieces[0]) {
            Ok(next) => {
                lemma_build_counts(target, input, pieces.drop_first(), next);
            },
            Err(_) => {},
        }
    }
}

/// A plan has one specifier for each argument reference of the format
/// string, explicit or not, and one literal text before each; after the
/// last there is one more if and only if text follows the last reference.
pub proof fn law_one_text_before_each_reference<T: ParseTarget>(target: &T, text: Seq<char>)
    ensures
        outcome(target, text) matches Ok(plan) ==> {
            &&& entries_of(plan).len() == references(tokenize(text).pieces)
            &&& entries_of(plan).len() <= plan.pieces.len() <= entries_of(plan).len() + 1
            &&& plan.pieces.len() == entries_of(plan).len() + 1 ==> plan.pieces.last().len() > 0
        },
{
    lemma_build_counts(target, text, tokenize(text).pieces, start());
}

/// Are the first `k` of `pieces` literal text?
pub open spec fn literal_before(pieces: Seq<Piece>, k: int) -> bool {
    forall|j: int| 0 <= j < k ==> (#[trigger] pieces[j]) is String
}

/// Do two states of a build differ in nothing but the literal text that is
/// being read?
pub open spec fn same_but_text(a: Builder, b: Builder) -> bool {
    &&& a.pieces == b.pieces
    &&& a.args == b.args
    &&& a.fmt == b.fmt
    &&& a.fmt_len == b.fmt_len
    &&& a.cursor == b.cursor
}

proof fn lemma_first_reference<T: ParseTarget>(
    target: &T,
    input: Seq<char>,
    pieces: Seq<Piece>,
    k: int,
    a: ArgumentRef,
    b: Builder,
    e: ErrorView,
)
    requires
        0 <= k < pieces.len(),
        literal_before(pieces, k),
        pieces[k] == Piece::NextArgument(a),
        same_but_text(b, start()),
        add_argument(target, input, start(), a) == Err::<Builder, ErrorView>(e),
    ensures
        build_from(target, input, pieces, b) == Err::<Builder, ErrorView>(e),
    decreases k,
{
    if k == 0 {
        assert(add_argument(target, input, b, a) == Err::<Builder, ErrorView>(e));
    } else {
        assert(pieces[0] is String);
        let next = add_piece(target, input, b, pieces[0])->Ok_0;
        let rest = pieces.drop_first();
        assert(rest[k - 1] == pieces[k]);
        assert forall|j: int| 0 <= j < k - 1 implies (#[trigger] rest[j]) is String by {
            assert(rest[j] == pieces[j + 1]);
        }
        lemma_first_reference(target, input, rest, k - 1, a, next, e);
    }
}

/// The first argument reference of a format string decides: if it cannot be
/// resolved, parsing fails with its error, whatever follows.
pub proof fn law_first_reference_fails<T: ParseTarget>(
    target: &T,
    input: Seq<char>,
    pieces: Seq<Piece>,
    k: int,
    a: ArgumentRef,
    e: ErrorView,
)
    requires
        0 <= k < pieces.len(),
        literal_before(pieces, k),
        pieces[k] == Piece::NextArgument(a),
        add_argument(target, input, start(), a) == Err::<Builder, ErrorView>(e),
    ensures
        plan_of(target, input, pieces) == Err::<PlanView, ErrorView>(e),
{
    lemma_first_reference(target, input, pieces, k, a, start(), e);
}

/// A reference by position to an argument that the target does not have
/// fails with `BadIndex` and that position: a written index with that
/// index, an implicit reference without a `*` with index zero.
pub proof fn law_index_out_of_range<T: ParseTarget>(
    target: &T,
    input: Seq<char>,
    pieces: Seq<Piece>,
    k: int,
    a: ArgumentRef,
    i: usize,
)
    requires
        0 <= k < pieces.len(),
        literal_before(pieces, k),
        pieces[k] == Piece::NextArgument(a),
        a.position == Position::Positional(i) || (a.position == Position::Implicit && i == 0
            && !is_star(a.format.precision) && !is_star(a.format.width)),
        !target.index_valid(i),
    ensures
        plan_of(target, input, pieces) == Err::<PlanView, ErrorView>(ErrorView::BadIndex(i)),
{
    law_first_reference_fails(target, input, pieces, k, a, ErrorView::BadIndex(i));
}

/// A reference by a name that the target does not know fails with
/// `BadName` and that name.
pub proof fn law_unknown_name<T: ParseTarget>(
    target: &T,
    input: Seq<char>,
    pieces: Seq<Piece>,
    k: int,
    a: ArgumentRef,
    name: Span,
)
    requires
        0 <= k < pieces.len(),
        literal_before(pieces, k),
        pieces[k] == Piece::NextArgument(a),
        a.position == Position::Named(name),
        target.name_index(span_text(input, name)) is None,
    ensures
        plan_of(target, input, pieces) == Err::<PlanView, ErrorView>(
            ErrorView::BadName(span_text(input, name)),
        ),
{
    law_first_reference_fails(
        target,
        input,
        pieces,
        k,
        a,
        ErrorView::BadName(span_text(input, name)),
    );
}

/// A reference to an argument that does not support the display kind that
/// is asked for fails with `UnsatisfiedFormat`, the argument and the name
/// of the kind; a code that names no kind fails with `NoSuchFormat`.
pub proof fn law_kind_not_supported<T: ParseTarget>(
    target: &T,
    input: Seq<char>,
    pieces: Seq<Piece>,
    k: int,
    a: ArgumentRef,
    idx: usize,
)
    requires
        0 <= k < pieces.len(),
        literal_before(pieces, k),
        pieces[k] == Piece::NextArgument(a),
        resolve_position(target, input, a.position, position_cursor(start(), a)) == Ok::<
            usize,
            ErrorView,
        >(idx),
    ensures
        match FormatTrait::of_code(span_text(input, a.format.ty)) {
            None => plan_of(target, input, pieces) == Err::<PlanView, ErrorView>(
                ErrorView::NoSuchFormat(span_text(input, a.format.ty)),
            ),
            Some(kind) => !target.supports(kind, idx) ==> plan_of(target, input, pieces) == Err::<
                PlanView,
                ErrorView,
            >(unsatisfied(idx, kind)),
        },
{
    match FormatTrait::of_code(span_text(input, a.format.ty)) {
        None => {
            law_first_reference_fails(
                target,
                input,
                pieces,
                k,
                a,
                ErrorView::NoSuchFormat(span_text(input, a.format.ty)),
            );
        },
        Some(kind) => {
            if !target.supports(kind, idx) {
                law_first_reference_fails(
                    target,
                    input,
                    pieces,
                    k,
                    a,
                    unsatisfied(idx, kind),
                );
            }
        },
    }
}

/// A precision that comes from an argument which is no count fails with
/// `BadCount` and that argument, provided that the reference itself can be
/// resolved.
pub proof fn law_count_is_no_integer<T: ParseTarget>(
    target: &T,
    input: Seq<char>,
    pieces: Seq<Piece>,
    k: int,
    a: ArgumentRef,
    from: Position,
    idx: usize,
)
    requires
        0 <= k < pieces.len(),
        literal_before(pieces, k),
        pieces[k] == Piece::NextArgument(a),
        resolve_position(target, input, a.position, position_cursor(start(), a)) is Ok,
        resolve_kind(
            target,
            input,
            a.format.ty,
            resolve_position(target, input, a.position, position_cursor(start(), a))->Ok_0,
        ) is Ok,
        a.format.precision == Count::FromArgument(from),
        resolve_position(target, input, from, 0) == Ok::<usize, ErrorView>(idx),
        !target.countable(idx),
    ensures
        plan_of(target, input, pieces) == Err::<PlanView, ErrorView>(ErrorView::BadCount(idx)),
{
    law_first_reference_fails(target, input, pieces, k, a, ErrorView::BadCount(idx));
}

/// Do the values have every argument that the target has, each with a value
/// that supports what the target says the argument supports?
pub open spec fn conforms<T: ParseTarget>(target: &T, params: Seq<ParamView>) -> bool {
    forall|i: usize| #[trigger]
        target.index_valid(i) ==> i < params.len() && (forall|k: FormatTrait| #[trigger]
            target.supports(k, i) ==> k.spec_allowed(params[i as int].value.ty()))
}

proof fn lemma_only_counts_fail<T: ParseTarget>(
    target: &T,
    plan: PlanView,
    params: Seq<ParamView>,
    n: nat,
)
    requires
        plan_wf(plan),
        args_fit(target, plan.args),
        conforms(target, params),
        plan.args.len() <= usize::MAX,
        n <= entries_of(plan).len(),
    ensures
        render_entries(plan.pieces, entries_of(plan), plan.args, params, n) matches Err(e)
            ==> e is BadCount,
    decreases n,
{
    if n > 0 {
        lemma_only_counts_fail(target, plan, params, (n - 1) as nat);
        let e = entries_of(plan)[n - 1];
        assert(entry_wf(e, plan.args)) by {
            match plan.fmt {
                Some(f) => {
                    assert(entry_wf(f[n - 1], plan.args));
                },
                None => {
                    assert(plan.args[n - 1].role is Format);
                },
            }
        }
        let a = plan.args[e.position as int];
        assert(arg_fits(target, a));
        assert(target.index_valid(a.index));
        assert(count_value(e.format.precision, plan.args, params) matches Err(x) ==> x
            is BadCount) by {
            match e.format.precision {
                ResolvedCount::Param(j) => {
                    assert(arg_fits(target, plan.args[j as int]));
                    assert(target.index_valid(plan.args[j as int].index));
                },
                _ => {},
            }
        }
        assert(count_value(e.format.width, plan.args, params) matches Err(x) ==> x is BadCount)
            by {
            match e.format.width {
                ResolvedCount::Param(j) => {
                    assert(arg_fits(target, plan.args[j as int]));
                    assert(target.index_valid(plan.args[j as int].index));
                },
                _ => {},
            }
        }
    }
}

/// What was checked when a format string was parsed need not be checked
/// again: for values that conform to the target, a plan made against that
/// target renders, or fails because a count cannot be had; it fails in no
/// other way.
pub proof fn law_checked_once<T: ParseTarget>(target: &T, plan: PlanView, params: Seq<ParamView>)
    requires
        plan_wf(plan),
        args_fit(target, plan.args),
        conforms(target, params),
        plan.args.len() <= usize::MAX,
    ensures
        render_plan(plan, params) matches Err(e) ==> e is BadCount,
{
    lemma_only_counts_fail(target, plan, params, entries_of(plan).len());
}

/// The plan of one reference, with the default specifier, to argument
/// `idx`.
pub open spec fn reference_plan(idx: usize) -> PlanView {
    PlanView {
        pieces: seq![Seq::empty()],
        args: seq![format_argument(idx, FormatTrait::Display)],
        fmt: None,
    }
}

/// A format string that is one reference with the default specifier, to an
/// argument that the target has and that supports `Display`, gives a plan
/// that renders, for any values that have the argument with a value that
/// supports `Display`, to what `Display` renders for that value, each time
/// it is rendered.
pub proof fn law_reference_renders_argument<T: ParseTarget>(
    target: &T,
    input: Seq<char>,
    a: ArgumentRef,
    idx: usize,
    params: Seq<ParamView>,
)
    requires
        is_default_format(a.format),
        a.format.ty.end <= input.len(),
        resolve_position(target, input, a.position, 0) == Ok::<usize, ErrorView>(idx),
        target.supports(FormatTrait::Display, idx),
        idx < params.len(),
        FormatTrait::Display.spec_allowed(params[idx as int].value.ty()),
    ensures
        plan_of(target, input, seq![Piece::NextArgument(a)]) == Ok::<PlanView, ErrorView>(
            reference_plan(idx),
        ),
        render_plan(reference_plan(idx), params) == Ok::<Seq<char>, ErrorView>(
            render_value(FormatTrait::Display, params[idx as int], default_layout()),
        ),
{
    let pieces = seq![Piece::NextArgument(a)];
    let b0 = start();
    assert(span_text(input, a.format.ty) =~= Seq::<char>::empty());
    assert(resolve_kind(target, input, a.format.ty, idx) == Ok::<FormatTrait, ErrorView>(
        FormatTrait::Display,
    ));
    let b1 = advance(b0, a, b0.args.push(format_argument(idx, FormatTrait::Display)), None);
    assert(add_argument(target, input, b0, a) == Ok::<Builder, ErrorView>(b1));
    assert(pieces.drop_first() =~= Seq::<Piece>::empty());
    assert(build_from(target, input, pieces.drop_first(), b1) == Ok::<Builder, ErrorView>(b1));
    assert(build_from(target, input, pieces, b0) == Ok::<Builder, ErrorView>(b1));
    assert(finish(b1).pieces =~= seq![Seq::<char>::empty()]);
    assert(finish(b1).args =~= seq![format_argument(idx, FormatTrait::Display)]);
    assert(finish(b1) == reference_plan(idx));

    let plan = reference_plan(idx);
    let es = entries_of(plan);
    assert(es.len() == 1);
    assert(es[0] == default_entry(0));
    assert(render_entries(plan.pieces, es, plan.args, params, 0) == Ok::<Seq<char>, ErrorView>(
        Seq::empty(),
    ));
    let shown = render_value(FormatTrait::Display, params[idx as int], default_layout());
    assert(layout_of(es[0].format, plan.args, params) == Ok::<Layout, ErrorView>(
        default_layout(),
    ));
    assert(render_entry(es[0], plan.args, params) == Ok::<Seq<char>, ErrorView>(shown));
    assert(Seq::<char>::empty() + plan.pieces[0] + shown =~= shown);
    assert(render_entries(plan.pieces, es, plan.args, params, 1) == Ok::<Seq<char>, ErrorView>(
        shown,
    ));
}

/// Do two targets resolve every name and every index alike?
pub open spec fn targets_agree<A: ParseTarget, B: ParseTarget>(a: &A, b: &B) -> bool {
    &&& forall|name: Seq<char>| #[trigger] a.name_index(name) == b.name_index(name)
    &&& forall|i: usize| #[trigger] a.index_valid(i) == b.index_valid(i)
    &&& forall|k: FormatTrait, i: usize|
        #[trigger] a.supports(k, i) == b.supports(k, i)
    &&& forall|i: usize| #[trigger] a.countable(i) == b.countable(i)
}

proof fn lemma_build_agrees<A: ParseTarget, B: ParseTarget>(
    a: &A,
    b: &B,
    input: Seq<char>,
    pieces: Seq<Piece>,
    state: Builder,
)
    requires
        targets_agree(a, b),
    ensures
        build_from(a, input, pieces, state) == build_from(b, input, pieces, state),
    decreases pieces.len(),
{
    if pieces.len() > 0 {
        assert(add_piece(a, input, state, pieces[0]) == add_piece(b, input, state, pieces[0]));
        match add_piece(a, input, state, pieces[0]) {
            Ok(next) => {
                lemma_build_agrees(a, b, input, pieces.drop_first(), next);
            },
            Err(_) => {},
        }
    }
}

/// Whether a format string is parsed against values or prepared against a
/// record type makes no difference: targets that resolve names and indices
/// alike give the same plan, or fail alike.
pub proof fn law_modes_agree<A: ParseTarget, B: ParseTarget>(a: &A, b: &B, text: Seq<char>)
    requires
        targets_agree(a, b),
    ensures
        outcome(a, text) == outcome(b, text),
{
    lemma_build_agrees(a, b, text, tokenize(text).pieces, start());
}

/// Violations of the grammar come before anything else: a format string
/// that has any fails with all of them, whatever the target is.
pub proof fn law_syntax_first<T: ParseTarget>(target: &T, text: Seq<char>)
    requires
        tokenize(text).errors.len() > 0,
    ensures
        outcome(target, text) == Err::<PlanView, ErrorView>(
            ErrorView::BadSyntax(syntax_diagnostics(tokenize(text).errors)),
        ),
{
}

} // verus!
