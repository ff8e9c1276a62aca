//! Resolving the pieces of a format string against a target and building
//! the plan: literal texts, resolved arguments, and, unless every specifier
//! is the default, one explicit specifier per argument reference.

use vstd::prelude::*;
use crate::error::{syntax_diagnostics, Error, ErrorView};
use crate::grammar::{
    clamp, is_default_format, span_text, tokenize, Alignment, ArgumentRef, Count, Flags, FormatSpec,
    Piece, Position, Span,
};
use crate::text::{push_range, string_of_range};
use crate::tokenizer::{argument_ok, count_ok, piece_ok, position_ok, span_ok, well_spanned, Parser};
use crate::value::FormatTrait;

verus! {

/// What a resolved argument is used for.
#[derive(Clone, Copy, Debug, PartialEq, Eq, Structural)]
pub enum Role {
    /// It is rendered under a display kind.
    Format(FormatTrait),
    /// It supplies a width or a precision.
    Count,
}

/// An argument reference after resolution: which argument of the target it
/// is, and what it is used for.
#[derive(Clone, Copy, Debug, PartialEq, Eq, Structural)]
pub struct ResolvedArgument {
    pub index: usize,
    pub role: Role,
}

/// A width or precision after resolution.
#[derive(Clone, Copy, Debug, PartialEq, Eq, Structural)]
pub enum ResolvedCount {
    Implied,
    /// The number itself.
    Is(usize),
    /// The resolved argument, by its place in the plan, that supplies it.
    Param(usize),
}

/// A specifier after resolution.
#[derive(Clone, Copy, Debug, PartialEq, Eq, Structural)]
pub struct Specifier {
    pub fill: char,
    pub align: Alignment,
    pub flags: Flags,
    pub precision: ResolvedCount,
    pub width: ResolvedCount,
}

/// One explicit specifier: the resolved argument to render, by its place in
/// the plan, and how.
#[derive(Clone, Copy, Debug, PartialEq, Eq, Structural)]
pub struct SpecEntry {
    pub position: usize,
    pub format: Specifier,
}

/// What a format string is resolved against.
pub trait ParseTarget {
    /// The argument that `name` stands for.
    spec fn name_index(&self, name: Seq<char>) -> Option<usize>;

    /// Is there an argument `index`?
    spec fn index_valid(&self, index: usize) -> bool;

    /// Does argument `index` support `kind`?
    spec fn supports(&self, kind: FormatTrait, index: usize) -> bool;

    /// Can argument `index` supply a count?
    spec fn countable(&self, index: usize) -> bool;

    fn validate_name(&self, name: &str) -> (r: Option<usize>)
        ensures
            r == self.name_index(name@),
            r matches Some(i) ==> self.index_valid(i),
    ;

    fn validate_index(&self, index: usize) -> (r: bool)
        ensures
            r == self.index_valid(index),
    ;

    fn format(&self, kind: FormatTrait, idx: usize) -> (r: bool)
        requires
            self.index_valid(idx),
        ensures
            r == self.supports(kind, idx),
    ;

    fn format_usize(&self, idx: usize) -> (r: bool)
        requires
            self.index_valid(idx),
        ensures
            r == self.countable(idx),
    ;
}

/// A plan, mathematically.
pub struct PlanView {
    pub pieces: Seq<Seq<char>>,
    pub args: Seq<ResolvedArgument>,
    pub fmt: Option<Seq<SpecEntry>>,
}

/// The state of building a plan.
pub struct Builder {
    /// The literal texts that are complete.
    pub pieces: Seq<Seq<char>>,
    pub args: Seq<ResolvedArgument>,
    pub fmt: Option<Seq<SpecEntry>>,
    /// How many argument references have been taken.
    pub fmt_len: nat,
    /// The literal text since the last argument reference.
    pub accum: Seq<char>,
    /// The next argument to take implicitly.
    pub cursor: nat,
}

pub open spec fn start() -> Builder {
    Builder {
        pieces: Seq::empty(),
        args: Seq::empty(),
        fmt: None,
        fmt_len: 0,
        accum: Seq::empty(),
        cursor: 0,
    }
}

pub open spec fn default_specifier() -> Specifier {
    Specifier {
        fill: ' ',
        align: Alignment::Unknown,
        flags: Flags { sign_plus: false, alternate: false, zero_pad: false },
        precision: ResolvedCount::Implied,
        width: ResolvedCount::Implied,
    }
}

pub open spec fn default_entry(i: int) -> SpecEntry {
    SpecEntry { position: i as usize, format: default_specifier() }
}

/// The explicit specifiers of `n` references that were all `{}`.
pub open spec fn default_entries(n: nat) -> Seq<SpecEntry> {
    Seq::new(n, |i: int| default_entry(i))
}

pub open spec fn format_argument(index: usize, kind: FormatTrait) -> ResolvedArgument {
    ResolvedArgument { index, role: Role::Format(kind) }
}

pub open spec fn count_argument(index: usize) -> ResolvedArgument {
    ResolvedArgument { index, role: Role::Count }
}

pub open spec fn bad_index(i: usize) -> ErrorView {
    ErrorView::BadIndex(i)
}

pub open spec fn bad_name(name: Seq<char>) -> ErrorView {
    ErrorView::BadName(name)
}

pub open spec fn bad_count(i: usize) -> ErrorView {
    ErrorView::BadCount(i)
}

pub open spec fn no_such_format(code: Seq<char>) -> ErrorView {
    ErrorView::NoSuchFormat(code)
}

pub open spec fn unsatisfied(idx: usize, kind: FormatTrait) -> ErrorView {
    ErrorView::UnsatisfiedFormat { idx, must_implement: kind.spec_name() }
}

/// The argument that a position stands for, with `cursor` the next argument
/// to take implicitly.
pub open spec fn resolve_position<T: ParseTarget>(
    target: &T,
    input: Seq<char>,
    p: Position,
    cursor: nat,
) -> Result<usize, ErrorView> {
    match p {
        Position::Positional(i) => if target.index_valid(i) {
            Ok(i)
        } else {
            Err(bad_index(i))
        },
        Position::Named(span) => match target.name_index(span_text(input, span)) {
            Some(i) => Ok(i),
            None => Err(bad_name(span_text(input, span))),
        },
        Position::Implicit => if target.index_valid(clamp(cursor)) {
            Ok(clamp(cursor))
        } else {
            Err(bad_index(clamp(cursor)))
        },
    }
}

/// The display kind that a code stands for, if argument `idx` supports it.
pub open spec fn resolve_kind<T: ParseTarget>(
    target: &T,
    input: Seq<char>,
    ty: Span,
    idx: usize,
) -> Result<FormatTrait, ErrorView> {
    match FormatTrait::of_code(span_text(input, ty)) {
        None => Err(no_such_format(span_text(input, ty))),
        Some(k) => if target.supports(k, idx) {
            Ok(k)
        } else {
            Err(unsatisfied(idx, k))
        },
    }
}

/// A resolved count, with the resolved arguments after it.
pub struct CountResult {
    pub count: ResolvedCount,
    pub args: Seq<ResolvedArgument>,
}

pub open spec fn count_result(count: ResolvedCount, args: Seq<ResolvedArgument>) -> CountResult {
    CountResult { count, args }
}

/// A width or precision resolved: a count that comes from an argument adds
/// that argument to the plan.
pub open spec fn resolve_count<T: ParseTarget>(
    target: &T,
    input: Seq<char>,
    c: Count,
    cursor: nat,
    args: Seq<ResolvedArgument>,
) -> Result<CountResult, ErrorView> {
    match c {
        Count::Implied => Ok(count_result(ResolvedCount::Implied, args)),
        Count::Literal(n) => Ok(count_result(ResolvedCount::Is(n), args)),
        Count::FromArgument(p) => match resolve_position(target, input, p, cursor) {
            Err(e) => Err(e),
            Ok(idx) => if target.countable(idx) {
                Ok(
                    count_result(
                        ResolvedCount::Param(args.len() as usize),
                        args.push(count_argument(idx)),
                    ),
                )
            } else {
                Err(bad_count(idx))
            },
        },
    }
}

pub open spec fn is_star(c: Count) -> bool {
    c == Count::FromArgument(Position::Implicit)
}

pub open spec fn one_if(b: bool) -> nat {
    if b {
        1
    } else {
        0
    }
}

/// The cursor after an argument reference: every `*` and an implicit
/// position take one argument each.
pub open spec fn cursor_after(cursor: nat, a: ArgumentRef) -> nat {
    cursor + one_if(is_star(a.format.precision)) + one_if(is_star(a.format.width)) + one_if(
        a.position == Position::Implicit,
    )
}

pub open spec fn entry_of(
    position: usize,
    f: FormatSpec,
    precision: ResolvedCount,
    width: ResolvedCount,
) -> SpecEntry {
    SpecEntry {
        position,
        format: Specifier {
            fill: match f.fill {
                Some(c) => c,
                None => ' ',
            },
            align: f.align,
            flags: f.flags,
            precision,
            width,
        },
    }
}

pub open spec fn entries_so_far(b: Builder) -> Seq<SpecEntry> {
    match b.fmt {
        Some(e) => e,
        None => default_entries(b.fmt_len),
    }
}

pub open spec fn advance(
    b: Builder,
    a: ArgumentRef,
    args: Seq<ResolvedArgument>,
    fmt: Option<Seq<SpecEntry>>,
) -> Builder {
    Builder {
        pieces: b.pieces.push(b.accum),
        args,
        fmt,
        fmt_len: b.fmt_len + 1,
        accum: Seq::empty(),
        cursor: cursor_after(b.cursor, a),
    }
}

/// Must the plan hold explicit specifiers once `a` is taken?
pub open spec fn explicit_after(b: Builder, a: ArgumentRef) -> bool {
    b.fmt is Some || !is_default_format(a.format) || b.args.len() != b.fmt_len
}

/// The precision's `*` takes its argument first, the width's next, an
/// implicit position last.
pub open spec fn precision_cursor(b: Builder, a: ArgumentRef) -> nat {
    b.cursor
}

pub open spec fn width_cursor(b: Builder, a: ArgumentRef) -> nat {
    b.cursor + one_if(is_star(a.format.precision))
}

pub open spec fn position_cursor(b: Builder, a: ArgumentRef) -> nat {
    b.cursor + one_if(is_star(a.format.precision)) + one_if(is_star(a.format.width))
}

/// The specifier of `a` resolved and added, with `args` the resolved
/// arguments up to and including the one that `a` renders.
pub open spec fn add_specifier<T: ParseTarget>(
    target: &T,
    input: Seq<char>,
    b: Builder,
    a: ArgumentRef,
    args: Seq<ResolvedArgument>,
) -> Result<Builder, ErrorView> {
    match resolve_count(target, input, a.format.precision, precision_cursor(b, a), args) {
        Err(e) => Err(e),
        Ok(p) => match resolve_count(target, input, a.format.width, width_cursor(b, a), p.args) {
            Err(e) => Err(e),
            Ok(w) => Ok(
                advance(
                    b,
                    a,
                    w.args,
                    Some(
                        entries_so_far(b).push(
                            entry_of(b.args.len() as usize, a.format, p.count, w.count),
                        ),
                    ),
                ),
            ),
        },
    }
}

/// An argument reference taken: the literal text before it is complete,
/// position and display kind are resolved, and the specifier is added
/// unless all specifiers so far, this one included, are the default.
pub open spec fn add_argument<T: ParseTarget>(
    target: &T,
    input: Seq<char>,
    b: Builder,
    a: ArgumentRef,
) -> Result<Builder, ErrorView> {
    match resolve_position(target, input, a.position, position_cursor(b, a)) {
        Err(e) => Err(e),
        Ok(idx) => match resolve_kind(target, input, a.format.ty, idx) {
            Err(e) => Err(e),
            Ok(kind) => if explicit_after(b, a) {
                add_specifier(target, input, b, a, b.args.push(format_argument(idx, kind)))
            } else {
                Ok(advance(b, a, b.args.push(format_argument(idx, kind)), None))
            },
        },
    }
}

pub open spec fn add_text(b: Builder, text: Seq<char>) -> Builder {
    Builder {
        pieces: b.pieces,
        args: b.args,
        fmt: b.fmt,
        fmt_len: b.fmt_len,
        accum: b.accum + text,
        cursor: b.cursor,
    }
}

pub open spec fn add_piece<T: ParseTarget>(
    target: &T,
    input: Seq<char>,
    b: Builder,
    piece: Piece,
) -> Result<Builder, ErrorView> {
    match piece {
        Piece::String(span) => Ok(add_text(b, span_text(input, span))),
        Piece::NextArgument(a) => add_argument(target, input, b, a),
    }
}

/// All of `pieces` taken in order, up to the first that fails.
pub open spec fn build_from<T: ParseTarget>(
    target: &T,
    input: Seq<char>,
    pieces: Seq<Piece>,
    b: Builder,
) -> Result<Builder, ErrorView>
    decreases pieces.len(),
{
    if pieces.len() == 0 {
        Ok(b)
    } else {
        match add_piece(target, input, b, pieces[0]) {
            Err(e) => Err(e),
            Ok(next) => build_from(target, input, pieces.drop_first(), next),
        }
    }
}

/// The plan of a finished build: literal text after the last argument
/// reference is kept only if there is any.
pub open spec fn finish(b: Builder) -> PlanView {
    PlanView {
        pieces: if b.accum.len() > 0 {
            b.pieces.push(b.accum)
        } else {
            b.pieces
        },
        args: b.args,
        fmt: b.fmt,
    }
}

/// The plan for the pieces of a format string, or the first error of
/// resolution.
pub open spec fn plan_of<T: ParseTarget>(target: &T, input: Seq<char>, pieces: Seq<Piece>)
    -> Result<PlanView, ErrorView> {
    match build_from(target, input, pieces, start()) {
        Err(e) => Err(e),
        Ok(b) => Ok(finish(b)),
    }
}

/// What parsing `text` against `target` gives: all violations of the
/// grammar if there is any, else the plan or the first error of resolution.
pub open spec fn outcome<T: ParseTarget>(target: &T, text: Seq<char>) -> Result<
    PlanView,
    ErrorView,
> {
    if tokenize(text).errors.len() > 0 {
        Err(ErrorView::BadSyntax(syntax_diagnostics(tokenize(text).errors)))
    } else {
        plan_of(target, text, tokenize(text).pieces)
    }
}

/// A count that comes from an argument names a resolved argument that
/// supplies counts.
pub open spec fn count_wf(c: ResolvedCount, args: Seq<ResolvedArgument>) -> bool {
    c matches ResolvedCount::Param(j) ==> j < args.len() && args[j as int].role is Count
}

/// An explicit specifier names a resolved argument that is rendered, and its
/// counts are well-formed.
pub open spec fn entry_wf(e: SpecEntry, args: Seq<ResolvedArgument>) -> bool {
    &&& e.position < args.len()
    &&& args[e.position as int].role is Format
    &&& count_wf(e.format.precision, args)
    &&& count_wf(e.format.width, args)
}

/// The shape that every plan has: without explicit specifiers every
/// resolved argument is rendered, in order; with them, each is well-formed;
/// and there is one literal text before each argument reference, and at most
/// one after the last.
pub open spec fn plan_wf(plan: PlanView) -> bool {
    match plan.fmt {
        None => {
            &&& plan.args.len() <= plan.pieces.len() <= plan.args.len() + 1
            &&& forall|i: int| 0 <= i < plan.args.len() ==> (#[trigger] plan.args[i]).role is Format
        },
        Some(f) => {
            &&& f.len() <= plan.pieces.len() <= f.len() + 1
            &&& forall|k: int| 0 <= k < f.len() ==> entry_wf(#[trigger] f[k], plan.args)
        },
    }
}

/// Does the target have what a resolved argument asks of it?
pub open spec fn arg_fits<T: ParseTarget>(target: &T, a: ResolvedArgument) -> bool {
    &&& target.index_valid(a.index)
    &&& match a.role {
        Role::Format(k) => target.supports(k, a.index),
        Role::Count => target.countable(a.index),
    }
}

/// Does the target have what the resolved arguments ask of it?
pub open spec fn args_fit<T: ParseTarget>(target: &T, args: Seq<ResolvedArgument>) -> bool {
    forall|i: int| 0 <= i < args.len() ==> arg_fits(target, #[trigger] args[i])
}

pub open spec fn builder_wf(b: Builder) -> bool {
    &&& b.pieces.len() == b.fmt_len
    &&& match b.fmt {
        None => {
            &&& b.args.len() == b.fmt_len
            &&& forall|i: int| 0 <= i < b.args.len() ==> (#[trigger] b.args[i]).role is Format
        },
        Some(f) => {
            &&& f.len() == b.fmt_len
            &&& forall|k: int| 0 <= k < f.len() ==> entry_wf(#[trigger] f[k], b.args)
        },
    }
}

pub open spec fn texts(v: Seq<String>) -> Seq<Seq<char>> {
    Seq::new(v.len(), |i: int| v[i]@)
}

/// A parsed format string, resolved against a target.
pub struct Parsed {
    pub pieces: Vec<String>,
    pub args: Vec<ResolvedArgument>,
    pub fmt: Option<Vec<SpecEntry>>,
}

impl View for Parsed {
    type V = PlanView;

    open spec fn view(&self) -> PlanView {
        PlanView {
            pieces: texts(self.pieces@),
            args: self.args@,
            fmt: match self.fmt {
                Some(v) => Some(v@),
                None => None,
            },
        }
    }
}

impl Clone for Parsed {
    fn clone(&self) -> (r: Self)
        ensures
            r@ == self@,
    {
        let mut pieces: Vec<String> = Vec::new();
        let mut i: usize = 0;
        while i < self.pieces.len()
            invariant
                i <= self.pieces.len(),
                pieces.len() == i,
                forall|k: int| 0 <= k < i ==> (#[trigger] pieces@[k])@ == self.pieces@[k]@,
            decreases self.pieces.len() - i,
        {
            pieces.push(self.pieces[i].as_str().to_owned());
            i += 1;
        }
        assert(texts(pieces@) =~= texts(self.pieces@));
        let args = copy_all(&self.args);
        let fmt = match &self.fmt {
            Some(f) => Some(copy_all(f)),
            None => None,
        };
        Parsed { pieces, args, fmt }
    }
}

fn copy_all<T: Copy>(v: &Vec<T>) -> (r: Vec<T>)
    ensures
        r@ == v@,
{
    let mut r: Vec<T> = Vec::new();
    let mut i: usize = 0;
    while i < v.len()
        invariant
            i <= v.len(),
            r@ == v@.take(i as int),
        decreases v.len() - i,
    {
        r.push(v[i]);
        i += 1;
        assert(r@ =~= v@.take(i as int));
    }
    assert(v@.take(v.len() as int) =~= v@);
    r
}

fn next_cursor(cursor: usize, Ghost(c): Ghost<nat>, take: bool) -> (r: usize)
    requires
        cursor == clamp(c),
    ensures
        r == clamp(c + one_if(take)),
{
    if take && cursor < usize::MAX {
        cursor + 1
    } else {
        cursor
    }
}

fn position_is_implicit(p: Position) -> (r: bool)
    ensures
        r == (p == Position::Implicit),
{
    match p {
        Position::Implicit => true,
        _ => false,
    }
}

fn count_is_star(c: Count) -> (r: bool)
    ensures
        r == is_star(c),
{
    match c {
        Count::FromArgument(p) => position_is_implicit(p),
        _ => false,
    }
}

fn format_is_default(f: &FormatSpec) -> (r: bool)
    ensures
        r == is_default_format(*f),
{
    let no_fill = match f.fill {
        None => true,
        Some(_) => false,
    };
    let no_align = match f.align {
        Alignment::Unknown => true,
        _ => false,
    };
    let no_precision = match f.precision {
        Count::Implied => true,
        _ => false,
    };
    let no_width = match f.width {
        Count::Implied => true,
        _ => false,
    };
    no_fill && no_align && !f.flags.sign_plus && !f.flags.alternate && !f.flags.zero_pad
        && no_precision && no_width && f.ty.start == f.ty.end
}

/// Resolves a position against `target`.
fn position_index<T: ParseTarget>(
    target: &T,
    chars: &Vec<char>,
    p: Position,
    cursor: usize,
    Ghost(c): Ghost<nat>,
) -> (r: Result<usize, Error>)
    requires
        position_ok(p, chars.len() as int),
        cursor == clamp(c),
    ensures
        match r {
            Ok(i) => resolve_position(target, chars@, p, c) == Ok::<usize, ErrorView>(i)
                && target.index_valid(i),
            Err(e) => resolve_position(target, chars@, p, c) == Err::<usize, ErrorView>(e@),
        },
{
    match p {
        Position::Positional(i) => {
            if target.validate_index(i) {
                Ok(i)
            } else {
                Err(Error::BadIndex(i))
            }
        },
        Position::Named(span) => {
            let name = string_of_range(chars, span.start, span.end);
            match target.validate_name(name.as_str()) {
                Some(i) => Ok(i),
                None => Err(Error::BadName(name)),
            }
        },
        Position::Implicit => {
            if target.validate_index(cursor) {
                Ok(cursor)
            } else {
                Err(Error::BadIndex(cursor))
            }
        },
    }
}

/// Resolves the display kind of an argument reference: the resolved
/// argument that renders argument `idx` under the kind that the code names.
pub fn resolve_display<T: ParseTarget>(target: &T, chars: &Vec<char>, ty: Span, idx: usize) -> (r:
    Result<ResolvedArgument, Error>)
    requires
        span_ok(ty, chars.len() as int),
        target.index_valid(idx),
    ensures
        match r {
            Ok(a) => a.index == idx && (a.role matches Role::Format(k) && resolve_kind(
                target,
                chars@,
                ty,
                idx,
            ) == Ok::<FormatTrait, ErrorView>(k)),
            Err(e) => resolve_kind(target, chars@, ty, idx) == Err::<FormatTrait, ErrorView>(e@),
        },
{
    match FormatTrait::from_code(chars, ty.start, ty.end) {
        None => Err(Error::NoSuchFormat(string_of_range(chars, ty.start, ty.end))),
        Some(k) => {
            if target.format(k, idx) {
                Ok(ResolvedArgument { index: idx, role: Role::Format(k) })
            } else {
                Err(Error::UnsatisfiedFormat { idx, must_implement: k.name() })
            }
        },
    }
}

/// Resolves a width or precision; a count that comes from an argument
/// appends that argument to `args`.
fn resolve_count_into<T: ParseTarget>(
    target: &T,
    chars: &Vec<char>,
    c: Count,
    cursor: usize,
    Ghost(cur): Ghost<nat>,
    args: &mut Vec<ResolvedArgument>,
) -> (r: Result<ResolvedCount, Error>)
    requires
        count_ok(c, chars.len() as int),
        cursor == clamp(cur),
    ensures
        match r {
            Ok(count) => resolve_count(target, chars@, c, cur, old(args)@) == Ok::<
                CountResult,
                ErrorView,
            >(count_result(count, final(args)@)),
            Err(e) => resolve_count(target, chars@, c, cur, old(args)@) == Err::<
                CountResult,
                ErrorView,
            >(e@),
        },
        r is Ok ==> count_wf(r->Ok_0, final(args)@) && (final(args)@ == old(args)@ || (exists|
            x: ResolvedArgument,
        |
            final(args)@ == old(args)@.push(x) && x.role is Count && arg_fits(target, x))),
{
    match c {
        Count::Implied => Ok(ResolvedCount::Implied),
        Count::Literal(n) => Ok(ResolvedCount::Is(n)),
        Count::FromArgument(p) => {
            match position_index(target, chars, p, cursor, Ghost(cur)) {
                Err(e) => Err(e),
                Ok(idx) => {
                    if target.format_usize(idx) {
                        let at: usize = args.len();
                        let x = ResolvedArgument { index: idx, role: Role::Count };
                        args.push(x);
                        assert(args@ == old(args)@.push(x) && x.role is Count && arg_fits(
                            target,
                            x,
                        ));
                        Ok(ResolvedCount::Param(at))
                    } else {
                        Err(Error::BadCount(idx))
                    }
                },
            }
        },
    }
}

fn default_entries_of(n: usize) -> (v: Vec<SpecEntry>)
    ensures
        v@ == default_entries(n as nat),
{
    let mut v: Vec<SpecEntry> = Vec::new();
    let mut i: usize = 0;
    while i < n
        invariant
            i <= n,
            v@ == default_entries(i as nat),
        decreases n - i,
    {
        v.push(
            SpecEntry {
                position: i,
                format: Specifier {
                    fill: ' ',
                    align: Alignment::Unknown,
                    flags: Flags { sign_plus: false, alternate: false, zero_pad: false },
                    precision: ResolvedCount::Implied,
                    width: ResolvedCount::Implied,
                },
            },
        );
        i += 1;
        assert(v@ =~= default_entries(i as nat));
    }
    v
}

/// The exec state of a build, with the builder it stands for.
struct Building {
    pieces: Vec<String>,
    args: Vec<ResolvedArgument>,
    fmt: Option<Vec<SpecEntry>>,
    fmt_len: usize,
    accum: String,
    cursor: usize,
}

impl Building {
    spec fn model(&self, b: Builder) -> bool {
        &&& texts(self.pieces@) == b.pieces
        &&& self.args@ == b.args
        &&& match self.fmt {
            Some(v) => b.fmt == Some(v@),
            None => b.fmt is None,
        }
        &&& self.fmt_len == b.fmt_len
        &&& self.accum@ == b.accum
        &&& self.cursor == clamp(b.cursor)
    }
}

fn take_argument<T: ParseTarget>(
    target: &T,
    chars: &Vec<char>,
    state: &mut Building,
    a: ArgumentRef,
    Ghost(b): Ghost<Builder>,
) -> (r: Result<Ghost<Builder>, Error>)
    requires
        old(state).model(b),
        old(state).fmt_len < usize::MAX,
        argument_ok(a, chars.len() as int),
        builder_wf(b),
        args_fit(target, b.args),
    ensures
        match r {
            Ok(next) => add_argument(target, chars@, b, a) == Ok::<Builder, ErrorView>(next@)
                && final(state).model(next@) && builder_wf(next@) && args_fit(
                target,
                next@.args,
            ),
            Err(e) => add_argument(target, chars@, b, a) == Err::<Builder, ErrorView>(e@),
        },
{
    let precision_star = count_is_star(a.format.precision);
    let width_star = count_is_star(a.format.width);
    let implicit = position_is_implicit(a.position);
    let c_precision: usize = state.cursor;
    let c_width: usize = next_cursor(c_precision, Ghost(b.cursor), precision_star);
    let c_position: usize = next_cursor(c_width, Ghost(width_cursor(b, a)), width_star);
    let c_next: usize = next_cursor(c_position, Ghost(position_cursor(b, a)), implicit);

    let idx = match position_index(
        target,
        chars,
        a.position,
        c_position,
        Ghost(position_cursor(b, a)),
    ) {
        Ok(i) => i,
        Err(e) => {
            return Err(e);
        },
    };
    let argument = match resolve_display(target, chars, a.format.ty, idx) {
        Ok(x) => x,
        Err(e) => {
            return Err(e);
        },
    };
    let ghost kind = argument.role->Format_0;
    assert(argument == format_argument(idx, kind));
    let argument_pos: usize = state.args.len();
    let ghost args1 = b.args.push(format_argument(idx, kind));

    let explicit = state.fmt.is_some() || !format_is_default(&a.format) || argument_pos
        != state.fmt_len;
    assert(explicit == explicit_after(b, a));
    let ghost entries = entries_so_far(b);
    if explicit && state.fmt.is_none() {
        state.fmt = Some(default_entries_of(state.fmt_len));
    }
    state.args.push(argument);
    assert(state.args@ == args1);
    if explicit {
        let precision = match resolve_count_into(
            target,
            chars,
            a.format.precision,
            c_precision,
            Ghost(precision_cursor(b, a)),
            &mut state.args,
        ) {
            Ok(c) => c,
            Err(e) => {
                return Err(e);
            },
        };
        let width = match resolve_count_into(
            target,
            chars,
            a.format.width,
            c_width,
            Ghost(width_cursor(b, a)),
            &mut state.args,
        ) {
            Ok(c) => c,
            Err(e) => {
                return Err(e);
            },
        };
        let entry = SpecEntry {
            position: argument_pos,
            format: Specifier {
                fill: match a.format.fill {
                    Some(c) => c,
                    None => ' ',
                },
                align: a.format.align,
                flags: a.format.flags,
                precision,
                width,
            },
        };
        assert(entry == entry_of(argument_pos, a.format, precision, width));
        let mut list = match state.fmt.take() {
            Some(l) => l,
            None => Vec::new(),
        };
        assert(list@ == entries);
        list.push(entry);
        state.fmt = Some(list);
    }
    let mut text = String::new();
    std::mem::swap(&mut text, &mut state.accum);
    state.pieces.push(text);
    state.fmt_len = state.fmt_len + 1;
    state.cursor = c_next;
    let ghost next = add_argument(target, chars@, b, a)->Ok_0;
    proof {
        assert(texts(state.pieces@) =~= b.pieces.push(b.accum));
        assert(clamp(cursor_after(b.cursor, a)) == c_next);
    }
    Ok(Ghost(next))
}

/// Builds the plan for `pieces`, the pieces of the format string `chars`,
/// against `target`.
pub fn parse<T: ParseTarget>(chars: &Vec<char>, pieces: &Vec<Piece>, target: &T) -> (r: Result<
    Parsed,
    Error,
>)
    requires
        well_spanned(pieces@, chars.len() as int),
    ensures
        match r {
            Ok(p) => plan_of(target, chars@, pieces@) == Ok::<PlanView, ErrorView>(p@),
            Err(e) => plan_of(target, chars@, pieces@) == Err::<PlanView, ErrorView>(e@),
        },
        r matches Ok(p) ==> plan_wf(p@) && args_fit(target, p@.args),
{
    let mut state = Building {
        pieces: Vec::new(),
        args: Vec::new(),
        fmt: None,
        fmt_len: 0,
        accum: String::new(),
        cursor: 0,
    };
    let ghost mut b = start();
    assert(texts(state.pieces@) =~= b.pieces);
    assert(pieces@.skip(0) =~= pieces@);
    let mut i: usize = 0;
    while i < pieces.len()
        invariant
            i <= pieces.len(),
            well_spanned(pieces@, chars.len() as int),
            state.model(b),
            state.fmt_len <= i,
            builder_wf(b),
            args_fit(target, b.args),
            build_from(target, chars@, pieces@, start()) == build_from(
                target,
                chars@,
                pieces@.skip(i as int),
                b,
            ),
        decreases pieces.len() - i,
    {
        let piece = pieces[i];
        assert(piece_ok(pieces@[i as int], chars.len() as int));
        assert(pieces@.skip(i as int)[0] == piece);
        assert(pieces@.skip(i as int).drop_first() =~= pieces@.skip(i + 1));
        match piece {
            Piece::String(span) => {
                push_range(&mut state.accum, chars, span.start, span.end);
                proof {
                    b = add_text(b, span_text(chars@, span));
                }
            },
            Piece::NextArgument(a) => {
                match take_argument(target, chars, &mut state, a, Ghost(b)) {
                    Ok(next) => {
                        proof {
                            b = next@;
                        }
                    },
                    Err(e) => {
                        return Err(e);
                    },
                }
            },
        }
        i += 1;
    }
    assert(pieces@.skip(pieces.len() as int) =~= Seq::<Piece>::empty());
    if state.accum.as_str().unicode_len() > 0 {
        state.pieces.push(state.accum);
        assert(texts(state.pieces@) =~= b.pieces.push(b.accum));
    }
    Ok(Parsed { pieces: state.pieces, args: state.args, fmt: state.fmt })
}

/// Parses `spec` against `target`: tokenizes all of it, and builds the plan
/// if the grammar was kept.
pub fn outer_parse<T: ParseTarget>(spec: &str, target: &T) -> (r: Result<Parsed, Error>)
    ensures
        match r {
            Ok(p) => outcome(target, spec@) == Ok::<PlanView, ErrorView>(p@),
            Err(e) => outcome(target, spec@) == Err::<PlanView, ErrorView>(e@),
        },
        r matches Ok(p) ==> plan_wf(p@) && args_fit(target, p@.args),
{
    let mut parser = Parser::new(spec);
    let pieces = parser.collect();
    assert(parser.diagnostics() =~= tokenize(spec@).errors);
    if parser.errors().len() > 0 {
        Err(Error::syntax(parser.errors()))
    } else {
        parse(parser.chars(), &pieces, target)
    }
}

} // verus!
