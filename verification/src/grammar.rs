//! The format-string grammar: token types and the mathematical definition of
//! tokenization.
//!
//! ```text
//! format-string := (literal-char | '{{' | '}}' | argument)*
//! argument      := '{' [position] [':' specifier] '}'
//! position      := decimal-digits | identifier
//! specifier     := [fill align] ['+'] ['#'] ['0'] [width] ['.' precision] [kind]
//! align         := '<' | '^' | '>'
//! width         := decimal-digits | decimal-digits '$' | identifier '$'
//! precision     := width | '*'
//! kind          := '' | '?' | identifier
//! ```
//!
//! Tokens never own text: every name and every literal run is a [`Span`] of
//! the scanned characters.

use vstd::prelude::*;

verus! {

/// A half-open range `start..end` of character positions in the scanned text.
#[derive(Clone, Copy, Debug, PartialEq, Eq, Structural)]
pub struct Span {
    pub start: usize,
    pub end: usize,
}

/// Where the padding goes when a width exceeds the rendered length.
#[derive(Clone, Copy, Debug, PartialEq, Eq, Structural)]
pub enum Alignment {
    Left,
    Right,
    Center,
    Unknown,
}

/// The flag characters of a specifier.
#[derive(Clone, Copy, Debug, PartialEq, Eq, Structural)]
pub struct Flags {
    /// `+`: always print a sign for numeric values.
    pub sign_plus: bool,
    /// `#`: alternate form (radix prefixes).
    pub alternate: bool,
    /// `0`: sign-aware zero padding.
    pub zero_pad: bool,
}

/// Which argument a reference names.
#[derive(Clone, Copy, Debug, PartialEq, Eq, Structural)]
pub enum Position {
    /// An explicit index.
    Positional(usize),
    /// A name; the span covers the identifier.
    Named(Span),
    /// The next argument not yet taken implicitly.
    Implicit,
}

/// A width or precision as written.
#[derive(Clone, Copy, Debug, PartialEq, Eq, Structural)]
pub enum Count {
    /// Nothing was written.
    Implied,
    /// A number written in the format string.
    Literal(usize),
    /// The value of another argument (`n$`, `name$`, or `*`).
    FromArgument(Position),
}

/// The specifier of an argument reference, as written.
#[derive(Clone, Copy, Debug, PartialEq, Eq, Structural)]
pub struct FormatSpec {
    pub fill: Option<char>,
    pub align: Alignment,
    pub flags: Flags,
    pub precision: Count,
    pub width: Count,
    /// The display-kind code; empty for the default kind.
    pub ty: Span,
}

/// A `{...}` placeholder.
#[derive(Clone, Copy, Debug, PartialEq, Eq, Structural)]
pub struct ArgumentRef {
    pub position: Position,
    pub format: FormatSpec,
}

/// One token of a format string.
#[derive(Clone, Copy, Debug, PartialEq, Eq, Structural)]
pub enum Piece {
    /// A run of literal text.
    String(Span),
    /// An argument reference.
    NextArgument(ArgumentRef),
}

/// A violation of the grammar.
#[derive(Clone, Copy, Debug, PartialEq, Eq, Structural)]
pub enum SyntaxError {
    /// A `}` that closes nothing and is not doubled.
    UnmatchedClose,
    /// An argument reference was not closed: another character stands where
    /// `}` is required.
    Expected { found: char },
    /// The text ended inside an argument reference.
    Unterminated,
    /// A decimal number does not fit in `usize`.
    Overflow,
}

/// Result of scanning a count.
pub struct CountScan {
    pub count: Count,
    pub end: int,
    pub overflow: bool,
}

/// Result of scanning a position.
pub struct PositionScan {
    pub position: Position,
    pub end: int,
    pub overflow: bool,
}

/// Result of scanning a specifier.
pub struct FormatScan {
    pub format: FormatSpec,
    pub end: int,
    pub width_overflow: bool,
    pub precision_overflow: bool,
}

/// Result of scanning what stands between `{` and `}`.
pub struct ArgumentScan {
    pub argument: ArgumentRef,
    pub end: int,
    pub errors: Seq<SyntaxError>,
}

/// Result of scanning one step of the text.
pub struct Step {
    pub piece: Option<Piece>,
    pub end: int,
    pub errors: Seq<SyntaxError>,
}

/// All tokens and all diagnostics of a text.
pub struct Tokens {
    pub pieces: Seq<Piece>,
    pub errors: Seq<SyntaxError>,
}

pub open spec fn is_brace(c: char) -> bool {
    c == '{' || c == '}'
}

pub open spec fn is_digit(c: char) -> bool {
    '0' <= c && c <= '9'
}

pub open spec fn is_align(c: char) -> bool {
    c == '<' || c == '^' || c == '>'
}

pub open spec fn digit_of(c: char) -> nat {
    (c as int - '0' as int) as nat
}

pub open spec fn is_ascii_letter(c: char) -> bool {
    ('a' <= c && c <= 'z') || ('A' <= c && c <= 'Z')
}

/// The `XID_Start` property of a character beyond ASCII.
pub uninterp spec fn xid_start(c: char) -> bool;

/// The `XID_Continue` property of a character beyond ASCII.
pub uninterp spec fn xid_continue(c: char) -> bool;

/// May `c` begin an identifier?
pub open spec fn ident_start(c: char) -> bool {
    if c <= '\x7f' {
        is_ascii_letter(c)
    } else {
        xid_start(c)
    }
}

/// May `c` continue an identifier?
pub open spec fn ident_continue(c: char) -> bool {
    if c <= '\x7f' {
        is_ascii_letter(c) || is_digit(c) || c == '_'
    } else {
        xid_continue(c)
    }
}

/// The number a too-large decimal is replaced by.
pub open spec fn clamp(n: nat) -> usize {
    if n <= usize::MAX {
        n as usize
    } else {
        usize::MAX
    }
}

/// The text a span covers.
pub open spec fn span_text(s: Seq<char>, span: Span) -> Seq<char> {
    s.subrange(span.start as int, span.end as int)
}

pub open spec fn span_of(start: int, end: int) -> Span {
    Span { start: start as usize, end: end as usize }
}

/// First position at or after `i` that holds a brace, or the end.
pub open spec fn literal_end(s: Seq<char>, i: int) -> int
    decreases s.len() - i,
{
    if 0 <= i < s.len() && !is_brace(s[i]) {
        literal_end(s, i + 1)
    } else {
        i
    }
}

/// End of the run of decimal digits that starts at `i`.
pub open spec fn digits_end(s: Seq<char>, i: int) -> int
    decreases s.len() - i,
{
    if 0 <= i < s.len() && is_digit(s[i]) {
        digits_end(s, i + 1)
    } else {
        i
    }
}

/// The number that the digits `s[i..j]` denote.
pub open spec fn digits_value(s: Seq<char>, i: int, j: int) -> nat
    decreases j - i,
{
    if j <= i {
        0
    } else {
        digits_value(s, i, j - 1) * 10 + digit_of(s[j - 1])
    }
}

/// End of the run of identifier-continuing characters that starts at `i`.
pub open spec fn continue_end(s: Seq<char>, i: int) -> int
    decreases s.len() - i,
{
    if 0 <= i < s.len() && ident_continue(s[i]) {
        continue_end(s, i + 1)
    } else {
        i
    }
}

/// End of the identifier that starts at `i`; `i` itself where none starts.
pub open spec fn word_end(s: Seq<char>, i: int) -> int {
    if 0 <= i < s.len() && ident_start(s[i]) {
        continue_end(s, i + 1)
    } else {
        i
    }
}

pub open spec fn at(s: Seq<char>, i: int, c: char) -> bool {
    0 <= i < s.len() && s[i] == c
}

/// `[position]`
pub open spec fn scan_position(s: Seq<char>, i: int) -> PositionScan {
    let j = digits_end(s, i);
    if j > i {
        let n = digits_value(s, i, j);
        PositionScan { position: Position::Positional(clamp(n)), end: j, overflow: n > usize::MAX }
    } else {
        let k = word_end(s, i);
        if k > i {
            PositionScan { position: Position::Named(span_of(i, k)), end: k, overflow: false }
        } else {
            PositionScan { position: Position::Implicit, end: i, overflow: false }
        }
    }
}

/// `[width]`: digits, `digits$`, `identifier$`, or nothing. An identifier
/// without `$` is left unread.
pub open spec fn scan_count(s: Seq<char>, i: int) -> CountScan {
    let j = digits_end(s, i);
    if j > i {
        let n = digits_value(s, i, j);
        if at(s, j, '$') {
            CountScan {
                count: Count::FromArgument(Position::Positional(clamp(n))),
                end: j + 1,
                overflow: n > usize::MAX,
            }
        } else {
            CountScan { count: Count::Literal(clamp(n)), end: j, overflow: n > usize::MAX }
        }
    } else {
        let k = word_end(s, i);
        if k > i && at(s, k, '$') {
            CountScan {
                count: Count::FromArgument(Position::Named(span_of(i, k))),
                end: k + 1,
                overflow: false,
            }
        } else {
            CountScan { count: Count::Implied, end: i, overflow: false }
        }
    }
}

pub open spec fn default_flags() -> Flags {
    Flags { sign_plus: false, alternate: false, zero_pad: false }
}

/// The specifier of `{}`.
pub open spec fn default_format(at_index: int) -> FormatSpec {
    FormatSpec {
        fill: None,
        align: Alignment::Unknown,
        flags: default_flags(),
        precision: Count::Implied,
        width: Count::Implied,
        ty: span_of(at_index, at_index),
    }
}

pub open spec fn align_of(c: char) -> Alignment {
    if c == '<' {
        Alignment::Left
    } else if c == '>' {
        Alignment::Right
    } else if c == '^' {
        Alignment::Center
    } else {
        Alignment::Unknown
    }
}

/// The width part of a specifier, read at `i`.
pub open spec fn scan_format_width(s: Seq<char>, i: int) -> CountScan {
    let zero = at(s, i, '0');
    let zero_width = zero && at(s, i + 1, '$');
    if zero_width {
        CountScan {
            count: Count::FromArgument(Position::Positional(0)),
            end: i + 2,
            overflow: false,
        }
    } else if zero {
        scan_count(s, i + 1)
    } else {
        scan_count(s, i)
    }
}

/// The precision part of a specifier, read at `i`.
pub open spec fn scan_format_precision(s: Seq<char>, i: int) -> CountScan {
    let dot = at(s, i, '.');
    if dot && at(s, i + 1, '*') {
        CountScan { count: Count::FromArgument(Position::Implicit), end: i + 2, overflow: false }
    } else if dot {
        scan_count(s, i + 1)
    } else {
        CountScan { count: Count::Implied, end: i, overflow: false }
    }
}

/// `[':' specifier]`
pub open spec fn scan_format(s: Seq<char>, i: int) -> FormatScan {
    if !at(s, i, ':') {
        FormatScan {
            format: default_format(i),
            end: i,
            width_overflow: false,
            precision_overflow: false,
        }
    } else {
        let i1 = i + 1;
        let has_fill = 0 <= i1 < s.len() && i1 + 1 < s.len() && is_align(s[i1 + 1]);
        let fill = if has_fill { Some(s[i1]) } else { None };
        let i2 = if has_fill { i1 + 1 } else { i1 };
        let has_align = 0 <= i2 < s.len() && is_align(s[i2]);
        let align = if has_align { align_of(s[i2]) } else { Alignment::Unknown };
        let i3 = if has_align { i2 + 1 } else { i2 };
        let sign_plus = at(s, i3, '+');
        let i4 = if sign_plus { i3 + 1 } else { i3 };
        let alternate = at(s, i4, '#');
        let i5 = if alternate { i4 + 1 } else { i4 };
        let w = scan_format_width(s, i5);
        let i6 = w.end;
        let p = scan_format_precision(s, i6);
        let i7 = p.end;
        let i8 = if at(s, i7, '?') { i7 + 1 } else { word_end(s, i7) };
        FormatScan {
            format: FormatSpec {
                fill,
                align,
                flags: Flags {
                    sign_plus,
                    alternate,
                    zero_pad: at(s, i5, '0') && !at(s, i5 + 1, '$'),
                },
                precision: p.count,
                width: w.count,
                ty: span_of(i7, i8),
            },
            end: i8,
            width_overflow: w.overflow,
            precision_overflow: p.overflow,
        }
    }
}

pub open spec fn overflow_errors(flag: bool) -> Seq<SyntaxError> {
    if flag {
        seq![SyntaxError::Overflow]
    } else {
        Seq::empty()
    }
}

pub open spec fn expected(found: char) -> SyntaxError {
    SyntaxError::Expected { found }
}

/// What must follow an argument reference: `}`.
pub open spec fn close_errors(s: Seq<char>, i: int) -> Seq<SyntaxError> {
    let inside = 0 <= i && i < s.len();
    if at(s, i, '}') {
        Seq::empty()
    } else if inside {
        seq![expected(s[i])]
    } else {
        seq![SyntaxError::Unterminated]
    }
}

/// `[position] [':' specifier] '}'`, read from the position after `{`.
/// Where `}` is missing, the reference ends where it is missing and a
/// diagnostic is recorded.
pub open spec fn scan_argument(s: Seq<char>, i: int) -> ArgumentScan {
    let p = scan_position(s, i);
    let f = scan_format(s, p.end);
    let closed = at(s, f.end, '}');
    ArgumentScan {
        argument: ArgumentRef { position: p.position, format: f.format },
        end: if closed { f.end + 1 } else { f.end },
        errors: overflow_errors(p.overflow) + overflow_errors(f.width_overflow) + overflow_errors(
            f.precision_overflow,
        ) + close_errors(s, f.end),
    }
}

/// One step of scanning at position `i` of `s`, which lies inside `s`.
///
/// * `{{` and `}}` begin a literal run with the second brace;
/// * `{` begins an argument reference;
/// * a single `}` is dropped with a diagnostic;
/// * any other character begins a literal run.
pub open spec fn next_piece(s: Seq<char>, i: int) -> Step {
    if s[i] == '{' {
        if at(s, i + 1, '{') {
            let e = literal_end(s, i + 2);
            Step { piece: Some(Piece::String(span_of(i + 1, e))), end: e, errors: Seq::empty() }
        } else {
            let a = scan_argument(s, i + 1);
            Step { piece: Some(Piece::NextArgument(a.argument)), end: a.end, errors: a.errors }
        }
    } else if s[i] == '}' {
        if at(s, i + 1, '}') {
            let e = literal_end(s, i + 2);
            Step { piece: Some(Piece::String(span_of(i + 1, e))), end: e, errors: Seq::empty() }
        } else {
            Step { piece: None, end: i + 1, errors: seq![SyntaxError::UnmatchedClose] }
        }
    } else {
        let e = literal_end(s, i);
        Step { piece: Some(Piece::String(span_of(i, e))), end: e, errors: Seq::empty() }
    }
}

pub open spec fn piece_seq(p: Option<Piece>) -> Seq<Piece> {
    match p {
        Some(x) => seq![x],
        None => Seq::empty(),
    }
}

/// The tokens and diagnostics of `s` from position `i` on.
pub open spec fn tokenize_from(s: Seq<char>, i: int) -> Tokens
    decreases s.len() - i,
{
    if 0 <= i && i < s.len() {
        let step = next_piece(s, i);
        if i < step.end && step.end <= s.len() {
            let rest = tokenize_from(s, step.end);
            Tokens {
                pieces: piece_seq(step.piece) + rest.pieces,
                errors: step.errors + rest.errors,
            }
        } else {
            Tokens { pieces: Seq::empty(), errors: Seq::empty() }
        }
    } else {
        Tokens { pieces: Seq::empty(), errors: Seq::empty() }
    }
}

/// The tokens and diagnostics of a whole text.
pub open spec fn tokenize(s: Seq<char>) -> Tokens {
    tokenize_from(s, 0)
}

/// Is the specifier the one of `{}`?
pub open spec fn is_default_format(f: FormatSpec) -> bool {
    &&& f.fill is None
    &&& f.align == Alignment::Unknown
    &&& f.flags == default_flags()
    &&& f.precision == Count::Implied
    &&& f.width == Count::Implied
    &&& f.ty.start == f.ty.end
}

pub proof fn lemma_literal_end_bounds(s: Seq<char>, i: int)
    requires
        0 <= i <= s.len(),
    ensures
        i <= literal_end(s, i) <= s.len(),
        literal_end(s, i) < s.len() ==> is_brace(s[literal_end(s, i)]),
        forall|k: int| i <= k < literal_end(s, i) ==> !is_brace(#[trigger] s[k]),
    decreases s.len() - i,
{
    if i < s.len() && !is_brace(s[i]) {
        lemma_literal_end_bounds(s, i + 1);
    }
}

pub proof fn lemma_digits_end_bounds(s: Seq<char>, i: int)
    requires
        0 <= i <= s.len(),
    ensures
        i <= digits_end(s, i) <= s.len(),
    decreases s.len() - i,
{
    if i < s.len() && is_digit(s[i]) {
        lemma_digits_end_bounds(s, i + 1);
    }
}

pub proof fn lemma_continue_end_bounds(s: Seq<char>, i: int)
    requires
        0 <= i <= s.len(),
    ensures
        i <= continue_end(s, i) <= s.len(),
    decreases s.len() - i,
{
    if i < s.len() && ident_continue(s[i]) {
        lemma_continue_end_bounds(s, i + 1);
    }
}

pub proof fn lemma_word_end_bounds(s: Seq<char>, i: int)
    requires
        0 <= i <= s.len(),
    ensures
        i <= word_end(s, i) <= s.len(),
{
    if i < s.len() && ident_start(s[i]) {
        lemma_continue_end_bounds(s, i + 1);
    }
}

pub proof fn lemma_scan_count_bounds(s: Seq<char>, i: int)
    requires
        0 <= i <= s.len(),
    ensures
        i <= scan_count(s, i).end <= s.len(),
{
    lemma_digits_end_bounds(s, i);
    lemma_word_end_bounds(s, i);
}

pub proof fn lemma_scan_format_bounds(s: Seq<char>, i: int)
    requires
        0 <= i <= s.len(),
    ensures
        i <= scan_format(s, i).end <= s.len(),
{
    if at(s, i, ':') {
        let i1 = i + 1;
        let has_fill = 0 <= i1 < s.len() && i1 + 1 < s.len() && is_align(s[i1 + 1]);
        let i2 = if has_fill { i1 + 1 } else { i1 };
        let has_align = 0 <= i2 < s.len() && is_align(s[i2]);
        let i3 = if has_align { i2 + 1 } else { i2 };
        let i4 = if at(s, i3, '+') { i3 + 1 } else { i3 };
        let i5 = if at(s, i4, '#') { i4 + 1 } else { i4 };
        if at(s, i5, '0') {
            lemma_scan_count_bounds(s, i5 + 1);
        } else {
            lemma_scan_count_bounds(s, i5);
        }
        let w = scan_format_width(s, i5);
        let i6 = w.end;
        if at(s, i6, '.') {
            lemma_scan_count_bounds(s, i6 + 1);
        }
        let p = scan_format_precision(s, i6);
        lemma_word_end_bounds(s, p.end);
    }
}

pub proof fn lemma_scan_argument_bounds(s: Seq<char>, i: int)
    requires
        0 <= i <= s.len(),
    ensures
        i <= scan_argument(s, i).end <= s.len(),
{
    lemma_digits_end_bounds(s, i);
    lemma_word_end_bounds(s, i);
    lemma_scan_format_bounds(s, scan_position(s, i).end);
}

/// Every step consumes at least one character and stays inside the text.
pub proof fn lemma_next_piece_advances(s: Seq<char>, i: int)
    requires
        0 <= i < s.len(),
    ensures
        i < next_piece(s, i).end <= s.len(),
{
    if s[i] == '{' {
        if at(s, i + 1, '{') {
            lemma_literal_end_bounds(s, i + 2);
        } else {
            lemma_scan_argument_bounds(s, i + 1);
        }
    } else if s[i] == '}' {
        if at(s, i + 1, '}') {
            lemma_literal_end_bounds(s, i + 2);
        }
    } else {
        lemma_literal_end_bounds(s, i + 1);
    }
}

} // verus!
