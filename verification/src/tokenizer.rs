//! The tokenizer: turns the characters of a format string into pieces and
//! collects every violation of the grammar on the way.

use vstd::prelude::*;
use crate::grammar::{
    align_of, at, clamp, close_errors, continue_end, digit_of, digits_end, digits_value, is_align,
    lemma_next_piece_advances, literal_end, next_piece, overflow_errors, piece_seq, scan_argument,
    scan_count, scan_format, scan_format_precision, scan_format_width, scan_position, tokenize,
    tokenize_from, word_end, Alignment, ArgumentRef, Count, Flags, FormatSpec, Piece, Position,
    Span, SyntaxError, Tokens,
};
use crate::ident::{is_ident_continue, is_ident_start};
use crate::text::chars_of;

verus! {

/// Does `span` lie inside a text of `len` characters?
pub open spec fn span_ok(span: Span, len: int) -> bool {
    span.start <= span.end <= len
}

pub open spec fn position_ok(p: Position, len: int) -> bool {
    p matches Position::Named(span) ==> span_ok(span, len)
}

pub open spec fn count_ok(c: Count, len: int) -> bool {
    c matches Count::FromArgument(p) ==> position_ok(p, len)
}

/// Do all spans of `a` lie inside a text of `len` characters?
pub open spec fn argument_ok(a: ArgumentRef, len: int) -> bool {
    &&& position_ok(a.position, len)
    &&& count_ok(a.format.width, len)
    &&& count_ok(a.format.precision, len)
    &&& span_ok(a.format.ty, len)
}

pub open spec fn piece_ok(p: Piece, len: int) -> bool {
    match p {
        Piece::String(span) => span_ok(span, len),
        Piece::NextArgument(a) => argument_ok(a, len),
    }
}

/// Every span of `pieces` lies inside a text of `len` characters.
pub open spec fn well_spanned(pieces: Seq<Piece>, len: int) -> bool {
    forall|k: int| 0 <= k < pieces.len() ==> piece_ok(#[trigger] pieces[k], len)
}

/// What a run of decimal digits denotes.
pub struct Digits {
    pub end: usize,
    pub value: usize,
    pub overflow: bool,
}

/// Reads the run of decimal digits at `i`.
pub fn read_digits(chars: &Vec<char>, i: usize) -> (r: Digits)
    requires
        i <= chars.len(),
    ensures
        r.end == digits_end(chars@, i as int),
        i <= r.end <= chars.len(),
        r.value == clamp(digits_value(chars@, i as int, r.end as int)),
        r.overflow == (digits_value(chars@, i as int, r.end as int) > usize::MAX),
{
    let mut j: usize = i;
    let mut value: usize = 0;
    let mut overflow: bool = false;
    while j < chars.len() && '0' <= chars[j] && chars[j] <= '9'
        invariant
            i <= j <= chars.len(),
            digits_end(chars@, i as int) == digits_end(chars@, j as int),
            overflow == (digits_value(chars@, i as int, j as int) > usize::MAX),
            value == clamp(digits_value(chars@, i as int, j as int)),
        decreases chars.len() - j,
    {
        let d: usize = ((chars[j] as u32) - ('0' as u32)) as usize;
        let ghost before = digits_value(chars@, i as int, j as int);
        assert(digits_value(chars@, i as int, j + 1) == before * 10 + digit_of(chars@[j as int]));
        assert(d == digit_of(chars@[j as int]));
        if !overflow {
            match value.checked_mul(10) {
                Some(m) => match m.checked_add(d) {
                    Some(v) => {
                        value = v;
                    },
                    None => {
                        overflow = true;
                        value = usize::MAX;
                    },
                },
                None => {
                    overflow = true;
                    value = usize::MAX;
                },
            }
        }
        j += 1;
    }
    Digits { end: j, value, overflow }
}

/// Reads the identifier at `i`, if one starts there.
pub fn read_word(chars: &Vec<char>, i: usize) -> (end: usize)
    requires
        i <= chars.len(),
    ensures
        end == word_end(chars@, i as int),
        i <= end <= chars.len(),
{
    if i < chars.len() && is_ident_start(chars[i]) {
        let mut j: usize = i + 1;
        while j < chars.len() && is_ident_continue(chars[j])
            invariant
                i < j <= chars.len(),
                continue_end(chars@, i + 1) == continue_end(chars@, j as int),
            decreases chars.len() - j,
        {
            j += 1;
        }
        j
    } else {
        i
    }
}

/// Reads literal text from `i` up to the next brace.
pub fn read_literal(chars: &Vec<char>, i: usize) -> (end: usize)
    requires
        i <= chars.len(),
    ensures
        end == literal_end(chars@, i as int),
        i <= end <= chars.len(),
{
    let mut j: usize = i;
    while j < chars.len() && chars[j] != '{' && chars[j] != '}'
        invariant
            i <= j <= chars.len(),
            literal_end(chars@, i as int) == literal_end(chars@, j as int),
        decreases chars.len() - j,
    {
        j += 1;
    }
    j
}

/// Does `c` stand at position `i`?
pub fn has_char(chars: &Vec<char>, i: usize, c: char) -> (r: bool)
    ensures
        r == at(chars@, i as int, c),
{
    i < chars.len() && chars[i] == c
}

/// A count as read, with the position after it.
pub struct CountRead {
    pub count: Count,
    pub end: usize,
    pub overflow: bool,
}

/// Reads a width or a precision at `i`.
pub fn read_count(chars: &Vec<char>, i: usize) -> (r: CountRead)
    requires
        i <= chars.len(),
    ensures
        r.count == scan_count(chars@, i as int).count,
        r.end == scan_count(chars@, i as int).end,
        r.overflow == scan_count(chars@, i as int).overflow,
        i <= r.end <= chars.len(),
        count_ok(r.count, chars.len() as int),
{
    let d = read_digits(chars, i);
    if d.end > i {
        if has_char(chars, d.end, '$') {
            CountRead {
                count: Count::FromArgument(Position::Positional(d.value)),
                end: d.end + 1,
                overflow: d.overflow,
            }
        } else {
            CountRead { count: Count::Literal(d.value), end: d.end, overflow: d.overflow }
        }
    } else {
        let k = read_word(chars, i);
        if k > i && has_char(chars, k, '$') {
            CountRead {
                count: Count::FromArgument(Position::Named(Span { start: i, end: k })),
                end: k + 1,
                overflow: false,
            }
        } else {
            CountRead { count: Count::Implied, end: i, overflow: false }
        }
    }
}

/// A position as read, with the position after it.
pub struct PositionRead {
    pub position: Position,
    pub end: usize,
    pub overflow: bool,
}

/// Reads the position of an argument reference at `i`.
pub fn read_position(chars: &Vec<char>, i: usize) -> (r: PositionRead)
    requires
        i <= chars.len(),
    ensures
        r.position == scan_position(chars@, i as int).position,
        r.end == scan_position(chars@, i as int).end,
        r.overflow == scan_position(chars@, i as int).overflow,
        i <= r.end <= chars.len(),
        position_ok(r.position, chars.len() as int),
{
    let d = read_digits(chars, i);
    if d.end > i {
        PositionRead { position: Position::Positional(d.value), end: d.end, overflow: d.overflow }
    } else {
        let k = read_word(chars, i);
        if k > i {
            PositionRead {
                position: Position::Named(Span { start: i, end: k }),
                end: k,
                overflow: false,
            }
        } else {
            PositionRead { position: Position::Implicit, end: i, overflow: false }
        }
    }
}

fn is_align_char(c: char) -> (r: bool)
    ensures
        r == is_align(c),
{
    c == '<' || c == '^' || c == '>'
}

fn alignment_of(c: char) -> (r: Alignment)
    ensures
        r == align_of(c),
{
    if c == '<' {
        Alignment::Left
    } else if c == '>' {
        Alignment::Right
    } else if c == '^' {
        Alignment::Center
    } else {
        Alignment::Unknown
    }
}

fn read_width(chars: &Vec<char>, i: usize) -> (r: CountRead)
    requires
        i <= chars.len(),
    ensures
        r.count == scan_format_width(chars@, i as int).count,
        r.end == scan_format_width(chars@, i as int).end,
        r.overflow == scan_format_width(chars@, i as int).overflow,
        i <= r.end <= chars.len(),
        count_ok(r.count, chars.len() as int),
{
    if has_char(chars, i, '0') {
        if has_char(chars, i + 1, '$') {
            CountRead {
                count: Count::FromArgument(Position::Positional(0)),
                end: i + 2,
                overflow: false,
            }
        } else {
            read_count(chars, i + 1)
        }
    } else {
        read_count(chars, i)
    }
}

fn read_precision(chars: &Vec<char>, i: usize) -> (r: CountRead)
    requires
        i <= chars.len(),
    ensures
        r.count == scan_format_precision(chars@, i as int).count,
        r.end == scan_format_precision(chars@, i as int).end,
        r.overflow == scan_format_precision(chars@, i as int).overflow,
        i <= r.end <= chars.len(),
        count_ok(r.count, chars.len() as int),
{
    if has_char(chars, i, '.') {
        if has_char(chars, i + 1, '*') {
            CountRead {
                count: Count::FromArgument(Position::Implicit),
                end: i + 2,
                overflow: false,
            }
        } else {
            read_count(chars, i + 1)
        }
    } else {
        CountRead { count: Count::Implied, end: i, overflow: false }
    }
}

/// A specifier as read, with the position after it.
pub struct FormatRead {
    pub format: FormatSpec,
    pub end: usize,
    pub width_overflow: bool,
    pub precision_overflow: bool,
}

/// Reads `[':' specifier]` at `i`.
pub fn read_format(chars: &Vec<char>, i: usize) -> (r: FormatRead)
    requires
        i <= chars.len(),
    ensures
        r.format == scan_format(chars@, i as int).format,
        r.end == scan_format(chars@, i as int).end,
        r.width_overflow == scan_format(chars@, i as int).width_overflow,
        r.precision_overflow == scan_format(chars@, i as int).precision_overflow,
        i <= r.end <= chars.len(),
        i <= r.format.ty.start <= r.format.ty.end == r.end,
        count_ok(r.format.width, chars.len() as int),
        count_ok(r.format.precision, chars.len() as int),
{
    if !has_char(chars, i, ':') {
        return FormatRead {
            format: FormatSpec {
                fill: None,
                align: Alignment::Unknown,
                flags: Flags { sign_plus: false, alternate: false, zero_pad: false },
                precision: Count::Implied,
                width: Count::Implied,
                ty: Span { start: i, end: i },
            },
            end: i,
            width_overflow: false,
            precision_overflow: false,
        };
    }
    let i1: usize = i + 1;
    let has_fill = i1 < chars.len() && i1 + 1 < chars.len() && is_align_char(chars[i1 + 1]);
    let fill = if has_fill { Some(chars[i1]) } else { None };
    let i2: usize = if has_fill { i1 + 1 } else { i1 };
    let has_align = i2 < chars.len() && is_align_char(chars[i2]);
    let align = if has_align { alignment_of(chars[i2]) } else { Alignment::Unknown };
    let i3: usize = if has_align { i2 + 1 } else { i2 };
    let sign_plus = has_char(chars, i3, '+');
    let i4: usize = if sign_plus { i3 + 1 } else { i3 };
    let alternate = has_char(chars, i4, '#');
    let i5: usize = if alternate { i4 + 1 } else { i4 };
    let zero_pad = has_char(chars, i5, '0') && !has_char(chars, i5 + 1, '$');
    let w = read_width(chars, i5);
    let p = read_precision(chars, w.end);
    let i7: usize = p.end;
    let i8: usize = if has_char(chars, i7, '?') { i7 + 1 } else { read_word(chars, i7) };
    FormatRead {
        format: FormatSpec {
            fill,
            align,
            flags: Flags { sign_plus, alternate, zero_pad },
            precision: p.count,
            width: w.count,
            ty: Span { start: i7, end: i8 },
        },
        end: i8,
        width_overflow: w.overflow,
        precision_overflow: p.overflow,
    }
}

fn push_overflow(errors: &mut Vec<SyntaxError>, flag: bool)
    ensures
        final(errors)@ == old(errors)@ + overflow_errors(flag),
{
    if flag {
        errors.push(SyntaxError::Overflow);
    }
    assert(errors@ =~= old(errors)@ + overflow_errors(flag));
}

/// An argument reference as read, with the position after it.
pub struct ArgumentRead {
    pub argument: ArgumentRef,
    pub end: usize,
}

/// Reads what follows `{`: position, specifier and `}`. Appends the
/// diagnostics of the reference to `errors`.
pub fn read_argument(chars: &Vec<char>, i: usize, errors: &mut Vec<SyntaxError>) -> (r:
    ArgumentRead)
    requires
        i <= chars.len(),
    ensures
        r.argument == scan_argument(chars@, i as int).argument,
        r.end == scan_argument(chars@, i as int).end,
        final(errors)@ == old(errors)@ + scan_argument(chars@, i as int).errors,
        i <= r.end <= chars.len(),
        argument_ok(r.argument, chars.len() as int),
{
    let p = read_position(chars, i);
    let f = read_format(chars, p.end);
    push_overflow(errors, p.overflow);
    push_overflow(errors, f.width_overflow);
    push_overflow(errors, f.precision_overflow);
    let argument = ArgumentRef { position: p.position, format: f.format };
    let ghost before = errors@;
    let end: usize;
    if has_char(chars, f.end, '}') {
        end = f.end + 1;
        assert(errors@ =~= before + close_errors(chars@, f.end as int));
    } else if f.end < chars.len() {
        let found = chars[f.end];
        errors.push(SyntaxError::Expected { found });
        end = f.end;
        assert(errors@ =~= before + close_errors(chars@, f.end as int));
    } else {
        errors.push(SyntaxError::Unterminated);
        end = f.end;
        assert(errors@ =~= before + close_errors(chars@, f.end as int));
    }
    proof {
        assert(errors@ =~= old(errors)@ + scan_argument(chars@, i as int).errors);
    }
    ArgumentRead { argument, end }
}

/// One step as scanned, with the position after it.
pub struct StepRead {
    pub piece: Option<Piece>,
    pub end: usize,
}

/// Scans one step at `i`. Appends its diagnostics to `errors`.
pub fn scan_step(chars: &Vec<char>, i: usize, errors: &mut Vec<SyntaxError>) -> (r: StepRead)
    requires
        i < chars.len(),
    ensures
        r.piece == next_piece(chars@, i as int).piece,
        r.end == next_piece(chars@, i as int).end,
        final(errors)@ == old(errors)@ + next_piece(chars@, i as int).errors,
        i < r.end <= chars.len(),
        r.piece matches Some(p) ==> piece_ok(p, chars.len() as int),
{
    let c = chars[i];
    if c == '{' {
        if has_char(chars, i + 1, '{') {
            let e = read_literal(chars, i + 2);
            assert(errors@ =~= old(errors)@ + Seq::<SyntaxError>::empty());
            StepRead { piece: Some(Piece::String(Span { start: i + 1, end: e })), end: e }
        } else {
            let a = read_argument(chars, i + 1, errors);
            StepRead { piece: Some(Piece::NextArgument(a.argument)), end: a.end }
        }
    } else if c == '}' {
        if has_char(chars, i + 1, '}') {
            let e = read_literal(chars, i + 2);
            assert(errors@ =~= old(errors)@ + Seq::<SyntaxError>::empty());
            StepRead { piece: Some(Piece::String(Span { start: i + 1, end: e })), end: e }
        } else {
            errors.push(SyntaxError::UnmatchedClose);
            assert(errors@ =~= old(errors)@ + seq![SyntaxError::UnmatchedClose]);
            StepRead { piece: None, end: i + 1 }
        }
    } else {
        let e = read_literal(chars, i);
        proof {
            lemma_next_piece_advances(chars@, i as int);
        }
        assert(errors@ =~= old(errors)@ + Seq::<SyntaxError>::empty());
        StepRead { piece: Some(Piece::String(Span { start: i, end: e })), end: e }
    }
}

/// A tokenizer over the characters of one format string.
///
/// It collects the diagnostics of what has been scanned so far; they are
/// complete once [`Parser::next`] has returned `None`.
pub struct Parser {
    chars: Vec<char>,
    pos: usize,
    errors: Vec<SyntaxError>,
}

impl Parser {
    /// The characters being scanned.
    pub closed spec fn input(&self) -> Seq<char> {
        self.chars@
    }

    /// The position of the next unread character.
    pub closed spec fn position(&self) -> int {
        self.pos as int
    }

    /// The diagnostics collected so far.
    pub closed spec fn diagnostics(&self) -> Seq<SyntaxError> {
        self.errors@
    }

    #[verifier::type_invariant]
    spec fn inv(self) -> bool {
        self.pos <= self.chars.len()
    }

    /// What is still to come: the pieces and diagnostics of the unread text.
    pub open spec fn remaining(&self) -> Tokens {
        tokenize_from(self.input(), self.position())
    }

    /// A tokenizer at the start of `text`.
    pub fn new(text: &str) -> (p: Parser)
        ensures
            p.input() == text@,
            p.position() == 0,
            p.diagnostics() == Seq::<SyntaxError>::empty(),
    {
        Parser { chars: chars_of(text), pos: 0, errors: Vec::new() }
    }

    /// The diagnostics collected so far.
    pub fn errors(&self) -> (e: &Vec<SyntaxError>)
        ensures
            e@ == self.diagnostics(),
    {
        &self.errors
    }

    /// The scanned characters.
    pub fn chars(&self) -> (c: &Vec<char>)
        ensures
            c@ == self.input(),
    {
        &self.chars
    }

    /// The next piece, or `None` at the end of the text. A `}` that closes
    /// nothing is passed over with a diagnostic.
    pub fn next(&mut self) -> (r: Option<Piece>)
        ensures
            final(self).input() == old(self).input(),
            old(self).position() <= final(self).position() <= old(self).input().len(),
            old(self).remaining().pieces == piece_seq(r) + final(self).remaining().pieces,
            final(self).diagnostics() + final(self).remaining().errors == old(self).diagnostics()
                + old(self).remaining().errors,
            r is None ==> final(self).position() == old(self).input().len(),
            r matches Some(p) ==> piece_ok(p, old(self).input().len() as int),
            r is Some ==> old(self).position() < final(self).position(),
    {
        proof {
            use_type_invariant(&*self);
        }
        loop
            invariant
                self.input() == old(self).input(),
                old(self).position() <= self.position() <= self.input().len(),
                old(self).remaining().pieces == self.remaining().pieces,
                self.diagnostics() + self.remaining().errors == old(self).diagnostics() + old(
                    self,
                ).remaining().errors,
            decreases self.chars.len() - self.pos,
        {
            let i: usize = self.pos;
            if i >= self.chars.len() {
                assert(self.remaining().pieces =~= Seq::<Piece>::empty());
                assert(piece_seq(None) + self.remaining().pieces =~= self.remaining().pieces);
                return None;
            }
            let ghost step = next_piece(self.chars@, i as int);
            let ghost before_errors = self.errors@;
            let ghost rest = tokenize_from(self.chars@, step.end);
            proof {
                lemma_next_piece_advances(self.chars@, i as int);
                assert(self.remaining().pieces == piece_seq(step.piece) + rest.pieces);
                assert(self.remaining().errors == step.errors + rest.errors);
            }
            let mut errors: Vec<SyntaxError> = Vec::new();
            std::mem::swap(&mut self.errors, &mut errors);
            let scanned = scan_step(&self.chars, i, &mut errors);
            std::mem::swap(&mut self.errors, &mut errors);
            self.pos = scanned.end;
            assert(self.errors@ + rest.errors =~= before_errors + (step.errors + rest.errors));
            if scanned.piece.is_some() {
                return scanned.piece;
            }
            assert(piece_seq(step.piece) + rest.pieces =~= rest.pieces);
        }
    }

    /// All pieces that are still to come. Afterwards `errors` is complete.
    pub fn collect(&mut self) -> (pieces: Vec<Piece>)
        ensures
            final(self).input() == old(self).input(),
            final(self).position() == old(self).input().len(),
            pieces@ == old(self).remaining().pieces,
            final(self).diagnostics() == old(self).diagnostics() + old(self).remaining().errors,
            well_spanned(pieces@, old(self).input().len() as int),
    {
        let mut pieces: Vec<Piece> = Vec::new();
        loop
            invariant
                self.input() == old(self).input(),
                old(self).remaining().pieces == pieces@ + self.remaining().pieces,
                self.errors@ + self.remaining().errors == old(self).diagnostics() + old(
                    self,
                ).remaining().errors,
                well_spanned(pieces@, self.input().len() as int),
            decreases self.input().len() - self.position(),
        {
            let ghost before = *self;
            let ghost before_pieces = pieces@;
            match self.next() {
                Some(p) => {
                    pieces.push(p);
                    assert(before_pieces + (piece_seq(Some(p)) + self.remaining().pieces)
                        =~= pieces@ + self.remaining().pieces);
                },
                None => {
                    assert(self.remaining().pieces =~= Seq::<Piece>::empty());
                    assert(self.remaining().errors =~= Seq::<SyntaxError>::empty());
                    assert(pieces@ + self.remaining().pieces =~= pieces@);
                    assert(self.errors@ + self.remaining().errors =~= self.errors@);
                    return pieces;
                },
            }
        }
    }
}

/// The pieces and the diagnostics of `text`.
pub fn tokenize_text(text: &str) -> (r: (Vec<Piece>, Vec<SyntaxError>))
    ensures
        r.0@ == tokenize(text@).pieces,
        r.1@ == tokenize(text@).errors,
{
    let mut parser = Parser::new(text);
    let pieces = parser.collect();
    assert(parser.errors@ =~= tokenize(text@).errors);
    (pieces, parser.errors)
}

} // verus!
