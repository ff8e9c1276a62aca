//! What can go wrong when a format string is parsed or rendered.

use vstd::prelude::*;
use crate::grammar::SyntaxError;
use crate::render::{debug_char, debug_char_text, debug_str, debug_str_text, digits, digits_of};
use crate::text::push_range;

verus! {

/// An error during parsing or formatting.
#[derive(Debug)]
pub enum Error {
    /// Invalid format string syntax: every violation, each with a message
    /// and an optional note.
    BadSyntax(Vec<(String, Option<String>)>),
    /// A format specifier referred to an out-of-range index.
    BadIndex(usize),
    /// A format specifier referred to a non-existent name.
    BadName(String),
    /// A format specifier named a display kind that does not exist.
    NoSuchFormat(String),
    /// A display kind is not supported by its argument.
    UnsatisfiedFormat { idx: usize, must_implement: &'static str },
    /// An argument used as a count is not an integer that fits in `usize`.
    BadCount(usize),
}

/// What an error is, mathematically.
pub enum ErrorView {
    BadSyntax(Seq<(Seq<char>, Option<Seq<char>>)>),
    BadIndex(usize),
    BadName(Seq<char>),
    NoSuchFormat(Seq<char>),
    UnsatisfiedFormat { idx: usize, must_implement: Seq<char> },
    BadCount(usize),
}

pub open spec fn option_text(o: Option<String>) -> Option<Seq<char>> {
    match o {
        Some(s) => Some(s@),
        None => None,
    }
}

pub open spec fn diagnostics_view(v: Seq<(String, Option<String>)>) -> Seq<
    (Seq<char>, Option<Seq<char>>),
> {
    Seq::new(v.len(), |i: int| (v[i].0@, option_text(v[i].1)))
}

impl View for Error {
    type V = ErrorView;

    open spec fn view(&self) -> ErrorView {
        match *self {
            Error::BadSyntax(v) => ErrorView::BadSyntax(diagnostics_view(v@)),
            Error::BadIndex(i) => ErrorView::BadIndex(i),
            Error::BadName(n) => ErrorView::BadName(n@),
            Error::NoSuchFormat(c) => ErrorView::NoSuchFormat(c@),
            Error::UnsatisfiedFormat { idx, must_implement } => ErrorView::UnsatisfiedFormat {
                idx,
                must_implement: must_implement@,
            },
            Error::BadCount(i) => ErrorView::BadCount(i),
        }
    }
}

/// The message of a violation of the grammar.
pub open spec fn syntax_message(e: SyntaxError) -> Seq<char> {
    match e {
        SyntaxError::UnmatchedClose => "unmatched `}` found"@,
        SyntaxError::Expected { found } => "expected `'}'`, found `"@ + debug_char(found) + "`"@,
        SyntaxError::Unterminated => "expected `'}'` but string was terminated"@,
        SyntaxError::Overflow => "integer does not fit in `usize`"@,
    }
}

/// The note that goes with a violation of the grammar.
pub open spec fn syntax_note(e: SyntaxError) -> Option<Seq<char>> {
    match e {
        SyntaxError::UnmatchedClose => Some(
            "if you intended to print `}`, you can escape it using `}}`"@,
        ),
        SyntaxError::Unterminated => Some(
            "if you intended to print `{`, you can escape it using `{{`"@,
        ),
        _ => None,
    }
}

/// Message and note of each violation, in order.
pub open spec fn syntax_diagnostics(errors: Seq<SyntaxError>) -> Seq<
    (Seq<char>, Option<Seq<char>>),
> {
    Seq::new(errors.len(), |i: int| (syntax_message(errors[i]), syntax_note(errors[i])))
}

fn diagnostic_of(e: SyntaxError) -> (d: (String, Option<String>))
    ensures
        d.0@ == syntax_message(e),
        option_text(d.1) == syntax_note(e),
{
    match e {
        SyntaxError::UnmatchedClose => (
            "unmatched `}` found".to_owned(),
            Some("if you intended to print `}`, you can escape it using `}}`".to_owned()),
        ),
        SyntaxError::Expected { found } => {
            let mut m = "expected `'}'`, found `".to_owned();
            let shown = debug_char_text(found);
            m.append(shown.as_str());
            m.append("`");
            (m, None)
        },
        SyntaxError::Unterminated => (
            "expected `'}'` but string was terminated".to_owned(),
            Some("if you intended to print `{`, you can escape it using `{{`".to_owned()),
        ),
        SyntaxError::Overflow => ("integer does not fit in `usize`".to_owned(), None),
    }
}

/// One diagnostic as it is shown: the message, and the note in brackets.
pub open spec fn diagnostic_text(d: (Seq<char>, Option<Seq<char>>)) -> Seq<char> {
    match d.1 {
        Some(more) => d.0 + " ("@ + more + ")"@,
        None => d.0,
    }
}

/// All diagnostics as they are shown, separated by `; `.
pub open spec fn diagnostics_text(ds: Seq<(Seq<char>, Option<Seq<char>>)>) -> Seq<char>
    decreases ds.len(),
{
    if ds.len() == 0 {
        Seq::empty()
    } else if ds.len() == 1 {
        diagnostic_text(ds[0])
    } else {
        diagnostics_text(ds.drop_last()) + "; "@ + diagnostic_text(ds.last())
    }
}

/// The text of an error.
pub open spec fn error_text(e: ErrorView) -> Seq<char> {
    match e {
        ErrorView::BadSyntax(ds) => diagnostics_text(ds),
        ErrorView::BadIndex(i) => "index "@ + digits(i as nat, 10, false) + " out of range"@,
        ErrorView::BadName(n) => "unknown name "@ + debug_str(n),
        ErrorView::NoSuchFormat(c) => "bad formatting specifier "@ + debug_str(c),
        ErrorView::UnsatisfiedFormat { idx, must_implement } => "argument "@ + digits(
            idx as nat,
            10,
            false,
        ) + " does not implement "@ + must_implement,
        ErrorView::BadCount(i) => "argument "@ + digits(i as nat, 10, false)
            + " cannot be used as a count"@,
    }
}

/// A short description of each kind of error.
pub open spec fn error_description(e: ErrorView) -> Seq<char> {
    match e {
        ErrorView::BadSyntax(_) => "bad syntax"@,
        ErrorView::BadIndex(_) => "out-of-range index"@,
        ErrorView::BadName(_) => "unknown name"@,
        ErrorView::NoSuchFormat(_) => "bad formatting specifier"@,
        ErrorView::UnsatisfiedFormat { .. } => "formatting trait not satisfied"@,
        ErrorView::BadCount(_) => "non-integer used as count"@,
    }
}

fn push_number(out: &mut String, n: usize)
    ensures
        final(out)@ == old(out)@ + digits(n as nat, 10, false),
{
    let d = digits_of(n as u128, 10, false);
    push_range(out, &d, 0, d.len());
    assert(d@.subrange(0, d.len() as int) =~= d@);
}

impl Error {
    /// The error for a format string with violations of the grammar.
    pub fn syntax(errors: &Vec<SyntaxError>) -> (e: Error)
        ensures
            e@ == ErrorView::BadSyntax(syntax_diagnostics(errors@)),
    {
        let mut out: Vec<(String, Option<String>)> = Vec::new();
        let mut i: usize = 0;
        while i < errors.len()
            invariant
                i <= errors.len(),
                out.len() == i,
                diagnostics_view(out@) == syntax_diagnostics(errors@.take(i as int)),
            decreases errors.len() - i,
        {
            let ghost before = out@;
            let d = diagnostic_of(errors[i]);
            out.push(d);
            i += 1;
            assert forall|k: int| 0 <= k < i implies diagnostics_view(out@)[k]
                == syntax_diagnostics(errors@.take(i as int))[k] by {
                if k < i - 1 {
                    assert(out@[k] == before[k]);
                    assert(diagnostics_view(before)[k] == syntax_diagnostics(
                        errors@.take(i - 1),
                    )[k]);
                }
            }
            assert(diagnostics_view(out@) =~= syntax_diagnostics(errors@.take(i as int)));
        }
        assert(errors@.take(errors.len() as int) =~= errors@);
        Error::BadSyntax(out)
    }

    /// A short description of the kind of error.
    pub fn description(&self) -> (s: &'static str)
        ensures
            s@ == error_description(self@),
    {
        match self {
            Error::BadSyntax(_) => "bad syntax",
            Error::BadIndex(_) => "out-of-range index",
            Error::BadName(_) => "unknown name",
            Error::NoSuchFormat(_) => "bad formatting specifier",
            Error::UnsatisfiedFormat { .. } => "formatting trait not satisfied",
            Error::BadCount(_) => "non-integer used as count",
        }
    }

    /// The text of the error.
    pub fn to_text(&self) -> (s: String)
        ensures
            s@ == error_text(self@),
    {
        let mut out = String::new();
        match self {
            Error::BadIndex(i) => {
                out.append("index ");
                push_number(&mut out, *i);
                out.append(" out of range");
                assert(out@ =~= error_text(self@));
            },
            Error::BadName(n) => {
                out.append("unknown name ");
                let shown = debug_str_text(n.as_str());
                out.append(shown.as_str());
                assert(out@ =~= error_text(self@));
            },
            Error::NoSuchFormat(c) => {
                out.append("bad formatting specifier ");
                let shown = debug_str_text(c.as_str());
                out.append(shown.as_str());
                assert(out@ =~= error_text(self@));
            },
            Error::UnsatisfiedFormat { idx, must_implement } => {
                out.append("argument ");
                push_number(&mut out, *idx);
                out.append(" does not implement ");
                out.append(must_implement);
                assert(out@ =~= error_text(self@));
            },
            Error::BadCount(i) => {
                out.append("argument ");
                push_number(&mut out, *i);
                out.append(" cannot be used as a count");
                assert(out@ =~= error_text(self@));
            },
            Error::BadSyntax(errors) => {
                let ghost ds = diagnostics_view(errors@);
                let mut i: usize = 0;
                while i < errors.len()
                    invariant
                        i <= errors.len(),
                        ds == diagnostics_view(errors@),
                        out@ == diagnostics_text(ds.take(i as int)),
                    decreases errors.len() - i,
                {
                    let ghost before = out@;
                    if i > 0 {
                        out.append("; ");
                    }
                    let ghost start = out@;
                    out.append(errors[i].0.as_str());
                    match &errors[i].1 {
                        Some(more) => {
                            out.append(" (");
                            out.append(more.as_str());
                            out.append(")");
                        },
                        None => {},
                    }
                    assert(out@ =~= start + diagnostic_text(ds[i as int]));
                    assert(ds.take(i + 1).drop_last() =~= ds.take(i as int));
                    assert(ds.take(i + 1).last() == ds[i as int]);
                    i += 1;
                    assert(out@ =~= diagnostics_text(ds.take(i as int)));
                }
                assert(ds.take(errors.len() as int) =~= ds);
            },
        }
        out
    }
}

} // verus!
