//! Rendering one value under one display kind: digits, signs, prefixes,
//! truncation and padding.

use vstd::prelude::*;
use vstd::arithmetic::div_mod::{
    lemma_basic_div, lemma_div_decreases, lemma_div_non_zero, lemma_mod_bound, lemma_small_mod,
};
use vstd::utf8::encode_utf8;
use crate::grammar::{Alignment, Flags};
use crate::text::{chars_of, push_range, push_repeat, repeat};
use crate::value::{int_parts, FormatTrait, IntParts, Param, ParamView, Value, ValueType, ValueView};

verus! {

/// How one argument is laid out, with width and precision known.
#[derive(Clone, Copy, Debug, PartialEq, Eq, Structural)]
pub struct Layout {
    pub fill: char,
    pub align: Alignment,
    pub flags: Flags,
    pub width: Option<usize>,
    pub precision: Option<usize>,
}

/// The layout of `{}`.
pub open spec fn default_layout() -> Layout {
    Layout {
        fill: ' ',
        align: Alignment::Unknown,
        flags: Flags { sign_plus: false, alternate: false, zero_pad: false },
        width: None,
        precision: None,
    }
}

/// How many fill characters a body of `len` characters needs to reach
/// `width`.
pub open spec fn padding(len: nat, width: Option<usize>) -> nat {
    match width {
        Some(w) => if w > len {
            (w - len) as nat
        } else {
            0
        },
        None => 0,
    }
}

pub open spec fn effective(align: Alignment, default: Alignment) -> Alignment {
    if align == Alignment::Unknown {
        default
    } else {
        align
    }
}

/// `body` filled up to `width`: the fill goes after the body when it is
/// aligned left, before it when aligned right, and on both sides, the
/// smaller half first, when centred.
pub open spec fn pad(
    body: Seq<char>,
    width: Option<usize>,
    fill: char,
    align: Alignment,
    default: Alignment,
) -> Seq<char> {
    let n = padding(body.len(), width);
    match effective(align, default) {
        Alignment::Right => repeat(fill, n) + body,
        Alignment::Center => repeat(fill, n / 2) + body + repeat(fill, (n + 1) / 2),
        _ => body + repeat(fill, n),
    }
}

/// At most `precision` characters of `s`.
pub open spec fn truncate(s: Seq<char>, precision: Option<usize>) -> Seq<char> {
    match precision {
        Some(p) => if p < s.len() {
            s.take(p as int)
        } else {
            s
        },
        None => s,
    }
}

/// Text as `Display` renders it: cut to the precision, filled to the width,
/// aligned left unless told otherwise. Flags do not matter.
pub open spec fn pad_text(s: Seq<char>, layout: Layout) -> Seq<char> {
    pad(truncate(s, layout.precision), layout.width, layout.fill, layout.align, Alignment::Left)
}

pub open spec fn sign_text(negative: bool, flags: Flags) -> Seq<char> {
    if negative {
        seq!['-']
    } else if flags.sign_plus {
        seq!['+']
    } else {
        Seq::empty()
    }
}

/// What stands before the digits of a number: the sign, and the prefix in
/// alternate form.
pub open spec fn number_head(negative: bool, prefix: Seq<char>, flags: Flags) -> Seq<char> {
    sign_text(negative, flags) + (if flags.alternate {
        prefix
    } else {
        Seq::empty()
    })
}

pub open spec fn width_after(width: Option<usize>, used: nat) -> Option<usize> {
    match width {
        Some(w) => Some(
            if w > used {
                (w - used) as usize
            } else {
                0usize
            },
        ),
        None => None,
    }
}

/// A number as it is rendered: sign, prefix and digits, aligned right unless
/// told otherwise. With the zero flag the fill is `0` and stands between the
/// head and the digits, whatever fill and alignment say.
pub open spec fn pad_integral(
    negative: bool,
    prefix: Seq<char>,
    digits: Seq<char>,
    layout: Layout,
) -> Seq<char> {
    let head = number_head(negative, prefix, layout.flags);
    if layout.flags.zero_pad {
        head + pad(
            digits,
            width_after(layout.width, head.len()),
            '0',
            Alignment::Right,
            Alignment::Right,
        )
    } else {
        pad(head + digits, layout.width, layout.fill, layout.align, Alignment::Right)
    }
}

/// The digit for `d` in a base up to sixteen.
pub open spec fn digit_char(d: nat, upper: bool) -> char {
    if d < 10 {
        (48 + d) as char
    } else if upper {
        (55 + d) as char
    } else {
        (87 + d) as char
    }
}

/// The digits of `n` in `base`, most significant first, without leading
/// zeros; `0` for zero.
pub open spec fn digits(n: nat, base: nat, upper: bool) -> Seq<char>
    decreases n,
{
    if base < 2 || n < base {
        seq![digit_char(n, upper)]
    } else {
        proof {
            lemma_div_decreases(n as int, base as int);
        }
        digits(n / base, base, upper).push(digit_char(n % base, upper))
    }
}

/// What `Debug` prints for text: the text in quotes, with escapes.
pub uninterp spec fn debug_str(s: Seq<char>) -> Seq<char>;

/// What `Debug` prints for a character: the character in quotes, escaped.
pub uninterp spec fn debug_char(c: char) -> Seq<char>;

/// What `LowerExp` prints for an unsigned integer with the given precision,
/// before sign and padding.
pub uninterp spec fn lower_exp(v: u128, precision: Option<usize>) -> Seq<char>;

/// What `UpperExp` prints for an unsigned integer with the given precision,
/// before sign and padding.
pub uninterp spec fn upper_exp(v: u128, precision: Option<usize>) -> Seq<char>;

/// `format!("{:?}", s)` for text.
#[verifier::external_body]
pub(crate) fn debug_str_text(s: &str) -> (out: String)
    ensures
        out@ == debug_str(s@),
{
    format!("{:?}", s)
}

/// `format!("{:?}", c)` for a character.
#[verifier::external_body]
pub(crate) fn debug_char_text(c: char) -> (out: String)
    ensures
        out@ == debug_char(c),
{
    format!("{:?}", c)
}

/// `format!("{:e}", v)`, with `precision` where one is given. A precision
/// beyond `u16::MAX` is not accepted by the formatter.
#[verifier::external_body]
pub(crate) fn lower_exp_text(v: u128, precision: Option<usize>) -> (out: String)
    requires
        precision matches Some(p) ==> p <= u16::MAX,
    ensures
        out@ == lower_exp(v, precision),
{
    match precision {
        Some(p) => format!("{:.1$e}", v, p),
        None => format!("{:e}", v),
    }
}

/// `format!("{:E}", v)`, with `precision` where one is given. A precision
/// beyond `u16::MAX` is not accepted by the formatter.
#[verifier::external_body]
pub(crate) fn upper_exp_text(v: u128, precision: Option<usize>) -> (out: String)
    requires
        precision matches Some(p) ==> p <= u16::MAX,
    ensures
        out@ == upper_exp(v, precision),
{
    match precision {
        Some(p) => format!("{:.1$E}", v, p),
        None => format!("{:E}", v),
    }
}

/// The precision handed to the exponent formatter: it takes no more than
/// `u16::MAX`.
pub open spec fn exp_precision(precision: Option<usize>) -> Option<usize> {
    match precision {
        Some(p) => Some(
            if p > u16::MAX {
                u16::MAX as usize
            } else {
                p
            },
        ),
        None => None,
    }
}

pub open spec fn bool_text(b: bool) -> Seq<char> {
    if b {
        seq!['t', 'r', 'u', 'e']
    } else {
        seq!['f', 'a', 'l', 's', 'e']
    }
}

pub open spec fn hex_prefix() -> Seq<char> {
    seq!['0', 'x']
}

/// The digits of an address as the formatter prints it: what follows `0x`.
pub open spec fn pointer_digits(address: Seq<char>) -> Seq<char> {
    if address.len() >= 2 && address[0] == '0' && address[1] == 'x' {
        address.skip(2)
    } else {
        address
    }
}

/// The layout under which the digits of an address are rendered: always in
/// alternate form; where alternate form was asked for, zero-padded to the
/// full width of an address.
pub open spec fn pointer_layout(layout: Layout) -> Layout {
    Layout {
        fill: layout.fill,
        align: layout.align,
        flags: Flags {
            sign_plus: layout.flags.sign_plus,
            alternate: true,
            zero_pad: layout.flags.zero_pad || layout.flags.alternate,
        },
        width: if layout.flags.alternate && layout.width is None {
            Some((usize::BITS / 4 + 2) as usize)
        } else {
            layout.width
        },
        precision: layout.precision,
    }
}

/// An address as `Pointer` renders it.
pub open spec fn render_pointer(address: Seq<char>, layout: Layout) -> Seq<char> {
    pad_integral(false, hex_prefix(), pointer_digits(address), pointer_layout(layout))
}

/// A reference to text as `Pointer` renders it: the address and the length
/// in bytes, both under the layout, as the fields of a structure; in
/// alternate form each field stands on a line of its own.
pub open spec fn render_reference(address: Seq<char>, bytes: usize, layout: Layout) -> Seq<char> {
    if layout.flags.alternate {
        "Pointer {\n    addr: "@ + render_pointer(address, layout) + ",\n    metadata: "@
            + render_int(FormatTrait::Debug, ValueType::Usize, bytes as int, layout) + ",\n}"@
    } else {
        "Pointer { addr: "@ + render_pointer(address, layout) + ", metadata: "@ + render_int(
            FormatTrait::Debug,
            ValueType::Usize,
            bytes as int,
            layout,
        ) + " }"@
    }
}

/// An integer under a display kind.
pub open spec fn render_int(kind: FormatTrait, ty: ValueType, value: int, layout: Layout) -> Seq<
    char,
> {
    let parts = int_parts(ty, value);
    match kind {
        FormatTrait::Display | FormatTrait::Debug => pad_integral(
            parts.negative,
            Seq::empty(),
            digits(parts.magnitude as nat, 10, false),
            layout,
        ),
        FormatTrait::LowerHex => pad_integral(
            false,
            hex_prefix(),
            digits(parts.bits as nat, 16, false),
            layout,
        ),
        FormatTrait::UpperHex => pad_integral(
            false,
            hex_prefix(),
            digits(parts.bits as nat, 16, true),
            layout,
        ),
        FormatTrait::Octal => pad_integral(
            false,
            seq!['0', 'o'],
            digits(parts.bits as nat, 8, false),
            layout,
        ),
        FormatTrait::Binary => pad_integral(
            false,
            seq!['0', 'b'],
            digits(parts.bits as nat, 2, false),
            layout,
        ),
        FormatTrait::LowerExp => pad_integral(
            parts.negative,
            Seq::empty(),
            lower_exp(parts.magnitude, exp_precision(layout.precision)),
            layout,
        ),
        FormatTrait::UpperExp => pad_integral(
            parts.negative,
            Seq::empty(),
            upper_exp(parts.magnitude, exp_precision(layout.precision)),
            layout,
        ),
        FormatTrait::Pointer => Seq::empty(),
    }
}

/// A parameter under a display kind and a layout. Where the value does not
/// support the kind, nothing is rendered.
pub open spec fn render_value(kind: FormatTrait, p: ParamView, layout: Layout) -> Seq<char> {
    match p.value {
        ValueView::Str(s) => match kind {
            FormatTrait::Display => pad_text(s, layout),
            FormatTrait::Debug => debug_str(s),
            FormatTrait::Pointer => render_reference(
                p.address,
                encode_utf8(s).len() as usize,
                layout,
            ),
            _ => Seq::empty(),
        },
        ValueView::Char(c) => match kind {
            FormatTrait::Display => pad_text(seq![c], layout),
            FormatTrait::Debug => debug_char(c),
            _ => Seq::empty(),
        },
        ValueView::Bool(b) => match kind {
            FormatTrait::Display | FormatTrait::Debug => pad_text(bool_text(b), layout),
            _ => Seq::empty(),
        },
        ValueView::Int { ty, value } => render_int(kind, ty, value, layout),
        ValueView::Opaque => Seq::empty(),
    }
}

fn digit(d: u8, upper: bool) -> (c: char)
    requires
        d < 16,
    ensures
        c == digit_char(d as nat, upper),
{
    if d < 10 {
        (48u8 + d) as char
    } else if upper {
        (55u8 + d) as char
    } else {
        (87u8 + d) as char
    }
}

spec fn rest_digits(m: nat, base: nat, upper: bool) -> Seq<char> {
    if m == 0 {
        Seq::empty()
    } else {
        digits(m, base, upper)
    }
}

spec fn reversed(s: Seq<char>) -> Seq<char> {
    Seq::new(s.len(), |i: int| s[s.len() - 1 - i])
}

proof fn lemma_digits_step(m: nat, base: nat, upper: bool)
    requires
        2 <= base,
    ensures
        digits(m, base, upper) == rest_digits(m / base, base, upper).push(
            digit_char(m % base, upper),
        ),
        m % base < base,
        m > 0 ==> m / base < m,
{
    lemma_mod_bound(m as int, base as int);
    if m < base {
        lemma_basic_div(m as int, base as int);
        lemma_small_mod(m, base);
        assert(digits(m, base, upper) =~= Seq::<char>::empty().push(digit_char(m, upper)));
    } else {
        lemma_div_non_zero(m as int, base as int);
        lemma_div_decreases(m as int, base as int);
    }
}

/// The digits of `n` in `base`.
pub fn digits_of(n: u128, base: u128, upper: bool) -> (v: Vec<char>)
    requires
        2 <= base <= 16,
    ensures
        v@ == digits(n as nat, base as nat, upper),
{
    let mut rev: Vec<char> = Vec::new();
    let mut m: u128 = n;
    proof {
        lemma_digits_step(m as nat, base as nat, upper);
    }
    rev.push(digit((m % base) as u8, upper));
    m = m / base;
    assert(digits(n as nat, base as nat, upper) =~= rest_digits(m as nat, base as nat, upper)
        + reversed(rev@));
    while m > 0
        invariant
            2 <= base <= 16,
            digits(n as nat, base as nat, upper) == rest_digits(m as nat, base as nat, upper)
                + reversed(rev@),
        decreases m,
    {
        proof {
            lemma_digits_step(m as nat, base as nat, upper);
        }
        let ghost before = rev@;
        let ghost d = digit_char((m % base) as nat, upper);
        rev.push(digit((m % base) as u8, upper));
        assert(reversed(rev@) =~= seq![d] + reversed(before));
        assert(rest_digits((m / base) as nat, base as nat, upper).push(d) + reversed(before)
            =~= rest_digits((m / base) as nat, base as nat, upper) + (seq![d] + reversed(before)));
        m = m / base;
    }
    let mut out: Vec<char> = Vec::new();
    let mut k: usize = rev.len();
    while k > 0
        invariant
            k <= rev.len(),
            out@ == reversed(rev@).take(rev.len() - k),
        decreases k,
    {
        k -= 1;
        out.push(rev[k]);
        assert(out@ =~= reversed(rev@).take(rev.len() - k));
    }
    assert(out@ =~= reversed(rev@));
    assert(rest_digits(0, base as nat, upper) + reversed(rev@) =~= reversed(rev@));
    out
}

fn padding_of(len: usize, width: Option<usize>) -> (n: usize)
    ensures
        n == padding(len as nat, width),
{
    match width {
        Some(w) => if w > len {
            w - len
        } else {
            0
        },
        None => 0,
    }
}

/// Appends `body[..end]`, filled up to `width`, to `out`.
pub fn write_padded(
    out: &mut String,
    body: &Vec<char>,
    end: usize,
    width: Option<usize>,
    fill: char,
    align: Alignment,
    default: Alignment,
)
    requires
        end <= body.len(),
    ensures
        final(out)@ == old(out)@ + pad(body@.take(end as int), width, fill, align, default),
{
    let n: usize = padding_of(end, width);
    let a = if align == Alignment::Unknown { default } else { align };
    let ghost text = body@.take(end as int);
    assert(text =~= body@.subrange(0, end as int));
    match a {
        Alignment::Right => {
            push_repeat(out, fill, n);
            push_range(out, body, 0, end);
            assert(out@ =~= old(out)@ + (repeat(fill, n as nat) + text));
        },
        Alignment::Center => {
            let pre: usize = n / 2;
            let post: usize = n - pre;
            assert(post == (n + 1) / 2);
            push_repeat(out, fill, pre);
            push_range(out, body, 0, end);
            push_repeat(out, fill, post);
            assert(out@ =~= old(out)@ + (repeat(fill, pre as nat) + text + repeat(
                fill,
                post as nat,
            )));
        },
        _ => {
            push_range(out, body, 0, end);
            push_repeat(out, fill, n);
            assert(out@ =~= old(out)@ + (text + repeat(fill, n as nat)));
        },
    }
}

/// Appends text as `Display` renders it.
pub fn write_text(out: &mut String, body: &Vec<char>, layout: &Layout)
    ensures
        final(out)@ == old(out)@ + pad_text(body@, *layout),
{
    let end: usize = match layout.precision {
        Some(p) => if p < body.len() {
            p
        } else {
            body.len()
        },
        None => body.len(),
    };
    assert(body@.take(end as int) =~= truncate(body@, layout.precision));
    write_padded(out, body, end, layout.width, layout.fill, layout.align, Alignment::Left);
}

fn append_chars(to: &mut Vec<char>, from: &Vec<char>, start: usize)
    requires
        start <= from.len(),
    ensures
        final(to)@ == old(to)@ + from@.skip(start as int),
{
    let mut i: usize = start;
    while i < from.len()
        invariant
            start <= i <= from.len(),
            to@ == old(to)@ + from@.subrange(start as int, i as int),
        decreases from.len() - i,
    {
        to.push(from[i]);
        i += 1;
        assert(to@ =~= old(to)@ + from@.subrange(start as int, i as int));
    }
    assert(from@.subrange(start as int, from.len() as int) =~= from@.skip(start as int));
}

/// Appends a number: sign, prefix and digits under `layout`.
pub fn write_integral(
    out: &mut String,
    negative: bool,
    prefix: &Vec<char>,
    body: &Vec<char>,
    layout: &Layout,
)
    ensures
        final(out)@ == old(out)@ + pad_integral(negative, prefix@, body@, *layout),
{
    let mut head: Vec<char> = Vec::new();
    if negative {
        head.push('-');
    } else if layout.flags.sign_plus {
        head.push('+');
    }
    assert(head@ =~= sign_text(negative, layout.flags));
    if layout.flags.alternate {
        append_chars(&mut head, prefix, 0);
        assert(prefix@.skip(0) =~= prefix@);
    }
    assert(head@ =~= number_head(negative, prefix@, layout.flags));
    assert(body@.take(body.len() as int) =~= body@);
    if layout.flags.zero_pad {
        let rest: Option<usize> = match layout.width {
            Some(w) => Some(
                if w > head.len() {
                    w - head.len()
                } else {
                    0
                },
            ),
            None => None,
        };
        push_range(out, &head, 0, head.len());
        assert(head@.subrange(0, head.len() as int) =~= head@);
        write_padded(out, body, body.len(), rest, '0', Alignment::Right, Alignment::Right);
        assert(out@ =~= old(out)@ + (head@ + pad(
            body@,
            rest,
            '0',
            Alignment::Right,
            Alignment::Right,
        )));
    } else {
        let ghost head_only = head@;
        append_chars(&mut head, body, 0);
        assert(body@.skip(0) =~= body@);
        assert(head@.take(head.len() as int) =~= head_only + body@);
        write_padded(
            out,
            &head,
            head.len(),
            layout.width,
            layout.fill,
            layout.align,
            Alignment::Right,
        );
    }
}

fn exp_precision_of(precision: Option<usize>) -> (r: Option<usize>)
    ensures
        r == exp_precision(precision),
        r matches Some(p) ==> p <= u16::MAX,
{
    match precision {
        Some(p) => Some(
            if p > 0xffff {
                0xffff
            } else {
                p
            },
        ),
        None => None,
    }
}

/// Appends an integer under a display kind.
fn write_int(
    out: &mut String,
    kind: FormatTrait,
    parts: IntParts,
    layout: &Layout,
    Ghost(ty): Ghost<ValueType>,
    Ghost(value): Ghost<int>,
)
    requires
        parts == int_parts(ty, value),
    ensures
        final(out)@ == old(out)@ + render_int(kind, ty, value, *layout),
{
    let empty: Vec<char> = Vec::new();
    assert(empty@ =~= Seq::<char>::empty());
    match kind {
        FormatTrait::Display | FormatTrait::Debug => {
            let body = digits_of(parts.magnitude, 10, false);
            write_integral(out, parts.negative, &empty, &body, layout);
        },
        FormatTrait::LowerHex => {
            let body = digits_of(parts.bits, 16, false);
            let prefix: Vec<char> = vec!['0', 'x'];
            assert(prefix@ =~= hex_prefix());
            write_integral(out, false, &prefix, &body, layout);
        },
        FormatTrait::UpperHex => {
            let body = digits_of(parts.bits, 16, true);
            let prefix: Vec<char> = vec!['0', 'x'];
            assert(prefix@ =~= hex_prefix());
            write_integral(out, false, &prefix, &body, layout);
        },
        FormatTrait::Octal => {
            let body = digits_of(parts.bits, 8, false);
            let prefix: Vec<char> = vec!['0', 'o'];
            assert(prefix@ =~= seq!['0', 'o']);
            write_integral(out, false, &prefix, &body, layout);
        },
        FormatTrait::Binary => {
            let body = digits_of(parts.bits, 2, false);
            let prefix: Vec<char> = vec!['0', 'b'];
            assert(prefix@ =~= seq!['0', 'b']);
            write_integral(out, false, &prefix, &body, layout);
        },
        FormatTrait::LowerExp => {
            let text = lower_exp_text(parts.magnitude, exp_precision_of(layout.precision));
            let body = chars_of(text.as_str());
            write_integral(out, parts.negative, &empty, &body, layout);
        },
        FormatTrait::UpperExp => {
            let text = upper_exp_text(parts.magnitude, exp_precision_of(layout.precision));
            let body = chars_of(text.as_str());
            write_integral(out, parts.negative, &empty, &body, layout);
        },
        FormatTrait::Pointer => {
            assert(out@ =~= old(out)@ + Seq::<char>::empty());
        },
    }
}

/// Appends an address, given as the formatter prints it without flags.
pub fn write_pointer(out: &mut String, address: &String, layout: &Layout)
    ensures
        final(out)@ == old(out)@ + render_pointer(address@, *layout),
{
    let text = chars_of(address.as_str());
    let mut body: Vec<char> = Vec::new();
    if text.len() >= 2 && text[0] == '0' && text[1] == 'x' {
        append_chars(&mut body, &text, 2);
    } else {
        append_chars(&mut body, &text, 0);
        assert(text@.skip(0) =~= text@);
    }
    assert(body@ =~= pointer_digits(address@));
    let width: Option<usize> = if layout.flags.alternate && layout.width.is_none() {
        Some((usize::BITS as usize) / 4 + 2)
    } else {
        layout.width
    };
    let inner = Layout {
        fill: layout.fill,
        align: layout.align,
        flags: Flags {
            sign_plus: layout.flags.sign_plus,
            alternate: true,
            zero_pad: layout.flags.zero_pad || layout.flags.alternate,
        },
        width,
        precision: layout.precision,
    };
    let prefix: Vec<char> = vec!['0', 'x'];
    assert(prefix@ =~= hex_prefix());
    write_integral(out, false, &prefix, &body, &inner);
}

/// Appends a reference to text of `bytes` bytes at `address`.
pub fn write_reference(out: &mut String, address: &String, bytes: usize, layout: &Layout)
    ensures
        final(out)@ == old(out)@ + render_reference(address@, bytes, *layout),
{
    let parts = IntParts { negative: false, magnitude: bytes as u128, bits: bytes as u128 };
    let ghost addr = render_pointer(address@, *layout);
    let ghost meta = render_int(FormatTrait::Debug, ValueType::Usize, bytes as int, *layout);
    if layout.flags.alternate {
        out.append("Pointer {\n    addr: ");
        write_pointer(out, address, layout);
        out.append(",\n    metadata: ");
        write_int(out, FormatTrait::Debug, parts, layout, Ghost(ValueType::Usize), Ghost(
            bytes as int,
        ));
        out.append(",\n}");
        assert(out@ =~= old(out)@ + ("Pointer {\n    addr: "@ + addr + ",\n    metadata: "@ + meta
            + ",\n}"@));
    } else {
        out.append("Pointer { addr: ");
        write_pointer(out, address, layout);
        out.append(", metadata: ");
        write_int(out, FormatTrait::Debug, parts, layout, Ghost(ValueType::Usize), Ghost(
            bytes as int,
        ));
        out.append(" }");
        assert(out@ =~= old(out)@ + ("Pointer { addr: "@ + addr + ", metadata: "@ + meta
            + " }"@));
    }
}

/// Appends `param` under `kind` and `layout`.
pub fn write_value(out: &mut String, kind: FormatTrait, param: &Param, layout: &Layout)
    ensures
        final(out)@ == old(out)@ + render_value(kind, param@, *layout),
{
    let value = param.value();
    match value {
        Value::Str(s) => match kind {
            FormatTrait::Display => {
                let body = chars_of(s);
                write_text(out, &body, layout);
            },
            FormatTrait::Debug => {
                let text = debug_str_text(s);
                out.append(text.as_str());
            },
            FormatTrait::Pointer => {
                write_reference(out, param.address(), s.len(), layout);
            },
            _ => {
                assert(out@ =~= old(out)@ + Seq::<char>::empty());
            },
        },
        Value::Char(c) => match kind {
            FormatTrait::Display => {
                let body: Vec<char> = vec![c];
                assert(body@ =~= seq![c]);
                write_text(out, &body, layout);
            },
            FormatTrait::Debug => {
                let text = debug_char_text(c);
                out.append(text.as_str());
            },
            _ => {
                assert(out@ =~= old(out)@ + Seq::<char>::empty());
            },
        },
        Value::Bool(b) => match kind {
            FormatTrait::Display | FormatTrait::Debug => {
                let body: Vec<char> = if b {
                    vec!['t', 'r', 'u', 'e']
                } else {
                    vec!['f', 'a', 'l', 's', 'e']
                };
                assert(body@ =~= bool_text(b));
                write_text(out, &body, layout);
            },
            _ => {
                assert(out@ =~= old(out)@ + Seq::<char>::empty());
            },
        },
        Value::Opaque => {
            assert(out@ =~= old(out)@ + Seq::<char>::empty());
        },
        _ => {
            match value.parts() {
                Some(parts) => {
                    let ghost ty = value@.ty();
                    let ghost v = value@->value;
                    write_int(out, kind, parts, layout, Ghost(ty), Ghost(v));
                },
                None => {
                    assert(false);
                },
            }
        },
    }
}

} // verus!
