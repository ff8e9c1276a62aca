//! The values that can be formatted, and what each kind of value supports.

use vstd::prelude::*;

verus! {

/// The shape of a value: what is known of it before the value itself is.
#[derive(Clone, Copy, Debug, PartialEq, Eq, Structural)]
pub enum ValueType {
    Str,
    Char,
    Bool,
    I8,
    I16,
    I32,
    I64,
    I128,
    Isize,
    U8,
    U16,
    U32,
    U64,
    U128,
    Usize,
    /// A value that supports no display kind.
    Opaque,
}

/// A display kind: one of the ways in which a value can be rendered.
#[derive(Clone, Copy, Debug, PartialEq, Eq, Structural)]
pub enum FormatTrait {
    Display,
    Debug,
    LowerExp,
    UpperExp,
    Octal,
    Pointer,
    Binary,
    LowerHex,
    UpperHex,
}

impl ValueType {
    pub open spec fn is_signed(self) -> bool {
        self == ValueType::I8 || self == ValueType::I16 || self == ValueType::I32 || self
            == ValueType::I64 || self == ValueType::I128 || self == ValueType::Isize
    }

    pub open spec fn is_unsigned(self) -> bool {
        self == ValueType::U8 || self == ValueType::U16 || self == ValueType::U32 || self
            == ValueType::U64 || self == ValueType::U128 || self == ValueType::Usize
    }

    pub open spec fn is_integer(self) -> bool {
        self.is_signed() || self.is_unsigned()
    }

    /// The largest number that fits in as many bits as an integer of this
    /// type has.
    pub open spec fn unsigned_max(self) -> nat {
        match self {
            ValueType::I8 | ValueType::U8 => 0xff,
            ValueType::I16 | ValueType::U16 => 0xffff,
            ValueType::I32 | ValueType::U32 => 0xffff_ffff,
            ValueType::I64 | ValueType::U64 => 0xffff_ffff_ffff_ffff,
            ValueType::I128 | ValueType::U128 => 0xffff_ffff_ffff_ffff_ffff_ffff_ffff_ffff,
            ValueType::Isize | ValueType::Usize => usize::MAX as nat,
            _ => 0,
        }
    }
}

impl FormatTrait {
    /// Which kinds a value of type `ty` supports: text has `Display`,
    /// `Debug` and (as a reference) `Pointer`; characters and booleans have
    /// `Display` and `Debug`; integers have every kind but `Pointer`.
    pub open spec fn spec_allowed(self, ty: ValueType) -> bool {
        match ty {
            ValueType::Str => self == FormatTrait::Display || self == FormatTrait::Debug || self
                == FormatTrait::Pointer,
            ValueType::Char | ValueType::Bool => self == FormatTrait::Display || self
                == FormatTrait::Debug,
            ValueType::Opaque => false,
            _ => self != FormatTrait::Pointer,
        }
    }

    /// Does a value of type `ty` support this kind?
    pub fn allowed(self, ty: ValueType) -> (r: bool)
        ensures
            r == self.spec_allowed(ty),
    {
        match ty {
            ValueType::Str => match self {
                FormatTrait::Display | FormatTrait::Debug | FormatTrait::Pointer => true,
                _ => false,
            },
            ValueType::Char | ValueType::Bool => match self {
                FormatTrait::Display | FormatTrait::Debug => true,
                _ => false,
            },
            ValueType::Opaque => false,
            _ => match self {
                FormatTrait::Pointer => false,
                _ => true,
            },
        }
    }

    pub open spec fn spec_name(self) -> Seq<char> {
        match self {
            FormatTrait::Display => "Display"@,
            FormatTrait::Debug => "Debug"@,
            FormatTrait::LowerExp => "LowerExp"@,
            FormatTrait::UpperExp => "UpperExp"@,
            FormatTrait::Octal => "Octal"@,
            FormatTrait::Pointer => "Pointer"@,
            FormatTrait::Binary => "Binary"@,
            FormatTrait::LowerHex => "LowerHex"@,
            FormatTrait::UpperHex => "UpperHex"@,
        }
    }

    /// The name of the kind.
    pub fn name(self) -> (s: &'static str)
        ensures
            s@ == self.spec_name(),
    {
        match self {
            FormatTrait::Display => "Display",
            FormatTrait::Debug => "Debug",
            FormatTrait::LowerExp => "LowerExp",
            FormatTrait::UpperExp => "UpperExp",
            FormatTrait::Octal => "Octal",
            FormatTrait::Pointer => "Pointer",
            FormatTrait::Binary => "Binary",
            FormatTrait::LowerHex => "LowerHex",
            FormatTrait::UpperHex => "UpperHex",
        }
    }

    /// The kind that a code of the format string stands for: the empty code
    /// for `Display`, `?` for `Debug`, and one letter for each of the others.
    pub open spec fn of_code(code: Seq<char>) -> Option<FormatTrait> {
        if code.len() == 0 {
            Some(FormatTrait::Display)
        } else if code.len() == 1 {
            let c = code[0];
            if c == '?' {
                Some(FormatTrait::Debug)
            } else if c == 'e' {
                Some(FormatTrait::LowerExp)
            } else if c == 'E' {
                Some(FormatTrait::UpperExp)
            } else if c == 'o' {
                Some(FormatTrait::Octal)
            } else if c == 'p' {
                Some(FormatTrait::Pointer)
            } else if c == 'b' {
                Some(FormatTrait::Binary)
            } else if c == 'x' {
                Some(FormatTrait::LowerHex)
            } else if c == 'X' {
                Some(FormatTrait::UpperHex)
            } else {
                None
            }
        } else {
            None
        }
    }

    /// Reads the code `chars[start..end]`.
    pub fn from_code(chars: &Vec<char>, start: usize, end: usize) -> (r: Option<FormatTrait>)
        requires
            start <= end <= chars.len(),
        ensures
            r == FormatTrait::of_code(chars@.subrange(start as int, end as int)),
    {
        let ghost code = chars@.subrange(start as int, end as int);
        if end == start {
            Some(FormatTrait::Display)
        } else if end - start == 1 {
            let c = chars[start];
            assert(code[0] == c);
            if c == '?' {
                Some(FormatTrait::Debug)
            } else if c == 'e' {
                Some(FormatTrait::LowerExp)
            } else if c == 'E' {
                Some(FormatTrait::UpperExp)
            } else if c == 'o' {
                Some(FormatTrait::Octal)
            } else if c == 'p' {
                Some(FormatTrait::Pointer)
            } else if c == 'b' {
                Some(FormatTrait::Binary)
            } else if c == 'x' {
                Some(FormatTrait::LowerHex)
            } else if c == 'X' {
                Some(FormatTrait::UpperHex)
            } else {
                None
            }
        } else {
            None
        }
    }
}

/// A value to be formatted.
#[derive(Clone, Copy, Debug)]
pub enum Value<'a> {
    Str(&'a str),
    Char(char),
    Bool(bool),
    I8(i8),
    I16(i16),
    I32(i32),
    I64(i64),
    I128(i128),
    Isize(isize),
    U8(u8),
    U16(u16),
    U32(u32),
    U64(u64),
    U128(u128),
    Usize(usize),
    /// A value that supports no display kind.
    Opaque,
}

/// What a value is, mathematically.
pub enum ValueView {
    Str(Seq<char>),
    Char(char),
    Bool(bool),
    Int { ty: ValueType, value: int },
    Opaque,
}

impl ValueView {
    pub open spec fn ty(self) -> ValueType {
        match self {
            ValueView::Str(_) => ValueType::Str,
            ValueView::Char(_) => ValueType::Char,
            ValueView::Bool(_) => ValueType::Bool,
            ValueView::Int { ty, value } => ty,
            ValueView::Opaque => ValueType::Opaque,
        }
    }

    /// The value as a count: an integer that fits in `usize`.
    pub open spec fn as_count(self) -> Option<usize> {
        match self {
            ValueView::Int { ty, value } => if 0 <= value <= usize::MAX {
                Some(value as usize)
            } else {
                None
            },
            _ => None,
        }
    }

    /// An integer lies in the range of its type.
    pub open spec fn wf(self) -> bool {
        match self {
            ValueView::Int { ty, value } => {
                &&& ty.is_integer()
                &&& ty.is_unsigned() ==> 0 <= value <= ty.unsigned_max()
                &&& ty.is_signed() ==> -(ty.unsigned_max() + 1) / 2 <= value <= (ty.unsigned_max()
                    - 1) / 2
            },
            _ => true,
        }
    }
}

/// An integer taken apart: its sign, its absolute value, and the unsigned
/// number with the same bits.
#[derive(Clone, Copy)]
pub struct IntParts {
    pub negative: bool,
    pub magnitude: u128,
    pub bits: u128,
}

pub open spec fn int_parts(ty: ValueType, value: int) -> IntParts {
    IntParts {
        negative: value < 0,
        magnitude: (if value < 0 { -value } else { value }) as u128,
        bits: (if value < 0 { ty.unsigned_max() + 1 + value } else { value }) as u128,
    }
}

fn signed_parts(v: i128, max: u128, Ghost(ty): Ghost<ValueType>) -> (r: IntParts)
    requires
        ty.is_signed(),
        max == ty.unsigned_max(),
        -(max + 1) / 2 <= v <= (max - 1) / 2,
    ensures
        r == int_parts(ty, v as int),
{
    if v >= 0 {
        IntParts { negative: false, magnitude: v as u128, bits: v as u128 }
    } else {
        let below: u128 = (-(v + 1)) as u128;
        IntParts { negative: true, magnitude: below + 1, bits: max - below }
    }
}

fn unsigned_parts(v: u128, Ghost(ty): Ghost<ValueType>) -> (r: IntParts)
    ensures
        r == int_parts(ty, v as int),
{
    IntParts { negative: false, magnitude: v, bits: v }
}

impl<'a> View for Value<'a> {
    type V = ValueView;

    open spec fn view(&self) -> ValueView {
        match *self {
            Value::Str(s) => ValueView::Str(s@),
            Value::Char(c) => ValueView::Char(c),
            Value::Bool(b) => ValueView::Bool(b),
            Value::I8(v) => ValueView::Int { ty: ValueType::I8, value: v as int },
            Value::I16(v) => ValueView::Int { ty: ValueType::I16, value: v as int },
            Value::I32(v) => ValueView::Int { ty: ValueType::I32, value: v as int },
            Value::I64(v) => ValueView::Int { ty: ValueType::I64, value: v as int },
            Value::I128(v) => ValueView::Int { ty: ValueType::I128, value: v as int },
            Value::Isize(v) => ValueView::Int { ty: ValueType::Isize, value: v as int },
            Value::U8(v) => ValueView::Int { ty: ValueType::U8, value: v as int },
            Value::U16(v) => ValueView::Int { ty: ValueType::U16, value: v as int },
            Value::U32(v) => ValueView::Int { ty: ValueType::U32, value: v as int },
            Value::U64(v) => ValueView::Int { ty: ValueType::U64, value: v as int },
            Value::U128(v) => ValueView::Int { ty: ValueType::U128, value: v as int },
            Value::Usize(v) => ValueView::Int { ty: ValueType::Usize, value: v as int },
            Value::Opaque => ValueView::Opaque,
        }
    }
}

impl<'a> Value<'a> {
    /// The type of the value.
    pub fn ty(&self) -> (t: ValueType)
        ensures
            t == self@.ty(),
    {
        match self {
            Value::Str(_) => ValueType::Str,
            Value::Char(_) => ValueType::Char,
            Value::Bool(_) => ValueType::Bool,
            Value::I8(_) => ValueType::I8,
            Value::I16(_) => ValueType::I16,
            Value::I32(_) => ValueType::I32,
            Value::I64(_) => ValueType::I64,
            Value::I128(_) => ValueType::I128,
            Value::Isize(_) => ValueType::Isize,
            Value::U8(_) => ValueType::U8,
            Value::U16(_) => ValueType::U16,
            Value::U32(_) => ValueType::U32,
            Value::U64(_) => ValueType::U64,
            Value::U128(_) => ValueType::U128,
            Value::Usize(_) => ValueType::Usize,
            Value::Opaque => ValueType::Opaque,
        }
    }

    /// Sign, absolute value and bits of an integer; `None` for anything else.
    pub fn parts(&self) -> (r: Option<IntParts>)
        ensures
            self@.wf(),
            match self@ {
                ValueView::Int { ty, value } => r == Some(int_parts(ty, value)),
                _ => r is None,
            },
    {
        match *self {
            Value::I8(v) => Some(signed_parts(v as i128, 0xff, Ghost(ValueType::I8))),
            Value::I16(v) => Some(signed_parts(v as i128, 0xffff, Ghost(ValueType::I16))),
            Value::I32(v) => Some(signed_parts(v as i128, 0xffff_ffff, Ghost(ValueType::I32))),
            Value::I64(v) => Some(
                signed_parts(v as i128, 0xffff_ffff_ffff_ffff, Ghost(ValueType::I64)),
            ),
            Value::I128(v) => Some(signed_parts(v, u128::MAX, Ghost(ValueType::I128))),
            Value::Isize(v) => Some(
                signed_parts(v as i128, usize::MAX as u128, Ghost(ValueType::Isize)),
            ),
            Value::U8(v) => Some(unsigned_parts(v as u128, Ghost(ValueType::U8))),
            Value::U16(v) => Some(unsigned_parts(v as u128, Ghost(ValueType::U16))),
            Value::U32(v) => Some(unsigned_parts(v as u128, Ghost(ValueType::U32))),
            Value::U64(v) => Some(unsigned_parts(v as u128, Ghost(ValueType::U64))),
            Value::U128(v) => Some(unsigned_parts(v, Ghost(ValueType::U128))),
            Value::Usize(v) => Some(unsigned_parts(v as u128, Ghost(ValueType::Usize))),
            _ => None,
        }
    }

    /// The value as a count, if it is an integer that fits in `usize`.
    pub fn as_usize(&self) -> (r: Option<usize>)
        ensures
            r == self@.as_count(),
    {
        match self.parts() {
            Some(p) => {
                if !p.negative && p.magnitude <= usize::MAX as u128 {
                    Some(p.magnitude as usize)
                } else {
                    None
                }
            },
            None => None,
        }
    }
}

/// `format!("{:p}", s.as_ptr())`: the address of the text. Nothing is known
/// of it.
#[verifier::external_body]
fn address_text(s: &str) -> (out: String) {
    format!("{:p}", s.as_ptr())
}

/// A value with an optional name.
///
/// For text, the parameter also records where the text lies in memory, so
/// that the `Pointer` kind renders the same for as long as the parameter
/// lives.
pub struct Param<'a> {
    name: Option<String>,
    value: Value<'a>,
    address: String,
}

/// What a parameter is, mathematically.
pub struct ParamView {
    pub name: Option<Seq<char>>,
    pub value: ValueView,
    /// The address of the text as the formatter prints it; empty unless the
    /// value is text.
    pub address: Seq<char>,
}

impl<'a> View for Param<'a> {
    type V = ParamView;

    closed spec fn view(&self) -> ParamView {
        ParamView {
            name: match self.name {
                Some(n) => Some(n@),
                None => None,
            },
            value: self.value@,
            address: self.address@,
        }
    }
}

impl<'a> Param<'a> {
    fn make(name: Option<String>, value: Value<'a>) -> (p: Param<'a>)
        ensures
            p@.value == value@,
            p@.value.wf(),
            p@.name == match name {
                Some(n) => Some(n@),
                None => None,
            },
            !(value@ is Str) ==> p@.address == Seq::<char>::empty(),
    {
        let _ = value.parts();
        let address = match value {
            Value::Str(s) => address_text(s),
            _ => String::new(),
        };
        Param { name, value, address }
    }

    /// A parameter without a name.
    pub fn normal(value: Value<'a>) -> (p: Param<'a>)
        ensures
            p@.name is None,
            p@.value == value@,
            p@.value.wf(),
            !(value@ is Str) ==> p@.address == Seq::<char>::empty(),
    {
        Param::make(None, value)
    }

    /// A parameter with a name.
    pub fn named(name: &str, value: Value<'a>) -> (p: Param<'a>)
        ensures
            p@.name == Some(name@),
            p@.value == value@,
            p@.value.wf(),
            !(value@ is Str) ==> p@.address == Seq::<char>::empty(),
    {
        Param::make(Some(name.to_owned()), value)
    }

    /// The name, if the parameter has one.
    pub fn name(&self) -> (n: &Option<String>)
        ensures
            self@.name == match *n {
                Some(s) => Some(s@),
                None => None,
            },
    {
        &self.name
    }

    /// The value.
    pub fn value(&self) -> (v: Value<'a>)
        ensures
            v@ == self@.value,
    {
        self.value
    }

    /// The address of the text as the formatter prints it.
    pub fn address(&self) -> (s: &String)
        ensures
            s@ == self@.address,
    {
        &self.address
    }
}

/// The views of a slice of parameters.
pub open spec fn param_views(params: Seq<Param<'_>>) -> Seq<ParamView> {
    Seq::new(params.len(), |i: int| params[i]@)
}

} // verus!
