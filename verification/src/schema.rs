//! Describing a record type: its fields, the names and aliases by which a
//! format string may refer to them, and the diagnostics of a faulty
//! description.

use vstd::prelude::*;
use crate::buffer::same_chars;
use crate::codegen::{combine, FormatArgs};
use crate::plan::{ResolvedArgument, Role};
use crate::render::{digits, digits_of};
use crate::text::{chars_of, string_of};
use crate::value::{FormatTrait, ValueType};

verus! {

/// What the messages so far and one more make: messages are separated by
/// line feeds.
pub open spec fn with_message(text: Seq<char>, message: Seq<char>) -> Seq<char> {
    if text.len() == 0 {
        message
    } else {
        text + seq!['\n'] + message
    }
}

/// A collector of diagnostics. It is checked once, at the end.
pub struct Context {
    error: Option<String>,
}

impl Context {
    /// The messages that wait to be checked; `None` once they were.
    pub closed spec fn pending(&self) -> Option<Seq<char>> {
        match self.error {
            Some(s) => Some(s@),
            None => None,
        }
    }

    /// The text of the messages that wait to be checked.
    pub open spec fn text(&self) -> Seq<char> {
        match self.pending() {
            Some(t) => t,
            None => Seq::empty(),
        }
    }

    /// A collector without messages.
    pub fn new() -> (c: Context)
        ensures
            c.pending() == Some(Seq::<char>::empty()),
    {
        Context { error: Some(String::new()) }
    }

    /// Adds a message.
    pub fn error(&mut self, error: &str)
        ensures
            final(self).pending() == Some(with_message(old(self).text(), error@)),
    {
        let mut text = match self.error.take() {
            Some(t) => t,
            None => String::new(),
        };
        if text.as_str().unicode_len() > 0 {
            text.push('\n');
        }
        text.append(error);
        assert(text@ =~= with_message(old(self).text(), error@));
        self.error = Some(text);
    }

    /// Takes the messages: an error with all of them if there is any.
    pub fn check(&mut self) -> (r: Result<(), String>)
        ensures
            final(self).pending() is None,
            match r {
                Ok(_) => old(self).text().len() == 0,
                Err(t) => old(self).text().len() > 0 && t@ == old(self).text(),
            },
    {
        match self.error.take() {
            Some(t) => {
                if t.as_str().unicode_len() > 0 {
                    Err(t)
                } else {
                    Ok(())
                }
            },
            None => Ok(()),
        }
    }
}

/// An attribute that may be given once.
pub struct Attribute<T> {
    pub name: &'static str,
    pub value: Option<T>,
}

pub open spec fn duplicate_attribute(name: Seq<char>) -> Seq<char> {
    "Duplicate attribute provided: "@ + name
}

impl<T> Attribute<T> {
    /// An attribute that has not been given.
    pub fn new(name: &'static str) -> (a: Attribute<T>)
        ensures
            a.name == name,
            a.value is None,
    {
        Attribute { name, value: None }
    }

    /// Gives the attribute its value; a second value is a fault and leaves
    /// the first in place.
    pub fn set(&mut self, value: T, context: &mut Context)
        ensures
            final(self).name == old(self).name,
            old(self).value is None ==> final(self).value == Some(value) && final(context).pending()
                == old(context).pending(),
            old(self).value is Some ==> final(self).value == old(self).value && final(
                context
            ).pending() == Some(
                with_message(old(context).text(), duplicate_attribute(old(self).name@)),
            ),
    {
        if self.value.is_some() {
            let mut message = "Duplicate attribute provided: ".to_owned();
            message.append(self.name);
            context.error(message.as_str());
        } else {
            self.value = Some(value);
        }
    }

    /// The value, if one was given.
    pub fn into(self) -> (v: Option<T>)
        ensures
            v == self.value,
    {
        self.value
    }
}

/// An attribute without a value: given or not.
pub struct BoolAttribute {
    pub inner: Attribute<()>,
}

impl BoolAttribute {
    pub fn new(name: &'static str) -> (a: BoolAttribute)
        ensures
            a.inner.name == name,
            a.inner.value is None,
    {
        BoolAttribute { inner: Attribute::new(name) }
    }

    /// Marks the attribute as given; a second time is a fault.
    pub fn set(&mut self, context: &mut Context)
        ensures
            final(self).inner.name == old(self).inner.name,
            final(self).inner.value is Some,
            old(self).inner.value is None ==> final(context).pending() == old(context).pending(),
            old(self).inner.value is Some ==> final(context).pending() == Some(
                with_message(old(context).text(), duplicate_attribute(old(self).inner.name@)),
            ),
    {
        self.inner.set((), context);
    }

    /// Was the attribute given?
    pub fn into(self) -> (v: bool)
        ensures
            v == (self.inner.value is Some),
    {
        self.inner.into().is_some()
    }
}

/// One annotation of a field.
pub enum FieldAttribute {
    /// More names for the field, separated by commas.
    Aliases(String),
    /// Another name in place of the field's own.
    Rename(String),
    /// The field takes no part in formatting.
    Ignore,
    /// Anything else, by its text.
    Unrecognized(String),
}

/// A field as declared.
pub struct FieldDecl {
    /// The name of the field; none in a tuple.
    pub ident: Option<String>,
    pub attrs: Vec<FieldAttribute>,
    pub ty: ValueType,
}

/// What is declared: a record, or something else.
pub enum Body {
    Struct(Vec<FieldDecl>),
    Enum,
}

/// The declaration of a type.
pub struct DeriveInput {
    pub ident: String,
    pub body: Body,
}

pub enum FieldAttributeView {
    Aliases(Seq<char>),
    Rename(Seq<char>),
    Ignore,
    Unrecognized(Seq<char>),
}

pub struct FieldDeclView {
    pub ident: Option<Seq<char>>,
    pub attrs: Seq<FieldAttributeView>,
    pub ty: ValueType,
}

impl View for FieldAttribute {
    type V = FieldAttributeView;

    open spec fn view(&self) -> FieldAttributeView {
        match *self {
            FieldAttribute::Aliases(s) => FieldAttributeView::Aliases(s@),
            FieldAttribute::Rename(s) => FieldAttributeView::Rename(s@),
            FieldAttribute::Ignore => FieldAttributeView::Ignore,
            FieldAttribute::Unrecognized(s) => FieldAttributeView::Unrecognized(s@),
        }
    }
}

pub open spec fn optional_text(o: Option<String>) -> Option<Seq<char>> {
    match o {
        Some(s) => Some(s@),
        None => None,
    }
}

impl View for FieldDecl {
    type V = FieldDeclView;

    open spec fn view(&self) -> FieldDeclView {
        FieldDeclView {
            ident: optional_text(self.ident),
            attrs: Seq::new(self.attrs@.len(), |i: int| self.attrs@[i]@),
            ty: self.ty,
        }
    }
}

pub open spec fn decl_views(v: Seq<FieldDecl>) -> Seq<FieldDeclView> {
    Seq::new(v.len(), |i: int| v[i]@)
}

pub open spec fn names(v: Seq<String>) -> Seq<Seq<char>> {
    Seq::new(v.len(), |i: int| v[i]@)
}

/// The parts of `s` between the occurrences of `sep`, read from position
/// `i` on, with `cur` the part that is being read.
pub open spec fn split_from(s: Seq<char>, sep: char, i: int, cur: Seq<char>) -> Seq<Seq<char>>
    decreases s.len() - i,
{
    if i < 0 || i >= s.len() {
        seq![cur]
    } else if s[i] == sep {
        seq![cur] + split_from(s, sep, i + 1, Seq::empty())
    } else {
        split_from(s, sep, i + 1, cur.push(s[i]))
    }
}

/// The parts of `s` between the occurrences of `sep`; one more than there
/// are occurrences.
pub open spec fn split(s: Seq<char>, sep: char) -> Seq<Seq<char>> {
    split_from(s, sep, 0, Seq::empty())
}

/// Splits `s` at every `sep`.
pub fn split_text(s: &str, sep: char) -> (parts: Vec<String>)
    ensures
        names(parts@) == split(s@, sep),
{
    let chars = chars_of(s);
    let mut parts: Vec<String> = Vec::new();
    let mut cur = String::new();
    let mut i: usize = 0;
    assert(names(parts@) + split_from(chars@, sep, 0, cur@) =~= split(s@, sep));
    while i < chars.len()
        invariant
            i <= chars.len(),
            chars@ == s@,
            names(parts@) + split_from(chars@, sep, i as int, cur@) == split(s@, sep),
        decreases chars.len() - i,
    {
        let ghost before = names(parts@);
        let ghost cur_before = cur@;
        if chars[i] == sep {
            parts.push(cur);
            cur = String::new();
            assert(names(parts@) =~= before + seq![cur_before]);
            assert(before + (seq![cur_before] + split_from(chars@, sep, i + 1, Seq::empty()))
                =~= names(parts@) + split_from(chars@, sep, i + 1, cur@));
        } else {
            cur.push(chars[i]);
        }
        i += 1;
    }
    let ghost before = names(parts@);
    let ghost last = cur@;
    parts.push(cur);
    assert(names(parts@) =~= before + seq![last]);
    parts
}

/// What the annotations of a field amount to so far.
pub struct Noted {
    pub aliases: Option<Seq<Seq<char>>>,
    pub name: Option<Seq<char>>,
    pub ignored: bool,
    pub text: Seq<char>,
}

pub open spec fn note_aliases(n: Noted, value: Seq<char>) -> Noted {
    if n.aliases is Some {
        Noted {
            aliases: n.aliases,
            name: n.name,
            ignored: n.ignored,
            text: with_message(n.text, duplicate_attribute("aliases"@)),
        }
    } else {
        Noted { aliases: Some(split(value, ',')), name: n.name, ignored: n.ignored, text: n.text }
    }
}

pub open spec fn note_rename(n: Noted, value: Seq<char>) -> Noted {
    if n.name is Some {
        Noted {
            aliases: n.aliases,
            name: n.name,
            ignored: n.ignored,
            text: with_message(n.text, duplicate_attribute("rename"@)),
        }
    } else {
        Noted { aliases: n.aliases, name: Some(value), ignored: n.ignored, text: n.text }
    }
}

pub open spec fn note_ignore(n: Noted) -> Noted {
    if n.ignored {
        Noted {
            aliases: n.aliases,
            name: n.name,
            ignored: true,
            text: with_message(n.text, duplicate_attribute("ignore"@)),
        }
    } else {
        Noted { aliases: n.aliases, name: n.name, ignored: true, text: n.text }
    }
}

pub open spec fn note_unrecognized(n: Noted, what: Seq<char>) -> Noted {
    Noted {
        aliases: n.aliases,
        name: n.name,
        ignored: n.ignored,
        text: with_message(n.text, "Unrecognized attribute: "@ + what),
    }
}

/// One annotation taken into account: the first value of each kind counts,
/// a second one is a fault, and so is anything that is not recognized.
pub open spec fn note(n: Noted, a: FieldAttributeView) -> Noted {
    match a {
        FieldAttributeView::Aliases(v) => note_aliases(n, v),
        FieldAttributeView::Rename(v) => note_rename(n, v),
        FieldAttributeView::Ignore => note_ignore(n),
        FieldAttributeView::Unrecognized(t) => note_unrecognized(n, t),
    }
}

/// The first `k` annotations taken into account.
pub open spec fn noted(attrs: Seq<FieldAttributeView>, text: Seq<char>, k: nat) -> Noted
    decreases k,
{
    if k == 0 {
        Noted { aliases: None, name: None, ignored: false, text }
    } else {
        note(noted(attrs, text, (k - 1) as nat), attrs[k - 1])
    }
}

/// A field of a record type.
pub struct Field {
    field_index: usize,
    ident: String,
    aliases: Vec<String>,
    ty: ValueType,
}

pub struct FieldView {
    pub field_index: usize,
    pub ident: Seq<char>,
    pub aliases: Seq<Seq<char>>,
    pub ty: ValueType,
}

impl View for Field {
    type V = FieldView;

    closed spec fn view(&self) -> FieldView {
        FieldView {
            field_index: self.field_index,
            ident: self.ident@,
            aliases: names(self.aliases@),
            ty: self.ty,
        }
    }
}

/// The name by which the field is known to its type: its own, or its place
/// in a tuple.
pub open spec fn ident_of(decl: FieldDeclView, tuple_index: usize) -> Seq<char> {
    match decl.ident {
        Some(i) => i,
        None => digits(tuple_index as nat, 10, false),
    }
}

/// The names by which a format string may refer to the field: the aliases,
/// and after them the new name if the field was renamed, else its own name
/// if it has one.
pub open spec fn aliases_of(decl: FieldDeclView, n: Noted) -> Seq<Seq<char>> {
    let given = match n.aliases {
        Some(a) => a,
        None => Seq::empty(),
    };
    match n.name {
        Some(name) => given.push(name),
        None => match decl.ident {
            Some(i) => given.push(i),
            None => given,
        },
    }
}

/// The field that a declaration describes; none if it is ignored.
pub open spec fn field_of(
    decl: FieldDeclView,
    text: Seq<char>,
    field_index: usize,
    tuple_index: usize,
) -> Option<FieldView> {
    let n = noted(decl.attrs, text, decl.attrs.len());
    if n.ignored {
        None
    } else {
        Some(
            FieldView {
                field_index,
                ident: ident_of(decl, tuple_index),
                aliases: aliases_of(decl, n),
                ty: decl.ty,
            },
        )
    }
}

fn copy_text(s: &String) -> (r: String)
    ensures
        r@ == s@,
{
    s.as_str().to_owned()
}

impl Field {
    /// Reads the declaration of a field. Faults go to `ctx`.
    ///
    /// `field_index` is the index that the field gets among the fields that
    /// are not ignored, `tuple_index` its place in the declaration.
    pub fn from_ast(ctx: &mut Context, ast: &FieldDecl, field_index: usize, tuple_index: usize)
        -> (r: Option<Field>)
        ensures
            final(ctx).text() == noted(ast@.attrs, old(ctx).text(), ast@.attrs.len()).text,
            final(ctx).pending() == if final(ctx).text() == old(ctx).text() {
                old(ctx).pending()
            } else {
                Some(final(ctx).text())
            },
            match r {
                Some(f) => field_of(ast@, old(ctx).text(), field_index, tuple_index) == Some(f@),
                None => field_of(ast@, old(ctx).text(), field_index, tuple_index) is None,
            },
    {
        let ident = match &ast.ident {
            Some(i) => copy_text(i),
            None => string_of(&digits_of(tuple_index as u128, 10, false)),
        };
        let mut aliases: Attribute<Vec<String>> = Attribute::new("aliases");
        let mut ignored = BoolAttribute::new("ignore");
        let mut name: Attribute<String> = Attribute::new("rename");
        let ghost start = ctx.text();
        let ghost attrs = ast@.attrs;
        let mut k: usize = 0;
        while k < ast.attrs.len()
            invariant
                k <= ast.attrs.len(),
                attrs == ast@.attrs,
                aliases.name@ == "aliases"@,
                name.name@ == "rename"@,
                ignored.inner.name@ == "ignore"@,
                (ctx.pending() == old(ctx).pending() && ctx.text() == start) || (ctx.pending()
                    == Some(ctx.text()) && ctx.text().len() > start.len()),
                start == old(ctx).text(),
                ctx.text() == noted(attrs, start, k as nat).text,
                match aliases.value {
                    Some(v) => noted(attrs, start, k as nat).aliases == Some(names(v@)),
                    None => noted(attrs, start, k as nat).aliases is None,
                },
                optional_text(name.value) == noted(attrs, start, k as nat).name,
                (ignored.inner.value is Some) == noted(attrs, start, k as nat).ignored,
            decreases ast.attrs.len() - k,
        {
            let ghost before = noted(attrs, start, k as nat);
            assert(attrs[k as int] == ast.attrs@[k as int]@);
            proof {
                reveal_strlit("Duplicate attribute provided: ");
                reveal_strlit("Unrecognized attribute: ");
            }
            match &ast.attrs[k] {
                FieldAttribute::Aliases(value) => {
                    let parts = split_text(value.as_str(), ',');
                    aliases.set(parts, ctx);
                },
                FieldAttribute::Rename(value) => {
                    name.set(copy_text(value), ctx);
                },
                FieldAttribute::Ignore => {
                    ignored.set(ctx);
                },
                FieldAttribute::Unrecognized(what) => {
                    let mut message = "Unrecognized attribute: ".to_owned();
                    message.append(what.as_str());
                    ctx.error(message.as_str());
                },
            }
            k += 1;
        }
        let ghost n = noted(attrs, start, attrs.len());
        let mut aliases = match aliases.into() {
            Some(a) => a,
            None => Vec::new(),
        };
        let ghost given = names(aliases@);
        assert(given =~= match n.aliases {
            Some(a) => a,
            None => Seq::empty(),
        });
        match name.into() {
            Some(n) => {
                aliases.push(n);
                assert(names(aliases@) =~= given.push(n@));
            },
            None => match &ast.ident {
                Some(i) => {
                    aliases.push(copy_text(i));
                    assert(names(aliases@) =~= given.push(i@));
                },
                None => {},
            },
        }
        assert(names(aliases@) =~= aliases_of(ast@, n));
        if !ignored.into() {
            Some(Field { field_index, ident, aliases, ty: ast.ty })
        } else {
            None
        }
    }

    /// The index of the field among the fields that are not ignored.
    pub fn index(&self) -> (i: usize)
        ensures
            i == self@.field_index,
    {
        self.field_index
    }

    /// The name by which the field is known to its type.
    pub fn ident(&self) -> (s: &String)
        ensures
            s@ == self@.ident,
    {
        &self.ident
    }

    /// The names by which a format string may refer to the field.
    pub fn aliases(&self) -> (a: &Vec<String>)
        ensures
            names(a@) == self@.aliases,
    {
        &self.aliases
    }

    /// The type of the field.
    pub fn ty(&self) -> (t: ValueType)
        ensures
            t == self@.ty,
    {
        self.ty
    }
}

/// A record type, described by its fields.
pub struct Container {
    ident: String,
    fields: Vec<Field>,
}

pub struct ContainerView {
    pub ident: Seq<char>,
    pub fields: Seq<FieldView>,
}

pub open spec fn field_views(v: Seq<Field>) -> Seq<FieldView> {
    Seq::new(v.len(), |i: int| v[i]@)
}

impl View for Container {
    type V = ContainerView;

    closed spec fn view(&self) -> ContainerView {
        ContainerView { ident: self.ident@, fields: field_views(self.fields@) }
    }
}

pub open spec fn duplicate_alias(alias: Seq<char>) -> Seq<char> {
    "Duplicate field alias: "@ + alias
}

/// The names seen so far and the messages so far.
pub struct Seen {
    pub names: Seq<Seq<char>>,
    pub text: Seq<char>,
}

/// The first `k` of `aliases` taken into account: a name that was seen
/// before is a fault.
pub open spec fn see(s: Seen, aliases: Seq<Seq<char>>, k: nat) -> Seen
    decreases k,
{
    if k == 0 {
        s
    } else {
        let before = see(s, aliases, (k - 1) as nat);
        if before.names.contains(aliases[k - 1]) {
            Seen {
                names: before.names,
                text: with_message(before.text, duplicate_alias(aliases[k - 1])),
            }
        } else {
            Seen { names: before.names.push(aliases[k - 1]), text: before.text }
        }
    }
}

/// The fields gathered so far.
pub struct Gathered {
    pub fields: Seq<FieldView>,
    pub seen: Seen,
}

pub open spec fn gathered(fields: Seq<FieldView>, seen: Seen) -> Gathered {
    Gathered { fields, seen }
}

/// The first `k` declarations gathered: each field that is not ignored gets
/// the next index, and its names are taken into account.
pub open spec fn gather(decls: Seq<FieldDeclView>, k: nat) -> Gathered
    decreases k,
{
    if k == 0 {
        gathered(Seq::empty(), Seen { names: Seq::empty(), text: Seq::empty() })
    } else {
        let g = gather(decls, (k - 1) as nat);
        let decl = decls[k - 1];
        let text = noted(decl.attrs, g.seen.text, decl.attrs.len()).text;
        match field_of(decl, g.seen.text, g.fields.len() as usize, (k - 1) as usize) {
            None => gathered(g.fields, Seen { names: g.seen.names, text }),
            Some(f) => gathered(
                g.fields.push(f),
                see(Seen { names: g.seen.names, text }, f.aliases, f.aliases.len()),
            ),
        }
    }
}

pub open spec fn not_for_enums() -> Seq<char> {
    "#[derive(FormatArgs)] is not implemented for enums"@
}

/// The record type that the fields of a declaration make, or all faults of
/// the declaration.
pub open spec fn container_of(ident: Seq<char>, decls: Seq<FieldDeclView>) -> Result<
    ContainerView,
    Seq<char>,
> {
    let g = gather(decls, decls.len());
    if g.seen.text.len() > 0 {
        Err(g.seen.text)
    } else {
        Ok(ContainerView { ident, fields: g.fields })
    }
}

/// The first field at or after `from` that has the name `name`.
pub open spec fn named_field(fields: Seq<FieldView>, name: Seq<char>, from: int) -> Option<usize>
    decreases fields.len() - from,
{
    if from < 0 || from >= fields.len() {
        None
    } else if fields[from].aliases.contains(name) {
        Some(fields[from].field_index)
    } else {
        named_field(fields, name, from + 1)
    }
}

pub open spec fn char_lists(v: Seq<Vec<char>>) -> Seq<Seq<char>> {
    Seq::new(v.len(), |i: int| v[i]@)
}

fn contains_chars(seen: &Vec<Vec<char>>, name: &Vec<char>) -> (r: bool)
    ensures
        r == char_lists(seen@).contains(name@),
{
    let mut i: usize = 0;
    while i < seen.len()
        invariant
            i <= seen.len(),
            forall|j: int| 0 <= j < i ==> char_lists(seen@)[j] != name@,
        decreases seen.len() - i,
    {
        if same_chars(&seen[i], name) {
            assert(char_lists(seen@)[i as int] == name@);
            return true;
        }
        i += 1;
    }
    false
}

fn contains_name(list: &Vec<String>, name: &Vec<char>) -> (r: bool)
    ensures
        r == names(list@).contains(name@),
{
    let mut i: usize = 0;
    while i < list.len()
        invariant
            i <= list.len(),
            forall|j: int| 0 <= j < i ==> names(list@)[j] != name@,
        decreases list.len() - i,
    {
        let have = chars_of(list[i].as_str());
        if same_chars(&have, name) {
            assert(names(list@)[i as int] == name@);
            return true;
        }
        i += 1;
    }
    false
}

impl Container {
    #[verifier::type_invariant]
    spec fn inv(self) -> bool {
        forall|k: int| 0 <= k < self.fields@.len() ==> (#[trigger] self.fields@[k]).field_index == k
    }

    /// Reads the declaration of a type.
    ///
    /// Fails for anything but a record, and with all faults of the
    /// declaration if there is any: an attribute given twice, an attribute
    /// that is not recognized, a name that two fields share.
    pub fn from_ast(ast: &DeriveInput) -> (r: Result<Container, String>)
        ensures
            match ast.body {
                Body::Enum => r matches Err(t) && t@ == not_for_enums(),
                Body::Struct(decls) => match r {
                    Ok(c) => container_of(ast.ident@, decl_views(decls@)) == Ok::<
                        ContainerView,
                        Seq<char>,
                    >(c@),
                    Err(t) => container_of(ast.ident@, decl_views(decls@)) == Err::<
                        ContainerView,
                        Seq<char>,
                    >(t@),
                },
            },
    {
        let decls = match &ast.body {
            Body::Struct(d) => d,
            Body::Enum => {
                return Err("#[derive(FormatArgs)] is not implemented for enums".to_owned());
            },
        };
        let mut ctx = Context::new();
        let mut fields: Vec<Field> = Vec::new();
        let mut seen: Vec<Vec<char>> = Vec::new();
        let ghost views = decl_views(decls@);
        let mut k: usize = 0;
        assert(field_views(fields@) =~= gather(views, 0).fields);
        assert(char_lists(seen@) =~= gather(views, 0).seen.names);
        while k < decls.len()
            invariant
                k <= decls.len(),
                views == decl_views(decls@),
                ctx.pending() is Some,
                fields.len() <= k,
                field_views(fields@) == gather(views, k as nat).fields,
                char_lists(seen@) == gather(views, k as nat).seen.names,
                ctx.text() == gather(views, k as nat).seen.text,
                forall|j: int| 0 <= j < fields@.len() ==> (#[trigger] fields@[j]).field_index == j,
            decreases decls.len() - k,
        {
            let ghost g = gather(views, k as nat);
            assert(views[k as int] == decls@[k as int]@);
            match Field::from_ast(&mut ctx, &decls[k], fields.len(), k) {
                Some(field) => {
                    let ghost start = Seen { names: g.seen.names, text: ctx.text() };
                    let mut j: usize = 0;
                    let count: usize = field.aliases().len();
                    while j < count
                        invariant
                            j <= count,
                            count == field@.aliases.len(),
                            ctx.pending() is Some,
                            char_lists(seen@) == see(start, field@.aliases, j as nat).names,
                            ctx.text() == see(start, field@.aliases, j as nat).text,
                        decreases count - j,
                    {
                        let alias = chars_of(field.aliases()[j].as_str());
                        assert(alias@ == field@.aliases[j as int]);
                        let ghost before = char_lists(seen@);
                        if contains_chars(&seen, &alias) {
                            let mut message = "Duplicate field alias: ".to_owned();
                            message.append(field.aliases()[j].as_str());
                            ctx.error(message.as_str());
                        } else {
                            seen.push(alias);
                            assert(char_lists(seen@) =~= before.push(alias@));
                        }
                        j += 1;
                    }
                    let ghost before = field_views(fields@);
                    fields.push(field);
                    assert(field_views(fields@) =~= before.push(field@));
                },
                None => {},
            }
            k += 1;
        }
        match ctx.check() {
            Ok(_) => Ok(Container { ident: copy_text(&ast.ident), fields }),
            Err(t) => Err(t),
        }
    }

    /// The name of the type.
    pub fn ident(&self) -> (s: &String)
        ensures
            s@ == self@.ident,
    {
        &self.ident
    }

    /// The fields of the type that are not ignored.
    pub fn fields(&self) -> (f: &Vec<Field>)
        ensures
            field_views(f@) == self@.fields,
    {
        &self.fields
    }
}

impl FormatArgs for Container {
    /// The first field that has the name.
    open spec fn name_to_index(&self, name: Seq<char>) -> Option<usize> {
        named_field(self@.fields, name, 0)
    }

    open spec fn has_index(&self, index: usize) -> bool {
        index < self@.fields.len()
    }

    open spec fn child_type(&self, index: usize) -> ValueType {
        self@.fields[index as int].ty
    }

    /// Only a field of type `usize` supplies counts.
    open spec fn child_counts(&self, index: usize) -> bool {
        self@.fields[index as int].ty == ValueType::Usize
    }

    fn validate_name(&self, name: &str) -> (r: Option<usize>) {
        proof {
            use_type_invariant(self);
        }
        let wanted = chars_of(name);
        let mut i: usize = 0;
        while i < self.fields.len()
            invariant
                i <= self.fields.len(),
                wanted@ == name@,
                forall|k: int|
                    0 <= k < self.fields@.len() ==> (#[trigger] self.fields@[k]).field_index == k,
                named_field(self@.fields, name@, 0) == named_field(self@.fields, name@, i as int),
            decreases self.fields.len() - i,
        {
            assert(self@.fields[i as int] == self.fields@[i as int]@);
            if contains_name(self.fields[i].aliases(), &wanted) {
                assert(self.fields@[i as int].field_index == i);
                return Some(self.fields[i].index());
            }
            i += 1;
        }
        None
    }

    fn validate_index(&self, index: usize) -> (r: bool) {
        index < self.fields.len()
    }

    fn get_child(&self, kind: FormatTrait, index: usize) -> (r: Option<ResolvedArgument>) {
        assert(self@.fields[index as int] == self.fields@[index as int]@);
        combine(kind, index, self.fields[index].ty())
    }

    fn as_usize(&self, index: usize) -> (r: Option<ResolvedArgument>) {
        assert(self@.fields[index as int] == self.fields@[index as int]@);
        match self.fields[index].ty() {
            ValueType::Usize => Some(ResolvedArgument { index, role: Role::Count }),
            _ => None,
        }
    }
}

} // verus!
