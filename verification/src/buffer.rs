//! Format strings parsed against values, and format strings prepared
//! against a record type.

use vstd::prelude::*;
use crate::codegen::FormatArgs;
use crate::error::{Error, ErrorView};
use crate::plan::{
    arg_fits, args_fit, outcome, outer_parse, plan_wf, texts, ParseTarget, Parsed, PlanView,
};
use crate::replay::{entries_of, lemma_renders_ok, render, render_plan, renders, value_fits};
use crate::text::chars_of;
use crate::value::{param_views, FormatTrait, Param, ParamView};

verus! {

/// Are two texts the same?
pub fn same_chars(a: &Vec<char>, b: &Vec<char>) -> (r: bool)
    ensures
        r == (a@ == b@),
{
    if a.len() != b.len() {
        return false;
    }
    let mut i: usize = 0;
    while i < a.len()
        invariant
            i <= a.len(),
            a.len() == b.len(),
            a@.take(i as int) == b@.take(i as int),
        decreases a.len() - i,
    {
        if a[i] != b[i] {
            return false;
        }
        i += 1;
        assert(a@.take(i as int) =~= a@.take(i - 1).push(a[i - 1]));
        assert(b@.take(i as int) =~= b@.take(i - 1).push(b[i - 1]));
    }
    assert(a@.take(a.len() as int) =~= a@);
    assert(b@.take(b.len() as int) =~= b@);
    true
}

/// The first parameter at or after `from` that is called `name`.
pub open spec fn named_from(params: Seq<ParamView>, name: Seq<char>, from: int) -> Option<usize>
    decreases params.len() - from,
{
    if from < 0 || from >= params.len() {
        None
    } else if params[from].name == Some(name) {
        Some(from as usize)
    } else {
        named_from(params, name, from + 1)
    }
}

/// The target of a format string that comes with its values.
pub struct ImmediateParse<'p> {
    pub params: &'p [Param<'p>],
}

impl<'p> ImmediateParse<'p> {
    pub open spec fn views(&self) -> Seq<ParamView> {
        param_views(self.params@)
    }
}

impl<'p> ParseTarget for ImmediateParse<'p> {
    /// The first parameter of that name.
    open spec fn name_index(&self, name: Seq<char>) -> Option<usize> {
        named_from(self.views(), name, 0)
    }

    open spec fn index_valid(&self, index: usize) -> bool {
        index < self.views().len()
    }

    open spec fn supports(&self, kind: FormatTrait, index: usize) -> bool {
        kind.spec_allowed(self.views()[index as int].value.ty())
    }

    open spec fn countable(&self, index: usize) -> bool {
        self.views()[index as int].value.as_count() is Some
    }

    fn validate_name(&self, name: &str) -> (r: Option<usize>) {
        let wanted = chars_of(name);
        let mut i: usize = 0;
        while i < self.params.len()
            invariant
                i <= self.params.len(),
                wanted@ == name@,
                named_from(self.views(), name@, 0) == named_from(self.views(), name@, i as int),
            decreases self.params.len() - i,
        {
            let found = match self.params[i].name() {
                Some(n) => {
                    let have = chars_of(n.as_str());
                    same_chars(&have, &wanted)
                },
                None => false,
            };
            assert(found == (self.views()[i as int].name == Some(name@)));
            if found {
                return Some(i);
            }
            i += 1;
        }
        None
    }

    fn validate_index(&self, index: usize) -> (r: bool) {
        index < self.params.len()
    }

    fn format(&self, kind: FormatTrait, idx: usize) -> (r: bool) {
        kind.allowed(self.params[idx].value().ty())
    }

    fn format_usize(&self, idx: usize) -> (r: bool) {
        self.params[idx].value().as_usize().is_some()
    }
}

/// The target of a format string that is prepared against a record type.
pub struct DelayedParse<'a, T: FormatArgs> {
    pub schema: &'a T,
}

impl<'a, T: FormatArgs> ParseTarget for DelayedParse<'a, T> {
    open spec fn name_index(&self, name: Seq<char>) -> Option<usize> {
        self.schema.name_to_index(name)
    }

    open spec fn index_valid(&self, index: usize) -> bool {
        self.schema.has_index(index)
    }

    open spec fn supports(&self, kind: FormatTrait, index: usize) -> bool {
        kind.spec_allowed(self.schema.child_type(index))
    }

    open spec fn countable(&self, index: usize) -> bool {
        self.schema.child_counts(index)
    }

    fn validate_name(&self, name: &str) -> (r: Option<usize>) {
        self.schema.validate_name(name)
    }

    fn validate_index(&self, index: usize) -> (r: bool) {
        self.schema.validate_index(index)
    }

    fn format(&self, kind: FormatTrait, idx: usize) -> (r: bool) {
        self.schema.get_child(kind, idx).is_some()
    }

    fn format_usize(&self, idx: usize) -> (r: bool) {
        self.schema.as_usize(idx).is_some()
    }
}

impl Clone for PreparedFormat {
    fn clone(&self) -> (r: Self)
        ensures
            r.plan() == self.plan(),
    {
        proof {
            use_type_invariant(self);
        }
        PreparedFormat { inner: self.inner.clone() }
    }
}

/// The plan with a line feed at its end: added to the literal text after
/// the last argument reference if there is such a text, else as a text of
/// its own.
pub open spec fn plan_newln(plan: PlanView) -> PlanView {
    PlanView {
        pieces: if plan.pieces.len() > entries_of(plan).len() {
            plan.pieces.update(plan.pieces.len() - 1, plan.pieces.last().push('\n'))
        } else {
            plan.pieces.push(seq!['\n'])
        },
        args: plan.args,
        fmt: plan.fmt,
    }
}

impl Parsed {
    /// Appends a line feed to the plan.
    pub fn newln(&mut self)
        requires
            plan_wf(old(self)@),
        ensures
            final(self)@ == plan_newln(old(self)@),
            plan_wf(final(self)@),
    {
        let len: usize = match &self.fmt {
            Some(f) => f.len(),
            None => self.args.len(),
        };
        if self.pieces.len() > len {
            let ghost before = self.pieces@;
            match self.pieces.pop() {
                Some(last) => {
                    let mut last = last;
                    last.push('\n');
                    self.pieces.push(last);
                    assert(texts(self.pieces@) =~= texts(before).update(
                        before.len() - 1,
                        texts(before).last().push('\n'),
                    ));
                },
                None => {},
            }
        } else {
            let mut line = String::new();
            line.push('\n');
            let ghost before = self.pieces@;
            self.pieces.push(line);
            assert(line@ =~= seq!['\n']);
            assert(texts(self.pieces@) =~= texts(before).push(seq!['\n']));
        }
    }
}

/// A format string parsed against the values it came with.
pub struct FormatBuf<'s> {
    inner: Parsed,
    params: &'s [Param<'s>],
}

impl<'s> FormatBuf<'s> {
    #[verifier::type_invariant]
    spec fn inv(self) -> bool {
        plan_wf(self.inner@) && renders(self.inner@, param_views(self.params@))
    }

    /// The plan of the buffer.
    pub closed spec fn plan(&self) -> PlanView {
        self.inner@
    }

    /// The values of the buffer.
    pub closed spec fn values(&self) -> Seq<ParamView> {
        param_views(self.params@)
    }

    /// The text of the buffer.
    pub open spec fn text(&self) -> Seq<char> {
        render_plan(self.plan(), self.values())->Ok_0
    }

    /// Parses `spec` against `params`.
    ///
    /// Fails with all violations of the grammar if `spec` has any; else with
    /// the first reference that `params` cannot satisfy: an index out of
    /// range, an unknown name, an unknown or unsupported display kind, or a
    /// count that is no integer.
    pub fn new(spec: &str, params: &'s [Param<'s>]) -> (r: Result<FormatBuf<'s>, Error>)
        ensures
            match r {
                Ok(buf) => outcome(&(ImmediateParse { params }), spec@) == Ok::<
                    PlanView,
                    ErrorView,
                >(buf.plan()) && buf.values() == param_views(params@) && render_plan(
                    buf.plan(),
                    buf.values(),
                ) is Ok,
                Err(e) => outcome(&(ImmediateParse { params }), spec@) == Err::<
                    PlanView,
                    ErrorView,
                >(e@),
            },
    {
        let target = ImmediateParse { params };
        match outer_parse(spec, &target) {
            Ok(inner) => {
                let count: usize = inner.args.len();
                proof {
                    assert(inner@.args.len() == count);
                    assert forall|i: int| 0 <= i < inner@.args.len() implies {
                        &&& (#[trigger] inner@.args[i]).index < param_views(params@).len()
                        &&& value_fits(
                            inner@.args[i],
                            param_views(params@)[inner@.args[i].index as int],
                        )
                    } by {
                        assert(arg_fits(&target, inner@.args[i]));
                    }
                    lemma_renders_ok(
                        inner@,
                        param_views(params@),
                        entries_of(inner@).len(),
                    );
                }
                Ok(FormatBuf { inner, params })
            },
            Err(e) => Err(e),
        }
    }

    /// The plan of the buffer.
    pub fn parsed(&self) -> (p: &Parsed)
        ensures
            p@ == self.plan(),
            plan_wf(p@),
    {
        proof {
            use_type_invariant(self);
        }
        &self.inner
    }

    /// Appends a line feed (`\n`) to the end of this buffer.
    pub fn newln(&mut self)
        ensures
            final(self).plan() == plan_newln(old(self).plan()),
            final(self).values() == old(self).values(),
    {
        proof {
            use_type_invariant(&*self);
        }
        let mut inner = Parsed { pieces: Vec::new(), args: Vec::new(), fmt: None };
        std::mem::swap(&mut self.inner, &mut inner);
        inner.newln();
        std::mem::swap(&mut self.inner, &mut inner);
    }

    /// Formats this buffer to a `String`.
    pub fn format(&self) -> (s: String)
        ensures
            render_plan(self.plan(), self.values()) == Ok::<Seq<char>, ErrorView>(s@),
    {
        let count: usize = self.inner.args.len();
        proof {
            use_type_invariant(self);
            assert(self.inner@.args.len() == count);
            lemma_renders_ok(
                self.inner@,
                param_views(self.params@),
                entries_of(self.inner@).len(),
            );
        }
        match render(&self.inner, self.params) {
            Ok(s) => s,
            Err(_) => {
                assert(false);
                String::new()
            },
        }
    }

    /// Calls `f` with the text of this buffer.
    pub fn with<R, F: FnOnce(String) -> R>(&self, f: F) -> (r: R)
        requires
            forall|s: String| s@ == self.text() ==> call_requires(f, (s,)),
        ensures
            exists|s: String| s@ == self.text() && call_ensures(f, (s,), r),
    {
        let s = self.format();
        f(s)
    }

    /// Appends the text of this buffer to `dest`.
    pub fn write_fmt(&self, dest: &mut String)
        ensures
            final(dest)@ == old(dest)@ + self.text(),
    {
        let s = self.format();
        dest.append(s.as_str());
    }
}

impl<'s> Clone for FormatBuf<'s> {
    fn clone(&self) -> (r: Self)
        ensures
            r.plan() == self.plan(),
            r.values() == self.values(),
    {
        proof {
            use_type_invariant(self);
        }
        FormatBuf { inner: self.inner.clone(), params: self.params }
    }
}

/// A format string checked against a record type, ready for the values of
/// records of that type.
pub struct PreparedFormat {
    inner: Parsed,
}

impl PreparedFormat {
    #[verifier::type_invariant]
    spec fn inv(self) -> bool {
        plan_wf(self.inner@)
    }

    /// The plan of the format.
    pub closed spec fn plan(&self) -> PlanView {
        self.inner@
    }

    /// Prepares `spec` against the record type `schema`.
    ///
    /// Fails as parsing against values does, with the fields of the record
    /// type in the place of the values.
    pub fn prepare<T: FormatArgs>(spec: &str, schema: &T) -> (r: Result<PreparedFormat, Error>)
        ensures
            match r {
                Ok(p) => outcome(&(DelayedParse { schema }), spec@) == Ok::<PlanView, ErrorView>(
                    p.plan(),
                ) && plan_wf(p.plan()) && args_fit(&(DelayedParse { schema }), p.plan().args),
                Err(e) => outcome(&(DelayedParse { schema }), spec@) == Err::<
                    PlanView,
                    ErrorView,
                >(e@),
            },
    {
        let target = DelayedParse { schema };
        match outer_parse(spec, &target) {
            Ok(inner) => Ok(PreparedFormat { inner }),
            Err(e) => Err(e),
        }
    }

    /// The plan of the format.
    pub fn parsed(&self) -> (p: &Parsed)
        ensures
            p@ == self.plan(),
            plan_wf(p@),
    {
        proof {
            use_type_invariant(self);
        }
        &self.inner
    }

    /// Appends a line feed (`\n`) to the end of this format.
    pub fn newln(&mut self)
        ensures
            final(self).plan() == plan_newln(old(self).plan()),
    {
        proof {
            use_type_invariant(&*self);
        }
        let mut inner = Parsed { pieces: Vec::new(), args: Vec::new(), fmt: None };
        std::mem::swap(&mut self.inner, &mut inner);
        inner.newln();
        std::mem::swap(&mut self.inner, &mut inner);
    }

    /// Formats the record `t`, given by the values of its fields in order.
    ///
    /// Fails with `BadIndex` if a field that the format refers to is
    /// missing, with `BadCount` if a field that supplies a width or a
    /// precision holds no integer that fits in `usize`, and with
    /// `UnsatisfiedFormat` if the value of a field does not support the
    /// display kind under which the format renders it. None of these happens
    /// for the values of a record of the type that the format was prepared
    /// against, but that a count may be too large.
    pub fn format(&self, t: &[Param]) -> (r: Result<String, Error>)
        ensures
            match r {
                Ok(s) => render_plan(self.plan(), param_views(t@)) == Ok::<Seq<char>, ErrorView>(
                    s@,
                ),
                Err(e) => render_plan(self.plan(), param_views(t@)) == Err::<
                    Seq<char>,
                    ErrorView,
                >(e@),
            },
    {
        proof {
            use_type_invariant(self);
        }
        render(&self.inner, t)
    }

    /// Calls `f` with the text of the record `t`.
    pub fn with<R, F: FnOnce(String) -> R>(&self, t: &[Param], f: F) -> (r: Result<R, Error>)
        requires
            forall|s: String| call_requires(f, (s,)),
        ensures
            match r {
                Ok(x) => exists|s: String|
                    render_plan(self.plan(), param_views(t@)) == Ok::<Seq<char>, ErrorView>(s@)
                        && call_ensures(f, (s,), x),
                Err(e) => render_plan(self.plan(), param_views(t@)) == Err::<
                    Seq<char>,
                    ErrorView,
                >(e@),
            },
    {
        match self.format(t) {
            Ok(s) => Ok(f(s)),
            Err(e) => Err(e),
        }
    }

    /// Appends the text of the record `t` to `dest`; leaves `dest` as it is
    /// where formatting fails.
    pub fn write_fmt(&self, t: &[Param], dest: &mut String) -> (r: Result<(), Error>)
        ensures
            match r {
                Ok(_) => render_plan(self.plan(), param_views(t@)) matches Ok(s) && final(dest)@
                    == old(dest)@ + s,
                Err(e) => render_plan(self.plan(), param_views(t@)) == Err::<
                    Seq<char>,
                    ErrorView,
                >(e@) && final(dest)@ == old(dest)@,
            },
    {
        match self.format(t) {
            Ok(s) => {
                dest.append(s.as_str());
                Ok(())
            },
            Err(e) => Err(e),
        }
    }
}

} // verus!
