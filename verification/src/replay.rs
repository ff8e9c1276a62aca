//! Rendering a plan against values: literal texts and rendered arguments in
//! the order of the specifiers.

use vstd::prelude::*;
use crate::error::{Error, ErrorView};
use crate::grammar::{Alignment, Flags};
use crate::plan::{
    bad_count, bad_index, count_wf, default_entries, entry_wf, plan_wf, texts, unsatisfied, Parsed,
    PlanView, ResolvedArgument, ResolvedCount, Role, SpecEntry, Specifier,
};
use crate::render::{render_value, write_value, Layout};
use crate::value::{param_views, Param, ParamView};

verus! {

/// The number that a resolved count stands for: an argument that supplies a
/// count must exist among the values and be an integer that fits in `usize`.
pub open spec fn count_value(
    c: ResolvedCount,
    args: Seq<ResolvedArgument>,
    params: Seq<ParamView>,
) -> Result<Option<usize>, ErrorView> {
    match c {
        ResolvedCount::Implied => Ok(None),
        ResolvedCount::Is(n) => Ok(Some(n)),
        ResolvedCount::Param(j) => if args[j as int].index >= params.len() {
            Err(bad_index(args[j as int].index))
        } else {
            match params[args[j as int].index as int].value.as_count() {
                Some(n) => Ok(Some(n)),
                None => Err(bad_count(args[j as int].index)),
            }
        },
    }
}

pub open spec fn layout_with(f: Specifier, precision: Option<usize>, width: Option<usize>)
    -> Layout {
    Layout { fill: f.fill, align: f.align, flags: f.flags, width, precision }
}

/// The layout of a specifier, the precision looked up before the width.
pub open spec fn layout_of(f: Specifier, args: Seq<ResolvedArgument>, params: Seq<ParamView>)
    -> Result<Layout, ErrorView> {
    match count_value(f.precision, args, params) {
        Err(e) => Err(e),
        Ok(p) => match count_value(f.width, args, params) {
            Err(e) => Err(e),
            Ok(w) => Ok(layout_with(f, p, w)),
        },
    }
}

/// What one specifier renders: the value of its argument under its layout
/// and display kind. It fails if the values do not have the argument, if a
/// count cannot be had, or if the value does not support the display kind.
pub open spec fn render_entry(e: SpecEntry, args: Seq<ResolvedArgument>, params: Seq<ParamView>)
    -> Result<Seq<char>, ErrorView> {
    let a = args[e.position as int];
    if a.index >= params.len() {
        Err(bad_index(a.index))
    } else {
        match layout_of(e.format, args, params) {
            Err(err) => Err(err),
            Ok(layout) => match a.role {
                Role::Format(k) => if k.spec_allowed(params[a.index as int].value.ty()) {
                    Ok(render_value(k, params[a.index as int], layout))
                } else {
                    Err(unsatisfied(a.index, k))
                },
                Role::Count => Ok(Seq::empty()),
            },
        }
    }
}

/// The first `n` specifiers rendered, each after the literal text that
/// stands before it.
pub open spec fn render_entries(
    pieces: Seq<Seq<char>>,
    entries: Seq<SpecEntry>,
    args: Seq<ResolvedArgument>,
    params: Seq<ParamView>,
    n: nat,
) -> Result<Seq<char>, ErrorView>
    decreases n,
{
    if n == 0 {
        Ok(Seq::empty())
    } else {
        match render_entries(pieces, entries, args, params, (n - 1) as nat) {
            Err(e) => Err(e),
            Ok(t) => match render_entry(entries[n - 1], args, params) {
                Err(e) => Err(e),
                Ok(r) => Ok(t + pieces[n - 1] + r),
            },
        }
    }
}

/// The specifiers of a plan: the explicit ones, or one default specifier
/// for each resolved argument in order.
pub open spec fn entries_of(plan: PlanView) -> Seq<SpecEntry> {
    match plan.fmt {
        Some(f) => f,
        None => default_entries(plan.args.len()),
    }
}

pub open spec fn with_tail(t: Seq<char>, pieces: Seq<Seq<char>>, n: nat) -> Seq<char> {
    if pieces.len() > n {
        t + pieces[n as int]
    } else {
        t
    }
}

/// The text of a plan for given values, or the first error: a resolved
/// argument that the values do not have, or a count that is none.
pub open spec fn render_plan(plan: PlanView, params: Seq<ParamView>) -> Result<
    Seq<char>,
    ErrorView,
> {
    match render_entries(
        plan.pieces,
        entries_of(plan),
        plan.args,
        params,
        entries_of(plan).len(),
    ) {
        Err(e) => Err(e),
        Ok(t) => Ok(with_tail(t, plan.pieces, entries_of(plan).len())),
    }
}

/// Does the value `p` have what the resolved argument `a` asks of it: the
/// display kind under which it is rendered, or a count?
pub open spec fn value_fits(a: ResolvedArgument, p: ParamView) -> bool {
    match a.role {
        Role::Format(k) => k.spec_allowed(p.value.ty()),
        Role::Count => p.value.as_count() is Some,
    }
}

/// The values have every resolved argument of the plan, and each has what
/// is asked of it.
pub open spec fn renders(plan: PlanView, params: Seq<ParamView>) -> bool {
    forall|i: int|
        0 <= i < plan.args.len() ==> {
            &&& (#[trigger] plan.args[i]).index < params.len()
            &&& value_fits(plan.args[i], params[plan.args[i].index as int])
        }
}

/// A well-formed plan renders without error for values that have what it
/// asks for.
pub proof fn lemma_renders_ok(plan: PlanView, params: Seq<ParamView>, n: nat)
    requires
        plan_wf(plan),
        renders(plan, params),
        plan.args.len() <= usize::MAX,
        n <= entries_of(plan).len(),
    ensures
        render_entries(plan.pieces, entries_of(plan), plan.args, params, n) is Ok,
    decreases n,
{
    if n > 0 {
        lemma_renders_ok(plan, params, (n - 1) as nat);
        let e = entries_of(plan)[n - 1];
        assert(entry_wf(e, plan.args)) by {
            match plan.fmt {
                Some(f) => {
                    assert(entry_wf(f[n - 1], plan.args));
                },
                None => {
                    assert(plan.args[n - 1].role is Format);
                },
            }
        }
        assert(plan.args[e.position as int].index < params.len());
        let shown = plan.args[e.position as int];
        assert(value_fits(shown, params[shown.index as int]));
        assert(count_value(e.format.precision, plan.args, params) is Ok) by {
            match e.format.precision {
                ResolvedCount::Param(j) => {
                    assert(plan.args[j as int].index < params.len());
                    let supplier = plan.args[j as int];
                    assert(value_fits(supplier, params[supplier.index as int]));
                },
                _ => {},
            }
        }
        assert(count_value(e.format.width, plan.args, params) is Ok) by {
            match e.format.width {
                ResolvedCount::Param(j) => {
                    assert(plan.args[j as int].index < params.len());
                    let supplier = plan.args[j as int];
                    assert(value_fits(supplier, params[supplier.index as int]));
                },
                _ => {},
            }
        }
    }
}

fn count_of(c: ResolvedCount, args: &Vec<ResolvedArgument>, params: &[Param]) -> (r: Result<
    Option<usize>,
    Error,
>)
    requires
        count_wf(c, args@),
    ensures
        match r {
            Ok(n) => count_value(c, args@, param_views(params@)) == Ok::<
                Option<usize>,
                ErrorView,
            >(n),
            Err(e) => count_value(c, args@, param_views(params@)) == Err::<
                Option<usize>,
                ErrorView,
            >(e@),
        },
{
    match c {
        ResolvedCount::Implied => Ok(None),
        ResolvedCount::Is(n) => Ok(Some(n)),
        ResolvedCount::Param(j) => {
            let index: usize = args[j].index;
            if index >= params.len() {
                Err(Error::BadIndex(index))
            } else {
                match params[index].value().as_usize() {
                    Some(n) => Ok(Some(n)),
                    None => Err(Error::BadCount(index)),
                }
            }
        },
    }
}

fn write_entry(out: &mut String, e: &SpecEntry, args: &Vec<ResolvedArgument>, params: &[Param])
    -> (r: Result<(), Error>)
    requires
        entry_wf(*e, args@),
    ensures
        match r {
            Ok(_) => render_entry(*e, args@, param_views(params@)) matches Ok(t) && final(out)@
                == old(out)@ + t,
            Err(err) => render_entry(*e, args@, param_views(params@)) == Err::<
                Seq<char>,
                ErrorView,
            >(err@),
        },
{
    let a = args[e.position];
    if a.index >= params.len() {
        return Err(Error::BadIndex(a.index));
    }
    let precision = match count_of(e.format.precision, args, params) {
        Ok(p) => p,
        Err(err) => {
            return Err(err);
        },
    };
    let width = match count_of(e.format.width, args, params) {
        Ok(w) => w,
        Err(err) => {
            return Err(err);
        },
    };
    let layout = Layout {
        fill: e.format.fill,
        align: e.format.align,
        flags: e.format.flags,
        width,
        precision,
    };
    assert(layout == layout_with(e.format, precision, width));
    match a.role {
        Role::Format(k) => {
            if !k.allowed(params[a.index].value().ty()) {
                return Err(Error::UnsatisfiedFormat { idx: a.index, must_implement: k.name() });
            }
            write_value(out, k, &params[a.index], &layout);
        },
        Role::Count => {
            assert(out@ =~= old(out)@ + Seq::<char>::empty());
        },
    }
    Ok(())
}

/// Renders `plan` for `params`.
pub fn render(plan: &Parsed, params: &[Param]) -> (r: Result<String, Error>)
    requires
        plan_wf(plan@),
    ensures
        match r {
            Ok(s) => render_plan(plan@, param_views(params@)) == Ok::<Seq<char>, ErrorView>(s@),
            Err(e) => render_plan(plan@, param_views(params@)) == Err::<Seq<char>, ErrorView>(
                e@,
            ),
        },
{
    let ghost views = param_views(params@);
    let ghost entries = entries_of(plan@);
    let ghost pieces = plan@.pieces;
    let mut out = String::new();
    let count: usize = match &plan.fmt {
        Some(f) => f.len(),
        None => plan.args.len(),
    };
    let mut k: usize = 0;
    while k < count
        invariant
            k <= count,
            count == entries.len(),
            entries == entries_of(plan@),
            pieces == plan@.pieces,
            views == param_views(params@),
            plan_wf(plan@),
            render_entries(pieces, entries, plan@.args, views, k as nat) == Ok::<
                Seq<char>,
                ErrorView,
            >(out@),
        decreases count - k,
    {
        let ghost before = out@;
        out.append(plan.pieces[k].as_str());
        assert(pieces[k as int] == plan.pieces@[k as int]@);
        let entry = match &plan.fmt {
            Some(f) => f[k],
            None => SpecEntry {
                position: k,
                format: Specifier {
                    fill: ' ',
                    align: Alignment::Unknown,
                    flags: Flags { sign_plus: false, alternate: false, zero_pad: false },
                    precision: ResolvedCount::Implied,
                    width: ResolvedCount::Implied,
                },
            },
        };
        assert(entry == entries[k as int]);
        assert(entry_wf(entry, plan@.args)) by {
            if plan@.fmt is None {
                assert(plan@.args[k as int].role is Format);
            }
        }
        match write_entry(&mut out, &entry, &plan.args, params) {
            Ok(_) => {},
            Err(e) => {
                assert(render_entries(pieces, entries, plan@.args, views, (k + 1) as nat)
                    == Err::<Seq<char>, ErrorView>(e@));
                proof {
                    lemma_error_stays(
                        pieces,
                        entries,
                        plan@.args,
                        views,
                        (k + 1) as nat,
                        count as nat,
                    );
                }
                return Err(e);
            },
        }
        k += 1;
    }
    if plan.pieces.len() > count {
        out.append(plan.pieces[count].as_str());
        assert(pieces[count as int] == plan.pieces@[count as int]@);
    }
    Ok(out)
}

/// Once a specifier fails, rendering more specifiers fails in the same way.
pub proof fn lemma_error_stays(
    pieces: Seq<Seq<char>>,
    entries: Seq<SpecEntry>,
    args: Seq<ResolvedArgument>,
    params: Seq<ParamView>,
    n: nat,
    m: nat,
)
    requires
        n <= m,
        render_entries(pieces, entries, args, params, n) is Err,
    ensures
        render_entries(pieces, entries, args, params, m) == render_entries(
            pieces,
            entries,
            args,
            params,
            n,
        ),
    decreases m,
{
    if m > n {
        lemma_error_stays(pieces, entries, args, params, n, (m - 1) as nat);
    }
}

} // verus!
