//! Planned sysfs writes.
//!
//! The hardware layer decides; the caller performs. A [`Plan`] lists the
//! attribute writes a request makes, in order, and the result the request has
//! when every required write succeeds. Whoever carries out the plan writes each
//! value in turn: a failing required write ends the request with that failure,
//! a failing optional (best-effort) write is ignored.

use vstd::prelude::*;
use crate::error::{err_view, ErrorKind, HalError};
use crate::sysfs::{NodeView, SysFs};

verus! {

/// One attribute write.
#[derive(Debug)]
pub struct Write {
    pub path: String,
    pub value: String,
    /// A failure of this write ends the request.
    pub required: bool,
}

/// A write as (path, value, required).
pub open spec fn write_view(w: Write) -> (Seq<char>, Seq<char>, bool) {
    (w.path@, w.value@, w.required)
}

pub open spec fn write_views(ws: Seq<Write>) -> Seq<(Seq<char>, Seq<char>, bool)> {
    ws.map_values(|w: Write| write_view(w))
}

/// The writes a request makes and its result once they have succeeded.
#[derive(Debug)]
pub struct Plan {
    pub writes: Vec<Write>,
    pub outcome: Result<(), HalError>,
}

pub open spec fn outcome_view(o: Result<(), HalError>) -> Result<(), (ErrorKind, Seq<char>)> {
    match o {
        Ok(()) => Ok(()),
        Err(e) => Err(err_view(e)),
    }
}

/// A plan as (writes, result).
pub type PlanView = (Seq<(Seq<char>, Seq<char>, bool)>, Result<(), (ErrorKind, Seq<char>)>);

/// Writes nothing and fails.
pub open spec fn plan_fail(kind: ErrorKind, msg: Seq<char>) -> PlanView {
    (seq![], Err((kind, msg)))
}

/// Performs one required write and succeeds.
pub open spec fn plan_write(path: Seq<char>, value: Seq<char>) -> PlanView {
    (seq![(path, value, true)], Ok(()))
}

/// Writes nothing and succeeds.
pub open spec fn plan_done() -> PlanView {
    (seq![], Ok(()))
}

impl View for Plan {
    type V = PlanView;

    open spec fn view(&self) -> PlanView {
        (write_views(self.writes@), outcome_view(self.outcome))
    }
}

impl Plan {
    pub open spec fn writes_view(&self) -> Seq<(Seq<char>, Seq<char>, bool)> {
        write_views(self.writes@)
    }

    pub open spec fn outcome_spec(&self) -> Result<(), (ErrorKind, Seq<char>)> {
        outcome_view(self.outcome)
    }

    /// A request that writes nothing and fails with `e`.
    pub fn fail(e: HalError) -> (p: Plan)
        ensures
            p.writes@.len() == 0,
            p.outcome_spec() == Err::<(), (ErrorKind, Seq<char>)>(err_view(e)),
    {
        Plan { writes: Vec::new(), outcome: Err(e) }
    }

    /// A request that writes nothing and succeeds.
    pub fn done() -> (p: Plan)
        ensures
            p.writes@.len() == 0,
            p.outcome_spec() == Ok::<(), (ErrorKind, Seq<char>)>(()),
    {
        Plan { writes: Vec::new(), outcome: Ok(()) }
    }

    /// A request made of the single write `w`.
    pub fn single(w: Write) -> (p: Plan)
        ensures
            p.writes_view() == seq![write_view(w)],
            p.outcome_spec() == Ok::<(), (ErrorKind, Seq<char>)>(()),
    {
        let mut writes = Vec::new();
        writes.push(w);
        let p = Plan { writes, outcome: Ok(()) };
        assert(p.writes_view() =~= seq![write_view(w)]);
        p
    }
}

/// Writes whose failures are ignored (`let _ = ...`).
pub open spec fn best_effort(ws: Seq<(Seq<char>, Seq<char>, bool)>) -> Seq<(Seq<char>, Seq<char>, bool)> {
    ws.map_values(|w: (Seq<char>, Seq<char>, bool)| (w.0, w.1, false))
}

/// Append the writes of `p`, unchanged, to `out`.
pub fn append_writes(out: &mut Vec<Write>, p: &Plan)
    ensures
        write_views(final(out)@) == write_views(old(out)@) + p@.0,
{
    let ghost start = write_views(out@);
    let ghost pw = p@.0;
    let mut i: usize = 0;
    while i < p.writes.len()
        invariant
            i <= p.writes@.len(),
            pw == write_views(p.writes@),
            write_views(out@) == start + pw.take(i as int),
        decreases p.writes@.len() - i,
    {
        let w = &p.writes[i];
        assert(pw[i as int] == write_view(*w));
        let ghost before = write_views(out@);
        let nw = Write { path: w.path.clone(), value: w.value.clone(), required: w.required };
        out.push(nw);
        assert(write_views(out@) =~= before.push(write_view(nw)));
        assert(pw.take(i + 1) =~= pw.take(i as int).push(pw[i as int]));
        i = i + 1;
    }
    assert(pw.take(i as int) =~= pw);
}

/// Append the writes of `p` to `out` as best-effort writes.
pub fn append_best_effort(out: &mut Vec<Write>, p: &Plan)
    ensures
        write_views(final(out)@) == write_views(old(out)@) + best_effort(p@.0),
{
    let ghost start = write_views(out@);
    let ghost pw = p@.0;
    let mut i: usize = 0;
    while i < p.writes.len()
        invariant
            i <= p.writes@.len(),
            pw == write_views(p.writes@),
            write_views(out@) == start + best_effort(pw.take(i as int)),
        decreases p.writes@.len() - i,
    {
        let w = &p.writes[i];
        assert(pw[i as int] == write_view(*w));
        let ghost before = write_views(out@);
        let nw = Write { path: w.path.clone(), value: w.value.clone(), required: false };
        assert(write_view(nw) == (pw[i as int].0, pw[i as int].1, false));
        out.push(nw);
        assert(write_views(out@) =~= before.push(write_view(nw)));
        assert(best_effort(pw.take(i + 1)) =~= best_effort(pw.take(i as int)).push(write_view(nw)));
        i = i + 1;
    }
    assert(pw.take(i as int) =~= pw);
}

// ---------------------------------------------------------------------------
// Carrying out a plan
// ---------------------------------------------------------------------------

/// Where the execution of a plan goes next.
#[derive(Debug, Clone, Copy, PartialEq, Eq, Structural)]
pub enum Step {
    /// Perform the write at this position.
    Write(usize),
    /// The required write just performed failed: the request ends with its error.
    Stop,
    /// Every write has been performed: the request ends with the plan's result.
    Finish,
}

pub open spec fn spec_first_step(p: PlanView) -> Step {
    if p.0.len() > 0 {
        Step::Write(0)
    } else {
        Step::Finish
    }
}

/// After write `i` ended (`ok` when it succeeded): a failed required write
/// stops the request, a failed best-effort write is ignored, and otherwise the
/// next write follows, or the request finishes after the last.
pub open spec fn spec_next_step(p: PlanView, i: int, ok: bool) -> Step {
    if !ok && p.0[i].2 {
        Step::Stop
    } else if i + 1 < p.0.len() {
        Step::Write((i + 1) as usize)
    } else {
        Step::Finish
    }
}

/// The first step of carrying out `p`.
pub fn first_step(p: &Plan) -> (s: Step)
    ensures
        s == spec_first_step(p@),
{
    if p.writes.len() > 0 {
        Step::Write(0)
    } else {
        Step::Finish
    }
}

/// The step after write `i` of `p` ended.
pub fn next_step(p: &Plan, i: usize, ok: bool) -> (s: Step)
    requires
        i < p.writes@.len(),
    ensures
        s == spec_next_step(p@, i as int, ok),
{
    assert(p@.0[i as int] == write_view(p.writes@[i as int]));
    if !ok && p.writes[i].required {
        Step::Stop
    } else if i < p.writes.len() - 1 {
        Step::Write(i + 1)
    } else {
        Step::Finish
    }
}

/// A failed best-effort write never ends a request early.
pub proof fn lemma_best_effort_failure_ignored(p: PlanView, i: int)
    requires
        0 <= i < p.0.len(),
        !p.0[i].2,
    ensures
        spec_next_step(p, i, false) == spec_next_step(p, i, true),
        spec_next_step(p, i, false) != Step::Stop,
{
}

// ---------------------------------------------------------------------------
// The files after a plan
// ---------------------------------------------------------------------------

/// The value the last write of `ws` to `p` puts there, if any write does.
pub open spec fn last_write(ws: Seq<(Seq<char>, Seq<char>, bool)>, p: Seq<char>) -> Option<Seq<char>>
    decreases ws.len(),
{
    if ws.len() == 0 {
        None
    } else if ws.last().0 == p {
        Some(ws.last().1)
    } else {
        last_write(ws.drop_last(), p)
    }
}

/// `after` is `before` once every write of `ws` succeeded, the kernel stored
/// each value as written and nothing else changed: a written path holds the
/// last value written to it, every other path is as it was.
pub open spec fn applied(before: SysFs, ws: Seq<(Seq<char>, Seq<char>, bool)>, after: SysFs) -> bool {
    forall|p: Seq<char>|
        #[trigger] after.view_at(p) == match last_write(ws, p) {
            Some(v) => Some(NodeView::File(Some(v))),
            None => before.view_at(p),
        }
}

/// A path no write touches reads as before.
pub proof fn lemma_applied_unwritten(before: SysFs, ws: Seq<(Seq<char>, Seq<char>, bool)>, after: SysFs, p: Seq<char>)
    requires
        applied(before, ws, after),
        last_write(ws, p) is None,
    ensures
        after.spec_exists(p) == before.spec_exists(p),
        after.spec_is_dir(p) == before.spec_is_dir(p),
        after.raw(p) == before.raw(p),
        after.spec_read_trim(p) == before.spec_read_trim(p),
        after.spec_read_u64(p) == before.spec_read_u64(p),
        after.spec_list(p) == before.spec_list(p),
{
    assert(after.view_at(p) == before.view_at(p));
}

/// A written path holds the last value written to it.
pub proof fn lemma_applied_written(
    before: SysFs,
    ws: Seq<(Seq<char>, Seq<char>, bool)>,
    after: SysFs,
    p: Seq<char>,
    v: Seq<char>,
)
    requires
        applied(before, ws, after),
        last_write(ws, p) == Some(v),
    ensures
        after.spec_exists(p),
        after.raw(p) == Some(v),
{
    assert(after.view_at(p) == Some(NodeView::File(Some(v))));
}

/// No write lands on a path whose last character no written path ends in.
pub proof fn lemma_last_write_by_last_char(ws: Seq<(Seq<char>, Seq<char>, bool)>, p: Seq<char>)
    requires
        p.len() > 0,
        forall|i: int| 0 <= i < ws.len() ==> (#[trigger] ws[i]).0.len() > 0 && ws[i].0.last() != p.last(),
    ensures
        last_write(ws, p) is None,
    decreases ws.len(),
{
    if ws.len() > 0 {
        assert(ws.last() == ws[ws.len() - 1]);
        let t = ws.drop_last();
        assert forall|i: int| 0 <= i < t.len() implies (#[trigger] t[i]).0.len() > 0 && t[i].0.last() != p.last() by {
            assert(t[i] == ws[i]);
        }
        lemma_last_write_by_last_char(t, p);
    }
}

/// No write of `ws` lands on a path ending in `c`.
pub open spec fn misses_last_char(ws: Seq<(Seq<char>, Seq<char>, bool)>, c: char) -> bool {
    forall|i: int| 0 <= i < ws.len() ==> (#[trigger] ws[i]).0.len() > 0 && ws[i].0.last() != c
}

/// A path no write names is not written.
pub proof fn lemma_last_write_untouched(ws: Seq<(Seq<char>, Seq<char>, bool)>, p: Seq<char>)
    requires
        forall|i: int| 0 <= i < ws.len() ==> (#[trigger] ws[i]).0 != p,
    ensures
        last_write(ws, p) is None,
    decreases ws.len(),
{
    if ws.len() > 0 {
        assert(ws.last() == ws[ws.len() - 1]);
        let t = ws.drop_last();
        assert forall|i: int| 0 <= i < t.len() implies (#[trigger] t[i]).0 != p by {
            assert(t[i] == ws[i]);
        }
        lemma_last_write_untouched(t, p);
    }
}

/// The last write to `p` of two runs of writes: that of the second, if any.
pub proof fn lemma_last_write_concat(
    a: Seq<(Seq<char>, Seq<char>, bool)>,
    b: Seq<(Seq<char>, Seq<char>, bool)>,
    p: Seq<char>,
)
    ensures
        last_write(a + b, p) == match last_write(b, p) {
            Some(v) => Some(v),
            None => last_write(a, p),
        },
    decreases b.len(),
{
    if b.len() == 0 {
        assert(a + b =~= a);
    } else {
        assert((a + b).drop_last() =~= a + b.drop_last());
        assert((a + b).last() == b.last());
        lemma_last_write_concat(a, b.drop_last(), p);
    }
}

} // verus!
