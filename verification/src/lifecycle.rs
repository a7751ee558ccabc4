//! The terminal's lifecycle: what switches it into the dashboard's mode, and
//! what undoes exactly that much.
//!
//! A flag is set before the step that applies it and cleared after the step that
//! undoes it, so that a step that failed half-written is still undone and an
//! interrupted undo is never taken for a finished one.
use vstd::prelude::*;

verus! {

/// One thing done to a terminal.
#[derive(Debug, Clone, Copy, PartialEq, Eq, Structural)]
pub enum Step {
    Raw(bool),
    Alt(bool),
    Paste(bool),
    Mouse(bool),
    ShowCursor,
    Flush,
}

/// What has been switched on.
#[derive(Debug, Clone, Copy, PartialEq, Eq, Structural)]
pub struct Flags {
    pub raw: bool,
    pub alt: bool,
    /// Bracketed paste. Without it pasted bytes arrive as if they were typed.
    pub paste: bool,
    pub mouse: bool,
}

/// Nothing is on.
pub open spec fn all_off() -> Flags {
    Flags { raw: false, alt: false, paste: false, mouse: false }
}

/// Something is on.
pub open spec fn any_on(f: Flags) -> bool {
    f.raw || f.alt || f.paste || f.mouse
}

/// The flags once a step is begun.
pub open spec fn begun(f: Flags, step: Step) -> Flags {
    match step {
        Step::Raw(true) => Flags { raw: true, ..f },
        Step::Alt(true) => Flags { alt: true, ..f },
        Step::Paste(true) => Flags { paste: true, ..f },
        Step::Mouse(true) => Flags { mouse: true, ..f },
        _ => f,
    }
}

/// The flags once a step is over.
pub open spec fn ended(f: Flags, step: Step) -> Flags {
    match step {
        Step::Raw(false) => Flags { raw: false, ..f },
        Step::Alt(false) => Flags { alt: false, ..f },
        Step::Paste(false) => Flags { paste: false, ..f },
        Step::Mouse(false) => Flags { mouse: false, ..f },
        _ => f,
    }
}

/// The flags once some steps are begun and over.
pub open spec fn performed(f: Flags, steps: Seq<Step>) -> Flags
    decreases steps.len(),
{
    if steps.len() == 0 {
        f
    } else {
        let before = performed(f, steps.drop_last());
        ended(begun(before, steps.last()), steps.last())
    }
}

/// The steps that arm a terminal. Bracketed paste is no preference, unlike the
/// mouse.
pub open spec fn arming(mouse: bool) -> Seq<Step> {
    seq![Step::Raw(true), Step::Alt(true), Step::Paste(true)] + if mouse {
        seq![Step::Mouse(true)]
    } else {
        Seq::empty()
    }
}

/// A step, where it is wanted.
pub open spec fn when(on: bool, step: Step) -> Seq<Step> {
    if on {
        seq![step]
    } else {
        Seq::empty()
    }
}

/// The steps that restore a terminal: nothing when nothing is on, and otherwise
/// the cursor first and what is on in reverse.
pub open spec fn restoring(f: Flags) -> Seq<Step> {
    if any_on(f) {
        seq![Step::ShowCursor] + when(f.mouse, Step::Mouse(false)) + when(
            f.paste,
            Step::Paste(false),
        ) + when(f.alt, Step::Alt(false)) + when(f.raw, Step::Raw(false)) + seq![Step::Flush]
    } else {
        Seq::empty()
    }
}

impl Flags {
    /// Nothing is on.
    pub fn new() -> (r: Flags)
        ensures
            r == all_off(),
    {
        Flags { raw: false, alt: false, paste: false, mouse: false }
    }

    /// To be called before a step is applied.
    pub fn begin(self, step: Step) -> (r: Flags)
        ensures
            r == begun(self, step),
    {
        let mut f = self;
        match step {
            Step::Raw(true) => {
                f.raw = true;
            },
            Step::Alt(true) => {
                f.alt = true;
            },
            Step::Paste(true) => {
                f.paste = true;
            },
            Step::Mouse(true) => {
                f.mouse = true;
            },
            _ => {},
        }
        f
    }

    /// To be called after a step was applied.
    pub fn end(self, step: Step) -> (r: Flags)
        ensures
            r == ended(self, step),
    {
        let mut f = self;
        match step {
            Step::Raw(false) => {
                f.raw = false;
            },
            Step::Alt(false) => {
                f.alt = false;
            },
            Step::Paste(false) => {
                f.paste = false;
            },
            Step::Mouse(false) => {
                f.mouse = false;
            },
            _ => {},
        }
        f
    }
}

/// The steps that arm a terminal.
pub fn arm_steps(mouse: bool) -> (r: Vec<Step>)
    ensures
        r@ == arming(mouse),
{
    let mut out: Vec<Step> = Vec::new();
    out.push(Step::Raw(true));
    out.push(Step::Alt(true));
    out.push(Step::Paste(true));
    if mouse {
        out.push(Step::Mouse(true));
    }
    proof {
        assert(out@ =~= arming(mouse));
    }
    out
}

/// The steps that restore a terminal. The cursor comes first: leaving the
/// alternate screen restores the buffer, not the cursor's visibility.
pub fn restore_steps(flags: Flags) -> (r: Vec<Step>)
    ensures
        r@ == restoring(flags),
{
    let mut out: Vec<Step> = Vec::new();
    if !(flags.mouse || flags.paste || flags.alt || flags.raw) {
        proof {
            assert(out@ =~= restoring(flags));
        }
        return out;
    }
    out.push(Step::ShowCursor);
    if flags.mouse {
        out.push(Step::Mouse(false));
    }
    if flags.paste {
        out.push(Step::Paste(false));
    }
    if flags.alt {
        out.push(Step::Alt(false));
    }
    if flags.raw {
        out.push(Step::Raw(false));
    }
    out.push(Step::Flush);
    proof {
        assert(out@ =~= restoring(flags));
    }
    out
}

/// A walk through some steps, one at a time: which step to apply next, and what
/// is on meanwhile.
#[derive(Debug, Clone, PartialEq, Eq)]
pub struct Course {
    pub steps: Vec<Step>,
    /// How many steps are over.
    pub at: usize,
    pub flags: Flags,
    /// A step that fails ends the walk.
    pub strict: bool,
    pub failed: bool,
}

/// A walk as a value.
pub ghost struct CourseV {
    pub steps: Seq<Step>,
    pub at: int,
    pub flags: Flags,
    pub strict: bool,
    pub failed: bool,
}

impl View for Course {
    type V = CourseV;

    open spec fn view(&self) -> CourseV {
        CourseV {
            steps: self.steps@,
            at: self.at as int,
            flags: self.flags,
            strict: self.strict,
            failed: self.failed,
        }
    }
}

/// The walk that arms a terminal: it ends at the first step that fails, and the
/// flags then say what has to be undone, which is every step that was begun.
pub open spec fn arming_course(f: Flags, mouse: bool) -> CourseV {
    CourseV { steps: arming(mouse), at: 0, flags: f, strict: true, failed: false }
}

/// The walk that undoes exactly what is on. A step that fails is not tried again
/// and keeps no other from being tried.
pub open spec fn restoring_course(f: Flags) -> CourseV {
    CourseV { steps: restoring(f), at: 0, flags: f, strict: false, failed: false }
}

/// The step that is due, if there is one.
pub open spec fn due(c: CourseV) -> Option<Step> {
    if c.failed || c.at >= c.steps.len() {
        None
    } else {
        Some(c.steps[c.at])
    }
}

/// The walk once the step that is due is begun.
pub open spec fn step_begun(c: CourseV) -> CourseV {
    match due(c) {
        Some(step) => CourseV { flags: begun(c.flags, step), ..c },
        None => c,
    }
}

/// The walk once the step that is due was applied, and worked or did not.
pub open spec fn step_over(c: CourseV, worked: bool) -> CourseV {
    match due(c) {
        Some(step) => if worked || !c.strict {
            CourseV { at: c.at + 1, flags: ended(c.flags, step), ..c }
        } else {
            CourseV { failed: true, ..c }
        },
        None => c,
    }
}

/// The walk after as many steps as there are outcomes.
pub open spec fn walked(c: CourseV, outcomes: Seq<bool>) -> CourseV
    decreases outcomes.len(),
{
    if outcomes.len() == 0 {
        c
    } else {
        step_over(step_begun(walked(c, outcomes.drop_last())), outcomes.last())
    }
}

impl Course {
    /// The walk that arms a terminal.
    pub fn arm(flags: Flags, mouse: bool) -> (r: Course)
        ensures
            r@ == arming_course(flags, mouse),
    {
        Course { steps: arm_steps(mouse), at: 0, flags, strict: true, failed: false }
    }

    /// The walk that undoes what is on.
    pub fn restore(flags: Flags) -> (r: Course)
        ensures
            r@ == restoring_course(flags),
    {
        Course { steps: restore_steps(flags), at: 0, flags, strict: false, failed: false }
    }

    /// The step to apply now. Its flag is set already, so that a step that fails
    /// half-written is still undone.
    pub fn begin(&mut self) -> (r: Option<Step>)
        ensures
            r == due(old(self)@),
            final(self)@ == step_begun(old(self)@),
    {
        if self.failed || self.at >= self.steps.len() {
            return None;
        }
        let step = self.steps[self.at];
        self.flags = self.flags.begin(step);
        Some(step)
    }

    /// The step that was due has been applied. Its flag falls only now, so that an
    /// interrupted undo is never taken for a finished one.
    pub fn end(&mut self, worked: bool)
        ensures
            final(self)@ == step_over(old(self)@, worked),
    {
        if self.failed || self.at >= self.steps.len() {
            return;
        }
        let step = self.steps[self.at];
        if worked || !self.strict {
            self.flags = self.flags.end(step);
            self.at += 1;
        } else {
            self.failed = true;
        }
    }
}

// ---------------------------------------------------------------------- laws

proof fn lemma_performed_push(f: Flags, steps: Seq<Step>, step: Step)
    ensures
        performed(f, steps.push(step)) == ended(begun(performed(f, steps), step), step),
{
    assert(steps.push(step).drop_last() =~= steps);
}

proof fn lemma_performed_concat(f: Flags, a: Seq<Step>, b: Seq<Step>)
    ensures
        performed(f, a + b) == performed(performed(f, a), b),
    decreases b.len(),
{
    if b.len() == 0 {
        assert(a + b =~= a);
    } else {
        lemma_performed_concat(f, a, b.drop_last());
        assert((a + b).drop_last() =~= a + b.drop_last());
    }
}

proof fn lemma_when(f: Flags, on: bool, step: Step)
    ensures
        performed(f, when(on, step)) == if on {
            ended(begun(f, step), step)
        } else {
            f
        },
{
    lemma_performed_push(f, Seq::empty(), step);
    assert(Seq::empty().push(step) =~= seq![step]);
}

/// Restoring leaves nothing on, and restoring again does nothing.
pub proof fn restoring_switches_everything_off(f: Flags)
    ensures
        performed(f, restoring(f)) == all_off(),
        restoring(performed(f, restoring(f))) == Seq::<Step>::empty(),
{
    if any_on(f) {
        let s0 = seq![Step::ShowCursor];
        let s1 = when(f.mouse, Step::Mouse(false));
        let s2 = when(f.paste, Step::Paste(false));
        let s3 = when(f.alt, Step::Alt(false));
        let s4 = when(f.raw, Step::Raw(false));
        let s5 = seq![Step::Flush];
        lemma_when(f, true, Step::ShowCursor);
        assert(s0 == when(true, Step::ShowCursor));
        assert(s5 == when(true, Step::Flush));
        let f0 = performed(f, s0);
        lemma_performed_concat(f, s0, s1);
        lemma_when(f0, f.mouse, Step::Mouse(false));
        let f1 = performed(f0, s1);
        lemma_performed_concat(f, s0 + s1, s2);
        lemma_when(f1, f.paste, Step::Paste(false));
        let f2 = performed(f1, s2);
        lemma_performed_concat(f, s0 + s1 + s2, s3);
        lemma_when(f2, f.alt, Step::Alt(false));
        let f3 = performed(f2, s3);
        lemma_performed_concat(f, s0 + s1 + s2 + s3, s4);
        lemma_when(f3, f.raw, Step::Raw(false));
        let f4 = performed(f3, s4);
        lemma_performed_concat(f, s0 + s1 + s2 + s3 + s4, s5);
        lemma_when(f4, true, Step::Flush);
    }
}

/// What restoring undoes is exactly what was switched on: each mode is switched
/// off if and only if its flag is set, and where anything is undone the cursor
/// is shown before it.
pub proof fn restoring_undoes_exactly_what_is_on(f: Flags)
    ensures
        restoring(f).contains(Step::Raw(false)) <==> f.raw,
        restoring(f).contains(Step::Alt(false)) <==> f.alt,
        restoring(f).contains(Step::Paste(false)) <==> f.paste,
        restoring(f).contains(Step::Mouse(false)) <==> f.mouse,
        any_on(f) ==> restoring(f)[0] == Step::ShowCursor && restoring(f).last() == Step::Flush,
        forall|i: int|
            0 <= i < restoring(f).len() ==> {
                let s = #[trigger] restoring(f)[i];
                s == Step::Raw(false) || s == Step::Alt(false) || s == Step::Paste(false) || s
                    == Step::Mouse(false) || s == Step::ShowCursor || s == Step::Flush
            },
{
    let r = restoring(f);
    if any_on(f) {
        let a: int = 1;
        let b: int = a + if f.mouse {
            1int
        } else {
            0
        };
        let c: int = b + if f.paste {
            1int
        } else {
            0
        };
        let d: int = c + if f.alt {
            1int
        } else {
            0
        };
        if f.mouse {
            assert(r[a] == Step::Mouse(false));
        }
        if f.paste {
            assert(r[b] == Step::Paste(false));
        }
        if f.alt {
            assert(r[c] == Step::Alt(false));
        }
        if f.raw {
            assert(r[d] == Step::Raw(false));
        }
    }
}

/// How far a walk that nothing stops has come.
proof fn lemma_walked(c: CourseV, outcomes: Seq<bool>)
    requires
        c.at == 0,
        !c.failed,
        !c.strict || forall|i: int| 0 <= i < outcomes.len() ==> outcomes[i],
    ensures
        ({
            let n = if outcomes.len() < c.steps.len() {
                outcomes.len() as int
            } else {
                c.steps.len() as int
            };
            walked(c, outcomes) == (CourseV {
                at: n,
                flags: performed(c.flags, c.steps.take(n)),
                ..c
            })
        }),
    decreases outcomes.len(),
{
    if outcomes.len() == 0 {
        assert(c.steps.take(0) =~= Seq::empty());
    } else {
        let before = outcomes.drop_last();
        assert forall|i: int| 0 <= i < before.len() && c.strict implies before[i] by {
            assert(before[i] == outcomes[i]);
        }
        lemma_walked(c, before);
        if outcomes.len() <= c.steps.len() {
            let n = outcomes.len() as int;
            assert(c.steps.take(n).drop_last() =~= c.steps.take(n - 1));
        }
    }
}

/// However the steps of an undo turn out, it goes through all of them and leaves
/// nothing on.
pub proof fn an_undo_always_finishes(f: Flags, outcomes: Seq<bool>)
    requires
        outcomes.len() >= restoring(f).len(),
    ensures
        ({
            let c = walked(restoring_course(f), outcomes);
            &&& due(c) is None
            &&& c.at == restoring(f).len()
            &&& c.flags == all_off()
        }),
{
    lemma_walked(restoring_course(f), outcomes);
    assert(restoring(f).take(restoring(f).len() as int) =~= restoring(f));
    restoring_switches_everything_off(f);
}

/// Arming whose steps all work leaves exactly what it says on. Arming that fails
/// at some step stops there, with that step still among what has to be undone.
pub proof fn arming_stops_at_the_first_failure(f: Flags, mouse: bool, k: int)
    requires
        0 <= k <= arming(mouse).len(),
    ensures
        ({
            let c = walked(arming_course(f, mouse), Seq::new(k as nat, |i: int| true));
            let d = step_over(step_begun(c), false);
            &&& !c.failed && c.at == k
            &&& c.flags == performed(f, arming(mouse).take(k))
            &&& k < arming(mouse).len() ==> d.failed && due(d) is None && d.flags == performed(
                f,
                arming(mouse).take(k + 1),
            )
        }),
{
    let steps = arming(mouse);
    let outcomes = Seq::new(k as nat, |i: int| true);
    lemma_walked(arming_course(f, mouse), outcomes);
    if k < steps.len() {
        assert(steps.take(k + 1).drop_last() =~= steps.take(k));
    }
}

/// What is on stays on through steps that do not switch it off.
proof fn lemma_performed_keeps(f: Flags, steps: Seq<Step>)
    ensures
        f.raw && !steps.contains(Step::Raw(false)) ==> performed(f, steps).raw,
        f.alt && !steps.contains(Step::Alt(false)) ==> performed(f, steps).alt,
        f.paste && !steps.contains(Step::Paste(false)) ==> performed(f, steps).paste,
        f.mouse && !steps.contains(Step::Mouse(false)) ==> performed(f, steps).mouse,
    decreases steps.len(),
{
    if steps.len() > 0 {
        let before = steps.drop_last();
        lemma_performed_keeps(f, before);
        assert forall|s: Step| #[trigger] before.contains(s) implies steps.contains(s) by {
            let k = choose|k: int| 0 <= k < before.len() && before[k] == s;
            assert(steps[k] == s);
        }
        assert(steps[steps.len() - 1] == steps.last());
        assert(steps.contains(steps.last()));
    }
}

/// No step stands twice in an undo.
proof fn lemma_an_undo_repeats_nothing(f: Flags)
    ensures
        forall|i: int, j: int|
            0 <= i < j < restoring(f).len() ==> #[trigger] restoring(f)[i]
                != #[trigger] restoring(f)[j],
{
}

/// While an undo applies a step, what that step switches off still counts as on:
/// an interruption there finds it left to undo.
pub proof fn every_flag_outlives_its_undo(f: Flags, outcomes: Seq<bool>)
    requires
        outcomes.len() < restoring(f).len(),
    ensures
        ({
            let d = step_begun(walked(restoring_course(f), outcomes));
            match due(d) {
                Some(Step::Raw(_)) => d.flags.raw,
                Some(Step::Alt(_)) => d.flags.alt,
                Some(Step::Paste(_)) => d.flags.paste,
                Some(Step::Mouse(_)) => d.flags.mouse,
                Some(Step::ShowCursor) => d.flags == f,
                Some(Step::Flush) => d.flags == all_off(),
                None => false,
            }
        }),
{
    let n = outcomes.len() as int;
    let steps = restoring(f);
    lemma_walked(restoring_course(f), outcomes);
    restoring_undoes_exactly_what_is_on(f);
    lemma_an_undo_repeats_nothing(f);
    lemma_performed_keeps(f, steps.take(n));
    assert(steps.contains(steps[n]));
    assert forall|i: int| 0 <= i < n implies #[trigger] steps.take(n)[i] != steps[n] by {
        assert(steps.take(n)[i] == steps[i]);
    }
    if steps[n] == Step::ShowCursor {
        assert(n == 0) by {
            if n > 0 {
                assert(steps[0] != steps[n]);
            }
        }
        assert(steps.take(0) =~= Seq::empty());
    }
    if steps[n] == Step::Flush {
        let last = steps.len() - 1;
        assert(n == last) by {
            if n < last {
                assert(steps[n] != steps[last]);
            }
        }
        assert(steps.drop_last() =~= steps.take(last));
        restoring_switches_everything_off(f);
    }
}

/// Arming a terminal that was off switches on what it says, and nothing else,
/// however far it gets; restoring it then leaves it as it was.
pub proof fn arming_is_undone(mouse: bool, k: int)
    requires
        0 <= k <= arming(mouse).len(),
    ensures
        ({
            let f = performed(all_off(), arming(mouse).take(k));
            &&& f == (Flags { raw: k >= 1, alt: k >= 2, paste: k >= 3, mouse: k >= 4 })
            &&& performed(f, restoring(f)) == all_off()
        }),
{
    let steps = arming(mouse);
    let f = performed(all_off(), steps.take(k));
    assert(steps.take(0) =~= Seq::empty());
    if k >= 1 {
        assert(steps.take(1) =~= steps.take(0).push(Step::Raw(true)));
        lemma_performed_push(all_off(), steps.take(0), Step::Raw(true));
    }
    if k >= 2 {
        assert(steps.take(2) =~= steps.take(1).push(Step::Alt(true)));
        lemma_performed_push(all_off(), steps.take(1), Step::Alt(true));
    }
    if k >= 3 {
        assert(steps.take(3) =~= steps.take(2).push(Step::Paste(true)));
        lemma_performed_push(all_off(), steps.take(2), Step::Paste(true));
    }
    if k >= 4 {
        assert(steps.take(4) =~= steps.take(3).push(Step::Mouse(true)));
        lemma_performed_push(all_off(), steps.take(3), Step::Mouse(true));
    }
    restoring_switches_everything_off(f);
}

/// A terminal that is handed over and taken back is armed as it was, bracketed
/// paste included.
pub proof fn a_handoff_rearms(mouse: bool)
    ensures
        ({
            let on = performed(all_off(), arming(mouse));
            &&& on == (Flags { raw: true, alt: true, paste: true, mouse })
            &&& performed(performed(on, restoring(on)), arming(mouse)) == on
        }),
{
    let n = arming(mouse).len() as int;
    arming_is_undone(mouse, n);
    assert(arming(mouse).take(n) =~= arming(mouse));
}

} // verus!
