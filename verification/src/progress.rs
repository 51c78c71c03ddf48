//! Cheap progress reporting for page-by-page work.
use vstd::prelude::*;

verus! {

/// Reports are thinned to about twenty: every `step`-th item, plus the first
/// and the last.
pub open spec fn report_step(total: nat) -> nat {
    if total == 0 {
        1
    } else {
        ((total + 19) / 20) as nat
    }
}

/// Whether the `completed`-th item is reported.
pub open spec fn should_report(completed: nat, total: nat) -> bool {
    completed == 1 || completed == total || completed % report_step(total) == 0
}

/// Counts items, and reports to `callback` (phase, completed, total) on the
/// first, the last and every `report_step`-th item: every item for jobs of
/// up to 20 pages, about twenty reports above that.
pub struct ProgressCounter<'a, F: Fn(&str, usize, usize)> {
    phase: &'a str,
    total: usize,
    completed: usize,
    report_step: usize,
    callback: F,
}

impl<'a, F: Fn(&str, usize, usize)> ProgressCounter<'a, F> {
    pub closed spec fn total_items(&self) -> nat {
        self.total as nat
    }

    pub closed spec fn completed_items(&self) -> nat {
        self.completed as nat
    }

    pub closed spec fn well_formed(&self) -> bool {
        self.report_step == report_step(self.total as nat)
    }

    pub closed spec fn reporter(&self) -> F {
        self.callback
    }

    pub closed spec fn phase_text(&self) -> &'a str {
        self.phase
    }

    pub fn new(phase: &'a str, total: usize, callback: F) -> (c: Self)
        ensures
            c.well_formed(),
            c.total_items() == total,
            c.completed_items() == 0,
            c.reporter() == callback,
            c.phase_text() == phase,
    {
        let step = if total == 0 {
            1
        } else {
            total / 20 + if total % 20 == 0 {
                0
            } else {
                1
            }
        };
        assert(total > 0 ==> step == (total + 19) / 20);
        ProgressCounter { phase, total, completed: 0, report_step: step, callback }
    }

    /// Counts one finished item; returns whether it was reported, which is
    /// when the callback was called with the phase, the count and the total.
    pub fn advance(&mut self) -> (reported: bool)
        requires
            old(self).well_formed(),
            old(self).completed_items() < usize::MAX,
            forall|p: &str, a: usize, b: usize| (old(self).reporter()).requires((p, a, b)),
        ensures
            final(self).well_formed(),
            final(self).total_items() == old(self).total_items(),
            final(self).reporter() == old(self).reporter(),
            final(self).completed_items() == old(self).completed_items() + 1,
            final(self).phase_text() == old(self).phase_text(),
            reported == should_report(final(self).completed_items(), final(self).total_items()),
            reported ==> call_ensures(
                old(self).reporter(),
                (old(self).phase_text(), final(self).completed_items() as usize, final(self).total_items() as usize),
                (),
            ),
    {
        self.completed = self.completed + 1;
        let completed = self.completed;
        let reported = completed == 1 || completed == self.total || completed % self.report_step
            == 0;
        if reported {
            assert(old(self).reporter().requires((self.phase, completed, self.total)));
            (self.callback)(self.phase, completed, self.total);
        }
        reported
    }
}

/// Number of reported items among the first `k`.
pub open spec fn reports_upto(k: nat, total: nat) -> nat
    decreases k,
{
    if k == 0 {
        0
    } else {
        reports_upto((k - 1) as nat, total) + if should_report(k, total) {
            1nat
        } else {
            0nat
        }
    }
}

proof fn lemma_reports_before_last(k: nat, total: nat)
    requires
        k < total,
    ensures
        reports_upto(k, total) <= 1 + k / report_step(total),
    decreases k,
{
    let step = report_step(total);
    assert(step >= 1);
    if k == 1 {
        assert(reports_upto(0, total) == 0);
        assert(reports_upto(1, total) <= 1);
    } else if k > 1 {
        lemma_reports_before_last((k - 1) as nat, total);
        assert(reports_upto(k, total) == reports_upto((k - 1) as nat, total) + if k % step == 0 {
            1nat
        } else {
            0nat
        });
        assert(k % step == 0 ==> k / step == (k - 1) as nat / step + 1) by (nonlinear_arith)
            requires
                step >= 1,
                k >= 1,
        ;
        assert((k - 1) as nat / step <= k / step) by (nonlinear_arith)
            requires
                step >= 1,
                k >= 1,
        ;
    }
}

/// A job reports on its first and last item, never more than 21 times in
/// all, and on every item when it has at most 20.
pub proof fn lemma_report_budget(total: nat)
    ensures
        total >= 1 ==> should_report(1, total) && should_report(total, total),
        reports_upto(total, total) <= 21,
        total <= 20 ==> forall|k: nat| 1 <= k <= total ==> should_report(k, total),
{
    let step = report_step(total);
    if total >= 1 {
        lemma_reports_before_last((total - 1) as nat, total);
        assert(step * 20 >= total);
        assert((total - 1) as nat / step <= 19) by (nonlinear_arith)
            requires
                step >= 1,
                step * 20 >= total,
                total >= 1,
        ;
    }
    if total <= 20 && total >= 1 {
        assert(step == 1);
        assert forall|k: nat| 1 <= k <= total implies should_report(k, total) by {
            assert(k % 1 == 0);
        }
    }
}

} // verus!
