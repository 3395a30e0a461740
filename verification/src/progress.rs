//! Progress of a stage, as it is reported to the user.

use vstd::prelude::*;

verus! {

/// A progress report: how much of the current stage is done, and what it is doing.
pub struct UploadProgress {
    pub percent: u8,
    pub message: String,
}

pub struct ProgressView {
    pub percent: nat,
    pub message: Seq<char>,
}

impl View for UploadProgress {
    type V = ProgressView;

    open spec fn view(&self) -> ProgressView {
        ProgressView { percent: self.percent as nat, message: self.message@ }
    }
}

/// A report as a value of the model.
pub open spec fn report(percent: nat, message: Seq<char>) -> ProgressView {
    ProgressView { percent, message }
}

pub(crate) fn progress(percent: u8, message: String) -> (p: UploadProgress)
    ensures
        p@ == report(percent as nat, message@),
{
    UploadProgress { percent, message }
}

/// Reports as values of the model.
pub open spec fn report_views(reports: Seq<UploadProgress>) -> Seq<ProgressView> {
    reports.map_values(|p: UploadProgress| p@)
}

pub(crate) fn no_reports() -> (reports: Vec<UploadProgress>)
    ensures
        report_views(reports@) == Seq::<ProgressView>::empty(),
{
    let reports: Vec<UploadProgress> = Vec::new();
    assert(report_views(reports@) == Seq::<ProgressView>::empty());
    reports
}

pub(crate) fn one_report(percent: u8, message: String) -> (reports: Vec<UploadProgress>)
    ensures
        report_views(reports@) == seq![report(percent as nat, message@)],
{
    let mut reports: Vec<UploadProgress> = Vec::new();
    reports.push(progress(percent, message));
    assert(report_views(reports@) == seq![report(percent as nat, message@)]);
    reports
}

/// `reports` with one more behind them.
pub(crate) fn and_report(reports: Vec<UploadProgress>, percent: u8, message: String) -> (more: Vec<
    UploadProgress,
>)
    ensures
        report_views(more@) == report_views(reports@).push(report(percent as nat, message@)),
{
    let mut more = reports;
    more.push(progress(percent, message));
    assert(report_views(more@) == report_views(reports@).push(report(percent as nat, message@)));
    more
}

/// `n`, or the greatest 64-bit number if `n` is greater.
pub open spec fn saturated(n: nat) -> nat {
    if n <= u64::MAX {
        n
    } else {
        u64::MAX as nat
    }
}

/// How many whole percent of `total` are `completed`; a stage without work is complete, and one
/// that did more than was announced is not more than complete.
pub open spec fn percent_of(completed: nat, total: nat) -> nat {
    if total == 0 || completed >= total {
        100
    } else {
        completed * 100 / total
    }
}

/// The percentage of a stage.
pub fn stage_percent(completed: u64, total: u64) -> (percent: u8)
    ensures
        percent == percent_of(completed as nat, total as nat),
        percent <= 100,
{
    if total == 0 {
        return 100;
    }
    let done: u64 = if completed < total {
        completed
    } else {
        total
    };
    proof {
        law_percent_is_bounded(completed as nat, total as nat);
        assert(total as nat * 100 / total as nat == 100) by (nonlinear_arith)
            requires
                total > 0,
        ;
    }
    ((done as u128 * 100) / total as u128) as u8
}

/// A percentage never exceeds 100.
pub proof fn law_percent_is_bounded(completed: nat, total: nat)
    ensures
        percent_of(completed, total) <= 100,
{
    if 0 < total && completed < total {
        assert(completed * 100 / total <= 100) by (nonlinear_arith)
            requires
                0 < total,
                completed < total,
        ;
    }
}

/// More completed work never lowers the percentage.
pub proof fn law_percent_is_monotone(less: nat, more: nat, total: nat)
    requires
        less <= more,
    ensures
        percent_of(less, total) <= percent_of(more, total),
{
    law_percent_is_bounded(less, total);
    if 0 < total && more < total {
        assert(less * 100 / total <= more * 100 / total) by (nonlinear_arith)
            requires
                0 < total,
                less <= more,
        ;
    }
}

/// 100 percent are shown exactly when the stage is complete.
pub proof fn law_full_percent_means_complete(completed: nat, total: nat)
    ensures
        percent_of(completed, total) == 100 <==> completed >= total,
{
    if 0 < total && completed < total {
        assert(completed * 100 / total < 100) by (nonlinear_arith)
            requires
                0 < total,
                completed < total,
        ;
    }
}

/// Remembers the last percentage that was reported, so that a stage reports a percentage only
/// when it differs from the previous one.
pub struct ProgressGate {
    pub last: Option<u8>,
}

impl ProgressGate {
    /// A gate that lets the first report through.
    pub fn new() -> (gate: Self)
        ensures
            gate.last is None,
    {
        ProgressGate { last: None }
    }

    /// Whether `percent` is to be reported; it is then the last one reported.
    pub fn admits(&mut self, percent: u8) -> (admitted: bool)
        ensures
            admitted == (old(self).last != Some(percent)),
            final(self).last == Some(percent),
    {
        let admitted = match self.last {
            Some(last) => last != percent,
            None => true,
        };
        self.last = Some(percent);
        admitted
    }
}

/// The percentage is the greatest whole number of hundredths of the total that is completed.
pub proof fn law_percent_is_the_completed_part(completed: nat, total: nat)
    requires
        completed <= total,
        total > 0,
    ensures
        percent_of(completed, total) * total <= completed * 100,
        completed * 100 < (percent_of(completed, total) + 1) * total,
{
    let percent = percent_of(completed, total);
    if completed < total {
        assert(percent * total <= completed * 100 < (percent + 1) * total) by (nonlinear_arith)
            requires
                total > 0,
                percent == completed * 100 / total,
        ;
    } else {
        assert(percent * total == completed * 100 && completed * 100 < (percent + 1) * total)
            by (nonlinear_arith)
            requires
                total > 0,
                percent == 100,
                completed == total,
        ;
    }
}

/// Saturation changes no number that fits, and nothing is lost below the greatest one.
pub proof fn law_saturation_is_the_nearest_number(n: nat)
    ensures
        saturated(n) <= n,
        saturated(n) <= 0xffff_ffff_ffff_ffff,
        saturated(n) == n || saturated(n) == 0xffff_ffff_ffff_ffff,
{
}

}
