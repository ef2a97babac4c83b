//! The report generator: an on-demand aggregate over one caller's full
//! session history. Averages are compared exactly, as sums against scaled
//! counts, so the thresholds mean precisely "average greater than 2", "1",
//! "0" and "6".

use vstd::prelude::*;
use vstd::string::StringExecFns;
use crate::model::{ProgressReport, ReportView, SessionView, TherapyError, UserId, anonymous_id, res_view};
use crate::store::{StoreView, TherapyStore};

verus! {

/// The sum of the per-session stress reductions (level before minus level
/// after) over a session sequence.
pub open spec fn sum_reduction(ss: Seq<SessionView>) -> int
    decreases ss.len(),
{
    if ss.len() == 0 {
        0
    } else {
        sum_reduction(ss.drop_last()) + (ss.last().stress_level_before
            - ss.last().stress_level_after)
    }
}

/// The sum of the after-session stress levels over a session sequence.
pub open spec fn sum_after(ss: Seq<SessionView>) -> int
    decreases ss.len(),
{
    if ss.len() == 0 {
        0
    } else {
        sum_after(ss.drop_last()) + ss.last().stress_level_after
    }
}

/// The trend label for an average stress reduction of `sum / n` (`n > 0`):
/// above 2 "Excellent progress", above 1 "Good improvement", above 0
/// "Gradual progress", else "Needs attention".
pub open spec fn spec_trend(sum: int, n: int) -> Seq<char> {
    if sum > 2 * n {
        "Excellent progress"@
    } else if sum > n {
        "Good improvement"@
    } else if sum > 0 {
        "Gradual progress"@
    } else {
        "Needs attention"@
    }
}

/// The last up-to-three sessions of a history, in store order.
pub open spec fn recent_of(ss: Seq<SessionView>) -> Seq<SessionView> {
    if ss.len() <= 3 {
        ss
    } else {
        ss.subrange(ss.len() - 3, ss.len() as int)
    }
}

/// The recommendation list, all applicable entries in this order: two
/// entries when the average reduction is below 1, one when fewer than five
/// sessions exist, and one when the recent average after-session stress
/// exceeds 6 (`rsum / rn` with `rn > 0`).
pub open spec fn spec_recommendations(sum: int, n: int, rsum: int, rn: int) -> Seq<Seq<char>> {
    (if sum < n {
        seq![
            "Consider longer therapy sessions"@,
            "Try different therapy types (EMDR vs CBT)"@,
        ]
    } else {
        Seq::empty()
    }) + (if n < 5 {
        seq!["Continue regular sessions for best results"@]
    } else {
        Seq::empty()
    }) + (if rsum > 6 * rn {
        seq!["Consider professional support for high stress levels"@]
    } else {
        Seq::empty()
    })
}

impl StoreView {
    /// Progress reporting: reject the anonymous caller; report `NotFound`
    /// for a caller without sessions (whether or not a profile exists);
    /// otherwise aggregate the caller's full history.
    pub open spec fn spec_report(self, caller: Seq<u8>, now: u64) -> Result<
        ReportView,
        TherapyError,
    > {
        if caller == anonymous_id() {
            Err(TherapyError::Unauthenticated)
        } else {
            let owned = self.sessions_of(caller);
            if owned.len() == 0 {
                Err(TherapyError::NotFound)
            } else {
                let sum = sum_reduction(owned);
                let n = owned.len() as int;
                let recent = recent_of(owned);
                Ok(
                    ReportView {
                        user_principal: caller,
                        total_sessions: owned.len(),
                        stress_reduction_sum: sum,
                        trend: spec_trend(sum, n),
                        recommendations: spec_recommendations(
                            sum,
                            n,
                            sum_after(recent),
                            recent.len() as int,
                        ),
                        generated_at: now,
                    },
                )
            }
        }
    }
}

impl TherapyStore {
    /// Generate the caller's progress report from their full session
    /// history. Fails `NotFound` when the caller owns no sessions, a
    /// distinct condition from (but the same error as) an unregistered
    /// caller.
    pub fn generate_user_progress_report(&self, caller: &UserId, now: u64) -> (r: Result<
        ProgressReport,
        TherapyError,
    >)
        ensures
            res_view(r) == self@.spec_report(caller@, now),
    {
        let sessions = match self.get_user_sessions(caller) {
            Ok(v) => v,
            Err(e) => {
                return Err(e);
            },
        };
        let ghost owned = self@.sessions_of(caller@);
        proof {
            assert(sessions.deep_view() == owned);
        }
        let n = sessions.len();
        if n == 0 {
            return Err(TherapyError::NotFound);
        }

        let bound: i128 = 0x1_0000_0000i128;
        let mut sum: i128 = 0;
        let mut i: usize = 0;
        while i < n
            invariant
                n == sessions.len(),
                sessions.deep_view() == owned,
                i <= n,
                sum == sum_reduction(owned.take(i as int)),
                -(i as i128) * 0x1_0000_0000 <= sum <= (i as i128) * 0x1_0000_0000,
            decreases n - i,
        {
            proof {
                assert(owned.take(i + 1).drop_last() =~= owned.take(i as int));
                assert(owned.take(i + 1).last() == owned[i as int]);
                assert((i as int + 1) * 0x1_0000_0000 <= 0x1_0000_0000_0000_0000i128
                    * 0x1_0000_0000) by (nonlinear_arith)
                    requires
                        i as int + 1 <= 0x1_0000_0000_0000_0000i128,
                ;
                assert(-((i as int + 1) * 0x1_0000_0000) >= -(0x1_0000_0000_0000_0000i128
                    * 0x1_0000_0000)) by (nonlinear_arith)
                    requires
                        i as int + 1 <= 0x1_0000_0000_0000_0000i128,
                ;
                assert((i as int) * 0x1_0000_0000 + 0x1_0000_0000 == (i as int + 1)
                    * 0x1_0000_0000) by (nonlinear_arith);
            }
            let d: i128 = sessions[i].stress_level_before as i128
                - sessions[i].stress_level_after as i128;
            sum = sum + d;
            i = i + 1;
        }
        proof {
            assert(owned.take(n as int) =~= owned);
        }

        let start: usize = if n > 3 {
            n - 3
        } else {
            0
        };
        let mut rsum: i128 = 0;
        let mut j: usize = start;
        while j < n
            invariant
                n == sessions.len(),
                sessions.deep_view() == owned,
                start <= j <= n,
                n - start <= 3,
                rsum == sum_after(owned.subrange(start as int, j as int)),
                -((j - start) as i128 * 0x1_0000_0000) <= rsum <= (j - start) as i128
                    * 0x1_0000_0000,
            decreases n - j,
        {
            proof {
                assert(owned.subrange(start as int, j + 1).drop_last() =~= owned.subrange(
                    start as int,
                    j as int,
                ));
                assert(owned.subrange(start as int, j + 1).last() == owned[j as int]);
            }
            rsum = rsum + sessions[j].stress_level_after as i128;
            j = j + 1;
        }
        let rn: i128 = (n - start) as i128;
        proof {
            assert(owned.subrange(start as int, n as int) =~= recent_of(owned));
        }

        let trend_label: &str = if sum > 2 * (n as i128) {
            "Excellent progress"
        } else if sum > n as i128 {
            "Good improvement"
        } else if sum > 0 {
            "Gradual progress"
        } else {
            "Needs attention"
        };

        let mut recommendations: Vec<String> = Vec::new();
        if sum < n as i128 {
            recommendations.push(String::from_str("Consider longer therapy sessions"));
            recommendations.push(String::from_str("Try different therapy types (EMDR vs CBT)"));
        }
        proof {
            assert(recommendations.deep_view() =~= (if sum_reduction(owned) < owned.len() {
                seq![
                    "Consider longer therapy sessions"@,
                    "Try different therapy types (EMDR vs CBT)"@,
                ]
            } else {
                Seq::<Seq<char>>::empty()
            }));
        }
        if n < 5 {
            recommendations.push(String::from_str("Continue regular sessions for best results"));
        }
        if rsum > 6 * rn {
            recommendations.push(
                String::from_str("Consider professional support for high stress levels"),
            );
        }
        proof {
            assert(recommendations.deep_view() =~= spec_recommendations(
                sum_reduction(owned),
                owned.len() as int,
                sum_after(recent_of(owned)),
                recent_of(owned).len() as int,
            ));
        }

        let report = ProgressReport {
            user_principal: caller.duplicate(),
            total_sessions: n as u64,
            stress_reduction_sum: sum,
            trend: String::from_str(trend_label),
            recommendations,
            generated_at: now,
        };
        proof {
            assert(report@ =~= self@.spec_report(caller@, now)->Ok_0);
        }
        Ok(report)
    }
}

} // verus!
