//! Credential-health scoring over a vault's records.
//!
//! Each record is reduced, transiently at scoring time, to a salted
//! fingerprint of its plaintext and a few plain measures; nothing here sees
//! or keeps plaintext. The overall score is a weighted deduction from a
//! 100-point baseline with a floor of 0, so adding a weak, reused, old or
//! breached credential can never raise the score.

use vstd::prelude::*;

verus! {

/// Policy knobs of the scorer: what counts as weak or old, and the deduction
/// weight of each finding category.
#[derive(Clone, Copy, Debug, PartialEq, Eq, Structural)]
pub struct ScoringConfig {
    pub min_length: u64,
    pub min_classes: u64,
    pub max_age: u64,
    pub weight_weak: u64,
    pub weight_reused: u64,
    pub weight_old: u64,
    pub weight_breached: u64,
}

/// The default policy: at-rest passwords shorter than 6 characters or
/// spanning fewer than 3 character classes count as weak, rotation is due
/// after 90 days, and the weights are moderate.
pub open spec fn standard_config() -> ScoringConfig {
    ScoringConfig {
        min_length: 6,
        min_classes: 3,
        max_age: 7776000,
        weight_weak: 10,
        weight_reused: 15,
        weight_old: 5,
        weight_breached: 20,
    }
}

impl ScoringConfig {
    /// Weights small enough that no deduction arithmetic can overflow.
    pub open spec fn wf(self) -> bool {
        self.weight_weak <= 100 && self.weight_reused <= 100 && self.weight_old <= 100
            && self.weight_breached <= 100
    }

    /// The default policy.
    pub fn standard() -> (r: ScoringConfig)
        ensures
            r == standard_config(),
            r.wf(),
    {
        ScoringConfig {
            min_length: 6,
            min_classes: 3,
            max_age: 7776000,
            weight_weak: 10,
            weight_reused: 15,
            weight_old: 5,
            weight_breached: 20,
        }
    }
}

/// What the scorer sees of one record: a salted fingerprint of the
/// plaintext, its length, how many character classes it spans, its age in
/// seconds, and whether the breach feed matched it.
#[derive(Clone, Copy, Debug, PartialEq, Eq, Structural)]
pub struct ScoredEntry {
    pub fingerprint: u64,
    pub length: u64,
    pub classes: u64,
    pub age: u64,
    pub breached: bool,
}

/// Fails the minimum-length or charset-diversity heuristic.
pub open spec fn is_weak(cfg: ScoringConfig, e: ScoredEntry) -> bool {
    e.length < cfg.min_length || e.classes < cfg.min_classes
}

/// Older than the rotation threshold.
pub open spec fn is_old(cfg: ScoringConfig, e: ScoredEntry) -> bool {
    e.age > cfg.max_age
}

/// How many entries are weak.
pub open spec fn count_weak(cfg: ScoringConfig, s: Seq<ScoredEntry>) -> nat
    decreases s.len(),
{
    if s.len() == 0 {
        0
    } else {
        count_weak(cfg, s.drop_last()) + if is_weak(cfg, s.last()) {
            1nat
        } else {
            0nat
        }
    }
}

/// How many entries are old.
pub open spec fn count_old(cfg: ScoringConfig, s: Seq<ScoredEntry>) -> nat
    decreases s.len(),
{
    if s.len() == 0 {
        0
    } else {
        count_old(cfg, s.drop_last()) + if is_old(cfg, s.last()) {
            1nat
        } else {
            0nat
        }
    }
}

/// How many entries the breach feed matched.
pub open spec fn count_breached(s: Seq<ScoredEntry>) -> nat
    decreases s.len(),
{
    if s.len() == 0 {
        0
    } else {
        count_breached(s.drop_last()) + if s.last().breached {
            1nat
        } else {
            0nat
        }
    }
}

/// How many entries carry this fingerprint.
pub open spec fn count_fp(s: Seq<ScoredEntry>, fp: u64) -> nat
    decreases s.len(),
{
    if s.len() == 0 {
        0
    } else {
        count_fp(s.drop_last(), fp) + if s.last().fingerprint == fp {
            1nat
        } else {
            0nat
        }
    }
}

/// How many entries of s have a fingerprint appearing at least twice in all.
pub open spec fn count_reused_in(all: Seq<ScoredEntry>, s: Seq<ScoredEntry>) -> nat
    decreases s.len(),
{
    if s.len() == 0 {
        0
    } else {
        count_reused_in(all, s.drop_last()) + if count_fp(all, s.last().fingerprint) >= 2 {
            1nat
        } else {
            0nat
        }
    }
}

/// How many entries share their plaintext fingerprint with another entry.
pub open spec fn count_reused(s: Seq<ScoredEntry>) -> nat {
    count_reused_in(s, s)
}

/// A count capped at 100, so each category's deduction is bounded.
pub open spec fn cap100(n: nat) -> nat {
    if n > 100 {
        100
    } else {
        n
    }
}

/// The total weighted deduction.
pub open spec fn deduction(cfg: ScoringConfig, s: Seq<ScoredEntry>) -> int {
    cap100(count_weak(cfg, s)) * cfg.weight_weak + cap100(count_reused(s)) * cfg.weight_reused
        + cap100(count_old(cfg, s)) * cfg.weight_old + cap100(count_breached(s))
        * cfg.weight_breached
}

/// The overall score: 100 minus the deduction, floored at 0.
pub open spec fn score(cfg: ScoringConfig, s: Seq<ScoredEntry>) -> nat {
    if deduction(cfg, s) >= 100 {
        0
    } else {
        (100 - deduction(cfg, s)) as nat
    }
}

/// The recommendation texts owed for the findings, in a fixed order.
pub open spec fn recommendations_model(cfg: ScoringConfig, s: Seq<ScoredEntry>) -> Seq<Seq<char>> {
    (if count_weak(cfg, s) > 0 {
        seq!["Strengthen weak passwords"@]
    } else {
        Seq::empty()
    }) + (if count_reused(s) > 0 {
        seq!["Replace reused passwords"@]
    } else {
        Seq::empty()
    }) + (if count_old(cfg, s) > 0 {
        seq!["Rotate old passwords"@]
    } else {
        Seq::empty()
    }) + (if count_breached(s) > 0 {
        seq!["Change breached passwords immediately"@]
    } else {
        Seq::empty()
    })
}

/// The outcome of a security check.
pub struct SecurityCheckResult {
    pub weak_passwords: u64,
    pub reused_passwords: u64,
    pub old_passwords: u64,
    pub breached_passwords: u64,
    pub breach_feed_available: bool,
    pub overall_score: u8,
    pub recommendations: Vec<String>,
}

fn count_weak_exec(cfg: &ScoringConfig, entries: &Vec<ScoredEntry>) -> (r: u64)
    ensures
        r == count_weak(*cfg, entries@),
{
    let mut cnt: u64 = 0;
    let mut i: usize = 0;
    while i < entries.len()
        invariant
            i <= entries.len(),
            cnt <= i,
            cnt == count_weak(*cfg, entries@.subrange(0, i as int)),
        decreases entries.len() - i,
    {
        proof {
            assert(entries@.subrange(0, i + 1).drop_last() =~= entries@.subrange(0, i as int));
            assert(entries@.subrange(0, i + 1).last() == entries@[i as int]);
        }
        let e = &entries[i];
        if e.length < cfg.min_length || e.classes < cfg.min_classes {
            cnt = cnt + 1;
        }
        i = i + 1;
    }
    proof {
        assert(entries@.subrange(0, entries@.len() as int) =~= entries@);
    }
    cnt
}

fn count_old_exec(cfg: &ScoringConfig, entries: &Vec<ScoredEntry>) -> (r: u64)
    ensures
        r == count_old(*cfg, entries@),
{
    let mut cnt: u64 = 0;
    let mut i: usize = 0;
    while i < entries.len()
        invariant
            i <= entries.len(),
            cnt <= i,
            cnt == count_old(*cfg, entries@.subrange(0, i as int)),
        decreases entries.len() - i,
    {
        proof {
            assert(entries@.subrange(0, i + 1).drop_last() =~= entries@.subrange(0, i as int));
            assert(entries@.subrange(0, i + 1).last() == entries@[i as int]);
        }
        if entries[i].age > cfg.max_age {
            cnt = cnt + 1;
        }
        i = i + 1;
    }
    proof {
        assert(entries@.subrange(0, entries@.len() as int) =~= entries@);
    }
    cnt
}

fn count_breached_exec(entries: &Vec<ScoredEntry>) -> (r: u64)
    ensures
        r == count_breached(entries@),
{
    let mut cnt: u64 = 0;
    let mut i: usize = 0;
    while i < entries.len()
        invariant
            i <= entries.len(),
            cnt <= i,
            cnt == count_breached(entries@.subrange(0, i as int)),
        decreases entries.len() - i,
    {
        proof {
            assert(entries@.subrange(0, i + 1).drop_last() =~= entries@.subrange(0, i as int));
            assert(entries@.subrange(0, i + 1).last() == entries@[i as int]);
        }
        if entries[i].breached {
            cnt = cnt + 1;
        }
        i = i + 1;
    }
    proof {
        assert(entries@.subrange(0, entries@.len() as int) =~= entries@);
    }
    cnt
}

fn count_fp_exec(entries: &Vec<ScoredEntry>, fp: u64) -> (r: u64)
    ensures
        r == count_fp(entries@, fp),
{
    let mut cnt: u64 = 0;
    let mut i: usize = 0;
    while i < entries.len()
        invariant
            i <= entries.len(),
            cnt <= i,
            cnt == count_fp(entries@.subrange(0, i as int), fp),
        decreases entries.len() - i,
    {
        proof {
            assert(entries@.subrange(0, i + 1).drop_last() =~= entries@.subrange(0, i as int));
            assert(entries@.subrange(0, i + 1).last() == entries@[i as int]);
        }
        if entries[i].fingerprint == fp {
            cnt = cnt + 1;
        }
        i = i + 1;
    }
    proof {
        assert(entries@.subrange(0, entries@.len() as int) =~= entries@);
    }
    cnt
}

fn count_reused_exec(entries: &Vec<ScoredEntry>) -> (r: u64)
    ensures
        r == count_reused(entries@),
{
    let mut cnt: u64 = 0;
    let mut i: usize = 0;
    while i < entries.len()
        invariant
            i <= entries.len(),
            cnt <= i,
            cnt == count_reused_in(entries@, entries@.subrange(0, i as int)),
        decreases entries.len() - i,
    {
        proof {
            assert(entries@.subrange(0, i + 1).drop_last() =~= entries@.subrange(0, i as int));
            assert(entries@.subrange(0, i + 1).last() == entries@[i as int]);
        }
        let c = count_fp_exec(entries, entries[i].fingerprint);
        if c >= 2 {
            cnt = cnt + 1;
        }
        i = i + 1;
    }
    proof {
        assert(entries@.subrange(0, entries@.len() as int) =~= entries@);
    }
    cnt
}

/// Scores a vault's entries: the four finding counts, the overall score,
/// and the recommendations owed for the findings.
pub fn score_vault(
    cfg: &ScoringConfig,
    entries: &Vec<ScoredEntry>,
    breach_feed_available: bool,
) -> (r: SecurityCheckResult)
    requires
        cfg.wf(),
    ensures
        r.weak_passwords == count_weak(*cfg, entries@),
        r.reused_passwords == count_reused(entries@),
        r.old_passwords == count_old(*cfg, entries@),
        r.breached_passwords == count_breached(entries@),
        r.breach_feed_available == breach_feed_available,
        r.overall_score == score(*cfg, entries@),
        r.recommendations@.map_values(|s: String| s@) == recommendations_model(*cfg, entries@),
{
    let weak = count_weak_exec(cfg, entries);
    let reused = count_reused_exec(entries);
    let old_cnt = count_old_exec(cfg, entries);
    let breached = count_breached_exec(entries);
    let cw: u64 = if weak > 100 {
        100
    } else {
        weak
    };
    let cr: u64 = if reused > 100 {
        100
    } else {
        reused
    };
    let co: u64 = if old_cnt > 100 {
        100
    } else {
        old_cnt
    };
    let cb: u64 = if breached > 100 {
        100
    } else {
        breached
    };
    assert(cw * cfg.weight_weak <= 10000) by (nonlinear_arith)
        requires
            cw <= 100,
            cfg.weight_weak <= 100,
    ;
    assert(cr * cfg.weight_reused <= 10000) by (nonlinear_arith)
        requires
            cr <= 100,
            cfg.weight_reused <= 100,
    ;
    assert(co * cfg.weight_old <= 10000) by (nonlinear_arith)
        requires
            co <= 100,
            cfg.weight_old <= 100,
    ;
    assert(cb * cfg.weight_breached <= 10000) by (nonlinear_arith)
        requires
            cb <= 100,
            cfg.weight_breached <= 100,
    ;
    let ded: u64 = cw * cfg.weight_weak + cr * cfg.weight_reused + co * cfg.weight_old + cb
        * cfg.weight_breached;
    let overall: u8 = if ded >= 100 {
        0
    } else {
        (100 - ded) as u8
    };
    let mut recommendations: Vec<String> = Vec::new();
    if weak > 0 {
        recommendations.push(String::from_str("Strengthen weak passwords"));
    }
    if reused > 0 {
        recommendations.push(String::from_str("Replace reused passwords"));
    }
    if old_cnt > 0 {
        recommendations.push(String::from_str("Rotate old passwords"));
    }
    if breached > 0 {
        recommendations.push(String::from_str("Change breached passwords immediately"));
    }
    proof {
        assert(recommendations@.map_values(|s: String| s@) =~= recommendations_model(
            *cfg,
            entries@,
        ));
    }
    SecurityCheckResult {
        weak_passwords: weak,
        reused_passwords: reused,
        old_passwords: old_cnt,
        breached_passwords: breached,
        breach_feed_available,
        overall_score: overall,
        recommendations,
    }
}

// ----------------------------------------------------------------------
// Laws of the scorer.
// ----------------------------------------------------------------------

proof fn lemma_count_fp_push(s: Seq<ScoredEntry>, e: ScoredEntry, fp: u64)
    ensures
        count_fp(s.push(e), fp) == count_fp(s, fp) + if e.fingerprint == fp {
            1nat
        } else {
            0nat
        },
{
    assert(s.push(e).drop_last() =~= s);
    assert(s.push(e).last() == e);
}

proof fn lemma_count_fp_positive(s: Seq<ScoredEntry>, i: int)
    requires
        0 <= i < s.len(),
    ensures
        count_fp(s, s[i].fingerprint) >= 1,
    decreases s.len(),
{
    if i == s.len() - 1 {
        assert(s.last() == s[i]);
    } else {
        lemma_count_fp_positive(s.drop_last(), i);
        assert(s.drop_last()[i] == s[i]);
    }
}

proof fn lemma_count_reused_in_mono(all1: Seq<ScoredEntry>, all2: Seq<ScoredEntry>, s: Seq<ScoredEntry>)
    requires
        forall|fp: u64| #[trigger] count_fp(all1, fp) <= count_fp(all2, fp),
    ensures
        count_reused_in(all1, s) <= count_reused_in(all2, s),
    decreases s.len(),
{
    if s.len() > 0 {
        lemma_count_reused_in_mono(all1, all2, s.drop_last());
    }
}

/// Adding a duplicate of an existing password strictly increases the reused
/// count and cannot raise the overall score.
pub proof fn lemma_duplicate_does_not_improve(cfg: ScoringConfig, s: Seq<ScoredEntry>, e: ScoredEntry)
    requires
        cfg.wf(),
        exists|i: int| 0 <= i < s.len() && (#[trigger] s[i]).fingerprint == e.fingerprint,
    ensures
        count_reused(s.push(e)) >= count_reused(s) + 1,
        score(cfg, s.push(e)) <= score(cfg, s),
{
    let i = choose|i: int| 0 <= i < s.len() && (#[trigger] s[i]).fingerprint == e.fingerprint;
    lemma_count_fp_positive(s, i);
    lemma_count_fp_push(s, e, e.fingerprint);
    assert(count_fp(s.push(e), e.fingerprint) >= 2);

    // The reused count strictly increases.
    assert(s.push(e).drop_last() =~= s);
    assert(s.push(e).last() == e);
    assert(count_reused_in(s.push(e), s.push(e)) == count_reused_in(s.push(e), s) + 1);
    assert forall|fp: u64| #[trigger] count_fp(s, fp) <= count_fp(s.push(e), fp) by {
        lemma_count_fp_push(s, e, fp);
    }
    lemma_count_reused_in_mono(s, s.push(e), s);
    assert(count_reused(s.push(e)) >= count_reused(s) + 1);

    // Every finding count is monotone under push, so the deduction cannot
    // shrink and the score cannot rise.
    assert(count_weak(cfg, s.push(e)) >= count_weak(cfg, s));
    assert(count_old(cfg, s.push(e)) >= count_old(cfg, s));
    assert(count_breached(s.push(e)) >= count_breached(s));
    let cw1 = cap100(count_weak(cfg, s));
    let cw2 = cap100(count_weak(cfg, s.push(e)));
    let cr1 = cap100(count_reused(s));
    let cr2 = cap100(count_reused(s.push(e)));
    let co1 = cap100(count_old(cfg, s));
    let co2 = cap100(count_old(cfg, s.push(e)));
    let cb1 = cap100(count_breached(s));
    let cb2 = cap100(count_breached(s.push(e)));
    assert(cw1 * cfg.weight_weak <= cw2 * cfg.weight_weak) by (nonlinear_arith)
        requires
            cw1 <= cw2,
    ;
    assert(cr1 * cfg.weight_reused <= cr2 * cfg.weight_reused) by (nonlinear_arith)
        requires
            cr1 <= cr2,
    ;
    assert(co1 * cfg.weight_old <= co2 * cfg.weight_old) by (nonlinear_arith)
        requires
            co1 <= co2,
    ;
    assert(cb1 * cfg.weight_breached <= cb2 * cfg.weight_breached) by (nonlinear_arith)
        requires
            cb1 <= cb2,
    ;
    assert(deduction(cfg, s.push(e)) >= deduction(cfg, s));
}

} // verus!
