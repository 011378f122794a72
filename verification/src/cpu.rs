use vstd::prelude::*;

verus! {

/// One reading for one logical core: the processor model string, the core's
/// utilization in hundredths of a percent, and its frequency in MHz.
#[derive(Debug)]
pub struct RawCpuSample {
    pub brand: String,
    pub usage_centi: u32,
    pub frequency_mhz: u64,
}

/// The summary for all cores that share one processor model string.
#[derive(Debug)]
pub struct CpuGroup {
    pub brand: String,
    pub num_cores: usize,
    pub avg_usage_centi: u64,
    pub max_frequency_mhz: u64,
}

/// How many samples carry the brand b.
pub open spec fn count_brand(s: Seq<RawCpuSample>, b: Seq<char>) -> int
    decreases s.len(),
{
    if s.len() == 0 {
        0int
    } else {
        count_brand(s.drop_last(), b) + if s.last().brand@ == b {
            1int
        } else {
            0int
        }
    }
}

/// The summed utilization of the samples that carry the brand b.
pub open spec fn sum_usage(s: Seq<RawCpuSample>, b: Seq<char>) -> int
    decreases s.len(),
{
    if s.len() == 0 {
        0int
    } else {
        sum_usage(s.drop_last(), b) + if s.last().brand@ == b {
            s.last().usage_centi as int
        } else {
            0int
        }
    }
}

/// The highest frequency among the samples that carry the brand b, at least 0.
pub open spec fn max_freq(s: Seq<RawCpuSample>, b: Seq<char>) -> int
    decreases s.len(),
{
    if s.len() == 0 {
        0int
    } else {
        let m = max_freq(s.drop_last(), b);
        if s.last().brand@ == b && s.last().frequency_mhz as int > m {
            s.last().frequency_mhz as int
        } else {
            m
        }
    }
}

/// The summed core count over a sequence of groups.
pub open spec fn total_cores(groups: Seq<CpuGroup>) -> int
    decreases groups.len(),
{
    if groups.len() == 0 {
        0int
    } else {
        total_cores(groups.drop_last()) + groups.last().num_cores as int
    }
}

/// The group g correctly summarizes the samples that carry its brand:
/// its core count is their number, its average utilization is their summed
/// utilization divided by that number, and its peak frequency is their
/// maximum.
pub open spec fn group_matches(samples: Seq<RawCpuSample>, g: CpuGroup) -> bool {
    &&& count_brand(samples, g.brand@) > 0
    &&& g.num_cores as int == count_brand(samples, g.brand@)
    &&& g.avg_usage_centi as int == sum_usage(samples, g.brand@) / count_brand(samples, g.brand@)
    &&& g.max_frequency_mhz as int == max_freq(samples, g.brand@)
}

/// Some group carries exactly the brand b.
pub open spec fn has_group(groups: Seq<CpuGroup>, b: Seq<char>) -> bool {
    exists|i: int| #![auto] 0 <= i < groups.len() && groups[i].brand@ == b
}

/// What aggregation promises: one correct group for every distinct brand
/// observed, no two groups for one brand, and every sample accounted for.
pub open spec fn aggregate_post(samples: Seq<RawCpuSample>, groups: Seq<CpuGroup>) -> bool {
    &&& forall|i: int, j: int|
        #![auto]
        0 <= i < j < groups.len() ==> groups[i].brand@ != groups[j].brand@
    &&& forall|i: int| #![auto] 0 <= i < groups.len() ==> group_matches(samples, groups[i])
    &&& forall|k: int| #![auto] 0 <= k < samples.len() ==> has_group(groups, samples[k].brand@)
}

/// A brand's sample count never exceeds the sequence length.
pub proof fn lemma_count_le_len(s: Seq<RawCpuSample>, b: Seq<char>)
    ensures
        0 <= count_brand(s, b) <= s.len(),
    decreases s.len(),
{
    if s.len() > 0 {
        lemma_count_le_len(s.drop_last(), b);
    }
}

/// The summed utilization of a brand is bounded by its sample count times
/// the largest single reading.
pub proof fn lemma_sum_le_count(s: Seq<RawCpuSample>, b: Seq<char>)
    ensures
        0 <= sum_usage(s, b),
        sum_usage(s, b) <= count_brand(s, b) * (u32::MAX as int),
    decreases s.len(),
{
    if s.len() == 0 {
    } else {
        lemma_sum_le_count(s.drop_last(), b);
        let c0 = count_brand(s.drop_last(), b);
        assert(c0 * (u32::MAX as int) + (u32::MAX as int) == (c0 + 1) * (u32::MAX as int))
            by (nonlinear_arith);
    }
}

/// A brand with no samples has no summed utilization.
pub proof fn lemma_count_zero_sum_zero(s: Seq<RawCpuSample>, b: Seq<char>)
    requires
        count_brand(s, b) == 0,
    ensures
        sum_usage(s, b) == 0,
    decreases s.len(),
{
    if s.len() > 0 {
        lemma_count_le_len(s.drop_last(), b);
        lemma_count_zero_sum_zero(s.drop_last(), b);
    }
}

/// A sample with brand b makes the count of b positive.
pub proof fn lemma_index_count_pos(s: Seq<RawCpuSample>, b: Seq<char>, k: int)
    requires
        0 <= k < s.len(),
        s[k].brand@ == b,
    ensures
        count_brand(s, b) >= 1,
    decreases s.len(),
{
    lemma_count_le_len(s.drop_last(), b);
    if k < s.len() - 1 {
        lemma_index_count_pos(s.drop_last(), b, k);
    }
}

/// When exactly one sample carries the brand b, the summed utilization of b
/// is that sample's reading.
pub proof fn lemma_sum_single(s: Seq<RawCpuSample>, b: Seq<char>, k: int)
    requires
        count_brand(s, b) == 1,
        0 <= k < s.len(),
        s[k].brand@ == b,
    ensures
        sum_usage(s, b) == s[k].usage_centi,
    decreases s.len(),
{
    if k == s.len() - 1 {
        lemma_count_zero_sum_zero(s.drop_last(), b);
    } else {
        if s.last().brand@ == b {
            lemma_index_count_pos(s.drop_last(), b, k);
            assert(false);
        }
        lemma_sum_single(s.drop_last(), b, k);
    }
}

/// A brand with a positive count has a sample somewhere.
proof fn lemma_count_pos_exists(s: Seq<RawCpuSample>, b: Seq<char>)
    requires
        count_brand(s, b) > 0,
    ensures
        exists|k: int| #![auto] 0 <= k < s.len() && s[k].brand@ == b,
    decreases s.len(),
{
    if s.last().brand@ == b {
        assert(s[s.len() - 1].brand@ == b);
    } else {
        lemma_count_pos_exists(s.drop_last(), b);
        let k = choose|k: int| #![auto] 0 <= k < s.drop_last().len() && s.drop_last()[k].brand@ == b;
        assert(s[k].brand@ == b);
    }
}

/// A brand with no samples has no frequency maximum above zero.
proof fn lemma_count_zero_max_zero(s: Seq<RawCpuSample>, b: Seq<char>)
    requires
        count_brand(s, b) == 0,
    ensures
        max_freq(s, b) == 0,
    decreases s.len(),
{
    if s.len() > 0 {
        lemma_count_le_len(s.drop_last(), b);
        lemma_count_zero_max_zero(s.drop_last(), b);
    }
}

/// A group built from a single sample reports that sample's utilization
/// exactly.
pub proof fn lemma_singleton_avg(
    samples: Seq<RawCpuSample>,
    groups: Seq<CpuGroup>,
    i: int,
    k: int,
)
    requires
        aggregate_post(samples, groups),
        0 <= i < groups.len(),
        count_brand(samples, groups[i].brand@) == 1,
        0 <= k < samples.len(),
        samples[k].brand@ == groups[i].brand@,
    ensures
        groups[i].avg_usage_centi == samples[k].usage_centi,
{
    lemma_sum_single(samples, groups[i].brand@, k);
}

/// The running state for one brand while samples are folded: the summed
/// utilization is kept whole and divided only once all samples are in.
struct CpuAccum {
    brand: String,
    num_cores: usize,
    usage_sum_centi: u128,
    max_frequency_mhz: u64,
}

/// The summed core count over a sequence of accumulators.
spec fn total_accum(accs: Seq<CpuAccum>) -> int
    decreases accs.len(),
{
    if accs.len() == 0 {
        0int
    } else {
        total_accum(accs.drop_last()) + accs.last().num_cores as int
    }
}

/// The accumulator a correctly summarizes the samples seen so far that carry
/// its brand.
spec fn accum_matches(samples: Seq<RawCpuSample>, a: CpuAccum) -> bool {
    &&& count_brand(samples, a.brand@) > 0
    &&& a.num_cores as int == count_brand(samples, a.brand@)
    &&& a.usage_sum_centi as int == sum_usage(samples, a.brand@)
    &&& a.max_frequency_mhz as int == max_freq(samples, a.brand@)
}

/// Some accumulator carries exactly the brand b.
spec fn has_accum(accs: Seq<CpuAccum>, b: Seq<char>) -> bool {
    exists|i: int| #![auto] 0 <= i < accs.len() && accs[i].brand@ == b
}

/// Replacing one accumulator shifts the summed core count by the difference
/// in that accumulator's core count.
proof fn lemma_total_accum_update(accs: Seq<CpuAccum>, j: int, a: CpuAccum)
    requires
        0 <= j < accs.len(),
    ensures
        total_accum(accs.update(j, a)) == total_accum(accs) - accs[j].num_cores
            + a.num_cores,
    decreases accs.len(),
{
    if j == accs.len() - 1 {
        assert(accs.update(j, a).drop_last() =~= accs.drop_last());
    } else {
        assert(accs.update(j, a).drop_last() =~= accs.drop_last().update(j, a));
        lemma_total_accum_update(accs.drop_last(), j, a);
    }
}

/// The index of the accumulator that carries the brand b, if one exists.
fn find_brand(accs: &Vec<CpuAccum>, b: &String) -> (r: Option<usize>)
    ensures
        match r {
            Some(j) => j < accs@.len() && accs@[j as int].brand@ == b@,
            None => forall|i: int| #![auto] 0 <= i < accs@.len() ==> accs@[i].brand@ != b@,
        },
{
    let mut j: usize = 0;
    while j < accs.len()
        invariant
            j <= accs@.len(),
            forall|i: int| #![auto] 0 <= i < j ==> accs@[i].brand@ != b@,
        decreases accs@.len() - j,
    {
        if accs[j].brand == *b {
            return Some(j);
        }
        j = j + 1;
    }
    None
}

/// Groups the samples by their exact brand string, in one pass, and reports
/// for each distinct brand the number of its cores, their average utilization
/// (the truncated mean of the readings) and their highest frequency. The
/// summed core count over all groups equals the number of samples.
pub fn aggregate(samples: &Vec<RawCpuSample>) -> (groups: Vec<CpuGroup>)
    ensures
        aggregate_post(samples@, groups@),
        total_cores(groups@) == samples@.len(),
{
    let ghost all: Seq<RawCpuSample> = samples@;
    let mut accs: Vec<CpuAccum> = Vec::new();
    let mut k: usize = 0;
    while k < samples.len()
        invariant
            k <= all.len(),
            all == samples@,
            forall|i: int, j: int|
                #![auto]
                0 <= i < j < accs@.len() ==> accs@[i].brand@ != accs@[j].brand@,
            forall|i: int|
                #![auto]
                0 <= i < accs@.len() ==> accum_matches(all.take(k as int), accs@[i]),
            forall|t: int| #![auto] 0 <= t < k ==> has_accum(accs@, all[t].brand@),
            total_accum(accs@) == k,
        decreases all.len() - k,
    {
        let ghost prefix: Seq<RawCpuSample> = all.take(k as int);
        let ghost prefix1: Seq<RawCpuSample> = all.take(k + 1int);
        proof {
            assert(prefix1.drop_last() =~= prefix);
            assert(prefix1.last() == all[k as int]);
        }
        let usage = samples[k].usage_centi;
        let freq = samples[k].frequency_mhz;
        match find_brand(&accs, &samples[k].brand) {
            Some(j) => {
                let ghost b: Seq<char> = accs@[j as int].brand@;
                let ghost old_accs: Seq<CpuAccum> = accs@;
                proof {
                    lemma_count_le_len(prefix, b);
                    lemma_sum_le_count(prefix, b);
                    assert(accs@[j as int].usage_sum_centi + usage <= u128::MAX)
                        by (nonlinear_arith)
                        requires
                            accs@[j as int].usage_sum_centi as int <= count_brand(prefix, b) * (
                            u32::MAX as int),
                            0 <= count_brand(prefix, b) <= usize::MAX as int,
                            usage <= u32::MAX,
                    ;
                }
                let mut a = accs.remove(j);
                a.num_cores = a.num_cores + 1;
                a.usage_sum_centi = a.usage_sum_centi + (usage as u128);
                if freq > a.max_frequency_mhz {
                    a.max_frequency_mhz = freq;
                }
                accs.insert(j, a);
                proof {
                    assert(accs@ =~= old_accs.update(j as int, accs@[j as int]));
                    lemma_total_accum_update(old_accs, j as int, accs@[j as int]);
                    assert forall|i: int| 0 <= i < accs@.len() implies accum_matches(
                        prefix1,
                        #[trigger] accs@[i],
                    ) by {
                        if i != j {
                            assert(accs@[i] == old_accs[i]);
                            assert(accs@[i].brand@ != all[k as int].brand@);
                        }
                    }
                    assert forall|t: int| 0 <= t < k + 1 implies has_accum(
                        accs@,
                        #[trigger] all[t].brand@,
                    ) by {
                        if t < k {
                            let i = choose|i: int|
                                #![auto]
                                0 <= i < old_accs.len() && old_accs[i].brand@ == all[t].brand@;
                            assert(accs@[i].brand@ == all[t].brand@);
                        } else {
                            assert(accs@[j as int].brand@ == all[t].brand@);
                        }
                    }
                }
            },
            None => {
                proof {
                    lemma_count_le_len(prefix, all[k as int].brand@);
                    if count_brand(prefix, all[k as int].brand@) > 0 {
                        lemma_count_pos_exists(prefix, all[k as int].brand@);
                        let t = choose|t: int|
                            #![auto]
                            0 <= t < prefix.len() && prefix[t].brand@ == all[k as int].brand@;
                        assert(has_accum(accs@, all[t].brand@));
                        assert(false);
                    }
                    lemma_count_zero_sum_zero(prefix, all[k as int].brand@);
                    lemma_count_zero_max_zero(prefix, all[k as int].brand@);
                }
                let ghost old_accs: Seq<CpuAccum> = accs@;
                let a = CpuAccum {
                    brand: samples[k].brand.clone(),
                    num_cores: 1,
                    usage_sum_centi: usage as u128,
                    max_frequency_mhz: freq,
                };
                accs.push(a);
                proof {
                    assert(accs@.drop_last() =~= old_accs);
                    assert forall|t: int| 0 <= t < k + 1 implies has_accum(
                        accs@,
                        #[trigger] all[t].brand@,
                    ) by {
                        if t < k {
                            let i = choose|i: int|
                                #![auto]
                                0 <= i < old_accs.len() && old_accs[i].brand@ == all[t].brand@;
                            assert(accs@[i].brand@ == all[t].brand@);
                        } else {
                            assert(accs@[accs@.len() - 1].brand@ == all[t].brand@);
                        }
                    }
                }
            },
        }
        k = k + 1;
        proof {
            assert(all.take(k as int) == prefix1);
        }
    }
    proof {
        assert(all.take(all.len() as int) =~= all);
    }
    let mut groups: Vec<CpuGroup> = Vec::new();
    let mut i: usize = 0;
    while i < accs.len()
        invariant
            i <= accs@.len(),
            all == samples@,
            forall|p: int, q: int|
                #![auto]
                0 <= p < q < accs@.len() ==> accs@[p].brand@ != accs@[q].brand@,
            forall|p: int| #![auto] 0 <= p < accs@.len() ==> accum_matches(all, accs@[p]),
            forall|t: int| #![auto] 0 <= t < all.len() ==> has_accum(accs@, all[t].brand@),
            total_accum(accs@) == all.len(),
            groups@.len() == i as int,
            forall|t: int|
                #![auto]
                0 <= t < i ==> groups@[t].brand@ == accs@[t].brand@ && group_matches(
                    all,
                    groups@[t],
                ),
            total_cores(groups@) == total_accum(accs@.take(i as int)),
        decreases accs@.len() - i,
    {
        proof {
            lemma_sum_le_count(all, accs@[i as int].brand@);
            assert(accs@[i as int].usage_sum_centi as int / (accs@[i as int].num_cores as int)
                <= u32::MAX as int)
                by (nonlinear_arith)
                requires
                    accs@[i as int].usage_sum_centi as int <= count_brand(all, accs@[i as int].brand@)
                        * (u32::MAX as int),
                    accs@[i as int].num_cores as int == count_brand(all, accs@[i as int].brand@),
                    accs@[i as int].num_cores >= 1,
                    accs@[i as int].usage_sum_centi >= 0,
            ;
        }
        let ghost old_groups: Seq<CpuGroup> = groups@;
        let a = &accs[i];
        let avg_wide = a.usage_sum_centi / (a.num_cores as u128);
        let g = CpuGroup {
            brand: a.brand.clone(),
            num_cores: a.num_cores,
            avg_usage_centi: avg_wide as u64,
            max_frequency_mhz: a.max_frequency_mhz,
        };
        groups.push(g);
        i = i + 1;
        proof {
            assert(groups@.drop_last() =~= old_groups);
            assert(accs@.take(i as int).drop_last() =~= accs@.take(i - 1int));
            assert(accs@.take(i as int).last() == accs@[i - 1int]);
        }
    }
    proof {
        assert(accs@.take(accs@.len() as int) =~= accs@);
        assert forall|t: int| 0 <= t < all.len() implies has_group(
            groups@,
            #[trigger] all[t].brand@,
        ) by {
            let p = choose|p: int| #![auto] 0 <= p < accs@.len() && accs@[p].brand@ == all[t].brand@;
            assert(groups@[p].brand@ == all[t].brand@);
        }
    }
    groups
}

} // verus!
