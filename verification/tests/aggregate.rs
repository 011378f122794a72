use hostinfo::cpu::aggregate;
use hostinfo::cpu::CpuGroup;
use hostinfo::cpu::RawCpuSample;

fn sample(brand: &str, usage_centi: u32, frequency_mhz: u64) -> RawCpuSample {
    RawCpuSample { brand: brand.to_string(), usage_centi, frequency_mhz }
}

fn find<'a>(groups: &'a [CpuGroup], brand: &str) -> &'a CpuGroup {
    groups.iter().find(|g| g.brand == brand).expect("missing group")
}

#[test]
fn empty_input_yields_empty_mapping() {
    let groups = aggregate(&Vec::new());
    assert_eq!(groups.len(), 0);
}

#[test]
fn singleton_group_reports_usage_exactly() {
    let groups = aggregate(&vec![sample("Model X", 1234, 2600)]);
    assert_eq!(groups.len(), 1);
    assert_eq!(groups[0].brand, "Model X");
    assert_eq!(groups[0].num_cores, 1);
    assert_eq!(groups[0].avg_usage_centi, 1234);
    assert_eq!(groups[0].max_frequency_mhz, 2600);
}

#[test]
fn total_core_count_is_preserved() {
    let samples = vec![
        sample("A", 100, 1000),
        sample("B", 200, 2000),
        sample("A", 300, 1500),
        sample("C", 400, 900),
        sample("A", 500, 1200),
    ];
    let groups = aggregate(&samples);
    assert_eq!(groups.len(), 3);
    let total: usize = groups.iter().map(|g| g.num_cores).sum();
    assert_eq!(total, samples.len());
}

#[test]
fn groups_average_and_peak_per_brand() {
    let samples = vec![
        sample("X", 1000, 2000),
        sample("Y", 9999, 4000),
        sample("X", 1500, 1800),
    ];
    let groups = aggregate(&samples);
    assert_eq!(groups.len(), 2);
    let x = find(&groups, "X");
    assert_eq!(x.num_cores, 2);
    assert_eq!(x.avg_usage_centi, 1250);
    assert_eq!(x.max_frequency_mhz, 2000);
    let y = find(&groups, "Y");
    assert_eq!(y.num_cores, 1);
    assert_eq!(y.avg_usage_centi, 9999);
    assert_eq!(y.max_frequency_mhz, 4000);
}

#[test]
fn average_truncates_toward_zero() {
    let groups = aggregate(&vec![sample("Z", 10, 100), sample("Z", 15, 100)]);
    assert_eq!(groups.len(), 1);
    assert_eq!(groups[0].avg_usage_centi, 12);
}

#[test]
fn distinct_capitalizations_stay_separate() {
    let groups = aggregate(&vec![sample("Model X", 100, 100), sample("model x", 200, 200)]);
    assert_eq!(groups.len(), 2);
    assert_eq!(find(&groups, "Model X").num_cores, 1);
    assert_eq!(find(&groups, "model x").num_cores, 1);
}
