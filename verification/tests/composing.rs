use hostinfo::cpu::CpuGroup;
use hostinfo::gpu::GpuRecord;
use hostinfo::report::compose;
use hostinfo::report::hostname_or_default;
use hostinfo::report::render;
use hostinfo::report::serial_or_default;
use hostinfo::report::HostReport;

fn test_report() -> HostReport {
    HostReport {
        username: "alice".to_string(),
        hostname: "box".to_string(),
        os_name: "TestOS".to_string(),
        serial_number: "SN123".to_string(),
        kernel_version: "1.0".to_string(),
        uptime_seconds: 3725,
        cpu_groups: vec![CpuGroup {
            brand: "Model X".to_string(),
            num_cores: 4,
            avg_usage_centi: 5000,
            max_frequency_mhz: 3000,
        }],
        gpus: vec![GpuRecord {
            device_index: 0,
            display_name: "Card (Discrete GPU)".to_string(),
        }],
        memory_used_mb: 1024,
        memory_total_mb: 8192,
    }
}

#[test]
fn end_to_end_scenario() {
    let lines = compose(&test_report());
    assert_eq!(lines.len(), 9);
    assert_eq!(lines[0], "alice@box");
    assert_eq!(lines[1], "---------");
    assert_eq!(lines[2], "OS:        TestOS");
    assert_eq!(lines[3], "Serial:    SN123");
    assert_eq!(lines[4], "Kernel:    1.0");
    assert_eq!(lines[5], "Uptime:    1h 2m");
    assert_eq!(lines[6], "CPU:       Model X - 4 cores, 50.00% avg, 3000.00 MHz (max)");
    assert_eq!(lines[7], "GPU ..0:   Card (Discrete GPU)");
    assert_eq!(lines[8], "Memory:    1024/8192 MB used");
}

#[test]
fn line_count_follows_group_and_device_counts() {
    let mut rep = test_report();
    assert_eq!(compose(&rep).len(), 6 + 1 + 1 + 1);
    rep.cpu_groups = Vec::new();
    rep.gpus = Vec::new();
    assert_eq!(compose(&rep).len(), 7);
    rep.gpus = vec![
        GpuRecord { device_index: 7, display_name: "a".to_string() },
        GpuRecord { device_index: 12, display_name: "b".to_string() },
        GpuRecord { device_index: 345, display_name: "c".to_string() },
    ];
    let lines = compose(&rep);
    assert_eq!(lines.len(), 10);
    assert_eq!(lines[6], "GPU ..7:   a");
    assert_eq!(lines[7], "GPU .12:   b");
    assert_eq!(lines[8], "GPU 345:   c");
}

#[test]
fn rendering_pairs_lines_with_block_rows() {
    let block = vec!["##".to_string(), "@@".to_string()];
    let lines = vec!["a".to_string(), "b".to_string(), "c".to_string()];
    let rows = render(&lines, &block, 2);
    assert_eq!(rows, vec!["##a".to_string(), "@@b".to_string(), "  c".to_string()]);
}

#[test]
fn rendering_emits_bare_block_rows_past_the_lines() {
    let block = vec!["##".to_string(), "@@".to_string(), "%%".to_string()];
    let lines = vec!["a".to_string()];
    let rows = render(&lines, &block, 2);
    assert_eq!(rows, vec!["##a".to_string(), "@@".to_string(), "%%".to_string()]);
}

#[test]
fn missing_optional_facts_fall_back() {
    assert_eq!(hostname_or_default(None), "unknown");
    assert_eq!(hostname_or_default(Some("h".to_string())), "h");
    assert_eq!(serial_or_default(None), "xxxxxxxxxx");
    assert_eq!(serial_or_default(Some("SN9".to_string())), "SN9");
}
