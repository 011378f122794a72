use hostinfo::gpu::enumerate_gpus;
use hostinfo::gpu::sort_by_device_index;
use hostinfo::gpu::DeviceKind;
use hostinfo::gpu::GpuRecord;
use hostinfo::gpu::RawAdapterDescriptor;

fn adapter(name: &str, device_kind: DeviceKind) -> RawAdapterDescriptor {
    RawAdapterDescriptor { name: name.to_string(), device_kind }
}

fn record(device_index: usize, display_name: &str) -> GpuRecord {
    GpuRecord { device_index, display_name: display_name.to_string() }
}

#[test]
fn drops_software_rasterizers_and_unknown_kinds() {
    let adapters = vec![
        adapter("A", DeviceKind::Discrete),
        adapter("B", DeviceKind::SoftwareRasterizer),
        adapter("C", DeviceKind::Integrated),
        adapter("D", DeviceKind::Unknown),
        adapter("E", DeviceKind::Virtual),
    ];
    let gpus = enumerate_gpus(&adapters);
    assert_eq!(gpus.len(), 3);
    assert_eq!(gpus[0].device_index, 0);
    assert_eq!(gpus[0].display_name, "A (Discrete GPU)");
    assert_eq!(gpus[1].device_index, 2);
    assert_eq!(gpus[1].display_name, "C (Integrated GPU)");
    assert_eq!(gpus[2].device_index, 4);
    assert_eq!(gpus[2].display_name, "E (Virtual GPU)");
}

#[test]
fn indices_keep_gaps_after_filtering() {
    let adapters = vec![
        adapter("skip", DeviceKind::SoftwareRasterizer),
        adapter("only", DeviceKind::Discrete),
    ];
    let gpus = enumerate_gpus(&adapters);
    assert_eq!(gpus.len(), 1);
    assert_eq!(gpus[0].device_index, 1);
    assert_eq!(gpus[0].display_name, "only (Discrete GPU)");
}

#[test]
fn empty_and_fully_filtered_inputs_yield_nothing() {
    assert_eq!(enumerate_gpus(&Vec::new()).len(), 0);
    let adapters = vec![
        adapter("a", DeviceKind::Unknown),
        adapter("b", DeviceKind::SoftwareRasterizer),
    ];
    assert_eq!(enumerate_gpus(&adapters).len(), 0);
}

#[test]
fn output_is_sorted_ascending_by_index() {
    let adapters = vec![
        adapter("one", DeviceKind::Integrated),
        adapter("two", DeviceKind::Discrete),
        adapter("three", DeviceKind::Virtual),
    ];
    let gpus = enumerate_gpus(&adapters);
    for w in gpus.windows(2) {
        assert!(w[0].device_index < w[1].device_index);
    }
}

#[test]
fn sorting_reverse_ordered_records() {
    let records = vec![record(5, "e"), record(3, "c"), record(1, "a")];
    let sorted = sort_by_device_index(records);
    assert_eq!(sorted.len(), 3);
    assert_eq!(sorted[0].device_index, 1);
    assert_eq!(sorted[0].display_name, "a");
    assert_eq!(sorted[1].device_index, 3);
    assert_eq!(sorted[1].display_name, "c");
    assert_eq!(sorted[2].device_index, 5);
    assert_eq!(sorted[2].display_name, "e");
}

#[test]
fn sorting_keeps_duplicate_indices() {
    let records = vec![record(2, "x"), record(2, "y"), record(0, "z")];
    let sorted = sort_by_device_index(records);
    assert_eq!(sorted.len(), 3);
    assert_eq!(sorted[0].device_index, 0);
    assert_eq!(sorted[1].device_index, 2);
    assert_eq!(sorted[2].device_index, 2);
    let mut names: Vec<String> = sorted.iter().map(|r| r.display_name.clone()).collect();
    names.sort();
    assert_eq!(names, vec!["x".to_string(), "y".to_string(), "z".to_string()]);
}
