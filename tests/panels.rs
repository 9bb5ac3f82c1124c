use sysmon::frame::{cpu_lines, memory_panel};
use sysmon::text::{core_label, memory_label};

#[test]
fn core_label_format() {
    assert_eq!(core_label(3, 4567), "Core 03: 45.67% ");
    assert_eq!(core_label(12, 500), "Core 12:  5.00% ");
    assert_eq!(core_label(0, 10000), "Core 00: 100.00% ");
    assert_eq!(core_label(123, 0), "Core 123:  0.00% ");
    assert_eq!(core_label(1, -5), "Core 01: -0.05% ");
}

#[test]
fn memory_label_format() {
    let gib = 1073741824u64;
    assert_eq!(memory_label(gib / 2, 2 * gib), "Memory: 0.50 / 2.00 GiB (25.0%)");
    assert_eq!(memory_label(0, 0), "Memory: 0.00 / 0.00 GiB (0.0%)");
    assert_eq!(memory_label(512, 1024), "Memory: 0.00 / 0.00 GiB (50.0%)");
}

#[test]
fn cpu_lines_per_core() {
    let lines = cpu_lines(&vec![0, 5000, 10000]);
    assert_eq!(lines.len(), 3);
    assert_eq!(lines[1].label, "Core 01: 50.00% ");
    assert_eq!(lines[1].bar, "██████████░░░░░░░░░░");
    assert_eq!(lines[0].bar, "░".repeat(20));
    assert_eq!(lines[2].bar, "█".repeat(20));
    assert!(cpu_lines(&vec![]).is_empty());
}

#[test]
fn memory_panel_half() {
    let p = memory_panel(512, 1024);
    assert_eq!(p.bar, format!("{}{}", "█".repeat(15), "░".repeat(15)));
    assert_eq!(p.label, "Memory: 0.00 / 0.00 GiB (50.0%)");
}
