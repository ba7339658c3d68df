use tenkai::error::Error;
use tenkai::inventory::{
    facts_from_readings, facts_map, format_dry_run, meminfo_gib, memsize_gib,
    probe_local_inventory, probe_with, FactKey, HostReadings, InventoryProbe, Readings,
    INVENTORY_SOURCE,
};

struct FixedProbe {
    arch: Option<String>,
    mem: Option<u64>,
    accel: Option<String>,
    disk: Option<u64>,
}

impl InventoryProbe for FixedProbe {
    fn architecture(&self) -> Result<Option<String>, Error> {
        Ok(self.arch.clone())
    }
    fn memory_gib(&self) -> Result<Option<u64>, Error> {
        Ok(self.mem)
    }
    fn accelerator(&self) -> Result<Option<String>, Error> {
        Ok(self.accel.clone())
    }
    fn free_disk_gib(&self) -> Result<Option<u64>, Error> {
        Ok(self.disk)
    }
}

fn known_keys() -> Vec<&'static str> {
    vec![
        FactKey::Architecture.as_str(),
        FactKey::MemoryGib.as_str(),
        FactKey::Accelerator.as_str(),
        FactKey::FreeDiskGib.as_str(),
    ]
}

#[test]
fn probe_emits_only_admitted_keys() {
    let facts = probe_with(FixedProbe {
        arch: Some("arm64".into()),
        mem: Some(32),
        accel: Some("apple-metal".into()),
        disk: None,
    })
    .unwrap();
    let map = facts_map(&facts);
    assert_eq!(map.get("architecture").map(String::as_str), Some("arm64"));
    assert_eq!(map.get("memory_gib").map(String::as_str), Some("32"));
    assert_eq!(
        map.get("accelerator").map(String::as_str),
        Some("apple-metal")
    );
    assert!(!map.contains_key("free_disk_gib"));
    for fact in &facts {
        assert_eq!(fact.source, INVENTORY_SOURCE);
        assert!(known_keys().contains(&fact.key.as_str()));
    }
}

#[test]
fn dry_run_format_has_no_secret_patterns() {
    let facts = probe_with(FixedProbe {
        arch: Some("x86_64".into()),
        mem: Some(16),
        accel: None,
        disk: None,
    })
    .unwrap();
    let text = format_dry_run("prod", &facts);
    assert!(text.contains("dry-run"));
    assert!(text.contains("architecture=x86_64"));
    assert!(!text.to_lowercase().contains("token"));
    assert!(!text.contains("Bearer"));
}

fn host(arch: &str, macos: bool, meminfo: Option<&str>, memsize: Option<&str>) -> HostReadings {
    HostReadings {
        arch: arch.into(),
        macos,
        meminfo: meminfo.map(String::from),
        memsize: memsize.map(String::from),
    }
}

#[test]
fn system_probe_returns_architecture() {
    let facts = probe_local_inventory(&host(
        "x86_64",
        false,
        Some("MemTotal:       65842204 kB\nMemFree: 1 kB\n"),
        None,
    ))
    .unwrap();
    let arch = facts.iter().find(|f| f.key == "architecture");
    assert!(arch.is_some(), "expected architecture fact: {facts:?}");
    assert_eq!(facts_map(&facts).text("memory_gib"), Some("62"));
}

#[test]
fn apple_silicon_has_an_accelerator() {
    let facts =
        probe_local_inventory(&host("aarch64", true, None, Some("34359738368\n"))).unwrap();
    let map = facts_map(&facts);
    assert_eq!(map.text("architecture"), Some("arm64"));
    assert_eq!(map.text("memory_gib"), Some("32"));
    assert_eq!(map.text("accelerator"), Some("apple-metal"));
    let facts = probe_local_inventory(&host("aarch64", false, None, None)).unwrap();
    assert_eq!(facts.len(), 1);
}

#[test]
fn memory_is_read_from_the_first_total() {
    assert_eq!(meminfo_gib("MemFree: 1 kB\n"), Ok(None));
    assert_eq!(meminfo_gib("MemTotal: 100 kB"), Ok(Some(1)));
    assert_eq!(meminfo_gib("MemTotal:\nMemTotal: 9999999 kB"), Ok(Some(1)));
    assert_eq!(meminfo_gib("MemTotal: \u{2003}4194304\tkB"), Ok(Some(4)));
    assert_eq!(
        meminfo_gib("MemTotal: lots").unwrap_err().to_string(),
        "parsing MemTotal"
    );
    assert_eq!(memsize_gib(" 1073741824 "), Ok(1));
    assert_eq!(
        memsize_gib("x\n").unwrap_err().to_string(),
        "parsing hw.memsize \"x\""
    );
}

#[test]
fn blank_readings_are_refused() {
    let blank = Readings {
        architecture: Some("x86_64".into()),
        memory_gib: None,
        accelerator: Some(" ".into()),
        free_disk_gib: Some(5),
    };
    assert_eq!(
        facts_from_readings(blank).unwrap_err().to_string(),
        "inventory fact accelerator must not be empty"
    );
    assert!(probe_local_inventory(&host(" ", false, None, None)).is_err());
    let facts = probe_with(Readings {
        architecture: None,
        memory_gib: None,
        accelerator: None,
        free_disk_gib: Some(5),
    })
    .unwrap();
    assert_eq!(facts_map(&facts).text("free_disk_gib"), Some("5"));
    assert_eq!(
        format_dry_run("lab", &facts),
        "inventory probe for lab (source=local-probe; dry-run, not written)\n  free_disk_gib=5\nre-run with --apply to write via env facts"
    );
    assert_eq!(
        format_dry_run("lab", &Vec::new()),
        "inventory probe for lab (source=local-probe; dry-run, not written)\n  (no facts detected)"
    );
}
