use corinth::{get_compaction_interval, get_port};

#[test]
fn port_defaults_and_bounds() {
    assert_eq!(get_port(None), Some(44444));
    assert_eq!(get_port(Some(8080)), Some(8080));
    assert_eq!(get_port(Some(65535)), Some(65535));
    assert_eq!(get_port(Some(65536)), None);
}

#[test]
fn compaction_interval_defaults_and_bounds() {
    assert_eq!(get_compaction_interval(None), Some(86400));
    assert_eq!(get_compaction_interval(Some(60)), Some(60));
    assert_eq!(get_compaction_interval(Some(u32::MAX as u64 + 1)), None);
}
