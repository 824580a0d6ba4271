//! Process counters.

use grpc_ebcdic::metrics::Metrics;

#[test]
fn the_line_carries_every_counter() {
    let mut metrics = Metrics::new();
    Metrics::bump(&mut metrics.parses_started);
    Metrics::add(&mut metrics.records_emitted, 17);
    Metrics::add(&mut metrics.bytes_received, 4096);
    let line = metrics.line();
    assert!(line.starts_with("grpc-ebcdic metrics:"), "{line}");
    for needle in [
        "started=1",
        "completed=0",
        "failed=0",
        "rejected=0",
        "records=17",
        "bytes=4096",
        "byte_cap_hits=0",
    ] {
        assert!(line.contains(needle), "{needle} missing from {line}");
    }
}
