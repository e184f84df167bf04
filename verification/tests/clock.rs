use qzone_sync::clock::utc_now_micros;

#[test]
fn the_clock_reads_after_the_epoch() {
    let a = utc_now_micros().unwrap();
    let b = utc_now_micros().unwrap();
    assert!(a > 1_600_000_000_000_000);
    assert!(b >= a);
}
