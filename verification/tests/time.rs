use qqbot::timestamp::{read_buf, time_to_bytes};

#[test]
fn test_time() {
    let ts = chrono::Utc::now().timestamp_nanos_opt().unwrap();
    let bytes = time_to_bytes(ts);
    let time = read_buf(&bytes);
    assert_eq!(ts, time);
}

#[test]
fn time_to_bytes_is_little_endian() {
    assert_eq!(time_to_bytes(0x0102030405060708), [8, 7, 6, 5, 4, 3, 2, 1]);
    assert_eq!(time_to_bytes(-1), [255; 8]);
}

#[test]
fn read_buf_reads_the_first_eight_bytes() {
    assert_eq!(read_buf(&[8, 7, 6, 5, 4, 3, 2, 1, 99]), 0x0102030405060708);
    assert_eq!(read_buf(&[0, 0, 0, 0, 0, 0, 0, 0x80]), i64::MIN);
}
