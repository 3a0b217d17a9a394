use bench_kernels::text::{build_payload, count_char_in, rust_json_parse};

#[test]
fn payload_of_two_records() {
    let mut buf = String::new();
    build_payload(&mut buf, 2);
    assert_eq!(buf, "{\"items\":[{\"name\":\"Item0\",\"value\":0},{\"name\":\"Item1\",\"value\":1}]}");
}

#[test]
fn payload_without_records() {
    let mut buf = String::from("left over");
    build_payload(&mut buf, 0);
    assert_eq!(buf, "{\"items\":[]}");
    assert_eq!(count_char_in(&buf, ':'), 1);
}

#[test]
fn payload_writes_decimal_numbers() {
    let mut buf = String::new();
    build_payload(&mut buf, 101);
    assert!(buf.ends_with(",{\"name\":\"Item99\",\"value\":99},{\"name\":\"Item100\",\"value\":100}]}"));
    assert!(buf.contains("{\"name\":\"Item10\",\"value\":10},"));
    assert!(!buf.contains(",,"));
}

#[test]
fn payload_of_one_thousand_records() {
    let mut buf = String::with_capacity(50000);
    build_payload(&mut buf, 1000);
    assert_eq!(buf.len(), 30791);
    assert_eq!(count_char_in(&buf, ':'), 2001);
    assert_eq!(count_char_in(&buf, ','), 1999);
    assert_eq!(count_char_in(&buf, '{'), 1001);
    let mut expected = String::from("{\"items\":[");
    for i in 0..1000 {
        if i > 0 {
            expected.push(',');
        }
        expected.push_str(&format!("{{\"name\":\"Item{}\",\"value\":{}}}", i, i));
    }
    expected.push_str("]}");
    assert_eq!(buf, expected);
}

#[test]
fn buffer_is_cleared_before_each_build() {
    let mut buf = String::new();
    build_payload(&mut buf, 50);
    let first = buf.clone();
    build_payload(&mut buf, 50);
    assert_eq!(buf, first);
    build_payload(&mut buf, 1);
    assert_eq!(buf, "{\"items\":[{\"name\":\"Item0\",\"value\":0}]}");
}

#[test]
fn colons_are_two_for_each_record_and_one() {
    let mut buf = String::new();
    for records in [0u32, 1, 2, 9, 10, 11, 250] {
        build_payload(&mut buf, records);
        assert_eq!(count_char_in(&buf, ':'), 2 * records as usize + 1);
    }
}

#[test]
fn count_char_in_counts_characters_not_bytes() {
    assert_eq!(count_char_in("", ':'), 0);
    assert_eq!(count_char_in(":::", ':'), 3);
    assert_eq!(count_char_in("a:b", ':'), 1);
    assert_eq!(count_char_in("é:é:ü", ':'), 2);
    assert_eq!(count_char_in("é:é:ü", 'é'), 2);
    assert_eq!(count_char_in("abc", 'x'), 0);
}

#[test]
fn text_workload_counts_2001_colons() {
    assert_eq!(rust_json_parse(), 2001);
}
