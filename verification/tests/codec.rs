use kv_loadgen::codec::{
    build_get, build_set, decode_get_response, decode_set_response, GetResponse, PreviousValue,
    RequestSpec, SetResponse,
};

fn assert_is_key(key: &str) {
    let index: u32 = key.parse().expect("a key is a number");
    assert!(index < 1000);
    assert_eq!(key, format!("{}", index));
}

#[test]
fn get_request_names_the_key_and_carries_no_value() {
    let request = RequestSpec::get(5);
    assert_eq!(request.key(), "5");
    assert_eq!(request.value(), None);
    assert_eq!(request.into_parts(), ("5".to_string(), None));
}

#[test]
fn set_request_names_the_key_and_carries_the_value() {
    let request = RequestSpec::set(731, vec![1, 2, 3]);
    assert_eq!(request.key(), "731");
    assert_eq!(request.value(), Some(&vec![1, 2, 3]));
    assert_eq!(request.into_parts(), ("731".to_string(), Some(vec![1, 2, 3])));
}

#[test]
fn set_request_with_empty_value_is_still_a_write() {
    let request = RequestSpec::set(0, Vec::new());
    assert_eq!(request.key(), "0");
    assert_eq!(request.value(), Some(&Vec::new()));
}

#[test]
fn build_get_draws_keys_from_the_key_space() {
    for _ in 0..2000 {
        let request = build_get();
        assert_is_key(request.key());
        assert_eq!(request.value(), None);
    }
}

#[test]
fn build_get_does_not_repeat_one_key() {
    let first = build_get();
    let varied = (0..2000).any(|_| build_get().key() != first.key());
    assert!(varied);
}

#[test]
fn build_set_draws_keys_from_the_key_space() {
    for _ in 0..2000 {
        assert_is_key(build_set(8).key());
    }
}

#[test]
fn build_set_value_has_exactly_the_payload_size() {
    for size in [0usize, 1, 2, 7, 64, 1000, 4096, 65_537] {
        let request = build_set(size);
        let value = request.value().expect("a write carries a value");
        assert_eq!(value.len(), size);
    }
}

#[test]
fn build_set_with_no_payload_writes_the_empty_value() {
    let request = build_set(0);
    assert_eq!(request.value(), Some(&Vec::new()));
}

#[test]
fn build_set_fills_the_whole_value_with_random_bytes() {
    let request = build_set(4096);
    let value = request.value().expect("a write carries a value");
    assert!(value.iter().any(|&b| b != 0));
    assert!(value[2048..].iter().any(|&b| b != 0));
    let other = build_set(4096);
    assert_ne!(other.value(), request.value());
}

#[test]
fn decode_get_response_returns_the_bytes() {
    assert_eq!(decode_get_response(GetResponse { value: vec![9, 8, 7] }), vec![9, 8, 7]);
    assert_eq!(decode_get_response(GetResponse { value: Vec::new() }), Vec::<u8>::new());
}

#[test]
fn decode_set_response_absent_is_nothing() {
    let raw = SetResponse { previous_value: PreviousValue::Absent };
    assert_eq!(decode_set_response(raw), None);
}

#[test]
fn decode_set_response_present_is_the_exact_bytes() {
    let raw = SetResponse { previous_value: PreviousValue::Present(vec![0, 255, 17, 0]) };
    assert_eq!(decode_set_response(raw), Some(vec![0, 255, 17, 0]));
}

#[test]
fn decode_set_response_present_but_empty_is_not_absent() {
    let raw = SetResponse { previous_value: PreviousValue::Present(Vec::new()) };
    assert_eq!(decode_set_response(raw), Some(Vec::new()));
}
