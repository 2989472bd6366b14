use social_card::base64::base64_encode;

fn enc(s: &str) -> String {
    String::from_utf8(base64_encode(s.as_bytes())).unwrap()
}

#[test]
fn empty_input_gives_empty_output() {
    assert_eq!(enc(""), "");
}

#[test]
fn one_byte_pads_twice() {
    assert_eq!(enc("f"), "Zg==");
}

#[test]
fn two_bytes_pad_once() {
    assert_eq!(enc("fo"), "Zm8=");
}

#[test]
fn three_bytes_need_no_padding() {
    assert_eq!(enc("foo"), "Zm9v");
}

#[test]
fn longer_inputs_group_by_three() {
    assert_eq!(enc("foob"), "Zm9vYg==");
    assert_eq!(enc("fooba"), "Zm9vYmE=");
    assert_eq!(enc("foobar"), "Zm9vYmFy");
}

#[test]
fn high_six_bit_values_use_plus_and_slash() {
    assert_eq!(
        String::from_utf8(base64_encode(&[0xfb, 0xff])).unwrap(),
        "+/8="
    );
}
