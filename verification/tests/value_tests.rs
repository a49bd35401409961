use clox::chunk::{Chunk, Opcode};
use clox::value::{
    hash, number_equal, number_is_nan_bits, number_less, number_negate, text_equal, values_equal,
    ThinString, Value,
};

#[test]
fn fnv1a_of_the_empty_string() {
    assert_eq!(hash("".as_bytes()), 2166136261);
}

#[test]
fn fnv1a_of_a_single_letter() {
    assert_eq!(hash("a".as_bytes()), 0xE40C292C);
    assert_eq!(hash("a".as_bytes()), 3826002220);
}

#[test]
fn fnv1a_of_a_word() {
    assert_eq!(hash("foobar".as_bytes()), 0xbf9cf968);
}

#[test]
fn thin_string_remembers_its_hash() {
    let s = ThinString::new(String::from("a"));
    assert_eq!(s.hash(), 0xE40C292C);
    assert_eq!(s.as_str(), "a");
    assert_eq!(s.clone().hash(), 0xE40C292C);
    assert_eq!(s.into_string(), "a");
}

#[test]
fn text_equal_compares_bytes() {
    assert!(text_equal("", ""));
    assert!(text_equal("añb", "añb"));
    assert!(!text_equal("a", "b"));
    assert!(!text_equal("a", "ab"));
}

fn samples() -> Vec<f64> {
    vec![
        0.0, -0.0, 1.0, -1.0, 1.5, -1.5, 2.0, 1e300, -1e300, 5e-324, -5e-324, f64::MAX, f64::MIN,
        f64::INFINITY, f64::NEG_INFINITY, f64::NAN, -f64::NAN, 0.1, 0.30000000000000004,
    ]
}

#[test]
fn number_comparisons_agree_with_doubles() {
    for a in samples() {
        assert_eq!(number_is_nan_bits(a.to_bits()), a.is_nan());
        assert_eq!(number_negate(a.to_bits()), (-a).to_bits());
        for b in samples() {
            assert_eq!(number_equal(a.to_bits(), b.to_bits()), a == b, "{} == {}", a, b);
            assert_eq!(number_less(a.to_bits(), b.to_bits()), a < b, "{} < {}", a, b);
        }
    }
}

#[test]
fn values_are_equal_by_kind_and_content() {
    let one = || Value::Number(1.0f64.to_bits());
    assert!(values_equal(Value::Nil, Value::Nil));
    assert!(values_equal(Value::Bool(true), Value::Bool(true)));
    assert!(!values_equal(Value::Bool(true), Value::Bool(false)));
    assert!(values_equal(one(), one()));
    assert!(values_equal(Value::Number(0.0f64.to_bits()), Value::Number((-0.0f64).to_bits())));
    assert!(!values_equal(Value::Number(f64::NAN.to_bits()), Value::Number(f64::NAN.to_bits())));
    assert!(values_equal(Value::string(String::from("a")), Value::string(String::from("a"))));
    assert!(!values_equal(Value::string(String::from("a")), Value::string(String::from("b"))));
    assert!(!values_equal(one(), Value::string(String::from("1"))));
    assert!(!values_equal(Value::Nil, Value::Bool(false)));
}

#[test]
fn only_nil_and_false_are_falsey() {
    assert!(Value::Nil.is_falsey());
    assert!(Value::Bool(false).is_falsey());
    assert!(!Value::Bool(true).is_falsey());
    assert!(!Value::Number(0).is_falsey());
    assert!(!Value::string(String::new()).is_falsey());
}

#[test]
fn opcodes_round_trip_through_their_bytes() {
    for byte in 0..=255u8 {
        match Opcode::from_u8(byte) {
            Some(op) => {
                assert!(byte < 24);
                assert_eq!(op.as_u8(), byte);
            }
            None => assert!(byte >= 24),
        }
    }
    assert_eq!(Opcode::Return.as_u8(), 0);
    assert_eq!(Opcode::Loop.as_u8(), 23);
}

#[test]
fn constants_are_found_again_under_their_id() {
    let mut chunk = Chunk::default();
    assert!(chunk.find_constant(&Value::Nil).is_none());
    let a = chunk.add_constant(Value::string(String::from("a")));
    let one = chunk.add_constant(Value::Number(1.0f64.to_bits()));
    assert_eq!((a, one), (0, 1));
    for _ in 0..10 {
        chunk.write_byte(0, 1);
        chunk.add_constant(Value::Nil);
    }
    assert_eq!(chunk.find_constant(&Value::string(String::from("a"))), Some(a));
    assert_eq!(chunk.find_constant(&Value::Number(1.0f64.to_bits())), Some(one));
    assert_eq!(chunk.find_constant(&Value::Nil), Some(2));
    assert_eq!(chunk.find_constant(&Value::Number(f64::NAN.to_bits())), None);
    assert_eq!(chunk.constants_len(), 12);
    assert!(matches!(chunk.get_constant(one), Value::Number(_)));
}

#[test]
fn patch_writes_the_low_byte_first() {
    let mut chunk = Chunk::default();
    for _ in 0..4 {
        chunk.write_byte(0xff, 3);
    }
    chunk.patch(1, 0x1234);
    assert_eq!(chunk.code().to_vec(), vec![0xff, 0x34, 0x12, 0xff]);
    assert_eq!(chunk.len(), 4);
    assert_eq!(chunk.get_line(2), 3);
}
