use sim_core::entities::entity_components::encode_speed;
use sim_core::entities::entity_components::unencode_speed;
use sim_core::entities::entity_components::Velocity;

#[test]
fn encode_puts_x_in_the_low_byte_and_y_in_the_high_byte() {
    assert_eq!(encode_speed(0, 0), 0);
    assert_eq!(encode_speed(3, 0), 3);
    assert_eq!(encode_speed(0, 1), 256);
    assert_eq!(encode_speed(2, 1), 0x0102);
    assert_eq!(encode_speed(-1, 0), 0x00ff);
    assert_eq!(encode_speed(0, -1), 0xff00);
    assert_eq!(encode_speed(-1, -1), 0xffff);
    assert_eq!(encode_speed(-128, 127), 0x7f80);
    assert_eq!(encode_speed(127, -128), 0x807f);
}

#[test]
fn decode_reads_both_bytes_as_signed() {
    assert_eq!(unencode_speed(0), (0, 0));
    assert_eq!(unencode_speed(0x0102), (2, 1));
    assert_eq!(unencode_speed(0x00ff), (-1, 0));
    assert_eq!(unencode_speed(0xff00), (0, -1));
    assert_eq!(unencode_speed(0x7f80), (-128, 127));
    assert_eq!(unencode_speed(0x807f), (127, -128));
}

#[test]
fn decode_after_encode_is_the_identity_on_every_pair() {
    for x in i8::MIN..=i8::MAX {
        for y in i8::MIN..=i8::MAX {
            assert_eq!(unencode_speed(encode_speed(x, y)), (x, y));
        }
    }
}

#[test]
fn encode_after_decode_is_the_identity_on_every_word() {
    for word in 0..=u16::MAX {
        let (x, y) = unencode_speed(word);
        assert_eq!(encode_speed(x, y), word);
    }
}

#[test]
fn only_rest_encodes_to_zero() {
    for x in i8::MIN..=i8::MAX {
        for y in i8::MIN..=i8::MAX {
            assert_eq!(encode_speed(x, y) == 0, x == 0 && y == 0);
        }
    }
}

#[test]
fn velocity_methods_keep_the_other_fields() {
    let mut v = Velocity { speed: 0, max_speed: 10, acc: 3, last_dir: None };
    v.encode_speed(-7, 9);
    assert_eq!(v.speed, 0x09f9);
    assert_eq!(v.max_speed, 10);
    assert_eq!(v.acc, 3);
    assert_eq!(v.last_dir, None);
    assert_eq!(v.unencode_speed(), (-7, 9));
}
