use umbra::layout::{compute_total_size, pack_buffer, BASE_UNIFORM_SIZE};
use umbra::project::{PropertyValue, ShaderProperty};

fn prop(name: &str, value: PropertyValue) -> ShaderProperty {
    ShaderProperty { name: name.to_string(), value }
}

#[test]
fn float_then_color_fill_two_slots() {
    let amp = 0.75f32;
    let tint = [0.1f32, 0.2, 0.3, 1.0];
    let props = vec![
        prop("amp", PropertyValue::Float(amp.to_bits())),
        prop(
            "tint",
            PropertyValue::Color(tint[0].to_bits(), tint[1].to_bits(), tint[2].to_bits(), tint[3].to_bits()),
        ),
    ];
    assert_eq!(compute_total_size(&props), BASE_UNIFORM_SIZE + 32);
    let base: Vec<u8> = (0..96u32).map(|i| i as u8).collect();
    let bytes = pack_buffer(&base, &props);
    assert_eq!(bytes.len() as u64, compute_total_size(&props));
    assert_eq!(&bytes[..96], &base[..]);
    assert_eq!(&bytes[96..100], &amp.to_le_bytes());
    assert_eq!(&bytes[100..112], &[0u8; 12]);
    for (k, c) in tint.iter().enumerate() {
        assert_eq!(&bytes[112 + 4 * k..116 + 4 * k], &c.to_le_bytes());
    }
}

#[test]
fn every_kind_takes_one_slot_in_order() {
    let props = vec![
        prop("a", PropertyValue::Vec2(1.0f32.to_bits(), 2.0f32.to_bits())),
        prop("b", PropertyValue::Float4(3.0f32.to_bits(), 4.0f32.to_bits(), 5.0f32.to_bits(), 6.0f32.to_bits())),
        prop("c", PropertyValue::Float(7.0f32.to_bits())),
    ];
    assert_eq!(compute_total_size(&props), 96 + 16 * 3);
    let base = vec![0xAAu8; 96];
    let bytes = pack_buffer(&base, &props);
    assert_eq!(bytes.len(), 96 + 48);
    assert_eq!(&bytes[96..100], &1.0f32.to_le_bytes());
    assert_eq!(&bytes[100..104], &2.0f32.to_le_bytes());
    assert_eq!(&bytes[104..112], &[0u8; 8]);
    for (k, v) in [3.0f32, 4.0, 5.0, 6.0].iter().enumerate() {
        assert_eq!(&bytes[112 + 4 * k..116 + 4 * k], &v.to_le_bytes());
    }
    assert_eq!(&bytes[128..132], &7.0f32.to_le_bytes());
    assert_eq!(&bytes[132..144], &[0u8; 12]);
}

#[test]
fn no_properties_is_the_base_alone() {
    let props: Vec<ShaderProperty> = Vec::new();
    assert_eq!(compute_total_size(&props), 96);
    let base = vec![7u8; 96];
    assert_eq!(pack_buffer(&base, &props), base);
}

#[test]
fn words_are_little_endian() {
    let props = vec![prop("w", PropertyValue::Float(0x0102_0304))];
    let bytes = pack_buffer(&Vec::new(), &props);
    assert_eq!(bytes, vec![4, 3, 2, 1, 0, 0, 0, 0, 0, 0, 0, 0, 0, 0, 0, 0]);
}
