use space_engine::uniform::{is_whitespace, unifrom_struct};

#[test]
fn uniform_struct_source() {
    let out = unifrom_struct("PointLightUniform, pos : vec3, intensity : f32, proj : mat4");
    let expected = "#[derive(ShaderType)]\n\
pub struct PointLightUniform {\n\
\x20   pub pos : nalgebra::Vector3<f32>,\n\
\x20   pub intensity : f32,\n\
\x20   pub proj : nalgebra::Matrix4<f32>,\n\
}\n\
\n\
impl ShaderUniform for PointLightUniform {\n\
fn get_name(&self) -> String {\n\
\"PointLightUniform\".to_string()\n\
}\n\
fn get_struct(&self) -> String {\n\
\"struct PointLightUniform {pos : vec3<f32>, intensity : f32, proj : mat4x4<f32>}\".to_string()\n\
}\n\
}";
    assert_eq!(out, expected);
}

#[test]
fn uniform_struct_without_fields_and_odd_types() {
    let out = unifrom_struct(" Empty ");
    assert!(out.starts_with("#[derive(ShaderType)]\npub struct  Empty  {\n}\n"));
    assert!(out.contains("impl ShaderUniform for Empty {\n"));
    assert!(out.ends_with("\"struct Empty {}\".to_string()\n}\n}"));
    let odd = unifrom_struct("S,\n a :\u{3000}quat ");
    assert!(odd.contains("    pub a : \n"));
    assert!(odd.contains("\"struct S {a : }\".to_string()"));
}

#[test]
fn white_space_is_unicode_white_space() {
    for c in [' ', '\t', '\n', '\r', '\u{b}', '\u{c}', '\u{85}', '\u{a0}', '\u{2003}', '\u{3000}'] {
        assert!(is_whitespace(c));
        assert!(c.is_whitespace());
    }
    for c in ['a', '_', '\u{200b}', '0'] {
        assert!(!is_whitespace(c));
        assert_eq!(is_whitespace(c), c.is_whitespace());
    }
}

#[test]
fn white_space_agrees_with_std_everywhere() {
    for u in 0u32..=0x10ffff {
        if let Some(c) = char::from_u32(u) {
            assert_eq!(is_whitespace(c), c.is_whitespace(), "{:x}", u);
        }
    }
}

#[test]
fn untyped_field_is_refused() {
    assert!(space_engine::uniform::try_unifrom_struct("S, a : f32, b").is_none());
    assert!(space_engine::uniform::try_unifrom_struct("S, a : f32,").is_none());
    let ok = space_engine::uniform::try_unifrom_struct("S, a : f32").unwrap();
    assert_eq!(ok, unifrom_struct("S, a : f32"));
}
