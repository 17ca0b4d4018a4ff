use rapier3d_f64::dynamics::{LockedAxes, RigidBodyType};
use space_engine::fps::{FpsCounter, FpsReading};
use space_engine::highlight::{shader_highlight_spans, HighlightSpan};
use space_engine::material::need_rebind;
use space_engine::physics::{
    SpaceLockedAxes, SpaceRigidBodyType, ALL_LOCKED, ROTATION_LOCKED, TRANSLATION_LOCKED,
    TRANSLATION_LOCKED_X, TRANSLATION_LOCKED_Y,
};
use space_engine::stage::GlobalStageStep;

#[test]
fn stage_labels() {
    assert_eq!(GlobalStageStep::PreRender.as_str(), "PreRender");
    assert_eq!(GlobalStageStep::Render.as_str(), "Render");
    assert_eq!(GlobalStageStep::PostRender.as_str(), "PostRender");
    assert_eq!(GlobalStageStep::Gui.as_str(), "Gui");
}

#[test]
fn rebind_when_unbound_or_versions_moved() {
    assert!(need_rebind(false, 0, 0, 0, 0));
    assert!(!need_rebind(true, 1, 2, 3, 6));
    assert!(need_rebind(true, 1, 2, 4, 6));
    assert!(need_rebind(false, 1, 2, 3, 6));
}

#[test]
fn fps_counter_cycle() {
    let mut fps = FpsCounter::default();
    assert_eq!(fps.prev_frame(), None);
    assert_eq!(fps.frame(100, false), FpsReading::Undefined);
    assert_eq!(fps.prev_frame(), Some(100));
    assert_eq!(fps.frame(200, false), FpsReading::Last(0));
    assert_eq!(fps.frame(300, false), FpsReading::Last(0));
    assert_eq!(fps.frame(1_000_000_200, true), FpsReading::Measure { frames: 4 });
    assert_eq!(fps.prev_frame(), Some(1_000_000_200));
    assert_eq!(fps.record_fps(3), 3);
    assert_eq!(fps.frame(1_000_000_300, false), FpsReading::Last(3));
    assert_eq!(fps.frame(2_000_000_300, true), FpsReading::Measure { frames: 3 });
}

#[test]
fn highlight_vec3_runs() {
    let spans = shader_highlight_spans("a vec3<f32>;");
    assert_eq!(spans.len(), 4);
    assert_eq!(spans[0], HighlightSpan { start: 0, len: 1, highlighted: false });
    assert_eq!(spans[1], HighlightSpan { start: 1, len: 1, highlighted: false });
    assert_eq!(spans[2], HighlightSpan { start: 2, len: 9, highlighted: true });
    assert_eq!(spans[3], HighlightSpan { start: 11, len: 1, highlighted: false });
    assert!(shader_highlight_spans("").is_empty());
    let partial = shader_highlight_spans("vec3<f3");
    assert_eq!(partial.len(), 7);
    assert!(partial.iter().all(|s| !s.highlighted && s.len == 1));
    let twice = shader_highlight_spans("vec3<f32>vec3<f32>");
    assert_eq!(twice.len(), 2);
    assert!(twice[1].highlighted && twice[1].start == 9);
}

#[test]
fn locked_axes_flags() {
    assert_eq!(SpaceLockedAxes::from_bits(64), None);
    assert_eq!(SpaceLockedAxes::from_bits(255), None);
    let t = SpaceLockedAxes::from_bits(TRANSLATION_LOCKED).unwrap();
    assert_eq!(t.bits(), 7);
    assert!(t.contains(SpaceLockedAxes::from_bits(TRANSLATION_LOCKED_X).unwrap()));
    assert!(!t.contains(SpaceLockedAxes::from_bits(ROTATION_LOCKED).unwrap()));
    let mut u = t.union(SpaceLockedAxes::from_bits(ROTATION_LOCKED).unwrap());
    assert_eq!(u.bits(), ALL_LOCKED);
    u.remove(SpaceLockedAxes::from_bits(TRANSLATION_LOCKED_Y).unwrap());
    assert_eq!(u.bits(), 61);
    u.insert(SpaceLockedAxes::from_bits(TRANSLATION_LOCKED_Y).unwrap());
    assert_eq!(u, SpaceLockedAxes::all());
    assert_eq!(SpaceLockedAxes::from_bits_truncate(0xff).bits(), 63);
    assert_eq!(SpaceLockedAxes::empty().bits(), 0);
}

#[test]
fn locked_axes_reach_the_physics_engine() {
    assert_eq!(SpaceLockedAxes::all().to_rapier(), LockedAxes::all());
    assert_eq!(SpaceLockedAxes::empty().to_rapier(), LockedAxes::empty());
    let r = SpaceLockedAxes::from_bits(TRANSLATION_LOCKED_X | ROTATION_LOCKED).unwrap().to_rapier();
    assert_eq!(r.bits(), 57);
    assert!(r.contains(LockedAxes::TRANSLATION_LOCKED_X));
    assert!(!r.contains(LockedAxes::TRANSLATION_LOCKED_Y));
}

#[test]
fn body_types_reach_the_physics_engine() {
    assert_eq!(SpaceRigidBodyType::Dynamic.to_rapier(), RigidBodyType::Dynamic);
    assert_eq!(SpaceRigidBodyType::Fixed.to_rapier(), RigidBodyType::Fixed);
}
