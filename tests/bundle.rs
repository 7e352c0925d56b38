use scratch_bevy::json::{Decimal, Json};
use scratch_bevy::project_bundle::{BlockId, ListId, Monitor, MonitorMode, RotationStyle, Target, VariableId};

#[test]
fn default_target_values() {
    let t = Target::default();
    assert!(!t.is_stage);
    assert_eq!(t.name, "");
    assert_eq!(t.volume, Decimal::integer(100));
    assert_eq!(t.tempo, Decimal::integer(60));
    assert_eq!(t.video_transparency, Decimal::integer(50));
    assert_eq!(t.video_state, Json::String("on".to_string()));
    assert_eq!(t.broadcasts, Json::Null);
    assert!(t.visible);
    assert_eq!(t.size, Decimal::integer(100));
    assert_eq!(t.direction, Decimal::integer(0));
    assert!(t.draggable);
    assert_eq!(t.rotation_style, RotationStyle::AllAround);
    assert!(t.blocks.is_empty());
}

#[test]
fn default_monitor_values() {
    let m = Monitor::default();
    assert_eq!(m.mode, MonitorMode::Default);
    assert_eq!(m.opcode, "data_variable");
    assert_eq!(m.value, Json::Number(Decimal::integer(0)));
    assert_eq!(m.sprite_name, None);
    assert_eq!(m.slider_min, Decimal::integer(0));
    assert_eq!(m.slider_max, Decimal::integer(100));
    assert!(m.is_discrete);
    assert!(m.visible);
}

#[test]
fn monitor_modes_by_name() {
    assert_eq!(MonitorMode::from_name(&"default".to_string()), Some(MonitorMode::Default));
    assert_eq!(MonitorMode::from_name(&"list".to_string()), Some(MonitorMode::List));
    assert_eq!(MonitorMode::from_name(&"slider".to_string()), None);
}

#[test]
fn ids_keep_their_text() {
    assert_eq!(BlockId::new("a1".to_string()).0, "a1");
    assert_eq!(ListId::new("l".to_string()), ListId("l".to_string()));
    assert_ne!(VariableId::new("x".to_string()), VariableId::new("y".to_string()));
}
