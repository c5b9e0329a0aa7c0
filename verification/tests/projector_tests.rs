use debeon::models::RobloxConfig;
use debeon::projector::apply_configuration_text;

fn parsed(text: &str) -> serde_json::Map<String, serde_json::Value> {
    match serde_json::from_str::<serde_json::Value>(text).unwrap() {
        serde_json::Value::Object(m) => m,
        other => panic!("not an object: {}", other),
    }
}

#[test]
fn projection_scenario_from_empty_file() {
    // graphics-quality 7, shadow-quality 2 (scaled by 25), vsync on,
    // anti-aliasing level 0 (collapses to a false flag), no frame-rate
    // limit (key omitted), and the constant max-players override.
    let mut c = RobloxConfig::default();
    c.graphics.graphics_quality = 7;
    c.graphics.shadow_quality = 2;
    c.graphics.vsync = true;
    c.graphics.anti_aliasing = 0;
    c.rendering.frame_rate_limit = None;
    let text = apply_configuration_text(Some("{}"), &c);
    let obj = parsed(&text);
    assert_eq!(obj["DFIntDebugFRMQualityLevelOverride"].as_i64(), Some(7));
    assert_eq!(obj["FIntRenderShadowIntensity"].as_i64(), Some(50));
    assert_eq!(obj["FFlagEnableVSync"].as_bool(), Some(true));
    assert_eq!(obj["FFlagEnableAntiAliasing"].as_bool(), Some(false));
    assert!(!obj.contains_key("DFIntTaskSchedulerTargetFps"));
    assert_eq!(obj["DFIntMaxPlayers"].as_i64(), Some(100));
}

#[test]
fn frame_rate_limit_projects_when_present() {
    let mut c = RobloxConfig::default();
    c.rendering.frame_rate_limit = Some(144);
    let text = apply_configuration_text(None, &c);
    let obj = parsed(&text);
    assert_eq!(obj["DFIntTaskSchedulerTargetFps"].as_i64(), Some(144));
}

#[test]
fn anti_aliasing_level_collapses_to_flag() {
    let mut c = RobloxConfig::default();
    c.graphics.anti_aliasing = 4;
    let text = apply_configuration_text(None, &c);
    let obj = parsed(&text);
    assert_eq!(obj["FFlagEnableAntiAliasing"].as_bool(), Some(true));
    // The level itself is discarded: no key carries the number 4 for it.
    assert!(obj.values().all(|v| v.as_i64() != Some(4)));
}

#[test]
fn custom_flags_apply_last_and_override() {
    let mut c = RobloxConfig::default();
    c.graphics.graphics_quality = 3;
    c.custom_flags.push((
        "DFIntDebugFRMQualityLevelOverride".to_string(),
        "21".to_string(),
    ));
    c.custom_flags.push(("FFlagCustomThing".to_string(), "true".to_string()));
    let text = apply_configuration_text(None, &c);
    let obj = parsed(&text);
    assert_eq!(obj["DFIntDebugFRMQualityLevelOverride"].as_i64(), Some(21));
    assert_eq!(obj["FFlagCustomThing"].as_bool(), Some(true));
}

#[test]
fn projection_preserves_unknown_existing_keys() {
    let c = RobloxConfig::default();
    let current = r#"{"SomePreexistingKey": "kept"}"#;
    let text = apply_configuration_text(Some(current), &c);
    let obj = parsed(&text);
    assert_eq!(obj["SomePreexistingKey"].as_str(), Some("kept"));
}

#[test]
fn documented_defaults() {
    let c = RobloxConfig::default();
    assert_eq!(c.graphics.graphics_quality, 10);
    assert_eq!(c.graphics.render_distance, 1000);
    assert_eq!(c.graphics.shadow_quality, 3);
    assert_eq!(c.graphics.vsync, true);
    assert_eq!(c.graphics.anti_aliasing, 4);
    assert_eq!(c.network.preferred_region, "auto");
    assert_eq!(c.network.max_ping, 200);
    assert_eq!(c.rendering.frame_rate_limit, Some(60));
    assert_eq!(c.rendering.depth_of_field, false);
    assert_eq!(c.performance.low_latency_mode, false);
    assert_eq!(c.performance.gpu_preference, "high_performance");
    assert!(c.custom_flags.is_empty());
}
