//! The configuration projector: the fixed, documented mapping from the
//! structured configuration onto settings-file keys, and the apply
//! operation that merges the projection into the file.

use crate::document::SettingsDoc;
use crate::jsonio::{json_text_of, stored_map, text_view};
use crate::models::RobloxConfig;
use crate::scalar::{ScalarSpec, ScalarValue};
use crate::store::{coerced_map, flag_keys, flags_view, merge_write_text};
use vstd::prelude::*;

verus! {

/// The fixed multiplier applied to the shadow-quality level before it is
/// written as the shadow-intensity key.
pub const SHADOW_INTENSITY_SCALE: i64 = 25;

/// The constant always written under the max-players key, regardless of the
/// caller's configuration. An intentional, unconditional override: it
/// ignores any caller-supplied value for that concept and stands as a
/// documented open question of the design, not a knob.
pub const MAX_PLAYERS_CONSTANT: i64 = 100;

/// The fixed projection table: every structured field to exactly one
/// settings key. The shadow level is scaled, not passed through; the
/// anti-aliasing level is collapsed to an "enabled" boolean (true iff the
/// level is positive, the level itself discarded); the frame-rate key is
/// written only when a limit is present.
pub open spec fn fixed_projection(c: RobloxConfig) -> Map<Seq<char>, ScalarSpec> {
    let m = Map::<Seq<char>, ScalarSpec>::empty().insert(
        "DFIntDebugFRMQualityLevelOverride"@,
        ScalarSpec::Int(c.graphics.graphics_quality as int),
    ).insert(
        "FIntRenderShadowIntensity"@,
        ScalarSpec::Int(c.graphics.shadow_quality as int * SHADOW_INTENSITY_SCALE as int),
    ).insert(
        "DFIntTextureQualityOverride"@,
        ScalarSpec::Int(c.graphics.texture_quality as int),
    ).insert("FFlagEnableVSync"@, ScalarSpec::Bool(c.graphics.vsync)).insert(
        "FFlagEnableAntiAliasing"@,
        ScalarSpec::Bool(c.graphics.anti_aliasing > 0),
    ).insert("FFlagEnableDynamicLighting"@, ScalarSpec::Bool(c.rendering.dynamic_lighting)).insert(
        "FFlagEnablePostProcessing"@,
        ScalarSpec::Bool(c.rendering.post_processing),
    ).insert("FFlagEnableBloom"@, ScalarSpec::Bool(c.rendering.bloom)).insert(
        "FFlagEnableDepthOfField"@,
        ScalarSpec::Bool(c.rendering.depth_of_field),
    ).insert("FFlagEnableMotionBlur"@, ScalarSpec::Bool(c.rendering.motion_blur)).insert(
        "FFlagEnableAmbientOcclusion"@,
        ScalarSpec::Bool(c.rendering.ambient_occlusion),
    ).insert("FFlagEnableReflections"@, ScalarSpec::Bool(c.rendering.reflections)).insert(
        "DFIntMaxPlayers"@,
        ScalarSpec::Int(MAX_PLAYERS_CONSTANT as int),
    ).insert("FFlagEnableLowLatencyMode"@, ScalarSpec::Bool(c.performance.low_latency_mode));
    match c.rendering.frame_rate_limit {
        Some(fps) => m.insert("DFIntTaskSchedulerTargetFps"@, ScalarSpec::Int(fps as int)),
        None => m,
    }
}

/// The whole projection: the fixed table, with the custom-flag overlay
/// coerced and applied last, able to overwrite any projected key.
pub open spec fn project_spec(c: RobloxConfig) -> Map<Seq<char>, ScalarSpec> {
    fixed_projection(c).union_prefer_right(coerced_map(flags_view(c.custom_flags@)))
}

/// Project a structured configuration onto a partial settings document:
/// the fixed key table, then the custom-flag overlay, which is applied last
/// and may overwrite projected keys.
#[verifier::rlimit(100)]
pub fn project(c: &RobloxConfig) -> (r: SettingsDoc)
    requires
        flag_keys(c.custom_flags@).no_duplicates(),
    ensures
        r.as_map() == project_spec(*c),
        r.keys_unique(),
        r.values_wf(),
{
    let d = SettingsDoc::empty();
    let d = d.with_entry(
        "DFIntDebugFRMQualityLevelOverride",
        ScalarValue::Int(c.graphics.graphics_quality as i64),
    );
    let d = d.with_entry(
        "FIntRenderShadowIntensity",
        ScalarValue::Int((c.graphics.shadow_quality as i64) * SHADOW_INTENSITY_SCALE),
    );
    let d = d.with_entry(
        "DFIntTextureQualityOverride",
        ScalarValue::Int(c.graphics.texture_quality as i64),
    );
    let d = d.with_entry("FFlagEnableVSync", ScalarValue::Bool(c.graphics.vsync));
    let d = d.with_entry("FFlagEnableAntiAliasing", ScalarValue::Bool(c.graphics.anti_aliasing > 0));
    let d = d.with_entry(
        "FFlagEnableDynamicLighting",
        ScalarValue::Bool(c.rendering.dynamic_lighting),
    );
    let d = d.with_entry("FFlagEnablePostProcessing", ScalarValue::Bool(c.rendering.post_processing));
    let d = d.with_entry("FFlagEnableBloom", ScalarValue::Bool(c.rendering.bloom));
    let d = d.with_entry("FFlagEnableDepthOfField", ScalarValue::Bool(c.rendering.depth_of_field));
    let d = d.with_entry("FFlagEnableMotionBlur", ScalarValue::Bool(c.rendering.motion_blur));
    let d = d.with_entry(
        "FFlagEnableAmbientOcclusion",
        ScalarValue::Bool(c.rendering.ambient_occlusion),
    );
    let d = d.with_entry("FFlagEnableReflections", ScalarValue::Bool(c.rendering.reflections));
    let d = d.with_entry("DFIntMaxPlayers", ScalarValue::Int(MAX_PLAYERS_CONSTANT));
    let d = d.with_entry(
        "FFlagEnableLowLatencyMode",
        ScalarValue::Bool(c.performance.low_latency_mode),
    );
    let fixed_doc = match &c.rendering.frame_rate_limit {
        Some(fps) => d.with_entry("DFIntTaskSchedulerTargetFps", ScalarValue::Int(*fps as i64)),
        None => d,
    };
    proof {
        assert(fixed_doc.as_map() == fixed_projection(*c));
    }
    let overlay = crate::store::overlay_document(&c.custom_flags);
    fixed_doc.merged_with(&overlay)
}

/// Apply a structured configuration onto the settings file: project it,
/// then merge-write. Untouched keys of the existing file are preserved.
/// Returns the new file text.
pub fn apply_configuration_text(current: Option<&str>, c: &RobloxConfig) -> (r: String)
    requires
        flag_keys(c.custom_flags@).no_duplicates(),
    ensures
        r@ == json_text_of(stored_map(text_view(current)).union_prefer_right(project_spec(*c))),
{
    let partial = project(c);
    merge_write_text(current, &partial)
}

} // verus!
