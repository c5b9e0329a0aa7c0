//! The built-in catalog of overlay-flag presets, grouped by category. A
//! fixed table: three categories, each holding named presets whose flags
//! feed the overlay as-is.

use crate::models::FlagPreset;
use vstd::prelude::*;

verus! {

/// One overlay pair of a preset.
pub open spec fn preset_flag(p: FlagPreset, i: int) -> (Seq<char>, Seq<char>) {
    (p.flags@[i].0@, p.flags@[i].1@)
}

fn pair(k: &str, v: &str) -> (r: (String, String))
    ensures
        r.0@ == k@,
        r.1@ == v@,
{
    (k.to_owned(), v.to_owned())
}

fn preset1(name: &str, description: &str, k1: &str, v1: &str) -> (r: FlagPreset)
    ensures
        r.name@ == name@,
        r.description@ == description@,
        r.flags@.len() == 1,
        preset_flag(r, 0) == (k1@, v1@),
{
    let mut flags: Vec<(String, String)> = Vec::new();
    flags.push(pair(k1, v1));
    FlagPreset { name: name.to_owned(), description: description.to_owned(), flags }
}

fn preset2(name: &str, description: &str, k1: &str, v1: &str, k2: &str, v2: &str) -> (r: FlagPreset)
    ensures
        r.name@ == name@,
        r.description@ == description@,
        r.flags@.len() == 2,
        preset_flag(r, 0) == (k1@, v1@),
        preset_flag(r, 1) == (k2@, v2@),
{
    let mut flags: Vec<(String, String)> = Vec::new();
    flags.push(pair(k1, v1));
    flags.push(pair(k2, v2));
    FlagPreset { name: name.to_owned(), description: description.to_owned(), flags }
}

fn preset3(
    name: &str,
    description: &str,
    k1: &str,
    v1: &str,
    k2: &str,
    v2: &str,
    k3: &str,
    v3: &str,
) -> (r: FlagPreset)
    ensures
        r.name@ == name@,
        r.description@ == description@,
        r.flags@.len() == 3,
        preset_flag(r, 0) == (k1@, v1@),
        preset_flag(r, 1) == (k2@, v2@),
        preset_flag(r, 2) == (k3@, v3@),
{
    let mut flags: Vec<(String, String)> = Vec::new();
    flags.push(pair(k1, v1));
    flags.push(pair(k2, v2));
    flags.push(pair(k3, v3));
    FlagPreset { name: name.to_owned(), description: description.to_owned(), flags }
}

/// The built-in preset catalog: the performance, graphics and UI categories
/// with their fixed presets, each flag exactly as the overlay applies it.
pub fn get_common_flags() -> (r: Vec<(String, Vec<FlagPreset>)>)
    ensures
        r@.len() == 3,
        r@[0].0@ == "Performance"@,
        r@[0].1@.len() == 3,
        r@[0].1@[0].name@ == "Uncap FPS"@,
        r@[0].1@[0].flags@.len() == 1,
        preset_flag(r@[0].1@[0], 0) == ("DFIntTaskSchedulerTargetFps"@, "999"@),
        r@[0].1@[1].name@ == "Low Latency"@,
        r@[0].1@[1].flags@.len() == 2,
        preset_flag(r@[0].1@[1], 0) == ("FFlagEnableLowLatencyMode"@, "true"@),
        preset_flag(r@[0].1@[1], 1) == ("DFIntConnectionMTUSize"@, "1492"@),
        r@[0].1@[2].name@ == "Memory Optimization"@,
        r@[0].1@[2].flags@.len() == 2,
        preset_flag(r@[0].1@[2], 0) == ("FFlagEnableMemoryOptimization"@, "true"@),
        preset_flag(r@[0].1@[2], 1) == ("DFIntHttpCacheCleanMaxFileSizeMB"@, "128"@),
        r@[1].0@ == "Graphics"@,
        r@[1].1@.len() == 2,
        r@[1].1@[0].name@ == "Ultra Graphics"@,
        r@[1].1@[0].flags@.len() == 3,
        preset_flag(r@[1].1@[0], 0) == ("DFIntDebugFRMQualityLevelOverride"@, "21"@),
        preset_flag(r@[1].1@[0], 1) == ("FIntRenderShadowIntensity"@, "100"@),
        preset_flag(r@[1].1@[0], 2) == ("DFIntTextureQualityOverride"@, "3"@),
        r@[1].1@[1].name@ == "Potato Mode"@,
        r@[1].1@[1].flags@.len() == 3,
        preset_flag(r@[1].1@[1], 0) == ("DFIntDebugFRMQualityLevelOverride"@, "1"@),
        preset_flag(r@[1].1@[1], 1) == ("FFlagDisablePostFx"@, "true"@),
        preset_flag(r@[1].1@[1], 2) == ("FIntRenderShadowIntensity"@, "0"@),
        r@[2].0@ == "UI"@,
        r@[2].1@.len() == 2,
        r@[2].1@[0].name@ == "Show FPS Counter"@,
        r@[2].1@[0].flags@.len() == 1,
        preset_flag(r@[2].1@[0], 0) == ("FFlagDebugDisplayFPS"@, "true"@),
        r@[2].1@[1].name@ == "Minimal UI"@,
        r@[2].1@[1].flags@.len() == 1,
        preset_flag(r@[2].1@[1], 0) == ("FFlagEnableMinimalUI"@, "true"@),
{
    let mut performance: Vec<FlagPreset> = Vec::new();
    performance.push(
        preset1(
            "Uncap FPS",
            "Remove FPS limit for maximum performance",
            "DFIntTaskSchedulerTargetFps",
            "999",
        ),
    );
    performance.push(
        preset2(
            "Low Latency",
            "Reduce input lag and network latency",
            "FFlagEnableLowLatencyMode",
            "true",
            "DFIntConnectionMTUSize",
            "1492",
        ),
    );
    performance.push(
        preset2(
            "Memory Optimization",
            "Optimize memory usage",
            "FFlagEnableMemoryOptimization",
            "true",
            "DFIntHttpCacheCleanMaxFileSizeMB",
            "128",
        ),
    );
    let mut graphics: Vec<FlagPreset> = Vec::new();
    graphics.push(
        preset3(
            "Ultra Graphics",
            "Maximum visual quality",
            "DFIntDebugFRMQualityLevelOverride",
            "21",
            "FIntRenderShadowIntensity",
            "100",
            "DFIntTextureQualityOverride",
            "3",
        ),
    );
    graphics.push(
        preset3(
            "Potato Mode",
            "Minimum graphics for maximum FPS",
            "DFIntDebugFRMQualityLevelOverride",
            "1",
            "FFlagDisablePostFx",
            "true",
            "FIntRenderShadowIntensity",
            "0",
        ),
    );
    let mut ui: Vec<FlagPreset> = Vec::new();
    ui.push(preset1("Show FPS Counter", "Display FPS counter in-game", "FFlagDebugDisplayFPS", "true"));
    ui.push(preset1("Minimal UI", "Hide unnecessary UI elements", "FFlagEnableMinimalUI", "true"));
    let mut r: Vec<(String, Vec<FlagPreset>)> = Vec::new();
    r.push(("Performance".to_owned(), performance));
    r.push(("Graphics".to_owned(), graphics));
    r.push(("UI".to_owned(), ui));
    r
}

} // verus!
