//! Data model: the structured configuration aggregate and its documented
//! defaults, installation records, and the plain data shapes the boundary
//! REST layer serves. Sections of the caller-facing configuration whose
//! fields are floating-point (audio, controls, ui) are carried by the
//! boundary layer and do not take part in the projection; the sections the
//! projection reads are modeled here.

use vstd::prelude::*;

verus! {

/// Graphics settings of the structured configuration.
#[derive(Clone, Debug, PartialEq)]
pub struct GraphicsConfig {
    pub graphics_quality: u8,
    pub render_distance: u32,
    pub shadow_quality: u8,
    pub texture_quality: u8,
    pub particle_quality: u8,
    pub vsync: bool,
    pub fullscreen: bool,
    pub resolution_width: u32,
    pub resolution_height: u32,
    pub anti_aliasing: u8,
    pub anisotropic_filtering: u8,
}

impl Default for GraphicsConfig {
    /// The documented defaults.
    fn default() -> (r: Self)
        ensures
            r.graphics_quality == 10,
            r.render_distance == 1000,
            r.shadow_quality == 3,
            r.texture_quality == 3,
            r.particle_quality == 3,
            r.vsync == true,
            r.fullscreen == false,
            r.resolution_width == 1920,
            r.resolution_height == 1080,
            r.anti_aliasing == 4,
            r.anisotropic_filtering == 16,
    {
        GraphicsConfig {
            graphics_quality: 10,
            render_distance: 1000,
            shadow_quality: 3,
            texture_quality: 3,
            particle_quality: 3,
            vsync: true,
            fullscreen: false,
            resolution_width: 1920,
            resolution_height: 1080,
            anti_aliasing: 4,
            anisotropic_filtering: 16,
        }
    }
}

/// Network settings of the structured configuration.
#[derive(Clone, Debug, PartialEq)]
pub struct NetworkConfig {
    pub preferred_region: String,
    pub max_ping: u32,
    pub connection_quality: String,
    pub enable_ipv6: bool,
    pub data_usage_limit: Option<u64>,
}

impl Default for NetworkConfig {
    /// The documented defaults.
    fn default() -> (r: Self)
        ensures
            r.preferred_region@ == "auto"@,
            r.max_ping == 200,
            r.connection_quality@ == "high"@,
            r.enable_ipv6 == true,
            r.data_usage_limit is None,
    {
        NetworkConfig {
            preferred_region: "auto".to_owned(),
            max_ping: 200,
            connection_quality: "high".to_owned(),
            enable_ipv6: true,
            data_usage_limit: None,
        }
    }
}

/// Rendering settings of the structured configuration.
#[derive(Clone, Debug, PartialEq)]
pub struct RenderingConfig {
    pub frame_rate_limit: Option<u32>,
    pub dynamic_lighting: bool,
    pub post_processing: bool,
    pub bloom: bool,
    pub depth_of_field: bool,
    pub motion_blur: bool,
    pub ambient_occlusion: bool,
    pub reflections: bool,
    pub global_illumination: bool,
}

impl Default for RenderingConfig {
    /// The documented defaults.
    fn default() -> (r: Self)
        ensures
            r.frame_rate_limit == Some(60u32),
            r.dynamic_lighting == true,
            r.post_processing == true,
            r.bloom == true,
            r.depth_of_field == false,
            r.motion_blur == false,
            r.ambient_occlusion == true,
            r.reflections == true,
            r.global_illumination == true,
    {
        RenderingConfig {
            frame_rate_limit: Some(60),
            dynamic_lighting: true,
            post_processing: true,
            bloom: true,
            depth_of_field: false,
            motion_blur: false,
            ambient_occlusion: true,
            reflections: true,
            global_illumination: true,
        }
    }
}

/// Performance settings of the structured configuration.
#[derive(Clone, Debug, PartialEq)]
pub struct PerformanceConfig {
    pub low_latency_mode: bool,
    pub power_saving_mode: bool,
    pub background_performance: String,
    pub memory_limit_mb: Option<u32>,
    pub cpu_affinity: Vec<usize>,
    pub gpu_preference: String,
}

impl Default for PerformanceConfig {
    /// The documented defaults.
    fn default() -> (r: Self)
        ensures
            r.low_latency_mode == false,
            r.power_saving_mode == false,
            r.background_performance@ == "normal"@,
            r.memory_limit_mb is None,
            r.cpu_affinity@.len() == 0,
            r.gpu_preference@ == "high_performance"@,
    {
        PerformanceConfig {
            low_latency_mode: false,
            power_saving_mode: false,
            background_performance: "normal".to_owned(),
            memory_limit_mb: None,
            cpu_affinity: Vec::new(),
            gpu_preference: "high_performance".to_owned(),
        }
    }
}

/// The structured, caller-facing configuration the projector maps onto the
/// settings file. The free-form custom-flag map is applied last and may
/// overwrite any projected key.
#[derive(Clone, Debug, PartialEq)]
pub struct RobloxConfig {
    pub graphics: GraphicsConfig,
    pub network: NetworkConfig,
    pub rendering: RenderingConfig,
    pub performance: PerformanceConfig,
    pub custom_flags: Vec<(String, String)>,
}

impl Default for RobloxConfig {
    /// The documented defaults of every section, with no custom flags.
    fn default() -> (r: Self)
        ensures
            r.graphics == (GraphicsConfig {
                graphics_quality: 10u8,
                render_distance: 1000u32,
                shadow_quality: 3u8,
                texture_quality: 3u8,
                particle_quality: 3u8,
                vsync: true,
                fullscreen: false,
                resolution_width: 1920u32,
                resolution_height: 1080u32,
                anti_aliasing: 4u8,
                anisotropic_filtering: 16u8,
            }),
            r.network.preferred_region@ == "auto"@,
            r.network.max_ping == 200,
            r.network.connection_quality@ == "high"@,
            r.network.enable_ipv6 == true,
            r.network.data_usage_limit is None,
            r.rendering == (RenderingConfig {
                frame_rate_limit: Some(60u32),
                dynamic_lighting: true,
                post_processing: true,
                bloom: true,
                depth_of_field: false,
                motion_blur: false,
                ambient_occlusion: true,
                reflections: true,
                global_illumination: true,
            }),
            r.performance.low_latency_mode == false,
            r.performance.power_saving_mode == false,
            r.performance.background_performance@ == "normal"@,
            r.performance.memory_limit_mb is None,
            r.performance.cpu_affinity@.len() == 0,
            r.performance.gpu_preference@ == "high_performance"@,
            r.custom_flags@.len() == 0,
    {
        RobloxConfig {
            graphics: GraphicsConfig::default(),
            network: NetworkConfig::default(),
            rendering: RenderingConfig::default(),
            performance: PerformanceConfig::default(),
            custom_flags: Vec::new(),
        }
    }
}

/// One discovered copy of the client: root path, version label, channel tag
/// and last-modified timestamp. Immutable once produced; a fresh set is
/// recomputed on every discovery call.
#[derive(Clone, Debug, PartialEq)]
pub struct RobloxInstallation {
    pub path: String,
    pub version: String,
    pub channel: String,
    pub last_modified: String,
}

/// A user record of the external web API.
#[derive(Clone, Debug, PartialEq)]
pub struct UserInfo {
    pub id: u64,
    pub name: String,
    pub display_name: String,
    pub description: String,
    pub created: String,
    pub is_banned: bool,
}

/// A creator reference inside game or asset records.
#[derive(Clone, Debug, PartialEq)]
pub struct Creator {
    pub id: u64,
    pub name: String,
    pub creator_type: String,
}

/// A game record of the external web API.
#[derive(Clone, Debug, PartialEq)]
pub struct GameInfo {
    pub id: u64,
    pub name: String,
    pub description: String,
    pub creator: Creator,
    pub price: Option<u64>,
    pub playing: u64,
    pub visits: u64,
    pub favorites: u64,
    pub max_players: u32,
    pub genre: String,
}

/// An asset record of the external web API.
#[derive(Clone, Debug, PartialEq)]
pub struct AssetDetails {
    pub id: u64,
    pub name: String,
    pub description: String,
    pub asset_type: String,
    pub creator: Creator,
    pub price: Option<u64>,
    pub is_for_sale: bool,
    pub is_limited: bool,
    pub is_limited_unique: bool,
    pub remaining: Option<u64>,
}

/// A cached asset's metadata.
#[derive(Clone, Debug, PartialEq)]
pub struct AssetInfo {
    pub asset_id: u64,
    pub name: String,
    pub description: String,
    pub creator: String,
    pub asset_type: String,
    pub created: String,
    pub updated: String,
}

/// The uniform response envelope of the boundary REST layer.
#[derive(Clone, Debug, PartialEq)]
pub struct ApiResponse<T> {
    pub success: bool,
    pub data: Option<T>,
    pub error: Option<String>,
}

impl<T> ApiResponse<T> {
    /// A successful envelope around a payload.
    pub fn success(data: T) -> (r: Self)
        ensures
            r.success == true,
            r.data == Some(data),
            r.error is None,
    {
        ApiResponse { success: true, data: Some(data), error: None }
    }

    /// A failure envelope around a message.
    pub fn error(message: String) -> (r: Self)
        ensures
            r.success == false,
            r.data is None,
            r.error == Some(message),
    {
        ApiResponse { success: false, data: None, error: Some(message) }
    }
}

/// The requested size class of a thumbnail.
#[derive(Clone, Copy, Debug, PartialEq, Eq, Structural)]
pub enum ThumbnailSize {
    Small,
    Medium,
    Large,
}

/// A named group of overlay flags offered as a preset.
#[derive(Clone, Debug, PartialEq)]
pub struct FlagPreset {
    pub name: String,
    pub description: String,
    pub flags: Vec<(String, String)>,
}

/// The latest client version and where its deployment lives.
#[derive(Clone, Debug, PartialEq)]
pub struct VersionInfo {
    pub version: String,
    pub deployment_url: String,
}

} // verus!
