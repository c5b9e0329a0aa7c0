//! The compute halves of the external web API client and the asset cache:
//! request URL derivation, cache file naming, and the records built from
//! the replies' optional fields with their documented defaults. Sending
//! requests and moving bytes are the boundary layer's work.

use crate::models::{AssetDetails, Creator, GameInfo, ThumbnailSize, UserInfo};
use crate::text::{dec_digits, u64_to_string};
use vstd::prelude::*;

verus! {

/// The web API client and its three service hosts.
pub struct RobloxApiClient {
    pub base_url: String,
    pub games_api_url: String,
    pub economy_api_url: String,
}

pub open spec fn opt_str_or(o: Option<String>, dflt: Seq<char>) -> Seq<char> {
    match o {
        Some(s) => s@,
        None => dflt,
    }
}

pub open spec fn opt_u64_or(o: Option<u64>, dflt: u64) -> u64 {
    match o {
        Some(n) => n,
        None => dflt,
    }
}

fn str_or(o: Option<String>, dflt: &str) -> (r: String)
    ensures
        r@ == opt_str_or(o, dflt@),
{
    match o {
        Some(s) => s,
        None => dflt.to_owned(),
    }
}

fn u64_or(o: Option<u64>, dflt: u64) -> (r: u64)
    ensures
        r == opt_u64_or(o, dflt),
{
    match o {
        Some(n) => n,
        None => dflt,
    }
}

impl RobloxApiClient {
    /// The fixed service hosts.
    pub fn new() -> (r: RobloxApiClient)
        ensures
            r.base_url@ == "https://users.roblox.com/v1"@,
            r.games_api_url@ == "https://games.roblox.com/v1"@,
            r.economy_api_url@ == "https://economy.roblox.com/v2"@,
    {
        RobloxApiClient {
            base_url: "https://users.roblox.com/v1".to_owned(),
            games_api_url: "https://games.roblox.com/v1".to_owned(),
            economy_api_url: "https://economy.roblox.com/v2".to_owned(),
        }
    }

    /// The user-record endpoint for one user id.
    pub fn user_info_url(&self, user_id: u64) -> (r: String)
        ensures
            r@ == self.base_url@ + "/users/"@ + dec_digits(user_id as int),
    {
        let mut s = self.base_url.clone();
        s.append("/users/");
        let id = u64_to_string(user_id);
        s.append(id.as_str());
        s
    }

    /// The game-record endpoint for one universe id.
    pub fn game_info_url(&self, universe_id: u64) -> (r: String)
        ensures
            r@ == self.games_api_url@ + "/games?universeIds="@ + dec_digits(universe_id as int),
    {
        let mut s = self.games_api_url.clone();
        s.append("/games?universeIds=");
        let id = u64_to_string(universe_id);
        s.append(id.as_str());
        s
    }

    /// The asset-details endpoint for one asset id.
    pub fn asset_details_url(&self, asset_id: u64) -> (r: String)
        ensures
            r@ == self.economy_api_url@ + "/assets/"@ + dec_digits(asset_id as int) + "/details"@,
    {
        let mut s = self.economy_api_url.clone();
        s.append("/assets/");
        let id = u64_to_string(asset_id);
        s.append(id.as_str());
        s.append("/details");
        s
    }

    /// The fixed client-version endpoint.
    pub fn client_version_url(&self) -> (r: String)
        ensures
            r@ == "https://clientsettingscdn.roblox.com/v2/client-version/WindowsPlayer"@,
    {
        "https://clientsettingscdn.roblox.com/v2/client-version/WindowsPlayer".to_owned()
    }

    /// The user-search endpoint for one keyword, limited to ten hits.
    pub fn search_users_url(&self, keyword: &str) -> (r: String)
        ensures
            r@ == self.base_url@ + "/users/search?keyword="@ + keyword@ + "&limit=10"@,
    {
        let mut s = self.base_url.clone();
        s.append("/users/search?keyword=");
        s.append(keyword);
        s.append("&limit=10");
        s
    }
}

/// A user record from the reply's optional fields, each missing field
/// taking its documented default.
pub fn user_info_from_parts(
    id: Option<u64>,
    name: Option<String>,
    display_name: Option<String>,
    description: Option<String>,
    created: Option<String>,
    is_banned: Option<bool>,
) -> (r: UserInfo)
    ensures
        r.id == opt_u64_or(id, 0),
        r.name@ == opt_str_or(name, ""@),
        r.display_name@ == opt_str_or(display_name, ""@),
        r.description@ == opt_str_or(description, ""@),
        r.created@ == opt_str_or(created, ""@),
        r.is_banned == (is_banned matches Some(true)),
{
    UserInfo {
        id: u64_or(id, 0),
        name: str_or(name, ""),
        display_name: str_or(display_name, ""),
        description: str_or(description, ""),
        created: str_or(created, ""),
        is_banned: match is_banned {
            Some(b) => b,
            None => false,
        },
    }
}

/// A search hit carries only id, name and display name; the other fields
/// are empty and the ban flag is clear.
pub fn search_hit_from_parts(
    id: Option<u64>,
    name: Option<String>,
    display_name: Option<String>,
) -> (r: UserInfo)
    ensures
        r.id == opt_u64_or(id, 0),
        r.name@ == opt_str_or(name, ""@),
        r.display_name@ == opt_str_or(display_name, ""@),
        r.description@.len() == 0,
        r.created@.len() == 0,
        r.is_banned == false,
{
    UserInfo {
        id: u64_or(id, 0),
        name: str_or(name, ""),
        display_name: str_or(display_name, ""),
        description: String::new(),
        created: String::new(),
        is_banned: false,
    }
}

/// A creator reference from the reply's optional fields.
pub fn creator_from_parts(id: Option<u64>, name: Option<String>, creator_type: Option<String>) -> (r:
    Creator)
    ensures
        r.id == opt_u64_or(id, 0),
        r.name@ == opt_str_or(name, ""@),
        r.creator_type@ == opt_str_or(creator_type, ""@),
{
    Creator { id: u64_or(id, 0), name: str_or(name, ""), creator_type: str_or(creator_type, "") }
}

/// A game record from the reply's optional fields. The price stays optional
/// (absence means not for sale, not zero); the max-player count is clamped
/// to the counter's width by the boundary layer.
pub fn game_info_from_parts(
    id: Option<u64>,
    name: Option<String>,
    description: Option<String>,
    creator: Creator,
    price: Option<u64>,
    playing: Option<u64>,
    visits: Option<u64>,
    favorites: Option<u64>,
    max_players: Option<u32>,
    genre: Option<String>,
) -> (r: GameInfo)
    ensures
        r.id == opt_u64_or(id, 0),
        r.name@ == opt_str_or(name, ""@),
        r.description@ == opt_str_or(description, ""@),
        r.creator == creator,
        r.price == price,
        r.playing == opt_u64_or(playing, 0),
        r.visits == opt_u64_or(visits, 0),
        r.favorites == opt_u64_or(favorites, 0),
        r.max_players == (match max_players {
            Some(n) => n,
            None => 0u32,
        }),
        r.genre@ == opt_str_or(genre, ""@),
{
    GameInfo {
        id: u64_or(id, 0),
        name: str_or(name, ""),
        description: str_or(description, ""),
        creator,
        price,
        playing: u64_or(playing, 0),
        visits: u64_or(visits, 0),
        favorites: u64_or(favorites, 0),
        max_players: match max_players {
            Some(n) => n,
            None => 0,
        },
        genre: str_or(genre, ""),
    }
}

/// An asset record from the reply's optional fields. The asset type is the
/// numeric type id printed in decimal.
pub fn asset_details_from_parts(
    id: Option<u64>,
    name: Option<String>,
    description: Option<String>,
    asset_type_id: Option<u64>,
    creator: Creator,
    price: Option<u64>,
    is_for_sale: Option<bool>,
    is_limited: Option<bool>,
    is_limited_unique: Option<bool>,
    remaining: Option<u64>,
) -> (r: AssetDetails)
    ensures
        r.id == opt_u64_or(id, 0),
        r.name@ == opt_str_or(name, ""@),
        r.description@ == opt_str_or(description, ""@),
        r.asset_type@ == dec_digits(opt_u64_or(asset_type_id, 0) as int),
        r.creator == creator,
        r.price == price,
        r.is_for_sale == (is_for_sale matches Some(true)),
        r.is_limited == (is_limited matches Some(true)),
        r.is_limited_unique == (is_limited_unique matches Some(true)),
        r.remaining == remaining,
{
    AssetDetails {
        id: u64_or(id, 0),
        name: str_or(name, ""),
        description: str_or(description, ""),
        asset_type: u64_to_string(u64_or(asset_type_id, 0)),
        creator,
        price,
        is_for_sale: match is_for_sale {
            Some(b) => b,
            None => false,
        },
        is_limited: match is_limited {
            Some(b) => b,
            None => false,
        },
        is_limited_unique: match is_limited_unique {
            Some(b) => b,
            None => false,
        },
        remaining,
    }
}

/// The client version read from the version endpoint's reply: the
/// client-version-upload field, or `unknown` when the reply lacks it.
pub fn client_version_from(upload: Option<String>) -> (r: String)
    ensures
        match upload {
            Some(v) => r@ == v@,
            None => r@ == "unknown"@,
        },
{
    match upload {
        Some(v) => v,
        None => "unknown".to_owned(),
    }
}

/// The dimension text of a thumbnail size class.
pub fn thumbnail_size_str(size: ThumbnailSize) -> (r: &'static str)
    ensures
        size == ThumbnailSize::Small ==> r@ == "150x150"@,
        size == ThumbnailSize::Medium ==> r@ == "420x420"@,
        size == ThumbnailSize::Large ==> r@ == "768x432"@,
    {
    match size {
        ThumbnailSize::Small => "150x150",
        ThumbnailSize::Medium => "420x420",
        ThumbnailSize::Large => "768x432",
    }
}

/// The cache file name of a downloaded asset.
pub fn asset_cache_file_name(asset_id: u64) -> (r: String)
    ensures
        r@ == dec_digits(asset_id as int) + ".rbxm"@,
{
    let mut s = u64_to_string(asset_id);
    s.append(".rbxm");
    s
}

/// The cache file name of a thumbnail at a size class.
pub fn thumbnail_cache_file_name(asset_id: u64, size: ThumbnailSize) -> (r: String)
    ensures
        size == ThumbnailSize::Small ==> r@ == dec_digits(asset_id as int) + "_"@ + "150x150"@
            + ".png"@,
        size == ThumbnailSize::Medium ==> r@ == dec_digits(asset_id as int) + "_"@ + "420x420"@
            + ".png"@,
        size == ThumbnailSize::Large ==> r@ == dec_digits(asset_id as int) + "_"@ + "768x432"@
            + ".png"@,
{
    let mut s = u64_to_string(asset_id);
    s.append("_");
    s.append(thumbnail_size_str(size));
    s.append(".png");
    s
}

/// The cache file name of a game icon.
pub fn game_icon_cache_file_name(universe_id: u64) -> (r: String)
    ensures
        r@ == "game_"@ + dec_digits(universe_id as int) + ".png"@,
{
    let mut s = "game_".to_owned();
    let id = u64_to_string(universe_id);
    s.append(id.as_str());
    s.append(".png");
    s
}

/// The asset-delivery URL for one asset id.
pub fn asset_url(asset_id: u64) -> (r: String)
    ensures
        r@ == "https://assetdelivery.roblox.com/v1/asset/?id="@ + dec_digits(asset_id as int),
{
    let mut s = "https://assetdelivery.roblox.com/v1/asset/?id=".to_owned();
    let id = u64_to_string(asset_id);
    s.append(id.as_str());
    s
}

/// The thumbnail-lookup URL for one asset id and size class.
pub fn thumbnail_url(asset_id: u64, size: ThumbnailSize) -> (r: String)
    ensures
        size == ThumbnailSize::Small ==> r@ == "https://thumbnails.roblox.com/v1/assets?assetIds="@
            + dec_digits(asset_id as int) + "&size="@ + "150x150"@ + "&format=Png"@,
        size == ThumbnailSize::Medium ==> r@ == "https://thumbnails.roblox.com/v1/assets?assetIds="@
            + dec_digits(asset_id as int) + "&size="@ + "420x420"@ + "&format=Png"@,
        size == ThumbnailSize::Large ==> r@ == "https://thumbnails.roblox.com/v1/assets?assetIds="@
            + dec_digits(asset_id as int) + "&size="@ + "768x432"@ + "&format=Png"@,
{
    let mut s = "https://thumbnails.roblox.com/v1/assets?assetIds=".to_owned();
    let id = u64_to_string(asset_id);
    s.append(id.as_str());
    s.append("&size=");
    s.append(thumbnail_size_str(size));
    s.append("&format=Png");
    s
}

/// The game-icon-lookup URL for one universe id.
pub fn game_icon_url(universe_id: u64) -> (r: String)
    ensures
        r@ == "https://thumbnails.roblox.com/v1/games/icons?universeIds="@ + dec_digits(
            universe_id as int,
        ) + "&size=512x512&format=Png"@,
{
    let mut s = "https://thumbnails.roblox.com/v1/games/icons?universeIds=".to_owned();
    let id = u64_to_string(universe_id);
    s.append(id.as_str());
    s.append("&size=512x512&format=Png");
    s
}

} // verus!
