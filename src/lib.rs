//! Verified core of an IPTV proxy: the credential cipher, the login handshake
//! and session reuse, channel catalog extraction, guide aggregation, the
//! published playlist and the last-good-result cache.

mod catalog;
mod channel;
mod config;
mod crypto;
mod daterange;
mod directory;
mod epg;
mod error;
mod guide;
mod naming;
mod playlist;
mod request;
mod resilience;
mod session;
mod text;
mod xmltv;

pub use catalog::parse_channel_list;
pub use channel::{Channel, ChannelView, Program, ProgramView};
pub use config::{Args, IptvConfig, M3u8Config, ServerConfig, YamlConfig};
pub use crypto::{decrypt_auth_blob, encode_auth, encode_auth_with_nonce};
pub use daterange::{bulk_guide_window, cal_date_range, DAY_MS, ZONE_OFFSET_MS};
pub use directory::{
    build_mappings, get_channel_id_by_tvgname, update_global_mappings, ChannelDirectory, IdTable, NameTable,
};
pub use epg::{
    epg_response, query_date, resolve_channel_id, timestamp_to_hhmm, to_xmltv_time, EpgItem, EpgQuery, EpgResponse,
};
pub use error::IptvError;
pub use guide::{bare_channel, channel_date_guide, merge_guide_results, replace_guide, Bill};
pub use naming::{format_channel_name, format_date_string, mask_password};
pub use playlist::{build_playlist, channel_group, playlist_header};
pub use request::{
    authorize_request, channel_list_request, discovery_request, guide_request, icon_request, token_request, Request,
};
pub use resilience::{ArtifactCache, ArtifactKind, Served};
pub use session::{
    base_url_from_epgurl, base_url_from_parts, Handshake, LoginAction, LoginEvent, LoginPhase, Session, SessionCache,
    SESSION_TTL_MS,
};
pub use xmltv::{xmltv_keeps_element, xmltv_keeps_start};
