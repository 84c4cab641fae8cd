//! What the hub tells everyone of itself.
use vstd::prelude::*;
use crate::hub::auth::{level_of, read_level};
use crate::text::{is_text, opt_text};

verus! {

pub struct HealthResponse {
    pub status: String,
}

/// What the hub asks for, and where it belongs to.
pub struct InfoResponse {
    pub name: String,
    pub description: Option<String>,
    pub icon: Option<String>,
    pub version: String,
    pub public_key: String,
    pub min_security_level: u32,
    pub min_pow_level: u8,
    pub invite_only: bool,
    pub challenge_mode: String,
    pub farm_url: Option<String>,
}

/// How the hub presents itself.
pub struct Branding {
    pub name: String,
    pub description: Option<String>,
    pub icon: Option<String>,
}

/// The settings that the hub makes known, as they are stored.
pub struct InfoSettings {
    pub min_security_level: Option<String>,
    pub min_pow_level: Option<String>,
    pub invite_only: Option<String>,
    pub challenge_mode: Option<String>,
}

/// That the hub is well.
pub fn health() -> (r: HealthResponse)
    ensures
        r.status@ == "ok"@,
{
    HealthResponse { status: "ok".to_owned() }
}

/// What the hub tells everyone of itself. A setting that is absent or cannot be read asks for
/// nothing.
pub fn info(
    branding: Branding,
    version: &str,
    public_key: &str,
    settings: &InfoSettings,
    farm_url: Option<String>,
) -> (r: InfoResponse)
    ensures
        r.name == branding.name,
        r.description == branding.description,
        r.icon == branding.icon,
        r.version@ == version@,
        r.public_key@ == public_key@,
        r.min_security_level == level_of(opt_text(settings.min_security_level), u32::MAX as nat),
        r.min_pow_level == level_of(opt_text(settings.min_pow_level), u8::MAX as nat),
        r.invite_only == (opt_text(settings.invite_only) == Some("true"@)),
        r.challenge_mode@ == match settings.challenge_mode {
            Some(m) => m@,
            None => "off"@,
        },
        r.farm_url == farm_url,
{
    let challenge_mode: String = match &settings.challenge_mode {
        Some(m) => m.clone(),
        None => "off".to_owned(),
    };
    InfoResponse {
        name: branding.name,
        description: branding.description,
        icon: branding.icon,
        version: version.to_owned(),
        public_key: public_key.to_owned(),
        min_security_level: read_level(&settings.min_security_level, u32::MAX as u64) as u32,
        min_pow_level: read_level(&settings.min_pow_level, u8::MAX as u64) as u8,
        invite_only: is_text(&settings.invite_only, "true"),
        challenge_mode,
        farm_url,
    }
}

/// What the hub says that it asks for is what it asks for at the door: a level that is absent or
/// no number is none, an invitation is asked for only where the setting says so, and there are no
/// puzzles unless a mode is set.
pub proof fn the_hub_tells_what_it_asks_for(
    branding: Branding,
    version: &str,
    key: &str,
    settings: &InfoSettings,
    farm_url: Option<String>,
    r: InfoResponse,
    h: HealthResponse,
    level: u64,
    work: u64,
)
    requires
        call_ensures(info, (branding, version, key, settings, farm_url), r),
        call_ensures(health, (), h),
        call_ensures(read_level, (&settings.min_security_level, 4294967295), level),
        call_ensures(read_level, (&settings.min_pow_level, 255), work),
    ensures
        r.name == branding.name && r.description == branding.description && r.icon == branding.icon,
        r.version@ == version@ && r.public_key@ == key@ && r.farm_url == farm_url,
        r.min_security_level == level,
        r.min_pow_level == work,
        settings.min_security_level is None ==> r.min_security_level == 0,
        settings.min_pow_level is None ==> r.min_pow_level == 0,
        r.invite_only <==> settings.invite_only is Some && settings.invite_only->0@ == "true"@,
        settings.challenge_mode is None ==> r.challenge_mode@ == "off"@,
        settings.challenge_mode matches Some(m) ==> r.challenge_mode@ == m@,
        h.status@ == "ok"@,
{
}

} // verus!
