//! MangaLife: what the source tells of itself.
use crate::models::SourceInfo;
use vstd::prelude::*;

verus! {

/// The number of the source.
pub const ID: i64 = 4;

/// The name of the source.
pub const NAME: &'static str = "MangaLife";

/// The address of the site.
pub const URL: &'static str = "https://weebcentral.com";

/// The address of the site's icon.
pub const ICON: &'static str = "https://manga4life.com/media/favicon.png";

/// What the source tells of itself.
pub fn get_source_info() -> (info: SourceInfo)
    ensures
        info.id == ID,
        info.name@ == NAME@,
        info.url@ == URL@,
        info.icon@ == ICON@,
        info.language@ == "en"@,
        !info.nsfw,
{
    SourceInfo { id: ID, name: NAME, url: URL, icon: ICON, language: "en", nsfw: false }
}

/// What the source is: its number, its name, its address and its icon.
pub proof fn law_this_source()
    ensures
        ID == 4,
        NAME@ == "MangaLife"@,
        URL@ == "https://weebcentral.com"@,
        ICON@ == "https://manga4life.com/media/favicon.png"@,
{
}

} // verus!
