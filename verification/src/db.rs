use vstd::prelude::*;

pub use crate::server::db::sha256_hex;
use crate::text::joined;

verus! {

/// Path to the SQLite database file.
pub fn db_path() -> (r: String)
    ensures
        r@ == "./data/data.db"@,
{
    "./data/data.db".to_owned()
}

/// Directory where uploaded icons are stored on disk.
pub fn icons_dir() -> (r: String)
    ensures
        r@ == "./data/icons"@,
{
    "./data/icons".to_owned()
}

/// URL prefix under which icons are served by the browser.
pub const ICONS_URL_PREFIX: &'static str = "/data/icons";

/// The URL path of the icon stored as `filename`.
pub fn icon_url_path(filename: &str) -> (r: String)
    ensures
        r@ == "/data/icons/"@ + filename@,
{
    joined("/data/icons/", filename)
}

} // verus!
