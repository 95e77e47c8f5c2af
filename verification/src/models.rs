use vstd::prelude::*;

verus! {

/// A service shown on the dashboard.
#[derive(Debug, Clone, PartialEq)]
pub struct Service {
    pub title: String,
    pub url: String,
    pub description: String,
    pub github_url: Option<String>,
    /// Resolved URL path to the icon (e.g. /icons/<hash>.svg).
    pub icon: Option<String>,
}

/// The services of one category.
#[derive(Debug, Clone, PartialEq)]
pub struct Category {
    pub category: String,
    pub services: Vec<Service>,
}

/// An icon of the shared icon library.
#[derive(Debug, Clone, PartialEq)]
pub struct IconRecord {
    pub id: i64,
    /// Unique display name for the icon (used in the findit.icon Docker label).
    pub name: String,
    /// URL path served to the browser, e.g. /icons/<sha256>.svg.
    pub path: String,
}

/// A service added by hand in the admin panel, with its icon resolved.
#[derive(Debug, Clone, PartialEq)]
pub struct ManualServiceRecord {
    pub id: i64,
    pub title: String,
    pub url: String,
    pub description: String,
    pub category: String,
    pub github_url: Option<String>,
    pub icon_id: Option<i64>,
    pub icon_name: Option<String>,
    pub icon_path: Option<String>,
}

/// Whether the current request is signed in, and as whom.
#[derive(Debug, Clone, PartialEq)]
pub struct AuthStatus {
    pub authenticated: bool,
    pub display_name: Option<String>,
}

} // verus!
