//! Replies of the desktop shell's commands, and the user roles and token claims of its
//! sign-in layer.

use vstd::prelude::*;

verus! {

/// Reply to a proxy command.
#[derive(Debug, Clone)]
pub struct ProxyResponse {
    pub success: bool,
    pub message: String,
}

/// Reply to a browser-settings command.
#[derive(Debug, Clone)]
pub struct BrowserResponse {
    pub success: bool,
    pub message: String,
}

/// Reply to a storage command (cookies, history, bookmarks).
#[derive(Debug, Clone)]
pub struct StorageResponse {
    pub success: bool,
    pub message: String,
}

/// Reply to a backup command.
#[derive(Debug, Clone)]
pub struct BackupResponse {
    pub success: bool,
    pub message: String,
    pub backup_id: Option<String>,
}

/// Reply to opening a tab with a virtual IP.
#[derive(Debug, Clone)]
pub struct TabResponse {
    pub tab_id: String,
    pub ip: String,
    pub country_code: String,
    pub country_name: String,
    pub city: String,
    pub timezone: String,
    pub isp: String,
}

/// Role of a signed-in user.
#[derive(Debug, Clone, Copy, PartialEq, Eq, Structural)]
pub enum UserRole {
    User,
    Admin,
    Enterprise,
}

/// Claims carried by an access token.
#[derive(Debug)]
pub struct Claims {
    /// User id.
    pub sub: String,
    pub username: String,
    pub role: UserRole,
    pub enterprise_id: Option<String>,
    /// Expiry, in seconds since the Unix epoch.
    pub exp: i64,
    /// Issue time, in seconds since the Unix epoch.
    pub iat: i64,
    /// Token id.
    pub jti: String,
}

} // verus!
