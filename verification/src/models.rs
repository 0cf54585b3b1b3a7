//! The records of the camera fleet: users, places, cameras, mosaics,
//! captures, notifications, roles, share links and settings, and the value
//! that answers a request.

use crate::text::{push_signed_decimal, signed_decimal_text};
use vstd::prelude::*;

verus! {

/// A user account, with the hash of its password.
#[derive(Clone, Debug, PartialEq, Eq)]
pub struct User {
    pub id: i64,
    pub username: String,
    pub email: String,
    pub password_hash: String,
    pub role: String,
    pub active: bool,
    pub created_at: Option<String>,
    pub updated_at: Option<String>,
}

/// The role of a user for whom none is given.
pub fn default_user_role() -> (role: String)
    ensures
        role@ == "viewer"@,
{
    String::from_str("viewer")
}

/// A user account as shown to others: everything but the password hash.
#[derive(Clone, Debug, PartialEq, Eq)]
pub struct UserPublic {
    pub id: i64,
    pub username: String,
    pub email: String,
    pub role: String,
    pub active: bool,
    pub created_at: Option<String>,
    pub updated_at: Option<String>,
}

impl From<User> for UserPublic {
    fn from(u: User) -> (public: UserPublic) {
        UserPublic {
            id: u.id,
            username: u.username,
            email: u.email,
            role: u.role,
            active: u.active,
            created_at: u.created_at,
            updated_at: u.updated_at,
        }
    }
}

impl vstd::std_specs::convert::FromSpecImpl<User> for UserPublic {
    open spec fn obeys_from_spec() -> bool {
        true
    }

    open spec fn from_spec(u: User) -> UserPublic {
        UserPublic {
            id: u.id,
            username: u.username,
            email: u.email,
            role: u.role,
            active: u.active,
            created_at: u.created_at,
            updated_at: u.updated_at,
        }
    }
}

/// What is asked when a user is created.
#[derive(Clone, Debug, PartialEq, Eq)]
pub struct CreateUserRequest {
    pub username: String,
    pub email: String,
    pub password: String,
    pub role: String,
}

/// What is asked when a user is changed.
#[derive(Clone, Debug, PartialEq, Eq)]
pub struct UpdateUserRequest {
    pub username: String,
    pub email: String,
    pub password: Option<String>,
    pub role: String,
    pub active: bool,
}

/// What is asked by a user who forgot a password.
#[derive(Clone, Debug, PartialEq, Eq)]
pub struct ForgotPasswordRequest {
    pub email: String,
}

/// What is asked to set a new password with a reset token.
#[derive(Clone, Debug, PartialEq, Eq)]
pub struct ResetPasswordRequest {
    pub token: String,
    pub password: String,
}

/// A site where cameras stand.
#[derive(Clone, Debug, PartialEq, Eq)]
pub struct Location {
    pub id: i64,
    pub name: String,
    pub description: String,
    pub is_system: bool,
    pub created_at: Option<String>,
}

/// A part of a location.
#[derive(Clone, Debug, PartialEq, Eq)]
pub struct Area {
    pub id: i64,
    pub name: String,
    pub location_id: i64,
    pub description: String,
    pub created_at: Option<String>,
}

/// An area together with the name of its location.
#[derive(Clone, Debug, PartialEq, Eq)]
pub struct AreaWithLocation {
    pub id: i64,
    pub name: String,
    pub location_id: i64,
    pub location_name: String,
    pub description: String,
    pub created_at: Option<String>,
}

/// A camera: how to reach it, and what the media server does with it.
#[derive(Clone, Debug, PartialEq, Eq)]
pub struct Camera {
    pub id: i64,
    pub name: String,
    pub host: String,
    pub port: i64,
    pub username: String,
    pub password: String,
    pub path: String,
    pub protocol: String,
    pub enabled: bool,
    pub record: bool,
    pub source_on_demand: bool,
    pub location: String,
    pub area: String,
    pub created_at: Option<String>,
    pub updated_at: Option<String>,
}

/// The port of a camera for which none is given.
pub fn default_port() -> (port: i64)
    ensures
        port == 554,
{
    554
}

/// The stream path of a camera for which none is given.
pub fn default_path() -> (path: String)
    ensures
        path@ == "/defaultPrimary?streamType=m"@,
{
    String::from_str("/defaultPrimary?streamType=m")
}

/// The transport scheme of a camera for which none is given.
pub fn default_protocol() -> (protocol: String)
    ensures
        protocol@ == "rtsp"@,
{
    String::from_str("rtsp")
}

/// The value of a flag that is set unless said otherwise.
pub fn default_true() -> (flag: bool)
    ensures
        flag,
{
    true
}

/// The address under which a source is reached:
/// `protocol://host:port/path`, with `username:password@` before the host
/// when a user name is given.
pub open spec fn connection_url(
    protocol: Seq<char>,
    username: Seq<char>,
    password: Seq<char>,
    host: Seq<char>,
    port: i64,
    path: Seq<char>,
) -> Seq<char> {
    if username.len() == 0 {
        protocol + "://"@ + host + ":"@ + signed_decimal_text(port as int) + path
    } else {
        protocol + "://"@ + username + ":"@ + password + "@"@ + host + ":"@ + signed_decimal_text(
            port as int,
        ) + path
    }
}

/// Writes the address under which a source is reached.
pub fn connection_url_of(
    protocol: &str,
    username: &str,
    password: &str,
    host: &str,
    port: i64,
    path: &str,
) -> (url: String)
    ensures
        url@ == connection_url(protocol@, username@, password@, host@, port, path@),
{
    let mut url = String::from_str(protocol);
    url.append("://");
    if !username.is_empty() {
        url.append(username);
        url.append(":");
        url.append(password);
        url.append("@");
    }
    url.append(host);
    url.append(":");
    push_signed_decimal(&mut url, port);
    url.append(path);
    assert(url@ =~= connection_url(protocol@, username@, password@, host@, port, path@));
    url
}

impl Camera {
    /// The address of the camera's stream.
    pub open spec fn spec_rtsp_url(&self) -> Seq<char> {
        connection_url(
            self.protocol@,
            self.username@,
            self.password@,
            self.host@,
            self.port,
            self.path@,
        )
    }

    /// The address of the camera's stream.
    pub fn rtsp_url(&self) -> (url: String)
        ensures
            url@ == self.spec_rtsp_url(),
    {
        connection_url_of(
            self.protocol.as_str(),
            self.username.as_str(),
            self.password.as_str(),
            self.host.as_str(),
            self.port,
            self.path.as_str(),
        )
    }
}

/// A mosaic: a named grid of cameras, and whether its stream is running.
///
/// `active` and `pid` together are the activation state: an inactive mosaic
/// has no process, an active one has the process that was started for it.
#[derive(Clone, Debug, PartialEq, Eq)]
pub struct Mosaic {
    pub id: i64,
    pub name: String,
    pub layout: String,
    pub active: bool,
    pub pid: Option<i64>,
    pub created_at: Option<String>,
}

/// The layout of a mosaic for which none is given.
pub fn default_layout() -> (layout: String)
    ensures
        layout@ == "2x2"@,
{
    String::from_str("2x2")
}

/// A camera as a member of a mosaic, at a position of its grid.
#[derive(Clone, Debug, PartialEq, Eq)]
pub struct MosaicCamera {
    pub position: i64,
    pub camera_id: i64,
    pub camera_name: String,
    pub host: String,
    pub port: i64,
    pub username: String,
    pub password: String,
    pub path: String,
    pub protocol: String,
}

impl MosaicCamera {
    /// The address of the member's stream.
    pub open spec fn spec_url(&self) -> Seq<char> {
        connection_url(
            self.protocol@,
            self.username@,
            self.password@,
            self.host@,
            self.port,
            self.path@,
        )
    }

    /// The address of the member's stream.
    pub fn url(&self) -> (url: String)
        ensures
            url@ == self.spec_url(),
    {
        connection_url_of(
            self.protocol.as_str(),
            self.username.as_str(),
            self.password.as_str(),
            self.host.as_str(),
            self.port,
            self.path.as_str(),
        )
    }
}

/// A mosaic with its members, in the order of their positions.
#[derive(Clone, Debug, PartialEq, Eq)]
pub struct MosaicWithCameras {
    pub mosaic: Mosaic,
    pub cameras: Vec<MosaicCamera>,
}

/// A captured picture or video of a camera.
#[derive(Clone, Debug, PartialEq, Eq)]
pub struct Capture {
    pub id: i64,
    pub camera_id: i64,
    pub camera_name: String,
    pub capture_type: String,
    pub file_path: String,
    pub file_size: i64,
    pub created_at: Option<String>,
}

/// Which captures are asked for.
#[derive(Clone, Debug, PartialEq, Eq)]
pub struct CaptureQuery {
    pub camera_id: Option<i64>,
    pub date: Option<String>,
    pub capture_type: Option<String>,
}

/// A message to the operators.
#[derive(Clone, Debug, PartialEq, Eq)]
pub struct Notification {
    pub id: i64,
    pub category: String,
    pub title: String,
    pub message: String,
    pub severity: String,
    pub read: bool,
    pub created_at: Option<String>,
}

/// The severity of a notification for which none is given.
pub fn default_severity() -> (severity: String)
    ensures
        severity@ == "info"@,
{
    String::from_str("info")
}

/// A role that users can have.
#[derive(Clone, Debug, PartialEq, Eq)]
pub struct Role {
    pub id: i64,
    pub name: String,
    pub description: String,
    pub is_system: bool,
    pub created_at: Option<String>,
}

/// What a role may do in one module.
#[derive(Clone, Debug, PartialEq, Eq)]
pub struct Permission {
    pub id: i64,
    pub role_id: i64,
    pub module: String,
    pub can_view: bool,
    pub can_create: bool,
    pub can_edit: bool,
    pub can_delete: bool,
}

/// A role with all its permissions.
#[derive(Clone, Debug, PartialEq, Eq)]
pub struct RoleWithPermissions {
    pub role: Role,
    pub permissions: Vec<Permission>,
}

/// What is asked when a role is created.
#[derive(Clone, Debug, PartialEq, Eq)]
pub struct CreateRoleRequest {
    pub name: String,
    pub description: String,
    pub permissions: Vec<PermissionInput>,
}

/// What is asked when a role is changed.
#[derive(Clone, Debug, PartialEq, Eq)]
pub struct UpdateRoleRequest {
    pub name: String,
    pub description: String,
    pub permissions: Vec<PermissionInput>,
}

/// A permission as given in a request.
#[derive(Clone, Debug, PartialEq, Eq)]
pub struct PermissionInput {
    pub module: String,
    pub can_view: bool,
    pub can_create: bool,
    pub can_edit: bool,
    pub can_delete: bool,
}

/// A link that shares a mosaic with outsiders for a while.
#[derive(Clone, Debug, PartialEq, Eq)]
pub struct MosaicShare {
    pub id: i64,
    pub mosaic_id: i64,
    pub mosaic_name: String,
    pub token: String,
    pub emails: String,
    pub expires_at: String,
    pub schedule_start: Option<String>,
    pub schedule_end: Option<String>,
    pub active: bool,
    pub created_at: Option<String>,
}

/// What is asked when a mosaic is shared.
#[derive(Clone, Debug, PartialEq, Eq)]
pub struct CreateMosaicShareRequest {
    pub mosaic_id: i64,
    pub emails: Vec<String>,
    pub duration_hours: i64,
    pub schedule_start: Option<String>,
    pub schedule_end: Option<String>,
}

/// A setting of the installation.
#[derive(Clone, Debug, PartialEq, Eq)]
pub struct Setting {
    pub key: String,
    pub value: String,
}

/// What is asked when a mosaic is created.
#[derive(Clone, Debug, PartialEq, Eq)]
pub struct CreateMosaicRequest {
    pub name: String,
    pub layout: String,
    pub camera_ids: Vec<i64>,
}

/// What is asked when a mosaic is changed.
#[derive(Clone, Debug, PartialEq, Eq)]
pub struct UpdateMosaicRequest {
    pub name: String,
    pub layout: String,
    pub camera_ids: Vec<i64>,
}

/// Which cameras are asked for.
#[derive(Clone, Debug, PartialEq, Eq)]
pub struct CameraQuery {
    pub search: Option<String>,
}

impl Default for CameraQuery {
    fn default() -> (query: CameraQuery)
        ensures
            query.search is None,
    {
        CameraQuery { search: None }
    }
}

/// The answer to a request: the data when it succeeded, the reason when it
/// did not.
#[derive(Clone, Debug, PartialEq, Eq)]
pub struct ApiResponse<T> {
    pub success: bool,
    pub data: Option<T>,
    pub error: Option<String>,
}

impl<T> ApiResponse<T> {
    /// The answer to a request that succeeded with `data`.
    pub fn ok(data: T) -> (response: Self)
        ensures
            response.success,
            response.data == Some(data),
            response.error is None,
    {
        ApiResponse { success: true, data: Some(data), error: None }
    }

    /// The answer to a request that failed because of `msg`.
    pub fn err(msg: &str) -> (response: Self)
        ensures
            !response.success,
            response.data is None,
            response.error is Some,
            response.error->0@ == msg@,
    {
        ApiResponse { success: false, data: None, error: Some(String::from_str(msg)) }
    }
}

/// Where the latest thumbnail of a camera is served, if it has one.
#[derive(Clone, Debug, PartialEq, Eq)]
pub struct ThumbnailResponse {
    pub camera_id: i64,
    pub thumbnail_url: Option<String>,
}

/// Whether the media server has the stream of a camera ready.
#[derive(Clone, Debug, PartialEq, Eq)]
pub struct CameraStatus {
    pub name: String,
    pub ready: bool,
}

/// Which share links are asked for.
#[derive(Clone, Debug, PartialEq, Eq)]
pub struct ShareListQuery {
    pub mosaic_id: Option<i64>,
}

/// What the holder of a valid share link is given.
#[derive(Clone, Debug, PartialEq, Eq)]
pub struct ShareAccess {
    pub mosaic_name: String,
    pub stream_name: String,
    pub expires_at: String,
    pub schedule_start: Option<String>,
    pub schedule_end: Option<String>,
    pub is_active: bool,
}

/// The latest notifications and how many are unread.
#[derive(Clone, Debug, PartialEq, Eq)]
pub struct NotificationSummary {
    pub unread_count: i64,
    pub notifications: Vec<Notification>,
}

/// A line of the log of the backup synchronisation.
#[derive(Clone, Debug, PartialEq, Eq)]
pub struct SyncLog {
    pub timestamp: String,
    pub message: String,
    pub level: String,
}

} // verus!
