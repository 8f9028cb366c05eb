use vstd::prelude::*;

verus! {

/// A response of the backend API.
#[derive(Debug)]
pub struct ApiResponse<T> {
    pub status: i32,
    pub msg: String,
    pub data: Option<T>,
    pub code: Option<String>,
}

/// A release of this tool, as the backend announces it.
#[derive(Debug)]
pub struct VersionInfo {
    pub version: String,
    pub force_update: bool,
    pub download_url: String,
    pub change_log: String,
}

/// The answer to a login.
#[derive(Debug)]
pub struct LoginResponse {
    pub token: Option<String>,
    pub user_info: Option<UserInfo>,
}

/// A user of the backend and their quota.
#[derive(Debug)]
pub struct UserInfo {
    pub total_count: i32,
    pub used_count: i32,
    pub expire_time: String,
    pub level: i32,
    pub is_expired: bool,
    pub username: String,
}

/// An account of the pool.
#[derive(Debug)]
pub struct AccountInfo {
    pub id: i32,
    pub account: String,
    pub password: String,
    pub token: String,
    pub usage_count: i32,
    pub status: i32,
    pub create_time: String,
    pub distributed_time: String,
    pub update_time: String,
}

/// An account's email and credential.
#[derive(Debug)]
pub struct AccountDetail {
    pub email: String,
    pub token: String,
}

/// The answer to an activation.
#[derive(Debug)]
pub struct ActivateResponse {
    pub expire_time: i64,
    pub level: i32,
}

/// An activation code and its use.
#[derive(Debug)]
pub struct ActivationCode {
    pub id: i32,
    pub code: String,
    pub kind: i32,
    pub name: String,
    pub level: i32,
    pub duration: i32,
    pub max_uses: i32,
    pub used_count: i32,
    pub status: i32,
    pub notes: String,
    pub activated_at: String,
    pub expired_at: String,
}

/// An account handed out by the pool, with the code it was handed out for.
#[derive(Debug)]
pub struct AccountPoolInfo {
    pub success: bool,
    pub account_info: AccountInfo,
    pub activation_code: ActivationCode,
}

} // verus!
