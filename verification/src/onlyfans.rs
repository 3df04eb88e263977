//! Data of the second site, as its responses describe it.

use vstd::prelude::*;

verus! {

#[derive(Debug)]
pub struct DynamicRule {
    pub app_token: String,
    pub checksum_constant: i64,
    pub checksum_indexes: Vec<i64>,
    pub error_code: i64,
    pub format: String,
    pub message: String,
    pub remove_headers: Vec<String>,
    pub static_param: String,
}

#[derive(Debug)]
pub struct HasNewTicketReplies {
    pub open: bool,
    pub solved: bool,
    pub closed: bool,
}

#[derive(Debug)]
pub struct AvatarThumbs {
    pub c50: String,
    pub c144: String,
}

#[derive(Debug)]
pub struct HeaderSize {
    pub width: i64,
    pub height: i64,
}

#[derive(Debug)]
pub struct HeaderThumbs {
    pub w480: String,
    pub w760: String,
}

#[derive(Debug)]
pub struct ListsState {
    pub id: i64,
    pub lists_state_type: String,
    pub name: String,
    pub has_user: bool,
    pub can_add_user: bool,
}

} // verus!
