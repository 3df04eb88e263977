//! Message groups and their messages.

use vstd::prelude::*;

use super::post::Attachment;

verus! {

#[derive(Debug)]
pub struct MessageGroup {
    pub id: String,
    pub message_group_type: i64,
    pub group_flags: i64,
    pub created_by: String,
    pub users: Vec<MessageUser>,
    pub recipients: Vec<String>,
}

#[derive(Debug)]
pub struct MessageUser {
    pub group_id: String,
    pub user_id: String,
    pub user_type: i64,
}

#[derive(Debug)]
pub struct Message {
    pub id: String,
    pub group_id: String,
    pub sender_id: String,
    pub message_type: Option<i64>,
    pub content: String,
    pub created_at: i64,
    pub attachments: Vec<Attachment>,
    pub likes: Vec<Like>,
    pub total_tip_amount: i64,
}

#[derive(Debug)]
pub struct Like {
    pub id: String,
    pub account_id: String,
    pub like_type: i64,
}

} // verus!
