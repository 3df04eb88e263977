//! Stories of an account.

use vstd::prelude::*;

verus! {

#[derive(Debug)]
pub struct Story {
    pub id: String,
    pub account_id: Option<String>,
    pub content_type: Option<i64>,
    pub content_id: Option<String>,
    pub created_at: i64,
    pub updated_at: i64,
}

} // verus!
