//! The envelopes of the site's responses.

use vstd::prelude::*;

use super::structs::{Account, FollowedAccount, Media, MediaBundle, Story, Transaction, WalletTransaction};

verus! {

/// Every response of the site: its payload and whether the call succeeded.
#[derive(Debug)]
pub struct FanslyResponse<T> {
    pub response: T,
    pub success: bool,
}

pub type AccountStoriesResponse = FanslyResponse<Vec<Story>>;

pub type AccountsResponse = FanslyResponse<Vec<Account>>;

pub type FollowedAccountsResponse = FanslyResponse<Vec<FollowedAccount>>;

pub type GroupMessagesResponse = FanslyResponse<inner::GroupMessages>;

pub type MediaBundleResponse = FanslyResponse<Vec<MediaBundle>>;

pub type MediaResponse = FanslyResponse<Vec<Media>>;

pub type MessageGroupsResponse = FanslyResponse<inner::MessageGroups>;

pub type PostsResponse = FanslyResponse<inner::Posts>;

pub type PurchasedContentResponse = FanslyResponse<inner::PurchasedContent>;

pub type StatusResponse = FanslyResponse<inner::Status>;

pub type SubscriptionResponse = FanslyResponse<inner::Subscriptions>;

pub type TransactionsResponse = FanslyResponse<Transaction>;

pub type WalletTransactionsResponse = FanslyResponse<WalletTransaction>;

} // verus!

pub mod inner;
