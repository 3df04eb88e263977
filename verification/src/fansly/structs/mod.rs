//! The site's data, as its responses describe it.

pub mod account;
pub mod media;
pub mod media_bundle;
pub mod message;
pub mod post;
pub mod story;
pub mod subscription;
pub mod transaction;

pub use account::{Account, FollowedAccount};
pub use media::{Media, MediaDetails, PurchasedMedia};
pub use media_bundle::MediaBundle;
pub use message::{Message, MessageGroup};
pub use post::{Attachment, Post};
pub use story::Story;
pub use subscription::{Subscription, SubscriptionPlan, SubscriptionStats};
pub use transaction::{Transaction, WalletTransaction};
