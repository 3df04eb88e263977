//! Payments and wallet transactions.

use vstd::prelude::*;

verus! {

#[derive(Debug)]
pub struct Transaction {
    pub id: String,
    pub account_id: String,
    pub billing_email: Option<String>,
    pub wallet_id: String,
    pub datum_type: i64,
    pub subscription_id: Option<String>,
    pub correlation_id: String,
    pub amount: i64,
    pub three_d_secure: i64,
    pub rebill: i64,
    pub rebill_correlation_id: Option<String>,
    pub status: i64,
    pub version: i64,
    pub created_at: i64,
    pub updated_at: i64,
    pub metadata: Option<String>,
}

#[derive(Debug)]
pub struct WalletTransaction {
    pub wallet_id: String,
    pub transaction_id: String,
    pub account_id: String,
    pub correlation_id: String,
    pub datum_type: i64,
    pub destination: i64,
    pub amount: i64,
    pub destination_tax: i64,
    pub destination_amount: Option<i64>,
    pub new_balance: i64,
    pub created_at: i64,
    pub updated_at: Option<i64>,
    pub status: i64,
    pub sender_id: Option<String>,
    pub receiver_id: Option<String>,
}

} // verus!
