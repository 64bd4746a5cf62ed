//! Accounts and the records of the sign-in exchange.

use vstd::prelude::*;

verus! {

/// A signed-in account; `expires_at` is a Unix time in seconds.
#[derive(Clone, Debug)]
pub struct Account {
    pub uuid: String,
    pub username: String,
    pub access_token: String,
    pub refresh_token: String,
    pub expires_at: i64,
    pub is_active: bool,
    pub skin_url: Option<String>,
}

#[derive(Clone, Debug)]
pub struct AccountStorage {
    pub accounts: Vec<Account>,
    pub device_token: Option<DeviceToken>,
}

#[derive(Clone, Debug)]
pub struct DeviceToken {
    pub private_key: String,
    pub device_token: String,
    pub created_at: i64,
}

#[derive(Clone, Debug)]
pub struct OAuthTokenResponse {
    pub access_token: String,
    pub refresh_token: String,
    pub expires_in: i64,
    pub token_type: String,
}

#[derive(Clone, Debug)]
pub struct XboxAuthResponse {
    pub token: String,
    pub display_claims: DisplayClaims,
}

#[derive(Clone, Debug)]
pub struct DisplayClaims {
    pub xui: Vec<XuiClaim>,
}

#[derive(Clone, Debug)]
pub struct XuiClaim {
    pub uhs: String,
}

#[derive(Clone, Debug)]
pub struct MinecraftAuthResponse {
    pub access_token: String,
    pub expires_in: i64,
}

#[derive(Clone, Debug)]
pub struct MinecraftProfile {
    pub id: String,
    pub name: String,
    pub skins: Vec<MinecraftSkin>,
}

#[derive(Clone, Debug)]
pub struct MinecraftSkin {
    pub url: String,
    pub variant: String,
}

#[derive(Clone, Debug)]
pub struct DeviceCodeInfo {
    pub user_code: String,
    pub verification_uri: String,
    pub expires_in: u64,
    pub message: String,
}

#[derive(Clone, Debug)]
pub struct LoginStartResult {
    pub user_code: String,
    pub verification_uri: String,
    pub device_code: String,
    pub expires_in: u64,
    pub interval: u64,
    pub message: String,
}

impl Account {
    /// Whether the token has expired at Unix time `now`.
    pub fn is_expired(&self, now: i64) -> (r: bool)
        ensures
            r == (now >= self.expires_at),
    {
        now >= self.expires_at
    }

    /// Whether the token is within five minutes of expiring at `now`.
    pub fn needs_refresh(&self, now: i64) -> (r: bool)
        ensures
            r == (now as int >= self.expires_at as int - 300),
    {
        now as i128 >= self.expires_at as i128 - 300
    }
}
impl Default for AccountStorage {
    fn default() -> (r: AccountStorage)
        ensures
            r.accounts@.len() == 0,
            r.device_token is None,
    {
        AccountStorage { accounts: Vec::new(), device_token: None }
    }
}

/// The position of the first active account.
pub fn find_active_account(accounts: &[Account]) -> (r: Option<usize>)
    ensures
        match r {
            Some(i) => i < accounts.len() && accounts@[i as int].is_active && forall|j: int|
                0 <= j < i ==> !accounts@[j].is_active,
            None => forall|j: int| 0 <= j < accounts.len() ==> !accounts@[j].is_active,
        },
{
    let mut i: usize = 0;
    while i < accounts.len()
        invariant
            i <= accounts.len(),
            forall|j: int| 0 <= j < i ==> !accounts@[j].is_active,
        decreases accounts.len() - i,
    {
        if accounts[i].is_active {
            return Some(i);
        }
        i += 1;
    }
    None
}

} // verus!
