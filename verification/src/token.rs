//! The credential that a backup runs with.

use vstd::prelude::*;

verus! {

/// An OAuth token as the authorization service issued it. The queue hands it
/// to the backup untouched, and erases it when the request is retired.
#[derive(Debug)]
pub struct TokenInfo {
    pub access_token: String,
    pub token_type: String,
    pub expires_in: u32,
    pub expires_at: Option<i64>,
    pub refresh_token: Option<String>,
    pub scope: String,
}

/// What a `TokenInfo` holds.
pub ghost struct TokenInfoView {
    pub access_token: Seq<char>,
    pub token_type: Seq<char>,
    pub expires_in: u32,
    pub expires_at: Option<i64>,
    pub refresh_token: Option<Seq<char>>,
    pub scope: Seq<char>,
}

impl TokenInfoView {
    /// The token that authorizes nothing: every text empty, no expiry and no
    /// refresh token.
    pub open spec fn empty() -> TokenInfoView {
        TokenInfoView {
            access_token: Seq::empty(),
            token_type: Seq::empty(),
            expires_in: 0,
            expires_at: None,
            refresh_token: None,
            scope: Seq::empty(),
        }
    }
}

impl View for TokenInfo {
    type V = TokenInfoView;

    open spec fn view(&self) -> TokenInfoView {
        TokenInfoView {
            access_token: self.access_token@,
            token_type: self.token_type@,
            expires_in: self.expires_in,
            expires_at: self.expires_at,
            refresh_token: match self.refresh_token {
                Some(t) => Some(t@),
                None => None,
            },
            scope: self.scope@,
        }
    }
}

impl TokenInfo {
    /// The token authorizes nothing: it is what a retired request is left
    /// with.
    pub fn is_empty(&self) -> (res: bool)
        ensures
            res == (self@ == TokenInfoView::empty()),
    {
        let none = String::new();
        self.access_token == none && self.token_type == none && self.expires_in == 0
            && self.expires_at.is_none() && self.refresh_token.is_none() && self.scope == none
    }
}

/// The two optional texts hold the same.
pub fn same_text(a: &Option<String>, b: &Option<String>) -> (res: bool)
    ensures
        res == (match (*a, *b) {
            (Some(x), Some(y)) => x@ == y@,
            (None, None) => true,
            _ => false,
        }),
{
    match (a, b) {
        (Some(x), Some(y)) => *x == *y,
        (None, None) => true,
        _ => false,
    }
}

impl TokenInfo {
    /// The two tokens hold the same.
    pub fn same(&self, other: &TokenInfo) -> (res: bool)
        ensures
            res == (self@ == other@),
    {
        let same_expiry = match (self.expires_at, other.expires_at) {
            (Some(x), Some(y)) => x == y,
            (None, None) => true,
            _ => false,
        };
        self.access_token == other.access_token && self.token_type == other.token_type
            && self.expires_in == other.expires_in && same_expiry && same_text(
            &self.refresh_token,
            &other.refresh_token,
        ) && self.scope == other.scope
    }
}

impl Default for TokenInfo {
    fn default() -> (res: TokenInfo)
        ensures
            res@ == TokenInfoView::empty(),
    {
        TokenInfo {
            access_token: String::new(),
            token_type: String::new(),
            expires_in: 0,
            expires_at: None,
            refresh_token: None,
            scope: String::new(),
        }
    }
}

impl Clone for TokenInfo {
    fn clone(&self) -> (res: TokenInfo)
        ensures
            res@ == self@,
    {
        TokenInfo {
            access_token: self.access_token.clone(),
            token_type: self.token_type.clone(),
            expires_in: self.expires_in,
            expires_at: self.expires_at,
            refresh_token: match &self.refresh_token {
                Some(t) => Some(t.clone()),
                None => None,
            },
            scope: self.scope.clone(),
        }
    }
}

} // verus!
