//! Plain data carried through the follower-change pipeline: the follower
//! records fetched from the upstream API, the session cookie pair, and the
//! mathematical views the contracts in the rest of the crate speak of.
use vstd::prelude::*;

verus! {

/// Mathematical view of a [`User`]: every text field as a sequence of
/// characters.
pub struct UserView {
    pub user_id_hash: Seq<char>,
    pub nickname: Seq<char>,
    pub profile_image_url: Option<Seq<char>>,
}

/// Mathematical view of a [`FollowerItem`].
pub struct FollowerItemView {
    pub user: UserView,
    pub following_since: Seq<char>,
}

/// The account behind one follower entry: a stable identity hash, a display
/// name, and an optional avatar reference.
#[derive(Debug)]
pub struct User {
    pub user_id_hash: String,
    pub nickname: String,
    pub profile_image_url: Option<String>,
}

/// One entry of the follower list: the account plus the instant it started
/// following, as the upstream API formats it.
#[derive(Debug)]
pub struct FollowerItem {
    pub user: User,
    pub following_since: String,
}

/// Payload of a successful follower-list response: the first page of entries.
#[derive(Debug)]
pub struct FollowerContent {
    pub data: Vec<FollowerItem>,
}

/// Envelope of the upstream follower-list response.
#[derive(Debug)]
pub struct FollowerResponse {
    pub code: i32,
    pub message: Option<String>,
    pub content: Option<FollowerContent>,
}

/// The session credential pair handed over by the authentication collaborator.
/// The core never validates it; it only carries it to the fetcher.
#[derive(Debug)]
pub struct CookieData {
    pub nid_aut: String,
    pub nid_ses: String,
}

impl View for User {
    type V = UserView;

    open spec fn view(&self) -> UserView {
        UserView {
            user_id_hash: self.user_id_hash@,
            nickname: self.nickname@,
            profile_image_url: match self.profile_image_url {
                Option::Some(s) => Option::Some(s@),
                Option::None => Option::None,
            },
        }
    }
}

impl View for FollowerItem {
    type V = FollowerItemView;

    open spec fn view(&self) -> FollowerItemView {
        FollowerItemView { user: self.user@, following_since: self.following_since@ }
    }
}

impl Clone for User {
    fn clone(&self) -> (res: Self)
        ensures
            res@ == self@,
    {
        User {
            user_id_hash: self.user_id_hash.clone(),
            nickname: self.nickname.clone(),
            profile_image_url: match &self.profile_image_url {
                Option::Some(s) => Option::Some(s.clone()),
                Option::None => Option::None,
            },
        }
    }
}

impl Clone for FollowerItem {
    fn clone(&self) -> (res: Self)
        ensures
            res@ == self@,
    {
        FollowerItem { user: self.user.clone(), following_since: self.following_since.clone() }
    }
}

impl Clone for CookieData {
    fn clone(&self) -> (res: Self)
        ensures
            res.nid_aut@ == self.nid_aut@,
            res.nid_ses@ == self.nid_ses@,
    {
        CookieData { nid_aut: self.nid_aut.clone(), nid_ses: self.nid_ses.clone() }
    }
}

/// Relies on `str`'s `PartialEq`: two string slices compare equal exactly
/// when they hold the same characters.
#[verifier::external_body]
pub(crate) fn str_eq(a: &str, b: &str) -> (r: bool)
    ensures
        r == (a@ == b@),
{
    a == b
}

/// The views of a sequence of follower records, in order.
pub open spec fn views_of_followers(s: Seq<FollowerItem>) -> Seq<FollowerItemView> {
    s.map_values(|f: FollowerItem| f@)
}

/// The character for one decimal digit.
pub open spec fn digit_char(d: nat) -> char {
    if d == 0 {
        '0'
    } else if d == 1 {
        '1'
    } else if d == 2 {
        '2'
    } else if d == 3 {
        '3'
    } else if d == 4 {
        '4'
    } else if d == 5 {
        '5'
    } else if d == 6 {
        '6'
    } else if d == 7 {
        '7'
    } else if d == 8 {
        '8'
    } else {
        '9'
    }
}

/// The decimal digits of `n`, most significant first, with no sign and no
/// padding.
pub open spec fn decimal_digits(n: nat) -> Seq<char>
    decreases n,
{
    if n < 10 {
        seq![digit_char(n)]
    } else {
        decimal_digits(n / 10).push(digit_char(n % 10))
    }
}

/// The identity hash given to a test follower injected at instant `ms`.
pub open spec fn test_id_of(ms: u64) -> Seq<char> {
    "test_"@ + decimal_digits(ms as nat)
}

/// Relies on `format!` over `u64`: formats the instant as plain decimal
/// digits after the fixed prefix.
#[verifier::external_body]
fn format_test_id(ms: u64) -> (r: String)
    ensures
        r@ == test_id_of(ms),
{
    format!("test_{}", ms)
}

/// Builds the synthetic follower record behind an injected test
/// notification: a fresh identity derived from the instant, the display
/// name the caller shows for test events, the default avatar, and the
/// given "following since" text.
pub fn create_test_follower(nickname: &str, now_ms: u64, now_iso: String) -> (r: FollowerItem)
    ensures
        r@.user.user_id_hash == test_id_of(now_ms),
        r@.user.nickname == nickname@,
        r@.user.profile_image_url == Option::Some("/default_profile.png"@),
        r@.following_since == now_iso@,
{
    FollowerItem {
        user: User {
            user_id_hash: format_test_id(now_ms),
            nickname: String::from_str(nickname),
            profile_image_url: Option::Some(String::from_str("/default_profile.png")),
        },
        following_since: now_iso,
    }
}

/// Extracts the follower list of an upstream response, exactly as the poll
/// cycle consumes it: the entries are there only when the response code is
/// 200 and a payload is present.
pub fn followers_of_response(resp: FollowerResponse) -> (r: Option<Vec<FollowerItem>>)
    ensures
        match r {
            Option::Some(data) => resp.code == 200 && resp.content is Some
                && data@ == resp.content->Some_0.data@,
            Option::None => resp.code != 200 || resp.content is None,
        },
{
    if resp.code == 200 {
        match resp.content {
            Option::Some(content) => Option::Some(content.data),
            Option::None => Option::None,
        }
    } else {
        Option::None
    }
}

} // verus!
