//! The addresses of the asset delivery and publishing endpoints.

use vstd::prelude::*;
use vstd::string::*;
use crate::asset_id::{decimal, id_to_string, push_char};

verus! {

/// The address from which an asset is delivered, up to the id.
pub const ASSET_DELIVERY_URL: &'static str = "https://assetdelivery.roblox.com/v1/asset/?id=";

/// The address to which a new animation is published.
pub const UPLOAD_ANIMATION_URL: &'static str =
    "https://www.roblox.com/ide/publish/uploadnewanimation";

/// An animation to deliver or to publish.
#[derive(Clone, Debug)]
pub struct Animation {
    pub id: Option<u64>,
    pub title: String,
    pub description: String,
    pub group_id: Option<u64>,
    /// The payload to publish.
    pub animation_data: Option<Vec<u8>>,
}

/// How an optional id is written in a delivery address: `Some(` and `)`
/// around the decimal text of the id, or `None`.
pub open spec fn option_text(id: Option<u64>) -> Seq<char> {
    match id {
        Some(n) => "Some("@ + decimal(n as nat) + ")"@,
        None => "None"@,
    }
}

/// The address from which the animation is delivered.
pub fn asset_delivery_url(animation: &Animation) -> (url: String)
    ensures
        url@ == ASSET_DELIVERY_URL@ + option_text(animation.id),
{
    let mut url: String = ASSET_DELIVERY_URL.to_owned();
    match animation.id {
        Some(n) => {
            url.append("Some(");
            url.append(id_to_string(n).as_str());
            url.append(")");
        },
        None => {
            url.append("None");
        },
    }
    url
}

/// The address from which the asset `item_id` is delivered.
pub fn asset_url(item_id: u64) -> (url: String)
    ensures
        url@ == ASSET_DELIVERY_URL@ + decimal(item_id as nat),
{
    let mut url: String = ASSET_DELIVERY_URL.to_owned();
    url.append(id_to_string(item_id).as_str());
    url
}

/// The address from which the animation `id` is pulled.
pub fn pull_animation(id: u64) -> (url: String)
    ensures
        url@ == ASSET_DELIVERY_URL@ + decimal(id as nat),
{
    asset_url(id)
}

/// The title under which `push_animation` publishes.
pub const PUSH_TITLE: &'static str = "My Animation";

/// The description with which `push_animation` publishes.
pub const PUSH_DESCRIPTION: &'static str = "This is an animation.";

/// The animation that `push_animation` publishes for `id`: the fixed title
/// and description, no group and no payload.
pub fn push_animation(id: u64) -> (animation: Animation)
    ensures
        animation.id == Some(id),
        animation.title@ == PUSH_TITLE@,
        animation.description@ == PUSH_DESCRIPTION@,
        animation.group_id is None,
        animation.animation_data is None,
{
    Animation {
        id: Some(id),
        title: PUSH_TITLE.to_owned(),
        description: PUSH_DESCRIPTION.to_owned(),
        group_id: None,
        animation_data: None,
    }
}

/// The views of a list of name/value pairs.
pub open spec fn pair_texts(pairs: Seq<(String, String)>) -> Seq<(Seq<char>, Seq<char>)> {
    pairs.map_values(|p: (String, String)| (p.0@, p.1@))
}

/// The `application/x-www-form-urlencoded` serialization of a list of
/// name/value pairs.
pub uninterp spec fn form_urlencoded(pairs: Seq<(Seq<char>, Seq<char>)>) -> Seq<char>;

/// `url::form_urlencoded::Serializer`: a serializer over an empty string
/// takes the pairs in order with `extend_pairs`, and `finish` hands out the
/// serialization.
#[verifier::external_body]
fn form_encode(pairs: &Vec<(String, String)>) -> (query: String)
    ensures
        query@ == form_urlencoded(pair_texts(pairs@)),
{
    url::form_urlencoded::Serializer::new(String::new()).extend_pairs(pairs.iter()).finish()
}

/// The query parameters with which an animation is published: the fixed
/// parameters with the title and the description of the animation, and the
/// group at the end if there is one.
pub open spec fn upload_pairs(animation: Animation) -> Seq<(Seq<char>, Seq<char>)> {
    let fixed = seq![
        ("assetTypeName"@, "Animation"@),
        ("name"@, animation.title@),
        ("description"@, animation.description@),
        ("AllID"@, "1"@),
        ("ispublic"@, "False"@),
        ("allowComments"@, "True"@),
        ("isGamesAsset"@, "False"@),
    ];
    match animation.group_id {
        Some(id) => fixed.push(("groupId"@, decimal(id as nat))),
        None => fixed,
    }
}

fn pair(name: &str, value: &str) -> (p: (String, String))
    ensures
        p.0@ == name@,
        p.1@ == value@,
{
    (name.to_owned(), value.to_owned())
}

/// Builds the query parameters with which an animation is published.
pub fn upload_parameters(animation: &Animation) -> (pairs: Vec<(String, String)>)
    ensures
        pair_texts(pairs@) == upload_pairs(*animation),
{
    let mut pairs: Vec<(String, String)> = Vec::new();
    pairs.push(pair("assetTypeName", "Animation"));
    pairs.push(pair("name", animation.title.as_str()));
    pairs.push(pair("description", animation.description.as_str()));
    pairs.push(pair("AllID", "1"));
    pairs.push(pair("ispublic", "False"));
    pairs.push(pair("allowComments", "True"));
    pairs.push(pair("isGamesAsset", "False"));
    match animation.group_id {
        Some(id) => {
            pairs.push(pair("groupId", id_to_string(id).as_str()));
        },
        None => {},
    }
    proof {
        assert(pair_texts(pairs@) =~= upload_pairs(*animation));
    }
    pairs
}

/// An address with a query: the address, a question mark, the query.
pub fn with_query(address: &str, query: &str) -> (url: String)
    ensures
        url@ == address@.push('?') + query@,
{
    let mut url: String = address.to_owned();
    push_char(&mut url, '?');
    url.append(query);
    url
}

/// The address to which the animation is published, with its query.
pub fn upload_animation_url(animation: &Animation) -> (url: String)
    ensures
        url@ == UPLOAD_ANIMATION_URL@.push('?') + form_urlencoded(upload_pairs(*animation)),
{
    let pairs = upload_parameters(animation);
    let query = form_encode(&pairs);
    with_query(UPLOAD_ANIMATION_URL, query.as_str())
}

} // verus!
