//! The requests the core asks the transport to send to the backend. Each is
//! a GET of an absolute URL with query parameters; the transport encodes them.

use vstd::prelude::*;
use crate::text::{push_decimal, push_signed_decimal, push_str, decimal_chars, signed_decimal_chars};

verus! {

/// A GET request: the URL without its query, and the query parameters in order.
pub struct Request {
    pub url: String,
    pub query: Vec<(String, String)>,
}

pub open spec fn query_view(q: Seq<(String, String)>) -> Seq<(Seq<char>, Seq<char>)> {
    q.map_values(|p: (String, String)| (p.0@, p.1@))
}

/// The fixed endpoint that tells a user where the backend is.
pub open spec fn discovery_url() -> Seq<char> {
    "http://eds.iptv.gd.cn:8082/EDS/jsp/AuthenticationURL"@
}

pub open spec fn authorize_path() -> Seq<char> { "/EPG/oauth/v2/authorize"@ }
pub open spec fn token_path() -> Seq<char> { "/EPG/oauth/v2/token"@ }
pub open spec fn channel_list_path() -> Seq<char> { "/EPG/jsp/getchannellistHWCTC.jsp"@ }
pub open spec fn guide_path() -> Seq<char> { "/EPG/jsp/iptvsnmv3/en/play/ajax/_ajax_getPlaybillList.jsp"@ }
pub open spec fn icon_path() -> Seq<char> { "/EPG/jsp/iptvsnmv3/en/list/images/channelIcon/"@ }

fn param(k: &str, v: &str) -> (r: (String, String))
    ensures
        r.0@ == k@,
        r.1@ == v@,
{
    (k.to_owned(), v.to_owned())
}

fn push_param(q: &mut Vec<(String, String)>, k: &str, v: &str)
    ensures
        query_view(final(q)@) == query_view(old(q)@).push((k@, v@)),
{
    let p = param(k, v);
    q.push(p);
    assert(query_view(q@) == query_view(old(q)@).push((k@, v@)));
}

fn url_at(base: &str, path: &str) -> (r: String)
    ensures
        r@ == base@ + path@,
{
    let mut s = String::new();
    push_str(&mut s, base);
    push_str(&mut s, path);
    assert(Seq::<char>::empty() + base@ == base@);
    s
}

/// Step one of the handshake: where is the backend for `user`.
pub fn discovery_request(user: &str) -> (r: Request)
    ensures
        r.url@ == discovery_url(),
        query_view(r.query@) == seq![("Action"@, "Login"@), ("return_type"@, "1"@), ("UserID"@, user@)],
{
    let mut q: Vec<(String, String)> = Vec::new();
    push_param(&mut q, "Action", "Login");
    push_param(&mut q, "return_type", "1");
    push_param(&mut q, "UserID", user);
    assert(query_view(q@) =~= seq![("Action"@, "Login"@), ("return_type"@, "1"@), ("UserID"@, user@)]);
    Request { url: "http://eds.iptv.gd.cn:8082/EDS/jsp/AuthenticationURL".to_owned(), query: q }
}

/// The query of step two.
pub open spec fn authorize_query(user: Seq<char>) -> Seq<(Seq<char>, Seq<char>)> {
    seq![("response_type"@, "EncryToken"@), ("client_id"@, "smcphone"@), ("userid"@, user)]
}

/// Step two: ask the backend at `base` for an encryption token.
pub fn authorize_request(base: &str, user: &str) -> (r: Request)
    ensures
        r.url@ == base@ + authorize_path(),
        query_view(r.query@) == authorize_query(user@),
{
    let mut q: Vec<(String, String)> = Vec::new();
    push_param(&mut q, "response_type", "EncryToken");
    push_param(&mut q, "client_id", "smcphone");
    push_param(&mut q, "userid", user);
    assert(query_view(q@) =~= seq![
        ("response_type"@, "EncryToken"@),
        ("client_id"@, "smcphone"@),
        ("userid"@, user@),
    ]);
    Request { url: url_at(base, "/EPG/oauth/v2/authorize"), query: q }
}

/// The query of step three.
pub open spec fn token_query(user: Seq<char>, auth: Seq<char>) -> Seq<(Seq<char>, Seq<char>)> {
    seq![
        ("client_id"@, "smcphone"@),
        ("DeviceType"@, "deviceType"@),
        ("UserID"@, user),
        ("DeviceVersion"@, "deviceVersion"@),
        ("userdomain"@, "2"@),
        ("datadomain"@, "3"@),
        ("accountType"@, "1"@),
        ("authinfo"@, auth),
        ("grant_type"@, "EncryToken"@),
    ]
}

/// Step three: exchange the authentication blob `auth` for an access grant.
pub fn token_request(base: &str, user: &str, auth: &str) -> (r: Request)
    ensures
        r.url@ == base@ + token_path(),
        query_view(r.query@) == token_query(user@, auth@),
{
    let mut q: Vec<(String, String)> = Vec::new();
    push_param(&mut q, "client_id", "smcphone");
    push_param(&mut q, "DeviceType", "deviceType");
    push_param(&mut q, "UserID", user);
    push_param(&mut q, "DeviceVersion", "deviceVersion");
    push_param(&mut q, "userdomain", "2");
    push_param(&mut q, "datadomain", "3");
    push_param(&mut q, "accountType", "1");
    push_param(&mut q, "authinfo", auth);
    push_param(&mut q, "grant_type", "EncryToken");
    assert(query_view(q@) =~= token_query(user@, auth@));
    Request { url: url_at(base, "/EPG/oauth/v2/token"), query: q }
}

/// The channel-list page.
pub fn channel_list_request(base: &str) -> (r: Request)
    ensures
        r.url@ == base@ + channel_list_path(),
        r.query@.len() == 0,
{
    Request { url: url_at(base, "/EPG/jsp/getchannellistHWCTC.jsp"), query: Vec::new() }
}

/// The guide of one channel between `begin` and `end`, epoch milliseconds.
pub fn guide_request(base: &str, channel_id: u64, begin: i64, end: i64) -> (r: Request)
    ensures
        r.url@ == base@ + guide_path(),
        query_view(r.query@) == seq![
            ("channelId"@, decimal_chars(channel_id as nat)),
            ("begin"@, signed_decimal_chars(begin as int)),
            ("end"@, signed_decimal_chars(end as int)),
        ],
{
    let mut id = String::new();
    push_decimal(&mut id, channel_id);
    let mut b = String::new();
    push_signed_decimal(&mut b, begin);
    let mut e = String::new();
    push_signed_decimal(&mut e, end);
    assert(Seq::<char>::empty() + decimal_chars(channel_id as nat) == decimal_chars(channel_id as nat));
    assert(Seq::<char>::empty() + signed_decimal_chars(begin as int) == signed_decimal_chars(begin as int));
    assert(Seq::<char>::empty() + signed_decimal_chars(end as int) == signed_decimal_chars(end as int));
    let mut q: Vec<(String, String)> = Vec::new();
    push_param(&mut q, "channelId", id.as_str());
    push_param(&mut q, "begin", b.as_str());
    push_param(&mut q, "end", e.as_str());
    assert(query_view(q@) =~= seq![
        ("channelId"@, decimal_chars(channel_id as nat)),
        ("begin"@, signed_decimal_chars(begin as int)),
        ("end"@, signed_decimal_chars(end as int)),
    ]);
    Request { url: url_at(base, "/EPG/jsp/iptvsnmv3/en/play/ajax/_ajax_getPlaybillList.jsp"), query: q }
}

/// The icon of channel `id`.
pub fn icon_request(base: &str, id: &str) -> (r: Request)
    ensures
        r.url@ == base@ + icon_path() + id@ + ".png"@,
        r.query@.len() == 0,
{
    let mut s = url_at(base, "/EPG/jsp/iptvsnmv3/en/list/images/channelIcon/");
    push_str(&mut s, id);
    push_str(&mut s, ".png");
    Request { url: s, query: Vec::new() }
}

} // verus!
