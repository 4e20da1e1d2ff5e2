//! The decisions behind each playlist entry: the channel group, the
//! published name and logo, proxy rewriting of stream addresses, and the
//! catch-up template; and the playlist text they make up.

use vstd::prelude::*;
use crate::channel::Channel;
use crate::config::YamlConfig;
use crate::naming::{format_channel_name, formatted_name, pair_views, string_views};
use crate::text::{chars_of, decimal_chars, occurs_at, push_char, push_decimal, push_str, starts_at};

verus! {

/// Whether `p` occurs in `s`.
pub open spec fn contains(s: Seq<char>, p: Seq<char>) -> bool {
    exists|i: int| occurs_at(s, i, p)
}

/// `s` with every occurrence of `p` replaced by `t`, scanning from the left
/// without overlaps. Only a non-empty `p` is ever used.
pub open spec fn replace_all(s: Seq<char>, p: Seq<char>, t: Seq<char>) -> Seq<char>
    decreases s.len(),
{
    if p.len() == 0 || s.len() < p.len() {
        s
    } else if s.subrange(0, p.len() as int) == p {
        t + replace_all(s.subrange(p.len() as int, s.len() as int), p, t)
    } else {
        seq![s[0]] + replace_all(s.drop_first(), p, t)
    }
}

/// The group of a channel: ultra HD, HD, or standard, by its name.
pub open spec fn group_of(name: Seq<char>) -> Seq<char> {
    if contains(name, "超清"@) {
        "超清频道"@
    } else if contains(name, "高清"@) {
        "高清频道"@
    } else {
        "普通频道"@
    }
}

/// A stream address as published: through the proxy when one is set, its
/// `scheme` prefix replaced by `proxy` followed by `route`.
pub open spec fn via_proxy(url: Seq<char>, scheme: Seq<char>, proxy: Seq<char>, route: Seq<char>) -> Seq<char> {
    if proxy.len() == 0 {
        url
    } else {
        replace_all(url, scheme, proxy + route)
    }
}

/// The catch-up attributes for the time-shift address `rtsp`.
pub open spec fn catch_up(rtsp: Seq<char>) -> Seq<char> {
    " catchup=\"default\" catchup-source=\""@ + rtsp + seq![if contains(rtsp, seq!['?']) { '&' } else { '?' }]
        + "playseek=${(b)yyyyMMddHHmmss}-${(e)yyyyMMddHHmmss}\" "@
}

/// The published name of a channel under the playlist options.
pub open spec fn tvg_name(name: Seq<char>, config: YamlConfig) -> Seq<char> {
    if config.m3u8.format_tvg {
        formatted_name(
            name,
            match config.name_mapping {
                Some(m) => Some(pair_views(m@)),
                None => None,
            },
            string_views(config.name_clean@),
        )
    } else {
        name
    }
}

/// The two lines of a channel in the playlist.
pub open spec fn entry_text(
    id: u64,
    chno: Seq<char>,
    name: Seq<char>,
    tvgname: Seq<char>,
    rtsp: Seq<char>,
    play: Seq<char>,
) -> Seq<char> {
    "#EXTINF:-1 tvg-id=\""@ + decimal_chars(id as nat) + "\" tvg-name=\""@ + tvgname + "\" tvg-chno=\""@ + chno
        + "\" "@ + catch_up(rtsp) + " tvg-logo=\""@ + "https://live.fanmingming.com/tv/"@ + tvgname + ".png"@
        + "\" group-title=\""@ + group_of(name) + "\","@ + name + "\n"@ + play
}

/// The entry of channel `c`.
pub open spec fn playlist_entry_spec(c: Channel, config: YamlConfig) -> Seq<char> {
    entry_text(
        c.id,
        c.user_channel_id@,
        c.name@,
        tvg_name(c.name@, config),
        via_proxy(c.rtsp@, "rtsp://"@, config.m3u8.rtsp_proxy_uri@, "/rtsp/"@),
        via_proxy(c.igmp@, "igmp://"@, config.m3u8.udp_proxy_uri@, "/udp/"@),
    )
}

/// The first line of the playlist.
pub open spec fn header_spec(x_tvg_url: Seq<char>) -> Seq<char> {
    if x_tvg_url.len() == 0 {
        "#EXTM3U\n"@
    } else {
        "#EXTM3U x-tvg-url=\""@ + x_tvg_url + "\" \n"@
    }
}

/// The entries of `cs`, separated by line breaks.
pub open spec fn entries_spec(cs: Seq<Channel>, config: YamlConfig) -> Seq<char>
    decreases cs.len(),
{
    if cs.len() == 0 {
        Seq::empty()
    } else if cs.len() == 1 {
        playlist_entry_spec(cs[0], config)
    } else {
        entries_spec(cs.drop_last(), config) + "\n"@ + playlist_entry_spec(cs.last(), config)
    }
}

fn contains_chars(v: &Vec<char>, p: &Vec<char>) -> (r: bool)
    ensures
        r == contains(v@, p@),
{
    let mut i: usize = 0;
    while i < v.len()
        invariant
            i <= v.len(),
            forall|j: int| 0 <= j < i ==> !occurs_at(v@, j, p@),
        decreases v.len() - i,
    {
        if starts_at(v, i, p) {
            return true;
        }
        i += 1;
    }
    if starts_at(v, i, p) {
        return true;
    }
    assert forall|j: int| !occurs_at(v@, j, p@) by {
        if 0 <= j < i {
        }
    }
    false
}

/// Appends `v` with every occurrence of `p` replaced by `t`.
fn push_replaced(s: &mut String, v: &Vec<char>, p: &Vec<char>, t: &str)
    ensures
        final(s)@ == old(s)@ + replace_all(v@, p@, t@),
{
    let mut i: usize = 0;
    assert(v@.subrange(0, v.len() as int) == v@);
    assert(old(s)@ + Seq::<char>::empty() == old(s)@);
    let ghost start = s@;
    let mut done: Ghost<Seq<char>> = Ghost(Seq::empty());
    while i < v.len()
        invariant
            i <= v.len(),
            s@ == start + done@,
            done@ + replace_all(v@.subrange(i as int, v.len() as int), p@, t@) == replace_all(v@, p@, t@),
        decreases v.len() - i,
    {
        let ghost rest = v@.subrange(i as int, v.len() as int);
        if p.len() > 0 && starts_at(v, i, p) {
            assert(rest.subrange(0, p@.len() as int) == p@);
            assert(rest.subrange(p@.len() as int, rest.len() as int) == v@.subrange(i + p.len(), v.len() as int));
            push_str(s, t);
            proof {
                done@ = done@ + t@;
            }
            i += p.len();
        } else {
            assert(rest.drop_first() == v@.subrange(i + 1, v.len() as int));
            proof {
                if p@.len() > 0 && rest.len() >= p@.len() {
                    assert(!occurs_at(v@, i as int, p@));
                    assert(rest.subrange(0, p@.len() as int) == v@.subrange(i as int, i + p@.len()));
                }
            }
            push_char(s, v[i]);
            proof {
                done@ = done@ + seq![v@[i as int]];
            }
            i += 1;
        }
    }
    assert(v@.subrange(i as int, v.len() as int).len() == 0);
}

/// Appends a stream address as published; see `via_proxy`.
fn push_via_proxy(s: &mut String, url: &str, scheme: &str, proxy: &str, route: &str)
    ensures
        final(s)@ == old(s)@ + via_proxy(url@, scheme@, proxy@, route@),
{
    if proxy.is_empty() {
        push_str(s, url);
    } else {
        let mut target = String::new();
        push_str(&mut target, proxy);
        push_str(&mut target, route);
        assert(Seq::<char>::empty() + proxy@ == proxy@);
        push_replaced(s, &chars_of(url), &chars_of(scheme), target.as_str());
    }
}

/// The group of the channel named `name`.
pub fn channel_group(name: &str) -> (r: &'static str)
    ensures
        r@ == group_of(name@),
{
    let v = chars_of(name);
    if contains_chars(&v, &chars_of("超清")) {
        "超清频道"
    } else if contains_chars(&v, &chars_of("高清")) {
        "高清频道"
    } else {
        "普通频道"
    }
}

/// The first line of the playlist.
pub fn playlist_header(x_tvg_url: &str) -> (r: String)
    ensures
        r@ == header_spec(x_tvg_url@),
{
    let mut s = String::new();
    if x_tvg_url.is_empty() {
        push_str(&mut s, "#EXTM3U\n");
    } else {
        push_str(&mut s, "#EXTM3U x-tvg-url=\"");
        push_str(&mut s, x_tvg_url);
        push_str(&mut s, "\" \n");
    }
    assert(Seq::<char>::empty() + "#EXTM3U\n"@ == "#EXTM3U\n"@);
    assert(Seq::<char>::empty() + "#EXTM3U x-tvg-url=\""@ == "#EXTM3U x-tvg-url=\""@);
    s
}

/// The catch-up attributes for `rtsp`.
fn catch_up_text(rtsp: &str) -> (r: String)
    ensures
        r@ == catch_up(rtsp@),
{
    let connector = if contains_chars(&chars_of(rtsp), &chars_of("?")) { '&' } else { '?' };
    proof {
        reveal_strlit("?");
        assert("?"@ == seq!['?']);
    }
    let mut e = String::new();
    push_str(&mut e, " catchup=\"default\" catchup-source=\"");
    push_str(&mut e, rtsp);
    push_char(&mut e, connector);
    push_str(&mut e, "playseek=${(b)yyyyMMddHHmmss}-${(e)yyyyMMddHHmmss}\" ");
    assert(Seq::<char>::empty() + " catchup=\"default\" catchup-source=\""@ == " catchup=\"default\" catchup-source=\""@);
    e
}

/// The two lines of channel `c`.
fn entry_of(c: &Channel, config: &YamlConfig) -> (r: String)
    ensures
        r@ == playlist_entry_spec(*c, *config),
{
    let tvgname = if config.m3u8.format_tvg {
        let m: Option<&Vec<(String, String)>> = match &config.name_mapping {
            Some(x) => Some(x),
            None => None,
        };
        format_channel_name(c.name.as_str(), m, config.name_clean.as_slice())
    } else {
        c.name.clone()
    };
    let mut rtsp = String::new();
    push_via_proxy(&mut rtsp, c.rtsp.as_str(), "rtsp://", config.m3u8.rtsp_proxy_uri.as_str(), "/rtsp/");
    let mut play = String::new();
    push_via_proxy(&mut play, c.igmp.as_str(), "igmp://", config.m3u8.udp_proxy_uri.as_str(), "/udp/");
    assert(Seq::<char>::empty() + rtsp@ == rtsp@);
    assert(Seq::<char>::empty() + play@ == play@);
    let cu = catch_up_text(rtsp.as_str());
    let mut e = String::new();
    push_str(&mut e, "#EXTINF:-1 tvg-id=\"");
    push_decimal(&mut e, c.id);
    push_str(&mut e, "\" tvg-name=\"");
    push_str(&mut e, tvgname.as_str());
    push_str(&mut e, "\" tvg-chno=\"");
    push_str(&mut e, c.user_channel_id.as_str());
    push_str(&mut e, "\" ");
    push_str(&mut e, cu.as_str());
    push_str(&mut e, " tvg-logo=\"");
    push_str(&mut e, "https://live.fanmingming.com/tv/");
    push_str(&mut e, tvgname.as_str());
    push_str(&mut e, ".png");
    push_str(&mut e, "\" group-title=\"");
    push_str(&mut e, channel_group(c.name.as_str()));
    push_str(&mut e, "\",");
    push_str(&mut e, c.name.as_str());
    push_str(&mut e, "\n");
    push_str(&mut e, play.as_str());
    assert(Seq::<char>::empty() + "#EXTINF:-1 tvg-id=\""@ == "#EXTINF:-1 tvg-id=\""@);
    e
}

/// The playlist: the header, the entries of `channels` separated by line
/// breaks, then `extra` (the body of an extra playlist, or nothing).
pub fn build_playlist(channels: &Vec<Channel>, config: &YamlConfig, extra: &str) -> (r: String)
    ensures
        r@ == header_spec(config.m3u8.x_tvg_url@) + entries_spec(channels@, *config) + extra@,
{
    let mut s = playlist_header(config.m3u8.x_tvg_url.as_str());
    let ghost head = s@;
    let mut i: usize = 0;
    assert(head + entries_spec(channels@.subrange(0, 0), *config) == head);
    while i < channels.len()
        invariant
            i <= channels.len(),
            s@ == head + entries_spec(channels@.subrange(0, i as int), *config),
        decreases channels.len() - i,
    {
        let ghost cs = channels@.subrange(0, i + 1);
        assert(cs.drop_last() == channels@.subrange(0, i as int));
        assert(cs.last() == channels@[i as int]);
        if i > 0 {
            push_str(&mut s, "\n");
        }
        let e = entry_of(&channels[i], config);
        push_str(&mut s, e.as_str());
        proof {
            if i == 0 {
                assert(cs.len() == 1 && cs[0] == channels@[0]);
            }
        }
        i += 1;
    }
    assert(channels@.subrange(0, channels.len() as int) == channels@);
    push_str(&mut s, extra);
    s
}

} // verus!
