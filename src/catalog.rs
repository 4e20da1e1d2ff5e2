//! Extraction of the channel catalog from the backend's channel-list page.
//!
//! The page is not JSON or XML: each channel is announced by a call of the form
//! `Authentication.CTCSetConfig(...ChannelID="..",ChannelName="..",UserChannelID="..",
//! ChannelURL="multicast|unicast",...TimeShiftURL="..")`. A block is recognised
//! by the grammar below; text that does not fit is skipped.

use vstd::prelude::*;
use vstd::arithmetic::div_mod::{lemma_add_mod_noop, lemma_small_mod};
use crate::channel::{Channel, ChannelView, channels_view};
use crate::text::{chars_of, occurs_at, starts_at, string_from_chars, sub_vec, push_char};

verus! {

pub open spec fn kw_head() -> Seq<char> { "Authentication"@ }
pub open spec fn kw_call() -> Seq<char> { "CTCSetConfig"@ }
pub open spec fn kw_id() -> Seq<char> { "ChannelID="@ }
pub open spec fn kw_name() -> Seq<char> { "\",ChannelName=\""@ }
pub open spec fn kw_user() -> Seq<char> { "\",UserChannelID=\""@ }
pub open spec fn kw_url() -> Seq<char> { "\",ChannelURL=\""@ }
pub open spec fn kw_url_end() -> Seq<char> { "\","@ }
pub open spec fn kw_timeshift() -> Seq<char> { "TimeShiftURL=\""@ }

/// The first position `i >= from` with `s[i] == c`.
pub open spec fn find_from(s: Seq<char>, from: int, c: char) -> Option<int>
    decreases s.len() - from,
{
    if from < 0 || from >= s.len() {
        None
    } else if s[from] == c {
        Some(from)
    } else {
        find_from(s, from + 1, c)
    }
}

/// The first position `i >= from` where `lit` occurs, provided no line break
/// comes before it.
pub open spec fn find_on_line(s: Seq<char>, from: int, lit: Seq<char>) -> Option<int>
    decreases s.len() - from,
{
    if from < 0 || from >= s.len() {
        None
    } else if occurs_at(s, from, lit) {
        Some(from)
    } else if s[from] == '\n' {
        None
    } else {
        find_on_line(s, from + 1, lit)
    }
}

/// The raw fields of one channel block, and the position just past it.
pub struct BlockSpan {
    pub end: int,
    pub id: Seq<char>,
    pub name: Seq<char>,
    pub user_id: Seq<char>,
    pub multicast: Seq<char>,
    pub timeshift: Seq<char>,
}

/// The fields from `ChannelURL="` on: the multicast address runs to the first
/// `|`, the unicast one to the next quote, then comes `",`; `TimeShiftURL="`
/// must follow on the same line, and its value runs to the next quote.
pub open spec fn block_tail(s: Seq<char>, m0: int) -> Option<(int, Seq<char>, Seq<char>)> {
    match find_from(s, m0, '|') {
        None => None,
        Some(bar) => match find_from(s, bar + 1, '"') {
            None => None,
            Some(q5) => if !occurs_at(s, q5, kw_url_end()) {
                None
            } else {
                match find_on_line(s, q5 + kw_url_end().len(), kw_timeshift()) {
                    None => None,
                    Some(k) => {
                        let t0 = k + kw_timeshift().len();
                        match find_from(s, t0, '"') {
                            None => None,
                            Some(q6) => Some((q6 + 1, s.subrange(m0, bar), s.subrange(t0, q6))),
                        }
                    },
                }
            },
        },
    }
}

/// The channel block that starts at `p`, if one does: `Authentication`, any
/// character but a line break, `CTCSetConfig`, text without quotes that ends
/// in `ChannelID=`, then the quoted id, name and user channel id separated by
/// `",ChannelName="` and `",UserChannelID="`, then `",ChannelURL="` and the
/// rest as `block_tail` reads it.
pub open spec fn block_at(s: Seq<char>, p: int) -> Option<BlockSpan> {
    let c0 = p + kw_head().len() + 1;
    let g0 = c0 + kw_call().len();
    if !(occurs_at(s, p, kw_head()) && p + kw_head().len() < s.len()
        && s[p + kw_head().len()] != '\n' && occurs_at(s, c0, kw_call())) {
        None
    } else {
        match find_from(s, g0, '"') {
            None => None,
            Some(q1) => if !(q1 - kw_id().len() >= g0 && occurs_at(s, q1 - kw_id().len(), kw_id())) {
                None
            } else {
                match find_from(s, q1 + 1, '"') {
                    None => None,
                    Some(q2) => if !occurs_at(s, q2, kw_name()) {
                        None
                    } else {
                        let n0 = q2 + kw_name().len();
                        match find_from(s, n0, '"') {
                            None => None,
                            Some(q3) => if !occurs_at(s, q3, kw_user()) {
                                None
                            } else {
                                let u0 = q3 + kw_user().len();
                                match find_from(s, u0, '"') {
                                    None => None,
                                    Some(q4) => if !occurs_at(s, q4, kw_url()) {
                                        None
                                    } else {
                                        match block_tail(s, q4 + kw_url().len()) {
                                            None => None,
                                            Some((end, multicast, timeshift)) => Some(BlockSpan {
                                                end,
                                                id: s.subrange(q1 + 1, q2),
                                                name: s.subrange(n0, q3),
                                                user_id: s.subrange(u0, q4),
                                                multicast,
                                                timeshift,
                                            }),
                                        }
                                    },
                                }
                            },
                        }
                    },
                }
            },
        }
    }
}

/// Where `find_from` stops, and that nothing before it matched.
pub broadcast proof fn lemma_find_from(s: Seq<char>, from: int, c: char)
    ensures
        #[trigger] find_from(s, from, c) is Some ==> from <= find_from(s, from, c)->0 < s.len()
            && s[find_from(s, from, c)->0] == c,
    decreases s.len() - from,
{
    if 0 <= from < s.len() && s[from] != c {
        lemma_find_from(s, from + 1, c);
    }
}

/// Where `find_on_line` stops.
pub broadcast proof fn lemma_find_on_line(s: Seq<char>, from: int, lit: Seq<char>)
    ensures
        #[trigger] find_on_line(s, from, lit) is Some ==> from <= find_on_line(s, from, lit)->0 < s.len()
            && occurs_at(s, find_on_line(s, from, lit)->0, lit),
    decreases s.len() - from,
{
    if 0 <= from < s.len() && !occurs_at(s, from, lit) && s[from] != '\n' {
        lemma_find_on_line(s, from + 1, lit);
    }
}

/// A block ends strictly after the position where it starts.
pub proof fn lemma_block_end(s: Seq<char>, p: int)
    ensures
        block_at(s, p) matches Some(b) ==> p < b.end <= s.len(),
{
    broadcast use lemma_find_from, lemma_find_on_line;
}

/// The name as the catalog shows it: full-width plus signs, spaces and hyphens
/// are removed.
pub open spec fn normalize_name(s: Seq<char>) -> Seq<char>
    decreases s.len(),
{
    if s.len() == 0 {
        s
    } else {
        let r = normalize_name(s.drop_last());
        let c = s.last();
        if c == '\u{FF0B}' || c == ' ' || c == '-' {
            r
        } else {
            r.push(c)
        }
    }
}

pub open spec fn is_digit(c: char) -> bool {
    '0' <= c && c <= '9'
}

/// The value of a string of decimal digits.
pub open spec fn decimal_value(s: Seq<char>) -> nat
    decreases s.len(),
{
    if s.len() == 0 {
        0
    } else {
        decimal_value(s.drop_last()) * 10 + (s.last() as nat - '0' as nat) as nat
    }
}

/// The value of `d` if it is one or more ASCII digits whose value fits in
/// 64 bits.
pub open spec fn parse_digits(d: Seq<char>) -> Option<u64> {
    if d.len() > 0 && (forall|i: int| 0 <= i < d.len() ==> is_digit(#[trigger] d[i]))
        && decimal_value(d) <= u64::MAX {
        Some(decimal_value(d) as u64)
    } else {
        None
    }
}

/// What `u64`'s `from_str` reads from `s`: an optional `+`, then the digits.
pub open spec fn parse_u64(s: Seq<char>) -> Option<u64> {
    parse_digits(if s.len() > 0 && s[0] == '+' { s.drop_first() } else { s })
}

/// The sum of the character codes of `s`.
pub open spec fn code_sum(s: Seq<char>) -> nat
    decreases s.len(),
{
    if s.len() == 0 {
        0
    } else {
        code_sum(s.drop_last()) + (s.last() as u32) as nat
    }
}

/// The numeric channel id: the decimal value of the raw id, or else the sum
/// of its character codes, modulo 2^64. Distinct raw ids may collide.
pub open spec fn channel_id(s: Seq<char>) -> u64 {
    match parse_u64(s) {
        Some(v) => v,
        None => (code_sum(s) % 0x1_0000_0000_0000_0000) as u64,
    }
}

/// The channel record that a block stands for, with an empty guide.
pub open spec fn channel_of(b: BlockSpan) -> ChannelView {
    ChannelView {
        id: channel_id(b.id),
        user_channel_id: b.user_id,
        name: normalize_name(b.name),
        rtsp: b.timeshift,
        igmp: b.multicast,
        epg: Seq::empty(),
    }
}

/// The channels of every block from position `from` on, in document order;
/// after a block the search resumes where it ended.
pub open spec fn catalog_from(s: Seq<char>, from: int) -> Seq<ChannelView>
    decreases s.len() - from,
{
    if from < 0 || from >= s.len() {
        Seq::empty()
    } else {
        match block_at(s, from) {
            Some(b) => {
                proof {
                    lemma_block_end(s, from);
                }
                seq![channel_of(b)] + catalog_from(s, b.end)
            },
            None => catalog_from(s, from + 1),
        }
    }
}

/// The catalog that the page `s` announces.
pub open spec fn catalog(s: Seq<char>) -> Seq<ChannelView> {
    catalog_from(s, 0)
}

/// Extracting the catalog twice from the same page gives equal channel
/// sequences, in the same order.
pub proof fn lemma_extraction_repeatable(text: Seq<char>, first: Seq<Channel>, second: Seq<Channel>)
    requires
        channels_view(first) == catalog(text),
        channels_view(second) == catalog(text),
    ensures
        channels_view(first) == channels_view(second),
        first.len() == second.len(),
{
    assert(first.len() == channels_view(first).len());
    assert(second.len() == channels_view(second).len());
}

pub open spec fn as_pos(r: Option<usize>) -> Option<int> {
    match r {
        Some(i) => Some(i as int),
        None => None,
    }
}

fn find_char(v: &Vec<char>, from: usize, c: char) -> (r: Option<usize>)
    ensures
        as_pos(r) == find_from(v@, from as int, c),
        r matches Some(i) ==> from <= i < v.len() && v@[i as int] == c,
{
    let mut i: usize = from;
    while i < v.len()
        invariant
            from <= i,
            find_from(v@, i as int, c) == find_from(v@, from as int, c),
        decreases v.len() - i,
    {
        if v[i] == c {
            return Some(i);
        }
        i += 1;
    }
    None
}

fn find_lit_on_line(v: &Vec<char>, from: usize, lit: &Vec<char>) -> (r: Option<usize>)
    ensures
        as_pos(r) == find_on_line(v@, from as int, lit@),
        r matches Some(i) ==> from <= i < v.len() && occurs_at(v@, i as int, lit@),
{
    let mut i: usize = from;
    while i < v.len()
        invariant
            from <= i,
            find_on_line(v@, i as int, lit@) == find_on_line(v@, from as int, lit@),
        decreases v.len() - i,
    {
        if starts_at(v, i, lit) {
            return Some(i);
        }
        if v[i] == '\n' {
            return None;
        }
        i += 1;
    }
    None
}

/// The keywords of the grammar, as character vectors.
struct Keywords {
    head: Vec<char>,
    call: Vec<char>,
    id: Vec<char>,
    name: Vec<char>,
    user: Vec<char>,
    url: Vec<char>,
    url_end: Vec<char>,
    timeshift: Vec<char>,
}

impl Keywords {
    spec fn wf(&self) -> bool {
        &&& self.head@ == kw_head()
        &&& self.call@ == kw_call()
        &&& self.id@ == kw_id()
        &&& self.name@ == kw_name()
        &&& self.user@ == kw_user()
        &&& self.url@ == kw_url()
        &&& self.url_end@ == kw_url_end()
        &&& self.timeshift@ == kw_timeshift()
    }

    fn new() -> (k: Keywords)
        ensures
            k.wf(),
    {
        Keywords {
            head: chars_of("Authentication"),
            call: chars_of("CTCSetConfig"),
            id: chars_of("ChannelID="),
            name: chars_of("\",ChannelName=\""),
            user: chars_of("\",UserChannelID=\""),
            url: chars_of("\",ChannelURL=\""),
            url_end: chars_of("\","),
            timeshift: chars_of("TimeShiftURL=\""),
        }
    }
}

/// Positions of the fields of one block in the page.
struct BlockPos {
    end: usize,
    id: (usize, usize),
    name: (usize, usize),
    user_id: (usize, usize),
    multicast: (usize, usize),
    timeshift: (usize, usize),
}

spec fn span_ok(s: Seq<char>, r: (usize, usize)) -> bool {
    r.0 <= r.1 <= s.len()
}

spec fn span_text(s: Seq<char>, r: (usize, usize)) -> Seq<char> {
    s.subrange(r.0 as int, r.1 as int)
}

fn tail_at(v: &Vec<char>, m0: usize, k: &Keywords) -> (r: Option<(usize, (usize, usize), (usize, usize))>)
    requires
        k.wf(),
    ensures
        match r {
            None => block_tail(v@, m0 as int) is None,
            Some((end, mc, ts)) => span_ok(v@, mc) && span_ok(v@, ts) && block_tail(v@, m0 as int)
                == Some((end as int, span_text(v@, mc), span_text(v@, ts))),
        },
{
    broadcast use lemma_find_from, lemma_find_on_line;

    let bar = match find_char(v, m0, '|') {
        None => return None,
        Some(i) => i,
    };
    let q5 = match find_char(v, bar + 1, '"') {
        None => return None,
        Some(i) => i,
    };
    if !starts_at(v, q5, &k.url_end) {
        return None;
    }
    let t = match find_lit_on_line(v, q5 + k.url_end.len(), &k.timeshift) {
        None => return None,
        Some(i) => i,
    };
    let t0 = t + k.timeshift.len();
    let q6 = match find_char(v, t0, '"') {
        None => return None,
        Some(i) => i,
    };
    Some((q6 + 1, (m0, bar), (t0, q6)))
}

fn block_pos(v: &Vec<char>, p: usize, k: &Keywords) -> (r: Option<BlockPos>)
    requires
        k.wf(),
        p < v.len(),
    ensures
        match r {
            None => block_at(v@, p as int) is None,
            Some(b) => {
                &&& span_ok(v@, b.id) && span_ok(v@, b.name) && span_ok(v@, b.user_id)
                &&& span_ok(v@, b.multicast) && span_ok(v@, b.timeshift)
                &&& block_at(v@, p as int) == Some(BlockSpan {
                    end: b.end as int,
                    id: span_text(v@, b.id),
                    name: span_text(v@, b.name),
                    user_id: span_text(v@, b.user_id),
                    multicast: span_text(v@, b.multicast),
                    timeshift: span_text(v@, b.timeshift),
                })
            },
        },
{
    broadcast use lemma_find_from, lemma_find_on_line;

    if !starts_at(v, p, &k.head) {
        return None;
    }
    let h = p + k.head.len();
    if h >= v.len() || v[h] == '\n' {
        return None;
    }
    let c0 = h + 1;
    if !starts_at(v, c0, &k.call) {
        return None;
    }
    let g0 = c0 + k.call.len();
    let q1 = match find_char(v, g0, '"') {
        None => return None,
        Some(i) => i,
    };
    if q1 - g0 < k.id.len() || !starts_at(v, q1 - k.id.len(), &k.id) {
        return None;
    }
    let q2 = match find_char(v, q1 + 1, '"') {
        None => return None,
        Some(i) => i,
    };
    if !starts_at(v, q2, &k.name) {
        return None;
    }
    let n0 = q2 + k.name.len();
    let q3 = match find_char(v, n0, '"') {
        None => return None,
        Some(i) => i,
    };
    if !starts_at(v, q3, &k.user) {
        return None;
    }
    let u0 = q3 + k.user.len();
    let q4 = match find_char(v, u0, '"') {
        None => return None,
        Some(i) => i,
    };
    if !starts_at(v, q4, &k.url) {
        return None;
    }
    match tail_at(v, q4 + k.url.len(), k) {
        None => None,
        Some((end, multicast, timeshift)) => Some(BlockPos {
            end,
            id: (q1 + 1, q2),
            name: (n0, q3),
            user_id: (u0, q4),
            multicast,
            timeshift,
        }),
    }
}

/// The name of a channel, normalised.
fn normalized_name(f: &Vec<char>) -> (r: String)
    ensures
        r@ == normalize_name(f@),
{
    let mut out = String::new();
    let mut i: usize = 0;
    while i < f.len()
        invariant
            i <= f.len(),
            out@ == normalize_name(f@.subrange(0, i as int)),
        decreases f.len() - i,
    {
        let c = f[i];
        assert(f@.subrange(0, i + 1).drop_last() == f@.subrange(0, i as int));
        if c != '\u{FF0B}' && c != ' ' && c != '-' {
            push_char(&mut out, c);
        }
        i += 1;
    }
    assert(f@.subrange(0, f.len() as int) == f@);
    out
}

/// The value of a string of digits is at least that of any of its prefixes.
proof fn lemma_decimal_prefix(s: Seq<char>, j: int)
    requires
        0 <= j <= s.len(),
    ensures
        decimal_value(s) >= decimal_value(s.subrange(0, j)),
    decreases s.len(),
{
    if j < s.len() {
        assert(s.drop_last() == s.subrange(0, s.len() - 1));
        assert(s.subrange(0, s.len() - 1).subrange(0, j) == s.subrange(0, j));
        lemma_decimal_prefix(s.drop_last(), j);
    } else {
        assert(s.subrange(0, j) == s);
    }
}

/// What `u64`'s `from_str` makes of `v`.
pub(crate) fn parse_decimal(v: &Vec<char>) -> (r: Option<u64>)
    ensures
        r == parse_u64(v@),
{
    let start: usize = if v.len() > 0 && v[0] == '+' { 1 } else { 0 };
    let ghost d = v@.subrange(start as int, v.len() as int);
    assert(d == if v@.len() > 0 && v@[0] == '+' { v@.drop_first() } else { v@ });
    if start == v.len() {
        return None;
    }
    let mut acc: u64 = 0;
    let mut i: usize = start;
    while i < v.len()
        invariant
            start <= i <= v.len(),
            d == v@.subrange(start as int, v.len() as int),
            d == (if v@.len() > 0 && v@[0] == '+' { v@.drop_first() } else { v@ }),
            acc == decimal_value(d.subrange(0, i - start)),
            forall|j: int| 0 <= j < i - start ==> is_digit(#[trigger] d[j]),
        decreases v.len() - i,
    {
        let c = v[i];
        if !('0' <= c && c <= '9') {
            assert(!is_digit(d[i - start]));
            return None;
        }
        let dig: u64 = (c as u32 - '0' as u32) as u64;
        assert(d.subrange(0, i - start + 1).drop_last() == d.subrange(0, i - start));
        if acc > (u64::MAX - dig) / 10 {
            proof {
                lemma_decimal_prefix(d, i - start + 1);
                assert(acc * 10 + dig > u64::MAX) by (nonlinear_arith)
                    requires
                        acc > (u64::MAX - dig) / 10,
                        dig <= 9,
                ;
                assert(d.subrange(0, i - start + 1).last() == c);
            }
            return None;
        }
        acc = acc * 10 + dig;
        i += 1;
    }
    assert(d.subrange(0, d.len() as int) == d);
    Some(acc)
}

/// The sum of the character codes of `v`, modulo 2^64.
fn code_sum_of(v: &Vec<char>) -> (r: u64)
    ensures
        r == code_sum(v@) % 0x1_0000_0000_0000_0000,
{
    let mut sum: u64 = 0;
    let mut i: usize = 0;
    while i < v.len()
        invariant
            i <= v.len(),
            sum == code_sum(v@.subrange(0, i as int)) % 0x1_0000_0000_0000_0000,
        decreases v.len() - i,
    {
        let c: u64 = v[i] as u32 as u64;
        assert(v@.subrange(0, i + 1).drop_last() == v@.subrange(0, i as int));
        proof {
            let a = code_sum(v@.subrange(0, i as int)) as int;
            lemma_add_mod_noop(a, c as int, 0x1_0000_0000_0000_0000);
            lemma_small_mod(c as nat, 0x1_0000_0000_0000_0000);
        }
        sum = sum.wrapping_add(c);
        i += 1;
    }
    assert(v@.subrange(0, v.len() as int) == v@);
    sum
}

/// The numeric id of a channel from its raw id text.
fn channel_id_of(v: &Vec<char>) -> (r: u64)
    ensures
        r == channel_id(v@),
{
    match parse_decimal(v) {
        Some(n) => n,
        None => code_sum_of(v),
    }
}

fn channel_from_block(v: &Vec<char>, b: &BlockPos) -> (r: Channel)
    requires
        span_ok(v@, b.id) && span_ok(v@, b.name) && span_ok(v@, b.user_id),
        span_ok(v@, b.multicast) && span_ok(v@, b.timeshift),
    ensures
        r@ == channel_of(BlockSpan {
            end: b.end as int,
            id: span_text(v@, b.id),
            name: span_text(v@, b.name),
            user_id: span_text(v@, b.user_id),
            multicast: span_text(v@, b.multicast),
            timeshift: span_text(v@, b.timeshift),
        }),
{
    let id = sub_vec(v, b.id.0, b.id.1);
    let name = sub_vec(v, b.name.0, b.name.1);
    let user = sub_vec(v, b.user_id.0, b.user_id.1);
    let mc = sub_vec(v, b.multicast.0, b.multicast.1);
    let ts = sub_vec(v, b.timeshift.0, b.timeshift.1);
    let r = Channel {
        id: channel_id_of(&id),
        user_channel_id: string_from_chars(&user),
        name: normalized_name(&name),
        rtsp: string_from_chars(&ts),
        igmp: string_from_chars(&mc),
        epg: Vec::new(),
    };
    assert(r@.epg == Seq::<crate::channel::ProgramView>::empty());
    r
}

/// Every channel block of the channel-list page `text`, in document order.
/// Text that does not fit the grammar is skipped; a page without blocks gives
/// an empty catalog.
pub fn parse_channel_list(text: &str) -> (r: Vec<Channel>)
    ensures
        channels_view(r@) == catalog(text@),
{
    let v = chars_of(text);
    let k = Keywords::new();
    let mut out: Vec<Channel> = Vec::new();
    let mut p: usize = 0;
    while p < v.len()
        invariant
            k.wf(),
            v@ == text@,
            p <= v.len(),
            channels_view(out@) + catalog_from(v@, p as int) == catalog(v@),
        decreases v.len() - p,
    {
        match block_pos(&v, p, &k) {
            Some(b) => {
                let c = channel_from_block(&v, &b);
                proof {
                    lemma_block_end(v@, p as int);
                }
                let ghost before = out@;
                out.push(c);
                assert(channels_view(out@) == channels_view(before).push(c@));
                assert(channels_view(out@) + catalog_from(v@, b.end as int)
                    == channels_view(before) + catalog_from(v@, p as int));
                p = b.end;
            },
            None => {
                p += 1;
            },
        }
    }
    assert(catalog_from(v@, p as int) == Seq::<ChannelView>::empty());
    assert(channels_view(out@) + Seq::<ChannelView>::empty() == channels_view(out@));
    out
}

} // verus!
