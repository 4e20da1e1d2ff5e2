//! Published channel names: cleaning rules, the name map, and small text
//! helpers of the request handlers.

use vstd::prelude::*;
use vstd::utf8::encode_utf8;
use crate::catalog::{parse_decimal, parse_u64};
use crate::catalog::as_pos;
use crate::text::{
    char_width, chars_of, lemma_encode_utf8_concat, occurs_at, push_char, push_str, starts_at, string_from_chars,
    string_of, sub_vec,
};

verus! {

/// The length of `s` in UTF-8 bytes.
pub open spec fn byte_len(s: Seq<char>) -> nat {
    encode_utf8(s).len()
}

/// Inserts `x` into `s`, which is ordered by decreasing byte length, after
/// every element at least as long as `x`.
pub open spec fn insert_by_len(s: Seq<Seq<char>>, x: Seq<char>) -> Seq<Seq<char>>
    decreases s.len(),
{
    if s.len() == 0 || byte_len(s.last()) >= byte_len(x) {
        s.push(x)
    } else {
        insert_by_len(s.drop_last(), x).push(s.last())
    }
}

/// `ps` ordered by decreasing byte length; equally long ones keep their order.
pub open spec fn sort_by_len(ps: Seq<Seq<char>>) -> Seq<Seq<char>>
    decreases ps.len(),
{
    if ps.len() == 0 {
        ps
    } else {
        insert_by_len(sort_by_len(ps.drop_last()), ps.last())
    }
}

/// `s` without consecutive repeats.
pub open spec fn dedup(s: Seq<Seq<char>>) -> Seq<Seq<char>>
    decreases s.len(),
{
    if s.len() == 0 {
        s
    } else {
        let r = dedup(s.drop_last());
        if r.len() > 0 && r.last() == s.last() {
            r
        } else {
            r.push(s.last())
        }
    }
}

/// `s` with every occurrence of `p` removed, scanning from the left without
/// overlaps; an empty `p` removes nothing.
pub open spec fn remove_all(s: Seq<char>, p: Seq<char>) -> Seq<char>
    decreases s.len(),
{
    if p.len() == 0 || s.len() < p.len() {
        s
    } else if s.subrange(0, p.len() as int) == p {
        remove_all(s.subrange(p.len() as int, s.len() as int), p)
    } else {
        seq![s[0]] + remove_all(s.drop_first(), p)
    }
}

/// `s` with the patterns `ps` removed one after the other.
pub open spec fn remove_each(s: Seq<char>, ps: Seq<Seq<char>>) -> Seq<char>
    decreases ps.len(),
{
    if ps.len() == 0 {
        s
    } else {
        remove_all(remove_each(s, ps.drop_last()), ps.last())
    }
}

/// The characters with the Unicode White_Space property.
pub open spec fn is_white_space(c: char) -> bool {
    ('\u{9}' <= c && c <= '\u{D}') || c == ' ' || c == '\u{85}' || c == '\u{A0}' || c == '\u{1680}'
        || ('\u{2000}' <= c && c <= '\u{200A}') || c == '\u{2028}' || c == '\u{2029}' || c == '\u{202F}'
        || c == '\u{205F}' || c == '\u{3000}'
}

pub open spec fn trim_start(s: Seq<char>) -> Seq<char>
    decreases s.len(),
{
    if s.len() > 0 && is_white_space(s[0]) {
        trim_start(s.drop_first())
    } else {
        s
    }
}

pub open spec fn trim_end(s: Seq<char>) -> Seq<char>
    decreases s.len(),
{
    if s.len() > 0 && is_white_space(s.last()) {
        trim_end(s.drop_last())
    } else {
        s
    }
}

/// `s` without leading and trailing white space.
pub open spec fn trim(s: Seq<char>) -> Seq<char> {
    trim_end(trim_start(s))
}

/// The value of the first entry of `m` whose key is `k`.
pub open spec fn map_lookup(m: Seq<(Seq<char>, Seq<char>)>, k: Seq<char>) -> Option<Seq<char>>
    decreases m.len(),
{
    if m.len() == 0 {
        None
    } else if m[0].0 == k {
        Some(m[0].1)
    } else {
        map_lookup(m.drop_first(), k)
    }
}

pub open spec fn pair_views(m: Seq<(String, String)>) -> Seq<(Seq<char>, Seq<char>)> {
    m.map_values(|e: (String, String)| (e.0@, e.1@))
}

pub open spec fn string_views(v: Seq<String>) -> Seq<Seq<char>> {
    v.map_values(|s: String| s@)
}

/// The published name of a channel: the cleaning patterns, longest first and
/// without repeats, are removed one after the other; the rest is trimmed; the
/// name map then replaces it if it has an entry for it.
pub open spec fn formatted_name(
    name: Seq<char>,
    mapping: Option<Seq<(Seq<char>, Seq<char>)>>,
    clean: Seq<Seq<char>>,
) -> Seq<char> {
    let cleaned = trim(remove_each(name, dedup(sort_by_len(clean))));
    match mapping {
        Some(m) => match map_lookup(m, cleaned) {
            Some(v) => v,
            None => cleaned,
        },
        None => cleaned,
    }
}

proof fn lemma_insert_at(s: Seq<Seq<char>>, x: Seq<char>, j: int)
    requires
        0 <= j <= s.len(),
        j == 0 || byte_len(s[j - 1]) >= byte_len(x),
        forall|k: int| j <= k < s.len() ==> byte_len(#[trigger] s[k]) < byte_len(x),
    ensures
        insert_by_len(s, x) == s.subrange(0, j) + seq![x] + s.subrange(j, s.len() as int),
    decreases s.len(),
{
    if s.len() == 0 {
        assert(s.subrange(0, 0) + seq![x] + s.subrange(0, 0) == seq![x]);
    } else if byte_len(s.last()) >= byte_len(x) {
        assert(j == s.len());
        assert(s.subrange(0, j) == s);
        assert(s.subrange(0, j) + seq![x] + s.subrange(j, s.len() as int) == s.push(x));
    } else {
        let d = s.drop_last();
        assert(j < s.len());
        lemma_insert_at(d, x, j);
        assert(d.subrange(0, j) == s.subrange(0, j));
        assert(s.subrange(j, s.len() as int) == d.subrange(j, d.len() as int).push(s.last()));
        assert((d.subrange(0, j) + seq![x] + d.subrange(j, d.len() as int)).push(s.last())
            == s.subrange(0, j) + seq![x] + s.subrange(j, s.len() as int));
    }
}

spec fn pattern_chars(v: Seq<(usize, Vec<char>)>) -> Seq<Seq<char>> {
    v.map_values(|e: (usize, Vec<char>)| e.1@)
}

spec fn lengths_ok(v: Seq<(usize, Vec<char>)>) -> bool {
    forall|k: int| 0 <= k < v.len() ==> (#[trigger] v[k]).0 == byte_len(v[k].1@)
}

/// The cleaning patterns in the order they are applied.
fn ordered_patterns(clean: &[String]) -> (r: Vec<Vec<char>>)
    ensures
        r@.map_values(|v: Vec<char>| v@) == dedup(sort_by_len(string_views(clean@))),
{
    let mut sorted: Vec<(usize, Vec<char>)> = Vec::new();
    let mut i: usize = 0;
    while i < clean.len()
        invariant
            i <= clean.len(),
            lengths_ok(sorted@),
            pattern_chars(sorted@) == sort_by_len(string_views(clean@.subrange(0, i as int))),
        decreases clean.len() - i,
    {
        let x = chars_of(clean[i].as_str());
        let n = clean[i].as_str().as_bytes().len();
        let mut j: usize = sorted.len();
        while j > 0 && sorted[j - 1].0 < n
            invariant
                j <= sorted.len(),
                lengths_ok(sorted@),
                n == byte_len(x@),
                forall|k: int| j <= k < sorted.len() ==> byte_len(#[trigger] pattern_chars(sorted@)[k]) < byte_len(x@),
            decreases j,
        {
            j -= 1;
        }
        let ghost before = sorted@;
        proof {
            lemma_insert_at(pattern_chars(before), x@, j as int);
            assert(string_views(clean@.subrange(0, i + 1)).drop_last() == string_views(clean@.subrange(0, i as int)));
            assert(string_views(clean@.subrange(0, i + 1)).last() == x@);
        }
        sorted.insert(j, (n, x));
        assert(pattern_chars(sorted@) == pattern_chars(before).subrange(0, j as int) + seq![x@]
            + pattern_chars(before).subrange(j as int, before.len() as int));
        assert forall|k: int| 0 <= k < sorted@.len() implies (#[trigger] sorted@[k]).0 == byte_len(sorted@[k].1@) by {
            if k < j {
                assert(sorted@[k] == before[k]);
            } else if k > j {
                assert(sorted@[k] == before[k - 1]);
            }
        }
        i += 1;
    }
    assert(clean@.subrange(0, clean.len() as int) == clean@);
    let mut out: Vec<Vec<char>> = Vec::new();
    let mut k: usize = 0;
    while k < sorted.len()
        invariant
            k <= sorted.len(),
            out@.map_values(|v: Vec<char>| v@) == dedup(pattern_chars(sorted@).subrange(0, k as int)),
        decreases sorted.len() - k,
    {
        let ghost ps = pattern_chars(sorted@).subrange(0, k + 1);
        assert(ps.drop_last() == pattern_chars(sorted@).subrange(0, k as int));
        assert(ps.last() == sorted@[k as int].1@);
        let same = out.len() > 0 && same_chars(&out[out.len() - 1], &sorted[k].1);
        if !same {
            let ghost before = out@;
            out.push(sorted[k].1.clone());
            assert(out@.map_values(|v: Vec<char>| v@) == before.map_values(|v: Vec<char>| v@).push(sorted@[k as int].1@));
        }
        k += 1;
    }
    assert(pattern_chars(sorted@).subrange(0, sorted.len() as int) == pattern_chars(sorted@));
    out
}

fn same_chars(a: &Vec<char>, b: &Vec<char>) -> (r: bool)
    ensures
        r == (a@ == b@),
{
    if a.len() != b.len() {
        return false;
    }
    let mut i: usize = 0;
    while i < a.len()
        invariant
            a.len() == b.len(),
            i <= a.len(),
            a@.subrange(0, i as int) == b@.subrange(0, i as int),
        decreases a.len() - i,
    {
        if a[i] != b[i] {
            return false;
        }
        assert(a@.subrange(0, i + 1) == a@.subrange(0, i as int).push(a@[i as int]));
        assert(b@.subrange(0, i + 1) == b@.subrange(0, i as int).push(b@[i as int]));
        i += 1;
    }
    assert(a@ == a@.subrange(0, a.len() as int));
    assert(b@ == b@.subrange(0, b.len() as int));
    true
}

/// `v` with every occurrence of `p` removed.
fn remove_pattern(v: &Vec<char>, p: &Vec<char>) -> (r: Vec<char>)
    ensures
        r@ == remove_all(v@, p@),
{
    let mut out: Vec<char> = Vec::new();
    let mut i: usize = 0;
    assert(v@.subrange(0, v.len() as int) == v@);
    while i < v.len()
        invariant
            i <= v.len(),
            out@ + remove_all(v@.subrange(i as int, v.len() as int), p@) == remove_all(v@, p@),
        decreases v.len() - i,
    {
        let ghost rest = v@.subrange(i as int, v.len() as int);
        if p.len() > 0 && starts_at(v, i, p) {
            assert(rest.subrange(0, p@.len() as int) == p@);
            assert(rest.subrange(p@.len() as int, rest.len() as int) == v@.subrange(i + p.len(), v.len() as int));
            i += p.len();
        } else {
            assert(rest.drop_first() == v@.subrange(i + 1, v.len() as int));
            proof {
                if p@.len() > 0 && rest.len() >= p@.len() {
                    assert(!occurs_at(v@, i as int, p@));
                    assert(rest.subrange(0, p@.len() as int) == v@.subrange(i as int, i + p@.len()));
                }
            }
            assert(rest == seq![v@[i as int]] + rest.drop_first());
            let ghost before = out@;
            out.push(v[i]);
            assert(out@ == before + seq![v@[i as int]]);
            i += 1;
        }
    }
    assert(v@.subrange(i as int, v.len() as int).len() == 0);
    assert(out@ + Seq::<char>::empty() == out@);
    out
}

fn is_white_space_char(c: char) -> (r: bool)
    ensures
        r == is_white_space(c),
{
    ('\u{9}' <= c && c <= '\u{D}') || c == ' ' || c == '\u{85}' || c == '\u{A0}' || c == '\u{1680}'
        || ('\u{2000}' <= c && c <= '\u{200A}') || c == '\u{2028}' || c == '\u{2029}' || c == '\u{202F}'
        || c == '\u{205F}' || c == '\u{3000}'
}

/// `v` without leading and trailing white space.
fn trimmed(v: &Vec<char>) -> (r: String)
    ensures
        r@ == trim(v@),
{
    let mut a: usize = 0;
    assert(v@.subrange(0, v.len() as int) == v@);
    while a < v.len() && is_white_space_char(v[a])
        invariant
            a <= v.len(),
            trim_start(v@.subrange(a as int, v.len() as int)) == trim_start(v@),
        decreases v.len() - a,
    {
        assert(v@.subrange(a as int, v.len() as int).drop_first() == v@.subrange(a + 1, v.len() as int));
        a += 1;
    }
    let mut b: usize = v.len();
    assert(trim_start(v@) == v@.subrange(a as int, v.len() as int));
    while b > a && is_white_space_char(v[b - 1])
        invariant
            a <= b <= v.len(),
            trim_end(v@.subrange(a as int, b as int)) == trim(v@),
        decreases b,
    {
        assert(v@.subrange(a as int, b as int).drop_last() == v@.subrange(a as int, b - 1));
        b -= 1;
    }
    let w = crate::text::sub_vec(v, a, b);
    string_from_chars(&w)
}

/// The published name of a channel; see `formatted_name`.
pub fn format_channel_name(name: &str, name_mapping: Option<&Vec<(String, String)>>, name_clean: &[String]) -> (r: String)
    ensures
        r@ == formatted_name(
            name@,
            match name_mapping {
                Some(m) => Some(pair_views(m@)),
                None => None,
            },
            string_views(name_clean@),
        ),
{
    let patterns = ordered_patterns(name_clean);
    let mut cleaned = chars_of(name);
    let mut i: usize = 0;
    while i < patterns.len()
        invariant
            i <= patterns.len(),
            cleaned@ == remove_each(name@, patterns@.map_values(|v: Vec<char>| v@).subrange(0, i as int)),
        decreases patterns.len() - i,
    {
        let ghost ps = patterns@.map_values(|v: Vec<char>| v@).subrange(0, i + 1);
        assert(ps.drop_last() == patterns@.map_values(|v: Vec<char>| v@).subrange(0, i as int));
        cleaned = remove_pattern(&cleaned, &patterns[i]);
        i += 1;
    }
    assert(patterns@.map_values(|v: Vec<char>| v@).subrange(0, patterns.len() as int)
        == patterns@.map_values(|v: Vec<char>| v@));
    let result = trimmed(&cleaned);
    match name_mapping {
        None => result,
        Some(m) => match lookup_name(m, &result) {
            Some(v) => v,
            None => result,
        },
    }
}

/// The value of the first entry of `m` whose key is `key`.
fn lookup_name(m: &Vec<(String, String)>, key: &String) -> (r: Option<String>)
    ensures
        match r {
            Some(v) => map_lookup(pair_views(m@), key@) == Some(v@),
            None => map_lookup(pair_views(m@), key@) is None,
        },
{
    let mut k: usize = 0;
    assert(pair_views(m@).subrange(0, m.len() as int) == pair_views(m@));
    while k < m.len()
        invariant
            k <= m.len(),
            map_lookup(pair_views(m@).subrange(k as int, m.len() as int), key@)
                == map_lookup(pair_views(m@), key@),
        decreases m.len() - k,
    {
        let ghost rest = pair_views(m@).subrange(k as int, m.len() as int);
        assert(rest[0] == (m@[k as int].0@, m@[k as int].1@));
        if m[k].0 == *key {
            return Some(m[k].1.clone());
        }
        assert(rest.drop_first() == pair_views(m@).subrange(k + 1, m.len() as int));
        k += 1;
    }
    None
}

/// `n` asterisks.
pub open spec fn stars(n: nat) -> Seq<char> {
    Seq::new(n, |i: int| '*')
}

/// The number of UTF-8 bytes of the first `i` characters of `p`.
pub open spec fn prefix_bytes(p: Seq<char>, i: int) -> nat {
    encode_utf8(p.subrange(0, i)).len()
}

/// The number of characters of `p` that take up exactly its first `k` UTF-8
/// bytes, if byte `k` falls on a character boundary.
pub open spec fn cut_at(p: Seq<char>, k: nat, i: int) -> Option<int>
    decreases p.len() + 1 - i,
{
    if i < 0 || i > p.len() {
        None
    } else if prefix_bytes(p, i) == k {
        Some(i)
    } else if prefix_bytes(p, i) > k {
        None
    } else {
        cut_at(p, k, i + 1)
    }
}

/// A password as it may be shown, by its length `b` in UTF-8 bytes: up to
/// four bytes as it is; up to eight, its first two and last two bytes around
/// four asterisks; longer, its first four and last four bytes around one
/// asterisk per hidden byte. Where those bytes would split a character, only
/// the asterisks are shown.
pub open spec fn masked(p: Seq<char>) -> Seq<char> {
    let b = encode_utf8(p).len();
    if b <= 4 {
        p
    } else {
        let k: nat = if b <= 8 { 2 } else { 4 };
        let hidden: nat = if b <= 8 { 4 } else { (b - 8) as nat };
        match (cut_at(p, k, 0), cut_at(p, (b - k) as nat, 0)) {
            (Some(i), Some(j)) => p.subrange(0, i) + stars(hidden) + p.subrange(j, p.len() as int),
            _ => stars(hidden),
        }
    }
}

proof fn lemma_prefix_bytes_step(p: Seq<char>, i: int)
    requires
        0 <= i < p.len(),
    ensures
        prefix_bytes(p, i + 1) == prefix_bytes(p, i) + encode_utf8(seq![p[i]]).len(),
{
    assert(p.subrange(0, i + 1) == p.subrange(0, i) + seq![p[i]]);
    lemma_encode_utf8_concat(p.subrange(0, i), seq![p[i]]);
}

/// Where the first `k` UTF-8 bytes of `v` end, in characters; see `cut_at`.
fn cut(v: &Vec<char>, k: usize) -> (r: Option<usize>)
    ensures
        as_pos(r) == cut_at(v@, k as nat, 0),
        r matches Some(i) ==> i <= v.len(),
{
    let mut i: usize = 0;
    let mut acc: usize = 0;
    assert(v@.subrange(0, 0) == Seq::<char>::empty());
    assert(encode_utf8(Seq::<char>::empty()) == Seq::<u8>::empty());
    loop
        invariant
            i <= v.len(),
            acc == prefix_bytes(v@, i as int),
            acc <= k,
            cut_at(v@, k as nat, i as int) == cut_at(v@, k as nat, 0),
        decreases v.len() - i,
    {
        if acc == k {
            return Some(i);
        }
        if i == v.len() {
            assert(cut_at(v@, k as nat, i + 1) is None);
            return None;
        }
        let w = char_width(v[i]);
        proof {
            lemma_prefix_bytes_step(v@, i as int);
        }
        if w > k - acc {
            assert(prefix_bytes(v@, i + 1) > k);
            assert(cut_at(v@, k as nat, i + 1) is None);
            return None;
        }
        acc += w;
        i += 1;
    }
}

/// The password with its middle hidden; see `masked`.
pub fn mask_password(password: &str) -> (r: String)
    ensures
        r@ == masked(password@),
{
    let v = chars_of(password);
    let b = password.as_bytes().len();
    if b <= 4 {
        return string_from_chars(&v);
    }
    let k: usize = if b <= 8 { 2 } else { 4 };
    let hidden: usize = if b <= 8 { 4 } else { b - 8 };
    let mut s = String::new();
    let (head, tail) = (cut(&v, k), cut(&v, b - k));
    if let (Some(i), Some(_)) = (head, tail) {
        s = string_of(&v, 0, i);
    }
    let ghost start = s@;
    let mut n: usize = 0;
    while n < hidden
        invariant
            n <= hidden,
            s@ == start + stars(n as nat),
        decreases hidden - n,
    {
        push_char(&mut s, '*');
        assert(stars((n + 1) as nat) == stars(n as nat).push('*'));
        n += 1;
    }
    match (head, tail) {
        (Some(i), Some(j)) => {
            let rest = string_of(&v, j, v.len());
            push_str(&mut s, rest.as_str());
        },
        _ => {
            assert(start == Seq::<char>::empty());
            assert(start + stars(hidden as nat) == stars(hidden as nat));
        },
    }
    s
}

pub open spec fn is_ascii_char(c: char) -> bool {
    (c as u32) < 128
}

/// `YYYYMMDD` as `YYYY-MM-DD`, reading bytes as `u32`'s `from_str` does: eight
/// UTF-8 bytes, of which the last four are ASCII characters, the first two of
/// them a month from 1 to 12 and the last two a day from 1 to 31; the year
/// part is whatever the first four bytes hold. Anything else gives none.
pub open spec fn dashed_date(s: Seq<char>) -> Option<Seq<char>> {
    let n = s.len() as int;
    if encode_utf8(s).len() == 8 && n >= 4 && (forall|i: int| n - 4 <= i < n ==> is_ascii_char(#[trigger] s[i])) {
        let month = parse_u64(s.subrange(n - 4, n - 2));
        let day = parse_u64(s.subrange(n - 2, n));
        if month is Some && 1 <= month->0 <= 12 && day is Some && 1 <= day->0 <= 31 {
            Some(s.subrange(0, n - 4) + seq!['-'] + s.subrange(n - 4, n - 2) + seq!['-'] + s.subrange(n - 2, n))
        } else {
            None
        }
    } else {
        None
    }
}

/// Whether `v[from..]` is all ASCII.
fn ascii_from(v: &Vec<char>, from: usize) -> (r: bool)
    ensures
        r == (forall|i: int| from <= i < v.len() ==> is_ascii_char(#[trigger] v@[i])),
{
    let mut i: usize = from;
    while i < v.len()
        invariant
            from <= i,
            forall|j: int| from <= j < i ==> is_ascii_char(#[trigger] v@[j]),
        decreases v.len() - i,
    {
        if v[i] as u32 >= 128 {
            assert(!is_ascii_char(v@[i as int]));
            return false;
        }
        i += 1;
    }
    true
}

/// `20251202` becomes `2025-12-02`; see `dashed_date`.
pub fn format_date_string(date_str: &str) -> (r: Option<String>)
    ensures
        match dashed_date(date_str@) {
            Some(d) => r matches Some(t) && t@ == d,
            None => r is None,
        },
{
    if date_str.as_bytes().len() != 8 {
        return None;
    }
    let v = chars_of(date_str);
    let n = v.len();
    if n < 4 || !ascii_from(&v, n - 4) {
        return None;
    }
    let month = parse_decimal(&sub_vec(&v, n - 4, n - 2));
    let day = parse_decimal(&sub_vec(&v, n - 2, n));
    match (month, day) {
        (Some(m), Some(d)) => {
            if 1 <= m && m <= 12 && 1 <= d && d <= 31 {
                let mut s = string_of(&v, 0, n - 4);
                push_char(&mut s, '-');
                push_char(&mut s, v[n - 4]);
                push_char(&mut s, v[n - 3]);
                push_char(&mut s, '-');
                push_char(&mut s, v[n - 2]);
                push_char(&mut s, v[n - 1]);
                assert(s@ == v@.subrange(0, n - 4) + seq!['-'] + v@.subrange(n - 4, n - 2) + seq!['-']
                    + v@.subrange(n - 2, n as int));
                Some(s)
            } else {
                None
            }
        },
        _ => None,
    }
}

} // verus!
