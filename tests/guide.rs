use iptv_proxy::{
    bare_channel, bulk_guide_window, cal_date_range, channel_date_guide, merge_guide_results, Bill, Channel,
    IptvError, Program,
};

fn channel(id: u64, name: &str) -> Channel {
    Channel {
        id,
        user_channel_id: id.to_string(),
        name: name.to_string(),
        rtsp: format!("rtsp://t/{}", id),
        igmp: format!("igmp://m/{}", id),
        epg: Vec::new(),
    }
}

fn bill(name: &str, s: i64, e: i64) -> Bill {
    Bill { name: name.to_string(), start_time: s, end_time: e }
}

#[test]
fn day_range_of_compact_date() {
    let r = cal_date_range("20241201").unwrap();
    assert_eq!(r, (1732982400000, 1733068800000));
}

#[test]
fn day_range_same_for_every_format() {
    let expected = (1732982400000, 1733068800000);
    for s in ["20241201", "2024-12-01", "2024/12/01", "01-12-2024", "01/12/2024"] {
        assert_eq!(cal_date_range(s).unwrap(), expected, "{}", s);
    }
}

#[test]
fn day_range_rejects_unreadable_date() {
    match cal_date_range("2024.12.01") {
        Err(IptvError::Parse(s)) => assert_eq!(s, "2024.12.01"),
        _ => panic!("expected a parse error"),
    }
    assert!(matches!(cal_date_range("20241301"), Err(IptvError::Parse(_))));
}

#[test]
fn day_range_of_leap_day() {
    // 2024-02-29T00:00:00+08:00 is 1709136000 seconds after the epoch.
    assert_eq!(cal_date_range("2024-02-29").unwrap(), (1709136000000, 1709222400000));
}

#[test]
fn bulk_window_spans_nine_days() {
    let now = 1_733_000_000_000i64;
    assert_eq!(bulk_guide_window(now), (now - 7 * 86_400_000, now + 2 * 86_400_000));
}

#[test]
fn bulk_merge_keeps_every_channel() {
    let done = vec![
        (channel(3, "C"), None),
        (channel(1, "A"), Some(vec![bill("News", 10, 20), bill("Film", 20, 30)])),
        (channel(2, "B"), None),
        (channel(4, "D"), Some(vec![])),
    ];
    let out = merge_guide_results(done);
    assert_eq!(out.len(), 4);
    assert_eq!(out.iter().map(|c| c.id).collect::<Vec<_>>(), vec![3, 1, 2, 4]);
    assert!(out[0].epg.is_empty());
    assert_eq!(out[1].epg.len(), 2);
    assert_eq!(out[1].epg[1].title, "Film");
    assert_eq!(out[1].epg[1].desc, "Film");
    assert_eq!((out[1].epg[1].start, out[1].epg[1].stop), (20, 30));
    assert!(out[2].epg.is_empty());
    assert!(out[3].epg.is_empty());
}

#[test]
fn bulk_merge_appends_to_existing_guide() {
    let mut c = channel(9, "Z");
    c.epg.push(Program { start: 1, stop: 2, title: "Old".into(), desc: "Old".into() });
    let out = merge_guide_results(vec![(c, Some(vec![bill("New", 3, 4)]))]);
    assert_eq!(out[0].epg.len(), 2);
    assert_eq!(out[0].epg[0].title, "Old");
    assert_eq!(out[0].epg[1].title, "New");
}

#[test]
fn bulk_merge_of_nothing() {
    assert!(merge_guide_results(vec![]).is_empty());
}

#[test]
fn targeted_guide_holds_only_fetched_programs() {
    let c = channel_date_guide(77, &vec![bill("A", 5, 1), bill("B", 6, 7)]);
    assert_eq!(c.id, 77);
    assert_eq!(c.name, "");
    assert_eq!(c.epg.len(), 2);
    assert_eq!((c.epg[0].start, c.epg[0].stop), (5, 1));
}

#[test]
fn bare_channel_for_failed_query() {
    let c = bare_channel(5, "CCTV1");
    assert_eq!(c.id, 5);
    assert_eq!(c.name, "CCTV1");
    assert_eq!(c.user_channel_id, "0");
    assert!(c.rtsp.is_empty() && c.igmp.is_empty() && c.epg.is_empty());
}
