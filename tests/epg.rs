use iptv_proxy::{
    build_mappings, epg_response, guide_request, icon_request, channel_list_request, query_date,
    resolve_channel_id, timestamp_to_hhmm, update_global_mappings, Channel, ChannelDirectory, EpgQuery, IptvError,
    Program, to_xmltv_time, xmltv_keeps_element, xmltv_keeps_start,
};

#[test]
fn hhmm_in_utc_plus_eight() {
    assert_eq!(timestamp_to_hhmm(0), "08:00");
    assert_eq!(timestamp_to_hhmm(1732982400000), "00:00");
    assert_eq!(timestamp_to_hhmm(1733011200000 + 5 * 3600_000 + 7 * 60_000), "13:07");
    assert_eq!(timestamp_to_hhmm(-1), "08:00");
    assert_eq!(timestamp_to_hhmm(-60_000), "07:59");
    assert_eq!(timestamp_to_hhmm(i64::MAX), "00:00");
}

#[test]
fn query_date_normalised() {
    assert_eq!(query_date("20251202"), "2025-12-02");
    assert_eq!(query_date("2025-12-02"), "2025-12-02");
    assert_eq!(query_date("today"), "today");
}

#[test]
fn channel_resolved_by_id_or_name() {
    let mut dir = ChannelDirectory::new();
    let c = Channel { id: 9, user_channel_id: "9".into(), name: "N".into(), rtsp: String::new(), igmp: String::new(), epg: vec![] };
    let (n, i) = build_mappings(&vec![c]);
    update_global_mappings(&mut dir, n, i);
    let q = |ch: &str, id: Option<u64>| EpgQuery { ch: ch.into(), date: "20250101".into(), id };
    assert_eq!(resolve_channel_id(&q("x", Some(4)), &dir).unwrap(), 4);
    assert_eq!(resolve_channel_id(&q("N", None), &dir).unwrap(), 9);
    match resolve_channel_id(&q("M", None), &dir) {
        Err(IptvError::NotFound(s)) => assert_eq!(s, "M"),
        _ => panic!("expected not found"),
    }
}

#[test]
fn response_lists_programs() {
    let c = Channel {
        id: 1,
        user_channel_id: "1".into(),
        name: "CCTV1".into(),
        rtsp: "rtsp://t".into(),
        igmp: "igmp://m".into(),
        epg: vec![Program { start: 0, stop: 3_600_000, title: "News".into(), desc: "News".into() }],
    };
    let r = epg_response("2025-01-01".into(), &c);
    assert_eq!(r.date, "2025-01-01");
    assert_eq!(r.channel_name, "CCTV1");
    assert_eq!(r.url, "igmp://m");
    assert_eq!(r.epg_data.len(), 1);
    assert_eq!((r.epg_data[0].start.as_str(), r.epg_data[0].end.as_str()), ("08:00", "09:00"));
    assert_eq!(r.epg_data[0].title, "News");
}

#[test]
fn guide_and_icon_requests() {
    let g = guide_request("http://b:1", 42, -5, 1733068800000);
    assert_eq!(g.url, "http://b:1/EPG/jsp/iptvsnmv3/en/play/ajax/_ajax_getPlaybillList.jsp");
    let q: Vec<(&str, &str)> = g.query.iter().map(|(k, v)| (k.as_str(), v.as_str())).collect();
    assert_eq!(q, vec![("channelId", "42"), ("begin", "-5"), ("end", "1733068800000")]);
    let i = icon_request("http://b:1", "7");
    assert_eq!(i.url, "http://b:1/EPG/jsp/iptvsnmv3/en/list/images/channelIcon/7.png");
    assert_eq!(channel_list_request("http://b:1").url, "http://b:1/EPG/jsp/getchannellistHWCTC.jsp");
}

#[test]
fn extra_guide_filter() {
    assert!(xmltv_keeps_element("programme"));
    assert!(!xmltv_keeps_element("icon"));
    let attrs = |l: &str| vec![("lang".to_string(), l.to_string())];
    assert!(xmltv_keeps_start("title", &attrs("chi")));
    assert!(!xmltv_keeps_start("title", &attrs("en")));
    assert!(xmltv_keeps_start("desc", &attrs("en")));
    assert!(xmltv_keeps_start("title", &vec![]));
    assert!(!xmltv_keeps_start("tv", &vec![]));
}

#[test]
fn xmltv_times_in_utc_plus_eight() {
    assert_eq!(to_xmltv_time(0).unwrap(), "19700101080000");
    assert_eq!(to_xmltv_time(1733011200000).unwrap(), "20241201080000");
    assert_eq!(to_xmltv_time(1732982400000 + 3_723_000).unwrap(), "20241201010203");
    assert_eq!(to_xmltv_time(-1).unwrap(), "19700101075959");
    assert!(matches!(to_xmltv_time(i64::MAX), Err(IptvError::Parse(_))));
    assert!(matches!(to_xmltv_time(i64::MIN), Err(IptvError::Parse(_))));
}
