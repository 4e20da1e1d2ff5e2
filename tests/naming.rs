use iptv_proxy::{
    build_mappings, build_playlist, channel_group, format_channel_name, format_date_string,
    get_channel_id_by_tvgname, mask_password, playlist_header, update_global_mappings, Args, Channel,
    ChannelDirectory, IptvConfig, M3u8Config, ServerConfig, YamlConfig,
};

fn strings(v: &[&str]) -> Vec<String> {
    v.iter().map(|s| s.to_string()).collect()
}

fn channel(id: u64, name: &str) -> Channel {
    Channel {
        id,
        user_channel_id: format!("{}", id),
        name: name.into(),
        rtsp: "rtsp://10.0.0.1/ts?x=1".into(),
        igmp: "igmp://239.0.0.1:5000".into(),
        epg: Vec::new(),
    }
}

fn yaml(m3u8: M3u8Config) -> YamlConfig {
    YamlConfig {
        server: ServerConfig { listen: "0.0.0.0:7878".into(), workers: None, timeout: None, log_level: None },
        iptv: IptvConfig {
            user: "u".into(),
            passwd: "p".into(),
            mac: "m".into(),
            imei: None,
            ip: None,
            interface: None,
        },
        m3u8,
        name_mapping: Some(vec![("CCTV1".into(), "CCTV-1".into())]),
        name_clean: strings(&["高清", "超高清", " "]),
    }
}

fn m3u8(format_tvg: bool, udp: &str, rtsp: &str) -> M3u8Config {
    M3u8Config {
        x_tvg_url: String::new(),
        format_tvg,
        extra_playlist: None,
        extra_xmltv: None,
        udp_proxy_uri: udp.into(),
        rtsp_proxy_uri: rtsp.into(),
    }
}

#[test]
fn channel_name_cleaned_longest_first_then_mapped() {
    let clean = strings(&["高清", "超高清", "高清"]);
    assert_eq!(format_channel_name("CCTV5超高清", None, &clean), "CCTV5");
    let map = vec![("CCTV1".to_string(), "CCTV-1".to_string())];
    assert_eq!(format_channel_name("  CCTV1高清 ", Some(&map), &clean), "CCTV-1");
    assert_eq!(format_channel_name("CCTV2高清", Some(&map), &clean), "CCTV2");
    assert_eq!(format_channel_name("abc", None, &[]), "abc");
    assert_eq!(format_channel_name("abc", None, &strings(&[""])), "abc");
}

#[test]
fn password_masking() {
    assert_eq!(mask_password(""), "");
    assert_eq!(mask_password("abcd"), "abcd");
    assert_eq!(mask_password("abcde"), "ab****de");
    assert_eq!(mask_password("abcdefgh"), "ab****gh");
    assert_eq!(mask_password("abcdefghij"), "abcd**ghij");
}

#[test]
fn password_masking_counts_bytes() {
    // Six bytes: the first and last two bytes are one character each.
    assert_eq!(mask_password("ééé"), "é****é");
    // Two bytes in all: shown as it is.
    assert_eq!(mask_password("é"), "é");
    // Seven bytes whose second byte is inside a character: only asterisks.
    assert_eq!(mask_password("a€bcd"), "****");
    // Twelve bytes: the first four are "abé", the last four "éxy".
    assert_eq!(mask_password("abé1234éxy"), "abé****éxy");
}

#[test]
fn compact_date_gets_dashes() {
    assert_eq!(format_date_string("20251202").unwrap(), "2025-12-02");
    assert!(format_date_string("20251302").is_none());
    assert!(format_date_string("20251200").is_none());
    assert!(format_date_string("2025-12-02").is_none());
    assert!(format_date_string("2025120").is_none());
    assert!(format_date_string("2025+1+5").is_some());
}

#[test]
fn compact_date_reads_bytes() {
    assert_eq!(format_date_string("éé1201").unwrap(), "éé-12-01");
    assert_eq!(format_date_string("年a1201").unwrap(), "年a-12-01");
    assert!(format_date_string("ab€cde").is_none());
    assert!(format_date_string("年年年年1201").is_none());
    assert!(format_date_string("2025é12").is_none());
}

#[test]
fn directory_maps_names_to_last_id() {
    let mut dir = ChannelDirectory::new();
    assert!(get_channel_id_by_tvgname(&dir, "A").is_none());
    let (names, ids) = build_mappings(&vec![channel(1, "A"), channel(2, "B"), channel(3, "A")]);
    update_global_mappings(&mut dir, names, ids);
    assert_eq!(get_channel_id_by_tvgname(&dir, "A"), Some(3));
    assert_eq!(get_channel_id_by_tvgname(&dir, "B"), Some(2));
    assert!(get_channel_id_by_tvgname(&dir, "C").is_none());
    assert_eq!(dir.ids.entries.len(), 3);
    assert_eq!(dir.ids.entries.get(&3).map(|s| s.as_str()), Some("A"));
}

#[test]
fn id_table_keeps_last_name_per_id() {
    let (_, ids) = build_mappings(&vec![channel(1, "A"), channel(1, "B")]);
    assert_eq!(ids.entries.len(), 1);
    assert_eq!(ids.entries.get(&1).map(|s| s.as_str()), Some("B"));
}

#[test]
fn groups_by_name() {
    assert_eq!(channel_group("CCTV1超清"), "超清频道");
    assert_eq!(channel_group("CCTV1高清"), "高清频道");
    assert_eq!(channel_group("CCTV1"), "普通频道");
}

#[test]
fn playlist_header_with_and_without_guide_url() {
    assert_eq!(playlist_header(""), "#EXTM3U\n");
    assert_eq!(playlist_header("http://h/xmltv"), "#EXTM3U x-tvg-url=\"http://h/xmltv\" \n");
}

#[test]
fn playlist_entries_without_proxies() {
    let cfg = yaml(m3u8(false, "", ""));
    let p = build_playlist(&vec![channel(1, "CCTV1高清"), channel(2, "B")], &cfg, "");
    let expected = "#EXTM3U\n#EXTINF:-1 tvg-id=\"1\" tvg-name=\"CCTV1高清\" tvg-chno=\"1\"  catchup=\"default\" catchup-source=\"rtsp://10.0.0.1/ts?x=1&playseek=${(b)yyyyMMddHHmmss}-${(e)yyyyMMddHHmmss}\"  tvg-logo=\"https://live.fanmingming.com/tv/CCTV1高清.png\" group-title=\"高清频道\",CCTV1高清\nigmp://239.0.0.1:5000\n#EXTINF:-1 tvg-id=\"2\" tvg-name=\"B\" tvg-chno=\"2\"  catchup=\"default\" catchup-source=\"rtsp://10.0.0.1/ts?x=1&playseek=${(b)yyyyMMddHHmmss}-${(e)yyyyMMddHHmmss}\"  tvg-logo=\"https://live.fanmingming.com/tv/B.png\" group-title=\"普通频道\",B\nigmp://239.0.0.1:5000";
    assert_eq!(p, expected);
}

#[test]
fn playlist_entries_through_proxies_and_formatted_names() {
    let cfg = yaml(m3u8(true, "http://r:5146", "http://r:5146"));
    let mut c = channel(1, "CCTV1高清");
    c.rtsp = "rtsp://10.0.0.1/ts".into();
    let p = build_playlist(&vec![c], &cfg, "\n#EXTINF:-1,extra\nhttp://x");
    let expected = "#EXTM3U\n#EXTINF:-1 tvg-id=\"1\" tvg-name=\"CCTV-1\" tvg-chno=\"1\"  catchup=\"default\" catchup-source=\"http://r:5146/rtsp/10.0.0.1/ts?playseek=${(b)yyyyMMddHHmmss}-${(e)yyyyMMddHHmmss}\"  tvg-logo=\"https://live.fanmingming.com/tv/CCTV-1.png\" group-title=\"高清频道\",CCTV1高清\nhttp://r:5146/udp/239.0.0.1:5000\n#EXTINF:-1,extra\nhttp://x";
    assert_eq!(p, expected);
}

#[test]
fn arguments_always_valid() {
    assert!(Args { config_file: "config.yaml".into() }.validate().is_ok());
}

#[test]
fn default_device_identity() {
    let c = yaml(m3u8(false, "", "")).iptv;
    assert_eq!(c.imei_or_default(), "default_imei");
    assert_eq!(c.ip_or_default(), "0.0.0.0");
}
