use iptv_proxy::{parse_channel_list, Channel};

fn block(id: &str, name: &str, chno: &str, mc: &str, uc: &str, ts: &str) -> String {
    format!(
        "Authentication.CTCSetConfig('Channel','ChannelID=\"{}\",ChannelName=\"{}\",UserChannelID=\"{}\",ChannelURL=\"{}|{}\",TimeShift=\"1\",TimeShiftURL=\"{}\",ChannelType=\"1\"');\n",
        id, name, chno, mc, uc, ts
    )
}

fn same(a: &[Channel], b: &[Channel]) -> bool {
    a.len() == b.len()
        && a.iter().zip(b.iter()).all(|(x, y)| {
            x.id == y.id
                && x.name == y.name
                && x.user_channel_id == y.user_channel_id
                && x.rtsp == y.rtsp
                && x.igmp == y.igmp
                && x.epg.is_empty()
                && y.epg.is_empty()
        })
}

#[test]
fn two_good_blocks_and_one_without_timeshift() {
    let mut page = String::from("<script>\n");
    page += &block("101", "CCTV-1 高清", "1", "igmp://239.1.1.1:5000", "rtsp://10.0.0.1/a", "rtsp://10.0.0.1/ts1");
    page += "Authentication.CTCSetConfig('Channel','ChannelID=\"102\",ChannelName=\"Broken\",UserChannelID=\"2\",ChannelURL=\"igmp://239.1.1.2:5000|rtsp://x\",TimeShift=\"1\"');\n";
    page += &block("103", "CCTV5＋ 体育", "3", "igmp://239.1.1.3:5000", "rtsp://10.0.0.1/c", "rtsp://10.0.0.1/ts3");
    page += "</script>\n";
    let cs = parse_channel_list(&page);
    assert_eq!(cs.len(), 2);
    assert_eq!(cs[0].id, 101);
    assert_eq!(cs[0].name, "CCTV1高清");
    assert_eq!(cs[0].user_channel_id, "1");
    assert_eq!(cs[0].igmp, "igmp://239.1.1.1:5000");
    assert_eq!(cs[0].rtsp, "rtsp://10.0.0.1/ts1");
    assert_eq!(cs[1].id, 103);
    assert_eq!(cs[1].name, "CCTV5体育");
    assert_eq!(cs[1].rtsp, "rtsp://10.0.0.1/ts3");
}

#[test]
fn extraction_is_repeatable() {
    let mut page = String::new();
    page += &block("7", "A", "7", "igmp://1", "u", "rtsp://t7");
    page += &block("8", "B", "8", "igmp://2", "u", "rtsp://t8");
    let first = parse_channel_list(&page);
    let second = parse_channel_list(&page);
    assert_eq!(first.len(), 2);
    assert!(same(&first, &second));
}

#[test]
fn empty_page_gives_empty_catalog() {
    assert!(parse_channel_list("").is_empty());
    assert!(parse_channel_list("no channels here").is_empty());
}

#[test]
fn non_numeric_id_falls_back_to_code_sum() {
    let page = block("ab", "X", "1", "igmp://1", "u", "rtsp://t");
    let cs = parse_channel_list(&page);
    assert_eq!(cs.len(), 1);
    assert_eq!(cs[0].id, 97 + 98);
}

#[test]
fn plus_sign_id_and_overflowing_id() {
    let page = block("+42", "X", "1", "igmp://1", "u", "rtsp://t") + &block("99999999999999999999", "Y", "2", "igmp://2", "u", "rtsp://t");
    let cs = parse_channel_list(&page);
    assert_eq!(cs[0].id, 42);
    let sum: u64 = "99999999999999999999".chars().map(|c| c as u64).sum();
    assert_eq!(cs[1].id, sum);
}

#[test]
fn multicast_field_runs_to_first_bar() {
    let page = block("5", "Y", "5", "igmp://a\"b", "rtsp://u", "rtsp://t");
    let cs = parse_channel_list(&page);
    assert_eq!(cs.len(), 1);
    assert_eq!(cs[0].igmp, "igmp://a\"b");
}
