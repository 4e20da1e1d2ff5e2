use iptv_proxy::{ArtifactCache, ArtifactKind, IptvError, Served};

#[test]
fn empty_before_first_write() {
    let c = ArtifactCache::new();
    assert!(c.get(ArtifactKind::Playlist).is_none());
    assert!(c.get(ArtifactKind::GuideDocument).is_none());
}

#[test]
fn last_write_wins_per_kind() {
    let mut c = ArtifactCache::new();
    c.put(ArtifactKind::Playlist, "list-a".into());
    c.put(ArtifactKind::GuideDocument, "guide-a".into());
    c.put(ArtifactKind::Playlist, "list-b".into());
    assert_eq!(c.get(ArtifactKind::Playlist).unwrap(), "list-b");
    assert_eq!(c.get(ArtifactKind::GuideDocument).unwrap(), "guide-a");
}

#[test]
fn failed_runs_serve_last_success() {
    let mut c = ArtifactCache::new();
    match c.serve(ArtifactKind::Playlist, Err(IptvError::Crypto)) {
        Served::Unavailable(IptvError::Crypto) => {},
        _ => panic!("nothing stored yet"),
    }
    match c.serve(ArtifactKind::Playlist, Ok("fresh".into())) {
        Served::Fresh(s) => assert_eq!(s, "fresh"),
        _ => panic!("expected fresh"),
    }
    match c.serve(ArtifactKind::Playlist, Err(IptvError::Transport("down".into()))) {
        Served::Stale(s) => assert_eq!(s, "fresh"),
        _ => panic!("expected stale"),
    }
    assert!(matches!(c.serve(ArtifactKind::GuideDocument, Err(IptvError::Crypto)), Served::Unavailable(_)));
    assert_eq!(c.get(ArtifactKind::Playlist).unwrap(), "fresh");
}
