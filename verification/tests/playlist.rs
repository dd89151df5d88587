use tikd_r::error::Error;
use tikd_r::playlist::{
    best_variant, extract_attribute, is_master_playlist, media_playlist_segments,
    playlist_variants, resolve_segment_url, select_best_variant, Variant,
};

const BASE: &str = "https://cdn.example.com/video/tos/master.m3u8?token=1";

#[test]
fn extract_attribute_parses_quoted_values() {
    let line = r#"#EXT-X-MAP:URI="init.mp4""#;
    assert_eq!(extract_attribute(line, "URI"), Some("init.mp4".to_string()));
}

#[test]
fn extract_attribute_parses_unquoted_values() {
    let line = "#EXT-X-KEY:METHOD=AES-128,URI=\"enc.key\"";
    assert_eq!(
        extract_attribute(line, "METHOD"),
        Some("AES-128".to_string())
    );
}

#[test]
fn extract_attribute_edge_cases() {
    assert_eq!(extract_attribute("#EXT-X-KEY:METHOD=NONE", "URI"), None);
    assert_eq!(extract_attribute("", "URI"), None);
    assert_eq!(extract_attribute("#EXT-X-MAP:URI=\"init.mp4", "URI"), None);
    assert_eq!(extract_attribute("#EXT-X-MAP:URI=\"\"", "URI"), Some(String::new()));
    assert_eq!(extract_attribute("BANDWIDTH=", "BANDWIDTH"), Some(String::new()));
    assert_eq!(
        extract_attribute("#X:BANDWIDTH=100 CODECS=avc", "BANDWIDTH"),
        Some("100".to_string())
    );
    assert_eq!(
        extract_attribute("#X:BANDWIDTH=100 RES=1x1,CODECS=avc", "BANDWIDTH"),
        Some("100".to_string())
    );
    assert_eq!(
        extract_attribute("#X:BANDWIDTH=100,RES=1x1 CODECS=avc", "BANDWIDTH"),
        Some("100".to_string())
    );
    assert_eq!(
        extract_attribute(
            "#EXT-X-STREAM-INF:BANDWIDTH=640000 RESOLUTION=640x360,CODECS=\"avc1\"",
            "BANDWIDTH"
        ),
        Some("640000".to_string())
    );
    assert_eq!(extract_attribute("#X:A= 1", "A"), Some(String::new()));
    assert_eq!(
        extract_attribute("#X:A=1,AVERAGE-BANDWIDTH=7,BANDWIDTH=9", "BANDWIDTH"),
        Some("7".to_string())
    );
    assert_eq!(
        extract_attribute("#X:NAME=\"a,b c\",N=2", "NAME"),
        Some("a,b c".to_string())
    );
    assert_eq!(extract_attribute("#X:é=ü,", "é"), Some("ü".to_string()));
}

#[test]
fn master_playlists_are_told_from_media_playlists() {
    assert!(is_master_playlist(
        "#EXTM3U\n#EXT-X-STREAM-INF:BANDWIDTH=1\nlow.m3u8\n"
    ));
    assert!(is_master_playlist("  \t#EXT-X-STREAM-INF:BANDWIDTH=1\r\nlow.m3u8"));
    assert!(!is_master_playlist("#EXTM3U\n#EXTINF:4,\nseg0.ts\n"));
    assert!(!is_master_playlist("x#EXT-X-STREAM-INF:BANDWIDTH=1\nlow.m3u8\n"));
    assert!(!is_master_playlist(""));
}

#[test]
fn segment_urls_resolve_against_the_playlist() {
    assert_eq!(
        resolve_segment_url(BASE, "seg0.ts").unwrap(),
        "https://cdn.example.com/video/tos/seg0.ts"
    );
    assert_eq!(
        resolve_segment_url(BASE, "/root/seg0.ts?x=1").unwrap(),
        "https://cdn.example.com/root/seg0.ts?x=1"
    );
    assert_eq!(
        resolve_segment_url(BASE, "../up/seg0.ts").unwrap(),
        "https://cdn.example.com/video/up/seg0.ts"
    );
    assert_eq!(
        resolve_segment_url(BASE, "//other.example.com/seg0.ts").unwrap(),
        "https://other.example.com/seg0.ts"
    );
    assert_eq!(
        resolve_segment_url(BASE, "https://other.example.com").unwrap(),
        "https://other.example.com/"
    );
    assert_eq!(
        resolve_segment_url("not a url", "http://other.example.com/a b").unwrap(),
        "http://other.example.com/a%20b"
    );
}

#[test]
fn segment_urls_that_do_not_resolve_are_invalid() {
    match resolve_segment_url(BASE, "https://") {
        Err(Error::InvalidUrl(message)) => {
            assert_eq!(message, "absolute URL parse failed: empty host")
        }
        other => panic!("unexpected outcome: {:?}", other),
    }
    match resolve_segment_url("data:text/plain,hello", "seg0.ts") {
        Err(Error::InvalidUrl(message)) => assert_eq!(
            message,
            "URL join failed for 'seg0.ts': relative URL with a cannot-be-a-base base"
        ),
        other => panic!("unexpected outcome: {:?}", other),
    }
    match resolve_segment_url("no base", "seg0.ts") {
        Err(Error::InvalidUrl(message)) => assert_eq!(
            message,
            "URL join failed for 'seg0.ts': relative URL without a base"
        ),
        other => panic!("unexpected outcome: {:?}", other),
    }
}

#[test]
fn best_variant_is_the_one_with_the_greatest_bandwidth() {
    let playlist = "#EXTM3U\n\
        #EXT-X-STREAM-INF:BANDWIDTH=500000,RESOLUTION=640x360\n\
        low/index.m3u8\n\
        #EXT-X-STREAM-INF:BANDWIDTH=1200000,RESOLUTION=1280x720\n\
        high/index.m3u8\n";
    assert_eq!(
        select_best_variant(playlist, BASE),
        Some("https://cdn.example.com/video/tos/high/index.m3u8".to_string())
    );
    let reversed = "#EXT-X-STREAM-INF:BANDWIDTH=1200000\nhigh.m3u8\n\
        #EXT-X-STREAM-INF:BANDWIDTH=500000\nlow.m3u8\n";
    assert_eq!(
        select_best_variant(reversed, BASE),
        Some("https://cdn.example.com/video/tos/high.m3u8".to_string())
    );
}

#[test]
fn equal_bandwidths_keep_the_first_variant() {
    let playlist = "#EXTM3U\n\
        #EXT-X-STREAM-INF:BANDWIDTH=800000\n\
        first.m3u8\n\
        #EXT-X-STREAM-INF:BANDWIDTH=800000\n\
        second.m3u8\n\
        #EXT-X-STREAM-INF:BANDWIDTH=700000\n\
        third.m3u8\n";
    assert_eq!(
        select_best_variant(playlist, BASE),
        Some("https://cdn.example.com/video/tos/first.m3u8".to_string())
    );
}

#[test]
fn variants_are_read_line_by_line() {
    let playlist = "#EXTM3U\r\n\
        #EXT-X-STREAM-INF:RESOLUTION=1x1\r\n\
        \r\n\
        # a comment\r\n\
        \tnone.m3u8  \r\n\
        #EXT-X-STREAM-INF:BANDWIDTH=\"12\"\r\n\
        #EXT-X-STREAM-INF:BANDWIDTH=99\r\n\
        twelve.m3u8\r\n\
        #EXT-X-STREAM-INF:BANDWIDTH=abc\r\n\
        https://\r\n\
        #EXT-X-STREAM-INF:BANDWIDTH=+7\r\n\
        https://other.example.com/seven.m3u8\r\n\
        #EXT-X-STREAM-INF:BANDWIDTH=1000\r\n\
        # no address follows\r\n";
    let variants = playlist_variants(playlist, BASE);
    let seen: Vec<(u64, &str)> = variants
        .iter()
        .map(|v| (v.bandwidth, v.url.as_str()))
        .collect();
    assert_eq!(
        seen,
        vec![
            (0, "https://cdn.example.com/video/tos/none.m3u8"),
            (12, "https://cdn.example.com/video/tos/twelve.m3u8"),
            (7, "https://other.example.com/seven.m3u8"),
        ]
    );
    assert_eq!(best_variant(&variants), Some(1));
}

#[test]
fn no_variant_no_choice() {
    assert_eq!(select_best_variant("", BASE), None);
    assert_eq!(select_best_variant("#EXTM3U\nseg0.ts\n", BASE), None);
    assert_eq!(
        select_best_variant("#EXT-X-STREAM-INF:BANDWIDTH=5\n", BASE),
        None
    );
    assert_eq!(
        select_best_variant("#EXT-X-STREAM-INF:BANDWIDTH=5\nlow.m3u8\n", "no base"),
        None
    );
    assert_eq!(best_variant(&Vec::new()), None);
    let zero = vec![
        Variant { bandwidth: 0, url: "a".into() },
        Variant { bandwidth: 0, url: "b".into() },
    ];
    assert_eq!(best_variant(&zero), Some(0));
}

#[test]
fn media_playlist_lists_its_segments_in_order() {
    let playlist = "#EXTM3U\n\
        #EXT-X-VERSION:7\n\
        #EXT-X-KEY:METHOD=NONE\n\
        #EXT-X-MAP:URI=\"init.mp4\"\n\
        #EXTINF:4.0,\n\
        seg0.m4s\n\
        \n\
        #EXTINF:4.0,\n\
          https://other.example.com/seg1.m4s  \n\
        #EXT-X-MAP:BYTERANGE=\"1@0\"\n\
        #EXT-X-ENDLIST\n";
    assert_eq!(
        media_playlist_segments(playlist, BASE).unwrap(),
        vec![
            "https://cdn.example.com/video/tos/init.mp4",
            "https://cdn.example.com/video/tos/seg0.m4s",
            "https://other.example.com/seg1.m4s",
        ]
    );
}

#[test]
fn initialization_segments_come_before_media_segments() {
    let late = "#EXTM3U\nseg0.m4s\n#EXT-X-MAP:URI=\"init.mp4\"\nseg1.m4s\n";
    assert_eq!(
        media_playlist_segments(late, BASE).unwrap(),
        vec![
            "https://cdn.example.com/video/tos/init.mp4",
            "https://cdn.example.com/video/tos/seg0.m4s",
            "https://cdn.example.com/video/tos/seg1.m4s",
        ]
    );
    let two = "a.m4s\n#EXT-X-MAP:URI=\"i0.mp4\"\nb.m4s\n#EXT-X-MAP:URI=\"i1.mp4\"\n";
    assert_eq!(
        media_playlist_segments(two, BASE).unwrap(),
        vec![
            "https://cdn.example.com/video/tos/i0.mp4",
            "https://cdn.example.com/video/tos/i1.mp4",
            "https://cdn.example.com/video/tos/a.m4s",
            "https://cdn.example.com/video/tos/b.m4s",
        ]
    );
}

#[test]
fn bandwidth_ends_at_a_blank() {
    let playlist = "#EXT-X-STREAM-INF:BANDWIDTH=640000 RESOLUTION=640x360,CODECS=\"avc1\"\n\
        low.m3u8\n\
        #EXT-X-STREAM-INF:BANDWIDTH=1 RESOLUTION=1x1,CODECS=\"avc1\"\n\
        lowest.m3u8\n";
    let variants = playlist_variants(playlist, BASE);
    assert_eq!(variants[0].bandwidth, 640000);
    assert_eq!(
        select_best_variant(playlist, BASE),
        Some("https://cdn.example.com/video/tos/low.m3u8".to_string())
    );
}

#[test]
fn encrypted_media_playlist_is_unsupported() {
    let playlist = "#EXTM3U\n\
        #EXT-X-KEY:METHOD=AES-128,URI=\"enc.key\"\n\
        #EXTINF:4.0,\n\
        seg0.ts\n";
    match media_playlist_segments(playlist, BASE) {
        Err(Error::UnsupportedStream(message)) => {
            assert_eq!(message, "HLS encryption method AES-128 is not supported")
        }
        other => panic!("unexpected outcome: {:?}", other),
    }
    let late = "#EXTM3U\nseg0.ts\n#EXT-X-KEY:METHOD=\"SAMPLE-AES\"\nseg1.ts\n";
    match media_playlist_segments(late, BASE) {
        Err(Error::UnsupportedStream(message)) => {
            assert_eq!(message, "HLS encryption method SAMPLE-AES is not supported")
        }
        other => panic!("unexpected outcome: {:?}", other),
    }
    let bare = "#EXT-X-KEY\nseg0.ts\n";
    assert_eq!(media_playlist_segments(bare, BASE).unwrap().len(), 1);
}

#[test]
fn media_playlist_without_segments_is_not_found() {
    for playlist in [
        "",
        "\n\n",
        "#EXTM3U\n#EXT-X-ENDLIST\n",
        "#EXTM3U\n#EXT-X-MAP:URI=\"init.mp4\"\n",
        "#EXTM3U\n#EXT-X-KEY:METHOD=NONE\n   \n",
    ] {
        assert!(matches!(
            media_playlist_segments(playlist, BASE),
            Err(Error::VideoUrlNotFound)
        ));
    }
}

#[test]
fn media_playlist_with_an_unresolvable_line_is_invalid() {
    let base = "data:text/plain,hello";
    match media_playlist_segments("#EXTM3U\n\n#EXTINF:1,\nseg0.ts\n", base) {
        Err(Error::InvalidUrl(message)) => assert_eq!(message, "segment at line 4: seg0.ts"),
        other => panic!("unexpected outcome: {:?}", other),
    }
    match media_playlist_segments("#EXT-X-MAP:URI=\"init.mp4\"\nseg0.ts\n", base) {
        Err(Error::InvalidUrl(message)) => assert_eq!(message, "init segment: init.mp4"),
        other => panic!("unexpected outcome: {:?}", other),
    }
    let mixed = "https://a.example.com/0.ts\n1.ts\n#EXT-X-KEY:METHOD=AES-128\n";
    match media_playlist_segments(mixed, base) {
        Err(Error::InvalidUrl(message)) => assert_eq!(message, "segment at line 2: 1.ts"),
        other => panic!("unexpected outcome: {:?}", other),
    }
    let ten = "#1\n#2\n#3\n#4\n#5\n#6\n#7\n#8\n#9\nx.ts";
    match media_playlist_segments(ten, base) {
        Err(Error::InvalidUrl(message)) => assert_eq!(message, "segment at line 10: x.ts"),
        other => panic!("unexpected outcome: {:?}", other),
    }
}
