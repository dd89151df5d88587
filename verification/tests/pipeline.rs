use tikd_r::downloader::OutputPath;
use tikd_r::error::{Error, NetworkFailure};
use tikd_r::pipeline::{binary_body, direct_media, Action, Event, Pipeline, Stage};

const SHARE_URL: &str = "https://www.tiktok.com/@user/video/1234567890";

fn page(download: &str, play: &str) -> String {
    format!(
        "<html><head><script id=\"SIGI_STATE\">{{\"ItemModule\":{{\"1234567890\":{{\
         \"id\":\"1234567890\",\"video\":{{\"downloadAddr\":\"{}\",\"playAddr\":\"{}\"}},\
         \"author\":{{\"uniqueId\":\"some.one\"}}}}}}}}</script></head></html>",
        download, play
    )
}

fn status(code: u16) -> Error {
    Error::Network(NetworkFailure {
        timeout: false,
        connect: false,
        body: false,
        builder: false,
        status: Some(code),
        detail: format!("status {}", code),
    })
}

fn same_path(path: &OutputPath) -> bool {
    path.directory == "some.one" && path.file_name == "1234567890.mp4"
}

fn after_page(download: &str, play: &str) -> (Pipeline, Action) {
    let (pipeline, action) = Pipeline::start(SHARE_URL);
    match action {
        Action::FetchPage { url } => assert_eq!(url, SHARE_URL),
        other => panic!("unexpected action: {:?}", other),
    }
    assert!(matches!(pipeline.stage, Stage::Page));
    let event = Event::Text(page(download, play));
    assert!(pipeline.stage.accepts(&event));
    let (pipeline, action) = pipeline.advance(event);
    match action {
        Action::PrepareOutput { path } => assert!(same_path(&path)),
        other => panic!("unexpected action: {:?}", other),
    }
    assert!(pipeline.stage.accepts(&Event::Prepared));
    pipeline.advance(Event::Prepared)
}

fn to_playlist(play: &str) -> Pipeline {
    let (pipeline, action) = after_page("", play);
    assert!(matches!(action, Action::OpenStream { .. }));
    let (pipeline, action) = pipeline.advance(Event::Head {
        content_type: "application/vnd.apple.mpegurl".into(),
    });
    assert!(matches!(action, Action::ReadPlaylist));
    pipeline
}

#[test]
fn a_link_of_another_site_is_refused_at_once() {
    let (pipeline, action) = Pipeline::start("https://example.com/");
    assert!(pipeline.is_done());
    match action {
        Action::Finish(Err(Error::InvalidUrl(url))) => assert_eq!(url, "https://example.com/"),
        other => panic!("unexpected action: {:?}", other),
    }
    assert!(!pipeline.stage.accepts(&Event::Saved));
    assert!(!pipeline.stage.accepts(&Event::Failed(Error::VideoUrlNotFound)));
}

#[test]
fn direct_download_ends_the_pipeline() {
    let (pipeline, action) = after_page("https://cdn.example.com/v.mp4?a=1\\u0026b=2", "");
    match action {
        Action::SaveBinary { url, referer, path } => {
            assert_eq!(url, "https://cdn.example.com/v.mp4?a=1&b=2");
            assert_eq!(referer, SHARE_URL);
            assert!(same_path(&path));
        }
        other => panic!("unexpected action: {:?}", other),
    }
    assert!(matches!(pipeline.stage, Stage::Binary { fallback: None, .. }));
    assert!(!pipeline.stage.accepts(&Event::Prepared));
    let (pipeline, action) = pipeline.advance(Event::Saved);
    assert!(pipeline.is_done());
    match action {
        Action::Finish(Ok(path)) => assert!(same_path(&path)),
        other => panic!("unexpected action: {:?}", other),
    }
}

#[test]
fn failed_direct_download_without_stream_fails() {
    let (pipeline, _) = after_page("https://cdn.example.com/v.mp4", "");
    let (pipeline, action) = pipeline.advance(Event::Failed(status(403)));
    assert!(pipeline.is_done());
    assert!(matches!(action, Action::Finish(Err(Error::Network(_)))));
}

#[test]
fn failed_direct_download_falls_back_to_the_stream() {
    let (pipeline, _) = after_page("https://cdn.example.com/v.mp4", "https://cdn.example.com/p");
    let (pipeline, action) = pipeline.advance(Event::Failed(status(403)));
    match action {
        Action::OpenStream { url, referer } => {
            assert_eq!(url, "https://cdn.example.com/p");
            assert_eq!(referer, SHARE_URL);
        }
        other => panic!("unexpected action: {:?}", other),
    }
    assert!(matches!(pipeline.stage, Stage::StreamHead { .. }));

    let (pipeline, _) = after_page("https://cdn.example.com/v.mp4", "https://cdn.example.com/p");
    let (pipeline, action) = pipeline.advance(Event::Failed(status(500)));
    assert!(pipeline.is_done());
    match action {
        Action::Finish(Err(Error::Network(failure))) => assert_eq!(failure.status, Some(500)),
        other => panic!("unexpected action: {:?}", other),
    }
}

#[test]
fn fallback_to_a_stream_that_is_no_url_is_invalid() {
    let (pipeline, _) = after_page("https://cdn.example.com/v.mp4", "/relative/play");
    let (pipeline, action) = pipeline.advance(Event::Failed(status(404)));
    assert!(pipeline.is_done());
    match action {
        Action::Finish(Err(Error::InvalidUrl(url))) => assert_eq!(url, "/relative/play"),
        other => panic!("unexpected action: {:?}", other),
    }
}

#[test]
fn stream_that_is_the_video_is_saved_as_it_is() {
    let (pipeline, action) = after_page("", "https://cdn.example.com");
    match action {
        Action::OpenStream { url, .. } => assert_eq!(url, "https://cdn.example.com/"),
        other => panic!("unexpected action: {:?}", other),
    }
    let (pipeline, action) = pipeline.advance(Event::Head { content_type: "video/mp4".into() });
    match action {
        Action::SaveStream { path } => assert!(same_path(&path)),
        other => panic!("unexpected action: {:?}", other),
    }
    let (pipeline, action) = pipeline.advance(Event::Saved);
    assert!(pipeline.is_done());
    assert!(matches!(action, Action::Finish(Ok(_))));
}

#[test]
fn master_playlist_leads_to_its_best_variant() {
    let pipeline = to_playlist("https://cdn.example.com/hls/master.m3u8");
    let master = "#EXTM3U\n#EXT-X-STREAM-INF:BANDWIDTH=500000\nlow.m3u8\n\
                  #EXT-X-STREAM-INF:BANDWIDTH=1200000\nhi/index.m3u8\n";
    let (pipeline, action) = pipeline.advance(Event::Text(master.into()));
    match action {
        Action::FetchPlaylist { url, referer } => {
            assert_eq!(url, "https://cdn.example.com/hls/hi/index.m3u8");
            assert_eq!(referer, SHARE_URL);
        }
        other => panic!("unexpected action: {:?}", other),
    }
    let media =
        "#EXTM3U\n#EXT-X-MAP:URI=\"init.mp4\"\n#EXTINF:2,\nseg0.m4s\n#EXTINF:2,\nseg1.m4s\n";
    let (pipeline, action) = pipeline.advance(Event::Text(media.into()));
    match action {
        Action::SaveSegments { urls, referer, path } => {
            assert_eq!(
                urls,
                vec![
                    "https://cdn.example.com/hls/hi/init.mp4",
                    "https://cdn.example.com/hls/hi/seg0.m4s",
                    "https://cdn.example.com/hls/hi/seg1.m4s",
                ]
            );
            assert_eq!(referer, SHARE_URL);
            assert!(same_path(&path));
        }
        other => panic!("unexpected action: {:?}", other),
    }
    assert!(matches!(pipeline.stage, Stage::Segments { .. }));
    let (pipeline, action) = pipeline.advance(Event::Saved);
    assert!(pipeline.is_done());
    assert!(matches!(action, Action::Finish(Ok(_))));
}

#[test]
fn media_playlist_is_taken_directly() {
    let pipeline = to_playlist("https://cdn.example.com/hls/media.m3u8");
    let (_, action) = pipeline.advance(Event::Text("#EXTM3U\nseg0.ts\n".into()));
    match action {
        Action::SaveSegments { urls, .. } => {
            assert_eq!(urls, vec!["https://cdn.example.com/hls/seg0.ts"])
        }
        other => panic!("unexpected action: {:?}", other),
    }
}

#[test]
fn playlists_that_cannot_be_played_end_the_pipeline() {
    let pipeline = to_playlist("https://cdn.example.com/hls/media.m3u8");
    let (pipeline, action) =
        pipeline.advance(Event::Text("#EXTM3U\n#EXT-X-KEY:METHOD=AES-128\nseg0.ts\n".into()));
    assert!(pipeline.is_done());
    assert!(matches!(action, Action::Finish(Err(Error::UnsupportedStream(_)))));

    let pipeline = to_playlist("https://cdn.example.com/hls/media.m3u8");
    let (_, action) = pipeline.advance(Event::Text("#EXTM3U\n".into()));
    assert!(matches!(action, Action::Finish(Err(Error::VideoUrlNotFound))));

    let pipeline = to_playlist("https://cdn.example.com/hls/master.m3u8");
    let (_, action) = pipeline.advance(Event::Text("#EXT-X-STREAM-INF:BANDWIDTH=1\n".into()));
    assert!(matches!(action, Action::Finish(Err(Error::VideoUrlNotFound))));

    let pipeline = to_playlist("https://cdn.example.com/hls/media.m3u8");
    let (_, action) = pipeline.advance(Event::Text("ftypisom....".into()));
    match action {
        Action::Finish(Err(Error::UnsupportedStream(message))) => assert_eq!(
            message,
            "Received binary video data when expecting HLS playlist"
        ),
        other => panic!("unexpected action: {:?}", other),
    }
}

#[test]
fn any_failure_ends_the_pipeline() {
    let (pipeline, _) = Pipeline::start(SHARE_URL);
    let (pipeline, action) = pipeline.advance(Event::Failed(status(404)));
    assert!(pipeline.is_done());
    assert!(matches!(action, Action::Finish(Err(Error::Network(_)))));

    let (pipeline, _) = Pipeline::start(SHARE_URL);
    let (pipeline, _) = pipeline.advance(Event::Text(page("https://d", "")));
    let (_, action) =
        pipeline.advance(Event::Failed(Error::Io(std::io::Error::other("read-only"))));
    assert!(matches!(action, Action::Finish(Err(Error::Io(_)))));

    let pipeline = to_playlist("https://cdn.example.com/hls/media.m3u8");
    let (_, action) = pipeline.advance(Event::Failed(status(403)));
    assert!(matches!(action, Action::Finish(Err(Error::Network(_)))));
}

#[test]
fn page_without_video_ends_the_pipeline() {
    let (pipeline, _) = Pipeline::start(SHARE_URL);
    let (pipeline, action) = pipeline.advance(Event::Text("<html></html>".into()));
    assert!(pipeline.is_done());
    assert!(matches!(action, Action::Finish(Err(Error::VideoUrlNotFound))));

    let unnamed = "<script id=\"SIGI_STATE\">{\"ItemModule\":{\"x\":{\"id\":\"@@@\",\
                   \"video\":{\"playAddr\":\"https://p\"}}}}</script>";
    let (pipeline, _) = Pipeline::start(SHARE_URL);
    let (_, action) = pipeline.advance(Event::Text(unnamed.into()));
    match action {
        Action::Finish(Err(Error::InvalidUrl(message))) => assert_eq!(message, "missing video id"),
        other => panic!("unexpected action: {:?}", other),
    }
}

#[test]
fn an_event_that_is_not_waited_for_changes_nothing() {
    let (pipeline, _) = Pipeline::start(SHARE_URL);
    assert!(!pipeline.stage.accepts(&Event::Saved));
    let (pipeline, action) = pipeline.advance(Event::Saved);
    assert!(matches!(action, Action::Nothing));
    assert!(matches!(pipeline.stage, Stage::Page));
    let (pipeline, action) = pipeline.advance(Event::Head { content_type: "video/mp4".into() });
    assert!(matches!(action, Action::Nothing));
    assert!(matches!(pipeline.stage, Stage::Page));
    assert_eq!(pipeline.share_url, SHARE_URL);

    let (pipeline, _) = after_page("https://cdn.example.com/v.mp4", "https://cdn.example.com/p");
    let (pipeline, action) = pipeline.advance(Event::Text("#EXTM3U".into()));
    assert!(matches!(action, Action::Nothing));
    match &pipeline.stage {
        Stage::Binary { fallback, path } => {
            assert_eq!(fallback.as_deref(), Some("https://cdn.example.com/p"));
            assert!(same_path(path));
        }
        other => panic!("unexpected stage: {:?}", other),
    }
    let (pipeline, action) = pipeline.advance(Event::Saved);
    assert!(matches!(action, Action::Finish(Ok(_))));

    let (pipeline, action) = pipeline.advance(Event::Failed(status(500)));
    assert!(pipeline.is_done());
    assert!(matches!(action, Action::Nothing));
    let (pipeline, action) = pipeline.advance(Event::Saved);
    assert!(pipeline.is_done());
    assert!(matches!(action, Action::Nothing));
}

#[test]
fn content_types_and_bodies_are_sniffed() {
    assert!(direct_media("video/mp4"));
    assert!(direct_media("application/octet-stream; charset=binary"));
    assert!(direct_media("text/plain; x=video/"));
    assert!(!direct_media("application/vnd.apple.mpegurl"));
    assert!(!direct_media("Video/MP4"));
    assert!(!direct_media(""));

    assert!(binary_body("ftypmp42"));
    assert!(binary_body("\0\0\0\u{18}ftypmp42"));
    assert!(!binary_body("\0\0ftyp"));
    assert!(!binary_body(" ftyp"));
    assert!(!binary_body("\n  #EXTM3U\nftyp"));
    assert!(!binary_body("#EXT-X-VERSION:3\nseg0.ts"));
    assert!(!binary_body(""));
}
