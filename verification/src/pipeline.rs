//! The download of one share link as a machine: each step takes what the
//! last request brought and says what to request next. Nothing here touches
//! the network or the disk; whoever drives the machine does.

use crate::address::{parse_url, url_parsed};
use crate::downloader::{
    build_output_path, output_directory, output_file_name, sanitized, OutputPath,
};
use crate::error::{fallback_eligible, should_try_hls_fallback, Error};
use crate::playlist::{
    is_best, is_master, is_master_playlist, media_plan, media_playlist_segments, reports_failure,
    select_best_variant, variants_of,
};
use crate::scraper::{
    check_share_url, descriptor_from_page, is_share_url, page_descriptor, VideoDescriptor,
};
use crate::text::{
    begins_with, chars_of, contains, position_from, starts_with, texts, trim_start,
    trimmed_start,
};
use vstd::prelude::*;
use vstd::string::StringExecFns;

verus! {

broadcast use vstd::string::group_string_axioms;

/// What the machine waits for.
#[derive(Debug)]
pub enum Stage {
    /// The text of the share page.
    Page,
    /// The directory of the output file to be there.
    Output { descriptor: VideoDescriptor, path: OutputPath },
    /// The direct download to end; `fallback` is the stream to try where it
    /// fails in a way that a stream may get around.
    Binary { fallback: Option<String>, path: OutputPath },
    /// The head of the response to the stream's entry URL, `url`.
    StreamHead { url: String, path: OutputPath },
    /// The body of that response to be saved as it is.
    StreamBody { path: OutputPath },
    /// The body of that response as text: the playlist found at `url`.
    Playlist { url: String, path: OutputPath },
    /// The text of the variant's playlist, found at `url`.
    Variant { url: String, path: OutputPath },
    /// The segments to be written.
    Segments { path: OutputPath },
    /// Nothing: the download has ended.
    Done,
}

/// What the last request brought.
#[derive(Debug)]
pub enum Event {
    /// The body of the response, as text.
    Text(String),
    /// The directory of the output file is there.
    Prepared,
    /// A response with a success status arrived; this is its content type,
    /// empty where it names none.
    Head { content_type: String },
    /// What was to be saved is in the output file, and the file is flushed.
    Saved,
    /// The request failed.
    Failed(Error),
}

/// What to do next. Every request but that for the share page carries
/// `referer` as its referer, and a response without a success status counts
/// as a failure.
#[derive(Debug)]
pub enum Action {
    /// Request the share page at `url` and read its body as text.
    FetchPage { url: String },
    /// Make sure that the directory of `path` exists.
    PrepareOutput { path: OutputPath },
    /// Request `url` and write the body to a new file at `path`.
    SaveBinary { url: String, referer: String, path: OutputPath },
    /// Request `url` and report the content type of the response.
    OpenStream { url: String, referer: String },
    /// Write the body of the response at hand to a new file at `path`.
    SaveStream { path: OutputPath },
    /// Read the body of the response at hand as text.
    ReadPlaylist,
    /// Request the playlist at `url` and read its body as text.
    FetchPlaylist { url: String, referer: String },
    /// Request each of `urls` in turn and write the bodies, one after the
    /// other, to a new file at `path`.
    SaveSegments { urls: Vec<String>, referer: String, path: OutputPath },
    /// Stop: the file at the path was written, or the download failed.
    Finish(Result<OutputPath, Error>),
    /// Nothing: the event was not one that the machine waited for, and the
    /// machine is as it was.
    Nothing,
}

/// The download of one share link, as far as it has come.
#[derive(Debug)]
pub struct Pipeline {
    /// The link as it was given.
    pub share_url: String,
    /// What the machine waits for.
    pub stage: Stage,
}

/// Whether a content type says that the response is the video itself.
pub open spec fn is_direct_media(content_type: Seq<char>) -> bool {
    contains(content_type, "video/"@) || contains(content_type, "application/octet-stream"@)
}

/// Whether a body that should be a playlist is plainly a video file: it
/// does not open, leading white space aside, with the playlist marker, and
/// it opens with `ftyp` or with three zero bytes.
pub open spec fn looks_binary(body: Seq<char>) -> bool {
    !starts_with(trim_start(body), "#EXTM3U"@) && (starts_with(body, "ftyp"@) || starts_with(
        body,
        seq!['\0', '\0', '\0'],
    ))
}

/// Whether `next` ends the download with the error `err`.
pub open spec fn fails_with(next: (Pipeline, Action), err: Error) -> bool {
    next.0.stage is Done && next.1 == Action::Finish(Err(err))
}

/// Whether `next` ends the download with `InvalidUrl` and `message`.
pub open spec fn refuses_url(next: (Pipeline, Action), message: Seq<char>) -> bool {
    next.0.stage is Done && (next.1 matches Action::Finish(Err(Error::InvalidUrl(text))) && text@
        == message)
}

/// Whether `next` ends the download because no media URL was found.
pub open spec fn finds_nothing(next: (Pipeline, Action)) -> bool {
    next.0.stage is Done && next.1 matches Action::Finish(Err(Error::VideoUrlNotFound))
}

/// Whether `next` ends the download with the file at `path` written.
pub open spec fn succeeds(next: (Pipeline, Action), path: OutputPath) -> bool {
    next.0.stage is Done && next.1 == Action::Finish(Ok(path))
}

/// Whether `next` turns to the stream at `play_url`: it requests the URL
/// that `play_url` parses to, or refuses a `play_url` that is no URL.
pub open spec fn opens_stream(
    next: (Pipeline, Action),
    play_url: Seq<char>,
    share_url: Seq<char>,
    path: OutputPath,
) -> bool {
    match url_parsed(play_url) {
        Ok(entry) => {
            &&& next.0.stage matches Stage::StreamHead { url, path: kept } && url@ == entry && kept
                == path
            &&& next.1 matches Action::OpenStream { url, referer } && url@ == entry && referer@
                == share_url
        },
        Err(_) => refuses_url(next, play_url),
    }
}

/// Whether `next` is the step after the share page arrived as `html`.
pub open spec fn reads_page(
    next: (Pipeline, Action),
    html: Seq<char>,
    share_url: Seq<char>,
) -> bool {
    match page_descriptor(html, share_url) {
        None => finds_nothing(next),
        Some(found) => if sanitized(found.video_id).len() == 0 {
            refuses_url(next, "missing video id"@)
        } else {
            &&& next.0.stage matches Stage::Output { descriptor, path } && descriptor@ == found
                && next.1 == (Action::PrepareOutput { path })
            &&& next.1 matches Action::PrepareOutput { path } && path.directory@
                == output_directory(found.author) && path.file_name@ == output_file_name(
                found.video_id,
            )
        },
    }
}

/// Whether `next` is the step that picks the source: the direct download
/// where the descriptor names one, with the stream kept for a fallback,
/// else the stream.
pub open spec fn picks_source(
    next: (Pipeline, Action),
    descriptor: VideoDescriptor,
    share_url: Seq<char>,
    path: OutputPath,
) -> bool {
    match descriptor.download_url {
        Some(direct) => {
            &&& next.0.stage == (Stage::Binary { fallback: descriptor.play_url, path })
            &&& next.1 matches Action::SaveBinary { url, referer, path: target } && url == direct
                && referer@ == share_url && target == path
        },
        None => match descriptor.play_url {
            Some(play_url) => opens_stream(next, play_url@, share_url, path),
            None => finds_nothing(next),
        },
    }
}

/// Whether `next` is the step after a media playlist arrived: it asks for
/// the segments that the playlist names, or ends with the playlist's
/// failure.
pub open spec fn plans_segments(
    next: (Pipeline, Action),
    body: Seq<char>,
    url: Seq<char>,
    share_url: Seq<char>,
    path: OutputPath,
) -> bool {
    match media_plan(body, url) {
        Ok(wanted) => {
            &&& next.0.stage == (Stage::Segments { path })
            &&& next.1 matches Action::SaveSegments { urls, referer, path: target } && texts(urls@)
                == wanted && referer@ == share_url && target == path
        },
        Err(failure) => next.0.stage is Done && (next.1 matches Action::Finish(Err(err))
            && reports_failure(err, failure)),
    }
}

/// Whether `next` is the step after the entry playlist arrived as `body`:
/// a body that is plainly a video file is refused, a master playlist leads
/// to its best variant's playlist, any other is taken as the media playlist.
pub open spec fn reads_playlist(
    next: (Pipeline, Action),
    body: Seq<char>,
    url: Seq<char>,
    share_url: Seq<char>,
    path: OutputPath,
) -> bool {
    if looks_binary(body) {
        next.0.stage is Done && (next.1 matches Action::Finish(Err(Error::UnsupportedStream(text)))
            && text@ == "Received binary video data when expecting HLS playlist"@)
    } else if is_master(body) {
        if variants_of(body, url).len() == 0 {
            finds_nothing(next)
        } else {
            exists|k: int|
                #![trigger is_best(variants_of(body, url), k)]
                {
                    &&& is_best(variants_of(body, url), k)
                    &&& next.0.stage matches Stage::Variant { url: chosen, path: kept } && chosen@
                        == variants_of(body, url)[k].url && kept == path
                    &&& next.1 matches Action::FetchPlaylist { url: chosen, referer } && chosen@
                        == variants_of(body, url)[k].url && referer@ == share_url
                }
        }
    } else {
        plans_segments(next, body, url, share_url, path)
    }
}

impl Stage {
    /// Whether `event` is one that this stage waits for. A failure may come
    /// at any stage but the last.
    pub open spec fn expects(self, event: Event) -> bool {
        match (self, event) {
            (Stage::Done, _) => false,
            (_, Event::Failed(_)) => true,
            (Stage::Page, Event::Text(_)) => true,
            (Stage::Output { .. }, Event::Prepared) => true,
            (Stage::Binary { .. }, Event::Saved) => true,
            (Stage::StreamHead { .. }, Event::Head { .. }) => true,
            (Stage::StreamBody { .. }, Event::Saved) => true,
            (Stage::Playlist { .. }, Event::Text(_)) => true,
            (Stage::Variant { .. }, Event::Text(_)) => true,
            (Stage::Segments { .. }, Event::Saved) => true,
            _ => false,
        }
    }

    /// Whether `event` is one that this stage waits for.
    pub fn accepts(&self, event: &Event) -> (r: bool)
        ensures
            r == self.expects(*event),
    {
        match (self, event) {
            (Stage::Done, _) => false,
            (_, Event::Failed(_)) => true,
            (Stage::Page, Event::Text(_)) => true,
            (Stage::Output { .. }, Event::Prepared) => true,
            (Stage::Binary { .. }, Event::Saved) => true,
            (Stage::StreamHead { .. }, Event::Head { .. }) => true,
            (Stage::StreamBody { .. }, Event::Saved) => true,
            (Stage::Playlist { .. }, Event::Text(_)) => true,
            (Stage::Variant { .. }, Event::Text(_)) => true,
            (Stage::Segments { .. }, Event::Saved) => true,
            _ => false,
        }
    }
}

fn copy_path(path: &OutputPath) -> (r: OutputPath)
    ensures
        r == *path,
{
    OutputPath { directory: path.directory.clone(), file_name: path.file_name.clone() }
}

fn done(share_url: String, outcome: Result<OutputPath, Error>) -> (next: (Pipeline, Action))
    ensures
        next.0.share_url == share_url,
        next.0.stage is Done,
        next.1 == Action::Finish(outcome),
{
    (Pipeline { share_url, stage: Stage::Done }, Action::Finish(outcome))
}

/// Whether `content_type` says that the response is the video itself.
pub fn direct_media(content_type: &str) -> (r: bool)
    ensures
        r == is_direct_media(content_type@),
{
    let kind = chars_of(content_type);
    let video = chars_of("video/");
    let octets = chars_of("application/octet-stream");
    position_from(&kind, &video, 0).is_some() || position_from(&kind, &octets, 0).is_some()
}

/// Whether `body`, which should be a playlist, is plainly a video file.
pub fn binary_body(body: &str) -> (r: bool)
    ensures
        r == looks_binary(body@),
{
    let text = chars_of(body);
    let head = trimmed_start(&text);
    let marker = chars_of("#EXTM3U");
    if begins_with(&head, &marker) {
        return false;
    }
    let brand = chars_of("ftyp");
    let mut zeros: Vec<char> = Vec::new();
    zeros.push('\0');
    zeros.push('\0');
    zeros.push('\0');
    assert(zeros@ =~= seq!['\0', '\0', '\0']);
    begins_with(&text, &brand) || begins_with(&text, &zeros)
}

fn open_stream(share_url: String, play_url: String, path: OutputPath) -> (next: (Pipeline, Action))
    ensures
        next.0.share_url == share_url,
        opens_stream(next, play_url@, share_url@, path),
{
    match parse_url(play_url.as_str()) {
        Ok(entry) => {
            let referer = share_url.clone();
            let url = entry.clone();
            (
                Pipeline { share_url, stage: Stage::StreamHead { url: entry, path } },
                Action::OpenStream { url, referer },
            )
        },
        Err(_) => done(share_url, Err(Error::InvalidUrl(play_url))),
    }
}

fn plan_segments(share_url: String, body: &str, url: &str, path: OutputPath) -> (next: (
    Pipeline,
    Action,
))
    ensures
        next.0.share_url == share_url,
        plans_segments(next, body@, url@, share_url@, path),
{
    match media_playlist_segments(body, url) {
        Ok(urls) => {
            let referer = share_url.clone();
            let target = copy_path(&path);
            (
                Pipeline { share_url, stage: Stage::Segments { path } },
                Action::SaveSegments { urls, referer, path: target },
            )
        },
        Err(err) => done(share_url, Err(err)),
    }
}

impl Pipeline {
    /// Whether `next` is what this machine does when `event` arrives. An
    /// event that the stage does not wait for changes nothing and asks for
    /// nothing. A failure of the direct download turns to the stream where
    /// there is one and the failure is one that a stream may get around; any
    /// other failure ends the download with its error.
    pub open spec fn steps_to(self, event: Event, next: (Pipeline, Action)) -> bool {
        &&& next.0.share_url@ == self.share_url@
        &&& match (self.stage, event) {
            (Stage::Done, _) => next.0.stage is Done && next.1 is Nothing,
            (Stage::Binary { fallback, path }, Event::Failed(err)) => if fallback is Some
                && fallback_eligible(err) {
                opens_stream(next, fallback->0@, self.share_url@, path)
            } else {
                fails_with(next, err)
            },
            (_, Event::Failed(err)) => fails_with(next, err),
            (Stage::Page, Event::Text(html)) => reads_page(next, html@, self.share_url@),
            (Stage::Output { descriptor, path }, Event::Prepared) => picks_source(
                next,
                descriptor,
                self.share_url@,
                path,
            ),
            (Stage::Binary { fallback, path }, Event::Saved) => succeeds(next, path),
            (Stage::StreamHead { url, path }, Event::Head { content_type }) => if is_direct_media(
                content_type@,
            ) {
                next.0.stage == (Stage::StreamBody { path }) && next.1 == (Action::SaveStream {
                    path,
                })
            } else {
                next.0.stage == (Stage::Playlist { url, path }) && next.1 is ReadPlaylist
            },
            (Stage::StreamBody { path }, Event::Saved) => succeeds(next, path),
            (Stage::Playlist { url, path }, Event::Text(body)) => reads_playlist(
                next,
                body@,
                url@,
                self.share_url@,
                path,
            ),
            (Stage::Variant { url, path }, Event::Text(body)) => plans_segments(
                next,
                body@,
                url@,
                self.share_url@,
                path,
            ),
            (Stage::Segments { path }, Event::Saved) => succeeds(next, path),
            _ => next.0.stage == self.stage && next.1 is Nothing,
        }
    }

    /// The machine for `share_url` and its first step: the request for the
    /// share page, or the refusal of a link that is not one of the site's.
    pub fn start(share_url: &str) -> (next: (Pipeline, Action))
        ensures
            next.0.share_url@ == share_url@,
            is_share_url(share_url@) ==> next.0.stage is Page && (next.1 matches Action::FetchPage {
                url,
            } && url@ == share_url@),
            !is_share_url(share_url@) ==> refuses_url(next, share_url@),
    {
        match check_share_url(share_url) {
            Ok(()) => (
                Pipeline { share_url: String::from_str(share_url), stage: Stage::Page },
                Action::FetchPage { url: String::from_str(share_url) },
            ),
            Err(err) => done(String::from_str(share_url), Err(err)),
        }
    }

    /// Whether the download has ended.
    pub fn is_done(&self) -> (r: bool)
        ensures
            r == self.stage is Done,
    {
        match self.stage {
            Stage::Done => true,
            _ => false,
        }
    }

    /// The machine after `event`, and what to do next.
    pub fn advance(self, event: Event) -> (next: (Pipeline, Action))
        ensures
            self.steps_to(event, next),
            !self.stage.expects(event) ==> next.0.stage == self.stage && next.1 is Nothing,
    {
        let Pipeline { share_url, stage } = self;
        match (stage, event) {
            (Stage::Done, _) => (Pipeline { share_url, stage: Stage::Done }, Action::Nothing),
            (Stage::Binary { fallback, path }, Event::Failed(err)) => {
                match fallback {
                    Some(play_url) => {
                        if should_try_hls_fallback(&err) {
                            open_stream(share_url, play_url, path)
                        } else {
                            done(share_url, Err(err))
                        }
                    },
                    None => done(share_url, Err(err)),
                }
            },
            (_, Event::Failed(err)) => done(share_url, Err(err)),
            (Stage::Page, Event::Text(html)) => {
                match descriptor_from_page(html.as_str(), share_url.as_str()) {
                    Err(err) => done(share_url, Err(err)),
                    Ok(descriptor) => match build_output_path(&descriptor) {
                        Err(err) => done(share_url, Err(err)),
                        Ok(path) => {
                            let target = copy_path(&path);
                            (
                                Pipeline { share_url, stage: Stage::Output { descriptor, path } },
                                Action::PrepareOutput { path: target },
                            )
                        },
                    },
                }
            },
            (Stage::Output { descriptor, path }, Event::Prepared) => {
                let VideoDescriptor { video_id, download_url, play_url, author } = descriptor;
                match download_url {
                    Some(url) => {
                        let referer = share_url.clone();
                        let target = copy_path(&path);
                        (
                            Pipeline {
                                share_url,
                                stage: Stage::Binary { fallback: play_url, path },
                            },
                            Action::SaveBinary { url, referer, path: target },
                        )
                    },
                    None => match play_url {
                        Some(play_url) => open_stream(share_url, play_url, path),
                        None => done(share_url, Err(Error::VideoUrlNotFound)),
                    },
                }
            },
            (Stage::Binary { fallback, path }, Event::Saved) => done(share_url, Ok(path)),
            (Stage::StreamHead { url, path }, Event::Head { content_type }) => {
                let target = copy_path(&path);
                if direct_media(content_type.as_str()) {
                    (
                        Pipeline { share_url, stage: Stage::StreamBody { path } },
                        Action::SaveStream { path: target },
                    )
                } else {
                    (
                        Pipeline { share_url, stage: Stage::Playlist { url, path } },
                        Action::ReadPlaylist,
                    )
                }
            },
            (Stage::StreamBody { path }, Event::Saved) => done(share_url, Ok(path)),
            (Stage::Playlist { url, path }, Event::Text(body)) => {
                if binary_body(body.as_str()) {
                    done(
                        share_url,
                        Err(
                            Error::UnsupportedStream(
                                String::from_str(
                                    "Received binary video data when expecting HLS playlist",
                                ),
                            ),
                        ),
                    )
                } else if is_master_playlist(body.as_str()) {
                    match select_best_variant(body.as_str(), url.as_str()) {
                        Some(variant) => {
                            let referer = share_url.clone();
                            let chosen = variant.clone();
                            (
                                Pipeline {
                                    share_url,
                                    stage: Stage::Variant { url: variant, path },
                                },
                                Action::FetchPlaylist { url: chosen, referer },
                            )
                        },
                        None => done(share_url, Err(Error::VideoUrlNotFound)),
                    }
                } else {
                    plan_segments(share_url, body.as_str(), url.as_str(), path)
                }
            },
            (Stage::Variant { url, path }, Event::Text(body)) => plan_segments(
                share_url,
                body.as_str(),
                url.as_str(),
                path,
            ),
            (Stage::Segments { path }, Event::Saved) => done(share_url, Ok(path)),
            (stage, _) => (Pipeline { share_url, stage }, Action::Nothing),
        }
    }
}

} // verus!
