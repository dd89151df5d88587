//! What the command line gives: one URL or a file of URLs, and the tunables.

use crate::downloader::DownloadConfig;
use crate::error::Error;
use crate::text::{chars_of, lines, split_lines, text_of, texts, trim, trimmed, views};
use std::path::PathBuf;
use vstd::prelude::*;

verus! {

broadcast use vstd::string::group_string_axioms;

/// The arguments of a run.
#[derive(Debug)]
pub struct Cli {
    /// The one share link to download.
    pub url: Option<String>,
    /// A file that holds one share link per line.
    pub file: Option<PathBuf>,
    /// How many downloads may run at once.
    pub max_concurrent: Option<usize>,
    /// How many times a URL is tried again.
    pub max_retries: Option<usize>,
    /// The delay before the first retry, in milliseconds.
    pub backoff_ms: Option<u64>,
}

/// Whether a trimmed line of a URL file holds a URL: it is not empty and no
/// comment.
pub open spec fn is_url_line(line: Seq<char>) -> bool {
    line.len() > 0 && line[0] != '#'
}

/// The URL lines among the first `n` lines, trimmed, in order.
pub open spec fn url_lines(all: Seq<Seq<char>>, n: int) -> Seq<Seq<char>>
    decreases n,
{
    if n <= 0 {
        Seq::empty()
    } else if is_url_line(trim(all[n - 1])) {
        url_lines(all, n - 1).push(trim(all[n - 1]))
    } else {
        url_lines(all, n - 1)
    }
}

/// The first `n` entries of `list` without those that repeat the entry
/// just before them.
pub open spec fn without_repeats(list: Seq<Seq<char>>, n: int) -> Seq<Seq<char>>
    decreases n,
{
    if n <= 0 {
        Seq::empty()
    } else if n >= 2 && list[n - 1] == list[n - 2] {
        without_repeats(list, n - 1)
    } else {
        without_repeats(list, n - 1).push(list[n - 1])
    }
}

/// The URLs that a file of URLs holds, before repeats are dropped.
pub open spec fn listed(contents: Seq<char>) -> Seq<Seq<char>> {
    url_lines(lines(contents), lines(contents).len() as int)
}

/// The URLs to download, as the arguments and the contents of the URL file
/// give them.
pub open spec fn gathered(cli: Cli, listing: Seq<char>) -> Option<Seq<Seq<char>>> {
    match cli.url {
        Some(url) => Some(seq![trim(url@)]),
        None => if cli.file is Some && listed(listing).len() > 0 {
            Some(without_repeats(listed(listing), listed(listing).len() as int))
        } else {
            None
        },
    }
}

/// The URLs that the file contents `contents` hold: the lines that, once
/// trimmed, are not empty and do not open with `#`, in order.
pub fn urls_in_listing(contents: &str) -> (out: Vec<String>)
    ensures
        texts(out@) == listed(contents@),
{
    let text = chars_of(contents);
    let all = split_lines(&text);
    let mut out: Vec<String> = Vec::new();
    let mut i: usize = 0;
    while i < all.len()
        invariant
            i <= all.len(),
            views(all@) == lines(contents@),
            all@.len() == lines(contents@).len(),
            texts(out@) == url_lines(lines(contents@), i as int),
        decreases all.len() - i,
    {
        let line = trimmed(&all[i]);
        if line.len() > 0 && line[0] != '#' {
            let url = text_of(&line);
            out.push(url);
        }
        i += 1;
    }
    out
}

/// `list` without the entries that repeat the entry just before them.
pub fn drop_repeats(list: Vec<String>) -> (out: Vec<String>)
    ensures
        texts(out@) == without_repeats(texts(list@), list@.len() as int),
{
    let mut out: Vec<String> = Vec::new();
    let mut i: usize = 0;
    while i < list.len()
        invariant
            i <= list.len(),
            texts(out@) == without_repeats(texts(list@), i as int),
        decreases list.len() - i,
    {
        if !(i >= 1 && list[i] == list[i - 1]) {
            out.push(list[i].clone());
        }
        i += 1;
    }
    out
}

impl Cli {
    /// Whether the arguments name exactly one input: `InputConflict` where
    /// both a URL and a file are given, `MissingInput` where neither is.
    pub fn validate(&self) -> (r: Result<(), Error>)
        ensures
            match r {
                Ok(_) => self.url is Some != self.file is Some,
                Err(Error::InputConflict) => self.url is Some && self.file is Some,
                Err(Error::MissingInput) => self.url is None && self.file is None,
                Err(_) => false,
            },
    {
        match (&self.url, &self.file) {
            (Some(_), Some(_)) => Err(Error::InputConflict),
            (None, None) => Err(Error::MissingInput),
            _ => Ok(()),
        }
    }

    /// The tunables of the run: the defaults, each replaced by the argument
    /// given for it, with a concurrency or a delay of 0 raised to 1.
    pub fn config(&self) -> (config: DownloadConfig)
        ensures
            config.wf(),
            config.max_concurrent_downloads == match self.max_concurrent {
                Some(n) => if n < 1 {
                    1
                } else {
                    n
                },
                None => 4,
            },
            config.max_retries == match self.max_retries {
                Some(n) => n,
                None => 3,
            },
            config.initial_backoff_ms == match self.backoff_ms {
                Some(n) => if n < 1 {
                    1
                } else {
                    n
                },
                None => 500,
            },
    {
        DownloadConfig::with_overrides(self.max_concurrent, self.max_retries, self.backoff_ms)
    }
}

/// The URLs to download. Where `cli` names a URL, that URL, trimmed; else
/// where it names a file, the URLs that `listing`, the contents of that
/// file, holds, without those that repeat the one before them.
///
/// Fails with `EmptyUrlFile` and the file's path where the file holds no
/// URL, and with `MissingInput` where `cli` names neither URL nor file.
pub fn gather_urls(cli: Cli, listing: &str) -> (r: Result<Vec<String>, Error>)
    ensures
        match r {
            Ok(urls) => gathered(cli, listing@) == Some(texts(urls@)),
            Err(Error::EmptyUrlFile(path)) => gathered(cli, listing@) is None && cli.file == Some(
                path,
            ),
            Err(Error::MissingInput) => cli.url is None && cli.file is None,
            Err(_) => false,
        },
{
    let Cli { url, file, max_concurrent, max_retries, backoff_ms } = cli;
    if let Some(url) = url {
        let chars = chars_of(url.as_str());
        let kept = trimmed(&chars);
        let mut urls: Vec<String> = Vec::new();
        let only = text_of(&kept);
        urls.push(only);
        return Ok(urls);
    }
    match file {
        Some(path) => {
            let urls = urls_in_listing(listing);
            if urls.len() == 0 {
                return Err(Error::EmptyUrlFile(path));
            }
            Ok(drop_repeats(urls))
        },
        None => Err(Error::MissingInput),
    }
}

} // verus!
