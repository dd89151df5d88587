//! HLS playlists: attributes, the choice of a variant from a master
//! playlist, and the list of segments that a media playlist asks for.

use crate::address::{join_url, parse_url, url_joined, url_parsed};
use crate::error::Error;
use crate::text::{
    begins_with, chars_of, copy_of, decimal, find, lines, parse_unsigned, position_from,
    push_decimal, same_chars, slice_of, split_lines, starts_with, text_of, texts, trim,
    trim_start, trimmed, trimmed_start, unsigned_value, views,
};
use vstd::prelude::*;
use vstd::string::StringExecFns;

verus! {

broadcast use vstd::string::group_string_axioms;

/// The index of the first comma or blank at or after `from`, or the length.
pub open spec fn value_end(s: Seq<char>, from: int) -> int
    decreases s.len() - from,
{
    if 0 <= from < s.len() && s[from] != ',' && s[from] != ' ' {
        value_end(s, from + 1)
    } else {
        from
    }
}

/// The value of `attribute` in a directive line: what follows the first
/// `attribute=` in the line, up to the closing quote where it opens with a
/// quote (nothing where that quote never closes), else up to the first
/// comma or blank, whichever comes first, or up to the line's end.
pub open spec fn attribute_value(line: Seq<char>, attribute: Seq<char>) -> Option<Seq<char>> {
    let needle = attribute.push('=');
    match find(line, needle) {
        None => None,
        Some(at) => {
            let rest = line.subrange(at + needle.len(), line.len() as int);
            if rest.len() > 0 && rest[0] == '"' {
                let inner = rest.drop_first();
                match find(inner, seq!['"']) {
                    Some(end) => Some(inner.subrange(0, end)),
                    None => None,
                }
            } else {
                Some(rest.subrange(0, value_end(rest, 0)))
            }
        },
    }
}

/// The views of an optional string.
pub open spec fn text_option(r: Option<String>) -> Option<Seq<char>> {
    match r {
        Some(text) => Some(text@),
        None => None,
    }
}

/// The value of `attribute` in `line`, on characters.
pub fn attribute_chars(line: &Vec<char>, attribute: &Vec<char>) -> (r: Option<Vec<char>>)
    ensures
        match r {
            Some(value) => attribute_value(line@, attribute@) == Some(value@),
            None => attribute_value(line@, attribute@) is None,
        },
{
    let mut needle = copy_of(attribute);
    needle.push('=');
    let at = match position_from(line, &needle, 0) {
        Some(at) => at,
        None => {
            return None;
        },
    };
    let rest = slice_of(line, at + needle.len(), line.len());
    if rest.len() > 0 && rest[0] == '"' {
        let inner = slice_of(&rest, 1, rest.len());
        let mut quote: Vec<char> = Vec::new();
        quote.push('"');
        match position_from(&inner, &quote, 0) {
            Some(end) => Some(slice_of(&inner, 0, end)),
            None => None,
        }
    } else {
        let mut end: usize = 0;
        while end < rest.len() && rest[end] != ',' && rest[end] != ' '
            invariant
                end <= rest.len(),
                value_end(rest@, end as int) == value_end(rest@, 0),
            decreases rest.len() - end,
        {
            end += 1;
        }
        Some(slice_of(&rest, 0, end))
    }
}

/// The value of `attribute` in the directive `line`, quoted or not.
pub fn extract_attribute(line: &str, attribute: &str) -> (r: Option<String>)
    ensures
        text_option(r) == attribute_value(line@, attribute@),
{
    let line = chars_of(line);
    let attribute = chars_of(attribute);
    match attribute_chars(&line, &attribute) {
        Some(value) => {
            let out = text_of(&value);
            Some(out)
        },
        None => None,
    }
}

/// Whether a line, once trimmed, declares a variant stream.
pub open spec fn is_variant_line(line: Seq<char>) -> bool {
    starts_with(line, "#EXT-X-STREAM-INF"@)
}

/// Whether a playlist is a master playlist: one of its lines, leading white
/// space aside, declares a variant stream.
pub open spec fn is_master(playlist: Seq<char>) -> bool {
    exists|i: int|
        0 <= i < lines(playlist).len() && is_variant_line(trim_start(#[trigger] lines(playlist)[i]))
}

/// Whether `playlist` is a master playlist.
pub fn is_master_playlist(playlist: &str) -> (r: bool)
    ensures
        r == is_master(playlist@),
{
    let text = chars_of(playlist);
    let all = split_lines(&text);
    let marker = chars_of("#EXT-X-STREAM-INF");
    let mut i: usize = 0;
    while i < all.len()
        invariant
            i <= all.len(),
            views(all@) == lines(playlist@),
            marker@ == "#EXT-X-STREAM-INF"@,
            forall|k: int|
                0 <= k < i ==> !is_variant_line(trim_start(#[trigger] lines(playlist@)[k])),
        decreases all.len() - i,
    {
        let line = trimmed_start(&all[i]);
        assert(views(all@)[i as int] == all@[i as int]@);
        if begins_with(&line, &marker) {
            return true;
        }
        i += 1;
    }
    false
}

/// Whether a segment reference names its scheme and host itself.
pub open spec fn is_absolute(reference: Seq<char>) -> bool {
    starts_with(reference, "http://"@) || starts_with(reference, "https://"@)
}

/// Where `reference` points for a playlist at `base`: an absolute reference
/// is parsed by itself, any other is joined to `base`. On failure, the
/// message that the error carries.
pub open spec fn resolved(base: Seq<char>, reference: Seq<char>) -> Result<Seq<char>, Seq<char>> {
    if is_absolute(reference) {
        match url_parsed(reference) {
            Ok(url) => Ok(url),
            Err(why) => Err("absolute URL parse failed: "@ + why),
        }
    } else {
        match url_joined(base, reference) {
            Ok(url) => Ok(url),
            Err(why) => Err("URL join failed for '"@ + reference + "': "@ + why),
        }
    }
}

/// The URL of a segment: `segment_path` itself where it is absolute, else
/// `segment_path` joined to `playlist_url`. Fails with `InvalidUrl` exactly
/// where the URL parser refuses.
pub fn resolve_segment_url(playlist_url: &str, segment_path: &str) -> (r: Result<String, Error>)
    ensures
        match r {
            Ok(url) => resolved(playlist_url@, segment_path@) == Ok::<Seq<char>, Seq<char>>(url@),
            Err(Error::InvalidUrl(message)) => resolved(playlist_url@, segment_path@) == Err::<
                Seq<char>,
                Seq<char>,
            >(message@),
            Err(_) => false,
        },
{
    let path = chars_of(segment_path);
    let plain = chars_of("http://");
    let secure = chars_of("https://");
    if begins_with(&path, &plain) || begins_with(&path, &secure) {
        match parse_url(segment_path) {
            Ok(url) => Ok(url),
            Err(why) => {
                let mut message = String::from_str("absolute URL parse failed: ");
                message.append(why.as_str());
                Err(Error::InvalidUrl(message))
            },
        }
    } else {
        match join_url(playlist_url, segment_path) {
            Ok(url) => Ok(url),
            Err(why) => {
                let mut message = String::from_str("URL join failed for '");
                message.append(segment_path);
                message.append("': ");
                message.append(why.as_str());
                Err(Error::InvalidUrl(message))
            },
        }
    }
}

/// One rendition that a master playlist offers.
#[derive(Debug)]
pub struct Variant {
    /// The declared bandwidth, 0 where none is declared or readable.
    pub bandwidth: u64,
    /// The resolved URL of the rendition's own playlist.
    pub url: String,
}

/// A variant as contracts speak of it.
pub struct VariantModel {
    pub bandwidth: u64,
    pub url: Seq<char>,
}

impl View for Variant {
    type V = VariantModel;

    open spec fn view(&self) -> VariantModel {
        VariantModel { bandwidth: self.bandwidth, url: self.url@ }
    }
}

/// The views of a list of variants.
pub open spec fn variant_models(list: Seq<Variant>) -> Seq<VariantModel> {
    Seq::new(list.len(), |i: int| list[i]@)
}

/// The bandwidth that a variant line declares: its `BANDWIDTH` attribute
/// read as an unsigned number, 0 where there is none or it is no number.
pub open spec fn bandwidth_of(line: Seq<char>) -> u64 {
    match attribute_value(line, "BANDWIDTH"@) {
        Some(value) => match unsigned_value(value) {
            Some(number) => number,
            None => 0,
        },
        None => 0,
    }
}

/// Whether a trimmed line holds a URI: it is not empty and no directive or
/// comment.
pub open spec fn is_uri_line(line: Seq<char>) -> bool {
    line.len() > 0 && line[0] != '#'
}

/// The index of the first line at or after `from` that holds a URI, or the
/// number of lines.
pub open spec fn next_uri(all: Seq<Seq<char>>, from: int) -> int
    decreases all.len() - from,
{
    if 0 <= from < all.len() && !is_uri_line(trim(all[from])) {
        next_uri(all, from + 1)
    } else {
        from
    }
}

/// The variants that the lines from `from` on declare, in order: each
/// variant line with the next URI line after it, which it uses up. A variant
/// whose URI does not resolve is left out; one with no URI line after it ends
/// the list.
pub open spec fn variants_from(all: Seq<Seq<char>>, base: Seq<char>, from: int) -> Seq<
    VariantModel,
>
    decreases all.len() - from,
{
    if from < 0 || from >= all.len() {
        Seq::empty()
    } else if !is_variant_line(trim(all[from])) {
        variants_from(all, base, from + 1)
    } else {
        let at = next_uri(all, from + 1);
        if from < at < all.len() {
            let rest = variants_from(all, base, at + 1);
            match resolved(base, trim(all[at])) {
                Ok(url) => seq![
                    VariantModel { bandwidth: bandwidth_of(trim(all[from])), url },
                ] + rest,
                Err(_) => rest,
            }
        } else {
            Seq::empty()
        }
    }
}

/// The variants that a master playlist at `base` declares.
pub open spec fn variants_of(playlist: Seq<char>, base: Seq<char>) -> Seq<VariantModel> {
    variants_from(lines(playlist), base, 0)
}

/// Whether the variant at `k` is the one to take: none has a greater
/// bandwidth, and every earlier one has a smaller.
pub open spec fn is_best(variants: Seq<VariantModel>, k: int) -> bool {
    &&& 0 <= k < variants.len()
    &&& forall|j: int| 0 <= j < variants.len() ==> variants[j].bandwidth <= variants[k].bandwidth
    &&& forall|j: int| 0 <= j < k ==> variants[j].bandwidth < variants[k].bandwidth
}

/// At most one variant is the one to take.
pub proof fn lemma_best_is_unique(variants: Seq<VariantModel>, a: int, b: int)
    requires
        is_best(variants, a),
        is_best(variants, b),
    ensures
        a == b,
{
    if a < b {
        assert(variants[a].bandwidth < variants[b].bandwidth);
        assert(variants[b].bandwidth <= variants[a].bandwidth);
    } else if b < a {
        assert(variants[b].bandwidth < variants[a].bandwidth);
        assert(variants[a].bandwidth <= variants[b].bandwidth);
    }
}

/// The variants that the master playlist `playlist`, found at `base_url`,
/// declares.
pub fn playlist_variants(playlist: &str, base_url: &str) -> (out: Vec<Variant>)
    ensures
        variant_models(out@) == variants_of(playlist@, base_url@),
{
    let text = chars_of(playlist);
    let all = split_lines(&text);
    let marker = chars_of("#EXT-X-STREAM-INF");
    let name = chars_of("BANDWIDTH");
    let mut out: Vec<Variant> = Vec::new();
    let mut i: usize = 0;
    while i < all.len()
        invariant
            i <= all.len(),
            views(all@) == lines(playlist@),
            marker@ == "#EXT-X-STREAM-INF"@,
            name@ == "BANDWIDTH"@,
            variant_models(out@) + variants_from(lines(playlist@), base_url@, i as int)
                == variants_of(playlist@, base_url@),
        ensures
            variant_models(out@) == variants_of(playlist@, base_url@),
        decreases all.len() - i,
    {
        let line = trimmed(&all[i]);
        if !begins_with(&line, &marker) {
            i += 1;
            continue ;
        }
        let bandwidth: u64 = match attribute_chars(&line, &name) {
            Some(value) => match parse_unsigned(&value) {
                Some(number) => number,
                None => 0,
            },
            None => 0,
        };
        let mut at: usize = i + 1;
        let mut uri: Vec<char> = Vec::new();
        while at < all.len()
            invariant
                i < at <= all.len(),
                views(all@) == lines(playlist@),
                next_uri(lines(playlist@), at as int) == next_uri(lines(playlist@), i + 1),
            ensures
                i < at <= all.len(),
                at == next_uri(lines(playlist@), i + 1),
                at < all.len() ==> uri@ == trim(lines(playlist@)[at as int]),
            decreases all.len() - at,
        {
            let candidate = trimmed(&all[at]);
            if candidate.len() > 0 && candidate[0] != '#' {
                uri = candidate;
                break ;
            }
            at += 1;
        }
        if at >= all.len() {
            break ;
        }
        let reference = text_of(&uri);
        match resolve_segment_url(base_url, reference.as_str()) {
            Ok(url) => {
                let variant = Variant { bandwidth, url };
                out.push(variant);
            },
            Err(_) => {},
        }
        i = at + 1;
    }
    out
}

/// The index of the variant to take from `variants`: the first of those
/// with the greatest bandwidth.
pub fn best_variant(variants: &Vec<Variant>) -> (r: Option<usize>)
    ensures
        variants.len() == 0 <==> r is None,
        r is Some ==> is_best(variant_models(variants@), r->0 as int),
{
    if variants.len() == 0 {
        return None;
    }
    let mut best: usize = 0;
    let mut i: usize = 1;
    while i < variants.len()
        invariant
            0 <= best < i <= variants.len(),
            forall|j: int|
                0 <= j < i ==> variants@[j].bandwidth <= variants@[best as int].bandwidth,
            forall|j: int|
                0 <= j < best ==> variants@[j].bandwidth < variants@[best as int].bandwidth,
        decreases variants.len() - i,
    {
        if variants[i].bandwidth > variants[best].bandwidth {
            best = i;
        }
        i += 1;
    }
    Some(best)
}

/// The URL of the variant to play from the master playlist `playlist`,
/// found at `base_url`: that of the greatest bandwidth, the earliest of
/// them where several share it; nothing where no variant resolves.
pub fn select_best_variant(playlist: &str, base_url: &str) -> (r: Option<String>)
    ensures
        r is None <==> variants_of(playlist@, base_url@).len() == 0,
        r is Some ==> exists|k: int|
            #![trigger is_best(variants_of(playlist@, base_url@), k)]
            is_best(variants_of(playlist@, base_url@), k) && r->0@ == variants_of(
                playlist@,
                base_url@,
            )[k].url,
{
    let variants = playlist_variants(playlist, base_url);
    match best_variant(&variants) {
        Some(k) => {
            let url = variants[k].url.clone();
            Some(url)
        },
        None => None,
    }
}

/// Why a media playlist yields no list of segments.
pub enum PlanFailure {
    /// A key line asks for the encryption `method`.
    Encrypted { method: Seq<char> },
    /// The `uri` of an initialization segment does not resolve.
    InitSegment { uri: Seq<char> },
    /// The segment `reference` on line `line`, counted from 1, does not resolve.
    Segment { line: nat, reference: Seq<char> },
    /// The playlist names no media segment.
    NoSegments,
}

/// What one line of a media playlist asks for.
pub enum LineStep {
    /// Nothing: a blank line, a comment, or a directive of no concern.
    Skip,
    /// The initialization segment at this URL is to be fetched.
    Init(Seq<char>),
    /// The media segment at this URL is to be fetched.
    Media(Seq<char>),
    /// The playlist cannot be played.
    Fail(PlanFailure),
}

/// The encryption method that a key line names, `NONE` where it names none.
pub open spec fn key_method(line: Seq<char>) -> Seq<char> {
    match attribute_value(line, "METHOD"@) {
        Some(method) => method,
        None => "NONE"@,
    }
}

/// What the trimmed line `line`, the `number`-th of a playlist at `base`,
/// asks for.
pub open spec fn line_step(base: Seq<char>, line: Seq<char>, number: nat) -> LineStep {
    if line.len() == 0 {
        LineStep::Skip
    } else if starts_with(line, "#EXT-X-KEY"@) {
        if key_method(line) == "NONE"@ {
            LineStep::Skip
        } else {
            LineStep::Fail(PlanFailure::Encrypted { method: key_method(line) })
        }
    } else if starts_with(line, "#EXT-X-MAP"@) {
        match attribute_value(line, "URI"@) {
            None => LineStep::Skip,
            Some(uri) => match resolved(base, uri) {
                Ok(url) => LineStep::Init(url),
                Err(_) => LineStep::Fail(PlanFailure::InitSegment { uri }),
            },
        }
    } else if line[0] == '#' {
        LineStep::Skip
    } else {
        match resolved(base, line) {
            Ok(url) => LineStep::Media(url),
            Err(_) => LineStep::Fail(PlanFailure::Segment { line: number, reference: line }),
        }
    }
}

/// What line `i` of `all`, counted from 0, asks for.
pub open spec fn step_at(all: Seq<Seq<char>>, base: Seq<char>, i: int) -> LineStep {
    line_step(base, trim(all[i]), (i + 1) as nat)
}

/// The URLs gathered so far: those of the initialization segments, and
/// those of the media segments, each in the order of their lines.
pub struct PlanState {
    pub init: Seq<Seq<char>>,
    pub media: Seq<Seq<char>>,
}

/// What the first `n` lines ask for, taken in order: the URLs to fetch, or
/// the failure of the first line that fails.
pub open spec fn plan_upto(all: Seq<Seq<char>>, base: Seq<char>, n: int) -> Result<
    PlanState,
    PlanFailure,
>
    decreases n,
{
    if n <= 0 {
        Ok(PlanState { init: Seq::empty(), media: Seq::empty() })
    } else {
        match plan_upto(all, base, n - 1) {
            Err(failure) => Err(failure),
            Ok(state) => match step_at(all, base, n - 1) {
                LineStep::Skip => Ok(state),
                LineStep::Init(url) => Ok(
                    PlanState { init: state.init.push(url), media: state.media },
                ),
                LineStep::Media(url) => Ok(
                    PlanState { init: state.init, media: state.media.push(url) },
                ),
                LineStep::Fail(failure) => Err(failure),
            },
        }
    }
}

/// What a media playlist at `base` asks to fetch, in the order in which the
/// bytes are to be written: first the URL of each initialization segment,
/// wherever its map line stands, then the URL of each media segment, in the
/// order of the lines. It fails at the first line that fails, and where no
/// media segment is named.
pub open spec fn media_plan(playlist: Seq<char>, base: Seq<char>) -> Result<
    Seq<Seq<char>>,
    PlanFailure,
> {
    match plan_upto(lines(playlist), base, lines(playlist).len() as int) {
        Err(failure) => Err(failure),
        Ok(state) => if state.media.len() > 0 {
            Ok(state.init + state.media)
        } else {
            Err(PlanFailure::NoSegments)
        },
    }
}

/// Whether `error` is how `failure` is reported.
pub open spec fn reports_failure(error: Error, failure: PlanFailure) -> bool {
    match failure {
        PlanFailure::Encrypted { method } => error matches Error::UnsupportedStream(message)
            && message@ == "HLS encryption method "@ + method + " is not supported"@,
        PlanFailure::InitSegment { uri } => error matches Error::InvalidUrl(message) && message@
            == "init segment: "@ + uri,
        PlanFailure::Segment { line, reference } => error matches Error::InvalidUrl(message)
            && message@ == "segment at line "@ + decimal(line) + ": "@ + reference,
        PlanFailure::NoSegments => error is VideoUrlNotFound,
    }
}

/// Once a line has failed, later lines change nothing.
pub proof fn lemma_failure_stays(all: Seq<Seq<char>>, base: Seq<char>, m: int, n: int)
    requires
        m <= n,
        plan_upto(all, base, m) is Err,
    ensures
        plan_upto(all, base, n) == plan_upto(all, base, m),
    decreases n - m,
{
    if m < n {
        lemma_failure_stays(all, base, m, n - 1);
    }
}

/// Whether line `j` of `all` is the first that fails.
pub open spec fn first_failure(all: Seq<Seq<char>>, base: Seq<char>, j: int) -> bool {
    &&& 0 <= j < all.len()
    &&& step_at(all, base, j) is Fail
    &&& forall|i: int| 0 <= i < j ==> !(#[trigger] step_at(all, base, i) is Fail)
}

/// The first `n` lines give their URLs exactly where none of them fails, a
/// media segment only where one of them names it, and else the failure of
/// the first line that fails.
pub proof fn lemma_plan_upto(all: Seq<Seq<char>>, base: Seq<char>, n: int)
    requires
        0 <= n <= all.len(),
    ensures
        match plan_upto(all, base, n) {
            Ok(state) => {
                &&& forall|j: int| 0 <= j < n ==> !(#[trigger] step_at(all, base, j) is Fail)
                &&& state.media.len() > 0 ==> exists|j: int|
                    0 <= j < n && #[trigger] step_at(all, base, j) is Media
            },
            Err(failure) => exists|j: int|
                j < n && #[trigger] first_failure(all, base, j) && step_at(all, base, j)
                    == LineStep::Fail(failure),
        },
    decreases n,
{
    if n > 0 {
        lemma_plan_upto(all, base, n - 1);
        match plan_upto(all, base, n - 1) {
            Ok(state) => {
                if step_at(all, base, n - 1) is Fail {
                    assert(first_failure(all, base, n - 1));
                } else if state.media.len() > 0 && !(step_at(all, base, n - 1) is Media) {
                    let j = choose|j: int|
                        0 <= j < n - 1 && #[trigger] step_at(all, base, j) is Media;
                }
            },
            Err(failure) => {
                let j = choose|j: int|
                    j < n - 1 && #[trigger] first_failure(all, base, j) && step_at(all, base, j)
                        == LineStep::Fail(failure);
            },
        }
    }
}

/// Whether a trimmed line is a key line that asks for encryption: its
/// method is not `NONE`.
pub open spec fn asks_encryption(line: Seq<char>) -> bool {
    starts_with(line, "#EXT-X-KEY"@) && key_method(line) != "NONE"@
}

/// A media playlist that holds a key line with a method other than `NONE`
/// yields no list of segments, so nothing of it is fetched or written. The
/// failure is that of encryption unless an earlier line names a segment that
/// does not resolve.
pub proof fn lemma_encrypted_playlist_refused(playlist: Seq<char>, base: Seq<char>, k: int)
    requires
        0 <= k < lines(playlist).len(),
        asks_encryption(trim(lines(playlist)[k])),
    ensures
        media_plan(playlist, base) is Err,
        (forall|j: int|
            0 <= j < k && #[trigger] step_at(lines(playlist), base, j) is Fail ==> step_at(
                lines(playlist),
                base,
                j,
            )->Fail_0 is Encrypted) ==> media_plan(playlist, base)->Err_0 is Encrypted,
{
    let all = lines(playlist);
    assert(step_at(all, base, k) is Fail);
    lemma_plan_upto(all, base, all.len() as int);
    if plan_upto(all, base, all.len() as int) is Err {
        let failure = plan_upto(all, base, all.len() as int)->Err_0;
        let j = choose|j: int|
            j < all.len() && #[trigger] first_failure(all, base, j) && step_at(all, base, j)
                == LineStep::Fail(failure);
    }
}

/// A media playlist none of whose lines names a segment yields no list of
/// segments. The failure is that no segment was found unless a key line asks
/// for encryption or an initialization segment does not resolve.
pub proof fn lemma_no_segment_no_plan(playlist: Seq<char>, base: Seq<char>)
    requires
        forall|j: int|
            0 <= j < lines(playlist).len() ==> !is_uri_line(trim(#[trigger] lines(playlist)[j])),
    ensures
        media_plan(playlist, base) is Err,
        (forall|j: int|
            0 <= j < lines(playlist).len() ==> !(#[trigger] step_at(lines(playlist), base, j)
                is Fail))
            ==> media_plan(playlist, base) == Err::<Seq<Seq<char>>, PlanFailure>(
            PlanFailure::NoSegments,
        ),
{
    let all = lines(playlist);
    lemma_plan_upto(all, base, all.len() as int);
    match plan_upto(all, base, all.len() as int) {
        Ok(state) => {
            if state.media.len() > 0 {
                let j = choose|j: int|
                    0 <= j < all.len() && #[trigger] step_at(all, base, j) is Media;
            }
        },
        Err(failure) => {
            let j = choose|j: int|
                j < all.len() && #[trigger] first_failure(all, base, j) && step_at(all, base, j)
                    == LineStep::Fail(failure);
        },
    }
}

/// The URLs that the media playlist `playlist`, found at `playlist_url`,
/// asks to fetch, in the order in which their bytes make up the file: those
/// of the initialization segments first, then those of the media segments
/// in the order of the lines.
///
/// Fails with `UnsupportedStream` at a key line whose method is not `NONE`,
/// with `InvalidUrl` at a segment or initialization segment that does not
/// resolve, whichever line comes first, and with `VideoUrlNotFound` where no
/// line fails and none names a media segment.
pub fn media_playlist_segments(playlist: &str, playlist_url: &str) -> (r: Result<
    Vec<String>,
    Error,
>)
    ensures
        match r {
            Ok(urls) => media_plan(playlist@, playlist_url@) == Ok::<Seq<Seq<char>>, PlanFailure>(
                texts(urls@),
            ),
            Err(error) => media_plan(playlist@, playlist_url@) is Err && reports_failure(
                error,
                media_plan(playlist@, playlist_url@)->Err_0,
            ),
        },
{
    let text = chars_of(playlist);
    let all = split_lines(&text);
    let key = chars_of("#EXT-X-KEY");
    let map = chars_of("#EXT-X-MAP");
    let method_name = chars_of("METHOD");
    let uri_name = chars_of("URI");
    let none = chars_of("NONE");
    let mut init: Vec<String> = Vec::new();
    let mut media: Vec<String> = Vec::new();
    assert(texts(init@) =~= Seq::<Seq<char>>::empty());
    assert(texts(media@) =~= Seq::<Seq<char>>::empty());
    let mut i: usize = 0;
    while i < all.len()
        invariant
            i <= all.len(),
            views(all@) == lines(playlist@),
            all@.len() == lines(playlist@).len(),
            key@ == "#EXT-X-KEY"@,
            map@ == "#EXT-X-MAP"@,
            method_name@ == "METHOD"@,
            uri_name@ == "URI"@,
            none@ == "NONE"@,
            plan_upto(lines(playlist@), playlist_url@, i as int) == Ok::<PlanState, PlanFailure>(
                PlanState { init: texts(init@), media: texts(media@) },
            ),
        decreases all.len() - i,
    {
        let ghost base = playlist_url@;
        let ghost every = lines(playlist@);
        let line = trimmed(&all[i]);
        if line.len() == 0 {
            i += 1;
            continue ;
        }
        if begins_with(&line, &key) {
            let method = match attribute_chars(&line, &method_name) {
                Some(method) => method,
                None => copy_of(&none),
            };
            if !same_chars(&method, &none) {
                let mut message = String::from_str("HLS encryption method ");
                let shown = text_of(&method);
                message.append(shown.as_str());
                message.append(" is not supported");
                proof {
                    lemma_failure_stays(every, base, i + 1, every.len() as int);
                }
                return Err(Error::UnsupportedStream(message));
            }
            i += 1;
            continue ;
        }
        if begins_with(&line, &map) {
            match attribute_chars(&line, &uri_name) {
                Some(uri) => {
                    let reference = text_of(&uri);
                    match resolve_segment_url(playlist_url, reference.as_str()) {
                        Ok(url) => {
                            let ghost before = texts(init@);
                            init.push(url);
                            assert(texts(init@) =~= before.push(url@));
                        },
                        Err(_) => {
                            let mut message = String::from_str("init segment: ");
                            message.append(reference.as_str());
                            proof {
                                lemma_failure_stays(every, base, i + 1, every.len() as int);
                            }
                            return Err(Error::InvalidUrl(message));
                        },
                    }
                },
                None => {},
            }
            i += 1;
            continue ;
        }
        if line[0] == '#' {
            i += 1;
            continue ;
        }
        let reference = text_of(&line);
        match resolve_segment_url(playlist_url, reference.as_str()) {
            Ok(url) => {
                let ghost before = texts(media@);
                media.push(url);
                assert(texts(media@) =~= before.push(url@));
            },
            Err(_) => {
                let mut message = String::from_str("segment at line ");
                push_decimal(&mut message, i + 1);
                message.append(": ");
                message.append(reference.as_str());
                proof {
                    lemma_failure_stays(every, base, i + 1, every.len() as int);
                }
                return Err(Error::InvalidUrl(message));
            },
        }
        i += 1;
    }
    if media.len() == 0 {
        return Err(Error::VideoUrlNotFound);
    }
    let ghost first = texts(init@);
    let ghost then = texts(media@);
    init.append(&mut media);
    assert(texts(init@) =~= first + then);
    Ok(init)
}

} // verus!
