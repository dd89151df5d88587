//! From a share page to a video descriptor: the three embedded payloads that
//! a page may carry, tried in a fixed order.

use crate::address::{path_segments, url_path_segments};
use crate::error::Error;
use crate::json::{json_document, parse_json, JsonValue, JsonMember};
use crate::page::{element_text, first_element_text};
use crate::text::{
    chars_of, contains, position_from, replace_all, replaced, string_of, text_of, texts,
};
use vstd::prelude::*;
use vstd::string::StringExecFns;

verus! {

broadcast use vstd::string::group_string_axioms;

/// What is needed to download one video.
#[derive(Debug, Clone)]
pub struct VideoDescriptor {
    /// The video's identifier, never empty.
    pub video_id: String,
    /// The URL of the video as one file, where the page names one.
    pub download_url: Option<String>,
    /// The URL at which the video is played as a segmented stream, where
    /// the page names one.
    pub play_url: Option<String>,
    /// The author's name, `unknown` where the page and the link name none.
    pub author: String,
}

/// A descriptor as contracts speak of it.
pub struct DescriptorModel {
    pub video_id: Seq<char>,
    pub download_url: Option<Seq<char>>,
    pub play_url: Option<Seq<char>>,
    pub author: Seq<char>,
}

/// The view of an optional string.
pub open spec fn opt_text(value: Option<String>) -> Option<Seq<char>> {
    match value {
        Some(text) => Some(text@),
        None => None,
    }
}

impl View for VideoDescriptor {
    type V = DescriptorModel;

    open spec fn view(&self) -> DescriptorModel {
        DescriptorModel {
            video_id: self.video_id@,
            download_url: opt_text(self.download_url),
            play_url: opt_text(self.play_url),
            author: self.author@,
        }
    }
}

/// The view of an optional descriptor.
pub open spec fn opt_descriptor(value: Option<VideoDescriptor>) -> Option<DescriptorModel> {
    match value {
        Some(descriptor) => Some(descriptor@),
        None => None,
    }
}

impl DescriptorModel {
    /// Whether the descriptor can be downloaded from: it names the video,
    /// and at least one URL, none of them empty.
    pub open spec fn wf(self) -> bool {
        &&& self.video_id.len() > 0
        &&& self.download_url is Some || self.play_url is Some
        &&& self.download_url is Some ==> self.download_url->0.len() > 0
        &&& self.play_url is Some ==> self.play_url->0.len() > 0
    }
}

/// Whether a path segment announces that the video's identifier follows.
pub open spec fn is_id_marker(segment: Seq<char>) -> bool {
    segment == "video"@ || segment == "note"@
}

/// The segment after the first marker among `segments[from..]` that has a
/// segment after it.
pub open spec fn marked_from(segments: Seq<Seq<char>>, from: int) -> Option<Seq<char>>
    decreases segments.len() - from,
{
    if from < 0 || from + 1 >= segments.len() {
        None
    } else if is_id_marker(segments[from]) {
        Some(segments[from + 1])
    } else {
        marked_from(segments, from + 1)
    }
}

/// The segments that are not empty.
pub open spec fn present(segments: Seq<Seq<char>>) -> Seq<Seq<char>> {
    segments.filter(|segment: Seq<char>| segment.len() > 0)
}

/// The video's identifier as a path names it: of the segments that are not
/// empty, the one after the first `video` or `note` that has one after it,
/// else the last.
pub open spec fn video_id_in(segments: Seq<Seq<char>>) -> Option<Seq<char>> {
    let kept = present(segments);
    match marked_from(kept, 0) {
        Some(id) => Some(id),
        None => if kept.len() > 0 {
            Some(kept.last())
        } else {
            None
        },
    }
}

/// The video's identifier as the share link names it; nothing where the
/// link is no URL with a path.
pub open spec fn guessed_video_id(share_url: Seq<char>) -> Option<Seq<char>> {
    match url_path_segments(share_url) {
        Some(segments) => video_id_in(segments),
        None => None,
    }
}

/// The author as a path names it: the first segment among
/// `segments[from..]` that opens with `@` and goes on, without the `@`.
pub open spec fn author_in(segments: Seq<Seq<char>>, from: int) -> Option<Seq<char>>
    decreases segments.len() - from,
{
    if from < 0 || from >= segments.len() {
        None
    } else if segments[from].len() > 1 && segments[from][0] == '@' {
        Some(segments[from].drop_first())
    } else {
        author_in(segments, from + 1)
    }
}

/// The author as the share link names it; nothing where the link is no URL
/// with a path.
pub open spec fn guessed_author(share_url: Seq<char>) -> Option<Seq<char>> {
    match url_path_segments(share_url) {
        Some(segments) => author_in(segments, 0),
        None => None,
    }
}

/// The video's identifier as the path segments `segments` name it.
pub fn video_id_from_segments(segments: &Vec<String>) -> (r: Option<String>)
    ensures
        opt_text(r) == video_id_in(texts(segments@)),
{
    let mut kept: Vec<String> = Vec::new();
    let mut i: usize = 0;
    let ghost all = texts(segments@);
    while i < segments.len()
        invariant
            i <= segments.len(),
            all == texts(segments@),
            texts(kept@) == present(all.subrange(0, i as int)),
        decreases segments.len() - i,
    {
        assert(all.subrange(0, i + 1).drop_last() =~= all.subrange(0, i as int));
        reveal(Seq::filter);
        if !segments[i].as_str().is_empty() {
            kept.push(segments[i].clone());
        }
        i += 1;
    }
    assert(all.subrange(0, i as int) =~= all);
    let video = String::from_str("video");
    let note = String::from_str("note");
    let mut k: usize = 0;
    while kept.len() > 0 && k < kept.len() - 1
        invariant
            video@ == "video"@,
            note@ == "note"@,
            k <= kept.len(),
            texts(kept@) == present(texts(segments@)),
            marked_from(texts(kept@), k as int) == marked_from(texts(kept@), 0),
        decreases kept.len() - k,
    {
        if kept[k] == video || kept[k] == note {
            return Some(kept[k + 1].clone());
        }
        k += 1;
    }
    if kept.len() > 0 {
        Some(kept[kept.len() - 1].clone())
    } else {
        None
    }
}

/// The video's identifier as the share link names it.
pub fn guess_video_id(share_url: &str) -> (r: Option<String>)
    ensures
        opt_text(r) == guessed_video_id(share_url@),
{
    match path_segments(share_url) {
        Some(segments) => video_id_from_segments(&segments),
        None => None,
    }
}

/// The author as the path segments `segments` name them.
pub fn author_from_segments(segments: &Vec<String>) -> (r: Option<String>)
    ensures
        opt_text(r) == author_in(texts(segments@), 0),
{
    let mut i: usize = 0;
    while i < segments.len()
        invariant
            i <= segments.len(),
            author_in(texts(segments@), i as int) == author_in(texts(segments@), 0),
        decreases segments.len() - i,
    {
        let chars = chars_of(segments[i].as_str());
        if chars.len() > 1 && chars[0] == '@' {
            return Some(string_of(&chars, 1, chars.len()));
        }
        i += 1;
    }
    None
}

/// The author as the share link names them.
pub fn guess_author_id(share_url: &str) -> (r: Option<String>)
    ensures
        opt_text(r) == guessed_author(share_url@),
{
    match path_segments(share_url) {
        Some(segments) => author_from_segments(&segments),
        None => None,
    }
}

/// The video part of an item as a payload holds it.
#[derive(Debug, Clone)]
pub struct VideoStruct {
    pub download_addr: Option<String>,
    pub play_addr: Option<String>,
}

/// The author part of an item as a payload holds it.
#[derive(Debug, Clone)]
pub struct AuthorStruct {
    pub unique_id: Option<String>,
}

/// One item as a payload holds it, every part of it optional.
#[derive(Debug, Clone)]
pub struct ItemStruct {
    pub id: Option<String>,
    pub video: Option<VideoStruct>,
    pub author: Option<AuthorStruct>,
}

/// What a payload says of one item, as contracts speak of it.
pub struct ItemModel {
    pub id: Option<Seq<char>>,
    pub has_video: bool,
    pub download_addr: Option<Seq<char>>,
    pub play_addr: Option<Seq<char>>,
    pub author: Option<Seq<char>>,
}

impl View for ItemStruct {
    type V = ItemModel;

    open spec fn view(&self) -> ItemModel {
        ItemModel {
            id: opt_text(self.id),
            has_video: self.video is Some,
            download_addr: match self.video {
                Some(video) => opt_text(video.download_addr),
                None => None,
            },
            play_addr: match self.video {
                Some(video) => opt_text(video.play_addr),
                None => None,
            },
            author: match self.author {
                Some(author) => opt_text(author.unique_id),
                None => None,
            },
        }
    }
}

/// `value`, unless it is empty.
pub open spec fn filled(value: Option<Seq<char>>) -> Option<Seq<char>> {
    match value {
        Some(text) => if text.len() > 0 {
            Some(text)
        } else {
            None
        },
        None => None,
    }
}

/// The descriptor that an item gives for the share link `share_url`: none
/// unless the item has a video part, an identifier that is not empty and at
/// least one URL that is not empty. The author is the item's, else the one
/// that the link names, else `unknown`.
pub open spec fn described(item: ItemModel, share_url: Seq<char>) -> Option<DescriptorModel> {
    if !item.has_video || (filled(item.download_addr) is None && filled(item.play_addr) is None)
        || filled(item.id) is None {
        None
    } else {
        Some(
            DescriptorModel {
                video_id: item.id->0,
                download_url: filled(item.download_addr),
                play_url: filled(item.play_addr),
                author: match item.author {
                    Some(author) => author,
                    None => match guessed_author(share_url) {
                        Some(author) => author,
                        None => "unknown"@,
                    },
                },
            },
        )
    }
}

fn keep_filled(value: Option<String>) -> (r: Option<String>)
    ensures
        opt_text(r) == filled(opt_text(value)),
{
    match value {
        Some(text) => if text.as_str().is_empty() {
            None
        } else {
            Some(text)
        },
        None => None,
    }
}

/// The descriptor that `item` gives for the share link `share_url`.
pub fn build_descriptor_from_item(item: ItemStruct, share_url: &str) -> (r: Option<
    VideoDescriptor,
>)
    ensures
        opt_descriptor(r) == described(item@, share_url@),
{
    let ItemStruct { id, video, author } = item;
    let video = match video {
        Some(video) => video,
        None => {
            return None;
        },
    };
    let VideoStruct { download_addr, play_addr } = video;
    let download_url = keep_filled(download_addr);
    let play_url = keep_filled(play_addr);
    if download_url.is_none() && play_url.is_none() {
        return None;
    }
    let video_id = match id {
        Some(id) => id,
        None => {
            return None;
        },
    };
    if video_id.as_str().is_empty() {
        return None;
    }
    let named = match author {
        Some(author) => author.unique_id,
        None => None,
    };
    let author = match named {
        Some(author) => author,
        None => match guess_author_id(share_url) {
            Some(author) => author,
            None => String::from_str("unknown"),
        },
    };
    Some(VideoDescriptor { video_id, download_url, play_url, author })
}

/// The text of the member `name` of `value`, where there is one.
pub open spec fn member_text(value: JsonValue, name: Seq<char>) -> Option<Seq<char>> {
    match value.member(name) {
        Some(member) => member.text(),
        None => None,
    }
}

/// What the JSON value `value` says of an item when it is read member by
/// member: the identifier is the text of `id`, else what the share link
/// names; URLs and author are the texts of `video.downloadAddr`,
/// `video.playAddr` and `author.uniqueId`.
pub open spec fn value_item(value: JsonValue, share_url: Seq<char>) -> ItemModel {
    ItemModel {
        id: match member_text(value, "id"@) {
            Some(id) => Some(id),
            None => guessed_video_id(share_url),
        },
        has_video: value.member("video"@) is Some,
        download_addr: match value.member("video"@) {
            Some(video) => member_text(video, "downloadAddr"@),
            None => None,
        },
        play_addr: match value.member("video"@) {
            Some(video) => member_text(video, "playAddr"@),
            None => None,
        },
        author: match value.member("author"@) {
            Some(author) => member_text(author, "uniqueId"@),
            None => None,
        },
    }
}

fn text_of_member(value: &JsonValue, name: &str) -> (r: Option<String>)
    ensures
        opt_text(r) == member_text(*value, name@),
{
    match value.get(name) {
        Some(member) => match member.as_str() {
            Some(text) => Some(String::from_str(text)),
            None => None,
        },
        None => None,
    }
}

/// The descriptor that the JSON value `value` gives for the share link
/// `share_url`.
pub fn build_descriptor_from_value(value: &JsonValue, share_url: &str) -> (r: Option<
    VideoDescriptor,
>)
    ensures
        opt_descriptor(r) == described(value_item(*value, share_url@), share_url@),
{
    let id = match text_of_member(value, "id") {
        Some(id) => Some(id),
        None => guess_video_id(share_url),
    };
    let video = match value.get("video") {
        Some(video) => video,
        None => {
            return None;
        },
    };
    let download_addr = text_of_member(video, "downloadAddr");
    let play_addr = text_of_member(video, "playAddr");
    let unique_id = match value.get("author") {
        Some(author) => text_of_member(author, "uniqueId"),
        None => None,
    };
    let item = ItemStruct {
        id,
        video: Some(VideoStruct { download_addr, play_addr }),
        author: Some(AuthorStruct { unique_id }),
    };
    build_descriptor_from_item(item, share_url)
}

/// The views of a list of items with their keys.
pub open spec fn entries(items: Seq<(String, ItemStruct)>) -> Seq<(Seq<char>, ItemModel)> {
    Seq::new(items.len(), |i: int| (items[i].0@, items[i].1@))
}

/// The index of the first entry among `items[from..]` whose key is `id`.
pub open spec fn entry_from(items: Seq<(Seq<char>, ItemModel)>, id: Seq<char>, from: int) -> Option<
    int,
>
    decreases items.len() - from,
{
    if from < 0 || from >= items.len() {
        None
    } else if items[from].0 == id {
        Some(from)
    } else {
        entry_from(items, id, from + 1)
    }
}

/// Whether no key occurs twice, as in a map.
pub open spec fn distinct_keys(items: Seq<(Seq<char>, ItemModel)>) -> bool {
    forall|i: int, j: int|
        0 <= i < j < items.len() ==> (#[trigger] items[i]).0 != (#[trigger] items[j]).0
}

/// Where no key occurs twice, the entry that a key finds is the only entry
/// under that key.
pub proof fn lemma_entry_is_only(
    items: Seq<(Seq<char>, ItemModel)>,
    id: Seq<char>,
    from: int,
    k: int,
)
    requires
        distinct_keys(items),
        0 <= from <= k < items.len(),
        items[k].0 == id,
    ensures
        entry_from(items, id, from) == Some(k),
    decreases k - from,
{
    if from < k {
        lemma_entry_is_only(items, id, from + 1, k);
    }
}

/// The item to take from a map of items: the one whose key is the
/// identifier that the share link names, else the first; none where the map
/// is empty.
pub open spec fn chosen_item(items: Seq<(Seq<char>, ItemModel)>, share_url: Seq<char>) -> Option<
    ItemModel,
> {
    if items.len() == 0 {
        None
    } else {
        let named = match guessed_video_id(share_url) {
            Some(id) => entry_from(items, id, 0),
            None => None,
        };
        match named {
            Some(at) => Some(items[at].1),
            None => Some(items[0].1),
        }
    }
}

/// The descriptor that a map of items gives for the share link `share_url`.
pub open spec fn items_descriptor(
    items: Seq<(Seq<char>, ItemModel)>,
    share_url: Seq<char>,
) -> Option<DescriptorModel> {
    match chosen_item(items, share_url) {
        Some(item) => described(item, share_url),
        None => None,
    }
}

fn find_entry(items: &Vec<(String, ItemStruct)>, id: &String) -> (r: Option<usize>)
    ensures
        match r {
            Some(at) => entry_from(entries(items@), id@, 0) == Some(at as int) && at < items.len(),
            None => entry_from(entries(items@), id@, 0) is None,
        },
{
    let mut i: usize = 0;
    while i < items.len()
        invariant
            i <= items.len(),
            entry_from(entries(items@), id@, i as int) == entry_from(entries(items@), id@, 0),
        decreases items.len() - i,
    {
        if items[i].0 == *id {
            return Some(i);
        }
        i += 1;
    }
    None
}

/// The descriptor that the items `items`, each with its key, give for the
/// share link `share_url`: that of the item whose key is the identifier
/// that the link names, else that of the first. Where a key occurs twice,
/// the first entry under it counts.
pub fn resolve_descriptor_from_items(items: Vec<(String, ItemStruct)>, share_url: &str) -> (r:
    Option<VideoDescriptor>)
    ensures
        opt_descriptor(r) == items_descriptor(entries(items@), share_url@),
{
    let mut items = items;
    if items.len() == 0 {
        return None;
    }
    let named = match guess_video_id(share_url) {
        Some(id) => find_entry(&items, &id),
        None => None,
    };
    let at: usize = match named {
        Some(at) => at,
        None => 0,
    };
    let (_, item) = items.remove(at);
    build_descriptor_from_item(item, share_url)
}

/// A member that holds text, or nothing where it is absent or null. No
/// reading at all where it holds anything else.
pub open spec fn text_field(object: JsonValue, name: Seq<char>) -> Option<Option<Seq<char>>> {
    match object.member(name) {
        None => Some(None),
        Some(JsonValue::Null) => Some(None),
        Some(JsonValue::Text(text)) => Some(Some(text@)),
        Some(_) => None,
    }
}

/// Whether the member `name` of `object` can be read as the object, with
/// text members only, that it is meant to be: it is absent, null, or an
/// object whose members `first` and `second` hold text or nothing.
pub open spec fn part_readable(
    object: JsonValue,
    name: Seq<char>,
    first: Seq<char>,
    second: Seq<char>,
) -> bool {
    match object.member(name) {
        None => true,
        Some(JsonValue::Null) => true,
        Some(part) => part is Object && text_field(part, first) is Some && text_field(
            part,
            second,
        ) is Some,
    }
}

/// The member `name` of `object` where it is an object.
pub open spec fn part_of(object: JsonValue, name: Seq<char>) -> Option<JsonValue> {
    match object.member(name) {
        Some(JsonValue::Object(members)) => Some(JsonValue::Object(members)),
        _ => None,
    }
}

/// The text that the member `name` of `part` holds, where `part` is there.
pub open spec fn part_text(part: Option<JsonValue>, name: Seq<char>) -> Option<Seq<char>> {
    match part {
        Some(part) => match text_field(part, name) {
            Some(text) => text,
            None => None,
        },
        None => None,
    }
}

/// What the JSON value `value` says of an item when it is read as a record:
/// an object whose `id` holds text or nothing, whose `video` is absent, null
/// or an object with `downloadAddr` and `playAddr`, and whose `author` is
/// absent, null or an object with `uniqueId`, each of them text or nothing.
/// No reading at all where a member holds anything else.
pub open spec fn item_of(value: JsonValue) -> Option<ItemModel> {
    if value is Object && text_field(value, "id"@) is Some && part_readable(
        value,
        "video"@,
        "downloadAddr"@,
        "playAddr"@,
    ) && part_readable(value, "author"@, "uniqueId"@, "uniqueId"@) {
        Some(
            ItemModel {
                id: text_field(value, "id"@)->0,
                has_video: part_of(value, "video"@) is Some,
                download_addr: part_text(part_of(value, "video"@), "downloadAddr"@),
                play_addr: part_text(part_of(value, "video"@), "playAddr"@),
                author: part_text(part_of(value, "author"@), "uniqueId"@),
            },
        )
    } else {
        None
    }
}

/// The items that the first `n` members hold, each under its member's name;
/// no reading at all where one of them is no item.
pub open spec fn items_upto(members: Seq<JsonMember>, n: int) -> Option<
    Seq<(Seq<char>, ItemModel)>,
>
    decreases n,
{
    if n <= 0 {
        Some(Seq::empty())
    } else {
        match (items_upto(members, n - 1), item_of(members[n - 1].value)) {
            (Some(items), Some(item)) => Some(items.push((members[n - 1].name@, item))),
            _ => None,
        }
    }
}

proof fn lemma_items_stay_unread(members: Seq<JsonMember>, m: int, n: int)
    requires
        m <= n,
        items_upto(members, m) is None,
    ensures
        items_upto(members, n) is None,
    decreases n - m,
{
    if m < n {
        lemma_items_stay_unread(members, m, n - 1);
    }
}

/// The items of an item-module payload: those of the object under
/// `ItemModule`, none where the document is an object without that member.
pub open spec fn module_items(document: JsonValue) -> Option<Seq<(Seq<char>, ItemModel)>> {
    if !(document is Object) {
        None
    } else {
        match document.member("ItemModule"@) {
            None => Some(Seq::empty()),
            Some(JsonValue::Object(members)) => items_upto(members@, members@.len() as int),
            Some(_) => None,
        }
    }
}

/// The items of a page-props payload: the one item under `props`,
/// `pageProps`, `itemInfo` and `itemStruct`, each of the first three an
/// object, keyed by its identifier; none where `itemStruct` is absent or
/// null, or the item has no identifier.
pub open spec fn props_items(document: JsonValue) -> Option<Seq<(Seq<char>, ItemModel)>> {
    match part_of(document, "props"@) {
        None => None,
        Some(props) => match part_of(props, "pageProps"@) {
            None => None,
            Some(page) => match part_of(page, "itemInfo"@) {
                None => None,
                Some(info) => match info.member("itemStruct"@) {
                    None => Some(Seq::empty()),
                    Some(JsonValue::Null) => Some(Seq::empty()),
                    Some(value) => match item_of(value) {
                        None => None,
                        Some(item) => match item.id {
                            Some(id) => Some(seq![(id, item)]),
                            None => Some(Seq::empty()),
                        },
                    },
                },
            },
        },
    }
}

fn read_text_field(object: &JsonValue, name: &str) -> (r: Option<Option<String>>)
    ensures
        match r {
            Some(text) => text_field(*object, name@) == Some(opt_text(text)),
            None => text_field(*object, name@) is None,
        },
{
    match object.get(name) {
        None => Some(None),
        Some(JsonValue::Null) => Some(None),
        Some(JsonValue::Text(text)) => Some(Some(text.clone())),
        Some(_) => None,
    }
}

fn read_part<'a>(object: &'a JsonValue, name: &str) -> (r: Option<&'a JsonValue>)
    ensures
        match r {
            Some(part) => part_of(*object, name@) == Some(*part),
            None => part_of(*object, name@) is None,
        },
{
    match object.get(name) {
        Some(part) => match part {
            JsonValue::Object(_) => Some(part),
            _ => None,
        },
        None => None,
    }
}

fn is_absent(object: &JsonValue, name: &str) -> (r: bool)
    ensures
        r == (object.member(name@) is None || object.member(name@) == Some(JsonValue::Null)),
{
    match object.get(name) {
        None => true,
        Some(JsonValue::Null) => true,
        Some(_) => false,
    }
}

/// What the JSON value `value` says of an item when it is read as a record.
pub fn decode_item(value: &JsonValue) -> (r: Option<ItemStruct>)
    ensures
        match r {
            Some(item) => item_of(*value) == Some(item@),
            None => item_of(*value) is None,
        },
{
    match value {
        JsonValue::Object(_) => {},
        _ => {
            return None;
        },
    }
    let id = match read_text_field(value, "id") {
        Some(id) => id,
        None => {
            return None;
        },
    };
    let video = match read_part(value, "video") {
        Some(part) => {
            let download_addr = match read_text_field(part, "downloadAddr") {
                Some(text) => text,
                None => {
                    return None;
                },
            };
            let play_addr = match read_text_field(part, "playAddr") {
                Some(text) => text,
                None => {
                    return None;
                },
            };
            Some(VideoStruct { download_addr, play_addr })
        },
        None => {
            if !is_absent(value, "video") {
                return None;
            }
            None
        },
    };
    let author = match read_part(value, "author") {
        Some(part) => {
            let unique_id = match read_text_field(part, "uniqueId") {
                Some(text) => text,
                None => {
                    return None;
                },
            };
            Some(AuthorStruct { unique_id })
        },
        None => {
            if !is_absent(value, "author") {
                return None;
            }
            None
        },
    };
    Some(ItemStruct { id, video, author })
}

fn decode_items(members: &Vec<JsonMember>) -> (r: Option<Vec<(String, ItemStruct)>>)
    ensures
        match r {
            Some(items) => items_upto(members@, members@.len() as int) == Some(entries(items@)),
            None => items_upto(members@, members@.len() as int) is None,
        },
{
    let mut items: Vec<(String, ItemStruct)> = Vec::new();
    let mut i: usize = 0;
    while i < members.len()
        invariant
            i <= members.len(),
            items_upto(members@, i as int) == Some(entries(items@)),
        decreases members.len() - i,
    {
        match decode_item(&members[i].value) {
            Some(item) => {
                let name = members[i].name.clone();
                items.push((name, item));
            },
            None => {
                proof {
                    lemma_items_stay_unread(members@, i + 1, members@.len() as int);
                }
                return None;
            },
        }
        i += 1;
    }
    Some(items)
}

/// The items of the item-module payload `document`.
pub fn decode_module_items(document: &JsonValue) -> (r: Option<Vec<(String, ItemStruct)>>)
    ensures
        match r {
            Some(items) => module_items(*document) == Some(entries(items@)),
            None => module_items(*document) is None,
        },
{
    match document {
        JsonValue::Object(_) => {},
        _ => {
            return None;
        },
    }
    match document.get("ItemModule") {
        None => {
            let items: Vec<(String, ItemStruct)> = Vec::new();
            Some(items)
        },
        Some(JsonValue::Object(members)) => decode_items(members),
        Some(_) => None,
    }
}

/// The items of the page-props payload `document`.
pub fn decode_props_items(document: &JsonValue) -> (r: Option<Vec<(String, ItemStruct)>>)
    ensures
        match r {
            Some(items) => props_items(*document) == Some(entries(items@)),
            None => props_items(*document) is None,
        },
{
    let props = match read_part(document, "props") {
        Some(part) => part,
        None => {
            return None;
        },
    };
    let page = match read_part(props, "pageProps") {
        Some(part) => part,
        None => {
            return None;
        },
    };
    let info = match read_part(page, "itemInfo") {
        Some(part) => part,
        None => {
            return None;
        },
    };
    let mut items: Vec<(String, ItemStruct)> = Vec::new();
    if is_absent(info, "itemStruct") {
        return Some(items);
    }
    let value = match info.get("itemStruct") {
        Some(value) => value,
        None => {
            return Some(items);
        },
    };
    match decode_item(value) {
        None => None,
        Some(item) => {
            match &item.id {
                Some(id) => {
                    let key = id.clone();
                    items.push((key, item));
                },
                None => {},
            }
            Some(items)
        },
    }
}

/// The JSON document inside the first element of `html` that `selector`
/// matches.
pub open spec fn payload(html: Seq<char>, selector: Seq<char>) -> Option<JsonValue> {
    match element_text(html, selector) {
        Some(text) => json_document(text),
        None => None,
    }
}

/// The member that lies under the four names, one inside the other.
pub open spec fn nested(
    document: JsonValue,
    first: Seq<char>,
    second: Seq<char>,
    third: Seq<char>,
    fourth: Seq<char>,
) -> Option<JsonValue> {
    match document.member(first) {
        None => None,
        Some(inner) => match inner.member(second) {
            None => None,
            Some(inner) => match inner.member(third) {
                None => None,
                Some(inner) => inner.member(fourth),
            },
        },
    }
}

/// The descriptor that the universal rehydration payload of a page gives.
pub open spec fn universal_descriptor(html: Seq<char>, share_url: Seq<char>) -> Option<
    DescriptorModel,
> {
    match payload(html, "script#__UNIVERSAL_DATA_FOR_REHYDRATION__"@) {
        None => None,
        Some(document) => match nested(
            document,
            "__DEFAULT_SCOPE__"@,
            "webapp.video-detail"@,
            "itemInfo"@,
            "itemStruct"@,
        ) {
            None => None,
            Some(item) => described(value_item(item, share_url), share_url),
        },
    }
}

/// The descriptor that the item-module payload of a page gives.
pub open spec fn module_descriptor(html: Seq<char>, share_url: Seq<char>) -> Option<
    DescriptorModel,
> {
    match payload(html, "script#SIGI_STATE"@) {
        None => None,
        Some(document) => match module_items(document) {
            None => None,
            Some(items) => items_descriptor(items, share_url),
        },
    }
}

/// The descriptor that the page-props payload of a page gives.
pub open spec fn props_descriptor(html: Seq<char>, share_url: Seq<char>) -> Option<
    DescriptorModel,
> {
    match payload(html, "script#__NEXT_DATA__"@) {
        None => None,
        Some(document) => match props_items(document) {
            None => None,
            Some(items) => items_descriptor(items, share_url),
        },
    }
}

/// The six characters by which JSON text escapes an ampersand.
pub open spec fn escaped_ampersand() -> Seq<char> {
    seq!['\\', 'u', '0', '0', '2', '6']
}

/// `url` with every escaped ampersand written out.
pub open spec fn unescaped(url: Seq<char>) -> Seq<char> {
    replace_all(url, escaped_ampersand(), seq!['&'])
}

/// `url` with every escaped ampersand written out, where there is one.
pub open spec fn opt_unescaped(url: Option<Seq<char>>) -> Option<Seq<char>> {
    match url {
        Some(url) => Some(unescaped(url)),
        None => None,
    }
}

/// The descriptor of a share page: what the first of its three payloads
/// that gives one gives, the universal payload before the item module and
/// that before the page props, with the ampersands of its URLs written out.
pub open spec fn page_descriptor(html: Seq<char>, share_url: Seq<char>) -> Option<DescriptorModel> {
    let found = if universal_descriptor(html, share_url) is Some {
        universal_descriptor(html, share_url)
    } else if module_descriptor(html, share_url) is Some {
        module_descriptor(html, share_url)
    } else {
        props_descriptor(html, share_url)
    };
    match found {
        Some(descriptor) => Some(
            DescriptorModel {
                video_id: descriptor.video_id,
                download_url: opt_unescaped(descriptor.download_url),
                play_url: opt_unescaped(descriptor.play_url),
                author: descriptor.author,
            },
        ),
        None => None,
    }
}

fn read_payload(html: &str, selector: &str) -> (r: Option<JsonValue>)
    ensures
        r == payload(html@, selector@),
{
    match first_element_text(html, selector) {
        Some(text) => parse_json(text.as_str()),
        None => None,
    }
}

/// The descriptor that the universal rehydration payload of the page `html`
/// gives for the share link `share_url`.
pub fn parse_universal_data(html: &str, share_url: &str) -> (r: Option<VideoDescriptor>)
    ensures
        opt_descriptor(r) == universal_descriptor(html@, share_url@),
{
    let document = match read_payload(html, "script#__UNIVERSAL_DATA_FOR_REHYDRATION__") {
        Some(document) => document,
        None => {
            return None;
        },
    };
    let scope = match document.get("__DEFAULT_SCOPE__") {
        Some(inner) => inner,
        None => {
            return None;
        },
    };
    let detail = match scope.get("webapp.video-detail") {
        Some(inner) => inner,
        None => {
            return None;
        },
    };
    let info = match detail.get("itemInfo") {
        Some(inner) => inner,
        None => {
            return None;
        },
    };
    match info.get("itemStruct") {
        Some(item) => build_descriptor_from_value(item, share_url),
        None => None,
    }
}

/// The descriptor that the item-module payload of the page `html` gives for
/// the share link `share_url`.
pub fn parse_sigi_state(html: &str, share_url: &str) -> (r: Option<VideoDescriptor>)
    ensures
        opt_descriptor(r) == module_descriptor(html@, share_url@),
{
    let document = match read_payload(html, "script#SIGI_STATE") {
        Some(document) => document,
        None => {
            return None;
        },
    };
    match decode_module_items(&document) {
        Some(items) => resolve_descriptor_from_items(items, share_url),
        None => None,
    }
}

/// The descriptor that the page-props payload of the page `html` gives for
/// the share link `share_url`.
pub fn parse_next_data(html: &str, share_url: &str) -> (r: Option<VideoDescriptor>)
    ensures
        opt_descriptor(r) == props_descriptor(html@, share_url@),
{
    let document = match read_payload(html, "script#__NEXT_DATA__") {
        Some(document) => document,
        None => {
            return None;
        },
    };
    match decode_props_items(&document) {
        Some(items) => resolve_descriptor_from_items(items, share_url),
        None => None,
    }
}

fn unescape(url: Option<String>) -> (r: Option<String>)
    ensures
        opt_text(r) == opt_unescaped(opt_text(url)),
{
    match url {
        Some(url) => {
            let text = chars_of(url.as_str());
            let mut pattern: Vec<char> = Vec::new();
            pattern.push('\\');
            pattern.push('u');
            pattern.push('0');
            pattern.push('0');
            pattern.push('2');
            pattern.push('6');
            assert(pattern@ =~= escaped_ampersand());
            let mut with: Vec<char> = Vec::new();
            with.push('&');
            let out = replaced(&text, &pattern, &with);
            Some(text_of(&out))
        },
        None => None,
    }
}

/// The descriptor of the share page `html`, fetched for the share link
/// `share_url`.
pub fn parse_share_page(html: &str, share_url: &str) -> (r: Option<VideoDescriptor>)
    ensures
        opt_descriptor(r) == page_descriptor(html@, share_url@),
        r is Some ==> r->0@.wf(),
{
    let found = match parse_universal_data(html, share_url) {
        Some(descriptor) => Some(descriptor),
        None => match parse_sigi_state(html, share_url) {
            Some(descriptor) => Some(descriptor),
            None => parse_next_data(html, share_url),
        },
    };
    match found {
        Some(descriptor) => {
            let VideoDescriptor { video_id, download_url, play_url, author } = descriptor;
            Some(
                VideoDescriptor {
                    video_id,
                    download_url: unescape(download_url),
                    play_url: unescape(play_url),
                    author,
                },
            )
        },
        None => None,
    }
}

/// Whether a link is one of the site's: it names the site's host somewhere.
pub open spec fn is_share_url(share_url: Seq<char>) -> bool {
    contains(share_url, "tiktok.com"@)
}

/// Refuses, with `InvalidUrl` and the link itself, a link that does not
/// name the site's host, before anything is fetched for it.
pub fn check_share_url(share_url: &str) -> (r: Result<(), Error>)
    ensures
        r is Ok <==> is_share_url(share_url@),
        r is Err ==> (r->Err_0 matches Error::InvalidUrl(url) && url@ == share_url@),
{
    let link = chars_of(share_url);
    let host = chars_of("tiktok.com");
    match position_from(&link, &host, 0) {
        Some(_) => Ok(()),
        None => Err(Error::InvalidUrl(String::from_str(share_url))),
    }
}

/// The descriptor of the share page `html`, fetched for the share link
/// `share_url`; `VideoUrlNotFound` exactly where none of the page's
/// payloads gives one.
pub fn descriptor_from_page(html: &str, share_url: &str) -> (r: Result<VideoDescriptor, Error>)
    ensures
        match r {
            Ok(descriptor) => page_descriptor(html@, share_url@) == Some(descriptor@)
                && descriptor@.wf(),
            Err(err) => page_descriptor(html@, share_url@) is None && err is VideoUrlNotFound,
        },
{
    match parse_share_page(html, share_url) {
        Some(descriptor) => Ok(descriptor),
        None => Err(Error::VideoUrlNotFound),
    }
}

} // verus!
