//! The remote side: request addresses and what the answers hold.

use vstd::prelude::*;
use serde_json::Value;
use crate::error::DownloadError;
use crate::json::{json_document, json_view, member, parse_document, JsonTree};
use crate::text::{append_signed_decimal, signed_decimal};

verus! {

/// What the metadata stage learns about a video.
#[derive(Debug, Clone, PartialEq, Eq)]
pub struct VideoData {
    pub bvid: String,
    pub title: String,
    pub cid: i64,
}

/// A `VideoData` with its strings as character sequences.
pub struct VideoModel {
    pub bvid: Seq<char>,
    pub title: Seq<char>,
    pub cid: i64,
}

impl View for VideoData {
    type V = VideoModel;

    open spec fn view(&self) -> VideoModel {
        VideoModel { bvid: self.bvid@, title: self.title@, cid: self.cid }
    }
}

/// The quality tier that the pipeline asks for.
pub const AUDIO_QUALITY: i32 = 192;

/// Whether an HTTP status is in the 2xx range.
pub open spec fn spec_is_success(status: u16) -> bool {
    200 <= status < 300
}

/// Whether an HTTP status is in the 2xx range.
#[verifier::when_used_as_spec(spec_is_success)]
pub fn is_success(status: u16) -> (ok: bool)
    ensures
        ok == spec_is_success(status),
{
    200 <= status && status < 300
}

/// The address of the metadata request for a BVID.
pub open spec fn spec_video_info_url(bvid: Seq<char>) -> Seq<char> {
    "https://api.bilibili.com/x/web-interface/view?bvid="@ + bvid
}

/// The address of the stream request for a track at a quality tier.
pub open spec fn spec_audio_request_url(bvid: Seq<char>, cid: i64, quality: i32) -> Seq<char> {
    "https://api.bilibili.com/x/player/wbi/playurl?bvid="@ + bvid + "&cid="@ + signed_decimal(
        cid as int,
    ) + "&qn="@ + signed_decimal(quality as int) + "&fnver=0&fnval=4048&fourk=1"@
}

/// The address of the metadata request for a BVID. The BVID goes in as it
/// is: nothing is checked or escaped.
pub fn video_info_url(bvid: &str) -> (url: String)
    ensures
        url@ == spec_video_info_url(bvid@),
{
    let mut url = String::from_str("https://api.bilibili.com/x/web-interface/view?bvid=");
    url.append(bvid);
    url
}

/// The address of the stream request. The three closing parameters ask for
/// the DASH form of the answer and are fixed.
pub fn audio_request_url(bvid: &str, cid: i64, quality: i32) -> (url: String)
    ensures
        url@ == spec_audio_request_url(bvid@, cid, quality),
{
    let mut url = String::from_str("https://api.bilibili.com/x/player/wbi/playurl?bvid=");
    url.append(bvid);
    url.append("&cid=");
    append_signed_decimal(&mut url, cid);
    url.append("&qn=");
    append_signed_decimal(&mut url, quality as i64);
    url.append("&fnver=0&fnval=4048&fourk=1");
    url
}

/// The video that a metadata answer describes: `data.bvid` and `data.title`
/// as strings and `data.cid` as an integer of 64 signed bits. The answer's
/// own `code` and `message` are not looked at.
pub open spec fn video_info_in(doc: JsonTree) -> Option<VideoModel> {
    let data = doc.member("data"@);
    match (
        data.member("bvid"@).text(),
        data.member("title"@).text(),
        data.member("cid"@).integer(),
    ) {
        (Some(bvid), Some(title), Some(cid)) => Some(VideoModel { bvid, title, cid }),
        _ => None,
    }
}

/// The audio address in a stream answer: `baseUrl` of the first item of
/// `data.dash.audio`.
pub open spec fn audio_url_in(doc: JsonTree) -> Result<Seq<char>, DownloadError> {
    match doc.member("data"@).member("dash"@).member("audio"@).items() {
        None => Err(DownloadError::Decode),
        Some(items) => if items.len() == 0 {
            Err(DownloadError::EmptyStreamList)
        } else {
            match items[0].member("baseUrl"@).text() {
                Some(url) => Ok(url),
                None => Err(DownloadError::Decode),
            }
        },
    }
}

/// Reads the video out of a parsed metadata answer.
pub fn read_video_info(doc: &Value) -> (r: Result<VideoData, DownloadError>)
    ensures
        match video_info_in(json_view(*doc)) {
            Some(video) => r matches Ok(found) && found@ == video,
            None => r == Err::<VideoData, DownloadError>(DownloadError::Decode),
        },
{
    let data = match member(doc, "data") {
        Some(data) => data,
        None => { return Err(DownloadError::Decode); },
    };
    let bvid = match member(data, "bvid") {
        Some(field) => field.as_str(),
        None => None,
    };
    let title = match member(data, "title") {
        Some(field) => field.as_str(),
        None => None,
    };
    let cid = match member(data, "cid") {
        Some(field) => field.as_i64(),
        None => None,
    };
    match (bvid, title, cid) {
        (Some(bvid), Some(title), Some(cid)) => Ok(
            VideoData { bvid: String::from_str(bvid), title: String::from_str(title), cid },
        ),
        _ => Err(DownloadError::Decode),
    }
}

/// Reads the audio address out of a parsed stream answer.
pub fn read_audio_url(doc: &Value) -> (r: Result<String, DownloadError>)
    ensures
        match audio_url_in(json_view(*doc)) {
            Ok(url) => r matches Ok(found) && found@ == url,
            Err(e) => r == Err::<String, DownloadError>(e),
        },
{
    let data = match member(doc, "data") {
        Some(data) => data,
        None => { return Err(DownloadError::Decode); },
    };
    let dash = match member(data, "dash") {
        Some(dash) => dash,
        None => { return Err(DownloadError::Decode); },
    };
    let audio = match member(dash, "audio") {
        Some(audio) => audio,
        None => { return Err(DownloadError::Decode); },
    };
    let streams = match audio.as_array() {
        Some(streams) => streams,
        None => { return Err(DownloadError::Decode); },
    };
    if streams.len() == 0 {
        return Err(DownloadError::EmptyStreamList);
    }
    let base = match member(&streams[0], "baseUrl") {
        Some(base) => base,
        None => { return Err(DownloadError::Decode); },
    };
    match base.as_str() {
        Some(url) => Ok(String::from_str(url)),
        None => Err(DownloadError::Decode),
    }
}

/// What the metadata stage makes of an answer with this status and body.
pub open spec fn video_info_outcome(status: u16, body: Seq<u8>) -> Result<
    VideoModel,
    DownloadError,
> {
    if !spec_is_success(status) {
        Err(DownloadError::RemoteRequest)
    } else {
        match json_document(body) {
            None => Err(DownloadError::Decode),
            Some(doc) => match video_info_in(doc) {
                Some(video) => Ok(video),
                None => Err(DownloadError::Decode),
            },
        }
    }
}

/// What the stream stage makes of an answer with this status and body.
pub open spec fn audio_url_outcome(status: u16, body: Seq<u8>) -> Result<
    Seq<char>,
    DownloadError,
> {
    if !spec_is_success(status) {
        Err(DownloadError::RemoteRequest)
    } else {
        match json_document(body) {
            None => Err(DownloadError::Decode),
            Some(doc) => audio_url_in(doc),
        }
    }
}

/// The metadata stage, once the answer to `video_info_url` is there: a status
/// outside 2xx is a failed request, a body that is no JSON or lacks a field
/// does not decode, and anything else is the video.
pub fn fetch_video_info(status: u16, body: &[u8]) -> (r: Result<VideoData, DownloadError>)
    ensures
        match video_info_outcome(status, body@) {
            Ok(video) => r matches Ok(found) && found@ == video,
            Err(e) => r == Err::<VideoData, DownloadError>(e),
        },
{
    if !is_success(status) {
        return Err(DownloadError::RemoteRequest);
    }
    match parse_document(body) {
        Ok(doc) => read_video_info(&doc),
        Err(_) => Err(DownloadError::Decode),
    }
}

/// The stream stage, once the answer to `request_url` is there. On success
/// the audio address comes with the request address, which the segment
/// request must name as its referer.
pub fn fetch_audio_url(status: u16, body: &[u8], request_url: &str) -> (r: Result<
    (String, String),
    DownloadError,
>)
    ensures
        match audio_url_outcome(status, body@) {
            Ok(url) => r matches Ok(found) && found.0@ == url && found.1@ == request_url@,
            Err(e) => r == Err::<(String, String), DownloadError>(e),
        },
{
    if !is_success(status) {
        return Err(DownloadError::RemoteRequest);
    }
    match parse_document(body) {
        Ok(doc) => match read_audio_url(&doc) {
            Ok(url) => Ok((url, String::from_str(request_url))),
            Err(e) => Err(e),
        },
        Err(_) => Err(DownloadError::Decode),
    }
}

} // verus!
