use bili_audio::bilibili::{
    audio_request_url, fetch_audio_url, fetch_video_info, is_success, read_audio_url,
    read_video_info, video_info_url, VideoData, AUDIO_QUALITY,
};
use bili_audio::error::DownloadError;

fn value(text: &str) -> serde_json::Value {
    serde_json::from_str(text).expect("json")
}

#[test]
fn metadata_address() {
    assert_eq!(
        video_info_url("BV1xx"),
        "https://api.bilibili.com/x/web-interface/view?bvid=BV1xx"
    );
    assert_eq!(video_info_url(""), "https://api.bilibili.com/x/web-interface/view?bvid=");
    assert_eq!(
        video_info_url("a b&c"),
        "https://api.bilibili.com/x/web-interface/view?bvid=a b&c"
    );
}

#[test]
fn stream_address() {
    assert_eq!(AUDIO_QUALITY, 192);
    assert_eq!(
        audio_request_url("BV1xx", 123, 192),
        "https://api.bilibili.com/x/player/wbi/playurl?bvid=BV1xx&cid=123&qn=192&fnver=0&fnval=4048&fourk=1"
    );
    assert_eq!(
        audio_request_url("B", 0, -7),
        "https://api.bilibili.com/x/player/wbi/playurl?bvid=B&cid=0&qn=-7&fnver=0&fnval=4048&fourk=1"
    );
    assert_eq!(
        audio_request_url("B", i64::MIN, i32::MAX),
        "https://api.bilibili.com/x/player/wbi/playurl?bvid=B&cid=-9223372036854775808&qn=2147483647&fnver=0&fnval=4048&fourk=1"
    );
    assert_eq!(
        audio_request_url("B", i64::MAX, i32::MIN),
        "https://api.bilibili.com/x/player/wbi/playurl?bvid=B&cid=9223372036854775807&qn=-2147483648&fnver=0&fnval=4048&fourk=1"
    );
}

#[test]
fn success_is_the_2xx_range() {
    assert!(!is_success(199));
    assert!(is_success(200));
    assert!(is_success(204));
    assert!(is_success(299));
    assert!(!is_success(300));
    assert!(!is_success(403));
    assert!(!is_success(500));
    assert!(!is_success(0));
    assert!(!is_success(u16::MAX));
}

#[test]
fn video_is_read_from_data() {
    let body = br#"{"code":0,"message":"0","data":{"bvid":"BV1xx","title":"Hello","cid":123,"pages":[]}}"#;
    assert_eq!(
        fetch_video_info(200, body),
        Ok(VideoData { bvid: "BV1xx".to_string(), title: "Hello".to_string(), cid: 123 })
    );
}

#[test]
fn video_envelope_code_is_not_looked_at() {
    let body = br#"{"code":-404,"message":"gone","data":{"bvid":"B","title":"","cid":-5}}"#;
    assert_eq!(
        fetch_video_info(200, body),
        Ok(VideoData { bvid: "B".to_string(), title: String::new(), cid: -5 })
    );
}

#[test]
fn video_status_comes_before_the_body() {
    let body = br#"{"data":{"bvid":"BV1xx","title":"Hello","cid":123}}"#;
    assert_eq!(fetch_video_info(404, body), Err(DownloadError::RemoteRequest));
    assert_eq!(fetch_video_info(500, b"garbage"), Err(DownloadError::RemoteRequest));
    assert_eq!(fetch_video_info(299, body).map(|v| v.cid), Ok(123));
}

#[test]
fn video_with_missing_or_mistyped_fields_does_not_decode() {
    let bodies: [&[u8]; 12] = [
        b"",
        b"not json",
        b"{\"data\":",
        b"null",
        b"{}",
        br#"{"data":null}"#,
        br#"{"data":["BV1xx","Hello",123]}"#,
        br#"{"data":{"title":"Hello","cid":123}}"#,
        br#"{"data":{"bvid":"BV1xx","cid":123}}"#,
        br#"{"data":{"bvid":"BV1xx","title":"Hello"}}"#,
        br#"{"data":{"bvid":7,"title":"Hello","cid":123}}"#,
        br#"{"data":{"bvid":"BV1xx","title":"Hello","cid":"123"}}"#,
    ];
    for body in bodies {
        assert_eq!(fetch_video_info(200, body), Err(DownloadError::Decode));
    }
}

#[test]
fn video_cid_must_fit_64_signed_bits() {
    let fits = br#"{"data":{"bvid":"B","title":"t","cid":9223372036854775807}}"#;
    assert_eq!(fetch_video_info(200, fits).map(|v| v.cid), Ok(i64::MAX));
    let least = br#"{"data":{"bvid":"B","title":"t","cid":-9223372036854775808}}"#;
    assert_eq!(fetch_video_info(200, least).map(|v| v.cid), Ok(i64::MIN));
    let too_large = br#"{"data":{"bvid":"B","title":"t","cid":9223372036854775808}}"#;
    assert_eq!(fetch_video_info(200, too_large), Err(DownloadError::Decode));
    let fraction = br#"{"data":{"bvid":"B","title":"t","cid":12.5}}"#;
    assert_eq!(fetch_video_info(200, fraction), Err(DownloadError::Decode));
    let exponent = br#"{"data":{"bvid":"B","title":"t","cid":1e3}}"#;
    assert_eq!(fetch_video_info(200, exponent), Err(DownloadError::Decode));
}

#[test]
fn video_body_that_is_no_utf8_does_not_decode() {
    let body = [b'{', b'"', 0xff, b'"', b':', b'1', b'}'];
    assert_eq!(fetch_video_info(200, &body), Err(DownloadError::Decode));
}

#[test]
fn video_title_keeps_every_character() {
    let body = "{\"data\":{\"bvid\":\"BV1xx\",\"title\":\"音乐|a\\nb\",\"cid\":1}}";
    assert_eq!(
        fetch_video_info(200, body.as_bytes()).map(|v| v.title),
        Ok("音乐|a\nb".to_string())
    );
}

#[test]
fn audio_address_is_the_first_stream() {
    let body = br#"{"data":{"dash":{"audio":[{"baseUrl":"https://cdn/first","id":30280},{"baseUrl":"https://cdn/second","id":30216}]}}}"#;
    assert_eq!(
        fetch_audio_url(200, body, "https://page"),
        Ok(("https://cdn/first".to_string(), "https://page".to_string()))
    );
}

#[test]
fn audio_address_of_the_seed_answer() {
    let body = br#"{"data":{"dash":{"audio":[{"baseUrl":"https://cdn/x"}]}}}"#;
    assert_eq!(
        fetch_audio_url(200, body, "p"),
        Ok(("https://cdn/x".to_string(), "p".to_string()))
    );
}

#[test]
fn audio_list_without_items_is_an_empty_stream_list() {
    let body = br#"{"data":{"dash":{"audio":[]}}}"#;
    assert_eq!(fetch_audio_url(200, body, "p"), Err(DownloadError::EmptyStreamList));
}

#[test]
fn audio_status_comes_before_the_body() {
    let body = br#"{"data":{"dash":{"audio":[]}}}"#;
    assert_eq!(fetch_audio_url(403, body, "p"), Err(DownloadError::RemoteRequest));
    assert_eq!(fetch_audio_url(199, body, "p"), Err(DownloadError::RemoteRequest));
    assert_eq!(fetch_audio_url(300, body, "p"), Err(DownloadError::RemoteRequest));
}

#[test]
fn audio_answer_of_another_shape_does_not_decode() {
    let bodies: [&[u8]; 11] = [
        b"",
        b"[]",
        b"{}",
        br#"{"data":{}}"#,
        br#"{"data":{"dash":null}}"#,
        br#"{"data":{"dash":{"audio":null}}}"#,
        br#"{"data":{"dash":{"audio":{"baseUrl":"u"}}}}"#,
        br#"{"data":{"dash":{"audio":"u"}}}"#,
        br#"{"data":{"dash":{"audio":[{}]}}}"#,
        br#"{"data":{"dash":{"audio":[{"baseUrl":5}]}}}"#,
        br#"{"data":{"dash":{"audio":["u"]}}}"#,
    ];
    for body in bodies {
        assert_eq!(fetch_audio_url(200, body, "p"), Err(DownloadError::Decode));
    }
}

#[test]
fn audio_first_stream_decides_alone() {
    let body = br#"{"data":{"dash":{"audio":[{"id":1},{"baseUrl":"https://cdn/second"}]}}}"#;
    assert_eq!(fetch_audio_url(200, body, "p"), Err(DownloadError::Decode));
}

#[test]
fn parsed_answers_are_read_the_same_way() {
    let doc = value(r#"{"data":{"bvid":"BV1xx","title":"Hello","cid":123}}"#);
    assert_eq!(
        read_video_info(&doc),
        Ok(VideoData { bvid: "BV1xx".to_string(), title: "Hello".to_string(), cid: 123 })
    );
    assert_eq!(read_video_info(&value("[1,2]")), Err(DownloadError::Decode));
    assert_eq!(read_video_info(&value(r#"{"data":"x"}"#)), Err(DownloadError::Decode));

    let doc = value(r#"{"data":{"dash":{"audio":[{"baseUrl":"https://cdn/x"}]}}}"#);
    assert_eq!(read_audio_url(&doc), Ok("https://cdn/x".to_string()));
    let doc = value(r#"{"data":{"dash":{"audio":[]}}}"#);
    assert_eq!(read_audio_url(&doc), Err(DownloadError::EmptyStreamList));
    assert_eq!(read_audio_url(&value("7")), Err(DownloadError::Decode));
}

#[test]
fn repeated_keys_keep_the_last_value() {
    let body = br#"{"data":{"bvid":"first","bvid":"last","title":"t","cid":1}}"#;
    assert_eq!(fetch_video_info(200, body).map(|v| v.bvid), Ok("last".to_string()));
}
