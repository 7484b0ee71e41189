use sigil::text::{
    chars_of, contains_text, decimal_text, has_prefix, has_suffix, parse_u64, same_text, split_at,
    split_lines, split_words, text_of, trim,
};
use sigil::voice::source::{
    best_format, classify_transcoder_line, header_text, headers_with_cookie, parse_cookies,
    parse_format_listing, pcm_from_le_bytes, pick_best_audio, pick_format, resolve_query, Demand,
    MediaEntry, MediaFormat, MediaInfo, TranscoderLine, FRAME_BYTES,
};

fn format(url: &str, ext: &str, acodec: &str, vcodec: &str, rate: i64) -> MediaFormat {
    MediaFormat {
        url: Some(url.to_string()),
        ext: Some(ext.to_string()),
        acodec: Some(acodec.to_string()),
        vcodec: Some(vcodec.to_string()),
        audio_bitrate: Some(rate),
        total_bitrate: None,
        sample_rate: None,
        headers: None,
    }
}

fn entry(formats: Option<Vec<MediaFormat>>, url: Option<&str>) -> MediaEntry {
    MediaEntry { formats, url: url.map(|u| u.to_string()), headers: None }
}

fn medium(top: MediaEntry) -> MediaInfo {
    MediaInfo { has_formats: top.formats.is_some(), top, first_entry: None }
}

fn picked(formats: Vec<MediaFormat>) -> Option<usize> {
    pick_format(&formats)
}

#[test]
fn audio_alone_comes_first() {
    assert_eq!(
        picked(vec![
            format("http://a", "webm", "opus", "vp9", 500),
            format("http://b", "mp3", "mp3", "none", 100),
        ]),
        Some(1)
    );
}

#[test]
fn preferred_container_beats_bitrate() {
    assert_eq!(
        picked(vec![
            format("http://a", "mp3", "mp3", "none", 320),
            format("http://b", "m4a", "mp4a", "none", 128),
            format("http://c", "webm", "opus", "none", 48),
            format("http://d", "webm", "opus", "none", 160),
            format("http://e", "weba", "opus", "", 160),
        ]),
        Some(3)
    );
    assert_eq!(
        picked(vec![
            format("http://a", "mp3", "mp3", "none", 320),
            format("http://b", "mka", "aac", "none", 1),
        ]),
        Some(1)
    );
    assert_eq!(
        picked(vec![
            format("http://a", "", "mp3", "none", 320),
            format("http://b", "mp3", "mp3", "none", 1),
        ]),
        Some(1)
    );
}

#[test]
fn bitrates_fall_back() {
    let mut a = format("http://a", "webm", "opus", "none", 0);
    a.audio_bitrate = None;
    a.total_bitrate = Some(60);
    a.sample_rate = Some(999);
    let mut b = format("http://b", "webm", "opus", "none", 0);
    b.audio_bitrate = None;
    b.sample_rate = Some(61);
    let mut c = format("http://c", "webm", "opus", "none", 0);
    c.audio_bitrate = None;
    assert_eq!(picked(vec![c, a, b]), Some(2));
}

#[test]
fn formats_that_cannot_be_fetched_are_passed_over() {
    let mut missing = format("", "webm", "opus", "none", 1);
    missing.url = None;
    assert_eq!(
        picked(vec![
            missing,
            format("ftp://b", "webm", "opus", "none", 1),
            format("https://c", "mp4", "none", "h264", 1),
            format("https://d", "mp4", "", "h264", 1),
        ]),
        Some(2)
    );
    assert_eq!(picked(vec![format("rtmp://x", "flv", "mp3", "none", 1)]), None);
    assert_eq!(
        best_format(&[format("http://a", "mp4", "aac", "h264", 1)], Demand::AudioOnly),
        None
    );
    assert_eq!(
        best_format(&[format("http://a", "mp4", "aac", "h264", 1)], Demand::Audio),
        Some(0)
    );
}

fn headers(name: &str) -> Option<Vec<(String, String)>> {
    Some(vec![(name.to_string(), "v".to_string())])
}

#[test]
fn url_and_headers() {
    let mut own = format("http://a", "webm", "opus", "none", 1);
    own.headers = headers("Own");
    let mut top = entry(Some(vec![own]), None);
    top.headers = headers("Entry");
    let (url, found) = pick_best_audio(&medium(top)).unwrap();
    assert_eq!(url, "http://a");
    assert_eq!(found, headers("Own").unwrap());

    let mut top = entry(Some(vec![format("http://a", "webm", "opus", "none", 1)]), None);
    top.headers = headers("Entry");
    assert_eq!(pick_best_audio(&medium(top)).unwrap().1, headers("Entry").unwrap());

    let mut top = entry(Some(vec![]), Some("https://direct"));
    top.headers = headers("Entry");
    let (url, found) = pick_best_audio(&medium(top)).unwrap();
    assert_eq!(url, "https://direct");
    assert_eq!(found, headers("Entry").unwrap());

    assert!(pick_best_audio(&medium(entry(None, Some("direct")))).is_none());
    assert!(pick_best_audio(&medium(entry(None, None))).is_none());
}

#[test]
fn first_search_result_is_taken() {
    let info = MediaInfo {
        top: entry(None, Some("http://top")),
        has_formats: false,
        first_entry: Some(entry(None, Some("http://first"))),
    };
    assert_eq!(pick_best_audio(&info).unwrap().0, "http://first");
    let info = MediaInfo {
        top: entry(None, Some("http://top")),
        has_formats: true,
        first_entry: Some(entry(None, Some("http://first"))),
    };
    assert_eq!(pick_best_audio(&info).unwrap().0, "http://top");
}

#[test]
fn queries() {
    assert_eq!(resolve_query("https://x/y"), "https://x/y");
    assert_eq!(resolve_query("http://x"), "http://x");
    assert_eq!(resolve_query("never gonna"), "ytsearch1:never gonna");
    assert_eq!(resolve_query(""), "ytsearch1:");
}

#[test]
fn header_lines() {
    let list = vec![
        ("A".to_string(), "1".to_string()),
        ("B".to_string(), "2".to_string()),
    ];
    assert_eq!(header_text(&list), "A: 1\r\nB: 2\r\n");
    assert_eq!(header_text(&vec![]), "");
    assert_eq!(headers_with_cookie("A: 1\r\n", &None), "A: 1\r\n");
    let cookie = Some("k=v".to_string());
    assert_eq!(headers_with_cookie("A: 1\r\n", &cookie), "A: 1\r\nCookie: k=v\r\n");
    assert_eq!(headers_with_cookie("A: 1", &cookie), "A: 1\r\nCookie: k=v\r\n");
    assert_eq!(headers_with_cookie("", &cookie), "Cookie: k=v\r\n");
}

#[test]
fn cookies() {
    let content = "# Netscape\n\n   \n.x\tTRUE\t/\tTRUE\t0\tSID\tabc\r\n.x\tTRUE\t/\tTRUE\t0\t\tzzz\n.x\tTRUE\t/\tTRUE\t0\tHSID\td=e\textra\nshort\tline\n";
    assert_eq!(parse_cookies(content), Some("SID=abc; HSID=d=e".to_string()));
    assert_eq!(parse_cookies("# nothing\n"), None);
    assert_eq!(parse_cookies(""), None);
}

#[test]
fn format_listing() {
    let listing = "[info] one\n[info] two\nformat code  extension resolution note x\n251 webm audio only 130k opus \n\nshort line\n140 m4a audio only 129k";
    let formats = parse_format_listing(listing);
    let found: Vec<(&str, &str)> = formats
        .iter()
        .map(|f| (f.format_code.as_str(), f.format.as_str()))
        .collect();
    assert_eq!(
        found,
        vec![
            ("251", "251 webm audio only 130k opus"),
            ("140", "140 m4a audio only 129k"),
        ]
    );
    assert!(parse_format_listing("a b c d e f").is_empty());
}

#[test]
fn transcoder_lines() {
    assert_eq!(
        classify_transcoder_line("Error muxing a packet", false),
        TranscoderLine::ShutdownNoise
    );
    assert_eq!(
        classify_transcoder_line("Task finished with error code: -22 (x)", true),
        TranscoderLine::ShutdownNoise
    );
    assert_eq!(classify_transcoder_line("an ERROR", false), TranscoderLine::Startup);
    assert_eq!(classify_transcoder_line("an ERROR", true), TranscoderLine::Error);
    assert_eq!(classify_transcoder_line("It FaiLed", true), TranscoderLine::Error);
    assert_eq!(classify_transcoder_line("frame 1", true), TranscoderLine::Other);
}

#[test]
fn samples() {
    assert_eq!(
        pcm_from_le_bytes(&[0x01, 0x00, 0xFF, 0xFF, 0x00, 0x80, 0xFF, 0x7F, 9]),
        vec![1, -1, i16::MIN, i16::MAX]
    );
    assert_eq!(pcm_from_le_bytes(&vec![0; FRAME_BYTES]).len(), 1920);
}

#[test]
fn text_helpers() {
    assert_eq!(decimal_text(0), "0");
    assert_eq!(decimal_text(u64::MAX), "18446744073709551615");
    assert_eq!(parse_u64("007"), Some(7));
    assert_eq!(parse_u64("18446744073709551616"), None);
    assert!(same_text("äb", "äb"));
    assert!(!same_text("ab", "abc"));
    assert!(has_prefix("abc", "ab"));
    assert!(has_prefix("abc", ""));
    assert!(has_suffix("abc", "bc"));
    assert!(!has_suffix("c", "bc"));
    assert!(contains_text("xabcx", "abc"));
    assert!(contains_text("", ""));
    assert!(!contains_text("ab", "abc"));
    let lines: Vec<String> = split_lines(&chars_of("a\r\nb\n\nc\r"))
        .iter()
        .map(|line| text_of(line))
        .collect();
    let wanted: Vec<&str> = "a\r\nb\n\nc\r".lines().collect();
    assert_eq!(lines, wanted);
    let parts: Vec<String> = split_at(&chars_of(",a,,b,"), ',').iter().map(|p| text_of(p)).collect();
    assert_eq!(parts, ",a,,b,".split(',').collect::<Vec<&str>>());
    let text = " \u{2003}one\t two\u{85}three ";
    let words: Vec<String> = split_words(&chars_of(text)).iter().map(|w| text_of(w)).collect();
    assert_eq!(words, text.split_whitespace().collect::<Vec<&str>>());
    assert_eq!(text_of(&trim(&chars_of(text))), text.trim());
    for code in 0..0x11_0000u32 {
        if let Some(c) = char::from_u32(code) {
            assert_eq!(sigil::text::white(c), c.is_whitespace());
        }
    }
}
