//! Choosing and preparing what to play: reading what the media tools print,
//! picking the best audio format, and turning bytes into samples.

use vstd::prelude::*;
use vstd::string::*;
use crate::text::{
    char_texts, chars_of, contains_text, first_index, has_prefix, has_suffix, occurs_in, pieces,
    same_text, split_at, split_lines, split_words, text_lines, text_of, trim, trimmed, words,
};

verus! {

/// Bytes of PCM in a 20 ms frame: 1920 samples of two bytes.
pub const FRAME_BYTES: usize = 3840;

/// One format of a medium, as far as the choice depends on it.
///
/// A missing text is one that the description does not have as a text.
pub struct MediaFormat {
    pub url: Option<String>,
    pub ext: Option<String>,
    pub acodec: Option<String>,
    pub vcodec: Option<String>,
    /// How good the bitrates are: the greater, the better. Zero stands for a
    /// bitrate of zero.
    pub audio_bitrate: Option<i64>,
    pub total_bitrate: Option<i64>,
    pub sample_rate: Option<i64>,
    /// The HTTP headers to send, if the format has any of its own.
    pub headers: Option<Vec<(String, String)>>,
}

/// A medium: its formats, and what it says of itself.
pub struct MediaEntry {
    pub formats: Option<Vec<MediaFormat>>,
    pub url: Option<String>,
    pub headers: Option<Vec<(String, String)>>,
}

/// The description of a medium, or of a search with its first result.
pub struct MediaInfo {
    pub top: MediaEntry,
    /// The description has a list of formats, whatever is in it.
    pub has_formats: bool,
    pub first_entry: Option<MediaEntry>,
}

/// The text, or nothing.
pub open spec fn text_or(text: Option<String>, default: Seq<char>) -> Seq<char> {
    match text {
        Some(text) => text@,
        None => default,
    }
}

/// A URL that can be fetched over HTTP.
pub open spec fn http_url(url: Seq<char>) -> bool {
    "http://"@.is_prefix_of(url) || "https://"@.is_prefix_of(url)
}

/// The URL is there and can be fetched over HTTP.
pub open spec fn fetchable(url: Option<String>) -> bool {
    url matches Some(url) && http_url(url@)
}

/// The format has audio.
pub open spec fn has_audio(format: MediaFormat) -> bool {
    let codec = text_or(format.acodec, "none"@);
    codec != "none"@ && codec.len() > 0
}

/// The format has audio and no video.
pub open spec fn audio_only(format: MediaFormat) -> bool {
    let codec = text_or(format.vcodec, Seq::empty());
    has_audio(format) && (codec == "none"@ || codec.len() == 0)
}

/// How good the bitrate of a format is: that of its audio, or else its total
/// bitrate, or else its sample rate.
pub open spec fn bitrate(format: MediaFormat) -> i64 {
    match (format.audio_bitrate, format.total_bitrate, format.sample_rate) {
        (Some(rate), _, _) => rate,
        (None, Some(rate), _) => rate,
        (None, None, Some(rate)) => rate,
        (None, None, None) => 0,
    }
}

/// How much a format is preferred: Opus in WebM, then AAC in M4A, then anything
/// with a name.
pub open spec fn preference(format: MediaFormat) -> int {
    let ext = text_or(format.ext, Seq::empty());
    let codec = text_or(format.acodec, Seq::empty());
    if ext == "webm"@ || occurs_in(codec, "opus"@) {
        3
    } else if ext == "m4a"@ || occurs_in(codec, "aac"@) || occurs_in(codec, "m4a"@) {
        2
    } else if ext.len() > 0 {
        1
    } else {
        0
    }
}

/// `a` is better than `b`: more preferred, or as much and with a better bitrate.
pub open spec fn better(a: MediaFormat, b: MediaFormat) -> bool {
    preference(a) > preference(b) || (preference(a) == preference(b) && bitrate(a) > bitrate(b))
}

/// What a format must have to be picked, from the strictest demand to the most
/// lenient.
#[derive(Debug, Clone, Copy, PartialEq, Eq, Structural)]
pub enum Demand {
    AudioOnly,
    Audio,
}

/// The format meets a demand, and can be fetched.
pub open spec fn meets(format: MediaFormat, demand: Demand) -> bool {
    fetchable(format.url) && match demand {
        Demand::AudioOnly => audio_only(format),
        Demand::Audio => has_audio(format),
    }
}

/// Among the first `n` formats, the `i`-th is the one to pick under a demand:
/// none that meets it is better, and none before it is as good.
pub open spec fn best_of(formats: Seq<MediaFormat>, demand: Demand, n: int, i: int) -> bool {
    &&& 0 <= i < n
    &&& meets(formats[i], demand)
    &&& forall|j: int|
        0 <= j < n && meets(#[trigger] formats[j], demand) ==> !better(formats[j], formats[i]) && (
        j < i ==> better(formats[i], formats[j]))
}

/// None of the first `n` formats meets a demand.
pub open spec fn none_meets(formats: Seq<MediaFormat>, demand: Demand, n: int) -> bool {
    forall|j: int| 0 <= j < n ==> !meets(#[trigger] formats[j], demand)
}

/// The first format that can be fetched is the `i`-th.
pub open spec fn first_fetchable(formats: Seq<MediaFormat>, i: int) -> bool {
    &&& 0 <= i < formats.len()
    &&& fetchable(formats[i].url)
    &&& forall|j: int| 0 <= j < i ==> !fetchable((#[trigger] formats[j]).url)
}

/// The `i`-th format is the one to pick: the best with audio alone, or else the
/// best with audio, or else the first that can be fetched.
pub open spec fn picked_format(formats: Seq<MediaFormat>, i: int) -> bool {
    let n = formats.len() as int;
    ||| best_of(formats, Demand::AudioOnly, n, i)
    ||| none_meets(formats, Demand::AudioOnly, n) && best_of(formats, Demand::Audio, n, i)
    ||| none_meets(formats, Demand::Audio, n) && first_fetchable(formats, i)
}

/// No format can be fetched.
pub open spec fn nothing_to_pick(formats: Option<Vec<MediaFormat>>) -> bool {
    match formats {
        None => true,
        Some(formats) => forall|j: int|
            0 <= j < formats@.len() ==> !fetchable((#[trigger] formats@[j]).url),
    }
}

/// The medium that a description is about: itself if it has formats, or else the
/// first result, if there is one.
pub open spec fn chosen_entry(info: MediaInfo) -> MediaEntry {
    if info.has_formats {
        info.top
    } else {
        match info.first_entry {
            Some(entry) => entry,
            None => info.top,
        }
    }
}

/// The name/value pairs of a header list.
pub open spec fn header_pairs(headers: Seq<(String, String)>) -> Seq<(Seq<char>, Seq<char>)> {
    headers.map_values(|header: (String, String)| (header.0@, header.1@))
}

/// The headers to send: the format's own, or else the medium's, or else none.
pub open spec fn chosen_headers(
    own: Option<Vec<(String, String)>>,
    entry: Option<Vec<(String, String)>>,
) -> Seq<(Seq<char>, Seq<char>)> {
    match (own, entry) {
        (Some(headers), _) => header_pairs(headers@),
        (None, Some(headers)) => header_pairs(headers@),
        (None, None) => Seq::empty(),
    }
}

/// `r` is what picking audio from a medium yields: a URL, and the headers to
/// send with it.
pub open spec fn picked_from(
    entry: MediaEntry,
    r: Option<(String, Vec<(String, String)>)>,
) -> bool {
    if !nothing_to_pick(entry.formats) {
        let formats = entry.formats->0@;
        &&& r matches Some((url, headers))
        &&& exists|i: int|
            {
                &&& #[trigger] picked_format(formats, i)
                &&& 0 <= i < formats.len()
                &&& formats[i].url matches Some(text) && url@ == text@
                &&& header_pairs(headers@) == chosen_headers(formats[i].headers, entry.headers)
            }
    } else if fetchable(entry.url) {
        &&& r matches Some((url, headers))
        &&& url@ == entry.url->0@
        &&& header_pairs(headers@) == chosen_headers(None, entry.headers)
    } else {
        r is None
    }
}

/// Of two formats that could be picked there is one at most.
pub proof fn pick_is_unique(formats: Seq<MediaFormat>, i: int, j: int)
    requires
        picked_format(formats, i),
        picked_format(formats, j),
    ensures
        i == j,
{
    let n = formats.len() as int;
    lemma_audio_only_is_audio(formats);
    if i != j {
        assert(meets(formats[i], Demand::AudioOnly) ==> meets(formats[i], Demand::Audio));
        assert(meets(formats[j], Demand::AudioOnly) ==> meets(formats[j], Demand::Audio));
    }
}

proof fn lemma_audio_only_is_audio(formats: Seq<MediaFormat>)
    ensures
        none_meets(formats, Demand::Audio, formats.len() as int) ==> none_meets(
            formats,
            Demand::AudioOnly,
            formats.len() as int,
        ),
{
    if none_meets(formats, Demand::Audio, formats.len() as int) {
        assert forall|j: int| 0 <= j < formats.len() implies !meets(
            #[trigger] formats[j],
            Demand::AudioOnly,
        ) by {
            assert(!meets(formats[j], Demand::Audio));
        }
    }
}

fn is_http_url(url: &str) -> (b: bool)
    ensures
        b == http_url(url@),
{
    has_prefix(url, "http://") || has_prefix(url, "https://")
}

fn is_fetchable(url: &Option<String>) -> (b: bool)
    ensures
        b == fetchable(*url),
{
    match url {
        Some(url) => is_http_url(url.as_str()),
        None => false,
    }
}

fn format_has_audio(format: &MediaFormat) -> (b: bool)
    ensures
        b == has_audio(*format),
{
    match &format.acodec {
        Some(codec) => !same_text(codec.as_str(), "none") && codec.as_str().unicode_len() > 0,
        None => false,
    }
}

fn format_is_audio_only(format: &MediaFormat) -> (b: bool)
    ensures
        b == audio_only(*format),
{
    let no_video: bool = match &format.vcodec {
        Some(codec) => same_text(codec.as_str(), "none") || codec.as_str().unicode_len() == 0,
        None => true,
    };
    no_video && format_has_audio(format)
}

fn meets_demand(format: &MediaFormat, demand: Demand) -> (b: bool)
    ensures
        b == meets(*format, demand),
{
    is_fetchable(&format.url) && match demand {
        Demand::AudioOnly => format_is_audio_only(format),
        Demand::Audio => format_has_audio(format),
    }
}

fn format_bitrate(format: &MediaFormat) -> (rate: i64)
    ensures
        rate == bitrate(*format),
{
    match format.audio_bitrate {
        Some(rate) => rate,
        None => match format.total_bitrate {
            Some(rate) => rate,
            None => match format.sample_rate {
                Some(rate) => rate,
                None => 0,
            },
        },
    }
}

fn format_preference(format: &MediaFormat) -> (score: u8)
    ensures
        score == preference(*format),
{
    let ext: String = match &format.ext {
        Some(ext) => ext.clone(),
        None => String::new(),
    };
    let codec: String = match &format.acodec {
        Some(codec) => codec.clone(),
        None => String::new(),
    };
    if same_text(ext.as_str(), "webm") || contains_text(codec.as_str(), "opus") {
        3
    } else if same_text(ext.as_str(), "m4a") || contains_text(codec.as_str(), "aac")
        || contains_text(codec.as_str(), "m4a") {
        2
    } else if ext.as_str().unicode_len() > 0 {
        1
    } else {
        0
    }
}

fn is_better(a: &MediaFormat, b: &MediaFormat) -> (r: bool)
    ensures
        r == better(*a, *b),
{
    let score_a: u8 = format_preference(a);
    let score_b: u8 = format_preference(b);
    score_a > score_b || score_a == score_b && format_bitrate(a) > format_bitrate(b)
}

/// The best format that meets a demand; the first of those that are as good.
pub fn best_format(formats: &[MediaFormat], demand: Demand) -> (r: Option<usize>)
    ensures
        match r {
            Some(i) => best_of(formats@, demand, formats@.len() as int, i as int),
            None => none_meets(formats@, demand, formats@.len() as int),
        },
{
    let mut best: Option<usize> = None;
    let mut k: usize = 0;
    while k < formats.len()
        invariant
            k <= formats@.len(),
            match best {
                Some(i) => best_of(formats@, demand, k as int, i as int),
                None => none_meets(formats@, demand, k as int),
            },
        decreases formats@.len() - k,
    {
        if meets_demand(&formats[k], demand) {
            let take: bool = match best {
                Some(i) => is_better(&formats[k], &formats[i]),
                None => true,
            };
            if take {
                best = Some(k);
            }
        }
        k = k + 1;
    }
    best
}

/// The first format that can be fetched.
fn first_fetchable_format(formats: &[MediaFormat]) -> (r: Option<usize>)
    ensures
        match r {
            Some(i) => first_fetchable(formats@, i as int),
            None => forall|j: int|
                0 <= j < formats@.len() ==> !fetchable((#[trigger] formats@[j]).url),
        },
{
    let mut k: usize = 0;
    while k < formats.len()
        invariant
            k <= formats@.len(),
            forall|j: int| 0 <= j < k ==> !fetchable((#[trigger] formats@[j]).url),
        decreases formats@.len() - k,
    {
        if is_fetchable(&formats[k].url) {
            return Some(k);
        }
        k = k + 1;
    }
    None
}

/// The format to pick, if any can be fetched.
pub fn pick_format(formats: &[MediaFormat]) -> (r: Option<usize>)
    ensures
        match r {
            Some(i) => picked_format(formats@, i as int) && i < formats@.len() && fetchable(
                formats@[i as int].url,
            ),
            None => forall|j: int|
                0 <= j < formats@.len() ==> !fetchable((#[trigger] formats@[j]).url),
        },
{
    if let Some(i) = best_format(formats, Demand::AudioOnly) {
        return Some(i);
    }
    if let Some(i) = best_format(formats, Demand::Audio) {
        return Some(i);
    }
    first_fetchable_format(formats)
}

fn copy_headers(headers: &Vec<(String, String)>) -> (copy: Vec<(String, String)>)
    ensures
        header_pairs(copy@) == header_pairs(headers@),
{
    let mut copy: Vec<(String, String)> = Vec::new();
    let mut i: usize = 0;
    while i < headers.len()
        invariant
            i <= headers@.len(),
            copy@.len() == i,
            forall|j: int|
                0 <= j < i ==> (#[trigger] copy@[j]).0@ == headers@[j].0@ && copy@[j].1@
                    == headers@[j].1@,
        decreases headers@.len() - i,
    {
        copy.push((headers[i].0.clone(), headers[i].1.clone()));
        i = i + 1;
    }
    assert(header_pairs(copy@) =~= header_pairs(headers@));
    copy
}

fn choose_headers(
    own: &Option<Vec<(String, String)>>,
    entry: &Option<Vec<(String, String)>>,
) -> (headers: Vec<(String, String)>)
    ensures
        header_pairs(headers@) == chosen_headers(*own, *entry),
{
    match own {
        Some(headers) => copy_headers(headers),
        None => match entry {
            Some(headers) => copy_headers(headers),
            None => {
                let headers: Vec<(String, String)> = Vec::new();
                assert(header_pairs(headers@) =~= Seq::empty());
                headers
            },
        },
    }
}

/// Pick the audio to play from a description: its URL, and the headers to send.
///
/// Formats with audio alone come first, then any with audio, then any at all;
/// among them the preferred container and codec, then the better bitrate. A
/// medium without a format that can be fetched may have a URL of its own.
pub fn pick_best_audio(info: &MediaInfo) -> (r: Option<(String, Vec<(String, String)>)>)
    ensures
        picked_from(chosen_entry(*info), r),
{
    let entry: &MediaEntry = if info.has_formats {
        &info.top
    } else {
        match &info.first_entry {
            Some(entry) => entry,
            None => &info.top,
        }
    };
    if let Some(formats) = &entry.formats {
        if let Some(i) = pick_format(formats.as_slice()) {
            if let Some(url) = &formats[i].url {
                let headers = choose_headers(&formats[i].headers, &entry.headers);
                assert(picked_format(formats@, i as int));
                assert(!nothing_to_pick(entry.formats)) by {
                    assert(fetchable(formats@[i as int].url));
                }
                return Some((url.clone(), headers));
            }
        }
    }
    if let Some(url) = &entry.url {
        if is_http_url(url.as_str()) {
            let own: Option<Vec<(String, String)>> = None;
            return Some((url.clone(), choose_headers(&own, &entry.headers)));
        }
    }
    None
}

/// What to ask the downloader for: a URL as it is, anything else as a search for
/// its first result.
pub fn resolve_query(query: &str) -> (resolved: String)
    ensures
        resolved@ == if http_url(query@) {
            query@
        } else {
            "ytsearch1:"@ + query@
        },
{
    if is_http_url(query) {
        text_of(chars_of(query).as_slice())
    } else {
        let mut resolved: String = "ytsearch1:".to_owned();
        resolved.append(query);
        resolved
    }
}

/// The header lines of a header list: `name: value` and a line end for each.
pub open spec fn header_lines(headers: Seq<(Seq<char>, Seq<char>)>) -> Seq<char>
    decreases headers.len(),
{
    if headers.len() == 0 {
        Seq::empty()
    } else {
        header_lines(headers.drop_last()) + headers.last().0 + ": "@ + headers.last().1 + "\r\n"@
    }
}

/// The header lines of a header list.
pub fn header_text(headers: &Vec<(String, String)>) -> (text: String)
    ensures
        text@ == header_lines(header_pairs(headers@)),
{
    let mut text: String = String::new();
    let mut i: usize = 0;
    let ghost pairs = header_pairs(headers@);
    while i < headers.len()
        invariant
            i <= headers@.len(),
            pairs == header_pairs(headers@),
            text@ == header_lines(pairs.take(i as int)),
        decreases headers@.len() - i,
    {
        assert(pairs.take(i + 1).drop_last() =~= pairs.take(i as int));
        text.append(headers[i].0.as_str());
        text.append(": ");
        text.append(headers[i].1.as_str());
        text.append("\r\n");
        i = i + 1;
    }
    assert(pairs.take(pairs.len() as int) =~= pairs);
    text
}

/// The header lines with a cookie behind them, if there is one. A line end that
/// is missing before it is put in.
pub open spec fn lines_with_cookie(headers: Seq<char>, cookie: Option<Seq<char>>) -> Seq<char> {
    match cookie {
        None => headers,
        Some(cookie) => {
            let start = if headers.len() > 0 && !"\r\n"@.is_suffix_of(headers) {
                headers + "\r\n"@
            } else {
                headers
            };
            start + "Cookie: "@ + cookie + "\r\n"@
        },
    }
}

/// The header lines with a cookie behind them, if there is one.
pub fn headers_with_cookie(headers: &str, cookie: &Option<String>) -> (text: String)
    ensures
        text@ == lines_with_cookie(
            headers@,
            match *cookie {
                Some(cookie) => Some(cookie@),
                None => None,
            },
        ),
{
    let mut text: String = text_of(chars_of(headers).as_slice());
    if let Some(cookie) = cookie {
        if headers.unicode_len() > 0 && !has_suffix(headers, "\r\n") {
            text.append("\r\n");
        }
        text.append("Cookie: ");
        text.append(cookie.as_str());
        text.append("\r\n");
    }
    text
}

/// The cookie in a line of a cookie file, as `name=value`: the sixth and seventh
/// of at least seven fields between tabs. Blank lines, comments and lines with
/// an empty name have none.
pub open spec fn cookie_in(line: Seq<char>) -> Option<Seq<char>> {
    let fields = pieces(line, '\t');
    if trimmed(line).len() == 0 || line[0] == '#' {
        None
    } else if fields.len() >= 7 && fields[5].len() > 0 {
        Some(fields[5] + "="@ + fields[6])
    } else {
        None
    }
}

/// The cookies in the lines of a cookie file, separated by semicolons.
pub open spec fn joined_cookies(lines: Seq<Seq<char>>) -> Option<Seq<char>>
    decreases lines.len(),
{
    if lines.len() == 0 {
        None
    } else {
        match (joined_cookies(lines.drop_last()), cookie_in(lines.last())) {
            (before, None) => before,
            (None, Some(cookie)) => Some(cookie),
            (Some(before), Some(cookie)) => Some(before + "; "@ + cookie),
        }
    }
}

fn line_cookie(line: &[char]) -> (r: Option<String>)
    ensures
        match cookie_in(line@) {
            Some(cookie) => r matches Some(found) && found@ == cookie,
            None => r is None,
        },
{
    if trim(line).len() == 0 {
        return None;
    }
    if line.len() == 0 || line[0] == '#' {
        assert(line@.len() == 0 ==> trimmed(line@).len() == 0);
        return None;
    }
    let fields = split_at(line, '\t');
    let ghost texts = char_texts(fields@);
    assert(texts.len() == fields@.len());
    if fields.len() >= 7 && fields[5].len() > 0 {
        assert(texts[5] == fields@[5]@);
        assert(texts[6] == fields@[6]@);
        let mut cookie: String = text_of(fields[5].as_slice());
        cookie.append("=");
        let value: String = text_of(fields[6].as_slice());
        cookie.append(value.as_str());
        Some(cookie)
    } else {
        assert(fields@.len() >= 7 ==> texts[5] == fields@[5]@);
        None
    }
}

/// Read the contents of a cookie file into the value of a Cookie header; `None`
/// if there is no cookie in it.
pub fn parse_cookies(content: &str) -> (r: Option<String>)
    ensures
        match joined_cookies(text_lines(content@)) {
            Some(cookies) => r matches Some(found) && found@ == cookies,
            None => r is None,
        },
{
    let lines = split_lines(chars_of(content).as_slice());
    let ghost texts = char_texts(lines@);
    let mut joined: Option<String> = None;
    let mut i: usize = 0;
    while i < lines.len()
        invariant
            i <= lines@.len(),
            texts == char_texts(lines@),
            match joined_cookies(texts.take(i as int)) {
                Some(cookies) => joined matches Some(found) && found@ == cookies,
                None => joined is None,
            },
        decreases lines@.len() - i,
    {
        proof {
            assert(texts.take(i + 1).drop_last() =~= texts.take(i as int));
            assert(texts.take(i + 1).last() == lines@[i as int]@);
        }
        if let Some(cookie) = line_cookie(lines[i].as_slice()) {
            joined = match joined {
                Some(before) => {
                    let mut text: String = before;
                    text.append("; ");
                    text.append(cookie.as_str());
                    Some(text)
                },
                None => Some(cookie),
            };
        }
        i = i + 1;
    }
    assert(texts.take(texts.len() as int) =~= texts);
    joined
}

/// A format that the downloader lists: its code, and the whole line.
pub struct ListedFormat {
    pub format_code: String,
    pub format: String,
}

/// The code and the line of a listed format.
pub struct ListedFormatView {
    pub format_code: Seq<char>,
    pub format: Seq<char>,
}

impl View for ListedFormat {
    type V = ListedFormatView;

    open spec fn view(&self) -> ListedFormatView {
        ListedFormatView { format_code: self.format_code@, format: self.format@ }
    }
}

/// The format in a line of the listing: one of at least five words, unless it is
/// the heading.
pub open spec fn format_in(line: Seq<char>) -> Option<ListedFormatView> {
    if occurs_in(line, "format code"@) || words(line).len() < 5 {
        None
    } else {
        Some(ListedFormatView { format_code: words(line)[0], format: trimmed(line) })
    }
}

/// The formats in the lines of the listing.
pub open spec fn formats_in(lines: Seq<Seq<char>>) -> Seq<ListedFormatView>
    decreases lines.len(),
{
    if lines.len() == 0 {
        Seq::empty()
    } else {
        match format_in(lines.last()) {
            Some(format) => formats_in(lines.drop_last()).push(format),
            None => formats_in(lines.drop_last()),
        }
    }
}

/// The listing without its first two lines.
pub open spec fn listing_body(lines: Seq<Seq<char>>) -> Seq<Seq<char>> {
    if lines.len() >= 2 {
        lines.skip(2)
    } else {
        Seq::empty()
    }
}

fn line_format(line: &[char]) -> (r: Option<ListedFormat>)
    ensures
        match format_in(line@) {
            Some(format) => r matches Some(found) && found@ == format,
            None => r is None,
        },
{
    let text = text_of(line);
    if contains_text(text.as_str(), "format code") {
        return None;
    }
    let parts = split_words(line);
    let ghost texts = char_texts(parts@);
    assert(texts.len() == parts@.len());
    if parts.len() < 5 {
        return None;
    }
    assert(texts[0] == parts@[0]@);
    Some(
        ListedFormat {
            format_code: text_of(parts[0].as_slice()),
            format: text_of(trim(line).as_slice()),
        },
    )
}

/// Read the downloader's listing of formats. The first two lines are not part of
/// it.
pub fn parse_format_listing(stdout: &str) -> (formats: Vec<ListedFormat>)
    ensures
        formats@.map_values(|format: ListedFormat| format@) == formats_in(
            listing_body(text_lines(stdout@)),
        ),
{
    let lines = split_lines(chars_of(stdout).as_slice());
    let ghost texts = char_texts(lines@);
    let ghost body = listing_body(texts);
    let mut formats: Vec<ListedFormat> = Vec::new();
    let mut i: usize = 2;
    assert(body.take(0) =~= Seq::<Seq<char>>::empty());
    assert(formats@.map_values(|format: ListedFormat| format@) =~= Seq::empty());
    while i < lines.len()
        invariant
            2 <= i,
            texts == char_texts(lines@),
            body == listing_body(texts),
            lines@.len() >= 2 ==> i <= lines@.len(),
            lines@.len() < 2 ==> i == 2,
            formats@.map_values(|format: ListedFormat| format@) == formats_in(body.take(i - 2)),
        decreases lines@.len() - i,
    {
        let ghost before = formats@;
        proof {
            assert(body.take(i - 2 + 1).drop_last() =~= body.take(i - 2));
            assert(body.take(i - 2 + 1).last() == lines@[i as int]@);
        }
        if let Some(format) = line_format(lines[i].as_slice()) {
            formats.push(format);
            assert(formats@.map_values(|format: ListedFormat| format@) =~= before.map_values(
                |format: ListedFormat| format@,
            ).push(format@));
        }
        i = i + 1;
    }
    assert(body.take(i - 2) =~= body);
    formats
}

/// What a line that the transcoder prints is about.
#[derive(Debug, Clone, Copy, PartialEq, Eq, Structural)]
pub enum TranscoderLine {
    /// The pipe was closed, which is how a track ends.
    ShutdownNoise,
    /// It starts up: no audio came yet.
    Startup,
    /// An error.
    Error,
    /// Something else.
    Other,
}

/// `c` in lower case, if it is an ASCII letter.
pub open spec fn lower(c: char) -> char {
    if 'A' <= c <= 'Z' {
        (c as u32 + 32) as char
    } else {
        c
    }
}

/// The line speaks of the pipe being closed.
pub open spec fn is_shutdown_noise(line: Seq<char>) -> bool {
    ||| occurs_in(line, "Error muxing"@)
    ||| occurs_in(line, "Error submitting a packet"@)
    ||| occurs_in(line, "Error writing trailer"@)
    ||| occurs_in(line, "Error closing file"@)
    ||| occurs_in(line, "Task finished with error code: -22"@)
    ||| occurs_in(line, "Conversion failed"@)
}

fn lower_case(line: &str) -> (text: String)
    ensures
        text@ == line@.map_values(|c: char| lower(c)),
{
    let chars = chars_of(line);
    let mut lowered: Vec<char> = Vec::new();
    let mut i: usize = 0;
    while i < chars.len()
        invariant
            i <= chars@.len(),
            lowered@.len() == i,
            forall|j: int| 0 <= j < i ==> #[trigger] lowered@[j] == lower(chars@[j]),
        decreases chars@.len() - i,
    {
        let c: char = chars[i];
        if 'A' <= c && c <= 'Z' {
            lowered.push((c as u8 + 32) as char);
        } else {
            lowered.push(c);
        }
        i = i + 1;
    }
    assert(lowered@ =~= line@.map_values(|c: char| lower(c)));
    text_of(lowered.as_slice())
}

/// Tell what a line that the transcoder prints is about. `got_audio` says whether
/// audio came already.
pub fn classify_transcoder_line(line: &str, got_audio: bool) -> (kind: TranscoderLine)
    ensures
        kind == {
            let lowered = line@.map_values(|c: char| lower(c));
            if is_shutdown_noise(line@) {
                TranscoderLine::ShutdownNoise
            } else if !got_audio {
                TranscoderLine::Startup
            } else if occurs_in(lowered, "error"@) || occurs_in(lowered, "failed"@) {
                TranscoderLine::Error
            } else {
                TranscoderLine::Other
            }
        },
{
    if contains_text(line, "Error muxing") || contains_text(line, "Error submitting a packet")
        || contains_text(line, "Error writing trailer") || contains_text(
        line,
        "Error closing file",
    ) || contains_text(line, "Task finished with error code: -22") || contains_text(
        line,
        "Conversion failed",
    ) {
        return TranscoderLine::ShutdownNoise;
    }
    if !got_audio {
        return TranscoderLine::Startup;
    }
    let lowered = lower_case(line);
    if contains_text(lowered.as_str(), "error") || contains_text(lowered.as_str(), "failed") {
        TranscoderLine::Error
    } else {
        TranscoderLine::Other
    }
}

/// The sample in two little-endian bytes.
pub open spec fn le_sample(low: u8, high: u8) -> i16 {
    let n = 256 * high + low;
    if n < 0x8000 {
        n as i16
    } else {
        (n - 0x1_0000) as i16
    }
}

/// Turn little-endian bytes into 16-bit samples. A last byte without a partner
/// is dropped.
pub fn pcm_from_le_bytes(bytes: &[u8]) -> (pcm: Vec<i16>)
    ensures
        pcm@ == Seq::new(
            bytes@.len() / 2,
            |i: int| le_sample(bytes@[2 * i], bytes@[2 * i + 1]),
        ),
{
    let mut pcm: Vec<i16> = Vec::new();
    let mut i: usize = 0;
    while i < bytes.len() / 2
        invariant
            i <= bytes@.len() / 2,
            pcm@.len() == i,
            forall|j: int|
                0 <= j < i ==> #[trigger] pcm@[j] == le_sample(bytes@[2 * j], bytes@[2 * j + 1]),
        decreases bytes@.len() / 2 - i,
    {
        let n: i32 = 256 * bytes[2 * i + 1] as i32 + bytes[2 * i] as i32;
        let sample: i16 = if n < 0x8000 {
            n as i16
        } else {
            (n - 0x1_0000) as i16
        };
        pcm.push(sample);
        i = i + 1;
    }
    assert(pcm@ =~= Seq::new(
        bytes@.len() / 2,
        |i: int| le_sample(bytes@[2 * i], bytes@[2 * i + 1]),
    ));
    pcm
}

/// A format is picked exactly if one has a URL that begins with `http://` or
/// `https://`, and the one that is picked has. If one of those names an audio
/// codec, and no video codec, the one that is picked does; and if one names an
/// audio codec at all, the one that is picked does. (A codec is named if there is
/// a text for it that is neither empty nor `none`.)
pub proof fn audio_is_picked_first(formats: &[MediaFormat], r: Option<usize>, j: int)
    requires
        call_ensures(pick_format, (formats,), r),
        0 <= j < formats@.len(),
        formats@[j].url matches Some(url) && ("http://"@.is_prefix_of(url@)
            || "https://"@.is_prefix_of(url@)),
    ensures
        r matches Some(i) && i < formats@.len() && ({
            let picked = formats@[i as int];
            let other = formats@[j];
            &&& picked.url matches Some(url) && ("http://"@.is_prefix_of(url@)
                || "https://"@.is_prefix_of(url@))
            &&& (other.acodec matches Some(codec) && codec@.len() > 0 && codec@ != "none"@) ==> (
            picked.acodec matches Some(codec) && codec@.len() > 0 && codec@ != "none"@)
            &&& (other.acodec matches Some(codec) && codec@.len() > 0 && codec@ != "none"@) && (
            other.vcodec matches Some(codec) ==> codec@.len() == 0 || codec@ == "none"@) ==> (
            picked.vcodec matches Some(codec) ==> codec@.len() == 0 || codec@ == "none"@)
        }),
{
    let n = formats@.len() as int;
    assert(fetchable(formats@[j].url));
    let other = formats@[j];
    if let Some(i) = r {
        let picked = formats@[i as int];
        assert(meets(other, Demand::Audio) <==> has_audio(other));
        assert(meets(other, Demand::AudioOnly) <==> audio_only(other));
        assert(none_meets(formats@, Demand::Audio, n) ==> !meets(other, Demand::Audio));
        assert(none_meets(formats@, Demand::AudioOnly, n) ==> !meets(other, Demand::AudioOnly));
        assert(text_or(other.acodec, "none"@) == match other.acodec {
            Some(codec) => codec@,
            None => "none"@,
        });
        if best_of(formats@, Demand::AudioOnly, n, i as int) {
            assert(audio_only(picked));
        } else if best_of(formats@, Demand::Audio, n, i as int) {
            assert(has_audio(picked));
        }
        reveal_strlit("none");
    }
}

/// Without a URL that begins with `http://` or `https://` nothing is picked.
pub proof fn only_fetchable_formats_are_picked(formats: &[MediaFormat], r: Option<usize>)
    requires
        call_ensures(pick_format, (formats,), r),
        forall|j: int|
            0 <= j < formats@.len() ==> ((#[trigger] formats@[j]).url matches Some(url)
                ==> !"http://"@.is_prefix_of(url@) && !"https://"@.is_prefix_of(url@)),
    ensures
        r is None,
{
    if let Some(i) = r {
        assert(fetchable(formats@[i as int].url));
    }
}

/// Opus, or WebM.
spec fn first_choice(format: MediaFormat) -> bool {
    (format.ext matches Some(ext) && ext@ == "webm"@) || (format.acodec matches Some(codec)
        && occurs_in(codec@, "opus"@))
}

/// AAC, or M4A.
spec fn second_choice(format: MediaFormat) -> bool {
    (format.ext matches Some(ext) && ext@ == "m4a"@) || (format.acodec matches Some(codec) && (
    occurs_in(codec@, "aac"@) || occurs_in(codec@, "m4a"@)))
}

proof fn lemma_nothing_in_empty_text(pattern: Seq<char>)
    requires
        pattern.len() > 0,
    ensures
        !occurs_in(Seq::<char>::empty(), pattern),
{
}

proof fn lemma_choices(format: MediaFormat)
    ensures
        preference(format) == 3 <==> first_choice(format),
        preference(format) == 2 <==> !first_choice(format) && second_choice(format),
        preference(format) == 1 ==> (format.ext matches Some(ext) && ext@.len() > 0),
        0 <= preference(format) <= 3,
{
    reveal_strlit("webm");
    reveal_strlit("m4a");
    reveal_strlit("opus");
    reveal_strlit("aac");
    lemma_nothing_in_empty_text("opus"@);
    lemma_nothing_in_empty_text("aac"@);
    lemma_nothing_in_empty_text("m4a"@);
}

/// Among the formats that meet a demand, the best is in WebM or has an Opus codec
/// if one is or has; else it is in M4A or has an AAC or M4A codec if one is or
/// has; else its container has a name if one has.
pub proof fn containers_are_preferred(
    formats: &[MediaFormat],
    demand: Demand,
    i: usize,
    j: int,
)
    requires
        call_ensures(best_format, (formats, demand), Some(i)),
        0 <= j < formats@.len(),
        meets(formats@[j], demand),
    ensures
        i < formats@.len(),
        meets(formats@[i as int], demand),
        ({
            let best = formats@[i as int];
            let other = formats@[j];
            let webm = (best.ext matches Some(ext) && ext@ == "webm"@) || (
            best.acodec matches Some(codec) && occurs_in(codec@, "opus"@));
            let m4a = (best.ext matches Some(ext) && ext@ == "m4a"@) || (
            best.acodec matches Some(codec) && (occurs_in(codec@, "aac"@) || occurs_in(
                codec@,
                "m4a"@,
            )));
            let named = best.ext matches Some(ext) && ext@.len() > 0;
            &&& (other.ext matches Some(ext) && ext@ == "webm"@) || (
            other.acodec matches Some(codec) && occurs_in(codec@, "opus"@)) ==> webm
            &&& (other.ext matches Some(ext) && ext@ == "m4a"@) || (
            other.acodec matches Some(codec) && (occurs_in(codec@, "aac"@) || occurs_in(
                codec@,
                "m4a"@,
            ))) ==> webm || m4a
            &&& (other.ext matches Some(ext) && ext@.len() > 0) ==> webm || m4a || named
        }),
{
    lemma_choices(formats@[i as int]);
    lemma_choices(formats@[j]);
}

/// Of two formats that meet a demand, and are in the same kind of container with
/// the same kind of codec, the one with the higher bitrate wins, and the first of
/// two with the same. The bitrate is that of the audio, or else the total one, or
/// else the sample rate, or else zero.
pub proof fn bitrates_decide(
    formats: &[MediaFormat],
    demand: Demand,
    i: usize,
    j: int,
    rate_best: i64,
    rate_other: i64,
)
    requires
        call_ensures(best_format, (formats, demand), Some(i)),
        0 <= j < formats@.len(),
        meets(formats@[j], demand),
        text_or(formats@[j].ext, Seq::empty()) == text_or(formats@[i as int].ext, Seq::empty()),
        text_or(formats@[j].acodec, Seq::empty()) == text_or(
            formats@[i as int].acodec,
            Seq::empty(),
        ),
        ({
            let best = formats@[i as int];
            ||| best.audio_bitrate == Some(rate_best)
            ||| best.audio_bitrate is None && best.total_bitrate == Some(rate_best)
            ||| best.audio_bitrate is None && best.total_bitrate is None && best.sample_rate
                == Some(rate_best)
            ||| best.audio_bitrate is None && best.total_bitrate is None && best.sample_rate is None
                && rate_best == 0
        }),
        ({
            let other = formats@[j];
            ||| other.audio_bitrate == Some(rate_other)
            ||| other.audio_bitrate is None && other.total_bitrate == Some(rate_other)
            ||| other.audio_bitrate is None && other.total_bitrate is None && other.sample_rate
                == Some(rate_other)
            ||| other.audio_bitrate is None && other.total_bitrate is None
                && other.sample_rate is None && rate_other == 0
        }),
    ensures
        rate_best >= rate_other,
        j < i ==> rate_best > rate_other,
{
}

/// A description with formats is about itself, and one without about its first
/// result, if it has one. The URL is that of the format that is picked, or else,
/// if none can be, the medium's own, as long as that begins with `http://` or
/// `https://`. The headers are the format's own if it has some, or else the
/// medium's, or else none.
pub proof fn audio_comes_from_picked_format(
    info: &MediaInfo,
    r: Option<(String, Vec<(String, String)>)>,
    entry: MediaEntry,
    formats: &[MediaFormat],
    picked: Option<usize>,
    k: int,
)
    requires
        call_ensures(pick_best_audio, (info,), r),
        info.has_formats || info.first_entry is None ==> entry == info.top,
        !info.has_formats && info.first_entry is Some ==> info.first_entry == Some(entry),
        entry.formats matches Some(all) ==> formats@ == all@,
        entry.formats is None ==> formats@.len() == 0,
        call_ensures(pick_format, (formats,), picked),
    ensures
        picked matches Some(i) ==> {
            &&& r matches Some((url, headers))
            &&& formats@[i as int].url matches Some(text) && url@ == text@
            &&& match (formats@[i as int].headers, entry.headers) {
                (Some(own), _) => headers@.len() == own@.len() && (0 <= k < own@.len()
                    ==> headers@[k].0@ == own@[k].0@ && headers@[k].1@ == own@[k].1@),
                (None, Some(shared)) => headers@.len() == shared@.len() && (0 <= k < shared@.len()
                    ==> headers@[k].0@ == shared@[k].0@ && headers@[k].1@ == shared@[k].1@),
                (None, None) => headers@.len() == 0,
            }
        },
        picked is None ==> {
            let own = entry.url matches Some(text) && ("http://"@.is_prefix_of(text@)
                || "https://"@.is_prefix_of(text@));
            &&& r is Some <==> own
            &&& r matches Some((url, headers)) ==> entry.url->0@ == url@ && match entry.headers {
                Some(shared) => headers@.len() == shared@.len() && (0 <= k < shared@.len()
                    ==> headers@[k].0@ == shared@[k].0@ && headers@[k].1@ == shared@[k].1@),
                None => headers@.len() == 0,
            }
        },
{
    assert(chosen_entry(*info) == entry);
    if let Some(i) = picked {
        assert(fetchable(formats@[i as int].url));
        assert(!nothing_to_pick(entry.formats));
        if let Some((url, headers)) = r {
            let all = entry.formats->0@;
            let w = choose|w: int|
                {
                    &&& #[trigger] picked_format(all, w)
                    &&& 0 <= w < all.len()
                    &&& all[w].url matches Some(text) && url@ == text@
                    &&& header_pairs(headers@) == chosen_headers(all[w].headers, entry.headers)
                };
            pick_is_unique(all, w, i as int);
            lemma_same_pairs(headers@, formats@[i as int].headers, entry.headers, k);
        }
    } else {
        assert(nothing_to_pick(entry.formats));
        if let Some((url, headers)) = r {
            lemma_same_pairs(headers@, None, entry.headers, k);
        }
    }
}

proof fn lemma_same_pairs(
    headers: Seq<(String, String)>,
    own: Option<Vec<(String, String)>>,
    entry: Option<Vec<(String, String)>>,
    k: int,
)
    requires
        header_pairs(headers) == chosen_headers(own, entry),
    ensures
        match (own, entry) {
            (Some(own), _) => headers.len() == own@.len() && (0 <= k < own@.len() ==> headers[k].0@
                == own@[k].0@ && headers[k].1@ == own@[k].1@),
            (None, Some(shared)) => headers.len() == shared@.len() && (0 <= k < shared@.len()
                ==> headers[k].0@ == shared@[k].0@ && headers[k].1@ == shared@[k].1@),
            (None, None) => headers.len() == 0,
        },
{
    let pairs = header_pairs(headers);
    assert(pairs.len() == headers.len());
    assert(0 <= k < headers.len() ==> pairs[k] == (headers[k].0@, headers[k].1@));
    if let Some(own) = own {
        let wanted = header_pairs(own@);
        assert(wanted.len() == own@.len());
        assert(0 <= k < own@.len() ==> wanted[k] == (own@[k].0@, own@[k].1@));
    } else if let Some(shared) = entry {
        let wanted = header_pairs(shared@);
        assert(wanted.len() == shared@.len());
        assert(0 <= k < shared@.len() ==> wanted[k] == (shared@[k].0@, shared@[k].1@));
    }
}

/// A query that begins with `http://` or `https://` is asked for as it is, and
/// any other as a search for its first result.
pub proof fn queries_are_urls_or_searches(query: &str, resolved: String)
    requires
        call_ensures(resolve_query, (query,), resolved),
    ensures
        "http://"@.is_prefix_of(query@) || "https://"@.is_prefix_of(query@) ==> resolved@
            == query@,
        !"http://"@.is_prefix_of(query@) && !"https://"@.is_prefix_of(query@) ==> resolved@
            == "ytsearch1:"@ + query@,
{
}

/// Each header adds its name, a colon and a space, its value, a carriage return
/// and a line feed to the header lines.
pub proof fn header_lines_add_up(
    headers: &Vec<(String, String)>,
    text: String,
    longer: &Vec<(String, String)>,
    longer_text: String,
    header: (String, String),
)
    requires
        call_ensures(header_text, (headers,), text),
        call_ensures(header_text, (longer,), longer_text),
        longer@ == headers@.push(header),
    ensures
        headers@.len() == 0 ==> text@.len() == 0,
        longer_text@ == text@ + header.0@ + seq![':', ' '] + header.1@ + seq!['\r', '\n'],
{
    reveal_strlit(": ");
    reveal_strlit("\r\n");
    assert(": "@ =~= seq![':', ' ']);
    assert("\r\n"@ =~= seq!['\r', '\n']);
    let pairs = header_pairs(longer@);
    assert(pairs.drop_last() =~= header_pairs(headers@));
    assert(pairs.last() == (header.0@, header.1@));
}

/// Without a cookie the header lines stay as they are. A cookie makes one more
/// line of them, behind a line end that is put in only where it is missing.
pub proof fn cookie_is_the_last_line(
    headers: &str,
    cookie: &Option<String>,
    text: String,
    before: Seq<char>,
)
    requires
        call_ensures(headers_with_cookie, (headers, cookie), text),
    ensures
        cookie is None ==> text@ == headers@,
        cookie matches Some(value) ==> {
            &&& headers@.len() == 0 ==> text@ == "Cookie: "@ + value@ + seq!['\r', '\n']
            &&& headers@ == before + seq!['\r', '\n'] ==> text@ == headers@ + "Cookie: "@ + value@
                + seq!['\r', '\n']
            &&& headers@.len() > 0 && headers@.last() != '\n' ==> text@ == headers@ + seq![
                '\r',
                '\n',
            ] + "Cookie: "@ + value@ + seq!['\r', '\n']
        },
{
    reveal_strlit("\r\n");
    let end = seq!['\r', '\n'];
    assert("\r\n"@ =~= end);
    if let Some(value) = cookie {
        if headers@.len() == 0 {
            assert(headers@ + "Cookie: "@ + value@ + end =~= "Cookie: "@ + value@ + end);
        }
        if headers@ == before + end {
            assert(headers@.subrange(headers@.len() - 2, headers@.len() as int) =~= end);
            assert("\r\n"@.is_suffix_of(headers@));
        }
        if headers@.len() > 0 && headers@.last() != '\n' && "\r\n"@.is_suffix_of(headers@) {
            assert(headers@.subrange(headers@.len() - 2, headers@.len() as int)[1] == '\n');
        }
    }
}

/// A cookie file of one line has a cookie exactly if the line is not blank, does
/// not begin with `#`, and has at least seven fields between tabs, the sixth of
/// them not empty: the sixth, an equals sign, and the seventh.
pub proof fn cookies_stand_in_fields(
    content: &str,
    line: &[char],
    stripped: Vec<char>,
    fields: Vec<Vec<char>>,
    r: Option<String>,
)
    requires
        call_ensures(parse_cookies, (content,), r),
        line@ == content@,
        forall|i: int| 0 <= i < line@.len() ==> #[trigger] line@[i] != '\n',
        line@.len() > 0,
        call_ensures(trim, (line,), stripped),
        call_ensures(split_at, (line, '\t'), fields),
    ensures
        r is Some <==> stripped@.len() > 0 && line@[0] != '#' && fields@.len() >= 7
            && fields@[5]@.len() > 0,
        r matches Some(cookie) ==> cookie@ == fields@[5]@ + seq!['='] + fields@[6]@,
{
    reveal_strlit("=");
    assert("="@ =~= seq!['=']);
    let texts = char_texts(fields@);
    assert(texts.len() == fields@.len());
    assert(fields@.len() >= 7 ==> texts[5] == fields@[5]@ && texts[6] == fields@[6]@);
    lemma_one_line(line@);
    let lines = text_lines(line@);
    assert(lines.drop_last() =~= Seq::<Seq<char>>::empty());
    reveal_with_fuel(joined_cookies, 2);
}

proof fn lemma_one_line(line: Seq<char>)
    requires
        line.len() > 0,
        forall|i: int| 0 <= i < line.len() ==> #[trigger] line[i] != '\n',
    ensures
        text_lines(line) == seq![line],
{
    lemma_without_char(line, '\n');
}

proof fn lemma_without_char(s: Seq<char>, c: char)
    requires
        forall|i: int| 0 <= i < s.len() ==> #[trigger] s[i] != c,
    ensures
        first_index(s, c) == s.len(),
    decreases s.len(),
{
    if s.len() > 0 {
        assert(s[0] != c);
        lemma_without_char(s.skip(1), c);
    }
}

proof fn lemma_first_char(head: Seq<char>, c: char, tail: Seq<char>)
    requires
        forall|i: int| 0 <= i < head.len() ==> #[trigger] head[i] != c,
    ensures
        first_index(head.push(c) + tail, c) == head.len(),
    decreases head.len(),
{
    let s = head.push(c) + tail;
    if head.len() > 0 {
        assert(head[0] != c && s[0] == head[0]);
        assert(s.skip(1) =~= head.skip(1).push(c) + tail);
        lemma_first_char(head.skip(1), c, tail);
    }
}

proof fn lemma_cookies_in_turn(line: Seq<char>, rest: Seq<Seq<char>>)
    ensures
        joined_cookies(seq![line] + rest) == match (cookie_in(line), joined_cookies(rest)) {
            (None, later) => later,
            (Some(cookie), None) => Some(cookie),
            (Some(cookie), Some(later)) => Some(cookie + "; "@ + later),
        },
    decreases rest.len(),
{
    let lines = seq![line] + rest;
    if rest.len() == 0 {
        assert(lines.drop_last() =~= Seq::<Seq<char>>::empty());
        reveal_with_fuel(joined_cookies, 2);
    } else {
        lemma_cookies_in_turn(line, rest.drop_last());
        assert(lines.drop_last() =~= seq![line] + rest.drop_last());
        assert(lines.last() == rest.last());
        match (cookie_in(line), joined_cookies(rest.drop_last()), cookie_in(rest.last())) {
            (Some(a), Some(b), Some(c)) => {
                assert(a + "; "@ + b + "; "@ + c =~= a + "; "@ + (b + "; "@ + c));
            },
            _ => {},
        }
    }
}

/// The cookies of a file are those of its first line and those of the rest, in
/// this order, with a semicolon and a space between them. An empty file has none.
pub proof fn cookies_are_joined(
    content: &str,
    r: Option<String>,
    line: &str,
    line_r: Option<String>,
    rest: &str,
    rest_r: Option<String>,
)
    requires
        call_ensures(parse_cookies, (content,), r),
        call_ensures(parse_cookies, (line,), line_r),
        call_ensures(parse_cookies, (rest,), rest_r),
        content@ == line@.push('\n') + rest@,
        forall|i: int| 0 <= i < line@.len() ==> #[trigger] line@[i] != '\n',
        line@.len() > 0,
        line@.last() != '\r',
    ensures
        rest@.len() == 0 ==> rest_r is None,
        match (line_r, rest_r) {
            (None, None) => r is None,
            (Some(a), None) => r matches Some(all) && all@ == a@,
            (None, Some(b)) => r matches Some(all) && all@ == b@,
            (Some(a), Some(b)) => r matches Some(all) && all@ == a@ + seq![';', ' '] + b@,
        },
{
    reveal_strlit("; ");
    assert("; "@ =~= seq![';', ' ']);
    lemma_one_line(line@);
    lemma_first_char(line@, '\n', rest@);
    assert(content@.take(line@.len() as int) =~= line@);
    assert(content@.skip(line@.len() as int + 1) =~= rest@);
    assert(text_lines(content@) == seq![line@] + text_lines(rest@));
    lemma_cookies_in_turn(line@, text_lines(rest@));
    let one = text_lines(line@);
    assert(one.drop_last() =~= Seq::<Seq<char>>::empty());
    reveal_with_fuel(joined_cookies, 2);
}

/// One more line at the end of a listing of at least two lines adds a format
/// exactly if it does not say `format code` and has at least five words. The code
/// of the format is the first of them, and its text is the line without the white
/// space around it. Two lines list nothing.
pub proof fn listed_formats_have_five_words(
    stdout: &str,
    formats: Vec<ListedFormat>,
    longer: &str,
    longer_formats: Vec<ListedFormat>,
    line: &[char],
    line_words: Vec<Vec<char>>,
    stripped: Vec<char>,
)
    requires
        call_ensures(parse_format_listing, (stdout,), formats),
        call_ensures(parse_format_listing, (longer,), longer_formats),
        text_lines(stdout@).len() >= 2,
        text_lines(longer@) == text_lines(stdout@).push(line@),
        call_ensures(split_words, (line,), line_words),
        call_ensures(trim, (line,), stripped),
    ensures
        text_lines(stdout@).len() == 2 ==> formats@.len() == 0,
        occurs_in(line@, "format code"@) || line_words@.len() < 5 ==> longer_formats@.len()
            == formats@.len(),
        !occurs_in(line@, "format code"@) && line_words@.len() >= 5 ==> longer_formats@.len()
            == formats@.len() + 1 && longer_formats@.last().format_code@ == line_words@[0]@
            && longer_formats@.last().format@ == stripped@,
        forall|i: int|
            0 <= i < formats@.len() ==> (#[trigger] formats@[i]).format_code@
                == longer_formats@[i].format_code@ && formats@[i].format@
                == longer_formats@[i].format@,
{
    let views = formats@.map_values(|format: ListedFormat| format@);
    let longer_views = longer_formats@.map_values(|format: ListedFormat| format@);
    let body = listing_body(text_lines(stdout@));
    let longer_body = listing_body(text_lines(longer@));
    assert(longer_body.drop_last() =~= body);
    assert(longer_body.last() == line@);
    let texts = char_texts(line_words@);
    assert(texts.len() == line_words@.len());
    assert(line_words@.len() > 0 ==> texts[0] == line_words@[0]@);
    assert(views.len() == formats@.len());
    assert(longer_views.len() == longer_formats@.len());
    if longer_formats@.len() > 0 {
        assert(longer_views.last() == longer_formats@.last()@);
    }
    assert forall|i: int| 0 <= i < formats@.len() implies (#[trigger] formats@[i]).format_code@
        == longer_formats@[i].format_code@ && formats@[i].format@ == longer_formats@[i].format@ by {
        assert(views[i] == formats@[i]@);
        assert(longer_views[i] == longer_formats@[i]@);
    }
}

/// A line about the closed pipe is noise at any time. Any other is about the
/// start until audio came, and from then on an error if it says `error` or
/// `failed`, in lower or upper case, and nothing to speak of otherwise.
pub proof fn transcoder_lines_are_told_apart(
    line: &str,
    got_audio: bool,
    kind: TranscoderLine,
    small: Seq<char>,
)
    requires
        call_ensures(classify_transcoder_line, (line, got_audio), kind),
        small.len() == line@.len(),
        forall|i: int|
            0 <= i < small.len() ==> if 'A' <= (#[trigger] line@[i]) <= 'Z' {
                small[i] == (line@[i] as u32 + 32) as char
            } else {
                small[i] == line@[i]
            },
    ensures
        kind == TranscoderLine::ShutdownNoise <==> {
            ||| occurs_in(line@, "Error muxing"@)
            ||| occurs_in(line@, "Error submitting a packet"@)
            ||| occurs_in(line@, "Error writing trailer"@)
            ||| occurs_in(line@, "Error closing file"@)
            ||| occurs_in(line@, "Task finished with error code: -22"@)
            ||| occurs_in(line@, "Conversion failed"@)
        },
        kind != TranscoderLine::ShutdownNoise ==> (kind == TranscoderLine::Startup <==> !got_audio),
        kind != TranscoderLine::ShutdownNoise && got_audio ==> (kind == TranscoderLine::Error
            <==> occurs_in(small, "error"@) || occurs_in(small, "failed"@)),
{
    assert(line@.map_values(|c: char| lower(c)) =~= small);
}

/// Every two bytes are a sample, the less significant first, in two's complement.
pub proof fn samples_are_little_endian(bytes: &[u8], pcm: Vec<i16>, i: int)
    requires
        call_ensures(pcm_from_le_bytes, (bytes,), pcm),
        0 <= i < pcm@.len(),
    ensures
        bytes@.len() == 2 * pcm@.len() || bytes@.len() == 2 * pcm@.len() + 1,
        pcm@[i] >= 0 ==> pcm@[i] == bytes@[2 * i] + 256 * bytes@[2 * i + 1],
        pcm@[i] < 0 ==> pcm@[i] + 65536 == bytes@[2 * i] + 256 * bytes@[2 * i + 1],
{
}

} // verus!
