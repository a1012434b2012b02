use video_trimmer::media::{CurrentMedia, MediaResolver, MediaState};
use video_trimmer::preview_server::{
    content_type, error_response, file_response, find_header_end, parse_range,
    parse_request_head, route, scan_request_head, HeadScan, RangeSpec, Route, MAX_HEADER_BYTES,
};

const MEDIA: &[u8] = b"0123456789abcdef";

/// The files the server can open, by path.
fn open(files: &[(&str, &[u8])], path: &str) -> Option<Vec<u8>> {
    files.iter().find(|(p, _)| *p == path).map(|(_, b)| b.to_vec())
}

/// Answers one raw request the way the server does, with the library's
/// decisions, over files held in memory. Gives the status, the head up to
/// its blank line, and the body.
fn answer(
    state: &MediaState,
    files: &[(&str, &[u8])],
    request: &str,
) -> (u16, String, Vec<u8>) {
    let buf = request.as_bytes();
    let head = find_header_end(buf).and_then(|end| parse_request_head(&buf[..end]));
    let (path, include_body) = match route(head.as_ref()) {
        Route::BadRequest => return error(400, "Bad Request"),
        Route::MethodNotAllowed => return error(405, "Method Not Allowed"),
        Route::NotFound => (None, false),
        Route::Media { include_body } => (state.media(), include_body),
        Route::Thumbnail { index, include_body } => (state.thumbnail(index), include_body),
    };
    let Some(path) = path else {
        return error(404, "Not Found");
    };
    let Some(bytes) = open(files, &path) else {
        return error(404, "Not Found");
    };
    let len = bytes.len() as u64;
    let range = head.and_then(|h| h.range);
    let r = file_response(parse_range(range.as_deref(), len), len, content_type(&path));
    let body = if include_body {
        bytes[r.start as usize..(r.start + r.nbytes) as usize].to_vec()
    } else {
        vec![]
    };
    split(r.head.into_bytes(), body)
}

fn error(status: u16, reason: &str) -> (u16, String, Vec<u8>) {
    let (head, body) = error_response(status, reason);
    split(head.into_bytes(), body.into_bytes())
}

fn split(head: Vec<u8>, body: Vec<u8>) -> (u16, String, Vec<u8>) {
    let end = find_header_end(&head).expect("response head terminator");
    let text = String::from_utf8_lossy(&head[..end]).into_owned();
    let status = text
        .split_whitespace()
        .nth(1)
        .and_then(|v| v.parse::<u16>().ok())
        .unwrap_or(0);
    (status, text, body)
}

fn serving(media: Option<&str>, thumbnails: &[&str]) -> MediaState {
    let mut state = MediaState::new();
    if let Some(m) = media {
        state.install(
            0,
            CurrentMedia {
                preview: m.to_string(),
                cache: "/cache".to_string(),
                thumbnails: thumbnails.iter().map(|t| t.to_string()).collect(),
            },
        );
    }
    state
}

#[test]
fn full_request_returns_entire_body_with_accept_ranges() {
    let state = serving(Some("/d/media.mp4"), &[]);
    let files: &[(&str, &[u8])] = &[("/d/media.mp4", MEDIA)];
    let (status, head, body) =
        answer(&state, files, "GET /media HTTP/1.1\r\nHost: localhost\r\n\r\n");
    assert_eq!(status, 200);
    assert!(head.contains("Accept-Ranges: bytes"));
    assert!(head.contains("Content-Length: 16"));
    assert!(head.contains("Content-Type: video/mp4"));
    assert_eq!(body, b"0123456789abcdef");
}

#[test]
fn open_ended_range_returns_tail_slice() {
    let state = serving(Some("/d/media.mp4"), &[]);
    let files: &[(&str, &[u8])] = &[("/d/media.mp4", MEDIA)];
    let (status, head, body) = answer(
        &state,
        files,
        "GET /media HTTP/1.1\r\nHost: localhost\r\nRange: bytes=10-\r\n\r\n",
    );
    assert_eq!(status, 206);
    assert!(head.contains("Content-Range: bytes 10-15/16"));
    assert_eq!(body, b"abcdef");
}

#[test]
fn probe_and_bounded_ranges_return_exact_slices() {
    let state = serving(Some("/d/media.mp4"), &[]);
    let files: &[(&str, &[u8])] = &[("/d/media.mp4", MEDIA)];
    let (status, head, body) = answer(
        &state,
        files,
        "GET /media HTTP/1.1\r\nHost: localhost\r\nRange: bytes=0-1\r\n\r\n",
    );
    assert_eq!(status, 206);
    assert!(head.contains("Content-Range: bytes 0-1/16"));
    assert_eq!(body, b"01");
    let (_, head, body) = answer(
        &state,
        files,
        "GET /media HTTP/1.1\r\nHost: localhost\r\nRange: bytes=4-99\r\n\r\n",
    );
    assert!(head.contains("Content-Range: bytes 4-15/16"));
    assert_eq!(body, b"456789abcdef");
}

#[test]
fn unsatisfiable_range_returns_416() {
    let state = serving(Some("/d/media.mp4"), &[]);
    let files: &[(&str, &[u8])] = &[("/d/media.mp4", MEDIA)];
    let (status, head, body) = answer(
        &state,
        files,
        "GET /media HTTP/1.1\r\nHost: localhost\r\nRange: bytes=16-\r\n\r\n",
    );
    assert_eq!(status, 416);
    assert!(head.contains("Content-Range: bytes */16"));
    assert!(body.is_empty());
}

#[test]
fn unknown_paths_and_missing_media_are_not_found() {
    let state = serving(Some("/d/media.mp4"), &[]);
    let files: &[(&str, &[u8])] = &[("/d/media.mp4", MEDIA)];
    let (status, _, _) = answer(&state, files, "GET /etc/passwd HTTP/1.1\r\n\r\n");
    assert_eq!(status, 404);
    let (status, _, _) = answer(&state, files, "GET /thumb/0 HTTP/1.1\r\n\r\n");
    assert_eq!(status, 404);
    let empty = serving(None, &[]);
    let (status, _, _) = answer(&empty, files, "GET /media HTTP/1.1\r\n\r\n");
    assert_eq!(status, 404);
}

#[test]
fn thumbnails_are_served_by_index_only() {
    let state = serving(Some("/d/media.mp4"), &["/d/frame-00.jpg"]);
    let files: &[(&str, &[u8])] = &[("/d/media.mp4", MEDIA), ("/d/frame-00.jpg", b"jpegbytes")];
    let (status, head, body) = answer(&state, files, "GET /thumb/0 HTTP/1.1\r\n\r\n");
    assert_eq!(status, 200);
    assert!(head.contains("Content-Type: image/jpeg"));
    assert_eq!(body, b"jpegbytes");
    let (status, _, _) = answer(&state, files, "GET /thumb/1 HTTP/1.1\r\n\r\n");
    assert_eq!(status, 404);
}

#[test]
fn head_requests_send_headers_without_body() {
    let state = serving(Some("/d/media.mp4"), &[]);
    let files: &[(&str, &[u8])] = &[("/d/media.mp4", MEDIA)];
    let (status, head, body) = answer(&state, files, "HEAD /media HTTP/1.1\r\n\r\n");
    assert_eq!(status, 200);
    assert!(head.contains("Content-Length: 16"));
    assert!(body.is_empty());
}

#[test]
fn other_methods_and_garbage_are_refused() {
    let state = serving(Some("/d/media.mp4"), &[]);
    let files: &[(&str, &[u8])] = &[("/d/media.mp4", MEDIA)];
    let (status, _, body) = answer(&state, files, "POST /media HTTP/1.1\r\n\r\n");
    assert_eq!(status, 405);
    assert_eq!(body, b"405 Method Not Allowed\n");
    let (status, _, _) = answer(&state, files, "\r\n\r\n");
    assert_eq!(status, 400);
}

#[test]
fn range_parser_covers_gstreamer_patterns() {
    assert!(matches!(parse_range(None, 10), RangeSpec::Full));
    assert!(matches!(
        parse_range(Some("bytes=0-1"), 10),
        RangeSpec::Slice(0, 1)
    ));
    assert!(matches!(
        parse_range(Some("bytes=5-"), 10),
        RangeSpec::Slice(5, 9)
    ));
    assert!(matches!(
        parse_range(Some("bytes=-3"), 10),
        RangeSpec::Slice(7, 9)
    ));
    assert!(matches!(
        parse_range(Some("bytes=10-"), 10),
        RangeSpec::Unsatisfiable
    ));
    assert!(matches!(
        parse_range(Some("bytes=2-1"), 10),
        RangeSpec::Unsatisfiable
    ));
    assert!(matches!(
        parse_range(Some("items=0-1"), 10),
        RangeSpec::Full
    ));
    assert!(matches!(
        parse_range(Some("bytes=abc-"), 10),
        RangeSpec::Full
    ));
    assert!(matches!(
        parse_range(Some("bytes=0-1,3-4"), 10),
        RangeSpec::Slice(0, 1)
    ));
    assert!(matches!(
        parse_range(Some("bytes=0-"), 0),
        RangeSpec::Unsatisfiable
    ));
}

#[test]
fn range_parser_clamps_and_trims() {
    assert_eq!(parse_range(Some("  bytes= 4-99 "), 16), RangeSpec::Slice(4, 15));
    assert_eq!(parse_range(Some("bytes=-99"), 16), RangeSpec::Slice(0, 15));
    assert_eq!(parse_range(Some("bytes=-0"), 16), RangeSpec::Unsatisfiable);
    assert_eq!(parse_range(Some("bytes=-x"), 16), RangeSpec::Full);
    assert_eq!(parse_range(Some("bytes=7"), 16), RangeSpec::Full);
    assert_eq!(parse_range(Some("bytes=+2-3"), 16), RangeSpec::Slice(2, 3));
}

#[test]
fn request_heads_are_read_from_the_request_line_and_range() {
    let raw = b"GET /media HTTP/1.1\r\nHost: localhost\r\nRange: bytes=10-\r\n\r\nbody";
    let end = find_header_end(raw).unwrap();
    assert_eq!(end, 54);
    let head = parse_request_head(&raw[..end]).unwrap();
    assert_eq!(head.method, "GET");
    assert_eq!(head.target, "/media");
    assert_eq!(head.range.as_deref(), Some("bytes=10-"));
    let head = parse_request_head(b"head /thumb/3 HTTP/1.1\r\nrange:  bytes=0-1 ").unwrap();
    assert_eq!(head.method, "HEAD");
    assert_eq!(head.target, "/thumb/3");
    assert_eq!(head.range.as_deref(), Some("bytes=0-1"));
    assert!(parse_request_head(b"GET").is_none());
    assert!(parse_request_head(b"").is_none());
    assert_eq!(find_header_end(b"GET / HTTP/1.1\r\n"), None);
}

#[test]
fn routes_serve_media_and_thumbnails_only() {
    let head = |t: &[u8]| parse_request_head(t);
    assert_eq!(route(None), Route::BadRequest);
    assert_eq!(
        route(head(b"GET /media HTTP/1.1").as_ref()),
        Route::Media { include_body: true }
    );
    assert_eq!(
        route(head(b"HEAD /media HTTP/1.1").as_ref()),
        Route::Media { include_body: false }
    );
    assert_eq!(
        route(head(b"GET /thumb/0 HTTP/1.1").as_ref()),
        Route::Thumbnail { index: 0, include_body: true }
    );
    assert_eq!(route(head(b"GET /etc/passwd HTTP/1.1").as_ref()), Route::NotFound);
    assert_eq!(route(head(b"GET /thumb/x HTTP/1.1").as_ref()), Route::NotFound);
    assert_eq!(
        route(head(b"POST /media HTTP/1.1").as_ref()),
        Route::MethodNotAllowed
    );
}

#[test]
fn file_responses_carry_lengths_and_ranges() {
    let full = file_response(RangeSpec::Full, 16, "video/mp4");
    assert!(full.head.starts_with("HTTP/1.1 200 OK\r\n"));
    assert!(full.head.contains("Accept-Ranges: bytes"));
    assert!(full.head.contains("Content-Length: 16"));
    assert!(full.head.contains("Content-Type: video/mp4"));
    assert!(full.head.ends_with("\r\n\r\n"));
    assert_eq!((full.start, full.nbytes), (0, 16));
    let part = file_response(parse_range(Some("bytes=10-"), 16), 16, "video/mp4");
    assert!(part.head.starts_with("HTTP/1.1 206 Partial Content\r\n"));
    assert!(part.head.contains("Content-Range: bytes 10-15/16"));
    assert_eq!((part.start, part.nbytes), (10, 6));
    let none = file_response(RangeSpec::Unsatisfiable, 16, "video/mp4");
    assert_eq!(
        none.head,
        "HTTP/1.1 416 Range Not Satisfiable\r\nContent-Range: bytes */16\r\nConnection: close\r\nContent-Length: 0\r\n\r\n"
    );
    let empty = file_response(RangeSpec::Full, 0, "image/jpeg");
    assert!(empty.head.contains("Content-Length: 0"));
    assert_eq!(empty.nbytes, 0);
}

#[test]
fn error_responses_and_content_types() {
    let (head, body) = error_response(404, "Not Found");
    assert_eq!(body, "404 Not Found\n");
    assert_eq!(
        head,
        "HTTP/1.1 404 Not Found\r\nContent-Type: text/plain\r\nContent-Length: 14\r\nConnection: close\r\n\r\n"
    );
    assert_eq!(content_type("/c/proxy.MP4"), "video/mp4");
    assert_eq!(content_type("/c/frame-01.jpg"), "image/jpeg");
    assert_eq!(content_type("/c/frame.jpeg"), "image/jpeg");
    assert_eq!(content_type("/c/frame"), "application/octet-stream");
}

#[test]
fn request_heads_are_read_until_their_blank_line_or_the_limit() {
    assert_eq!(scan_request_head(b"GET /media HTTP/1.1\r\n"), HeadScan::NeedMore);
    assert_eq!(
        scan_request_head(b"GET /media HTTP/1.1\r\n\r\nbody"),
        HeadScan::Complete(19)
    );
    let long = vec![b'a'; MAX_HEADER_BYTES + 1];
    assert_eq!(scan_request_head(&long), HeadScan::TooLarge);
    let full = vec![b'a'; MAX_HEADER_BYTES];
    assert_eq!(scan_request_head(&full), HeadScan::NeedMore);
}

#[test]
fn content_types_follow_the_file_name_extension() {
    assert_eq!(content_type("/c/proxy.mp4"), "video/mp4");
    assert_eq!(content_type("/c/thumbs/frame-01.JPG"), "image/jpeg");
    assert_eq!(content_type("a/clip.jpeg"), "image/jpeg");
    assert_eq!(content_type("/c/.mp4"), "application/octet-stream");
    assert_eq!(content_type("/c/clip.mp4/."), "video/mp4");
    assert_eq!(content_type("/c/clip.mp4/.."), "application/octet-stream");
    assert_eq!(content_type("/c/clip.tar.mp4"), "video/mp4");
    assert_eq!(content_type("/c/clip.mp4.bak"), "application/octet-stream");
    assert_eq!(content_type("/"), "application/octet-stream");
}

#[test]
fn padded_and_multi_range_headers_use_their_first_range() {
    assert!(matches!(parse_range(Some("  bytes= 2-5 , 7-8 "), 10), RangeSpec::Slice(2, 5)));
    assert!(matches!(parse_range(Some("\tbytes=-3 "), 10), RangeSpec::Slice(7, 9)));
    assert!(matches!(parse_range(Some("bytes=4- ,1-2"), 10), RangeSpec::Slice(4, 9)));
    assert!(matches!(parse_range(Some(" bytes= 12-14,0-1"), 10), RangeSpec::Unsatisfiable));
    assert!(matches!(parse_range(Some(" items=0-1 "), 10), RangeSpec::Full));
}
