use gunita::media::{
    cid_preview_size, default_thumb_size, parse_range, plan_stream, preview_plan,
    range_is_servable, thumbnail_plan,
};

#[test]
fn parses_ranges() {
    assert_eq!(parse_range("0-99", 1000), (0, 99));
    assert_eq!(parse_range("500-", 1000), (500, 999));
    assert_eq!(parse_range("-500", 1000), (500, 999));
    assert_eq!(parse_range("-5000", 1000), (0, 999));
    assert_eq!(parse_range("900-2000", 1000), (900, 999));
    assert_eq!(parse_range("2000-", 1000), (999, 999));
    assert_eq!(parse_range("abc-10", 1000), (0, 10));
    assert_eq!(parse_range("5-xyz", 1000), (5, 999));
    assert_eq!(parse_range("nodash", 1000), (0, 999));
    assert_eq!(parse_range("1-2-3", 1000), (1, 999));
}

#[test]
fn plans_partial_streams() {
    let plan = plan_stream("movies/clip.mp4", Some("bytes=10-19"), 100);
    assert_eq!(plan.content_type, "video/mp4");
    let range = plan.range.expect("a range");
    assert_eq!((range.start, range.end, range.length), (10, 19, 10));
    assert_eq!(range.content_range, "bytes 10-19/100");

    let plan = plan_stream("movies/clip.mp4", Some("bytes=-10"), 100);
    let range = plan.range.expect("a range");
    assert_eq!(range.content_range, "bytes 90-99/100");
}

#[test]
fn plans_full_streams() {
    let plan = plan_stream("a/b.unknownext", None, 100);
    assert_eq!(plan.content_type, "application/octet-stream");
    assert!(plan.range.is_none());
    let plan = plan_stream("photo.JPG", Some("items=0-5"), 100);
    assert_eq!(plan.content_type, "image/jpeg");
    assert!(plan.range.is_none());
}

#[test]
fn refuses_unservable_ranges() {
    assert!(range_is_servable(Some("bytes=0-5"), 10));
    assert!(!range_is_servable(Some("bytes=5-2"), 10));
    assert!(!range_is_servable(Some("bytes=-0"), 10));
    assert!(!range_is_servable(Some("bytes=0-5"), 0));
    assert!(range_is_servable(Some("pages=0-5"), 0));
    assert!(range_is_servable(None, 0));
}

#[test]
fn render_plans() {
    assert_eq!(default_thumb_size(), 300);
    assert_eq!(cid_preview_size(), 1600);
    let p = thumbnail_plan("x/IMG.ARW", 300, 200);
    assert!(p.raw);
    assert_eq!((p.max_w, p.max_h, p.quality), (300, 200, 80));
    let p = preview_plan("x/IMG.jpg");
    assert!(!p.raw);
    assert_eq!((p.max_w, p.max_h, p.quality), (2048, 2048, 90));
}
