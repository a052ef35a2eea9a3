use dagashi::image_pipeline::{
    gif_frames_to_render, portrait, portrait_wanted, still_image_frame, AsciiFrame, FrameSearch, FrameStep,
    PipelineResult,
};
use dagashi::klipy::GifResult;

// A 1x1 GIF of one pixel.
const ONE_PIXEL_GIF: &[u8] = &[
    0x47, 0x49, 0x46, 0x38, 0x39, 0x61, 0x01, 0x00, 0x01, 0x00, 0x80, 0x00, 0x00, 0xff, 0xff, 0xff, 0x00,
    0x00, 0x00, 0x21, 0xf9, 0x04, 0x01, 0x00, 0x00, 0x00, 0x00, 0x2c, 0x00, 0x00, 0x00, 0x00, 0x01, 0x00,
    0x01, 0x00, 0x00, 0x02, 0x02, 0x44, 0x01, 0x00, 0x3b,
];

fn result(url: &str, title: &str) -> GifResult {
    GifResult { url: url.to_string(), title: title.to_string() }
}

fn frames(n: usize) -> PipelineResult {
    let mut p = PipelineResult::default();
    for _ in 0..n {
        p.frames.push(AsciiFrame { pixels: vec![] });
    }
    p.cols = 10;
    p
}

#[test]
fn gif_decoding() {
    let frames = gif_frames_to_render(ONE_PIXEL_GIF).expect("a gif");
    assert_eq!(frames.len(), 1);
    assert_eq!((frames[0].width, frames[0].height), (1, 1));
    assert_eq!(frames[0].rgba.len(), 4);
    assert!(gif_frames_to_render(b"not a gif").is_none());
    let still = still_image_frame(ONE_PIXEL_GIF).expect("an image");
    assert_eq!((still.width, still.height, still.rgba.len()), (1, 1, 4));
    assert!(still_image_frame(b"not an image").is_none());
}

#[test]
fn frame_search_without_key_fails() {
    let used: Vec<String> = vec![];
    let mut s = FrameSearch::new("gintoki sakata gintama lazy", "Gintoki Sakata", "Gintama", "lying on the couch");
    match s.next_step(None, &used, "Gintoki Sakata", "Gintama") {
        FrameStep::Finished(Err(e)) => assert_eq!(e, "klipy_api_key not set"),
        other => panic!("unexpected {:?}", other),
    }
}

#[test]
fn frame_search_takes_first_wanted_gif_with_frames() {
    let used: Vec<String> = vec!["https://g/used.gif".to_string()];
    let (name, anime) = ("Gintoki Sakata", "Gintama");
    let mut s = FrameSearch::new("gintoki sakata gintama lazy", name, anime, "lying on the couch");
    let q0 = s.queries[0].clone();
    assert!(matches!(s.next_step(Some("k"), &used, name, anime), FrameStep::Search(0)));
    s.searched(vec![
        result("https://g/used.gif", "Gintoki Gintama lazy"),
        result("https://g/other.gif", "Naruto running"),
        result("https://g/a.gif", "Gintoki Gintama eats"),
        result("https://g/b.gif", "Gintama: Gintoki lazy"),
    ]);
    match s.next_step(Some("k"), &used, name, anime) {
        FrameStep::Download { query: 0, result: 2 } => {}
        other => panic!("unexpected {:?}", other),
    }
    s.decoded(Some(frames(0)));
    match s.next_step(Some("k"), &used, name, anime) {
        FrameStep::Download { query: 0, result: 3 } => {}
        other => panic!("unexpected {:?}", other),
    }
    s.decoded(Some(frames(3)));
    match s.next_step(Some("k"), &used, name, anime) {
        FrameStep::Finished(Ok(p)) => {
            assert_eq!(p.frames.len(), 3);
            assert_eq!(p.source, "klipy");
            assert_eq!(p.source_url, "https://g/b.gif");
            assert_eq!(p.matched_query, q0);
        }
        other => panic!("unexpected {:?}", other),
    }
}

#[test]
fn frame_search_falls_back_to_the_portrait() {
    let used: Vec<String> = vec![];
    let (name, anime) = ("L Lawliet", "Death Note");
    let mut s = FrameSearch::new("l lawliet death note", name, anime, "");
    let n = s.queries.len();
    for q in 0..n {
        match s.next_step(Some("k"), &used, name, anime) {
            FrameStep::Search(i) => assert_eq!(i, q),
            other => panic!("unexpected {:?}", other),
        }
        s.searched(vec![]);
    }
    assert!(matches!(s.next_step(Some("k"), &used, name, anime), FrameStep::Portrait));
    match s.next_step(Some("k"), &used, name, anime) {
        FrameStep::Finished(Err(e)) => assert_eq!(e, "no images found from any source"),
        other => panic!("unexpected {:?}", other),
    }
}

#[test]
fn portrait_outcomes() {
    let used = vec!["https://cdn/l.jpg".to_string()];
    assert!(portrait_wanted(&Some("https://cdn/m.jpg".to_string()), &used));
    assert!(!portrait_wanted(&Some("https://cdn/l.jpg".to_string()), &used));
    assert!(!portrait_wanted(&None, &used));
    let frame = || Some(AsciiFrame { pixels: vec![] });
    let ok = portrait(Some("https://cdn/m.jpg".to_string()), frame(), &used, 80, "L Lawliet").expect("portrait");
    assert_eq!(ok.frames.len(), 1);
    assert_eq!((ok.cols, ok.rows), (80, 0));
    assert_eq!(ok.source, "jikan");
    assert_eq!(ok.source_url, "https://cdn/m.jpg");
    assert_eq!(ok.matched_query, "L Lawliet");
    for (url, f) in [(Some("https://cdn/l.jpg".to_string()), frame()), (None, frame()), (Some("https://cdn/m.jpg".to_string()), None)] {
        assert_eq!(portrait(url, f, &used, 80, "L Lawliet").err().as_deref(), Some("no images found from any source"));
    }
}
