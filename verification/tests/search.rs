use dagashi::giphy;
use dagashi::jikan::{select_character_image, CharacterImage};
use dagashi::klipy::{self, collect_results, GifItem};
use dagashi::tenor::{extract_gif_urls, search_page_url};

#[test]
fn giphy_escaping() {
    assert_eq!(giphy::urlencoded("gintoki gintama"), "gintoki+gintama");
    assert_eq!(giphy::urlencoded("a&b?c#d"), "a%26b%3Fc%23d");
    assert_eq!(giphy::urlencoded("é"), "é");
}

#[test]
fn klipy_escaping() {
    assert_eq!(klipy::urlencoded("Gintoki Sakata"), "Gintoki+Sakata");
    assert_eq!(klipy::urlencoded("a-b_c.d~e"), "a-b_c.d~e");
    assert_eq!(klipy::urlencoded("a&b/c"), "a%26b%2Fc");
    assert_eq!(klipy::urlencoded("é"), "%C3%A9");
}

fn item(title: &str, hd: Option<&str>, md: Option<&str>) -> GifItem {
    GifItem { title: title.to_string(), hd_gif: hd.map(|s| s.to_string()), md_gif: md.map(|s| s.to_string()) }
}

#[test]
fn klipy_results_prefer_hd_and_respect_limit() {
    let items = vec![
        item("one", Some("hd1"), Some("md1")),
        item("two", None, Some("md2")),
        item("three", None, None),
        item("four", Some("hd4"), None),
    ];
    let r = collect_results(items, 10);
    let pairs: Vec<(String, String)> = r.into_iter().map(|g| (g.url, g.title)).collect();
    assert_eq!(
        pairs,
        vec![
            ("hd1".to_string(), "one".to_string()),
            ("md2".to_string(), "two".to_string()),
            ("hd4".to_string(), "four".to_string()),
        ]
    );
    let r2 = collect_results(vec![item("a", Some("x"), None), item("b", Some("y"), None)], 1);
    assert_eq!(r2.len(), 1);
    assert_eq!(r2[0].url, "x");
}

#[test]
fn tenor_page_address() {
    assert_eq!(search_page_url("gintoki  gintama"), "https://tenor.com/search/gintoki-gintama-gifs?format=gifs");
}

#[test]
fn tenor_urls_from_page() {
    let html = r#"<img src="https://media.tenor.com/abc123AAAAM/gintoki-gintama.gif"><img src="https://media.tenor.com/xyzAAAAM/kagura.gif"> <a href="https://media.tenor.com/abc123AAAAM/gintoki-gintama.gif"> <img src="https://media.tenor.com/q9AAAAM/third.gif">"#;
    assert_eq!(
        extract_gif_urls(html, 5),
        vec![
            "https://media.tenor.com/abc123AAAAd/gintoki-gintama.gif".to_string(),
            "https://media.tenor.com/xyzAAAAd/kagura.gif".to_string(),
            "https://media.tenor.com/q9AAAAd/third.gif".to_string(),
        ]
    );
    assert_eq!(extract_gif_urls(html, 1), vec!["https://media.tenor.com/abc123AAAAd/gintoki-gintama.gif".to_string()]);
    assert!(extract_gif_urls("<html>nothing</html>", 3).is_empty());
}

fn ch(name: &str, url: Option<&str>) -> CharacterImage {
    CharacterImage { name: name.to_string(), image_url: url.map(|u| u.to_string()) }
}

#[test]
fn jikan_exact_then_parts() {
    let list = vec![
        ch("Yagami, Light", Some("https://cdn.myanimelist.net/light.jpg")),
        ch("Lawliet, L", Some("https://cdn.myanimelist.net/l.jpg")),
        ch("Ryuk", None),
    ];
    assert_eq!(select_character_image(&list, "L Lawliet"), Some("https://cdn.myanimelist.net/l.jpg".to_string()));
    assert_eq!(select_character_image(&list, "light yagami"), Some("https://cdn.myanimelist.net/light.jpg".to_string()));
    assert_eq!(select_character_image(&list, "RYUK"), None);
    assert_eq!(select_character_image(&list, "Misa"), None);
    let exact_later = vec![ch("Light Yagami Jr", Some("first")), ch("light yagami", Some("exact"))];
    assert_eq!(select_character_image(&exact_later, "Light Yagami"), Some("exact".to_string()));
}

#[test]
fn search_addresses() {
    assert_eq!(
        giphy::search_url("gintoki gintama", 3, None),
        "https://api.giphy.com/v1/gifs/search?api_key=GlVGYHkr3WSBnllca54iNt0yFbjz7L65&q=gintoki+gintama&limit=3&rating=g"
    );
    assert_eq!(
        giphy::search_url("a&b", 120, Some("k")),
        "https://api.giphy.com/v1/gifs/search?api_key=k&q=a%26b&limit=120&rating=g"
    );
    assert_eq!(
        klipy::search_url("Gintoki Sakata", 10, "key1"),
        "https://api.klipy.com/api/v1/key1/gifs/search?q=Gintoki+Sakata&per_page=10&content_filter=high"
    );
    assert_eq!(
        dagashi::jikan::characters_url(1535),
        "https://api.jikan.moe/v4/anime/1535/characters"
    );
    assert_eq!(dagashi::jikan::characters_url(0), "https://api.jikan.moe/v4/anime/0/characters");
}

#[test]
fn klipy_escaping_round_trip_values() {
    assert_eq!(klipy::urlencoded("a b&c"), "a+b%26c");
    assert_eq!(klipy::urlencoded("+"), "%2B");
    assert_eq!(klipy::urlencoded("%"), "%25");
}
