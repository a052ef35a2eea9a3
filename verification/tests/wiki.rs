use dagashi::wiki::{fandom_subdomain, image_info_url, page_images_url, urlencoded, wiki_api_url};

#[test]
fn fandom_subdomain_extracts_slug() {
    assert_eq!(fandom_subdomain("Gintama"), "gintama");
    assert_eq!(fandom_subdomain("Higurashi no Naku Koro ni Gou"), "higurashi");
    assert_eq!(fandom_subdomain("Attack on Titan"), "attack");
}

#[test]
fn fandom_subdomain_edge_cases() {
    assert_eq!(fandom_subdomain("The"), "the");
    assert_eq!(fandom_subdomain("   "), "anime");
    assert_eq!(fandom_subdomain("Steins;Gate"), "steinsgate");
    assert_eq!(fandom_subdomain("no Re:Zero"), "rezero");
}

#[test]
fn wiki_addresses() {
    assert_eq!(wiki_api_url("Gintama"), "https://gintama.fandom.com/api.php");
    assert_eq!(
        page_images_url("https://gintama.fandom.com/api.php", "Gintoki Sakata"),
        "https://gintama.fandom.com/api.php?action=query&titles=Gintoki_Sakata&prop=images&imlimit=50&format=json"
    );
    assert_eq!(
        image_info_url("https://x.fandom.com/api.php", "File:A b&c.png"),
        "https://x.fandom.com/api.php?action=query&titles=File:A+b%26c.png&prop=imageinfo&iiprop=url&format=json"
    );
    assert_eq!(urlencoded("a b?c#d&e"), "a+b%3Fc%23d%26e");
}
