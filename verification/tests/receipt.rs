use dagashi::ipfs::{build_receipt, to_hex};
use dagashi::storage::PullMeta;

fn meta() -> PullMeta {
    PullMeta {
        date: "2026-04-10-1830".to_string(),
        character: "L".to_string(),
        scene: "sitting".to_string(),
        rarity: "legendary".to_string(),
        flavor_text: "You type like you think.".to_string(),
        source: "klipy".to_string(),
        color_mode: "color".to_string(),
        frame_count: 12,
        anime_title: "Death Note".to_string(),
        anime_rank: 2,
        source_url: None,
        search_query: None,
    }
}

#[test]
fn receipt_copies_meta_and_hashes_frames() {
    let r = build_receipt(&meta(), "abc");
    assert_eq!(r.version, 1);
    assert_eq!(r.date, "2026-04-10-1830");
    assert_eq!(r.character, "L");
    assert_eq!(r.anime_title, "Death Note");
    assert_eq!(r.anime_rank, 2);
    assert_eq!(r.rarity, "legendary");
    assert_eq!(r.color_mode, "color");
    assert_eq!(r.frame_count, 12);
    assert_eq!(r.flavor_text, "You type like you think.");
    assert_eq!(r.frames_hash, "ba7816bf8f01cfea414140de5dae2223b00361a396177a9cb410ff61f20015ad");
}

#[test]
fn empty_frames_hash() {
    let r = build_receipt(&meta(), "");
    assert_eq!(r.frames_hash, "e3b0c44298fc1c149afbf4c8996fb92427ae41e4649b934ca495991b7852b855");
    assert_eq!(r.frames_hash.len(), 64);
}

#[test]
fn hex() {
    assert_eq!(to_hex(&vec![0x00, 0x0f, 0xa0, 0xff]), "000fa0ff");
    assert_eq!(to_hex(&vec![]), "");
}
