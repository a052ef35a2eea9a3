use dagashi::anime_db::{
    pick_anime, rank_to_rarity, top_page_url, AnimeDb, AnimeEntry, ListedAnime, TopListFetch, PAGES_TO_FETCH,
};
use dagashi::gacha::Rarity;

#[test]
fn rank_to_rarity_mapping() {
    assert_eq!(rank_to_rarity(1), Rarity::Legendary);
    assert_eq!(rank_to_rarity(25), Rarity::Legendary);
    assert_eq!(rank_to_rarity(26), Rarity::Epic);
    assert_eq!(rank_to_rarity(100), Rarity::Epic);
    assert_eq!(rank_to_rarity(101), Rarity::Rare);
    assert_eq!(rank_to_rarity(300), Rarity::Rare);
    assert_eq!(rank_to_rarity(301), Rarity::Uncommon);
    assert_eq!(rank_to_rarity(601), Rarity::Common);
    assert_eq!(rank_to_rarity(999), Rarity::Common);
}

#[test]
fn rank_zero_and_tier_edges() {
    assert_eq!(rank_to_rarity(0), Rarity::Common);
    assert_eq!(rank_to_rarity(600), Rarity::Uncommon);
    assert_eq!(rank_to_rarity(u32::MAX), Rarity::Common);
}

#[test]
fn rarity_labels() {
    assert_eq!(Rarity::Common.label(), "common");
    assert_eq!(Rarity::Uncommon.label(), "uncommon");
    assert_eq!(Rarity::Rare.label(), "rare");
    assert_eq!(Rarity::Epic.label(), "epic");
    assert_eq!(Rarity::Legendary.label(), "legendary");
}

fn entry(rank: u32) -> AnimeEntry {
    AnimeEntry { mal_id: rank as u64 * 10, title: format!("Anime {rank}"), members: 1000, popularity_rank: rank }
}

fn db(ranks: &[u32]) -> AnimeDb {
    AnimeDb { anime: ranks.iter().map(|r| entry(*r)).collect(), fetched_at: "2026-04-10".to_string() }
}

#[test]
fn pick_anime_uses_seed_within_tier() {
    // Legendary entries: ranks 3, 7 and 20 (positions 0, 2, 4).
    let d = db(&[3, 50, 7, 200, 20, 700]);
    assert_eq!(pick_anime(&d, &Rarity::Legendary, 0).unwrap().popularity_rank, 3);
    assert_eq!(pick_anime(&d, &Rarity::Legendary, 1).unwrap().popularity_rank, 7);
    assert_eq!(pick_anime(&d, &Rarity::Legendary, 2).unwrap().popularity_rank, 20);
    assert_eq!(pick_anime(&d, &Rarity::Legendary, 5).unwrap().popularity_rank, 20);
    assert_eq!(pick_anime(&d, &Rarity::Epic, 9).unwrap().popularity_rank, 50);
}

#[test]
fn pick_anime_falls_back_to_last() {
    let d = db(&[3, 50, 700]);
    assert_eq!(pick_anime(&d, &Rarity::Uncommon, 4).unwrap().popularity_rank, 700);
    let empty = db(&[]);
    assert!(pick_anime(&empty, &Rarity::Common, 0).is_none());
}

#[test]
fn top_list_pages_ranked_in_order() {
    assert_eq!(
        top_page_url(7),
        "https://api.jikan.moe/v4/top/anime?type=tv&filter=bypopularity&limit=25&page=7"
    );
    let mut f = TopListFetch::new();
    assert_eq!(f.next_url().as_deref(), Some(top_page_url(1).as_str()));
    let page = |ids: &[u64]| -> Vec<ListedAnime> {
        ids.iter().map(|&i| ListedAnime { mal_id: i, title: format!("t{i}"), members: i * 10 }).collect()
    };
    f.page_fetched(&page(&[5, 9]), true);
    assert_eq!(f.next_url().as_deref(), Some(top_page_url(2).as_str()));
    f.page_fetched(&page(&[3]), false);
    assert_eq!(f.next_url(), None);
    let db = f.finish("2025-01-02".to_string());
    let got: Vec<(u64, &str, u64, u32)> =
        db.anime.iter().map(|e| (e.mal_id, e.title.as_str(), e.members, e.popularity_rank)).collect();
    assert_eq!(got, vec![(5, "t5", 50, 1), (9, "t9", 90, 2), (3, "t3", 30, 3)]);
    assert_eq!(db.fetched_at, "2025-01-02");

    let mut g = TopListFetch::new();
    for _ in 0..PAGES_TO_FETCH {
        assert!(g.next_url().is_some());
        g.page_fetched(&page(&[1]), true);
    }
    assert_eq!(g.next_url(), None);
    assert_eq!(g.entries.len(), 40);
    assert_eq!(g.entries[39].popularity_rank, 40);
}
