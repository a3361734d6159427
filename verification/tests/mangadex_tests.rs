use comic_archiver::mangadex::{
    chapter_id, chapter_path, expand_listing, image_list_url, image_urls, listing_url,
    manga_address, order_entries, site_origin, ChapterEntry, ListedChapter, ListedVolume,
    IMAGE_TIMEOUT_SECS,
};

fn listed(chapter: &str, id: &str, others: &[&str]) -> ListedChapter {
    ListedChapter {
        chapter: chapter.to_string(),
        id: id.to_string(),
        others: others.iter().map(|o| o.to_string()).collect(),
    }
}

fn entry(url: &str, volume: &str, chapter: &str) -> ChapterEntry {
    ChapterEntry { url: url.to_string(), volume: volume.to_string(), chapter: chapter.to_string() }
}

fn triples(entries: &[ChapterEntry]) -> Vec<(String, String, String)> {
    entries.iter().map(|e| (e.url.clone(), e.volume.clone(), e.chapter.clone())).collect()
}

#[test]
fn site_values() {
    assert_eq!(site_origin(), "https://mangadex.org");
    assert_eq!(IMAGE_TIMEOUT_SECS, 5);
}

#[test]
fn id_and_name_are_the_last_two_parts_of_the_address() {
    let address = manga_address("https://mangadex.org/title/65f8c566-acc9/some-name").unwrap();
    assert_eq!(address.comic_id, "65f8c566-acc9");
    assert_eq!(address.comic_name, "some-name");
    let address = manga_address("a/").unwrap();
    assert_eq!((address.comic_id.as_str(), address.comic_name.as_str()), ("a", ""));
}

#[test]
fn address_without_slash_has_no_id() {
    assert!(manga_address("no slash").is_none());
    assert!(manga_address("").is_none());
}

#[test]
fn addresses_to_ask() {
    assert_eq!(
        listing_url("65f8c566"),
        "https://api.mangadex.org/manga/65f8c566/aggregate?translatedLanguage[]=en"
    );
    assert_eq!(
        image_list_url("0b62b078"),
        "https://api.mangadex.org/at-home/server/0b62b078?forcePort443=false"
    );
}

#[test]
fn listing_is_expanded_with_other_releases() {
    let volumes = vec![
        ListedVolume {
            volume: "1".to_string(),
            chapters: vec![listed("2", "id-a", &["id-b", "id-c"]), listed("1", "id-d", &[])],
        },
        ListedVolume { volume: "none".to_string(), chapters: vec![] },
        ListedVolume { volume: "2".to_string(), chapters: vec![listed("3", "id-e", &["id-f"])] },
    ];
    let entries = expand_listing(&volumes);
    let expected = vec![
        entry("https://mangadex.org/chapter/id-a/2", "1", "2"),
        entry("https://mangadex.org/chapter/id-b/2", "1", "2_other_0"),
        entry("https://mangadex.org/chapter/id-c/2", "1", "2_other_1"),
        entry("https://mangadex.org/chapter/id-d/1", "1", "1"),
        entry("https://mangadex.org/chapter/id-e/3", "2", "3"),
        entry("https://mangadex.org/chapter/id-f/3", "2", "3_other_0"),
    ];
    assert_eq!(triples(&entries), triples(&expected));
    assert!(expand_listing(&vec![]).is_empty());
}

#[test]
fn entries_are_ordered_by_volume_then_chapter() {
    let entries = vec![
        entry("u1", "2", "11"),
        entry("u2", "1", "9"),
        entry("u3", "10", "1"),
        entry("u4", "1", "10"),
        entry("u5", "2", "3"),
    ];
    let ordered = order_entries(&entries);
    let urls: Vec<&str> = ordered.iter().map(|e| e.url.as_str()).collect();
    assert_eq!(urls, vec!["u2", "u4", "u5", "u1", "u3"]);
    assert_eq!(ordered[0].volume, "1");
    assert_eq!(ordered[0].chapter, "9");
}

#[test]
fn what_writes_no_number_counts_as_zero_and_keeps_its_place() {
    let entries = vec![
        entry("u1", "1", "10.5"),
        entry("u2", "none", "4"),
        entry("u3", "1", "2_other_0"),
        entry("u4", "1", "0"),
        entry("u5", "1", "-3"),
        entry("u6", "-1", "100"),
        entry("u7", "1", "2"),
    ];
    let ordered = order_entries(&entries);
    let urls: Vec<&str> = ordered.iter().map(|e| e.url.as_str()).collect();
    assert_eq!(urls, vec!["u6", "u2", "u5", "u1", "u3", "u4", "u7"]);
}

#[test]
fn order_of_entries_agrees_with_a_stable_sort_of_pairs() {
    let numbers = ["-2147483648", "2147483647", "0", "x", "-1", "1", "2147483648", "+7"];
    let mut entries = Vec::new();
    for (i, volume) in numbers.iter().enumerate() {
        for (j, chapter) in numbers.iter().enumerate() {
            entries.push(entry(&format!("{}-{}", i, j), volume, chapter));
        }
    }
    let mut expected = triples(&entries);
    expected.sort_by_key(|(_, volume, chapter)| {
        (volume.parse::<i32>().unwrap_or_default(), chapter.parse::<i32>().unwrap_or_default())
    });
    assert_eq!(triples(&order_entries(&entries)), expected);
}

#[test]
fn chapter_id_is_read_from_the_address_of_the_page() {
    assert_eq!(chapter_id("https://mangadex.org/chapter/0b62b078/2"), "0b62b078");
    assert_eq!(chapter_id("https://mangadex.org/chapter/0b62b078/"), "0b62b078");
    assert_eq!(chapter_id("https://mangadex.org/chapter/0b62b078"), "0b62b078");
    assert_eq!(chapter_id("0b62b078"), "0b62b078");
    assert_eq!(chapter_id(""), "");
}

#[test]
fn image_addresses_are_built_from_server_hash_and_file() {
    let files = vec!["1-3bd7.png".to_string(), "2-0fee.png".to_string()];
    assert_eq!(
        image_urls("https://cmdxd98s.mangadex.network", "3541196e", &files),
        vec![
            "https://cmdxd98s.mangadex.network/data/3541196e/1-3bd7.png",
            "https://cmdxd98s.mangadex.network/data/3541196e/2-0fee.png",
        ]
    );
    assert!(image_urls("b", "h", &vec![]).is_empty());
}

#[test]
fn chapter_is_saved_under_volume_and_chapter() {
    assert_eq!(chapter_path("some-name", "1", "2"), "./some-name/volume1_chapter2");
    assert_eq!(chapter_path("n", "none", "2_other_0"), "./n/volumenone_chapter2_other_0");
}
