//! What is particular to the second site, whose catalog comes as data and
//! not as a page: the addresses to ask, the chapters that a listing holds
//! and their order, and the places where their images are found and saved.
use vstd::prelude::*;
use vstd::string::StringExecFns;
use crate::ordering::{is_stable_order, stable_order};
use crate::text::{decimal, parse_i32, parse_i32_text, push_decimal};
use crate::utils::{lemma_split_is_not_empty, split_string, split_text};

verus! {

/// How long one request for an image of this site may take, in seconds.
pub const IMAGE_TIMEOUT_SECS: u64 = 5;

/// The site root that is sent as referer and origin with every request.
pub fn site_origin() -> (origin: &'static str)
    ensures
        origin@ == "https://mangadex.org"@,
{
    "https://mangadex.org"
}

/// The id and the name of a comic, as the address of its page carries them.
#[derive(Debug)]
pub struct MangaAddress {
    pub comic_id: String,
    pub comic_name: String,
}

/// The last two parts of an address cut at its slashes: id and name of the
/// comic. An address without a slash has none.
pub open spec fn address_parts(url: Seq<char>) -> Option<(Seq<char>, Seq<char>)> {
    let parts = split_text(url, seq!['/']);
    if parts.len() >= 2 {
        Some((parts[parts.len() - 2], parts[parts.len() - 1]))
    } else {
        None
    }
}

/// Reads id and name of a comic from the address of its page.
pub fn manga_address(url: &str) -> (address: Option<MangaAddress>)
    ensures
        match address {
            Some(found) => address_parts(url@) == Some((found.comic_id@, found.comic_name@)),
            None => address_parts(url@) is None,
        },
{
    proof {
        reveal_strlit("/");
        assert("/"@ =~= seq!['/']);
    }
    let parts = split_string(url, "/");
    let n = parts.len();
    if n >= 2 {
        Some(MangaAddress { comic_id: parts[n - 2].clone(), comic_name: parts[n - 1].clone() })
    } else {
        None
    }
}

/// The address at which the listing of a comic's chapters is asked for.
pub fn listing_url(comic_id: &str) -> (url: String)
    ensures
        url@ == "https://api.mangadex.org/manga/"@ + comic_id@
            + "/aggregate?translatedLanguage[]=en"@,
{
    let mut url = String::new();
    url.append("https://api.mangadex.org/manga/");
    url.append(comic_id);
    url.append("/aggregate?translatedLanguage[]=en");
    url
}

/// One chapter as a listing holds it: its number as written, its id, and
/// the ids of other releases of the same chapter.
#[derive(Debug)]
pub struct ListedChapter {
    pub chapter: String,
    pub id: String,
    pub others: Vec<String>,
}

/// One volume as a listing holds it: the key under which it is listed, and
/// its chapters.
#[derive(Debug)]
pub struct ListedVolume {
    pub volume: String,
    pub chapters: Vec<ListedChapter>,
}

/// One chapter to download: the address of its page, and the volume and
/// chapter under which it is saved.
#[derive(Debug)]
pub struct ChapterEntry {
    pub url: String,
    pub volume: String,
    pub chapter: String,
}

impl ChapterEntry {
    /// Address, volume and chapter as texts.
    pub open spec fn texts(self) -> (Seq<char>, Seq<char>, Seq<char>) {
        (self.url@, self.volume@, self.chapter@)
    }
}

/// The texts of each entry.
pub open spec fn entry_texts(entries: Seq<ChapterEntry>) -> Seq<(Seq<char>, Seq<char>, Seq<char>)> {
    Seq::new(entries.len(), |i: int| entries[i].texts())
}

/// The address of the page of a chapter.
pub open spec fn chapter_url_text(id: Seq<char>, chapter: Seq<char>) -> Seq<char> {
    "https://mangadex.org/chapter/"@ + id + "/"@ + chapter
}

/// The entries of one listed chapter in one volume: the chapter itself, then
/// each other release, numbered from 0 and saved as `<chapter>_other_<n>`.
pub open spec fn chapter_entries(volume: Seq<char>, listed: ListedChapter) -> Seq<
    (Seq<char>, Seq<char>, Seq<char>),
> {
    seq![(chapter_url_text(listed.id@, listed.chapter@), volume, listed.chapter@)] + Seq::new(
        listed.others@.len(),
        |n: int|
            (
                chapter_url_text(listed.others@[n]@, listed.chapter@),
                volume,
                listed.chapter@ + "_other_"@ + decimal(n as nat),
            ),
    )
}

/// The entries of the first `count` chapters of a volume.
pub open spec fn volume_entries(listed: ListedVolume, count: int) -> Seq<
    (Seq<char>, Seq<char>, Seq<char>),
>
    decreases count,
{
    if count <= 0 {
        Seq::empty()
    } else {
        volume_entries(listed, count - 1) + chapter_entries(
            listed.volume@,
            listed.chapters@[count - 1],
        )
    }
}

/// The entries of a listing: volume after volume, chapter after chapter,
/// in the order in which the listing holds them.
pub open spec fn listing_entries(volumes: Seq<ListedVolume>) -> Seq<
    (Seq<char>, Seq<char>, Seq<char>),
>
    decreases volumes.len(),
{
    if volumes.len() == 0 {
        Seq::empty()
    } else {
        listing_entries(volumes.drop_last()) + volume_entries(
            volumes.last(),
            volumes.last().chapters@.len() as int,
        )
    }
}

/// Builds the address of the page of a chapter.
fn chapter_url(id: &str, chapter: &str) -> (url: String)
    ensures
        url@ == chapter_url_text(id@, chapter@),
{
    let mut url = String::new();
    url.append("https://mangadex.org/chapter/");
    url.append(id);
    url.append("/");
    url.append(chapter);
    url
}

/// Lists the chapters to download that a listing holds, other releases
/// included.
pub fn expand_listing(volumes: &Vec<ListedVolume>) -> (entries: Vec<ChapterEntry>)
    ensures
        entry_texts(entries@) == listing_entries(volumes@),
{
    let mut entries: Vec<ChapterEntry> = Vec::new();
    let mut v: usize = 0;
    assert(entry_texts(entries@) =~= Seq::empty());
    while v < volumes.len()
        invariant
            v <= volumes.len(),
            entry_texts(entries@) == listing_entries(volumes@.take(v as int)),
        decreases volumes.len() - v,
    {
        let listed = &volumes[v];
        let ghost done = listing_entries(volumes@.take(v as int));
        let mut c: usize = 0;
        assert(done + volume_entries(*listed, 0) =~= done);
        while c < listed.chapters.len()
            invariant
                c <= listed.chapters.len(),
                entry_texts(entries@) == done + volume_entries(*listed, c as int),
            decreases listed.chapters.len() - c,
        {
            let chapter = &listed.chapters[c];
            let ghost before = entry_texts(entries@);
            entries.push(
                ChapterEntry {
                    url: chapter_url(chapter.id.as_str(), chapter.chapter.as_str()),
                    volume: listed.volume.clone(),
                    chapter: chapter.chapter.clone(),
                },
            );
            let ghost wanted = chapter_entries(listed.volume@, *chapter);
            assert(entry_texts(entries@) =~= before + wanted.take(1));
            let mut n: usize = 0;
            while n < chapter.others.len()
                invariant
                    n <= chapter.others.len(),
                    wanted == chapter_entries(listed.volume@, *chapter),
                    entry_texts(entries@) == before + wanted.take(n + 1),
                decreases chapter.others.len() - n,
            {
                let mut name = chapter.chapter.clone();
                name.append("_other_");
                push_decimal(&mut name, n as u64);
                let ghost so_far = entry_texts(entries@);
                entries.push(
                    ChapterEntry {
                        url: chapter_url(chapter.others[n].as_str(), chapter.chapter.as_str()),
                        volume: listed.volume.clone(),
                        chapter: name,
                    },
                );
                assert(entry_texts(entries@) =~= so_far.push(wanted[n + 1]));
                assert(wanted.take(n + 2) =~= wanted.take(n + 1).push(wanted[n + 1]));
                n += 1;
            }
            assert(wanted.take(chapter.others.len() + 1) =~= wanted);
            assert(entry_texts(entries@) =~= done + volume_entries(*listed, c + 1));
            c += 1;
        }
        proof {
            assert(volumes@.take(v + 1).drop_last() =~= volumes@.take(v as int));
            assert(volumes@.take(v + 1).last() == volumes@[v as int]);
        }
        v += 1;
    }
    assert(volumes@.take(volumes.len() as int) =~= volumes@);
    entries
}

/// The number that a text writes, or 0 where it writes none.
pub open spec fn number_or_zero(text: Seq<char>) -> i32 {
    match parse_i32_text(text) {
        Some(number) => number,
        None => 0,
    }
}

/// One key for a pair of numbers, greater for the greater pair: pairs are
/// compared by their first numbers, and by their second where those agree.
pub open spec fn pair_key(first: i32, second: i32) -> u64 {
    ((first + 0x8000_0000) * 0x1_0000_0000 + (second + 0x8000_0000)) as u64
}

/// The keys of pairs are ordered as the pairs are.
pub proof fn lemma_pair_key_orders_pairs(a: i32, b: i32, c: i32, d: i32)
    ensures
        pair_key(a, b) < pair_key(c, d) <==> a < c || (a == c && b < d),
        pair_key(a, b) == pair_key(c, d) <==> a == c && b == d,
{
}

/// The key by which an entry is ordered: its volume, then its chapter, each
/// read as a number and taken as 0 where it writes none.
pub open spec fn entry_key(texts: (Seq<char>, Seq<char>, Seq<char>)) -> u64 {
    pair_key(number_or_zero(texts.1), number_or_zero(texts.2))
}

/// The key of each entry.
pub open spec fn entry_keys(entries: Seq<ChapterEntry>) -> Seq<u64> {
    Seq::new(entries.len(), |i: int| entry_key(entries[i].texts()))
}

/// Computes the key of a pair of numbers.
fn key_of_pair(first: i32, second: i32) -> (key: u64)
    ensures
        key == pair_key(first, second),
{
    let high: u64 = (first as i64 + 0x8000_0000) as u64;
    let low: u64 = (second as i64 + 0x8000_0000) as u64;
    high * 0x1_0000_0000 + low
}

/// Puts the entries in download order: by volume, then by chapter, entries
/// that agree in both in the order in which they stand.
pub fn order_entries(entries: &Vec<ChapterEntry>) -> (ordered: Vec<ChapterEntry>)
    ensures
        exists|order: Seq<usize>| #[trigger]
            is_stable_order(entry_keys(entries@), order) && ordered@.len() == order.len()
                && forall|i: int|
                0 <= i < ordered@.len() ==> (#[trigger] ordered@[i]).texts()
                    == entries@[order[i] as int].texts(),
{
    let mut keys: Vec<u64> = Vec::new();
    let mut i: usize = 0;
    while i < entries.len()
        invariant
            i <= entries.len(),
            keys@ == entry_keys(entries@).take(i as int),
        decreases entries.len() - i,
    {
        let volume = match parse_i32(entries[i].volume.as_str()) {
            Some(number) => number,
            None => 0,
        };
        let chapter = match parse_i32(entries[i].chapter.as_str()) {
            Some(number) => number,
            None => 0,
        };
        keys.push(key_of_pair(volume, chapter));
        assert(keys@ =~= entry_keys(entries@).take(i + 1));
        i += 1;
    }
    assert(entry_keys(entries@).take(entries.len() as int) =~= entry_keys(entries@));
    let order = stable_order(&keys);
    let mut ordered: Vec<ChapterEntry> = Vec::new();
    let mut k: usize = 0;
    while k < order.len()
        invariant
            k <= order.len(),
            is_stable_order(entry_keys(entries@), order@),
            ordered@.len() == k,
            forall|i: int|
                0 <= i < k ==> (#[trigger] ordered@[i]).texts() == entries@[order@[i] as int].texts(),
        decreases order.len() - k,
    {
        let from = &entries[order[k]];
        ordered.push(
            ChapterEntry {
                url: from.url.clone(),
                volume: from.volume.clone(),
                chapter: from.chapter.clone(),
            },
        );
        k += 1;
    }
    ordered
}

/// The id in the address of a chapter's page: the part before the last one
/// where the address has more than five parts between its slashes, and the
/// last part where it has fewer.
pub open spec fn chapter_id_text(chapter_url: Seq<char>) -> Seq<char> {
    let parts = split_text(chapter_url, seq!['/']);
    if parts.len() > 5 {
        parts[parts.len() - 2]
    } else {
        parts[parts.len() - 1]
    }
}

/// Reads the id of a chapter from the address of its page.
pub fn chapter_id(chapter_url: &str) -> (id: String)
    ensures
        id@ == chapter_id_text(chapter_url@),
{
    proof {
        reveal_strlit("/");
        assert("/"@ =~= seq!['/']);
        lemma_split_is_not_empty(chapter_url@, seq!['/']);
    }
    let parts = split_string(chapter_url, "/");
    let n = parts.len();
    if n > 5 {
        parts[n - 2].clone()
    } else {
        parts[n - 1].clone()
    }
}

/// The address at which the list of a chapter's images is asked for.
pub fn image_list_url(chapter_id: &str) -> (url: String)
    ensures
        url@ == "https://api.mangadex.org/at-home/server/"@ + chapter_id@
            + "?forcePort443=false"@,
{
    let mut url = String::new();
    url.append("https://api.mangadex.org/at-home/server/");
    url.append(chapter_id);
    url.append("?forcePort443=false");
    url
}

/// The address of each image of a chapter, given the server, the chapter's
/// hash and the names of the image files.
pub fn image_urls(base_url: &str, hash: &str, files: &Vec<String>) -> (urls: Vec<String>)
    ensures
        urls@.len() == files@.len(),
        forall|i: int|
            0 <= i < urls@.len() ==> (#[trigger] urls@[i])@ == base_url@ + "/data/"@ + hash@ + "/"@
                + files@[i]@,
{
    let mut urls: Vec<String> = Vec::new();
    let mut i: usize = 0;
    while i < files.len()
        invariant
            i <= files.len(),
            urls@.len() == i,
            forall|j: int|
                0 <= j < i ==> (#[trigger] urls@[j])@ == base_url@ + "/data/"@ + hash@ + "/"@
                    + files@[j]@,
        decreases files.len() - i,
    {
        let mut url = String::new();
        url.append(base_url);
        url.append("/data/");
        url.append(hash);
        url.append("/");
        url.append(files[i].as_str());
        urls.push(url);
        i += 1;
    }
    urls
}

/// The directory in which a chapter is saved.
pub fn chapter_path(comic_name: &str, volume: &str, chapter: &str) -> (path: String)
    ensures
        path@ == "./"@ + comic_name@ + "/volume"@ + volume@ + "_chapter"@ + chapter@,
{
    let mut path = String::new();
    path.append("./");
    path.append(comic_name);
    path.append("/volume");
    path.append(volume);
    path.append("_chapter");
    path.append(chapter);
    path
}

} // verus!
