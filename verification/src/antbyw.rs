//! What is particular to the catalog site: how its URLs carry the ids of a
//! comic and of a chapter, how its chapter links are completed, and the names
//! under which pages, caches and chapters are kept on disk.
use vstd::prelude::*;
use vstd::string::StringExecFns;
use crate::dl_type::DlType;
use crate::utils::join_texts;
use crate::text::{
    chars_of, contains, contains_text, decimal, parse_i32, parse_i32_text, push_decimal,
    push_signed_decimal, push_underscored, signed_decimal, string_of, underscored,
};

verus! {

/// The key-value pairs that `serde_urlencoded::from_str` reads from a
/// form-encoded text, in the order in which the text holds them; `None`
/// where it reports an error.
pub uninterp spec fn form_pairs(input: Seq<char>) -> Option<Seq<(Seq<char>, Seq<char>)>>;

/// Calls `serde_urlencoded::from_str` to read `input` as a list of key-value
/// pairs. The contract claims no more than that the answer depends on the
/// text alone: it is `form_pairs` of the text.
#[verifier::external_body]
fn read_form_pairs(input: &str) -> (pairs: Option<Vec<(String, String)>>)
    ensures
        match pairs {
            Some(list) => form_pairs(input@) == Some(list.deep_view()),
            None => form_pairs(input@) is None,
        },
{
    match serde_urlencoded::from_str::<Vec<(String, String)>>(input) {
        Ok(list) => Some(list),
        Err(_) => None,
    }
}

/// The values of the pairs whose key is `key`, in order.
pub open spec fn values_of(pairs: Seq<(Seq<char>, Seq<char>)>, key: Seq<char>) -> Seq<Seq<char>>
    decreases pairs.len(),
{
    if pairs.len() == 0 {
        Seq::empty()
    } else if pairs.last().0 == key {
        values_of(pairs.drop_last(), key).push(pairs.last().1)
    } else {
        values_of(pairs.drop_last(), key)
    }
}

/// The integer that the pairs give for `key`: the key must stand in exactly
/// one pair, and that pair's value must write an `i32`.
pub open spec fn integer_field(pairs: Seq<(Seq<char>, Seq<char>)>, key: Seq<char>) -> Option<i32> {
    let values = values_of(pairs, key);
    if values.len() == 1 {
        parse_i32_text(values[0])
    } else {
        None
    }
}

/// Reads the integer that the pairs give for `key`.
pub fn read_integer_field(pairs: &Vec<(String, String)>, key: &str) -> (value: Option<i32>)
    ensures
        value == integer_field(pairs.deep_view(), key@),
{
    let wanted = key.to_owned();
    let mut found: Option<usize> = None;
    let mut count: usize = 0;
    let mut i: usize = 0;
    let ghost all = pairs.deep_view();
    while i < pairs.len()
        invariant
            i <= pairs.len(),
            all == pairs.deep_view(),
            wanted@ == key@,
            count <= i,
            count == values_of(all.take(i as int), key@).len(),
            count >= 1 ==> found is Some,
            found matches Some(at) ==> at < i && values_of(all.take(i as int), key@)[0]
                == all[at as int].1,
        decreases pairs.len() - i,
    {
        proof {
            assert(all.take(i + 1).drop_last() =~= all.take(i as int));
            assert(all.take(i + 1).last() == all[i as int]);
        }
        if pairs[i].0 == wanted {
            if count == 0 {
                found = Some(i);
            }
            count += 1;
        }
        i += 1;
    }
    assert(all.take(pairs.len() as int) =~= all);
    match found {
        Some(at) => if count == 1 {
            parse_i32(pairs[at].1.as_str())
        } else {
            None
        },
        None => None,
    }
}

/// The id of a comic, as the URL of its catalog page carries it.
#[derive(Debug)]
pub struct UrlQueryParams {
    pub kuid: i32,
}

/// The ids of a comic and of one of its chapters, as the URL of the chapter
/// page carries them.
#[derive(Debug)]
pub struct UrlQueryParams2 {
    pub kuid: i32,
    pub zjid: i32,
}

impl UrlQueryParams {
    /// What the pairs give: the field `kuid`.
    pub open spec fn of_pairs(pairs: Seq<(Seq<char>, Seq<char>)>) -> Option<UrlQueryParams> {
        match integer_field(pairs, "kuid"@) {
            Some(kuid) => Some(UrlQueryParams { kuid }),
            None => None,
        }
    }

    /// Picks the comic's id out of the pairs of a URL.
    pub fn from_pairs(pairs: &Vec<(String, String)>) -> (params: Option<UrlQueryParams>)
        ensures
            params == UrlQueryParams::of_pairs(pairs.deep_view()),
    {
        match read_integer_field(pairs, "kuid") {
            Some(kuid) => Some(UrlQueryParams { kuid }),
            None => None,
        }
    }

    /// Reads the comic's id from the URL of a catalog page. The whole URL is
    /// read as form-encoded text, so the field must not be the first one
    /// after the `?`.
    pub fn from_url(url: &str) -> (params: Option<UrlQueryParams>)
        ensures
            params == match form_pairs(url@) {
                Some(pairs) => UrlQueryParams::of_pairs(pairs),
                None => None,
            },
    {
        match read_form_pairs(url) {
            Some(pairs) => UrlQueryParams::from_pairs(&pairs),
            None => None,
        }
    }
}

impl UrlQueryParams2 {
    /// What the pairs give: the fields `kuid` and `zjid`.
    pub open spec fn of_pairs(pairs: Seq<(Seq<char>, Seq<char>)>) -> Option<UrlQueryParams2> {
        match (integer_field(pairs, "kuid"@), integer_field(pairs, "zjid"@)) {
            (Some(kuid), Some(zjid)) => Some(UrlQueryParams2 { kuid, zjid }),
            _ => None,
        }
    }

    /// Picks the ids of comic and chapter out of the pairs of a URL.
    pub fn from_pairs(pairs: &Vec<(String, String)>) -> (params: Option<UrlQueryParams2>)
        ensures
            params == UrlQueryParams2::of_pairs(pairs.deep_view()),
    {
        match read_integer_field(pairs, "kuid") {
            Some(kuid) => match read_integer_field(pairs, "zjid") {
                Some(zjid) => Some(UrlQueryParams2 { kuid, zjid }),
                None => None,
            },
            None => None,
        }
    }

    /// Reads the ids of comic and chapter from the URL of a chapter page.
    pub fn from_url(url: &str) -> (params: Option<UrlQueryParams2>)
        ensures
            params == match form_pairs(url@) {
                Some(pairs) => UrlQueryParams2::of_pairs(pairs),
                None => None,
            },
    {
        match read_form_pairs(url) {
            Some(pairs) => UrlQueryParams2::from_pairs(&pairs),
            None => None,
        }
    }
}

/// Whether the URL belongs to the one site whose catalogs are understood.
pub fn is_supported_site(url: &str) -> (supported: bool)
    ensures
        supported == contains_text(url@, "https://www.antbyw.com/"@),
{
    contains(url, "https://www.antbyw.com/")
}

/// The absolute URL of a chapter page, made from the link that the catalog
/// page holds: the link's first character is dropped and the site's root put
/// in front of the rest.
pub fn complete_chapter_url(link: &str) -> (url: String)
    requires
        link@.len() > 0,
    ensures
        url@ == "https://www.antbyw.com"@ + link@.skip(1),
{
    let chars = chars_of(link);
    let rest = string_of(&chars, 1, chars.len());
    assert(chars@.subrange(1, chars.len() as int) =~= link@.skip(1));
    let mut url = String::new();
    url.append("https://www.antbyw.com");
    url.append(rest.as_str());
    url
}

/// The name of a comic as it is used in file names: the name that the page
/// shows, with every space turned into an underscore.
pub fn comic_name_for_files(shown: &str) -> (name: String)
    ensures
        name@ == underscored(shown@),
{
    let mut name = String::new();
    push_underscored(&mut name, shown);
    name
}

/// The file in which the catalog page of a comic is kept.
pub fn catalog_page_file(kuid: i32) -> (file: String)
    ensures
        file@ == "./_cache/"@ + signed_decimal(kuid as int) + ".cachehtml"@,
{
    let mut file = String::new();
    file.append("./_cache/");
    push_signed_decimal(&mut file, kuid);
    file.append(".cachehtml");
    file
}

/// The file in which the page of one chapter is kept.
pub fn chapter_page_file(params: &UrlQueryParams2, chapter_name: &str) -> (file: String)
    ensures
        file@ == "./_cache/"@ + signed_decimal(params.kuid as int) + "_"@ + signed_decimal(
            params.zjid as int,
        ) + "_"@ + chapter_name@ + ".cachehtml"@,
{
    let mut file = String::new();
    file.append("./_cache/");
    push_signed_decimal(&mut file, params.kuid);
    file.append("_");
    push_signed_decimal(&mut file, params.zjid);
    file.append("_");
    file.append(chapter_name);
    file.append(".cachehtml");
    file
}

/// The directory under which one part of a comic is saved, with every space
/// turned into an underscore.
pub fn comic_root_dir(comic_name: &str, dl_type: DlType) -> (dir: String)
    ensures
        dir@ == underscored("./"@ + comic_name@ + "_"@ + dl_type.section_title_text()),
{
    let mut plain = String::new();
    plain.append("./");
    plain.append(comic_name);
    plain.append("_");
    plain.append(dl_type.section_title());
    let mut dir = String::new();
    push_underscored(&mut dir, plain.as_str());
    dir
}

/// The file in which the completion cache of one part of a comic is stored,
/// with every space turned into an underscore.
pub fn cache_file(kuid: i32, comic_name: &str, dl_type: DlType) -> (file: String)
    ensures
        file@ == underscored(
            "./_cache/"@ + signed_decimal(kuid as int) + "_"@ + comic_name@ + "_cache_"@
                + dl_type.cache_kind_text() + ".json"@,
        ),
{
    let mut plain = String::new();
    plain.append("./_cache/");
    push_signed_decimal(&mut plain, kuid);
    plain.append("_");
    plain.append(comic_name);
    plain.append("_cache_");
    plain.append(dl_type.cache_kind());
    plain.append(".json");
    let mut file = String::new();
    push_underscored(&mut file, plain.as_str());
    file
}

/// The directory in which one chapter is saved. It is also the key under
/// which the completion cache remembers the chapter.
pub fn chapter_dir(comic_name: &str, dl_type: DlType, chapter_name: &str) -> (dir: String)
    ensures
        dir@ == "./"@ + comic_name@ + "_"@ + dl_type.section_title_text() + "/"@ + chapter_name@,
{
    let mut dir = String::new();
    dir.append("./");
    dir.append(comic_name);
    dir.append("_");
    dir.append(dl_type.section_title());
    dir.append("/");
    dir.append(chapter_name);
    dir
}

/// What came of fetching the images of one chapter.
#[derive(Debug)]
pub struct DownImgRes {
    /// The indices of the images that failed, in ascending order.
    pub temp_errors: Vec<usize>,
    /// The name of the chapter.
    pub current_chapter_name: String,
}

/// The report on one chapter.
#[derive(Debug)]
pub struct DownLoadImgRes {
    /// The indices of the images that failed, in ascending order.
    pub errors: Vec<usize>,
    /// The number of images that the chapter page reports, as the page
    /// writes it; empty where the page reports none.
    pub image_count: String,
    /// The name of the chapter.
    pub current_chapter_name: String,
}

impl Default for DownLoadImgRes {
    fn default() -> (report: DownLoadImgRes)
        ensures
            report.errors@ == Seq::<usize>::empty(),
            report.image_count@ == Seq::<char>::empty(),
            report.current_chapter_name@ == Seq::<char>::empty(),
    {
        DownLoadImgRes {
            errors: Vec::new(),
            image_count: String::new(),
            current_chapter_name: String::new(),
        }
    }
}

impl DownLoadImgRes {
    /// The report on a chapter, made of what came of fetching its images and
    /// of the image count that its page reports, if it reports one.
    pub fn new(fetched: DownImgRes, reported_count: Option<String>) -> (report: DownLoadImgRes)
        ensures
            report.errors@ == fetched.temp_errors@,
            report.current_chapter_name@ == fetched.current_chapter_name@,
            report.image_count@ == match reported_count {
                Some(count) => count@,
                None => Seq::<char>::empty(),
            },
    {
        DownLoadImgRes {
            errors: fetched.temp_errors,
            image_count: match reported_count {
                Some(count) => count,
                None => String::new(),
            },
            current_chapter_name: fetched.current_chapter_name,
        }
    }

    /// Whether every image of the chapter was saved.
    pub fn is_clean(&self) -> (clean: bool)
        ensures
            clean == (self.errors@.len() == 0),
    {
        self.errors.len() == 0
    }
}

/// The selector of the image elements of a chapter page.
pub fn chapter_image_selector() -> (selector: &'static str)
    ensures
        selector@ == ".uk-zjimg img"@,
{
    ".uk-zjimg img"
}

/// The attribute of an image element that holds the image's URL.
pub fn chapter_image_attribute() -> (attribute: &'static str)
    ensures
        attribute@ == "data-src"@,
{
    "data-src"
}

/// The directory into which the images of a chapter are downloaded, given
/// the place that was asked for.
pub fn download_dir(place: &str) -> (dir: String)
    ensures
        dir@ == "./"@ + place@,
{
    let mut dir = String::new();
    dir.append("./");
    dir.append(place);
    dir
}

/// The indices written in decimal, with `, ` between neighbours.
pub open spec fn indices_text(indices: Seq<usize>) -> Seq<char> {
    join_texts(indices.map_values(|index: usize| decimal(index as nat)), ", "@)
}

/// Writes the indices of failed images as a list for a person to read.
pub fn failed_indices_text(indices: &Vec<usize>) -> (text: String)
    ensures
        text@ == indices_text(indices@),
{
    let mut text = String::new();
    let mut i: usize = 0;
    while i < indices.len()
        invariant
            i <= indices.len(),
            text@ == indices_text(indices@.take(i as int)),
        decreases indices.len() - i,
    {
        if i > 0 {
            text.append(", ");
        }
        push_decimal(&mut text, indices[i] as u64);
        proof {
            let written = indices@.take(i + 1).map_values(|index: usize| decimal(index as nat));
            assert(written.drop_last() =~= indices@.take(i as int).map_values(
                |index: usize| decimal(index as nat),
            ));
            assert(written.last() == decimal(indices@[i as int] as nat));
        }
        i += 1;
    }
    assert(indices@.take(indices.len() as int) =~= indices@);
    text
}

/// The line that reports a chapter with failed images: its place in the
/// list of such chapters, its name, the image count that its page reported,
/// and the indices of the failed images.
pub fn failure_line(position: usize, report: &DownLoadImgRes) -> (line: String)
    ensures
        line@ == "num "@ + decimal(position as nat) + " "@ + report.current_chapter_name@ + " "@
            + report.image_count@ + " error img index is: "@ + indices_text(report.errors@),
{
    let mut line = String::new();
    line.append("num ");
    push_decimal(&mut line, position as u64);
    line.append(" ");
    line.append(report.current_chapter_name.as_str());
    line.append(" ");
    line.append(report.image_count.as_str());
    line.append(" error img index is: ");
    let list = failed_indices_text(&report.errors);
    line.append(list.as_str());
    line
}

} // verus!
