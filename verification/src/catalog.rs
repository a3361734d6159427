//! The catalog resolver: from what a catalog page lists to the chapters of a
//! comic in the order in which they are to be downloaded.
use vstd::prelude::*;
use crate::ordering::{
    comes_before, is_stable_order, lemma_stable_order_is_unique, stable_order,
};
use crate::text::{digits_value, push_underscored, underscored};
use crate::utils::{checked_extract_number, extract_number};

verus! {

/// One unit of a comic: an episode, a volume or an extra.
#[derive(Debug)]
pub struct Chapter {
    /// The name under which the catalog page lists the chapter.
    pub label: String,
    /// Where the chapter's page is found.
    pub source_url: String,
    /// The key by which the chapter is ordered among the others.
    pub sequence_index: u64,
}

/// Why a catalog page could not be resolved.
#[derive(Debug, Clone, Copy, PartialEq, Eq, Structural)]
pub enum CatalogError {
    /// The page does not show the name of a comic.
    NotFound,
    /// The page has no section for the part of the comic that was asked for.
    ScopeAbsent,
}

/// A comic and its chapters in download order.
#[derive(Debug)]
pub struct Catalog {
    /// The comic's name as it is used in file names.
    pub comic_name: String,
    /// The chapters, by ascending key; chapters with equal keys in the order
    /// in which the page lists them.
    pub chapters: Vec<Chapter>,
}

/// The chapters are the links taken in the given order, each with its key.
pub open spec fn lists_in_order(
    links: Seq<(Seq<char>, Seq<char>)>,
    keys: Seq<u64>,
    order: Seq<usize>,
    chapters: Seq<Chapter>,
) -> bool {
    &&& chapters.len() == order.len()
    &&& forall|i: int|
        0 <= i < chapters.len() ==> {
            let from = order[i] as int;
            &&& (#[trigger] chapters[i]).label@ == links[from].0
            &&& chapters[i].source_url@ == links[from].1
            &&& chapters[i].sequence_index == keys[from]
        }
}

/// The chapters are the links in the stable order of the keys: every link
/// once, by ascending key, links with equal keys as the page lists them.
pub open spec fn is_resolved(
    links: Seq<(Seq<char>, Seq<char>)>,
    keys: Seq<u64>,
    chapters: Seq<Chapter>,
) -> bool {
    exists|order: Seq<usize>| #[trigger]
        is_stable_order(keys, order) && lists_in_order(links, keys, order, chapters)
}

/// Resolved chapters stand by ascending key.
pub proof fn lemma_resolved_is_ascending(
    links: Seq<(Seq<char>, Seq<char>)>,
    keys: Seq<u64>,
    chapters: Seq<Chapter>,
)
    requires
        is_resolved(links, keys, chapters),
    ensures
        chapters.len() == keys.len(),
        forall|i: int, j: int|
            0 <= i < j < chapters.len() ==> (#[trigger] chapters[i]).sequence_index <= (
            #[trigger] chapters[j]).sequence_index,
{
    let order = choose|order: Seq<usize>| #[trigger]
        is_stable_order(keys, order) && lists_in_order(links, keys, order, chapters);
    assert forall|i: int, j: int| 0 <= i < j < chapters.len() implies (#[trigger] chapters[i]).sequence_index
        <= (#[trigger] chapters[j]).sequence_index by {
        assert(comes_before(keys, order[i] as int, order[j] as int));
    }
}

/// Links and keys have only one resolution: two lists of chapters that
/// both resolve them agree in every label, address and key.
pub proof fn lemma_resolution_is_unique(
    links: Seq<(Seq<char>, Seq<char>)>,
    keys: Seq<u64>,
    a: Seq<Chapter>,
    b: Seq<Chapter>,
)
    requires
        is_resolved(links, keys, a),
        is_resolved(links, keys, b),
    ensures
        a.len() == b.len(),
        forall|i: int|
            0 <= i < a.len() ==> {
                &&& (#[trigger] a[i]).label@ == b[i].label@
                &&& a[i].source_url@ == b[i].source_url@
                &&& a[i].sequence_index == b[i].sequence_index
            },
{
    let order_a = choose|order: Seq<usize>| #[trigger]
        is_stable_order(keys, order) && lists_in_order(links, keys, order, a);
    let order_b = choose|order: Seq<usize>| #[trigger]
        is_stable_order(keys, order) && lists_in_order(links, keys, order, b);
    lemma_stable_order_is_unique(keys, order_a, order_b);
    assert forall|i: int| 0 <= i < a.len() implies {
        &&& (#[trigger] a[i]).label@ == b[i].label@
        &&& a[i].source_url@ == b[i].source_url@
        &&& a[i].sequence_index == b[i].sequence_index
    } by {
        assert(b[i].label@ == links[order_b[i] as int].0);
    }
}

/// The key of each link: the number embedded in its label.
pub open spec fn label_keys(links: Seq<(Seq<char>, Seq<char>)>) -> Seq<u64> {
    Seq::new(links.len(), |i: int| digits_value(links[i].0) as u64)
}

/// Every label's embedded number fits in a `usize`.
pub open spec fn labels_fit(links: Seq<(Seq<char>, Seq<char>)>) -> bool {
    forall|i: int| 0 <= i < links.len() ==> digits_value((#[trigger] links[i]).0) <= usize::MAX
}

/// Tests whether every label's embedded number fits in a `usize`, which is
/// what `resolve` asks of its links.
pub fn check_labels_fit(links: &Vec<(String, String)>) -> (fit: bool)
    ensures
        fit == labels_fit(links.deep_view()),
{
    let mut i: usize = 0;
    while i < links.len()
        invariant
            i <= links.len(),
            forall|j: int| 0 <= j < i ==> digits_value((#[trigger] links.deep_view()[j]).0) <= usize::MAX,
        decreases links.len() - i,
    {
        if checked_extract_number(links[i].0.as_str()).is_none() {
            assert(digits_value(links.deep_view()[i as int].0) > usize::MAX);
            return false;
        }
        i += 1;
    }
    true
}

/// Puts the links of a catalog page in the stable order of the given keys,
/// one key for each link. The keys may come from any reading of the labels.
pub fn order_chapters(links: &Vec<(String, String)>, keys: &Vec<u64>) -> (chapters: Vec<Chapter>)
    requires
        keys.len() == links.len(),
    ensures
        is_resolved(links.deep_view(), keys@, chapters@),
{
    let order = stable_order(keys);
    let mut chapters: Vec<Chapter> = Vec::new();
    let mut i: usize = 0;
    while i < order.len()
        invariant
            i <= order.len(),
            keys.len() == links.len(),
            is_stable_order(keys@, order@),
            lists_in_order(links.deep_view(), keys@, order@.take(i as int), chapters@),
        decreases order.len() - i,
    {
        let from = order[i];
        let chapter = Chapter {
            label: links[from].0.clone(),
            source_url: links[from].1.clone(),
            sequence_index: keys[from],
        };
        let ghost before = chapters@;
        chapters.push(chapter);
        proof {
            assert forall|j: int| 0 <= j < chapters@.len() implies {
                let at = order@.take(i + 1)[j] as int;
                &&& (#[trigger] chapters@[j]).label@ == links.deep_view()[at].0
                &&& chapters@[j].source_url@ == links.deep_view()[at].1
                &&& chapters@[j].sequence_index == keys@[at]
            } by {
                if j < i {
                    assert(chapters@[j] == before[j]);
                    assert(order@.take(i + 1)[j] == order@.take(i as int)[j]);
                }
            }
        }
        i += 1;
    }
    assert(order@.take(order.len() as int) =~= order@);
    chapters
}

/// Resolves a catalog page: the name that the page shows for the comic, if
/// it shows one, and the links `(label, url)` of the section that was asked
/// for, if the page has that section. The chapters come out ordered by the
/// number embedded in each label, a label without digits counting as 0.
pub fn resolve(display_name: Option<&str>, links: Option<Vec<(String, String)>>) -> (resolved: Result<
    Catalog,
    CatalogError,
>)
    requires
        links matches Some(list) ==> labels_fit(list.deep_view()),
    ensures
        match resolved {
            Ok(catalog) => {
                &&& display_name matches Some(name)
                &&& links matches Some(list)
                &&& catalog.comic_name@ == underscored(name@)
                &&& is_resolved(list.deep_view(), label_keys(list.deep_view()), catalog.chapters@)
            },
            Err(CatalogError::NotFound) => display_name is None,
            Err(CatalogError::ScopeAbsent) => display_name is Some && links is None,
        },
{
    let name = match display_name {
        Some(name) => name,
        None => {
            return Err(CatalogError::NotFound);
        },
    };
    let list = match links {
        Some(list) => list,
        None => {
            return Err(CatalogError::ScopeAbsent);
        },
    };
    let mut keys: Vec<u64> = Vec::new();
    let mut i: usize = 0;
    while i < list.len()
        invariant
            i <= list.len(),
            labels_fit(list.deep_view()),
            keys@ == label_keys(list.deep_view()).take(i as int),
        decreases list.len() - i,
    {
        assert(digits_value(list.deep_view()[i as int].0) <= usize::MAX);
        let key = extract_number(list[i].0.as_str());
        keys.push(key as u64);
        assert(keys@ =~= label_keys(list.deep_view()).take(i + 1));
        i += 1;
    }
    assert(label_keys(list.deep_view()).take(list.len() as int) =~= label_keys(list.deep_view()));
    let chapters = order_chapters(&list, &keys);
    let mut comic_name = String::new();
    push_underscored(&mut comic_name, name);
    Ok(Catalog { comic_name, chapters })
}

} // verus!
