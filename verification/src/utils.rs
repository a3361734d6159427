//! Small text utilities: splitting and joining, numbers embedded in labels,
//! file names and URL hosts.
use vstd::prelude::*;
use vstd::string::StringExecFns;
use crate::text::{
    chars_of, digits_value, find_last, first_occurrence, is_first_occurrence, last_index_of,
    lemma_digits_value_grows, lemma_first_occurrence_exists, lemma_first_occurrence_is,
    occurs_at, occurs_at_index, string_of, text_is,
};

verus! {

/// The pieces of `text` between successive occurrences of `delimiter`, found
/// from left to right without overlap. An empty delimiter matches at every
/// position, the two ends included, so each character becomes a piece of its
/// own between two empty pieces.
pub open spec fn split_text(text: Seq<char>, delimiter: Seq<char>) -> Seq<Seq<char>>
    decreases text.len(),
    via split_text_terminates
{
    if delimiter.len() == 0 {
        seq![Seq::<char>::empty()] + text.map_values(|c: char| seq![c]) + seq![Seq::<char>::empty()]
    } else {
        match first_occurrence(text, delimiter) {
            Some(at) => seq![text.take(at)] + split_text(text.skip(at + delimiter.len()), delimiter),
            None => seq![text],
        }
    }
}

#[via_fn]
proof fn split_text_terminates(text: Seq<char>, delimiter: Seq<char>) {
    if delimiter.len() > 0 && first_occurrence(text, delimiter) is Some {
        let witness = choose|at: int| occurs_at(text, delimiter, at);
        lemma_first_occurrence_exists(text, delimiter, witness);
    }
}

/// Splitting gives at least one piece.
pub proof fn lemma_split_is_not_empty(text: Seq<char>, delimiter: Seq<char>)
    ensures
        split_text(text, delimiter).len() >= 1,
{
}

/// An occurrence in a suffix is an occurrence in the whole text, shifted.
proof fn lemma_occurs_in_suffix(text: Seq<char>, pattern: Seq<char>, start: int, at: int)
    requires
        0 <= start <= text.len(),
        0 <= at,
    ensures
        occurs_at(text.skip(start), pattern, at) == occurs_at(text, pattern, start + at),
{
    if at + pattern.len() <= text.len() - start {
        assert(text.skip(start).subrange(at, at + pattern.len()) =~= text.subrange(
            start + at,
            start + at + pattern.len(),
        ));
    }
}

/// Splits `input` at every occurrence of `delimiter`.
pub fn split_string(input: &str, delimiter: &str) -> (pieces: Vec<String>)
    ensures
        pieces.deep_view() == split_text(input@, delimiter@),
{
    let text = chars_of(input);
    let pattern = chars_of(delimiter);
    let n = text.len();
    let m = pattern.len();
    let mut pieces: Vec<String> = Vec::new();
    if m == 0 {
        pieces.push(String::new());
        let mut i: usize = 0;
        while i < n
            invariant
                i <= n,
                n == text.len(),
                pieces.deep_view() == seq![Seq::<char>::empty()] + text@.take(i as int).map_values(
                    |c: char| seq![c],
                ),
            decreases n - i,
        {
            let piece = string_of(&text, i, i + 1);
            let ghost before = pieces.deep_view();
            pieces.push(piece);
            proof {
                assert(pieces.deep_view() =~= before.push(piece@));
                assert(piece@ =~= seq![text@[i as int]]);
                assert(text@.take(i + 1).map_values(|c: char| seq![c]) =~= text@.take(
                    i as int,
                ).map_values(|c: char| seq![c]).push(seq![text@[i as int]]));
            }
            i += 1;
        }
        pieces.push(String::new());
        assert(text@.take(n as int) =~= text@);
        assert(pieces.deep_view() =~= split_text(input@, delimiter@));
        return pieces;
    }
    let mut start: usize = 0;
    let mut i: usize = 0;
    assert(text@.skip(0) =~= text@);
    assert(pieces.deep_view() =~= Seq::<Seq<char>>::empty());
    while i < n && m <= n - i
        invariant
            start <= i <= n,
            n == text.len(),
            m == pattern.len(),
            m > 0,
            forall|j: int| start <= j < i ==> !occurs_at(text@, pattern@, j),
            split_text(text@, pattern@) == pieces.deep_view() + split_text(
                text@.skip(start as int),
                pattern@,
            ),
        decreases n - i,
    {
        if occurs_at_index(&text, &pattern, i) {
            let piece = string_of(&text, start, i);
            proof {
                let rest = text@.skip(start as int);
                assert(is_first_occurrence(rest, pattern@, i - start)) by {
                    lemma_occurs_in_suffix(text@, pattern@, start as int, i - start);
                    assert forall|earlier: int| 0 <= earlier < i - start implies !occurs_at(
                        rest,
                        pattern@,
                        earlier,
                    ) by {
                        lemma_occurs_in_suffix(text@, pattern@, start as int, earlier);
                    }
                }
                lemma_first_occurrence_is(rest, pattern@, i - start);
                assert(rest.take(i - start) =~= text@.subrange(start as int, i as int));
                assert(rest.skip(i - start + m) =~= text@.skip(i + m));
            }
            let ghost before = pieces.deep_view();
            pieces.push(piece);
            assert(pieces.deep_view() =~= before + seq![piece@]);
            i = i + m;
            start = i;
        } else {
            i += 1;
        }
    }
    let piece = string_of(&text, start, n);
    proof {
        let rest = text@.skip(start as int);
        assert(rest =~= text@.subrange(start as int, n as int));
        assert(first_occurrence(rest, pattern@) is None) by {
            assert forall|at: int| !occurs_at(rest, pattern@, at) by {
                if 0 <= at {
                    lemma_occurs_in_suffix(text@, pattern@, start as int, at);
                }
            }
        }
    }
    let ghost before = pieces.deep_view();
    pieces.push(piece);
    assert(pieces.deep_view() =~= before + seq![piece@]);
    pieces
}

/// The texts written one after another with `delimiter` between neighbours.
pub open spec fn join_texts(texts: Seq<Seq<char>>, delimiter: Seq<char>) -> Seq<char>
    decreases texts.len(),
{
    if texts.len() == 0 {
        Seq::empty()
    } else if texts.len() == 1 {
        texts[0]
    } else {
        join_texts(texts.drop_last(), delimiter) + delimiter + texts.last()
    }
}

/// Joining with one more text in front puts that text and a delimiter
/// before the rest.
pub proof fn lemma_join_with_first(first: Seq<char>, rest: Seq<Seq<char>>, delimiter: Seq<char>)
    requires
        rest.len() > 0,
    ensures
        join_texts(seq![first] + rest, delimiter) == first + delimiter + join_texts(rest, delimiter),
    decreases rest.len(),
{
    let all = seq![first] + rest;
    assert(all.drop_last() =~= seq![first] + rest.drop_last());
    assert(all.last() == rest.last());
    if rest.len() == 1 {
        assert(all.drop_last() =~= seq![first]);
        assert(join_texts(all.drop_last(), delimiter) == first);
        assert(join_texts(rest, delimiter) == rest[0]);
    } else {
        lemma_join_with_first(first, rest.drop_last(), delimiter);
        assert(join_texts(all, delimiter) =~= first + delimiter + join_texts(rest, delimiter));
    }
}

/// Joining the single characters of a text with nothing between them gives
/// the text.
proof fn lemma_join_characters(text: Seq<char>)
    ensures
        join_texts(text.map_values(|c: char| seq![c]), Seq::empty()) == text,
    decreases text.len(),
{
    let pieces = text.map_values(|c: char| seq![c]);
    if text.len() == 1 {
        assert(pieces[0] =~= text);
    } else if text.len() > 1 {
        lemma_join_characters(text.drop_last());
        assert(pieces.drop_last() =~= text.drop_last().map_values(|c: char| seq![c]));
        assert(join_texts(pieces, Seq::empty()) =~= text);
    } else {
        assert(join_texts(pieces, Seq::empty()) =~= text);
    }
}

/// Joining the pieces of a text with the delimiter at which it was split
/// gives the text back.
pub proof fn lemma_join_undoes_split(text: Seq<char>, delimiter: Seq<char>)
    ensures
        join_texts(split_text(text, delimiter), delimiter) == text,
    decreases text.len(),
{
    let empty = Seq::<char>::empty();
    if delimiter.len() == 0 {
        let characters = text.map_values(|c: char| seq![c]);
        let inner = characters + seq![empty];
        assert(delimiter =~= empty);
        lemma_join_characters(text);
        assert(inner.drop_last() =~= characters);
        assert(inner.last() == empty);
        assert(join_texts(inner, delimiter) =~= text);
        assert(split_text(text, delimiter) =~= seq![empty] + inner);
        lemma_join_with_first(empty, inner, delimiter);
        assert(empty + delimiter + text =~= text);
    } else {
        match first_occurrence(text, delimiter) {
            Some(at) => {
                let witness = choose|i: int| occurs_at(text, delimiter, i);
                lemma_first_occurrence_exists(text, delimiter, witness);
                let rest = text.skip(at + delimiter.len());
                lemma_join_undoes_split(rest, delimiter);
                lemma_split_is_not_empty(rest, delimiter);
                lemma_join_with_first(text.take(at), split_text(rest, delimiter), delimiter);
                assert(text.take(at) + delimiter + rest =~= text) by {
                    assert(text.subrange(at, at + delimiter.len()) == delimiter);
                }
            },
            None => {},
        }
    }
}

/// Joins the strings, putting `delimiter` between each two neighbours.
pub fn join_strings(strings: Vec<&str>, delimiter: &str) -> (joined: String)
    ensures
        joined@ == join_texts(strings.deep_view(), delimiter@),
{
    let mut joined = String::new();
    let mut i: usize = 0;
    while i < strings.len()
        invariant
            i <= strings.len(),
            joined@ == join_texts(strings.deep_view().take(i as int), delimiter@),
        decreases strings.len() - i,
    {
        if i > 0 {
            joined.append(delimiter);
        }
        joined.append(strings[i]);
        proof {
            let texts = strings.deep_view();
            assert(texts.take(i + 1).drop_last() =~= texts.take(i as int));
            assert(texts.take(i + 1).last() == strings[i as int]@);
        }
        i += 1;
    }
    assert(strings.deep_view().take(strings.len() as int) =~= strings.deep_view());
    joined
}

/// The text after the last `.`, or nothing where there is no `.`.
pub open spec fn extension_of(text: Seq<char>) -> Seq<char> {
    match last_index_of(text, '.') {
        Some(dot) => text.skip(dot + 1),
        None => Seq::empty(),
    }
}

/// The extension of an image URL: what follows its last `.`, and the empty
/// string where the URL has no `.`.
pub fn handle_img_extension(url_string: &str) -> (extension: String)
    ensures
        extension@ == extension_of(url_string@),
{
    let chars = chars_of(url_string);
    assert(chars@.take(chars.len() as int) =~= chars@);
    match find_last(&chars, chars.len(), '.') {
        Some(dot) => {
            assert(chars@.skip(dot + 1) =~= chars@.subrange(dot + 1, chars.len() as int));
            string_of(&chars, dot + 1, chars.len())
        },
        None => String::new(),
    }
}

/// The number embedded in `s`, where it fits in a `usize`.
pub fn checked_extract_number(s: &str) -> (number: Option<usize>)
    ensures
        match number {
            Some(value) => value == digits_value(s@),
            None => digits_value(s@) > usize::MAX,
        },
{
    let chars = chars_of(s);
    let mut value: usize = 0;
    let mut i: usize = 0;
    while i < chars.len()
        invariant
            i <= chars.len(),
            chars@ == s@,
            value == digits_value(chars@.take(i as int)),
        decreases chars.len() - i,
    {
        let c = chars[i];
        proof {
            assert(chars@.take(i + 1).drop_last() =~= chars@.take(i as int));
            lemma_digits_value_grows(chars@, i + 1, chars.len() as int);
            assert(chars@.take(chars.len() as int) =~= chars@);
        }
        if c >= '0' && c <= '9' {
            let digit: usize = (c as u32 - '0' as u32) as usize;
            let next = match value.checked_mul(10) {
                Some(tens) => tens.checked_add(digit),
                None => None,
            };
            match next {
                Some(more) => {
                    value = more;
                },
                None => {
                    return None;
                },
            }
        }
        i += 1;
    }
    assert(chars@.take(chars.len() as int) =~= chars@);
    Some(value)
}

/// The number embedded in `s`: its decimal digits read as one number, every
/// other character skipped, and 0 where `s` holds no digit.
pub fn extract_number(s: &str) -> (number: usize)
    requires
        digits_value(s@) <= usize::MAX,
    ensures
        number == digits_value(s@),
{
    let chars = chars_of(s);
    let mut number: usize = 0;
    let mut i: usize = 0;
    while i < chars.len()
        invariant
            i <= chars.len(),
            chars@ == s@,
            digits_value(s@) <= usize::MAX,
            number == digits_value(chars@.take(i as int)),
        decreases chars.len() - i,
    {
        let c = chars[i];
        proof {
            assert(chars@.take(i + 1).drop_last() =~= chars@.take(i as int));
            lemma_digits_value_grows(chars@, i + 1, chars.len() as int);
            assert(chars@.take(chars.len() as int) =~= chars@);
        }
        if c >= '0' && c <= '9' {
            number = number * 10 + (c as u32 - '0' as u32) as usize;
        }
        i += 1;
    }
    assert(chars@.take(chars.len() as int) =~= chars@);
    number
}

/// The last of the segments that is neither empty nor a lone `.`.
pub open spec fn last_named_segment(segments: Seq<Seq<char>>) -> Option<Seq<char>>
    decreases segments.len(),
{
    if segments.len() == 0 {
        None
    } else if segments.last().len() == 0 || segments.last() == seq!['.'] {
        last_named_segment(segments.drop_last())
    } else {
        Some(segments.last())
    }
}

/// The final component of a path whose components are separated by `/`.
/// Empty components and `.` do not count, so a trailing `/` or `/.` changes
/// nothing; a path that ends in `..`, or that has no named component at all,
/// has no file name.
pub open spec fn file_name_of(path: Seq<char>) -> Option<Seq<char>> {
    match last_named_segment(split_text(path, seq!['/'])) {
        Some(name) => if name == seq!['.', '.'] {
            None
        } else {
            Some(name)
        },
        None => None,
    }
}

/// A file name cut at its last `.` into stem and extension. A name without a
/// `.`, or whose only `.` is its first character, is all stem.
pub open spec fn stem_and_extension(name: Seq<char>) -> (Seq<char>, Option<Seq<char>>) {
    match last_index_of(name, '.') {
        Some(dot) => if dot == 0 {
            (name, None)
        } else {
            (name.take(dot), Some(name.skip(dot + 1)))
        },
        None => (name, None),
    }
}

/// The extension of the path's file name, without the `.`.
pub open spec fn path_extension(path: Seq<char>) -> Option<Seq<char>> {
    match file_name_of(path) {
        Some(name) => stem_and_extension(name).1,
        None => None,
    }
}

/// The path's file name without its extension.
pub open spec fn path_stem(path: Seq<char>) -> Option<Seq<char>> {
    match file_name_of(path) {
        Some(name) => Some(stem_and_extension(name).0),
        None => None,
    }
}

/// The character with an upper-case ASCII letter turned to lower case.
pub open spec fn ascii_lower(c: char) -> char {
    if 'A' <= c <= 'Z' {
        ((c as u8) + 32) as char
    } else {
        c
    }
}

/// Whether the extension names one of the image formats that are converted,
/// whatever the case of its letters.
pub open spec fn is_image_extension(extension: Seq<char>) -> bool {
    let lowered = extension.map_values(|c: char| ascii_lower(c));
    ||| lowered == "jpg"@
    ||| lowered == "jpeg"@
    ||| lowered == "png"@
    ||| lowered == "gif"@
    ||| lowered == "bmp"@
    ||| lowered == "tiff"@
    ||| lowered == "webp"@
}

/// The characters of the final component of `path`, if it has one.
fn file_name_chars(path: &str) -> (name: Option<Vec<char>>)
    ensures
        match name {
            Some(chars) => file_name_of(path@) == Some(chars@),
            None => file_name_of(path@) is None,
        },
{
    proof {
        reveal_strlit("/");
        assert("/"@ =~= seq!['/']);
    }
    let segments = split_string(path, "/");
    let ghost all = segments.deep_view();
    let mut i: usize = segments.len();
    assert(all.take(i as int) =~= all);
    while i > 0
        invariant
            i <= segments.len(),
            all == segments.deep_view(),
            all == split_text(path@, seq!['/']),
            last_named_segment(all) == last_named_segment(all.take(i as int)),
        decreases i,
    {
        let chars = chars_of(segments[i - 1].as_str());
        proof {
            assert(all.take(i as int).drop_last() =~= all.take(i - 1));
            assert(all.take(i as int).last() == chars@);
        }
        let skipped = chars.len() == 0 || (chars.len() == 1 && chars[0] == '.');
        assert(skipped == (chars@.len() == 0 || chars@ == seq!['.'])) by {
            if chars.len() == 1 && chars[0] == '.' {
                assert(chars@ =~= seq!['.']);
            }
            if chars@ == seq!['.'] {
                assert(chars@.len() == 1 && chars@[0] == '.');
            }
        }
        if !skipped {
            let parent = chars.len() == 2 && chars[0] == '.' && chars[1] == '.';
            assert(parent == (chars@ == seq!['.', '.'])) by {
                if parent {
                    assert(chars@ =~= seq!['.', '.']);
                }
                if chars@ == seq!['.', '.'] {
                    assert(chars@.len() == 2 && chars@[0] == '.' && chars@[1] == '.');
                }
            }
            if parent {
                return None;
            }
            return Some(chars);
        }
        i -= 1;
    }
    assert(all.take(0) =~= Seq::<Seq<char>>::empty());
    None
}

/// The name of the directory or file that `path` ends in. The components of
/// a path are separated by `/`.
pub fn get_dir_name(path: &str) -> (name: Option<String>)
    ensures
        match name {
            Some(text) => file_name_of(path@) == Some(text@),
            None => file_name_of(path@) is None,
        },
{
    match file_name_chars(path) {
        Some(chars) => {
            assert(chars@.subrange(0, chars.len() as int) =~= chars@);
            Some(string_of(&chars, 0, chars.len()))
        },
        None => None,
    }
}

/// The index of the `.` that parts the stem of a file name from its
/// extension, if the name has an extension.
fn extension_dot(name: &Vec<char>) -> (dot: Option<usize>)
    ensures
        match dot {
            Some(at) => 0 < at < name.len() && stem_and_extension(name@) == (
                name@.take(at as int),
                Some(name@.skip(at + 1)),
            ),
            None => stem_and_extension(name@) == (name@, None::<Seq<char>>),
        },
{
    assert(name@.take(name.len() as int) =~= name@);
    match find_last(name, name.len(), '.') {
        Some(at) => if at == 0 {
            None
        } else {
            Some(at)
        },
        None => None,
    }
}

/// The extension of the file that `path` ends in, without the `.`.
pub fn get_extension(path: &str) -> (extension: Option<String>)
    ensures
        match extension {
            Some(text) => path_extension(path@) == Some(text@),
            None => path_extension(path@) is None,
        },
{
    let name = match file_name_chars(path) {
        Some(chars) => chars,
        None => {
            return None;
        },
    };
    match extension_dot(&name) {
        Some(dot) => {
            assert(name@.skip(dot + 1) =~= name@.subrange(dot + 1, name.len() as int));
            Some(string_of(&name, dot + 1, name.len()))
        },
        None => None,
    }
}

/// Whether `path` names a file with an image extension: `jpg`, `jpeg`, `png`,
/// `gif`, `bmp`, `tiff` or `webp`, in any mix of upper and lower case.
pub fn is_image_file(path: &str) -> (image: bool)
    ensures
        image == (path_extension(path@) matches Some(extension) && is_image_extension(extension)),
{
    let extension = match get_extension(path) {
        Some(text) => chars_of(text.as_str()),
        None => {
            return false;
        },
    };
    let mut lowered: Vec<char> = Vec::new();
    let mut i: usize = 0;
    while i < extension.len()
        invariant
            i <= extension.len(),
            lowered@ == extension@.take(i as int).map_values(|c: char| ascii_lower(c)),
        decreases extension.len() - i,
    {
        let c = extension[i];
        let lower = if c >= 'A' && c <= 'Z' {
            ((c as u8) + 32) as char
        } else {
            c
        };
        lowered.push(lower);
        assert(lowered@ =~= extension@.take(i + 1).map_values(|c: char| ascii_lower(c)));
        i += 1;
    }
    assert(extension@.take(extension.len() as int) =~= extension@);
    text_is(&lowered, "jpg") || text_is(&lowered, "jpeg") || text_is(&lowered, "png") || text_is(
        &lowered,
        "gif",
    ) || text_is(&lowered, "bmp") || text_is(&lowered, "tiff") || text_is(&lowered, "webp")
}

/// The file name that `path` ends in, without its extension.
pub fn get_file_name_without_extension(path: &str) -> (stem: Option<String>)
    ensures
        match stem {
            Some(text) => path_stem(path@) == Some(text@),
            None => path_stem(path@) is None,
        },
{
    let name = match file_name_chars(path) {
        Some(chars) => chars,
        None => {
            return None;
        },
    };
    let end = match extension_dot(&name) {
        Some(at) => at,
        None => name.len(),
    };
    assert(name@.subrange(0, end as int) =~= name@.take(end as int));
    assert(name@.take(name.len() as int) =~= name@);
    Some(string_of(&name, 0, end))
}

/// The host of a URL, as `url::Url::parse` followed by `Url::host_str`
/// gives it; `None` where the text does not parse as an absolute URL or the
/// URL has no host.
pub uninterp spec fn url_host(url: Seq<char>) -> Option<Seq<char>>;

/// The host of a URL where it is a domain name, as `url::Url::parse`
/// followed by `Url::domain` gives it; `None` where the text does not parse
/// as an absolute URL, or the URL has no host, or its host is an IP address.
pub uninterp spec fn url_domain(url: Seq<char>) -> Option<Seq<char>>;

/// Parses the text with `url::Url::parse` and asks the URL for its host with
/// `Url::host_str`. The contract claims no more than that the answer depends
/// on the text alone: it is `url_host` of the text.
#[verifier::external_body]
fn parse_host(url: &str) -> (host: Option<String>)
    ensures
        match host {
            Some(name) => url_host(url@) == Some(name@),
            None => url_host(url@) is None,
        },
{
    match url::Url::parse(url) {
        Ok(parsed) => match parsed.host_str() {
            Some(name) => Some(name.to_string()),
            None => None,
        },
        Err(_) => None,
    }
}

/// Parses the text with `url::Url::parse` and asks the URL for its domain
/// with `Url::domain`. The contract claims no more than that the answer
/// depends on the text alone: it is `url_domain` of the text.
#[verifier::external_body]
fn parse_domain(url: &str) -> (domain: Option<String>)
    ensures
        match domain {
            Some(name) => url_domain(url@) == Some(name@),
            None => url_domain(url@) is None,
        },
{
    match url::Url::parse(url) {
        Ok(parsed) => match parsed.domain() {
            Some(name) => Some(name.to_string()),
            None => None,
        },
        Err(_) => None,
    }
}

/// The labels of a host name: its parts between the dots.
pub open spec fn labels_of(host: Seq<char>) -> Seq<Seq<char>> {
    split_text(host, seq!['.'])
}

/// The root of the site that a domain belongs to: `https://www.` and the
/// domain's last two labels.
pub open spec fn site_root(domain: Seq<char>) -> Seq<char> {
    let labels = labels_of(domain);
    "https://"@ + join_texts(
        seq!["www"@, labels[labels.len() - 2], labels[labels.len() - 1]],
        seq!['.'],
    )
}

/// The root of the site that a domain of two labels or more belongs to.
pub fn site_root_of(domain: &str) -> (root: String)
    requires
        labels_of(domain@).len() >= 2,
    ensures
        root@ == site_root(domain@),
{
    proof {
        reveal_strlit(".");
        assert("."@ =~= seq!['.']);
    }
    let labels = split_string(domain, ".");
    let n = labels.len();
    let mut parts: Vec<&str> = Vec::new();
    parts.push("www");
    parts.push(labels[n - 2].as_str());
    parts.push(labels[n - 1].as_str());
    assert(parts.deep_view() =~= seq![
        "www"@,
        labels_of(domain@)[n - 2],
        labels_of(domain@)[n - 1],
    ]);
    let joined = join_strings(parts, ".");
    let mut root = String::new();
    root.append("https://");
    root.append(joined.as_str());
    root
}

/// What `handle_url` gives for a URL with this domain.
pub open spec fn handled_url(domain: Option<Seq<char>>) -> Seq<char> {
    match domain {
        Some(name) => site_root(name),
        None => Seq::empty(),
    }
}

/// The root of the site that an image URL belongs to, to be sent as referer
/// and origin: `https://www.` and the last two labels of the URL's domain.
/// A text that is no URL, or a URL without a domain, gives the empty string.
pub fn handle_url(url_string: &str) -> (root: String)
    requires
        url_domain(url_string@) matches Some(name) ==> labels_of(name).len() >= 2,
    ensures
        root@ == handled_url(url_domain(url_string@)),
{
    match parse_domain(url_string) {
        Some(name) => site_root_of(name.as_str()),
        None => String::new(),
    }
}

/// The same as `handle_url`, for any text: `None` where the URL's domain is
/// a single label, for which there is no site root.
pub fn checked_handle_url(url_string: &str) -> (root: Option<String>)
    ensures
        match root {
            Some(text) => {
                &&& url_domain(url_string@) matches Some(name) ==> labels_of(name).len() >= 2
                &&& text@ == handled_url(url_domain(url_string@))
            },
            None => url_domain(url_string@) matches Some(name) && labels_of(name).len() < 2,
        },
{
    proof {
        reveal_strlit(".");
        assert("."@ =~= seq!['.']);
    }
    match parse_domain(url_string) {
        Some(name) => {
            if split_string(name.as_str(), ".").len() >= 2 {
                Some(handle_url(url_string))
            } else {
                None
            }
        },
        None => Some(handle_url(url_string)),
    }
}

/// The label before the last of a host name of two labels or more.
pub open spec fn second_level_of(host: Option<Seq<char>>) -> Option<Seq<char>> {
    match host {
        Some(name) => if labels_of(name).len() >= 2 {
            Some(labels_of(name)[labels_of(name).len() - 2])
        } else {
            None
        },
        None => None,
    }
}

/// Picks the label before the last out of a host name.
pub fn second_level_label(host: &str) -> (label: Option<String>)
    ensures
        match label {
            Some(text) => second_level_of(Some(host@)) == Some(text@),
            None => second_level_of(Some(host@)) is None,
        },
{
    proof {
        reveal_strlit(".");
        assert("."@ =~= seq!['.']);
    }
    let labels = split_string(host, ".");
    if labels.len() >= 2 {
        Some(labels[labels.len() - 2].clone())
    } else {
        None
    }
}

/// The second-level domain of a URL: the label before the last of its host.
/// A text that is no URL, a URL without a host and a host of a single label
/// give `None`.
pub fn get_second_level_domain(url_str: &str) -> (label: Option<String>)
    ensures
        match label {
            Some(text) => second_level_of(url_host(url_str@)) == Some(text@),
            None => second_level_of(url_host(url_str@)) is None,
        },
{
    match parse_host(url_str) {
        Some(host) => second_level_label(host.as_str()),
        None => None,
    }
}

} // verus!
