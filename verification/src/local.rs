//! Work on a local directory tree: converting every image of every
//! directory to JPEG, or handing every JPEG to an upscaler. This module
//! names the outputs, orders the work and lists the upscaler's arguments;
//! walking the tree and running the tools is the caller's.
use vstd::prelude::*;
use vstd::string::StringExecFns;
use crate::ordering::{is_stable_order, stable_order};
use crate::text::{
    chars_of, decimal, digits_value, parse_u32, parse_u32_text, push_decimal, push_underscored,
    string_of, text_is, underscored,
};
use crate::utils::{
    checked_extract_number, extract_number, get_extension, get_file_name_without_extension,
    is_image_extension, is_image_file, path_extension, path_stem,
};

verus! {

/// The directory that receives the converted copy of the tree at `source`.
pub fn converted_root(source: &str) -> (root: String)
    ensures
        root@ == source@ + "_jpg"@,
{
    let mut root = String::new();
    root.append(source);
    root.append("_jpg");
    root
}

/// The directory that receives the upscaled copy of the tree at `source`.
pub fn upscaled_root(source: &str) -> (root: String)
    ensures
        root@ == source@ + "_upscale"@,
{
    let mut root = String::new();
    root.append(source);
    root.append("_upscale");
    root
}

/// The output root as it is created before anything else: with every space
/// turned into an underscore.
pub fn created_root(root: &str) -> (created: String)
    ensures
        created@ == underscored(root@),
{
    let mut created = String::new();
    push_underscored(&mut created, root);
    created
}

/// The output directory for the directory called `name`.
pub fn output_dir(root: &str, name: &str) -> (dir: String)
    ensures
        dir@ == root@ + "/"@ + name@,
{
    let mut dir = String::new();
    dir.append(root);
    dir.append("/");
    dir.append(name);
    dir
}

/// The key of each name: the number embedded in it.
pub open spec fn number_keys(names: Seq<Seq<char>>) -> Seq<u64> {
    Seq::new(names.len(), |i: int| digits_value(names[i]) as u64)
}

/// Every name's embedded number fits in a `usize`.
pub open spec fn numbers_fit(names: Seq<Seq<char>>) -> bool {
    forall|i: int| 0 <= i < names.len() ==> digits_value(#[trigger] names[i]) <= usize::MAX
}

/// Tests whether every name's embedded number fits in a `usize`.
pub fn check_numbers_fit(names: &Vec<String>) -> (fit: bool)
    ensures
        fit == numbers_fit(names.deep_view()),
{
    let mut i: usize = 0;
    while i < names.len()
        invariant
            i <= names.len(),
            forall|j: int| 0 <= j < i ==> digits_value(#[trigger] names.deep_view()[j]) <= usize::MAX,
        decreases names.len() - i,
    {
        if checked_extract_number(names[i].as_str()).is_none() {
            assert(digits_value(names.deep_view()[i as int]) > usize::MAX);
            return false;
        }
        i += 1;
    }
    true
}

/// The order in which directories are worked on: by the number embedded in
/// each name, names with equal numbers in the order in which they stand.
pub fn order_by_number(names: &Vec<String>) -> (order: Vec<usize>)
    requires
        numbers_fit(names.deep_view()),
    ensures
        is_stable_order(number_keys(names.deep_view()), order@),
{
    let mut keys: Vec<u64> = Vec::new();
    let mut i: usize = 0;
    while i < names.len()
        invariant
            i <= names.len(),
            numbers_fit(names.deep_view()),
            keys@ == number_keys(names.deep_view()).take(i as int),
        decreases names.len() - i,
    {
        assert(digits_value(names.deep_view()[i as int]) <= usize::MAX);
        keys.push(extract_number(names[i].as_str()) as u64);
        assert(keys@ =~= number_keys(names.deep_view()).take(i + 1));
        i += 1;
    }
    assert(number_keys(names.deep_view()).take(names.len() as int) =~= number_keys(
        names.deep_view(),
    ));
    stable_order(&keys)
}

/// Where the converted copy of an image goes: into `out_dir`, under the
/// number embedded in the stem of its file name. A path that is no image
/// file has no converted copy.
pub open spec fn converted_file_text(out_dir: Seq<char>, image_path: Seq<char>) -> Option<Seq<char>> {
    match path_extension(image_path) {
        Some(extension) => if is_image_extension(extension) {
            Some(out_dir + "/"@ + decimal(digits_value(path_stem(image_path)->0)) + ".jpg"@)
        } else {
            None
        },
        None => None,
    }
}

/// Names the converted copy of the file at `image_path`, if it is an image
/// file.
pub fn converted_file(out_dir: &str, image_path: &str) -> (file: Option<String>)
    requires
        path_stem(image_path@) matches Some(stem) ==> digits_value(stem) <= usize::MAX,
    ensures
        match file {
            Some(path) => converted_file_text(out_dir@, image_path@) == Some(path@),
            None => converted_file_text(out_dir@, image_path@) is None,
        },
{
    if !is_image_file(image_path) {
        return None;
    }
    match get_file_name_without_extension(image_path) {
        Some(stem) => {
            let number = extract_number(stem.as_str());
            let mut path = String::new();
            path.append(out_dir);
            path.append("/");
            push_decimal(&mut path, number as u64);
            path.append(".jpg");
            Some(path)
        },
        None => None,
    }
}

/// The text without the `.jpg` that it ends in, however often it ends in it.
pub open spec fn without_jpg_endings(text: Seq<char>) -> Seq<char>
    decreases text.len(),
{
    if text.len() >= 4 && text.skip(text.len() - 4) == ".jpg"@ {
        without_jpg_endings(text.take(text.len() - 4))
    } else {
        text
    }
}

/// The page number of a JPEG file: what its name writes before `.jpg`, read
/// as a number, and 0 where that is no number.
pub open spec fn page_number_of(file_name: Seq<char>) -> u32 {
    match parse_u32_text(without_jpg_endings(file_name)) {
        Some(number) => number,
        None => 0,
    }
}

/// Reads the page number from the name of a JPEG file.
pub fn page_number(file_name: &str) -> (number: u32)
    ensures
        number == page_number_of(file_name@),
{
    proof {
        reveal_strlit(".jpg");
    }
    let chars = chars_of(file_name);
    let mut end: usize = chars.len();
    assert(chars@.take(end as int) =~= chars@);
    while end >= 4 && chars[end - 4] == '.' && chars[end - 3] == 'j' && chars[end - 2] == 'p'
        && chars[end - 1] == 'g'
        invariant
            end <= chars.len(),
            ".jpg"@.len() == 4,
            ".jpg"@[0] == '.' && ".jpg"@[1] == 'j' && ".jpg"@[2] == 'p' && ".jpg"@[3] == 'g',
            without_jpg_endings(chars@) == without_jpg_endings(chars@.take(end as int)),
        decreases end,
    {
        proof {
            let text = chars@.take(end as int);
            assert(text.skip(text.len() - 4) =~= ".jpg"@);
            assert(text.take(text.len() - 4) =~= chars@.take(end - 4));
        }
        end -= 4;
    }
    proof {
        let text = chars@.take(end as int);
        if text.len() >= 4 && text.skip(text.len() - 4) == ".jpg"@ {
            let tail = text.skip(text.len() - 4);
            assert(tail[0] == chars@[end - 4] && tail[1] == chars@[end - 3] && tail[2] == chars@[end
                - 2] && tail[3] == chars@[end - 1]);
        }
        assert(chars@.subrange(0, end as int) =~= text);
    }
    let trimmed = string_of(&chars, 0, end);
    match parse_u32(trimmed.as_str()) {
        Some(number) => number,
        None => 0,
    }
}

/// The page number of each file name.
pub open spec fn page_keys(file_names: Seq<Seq<char>>) -> Seq<u64> {
    Seq::new(file_names.len(), |i: int| page_number_of(file_names[i]) as u64)
}

/// The order in which the JPEG files of a directory are upscaled: by page
/// number, files with equal numbers in the order in which they stand.
pub fn order_by_page(file_names: &Vec<String>) -> (order: Vec<usize>)
    ensures
        is_stable_order(page_keys(file_names.deep_view()), order@),
{
    let mut keys: Vec<u64> = Vec::new();
    let mut i: usize = 0;
    while i < file_names.len()
        invariant
            i <= file_names.len(),
            keys@ == page_keys(file_names.deep_view()).take(i as int),
        decreases file_names.len() - i,
    {
        keys.push(page_number(file_names[i].as_str()) as u64);
        assert(keys@ =~= page_keys(file_names.deep_view()).take(i + 1));
        i += 1;
    }
    assert(page_keys(file_names.deep_view()).take(file_names.len() as int) =~= page_keys(
        file_names.deep_view(),
    ));
    stable_order(&keys)
}

/// Whether the path's extension is `jpg`, in lower case: only such files are
/// upscaled.
pub fn has_jpg_extension(path: &str) -> (jpg: bool)
    ensures
        jpg == (path_extension(path@) == Some("jpg"@)),
{
    match get_extension(path) {
        Some(extension) => {
            let chars = chars_of(extension.as_str());
            text_is(&chars, "jpg")
        },
        None => false,
    }
}

/// The arguments with which the upscaler is run on one image.
pub open spec fn upscale_argument_texts(
    input: Seq<char>,
    output: Seq<char>,
    model_dir: Seq<char>,
) -> Seq<Seq<char>> {
    seq![
        "-i"@,
        input,
        "-o"@,
        output,
        "-s"@,
        "2"@,
        "-c"@,
        "50"@,
        "-m"@,
        model_dir,
        "-n"@,
        "4x-DWTP-ds-esrgan-5"@,
        "-j"@,
        "1:1:1"@,
        "-f"@,
        "jpg"@,
    ]
}

/// Lists the arguments with which the upscaler is run on one image: input
/// and output file, scale 2, compression 50, the directory of the models and
/// the model's name, one thread for each stage, and JPEG as output format.
pub fn upscale_arguments(input: &str, output: &str, model_dir: &str) -> (arguments: Vec<String>)
    ensures
        arguments.deep_view() == upscale_argument_texts(input@, output@, model_dir@),
{
    let mut arguments: Vec<String> = Vec::new();
    arguments.push("-i".to_owned());
    arguments.push(input.to_owned());
    arguments.push("-o".to_owned());
    arguments.push(output.to_owned());
    arguments.push("-s".to_owned());
    arguments.push("2".to_owned());
    arguments.push("-c".to_owned());
    arguments.push("50".to_owned());
    arguments.push("-m".to_owned());
    arguments.push(model_dir.to_owned());
    arguments.push("-n".to_owned());
    arguments.push("4x-DWTP-ds-esrgan-5".to_owned());
    arguments.push("-j".to_owned());
    arguments.push("1:1:1".to_owned());
    arguments.push("-f".to_owned());
    arguments.push("jpg".to_owned());
    assert(arguments.deep_view() =~= upscale_argument_texts(input@, output@, model_dir@));
    arguments
}

} // verus!
