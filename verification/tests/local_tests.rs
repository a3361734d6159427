use comic_archiver::dispatch::{image_selector, route, route_for_site, Route, RouteError};
use comic_archiver::dl_type::DlType;
use comic_archiver::local::{
    check_numbers_fit, converted_file, converted_root, created_root, has_jpg_extension,
    order_by_number, order_by_page, output_dir, page_number, upscale_arguments, upscaled_root,
};

fn strings(items: &[&str]) -> Vec<String> {
    items.iter().map(|s| s.to_string()).collect()
}

#[test]
fn output_roots() {
    assert_eq!(converted_root("C:/comics/王者天下 单行本"), "C:/comics/王者天下 单行本_jpg");
    assert_eq!(upscaled_root("C:/comics/王者天下 单行本"), "C:/comics/王者天下 单行本_upscale");
    assert_eq!(created_root("C:/comics/王者天下 单行本_jpg"), "C:/comics/王者天下_单行本_jpg");
    assert_eq!(output_dir("root_jpg", "第1卷"), "root_jpg/第1卷");
}

#[test]
fn directories_are_ordered_by_their_number() {
    let names = strings(&["第2卷", "第10卷", "第1卷", "番外", "第02卷"]);
    assert_eq!(order_by_number(&names), vec![3, 2, 0, 4, 1]);
    assert!(order_by_number(&vec![]).is_empty());
}

#[test]
fn names_with_too_many_digits_are_found_out() {
    assert!(check_numbers_fit(&strings(&["第2卷", "x"])));
    assert!(!check_numbers_fit(&strings(&["第2卷", "123456789012345678901234567890"])));
}

#[test]
fn converted_copy_is_named_by_the_number_in_the_stem() {
    assert_eq!(converted_file("out/第1卷", "in/第1卷/003.png"), Some("out/第1卷/3.jpg".to_string()));
    assert_eq!(converted_file("o", "in/page 12 v2.WEBP"), Some("o/122.jpg".to_string()));
    assert_eq!(converted_file("o", "in/cover.jpeg"), Some("o/0.jpg".to_string()));
    assert_eq!(converted_file("o", "in/7.jpg"), Some("o/7.jpg".to_string()));
}

#[test]
fn what_is_no_image_file_has_no_converted_copy() {
    assert_eq!(converted_file("o", "in/notes.txt"), None);
    assert_eq!(converted_file("o", "in/12"), None);
    assert_eq!(converted_file("o", "in/.png"), None);
    assert_eq!(converted_file("o", ""), None);
}

#[test]
fn page_number_is_what_stands_before_jpg() {
    assert_eq!(page_number("12.jpg"), 12);
    assert_eq!(page_number("0.jpg"), 0);
    assert_eq!(page_number("007.jpg"), 7);
    assert_eq!(page_number("12.jpg.jpg"), 12);
    assert_eq!(page_number("12"), 12);
    assert_eq!(page_number("+5.jpg"), 5);
    assert_eq!(page_number("4294967295.jpg"), 4294967295);
}

#[test]
fn page_number_of_what_writes_no_number_is_zero() {
    assert_eq!(page_number("cover.jpg"), 0);
    assert_eq!(page_number(".jpg"), 0);
    assert_eq!(page_number(""), 0);
    assert_eq!(page_number("12.JPG"), 0);
    assert_eq!(page_number("12.png"), 0);
    assert_eq!(page_number("-1.jpg"), 0);
    assert_eq!(page_number("4294967296.jpg"), 0);
    assert_eq!(page_number("1 .jpg"), 0);
}

#[test]
fn page_number_agrees_with_the_standard_library() {
    for name in ["1.jpg", "a.jpg", ".jpg.jpg", "jpg", "3.jpg.", "10.jpgjpg", "２.jpg", "9.jpg.jpg.jpg"] {
        let expected = name.trim_end_matches(".jpg").parse::<u32>().unwrap_or(0);
        assert_eq!(page_number(name), expected, "name {:?}", name);
    }
}

#[test]
fn files_are_ordered_by_page() {
    let names = strings(&["10.jpg", "2.jpg", "cover.jpg", "1.jpg", "02.jpg"]);
    assert_eq!(order_by_page(&names), vec![2, 3, 1, 4, 0]);
}

#[test]
fn only_lower_case_jpg_is_upscaled() {
    assert!(has_jpg_extension("a/b/1.jpg"));
    assert!(has_jpg_extension("1.png.jpg"));
    assert!(!has_jpg_extension("a/b/1.JPG"));
    assert!(!has_jpg_extension("a/b/1.jpeg"));
    assert!(!has_jpg_extension("a/b/jpg"));
    assert!(!has_jpg_extension(".jpg"));
    assert!(!has_jpg_extension("a.jpg/.."));
    assert!(!has_jpg_extension(""));
}

#[test]
fn upscaler_arguments() {
    assert_eq!(
        upscale_arguments("in/1.jpg", "out/1.jpg", "/models"),
        strings(&[
            "-i", "in/1.jpg", "-o", "out/1.jpg", "-s", "2", "-c", "50", "-m", "/models", "-n",
            "4x-DWTP-ds-esrgan-5", "-j", "1:1:1", "-f", "jpg",
        ])
    );
}

#[test]
fn local_work_needs_no_site() {
    assert_eq!(route(DlType::Local, "C:\\comics\\a"), Ok(Route::ConvertLocal));
    assert_eq!(route(DlType::Upscale, "/home/me/comics"), Ok(Route::UpscaleLocal));
    assert_eq!(route_for_site(DlType::Local, None), Ok(Route::ConvertLocal));
    assert_eq!(route_for_site(DlType::Upscale, Some("antbyw")), Ok(Route::UpscaleLocal));
}

#[test]
fn the_site_decides_the_work() {
    let catalog = "https://www.antbyw.com/plugin.php?id=jameson_manhua&c=index&a=bofang&kuid=1";
    assert_eq!(route(DlType::Current, catalog), Ok(Route::CatalogSiteChapter));
    assert_eq!(route(DlType::Juan, catalog), Ok(Route::CatalogSitePart(DlType::Juan)));
    assert_eq!(route(DlType::Hua, catalog), Ok(Route::CatalogSitePart(DlType::Hua)));
    assert_eq!(route(DlType::Fanwai, catalog), Ok(Route::CatalogSitePart(DlType::Fanwai)));
    let listing = "https://mangadex.org/title/65f8c566/some-name";
    for dl_type in [DlType::Current, DlType::Juan, DlType::Hua, DlType::Fanwai] {
        assert_eq!(route(dl_type, listing), Ok(Route::ListingSite));
    }
}

#[test]
fn unknown_site_and_no_site() {
    assert_eq!(route(DlType::Juan, "https://www.example.com/x"), Err(RouteError::UnknownSite));
    assert_eq!(route(DlType::Current, "https://antbyw.example.com/"), Err(RouteError::UnknownSite));
    assert_eq!(route(DlType::Juan, "not a url"), Err(RouteError::NoSite));
    assert_eq!(route(DlType::Hua, "http://localhost/x"), Err(RouteError::NoSite));
    assert_eq!(route_for_site(DlType::Hua, Some("Antbyw")), Err(RouteError::UnknownSite));
    assert_eq!(route_for_site(DlType::Hua, Some("")), Err(RouteError::UnknownSite));
}

#[test]
fn image_selector_is_the_element_and_img() {
    assert_eq!(image_selector(".uk-zjimg"), ".uk-zjimg img");
    assert_eq!(image_selector(""), " img");
}
