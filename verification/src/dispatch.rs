//! Which kind of work a request asks for.
use vstd::prelude::*;
use vstd::string::StringExecFns;
use crate::dl_type::DlType;
use crate::text::{chars_of, text_is};
use crate::utils::{get_second_level_domain, second_level_of, url_host};

verus! {

/// The kinds of work.
#[derive(Debug, Clone, Copy, PartialEq, Eq, Structural)]
pub enum Route {
    /// Convert the images of a local directory tree to JPEG.
    ConvertLocal,
    /// Upscale the JPEG files of a local directory tree.
    UpscaleLocal,
    /// Download the one chapter that the URL points at.
    CatalogSiteChapter,
    /// Download one part of a comic from its catalog page.
    CatalogSitePart(DlType),
    /// Download a comic from the site that lists its chapters as data.
    ListingSite,
}

/// Why a request asks for nothing that can be done.
#[derive(Debug, Clone, Copy, PartialEq, Eq, Structural)]
pub enum RouteError {
    /// The target is no URL with a second-level domain.
    NoSite,
    /// The site is none of those that are understood.
    UnknownSite,
}

/// The work that is asked for, given the part of the comic and the
/// second-level domain of the target, if it has one. Local work needs no
/// site. Otherwise the site decides, and of its sites only `antbyw` and
/// `mangadex` are known.
pub open spec fn route_of(dl_type: DlType, site: Option<Seq<char>>) -> Result<Route, RouteError> {
    match dl_type {
        DlType::Local => Ok(Route::ConvertLocal),
        DlType::Upscale => Ok(Route::UpscaleLocal),
        _ => match site {
            None => Err(RouteError::NoSite),
            Some(name) => if name == "antbyw"@ {
                if dl_type == DlType::Current {
                    Ok(Route::CatalogSiteChapter)
                } else {
                    Ok(Route::CatalogSitePart(dl_type))
                }
            } else if name == "mangadex"@ {
                Ok(Route::ListingSite)
            } else {
                Err(RouteError::UnknownSite)
            },
        },
    }
}

/// Decides the work from the part of the comic that is asked for and the
/// second-level domain of the target.
pub fn route_for_site(dl_type: DlType, site: Option<&str>) -> (route: Result<Route, RouteError>)
    ensures
        route == route_of(
            dl_type,
            match site {
                Some(name) => Some(name@),
                None => None,
            },
        ),
{
    match dl_type {
        DlType::Local => Ok(Route::ConvertLocal),
        DlType::Upscale => Ok(Route::UpscaleLocal),
        _ => match site {
            None => Err(RouteError::NoSite),
            Some(name) => {
                let chars = chars_of(name);
                if text_is(&chars, "antbyw") {
                    match dl_type {
                        DlType::Current => Ok(Route::CatalogSiteChapter),
                        _ => Ok(Route::CatalogSitePart(dl_type)),
                    }
                } else if text_is(&chars, "mangadex") {
                    Ok(Route::ListingSite)
                } else {
                    Err(RouteError::UnknownSite)
                }
            },
        },
    }
}

/// Decides the work from the part of the comic that is asked for and the
/// target, which is a URL unless the work is local.
pub fn route(dl_type: DlType, target: &str) -> (route: Result<Route, RouteError>)
    ensures
        route == route_of(dl_type, second_level_of(url_host(target@))),
{
    match dl_type {
        DlType::Local => Ok(Route::ConvertLocal),
        DlType::Upscale => Ok(Route::UpscaleLocal),
        _ => match get_second_level_domain(target) {
            Some(site) => route_for_site(dl_type, Some(site.as_str())),
            None => route_for_site(dl_type, None),
        },
    }
}

/// The selector of the image elements within the element that holds a
/// chapter's images.
pub fn image_selector(element: &str) -> (selector: String)
    ensures
        selector@ == element@ + " img"@,
{
    let mut selector = String::new();
    selector.append(element);
    selector.append(" img");
    selector
}

} // verus!
