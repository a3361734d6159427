//! What a run is asked to download or convert.
use vstd::prelude::*;

verus! {

/// The part of a comic that a run works on.
#[derive(Debug, Clone, Copy, PartialEq, Eq, Structural)]
pub enum DlType {
    /// The collected volumes of a comic.
    Juan,
    /// The single episodes of a comic.
    Hua,
    /// The extras of a comic.
    Fanwai,
    /// The one chapter that the URL points at.
    Current,
    /// A local directory tree whose images are converted.
    Local,
    /// A local directory tree whose images are upscaled.
    Upscale,
}

impl DlType {
    /// The heading under which a catalog page lists this part of a comic.
    pub open spec fn section_title_text(self) -> Seq<char> {
        match self {
            DlType::Juan => "单行本"@,
            DlType::Hua => "单话"@,
            DlType::Fanwai => "番外篇"@,
            DlType::Current => ""@,
            DlType::Local => "_"@,
            DlType::Upscale => "_"@,
        }
    }

    /// The word by which the cache file of this part of a comic is told from
    /// those of the other parts.
    pub open spec fn cache_kind_text(self) -> Seq<char> {
        match self {
            DlType::Juan => "juan"@,
            DlType::Hua => "hua"@,
            DlType::Fanwai => "fanwai"@,
            DlType::Current => ""@,
            DlType::Local => ""@,
            DlType::Upscale => ""@,
        }
    }

    /// Whether this is one of the three listed parts of a comic, each with a
    /// completion cache of its own.
    pub open spec fn is_listed_part(self) -> bool {
        self == DlType::Juan || self == DlType::Hua || self == DlType::Fanwai
    }

    /// The heading under which a catalog page lists this part of a comic; it
    /// is also the suffix of the directory that the part is saved in.
    pub fn section_title(&self) -> (title: &'static str)
        ensures
            title@ == self.section_title_text(),
    {
        match self {
            DlType::Juan => "单行本",
            DlType::Hua => "单话",
            DlType::Fanwai => "番外篇",
            DlType::Current => "",
            DlType::Local => "_",
            DlType::Upscale => "_",
        }
    }

    /// The word that names this part of a comic in its cache file's name.
    pub fn cache_kind(&self) -> (kind: &'static str)
        ensures
            kind@ == self.cache_kind_text(),
    {
        match self {
            DlType::Juan => "juan",
            DlType::Hua => "hua",
            DlType::Fanwai => "fanwai",
            DlType::Current => "",
            DlType::Local => "",
            DlType::Upscale => "",
        }
    }

    /// Whether a run on this part of a comic keeps a completion cache.
    pub fn keeps_cache(&self) -> (kept: bool)
        ensures
            kept == self.is_listed_part(),
    {
        match self {
            DlType::Juan => true,
            DlType::Hua => true,
            DlType::Fanwai => true,
            DlType::Current => false,
            DlType::Local => false,
            DlType::Upscale => false,
        }
    }
}

} // verus!
