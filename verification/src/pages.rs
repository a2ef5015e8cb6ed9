//! The page registry: an exact-path table from lower-case URL paths to
//! file locations with an accessibility flag. The registry decision —
//! which file to read, or why not — is verified here; reading the file
//! itself is left to the embedding application, which hands the outcome
//! back as a `PageFileReadInfo`.

use vstd::prelude::*;
use crate::strmap::{map_insert, map_get, keys_unique, lemma_map_insert_fresh, lemma_map_insert_at,
    lemma_map_get_at, lemma_map_get_missing, lemma_insert_unique};
use crate::text::{str_eq, ascii_lower, lower_seq};

verus! {

/// Where a registered page lives, and whether it may be served.
pub struct PageInfo {
    pub file_path: String,
    pub is_access: bool,
}

/// The mathematical value of a `PageInfo`.
pub struct PageInfoV {
    pub file_path: Seq<char>,
    pub is_access: bool,
}

impl DeepView for PageInfo {
    type V = PageInfoV;

    open spec fn deep_view(&self) -> PageInfoV {
        PageInfoV { file_path: self.file_path@, is_access: self.is_access }
    }
}

/// Whether loading a page's text succeeded, failed, or found no page.
#[allow(non_camel_case_types)]
#[derive(PartialEq, Eq, Structural, Clone, Copy, Debug)]
pub enum IsPageFileReadSuccess {
    SUCCESS,
    FAIL,
    NO_DATA,
}

/// A page read outcome: the text when it could be read, and why not
/// otherwise.
pub struct PageFileReadInfo {
    pub value: Option<String>,
    pub is_success: IsPageFileReadSuccess,
}

/// The mathematical value of a `PageFileReadInfo`.
pub struct PageReadV {
    pub value: Option<Seq<char>>,
    pub is_success: IsPageFileReadSuccess,
}

impl DeepView for PageFileReadInfo {
    type V = PageReadV;

    open spec fn deep_view(&self) -> PageReadV {
        PageReadV { value: self.value.deep_view(), is_success: self.is_success }
    }
}

/// The registered pages, keyed by path. Paths must be registered in lower
/// case: lookups lower-case the requested path before matching.
pub struct PageMap {
    entries: Vec<(String, PageInfo)>,
}

impl View for PageMap {
    type V = Seq<(Seq<char>, PageInfoV)>;

    closed spec fn view(&self) -> Seq<(Seq<char>, PageInfoV)> {
        self.entries.deep_view()
    }
}

impl DeepView for PageMap {
    type V = Seq<(Seq<char>, PageInfoV)>;

    open spec fn deep_view(&self) -> Seq<(Seq<char>, PageInfoV)> {
        self.view()
    }
}

impl PageMap {
    /// Keys are unique.
    pub open spec fn wf(&self) -> bool {
        keys_unique(self@)
    }

    /// An empty registry.
    pub fn new() -> (r: PageMap)
        ensures
            r@ == Seq::<(Seq<char>, PageInfoV)>::empty(),
            r.wf(),
    {
        let r = PageMap { entries: Vec::new() };
        assert(r@ =~= Seq::<(Seq<char>, PageInfoV)>::empty());
        r
    }

    /// Registers a page under `path`, overwriting an earlier entry in
    /// place.
    pub fn insert(&mut self, path: String, info: PageInfo)
        requires
            old(self).wf(),
        ensures
            final(self)@ == map_insert(old(self)@, path@, info.deep_view()),
            final(self).wf(),
    {
        let n = self.entries.len();
        let mut i: usize = 0;
        while i < n
            invariant
                n == self@.len(),
                0 <= i <= n,
                self@ == old(self)@,
                keys_unique(self@),
                forall|j: int| 0 <= j < i ==> (#[trigger] self@[j]).0 != path@,
            decreases n - i,
        {
            if str_eq(self.entries[i].0.as_str(), path.as_str()) {
                let ghost old_view = self@;
                self.entries[i] = (path, info);
                assert(self@ =~= old_view.update(i as int, (path@, info.deep_view())));
                proof {
                    lemma_map_insert_at(old_view, path@, info.deep_view(), i as int);
                    lemma_insert_unique(old_view, path@, info.deep_view());
                }
                return;
            }
            i += 1;
        }
        let ghost old_view = self@;
        self.entries.push((path, info));
        assert(self@ =~= old_view.push((path@, info.deep_view())));
        proof {
            lemma_map_insert_fresh(old_view, path@, info.deep_view());
            lemma_insert_unique(old_view, path@, info.deep_view());
        }
    }

    /// The entry registered under exactly `path`, if any.
    pub fn get(&self, path: &str) -> (r: Option<&PageInfo>)
        ensures
            match r {
                Some(info) => map_get(self@, path@) == Some(info.deep_view()),
                None => map_get(self@, path@) is None,
            },
    {
        let n = self.entries.len();
        let mut i: usize = 0;
        while i < n
            invariant
                n == self@.len(),
                0 <= i <= n,
                forall|j: int| 0 <= j < i ==> (#[trigger] self@[j]).0 != path@,
            decreases n - i,
        {
            if str_eq(self.entries[i].0.as_str(), path) {
                proof {
                    lemma_map_get_at(self@, path@, i as int);
                }
                return Some(&self.entries[i].1);
            }
            i += 1;
        }
        proof {
            lemma_map_get_missing(self@, path@);
        }
        None
    }
}

/// The capability through which the response builder reads pages: the
/// embedding application supplies the implementation, typically a registry
/// lookup through `resolve_page` followed by a file read. Nothing is
/// assumed of what it returns: the response builder states what it does
/// with every possible outcome.
pub trait PageSource {
    /// The outcome of loading the page registered under `path`.
    fn lookup(&self, path: &str) -> PageFileReadInfo;
}

/// Every page the server knows; unset until the registry is populated at
/// startup.
pub struct AllPages {
    pub pages: Option<PageMap>,
}

/// What a registry lookup decides: no page is registered, the page is
/// registered but not accessible, or the file at the held path may be
/// read.
pub enum PageLookup {
    NoData,
    Denied,
    Read(String),
}

/// The mathematical value of a `PageLookup`.
pub enum PageLookupV {
    NoData,
    Denied,
    Read(Seq<char>),
}

impl DeepView for PageLookup {
    type V = PageLookupV;

    open spec fn deep_view(&self) -> PageLookupV {
        match self {
            PageLookup::NoData => PageLookupV::NoData,
            PageLookup::Denied => PageLookupV::Denied,
            PageLookup::Read(p) => PageLookupV::Read(p@),
        }
    }
}

/// The registry decision for a raw path: the path is lower-cased, looked
/// up exactly, and the entry's accessibility flag consulted.
pub open spec fn spec_resolve_page(
    pages: Option<Seq<(Seq<char>, PageInfoV)>>,
    path: Seq<char>,
) -> PageLookupV {
    match pages {
        None => PageLookupV::NoData,
        Some(m) => match map_get(m, lower_seq(path)) {
            None => PageLookupV::NoData,
            Some(info) => if info.is_access {
                PageLookupV::Read(info.file_path)
            } else {
                PageLookupV::Denied
            },
        },
    }
}

/// Decides what a request for `page_path` may read. The caller performs
/// the file read itself and reports the outcome as a `PageFileReadInfo`.
pub fn resolve_page(all: &AllPages, page_path: &str) -> (r: PageLookup)
    ensures
        r.deep_view() == spec_resolve_page(
            match all.pages {
                Some(m) => Some(m@),
                None => None,
            },
            page_path@,
        ),
{
    match &all.pages {
        None => PageLookup::NoData,
        Some(map) => {
            let key = ascii_lower(page_path);
            match map.get(key.as_str()) {
                None => PageLookup::NoData,
                Some(info) => {
                    if info.is_access {
                        PageLookup::Read(info.file_path.clone())
                    } else {
                        PageLookup::Denied
                    }
                },
            }
        },
    }
}

} // verus!
