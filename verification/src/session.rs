//! The reading session: the raw document text as the single source of truth,
//! and the derived, wholesale-rebuilt projections over it — the table of
//! contents, the search results with their circular cursor, the pending
//! scroll target, and the per-document image cache.

use vstd::prelude::*;

use crate::block::{Block, BlockV};
use crate::compile::{compile_events, compile_spec, find_heading, heading_matches};
use crate::image::{ImageCache, ImageEntry, ImageEntryV};
use crate::parse::{events_of, parse_events};
use crate::search::{search, search_spec, SearchResult};
use crate::text::copy_chars;
use crate::toc::{extract_toc, lemma_toc_levels_bounded, toc_init, toc_spec, TocHeader};

verus! {

/// One open document and the state derived from it.
pub struct ReaderSession {
    /// The raw markdown text of the current document.
    pub content: Vec<char>,
    /// The current search query.
    pub search_query: Vec<char>,
    /// Whether search is case sensitive.
    pub search_case_sensitive: bool,
    /// The results of the last search, in line-then-offset order.
    pub search_results: Vec<SearchResult>,
    /// The cursor into the search results; navigation is circular.
    pub current_search_index: usize,
    /// The table of contents of the current document.
    pub toc_headers: Vec<TocHeader>,
    /// The heading title to scroll to on the next pass, if any.
    pub scroll_to_header: Option<Vec<char>>,
    /// The per-document image cache.
    pub image_cache: ImageCache,
}

impl ReaderSession {
    /// Validity: the cache keeps one entry per reference, and the cursor is
    /// clamped into the result list (and zero when the list is empty).
    pub open spec fn wf(&self) -> bool {
        &&& self.image_cache.wf()
        &&& self.search_results@.len() == 0 ==> self.current_search_index == 0
        &&& self.search_results@.len() > 0 ==> (self.current_search_index as int)
            < self.search_results@.len()
    }

    /// Everything but the search cursor is the same in both states.
    pub open spec fn same_except_cursor(a: ReaderSession, b: ReaderSession) -> bool {
        &&& b.content == a.content
        &&& b.search_query == a.search_query
        &&& b.search_case_sensitive == a.search_case_sensitive
        &&& b.search_results == a.search_results
        &&& b.toc_headers == a.toc_headers
        &&& b.scroll_to_header == a.scroll_to_header
        &&& b.image_cache == a.image_cache
    }

    /// A session with no document: everything empty, the cursor at zero.
    pub fn new() -> (r: Self)
        ensures
            r.wf(),
            r.content@ == Seq::<char>::empty(),
            r.search_query@ == Seq::<char>::empty(),
            !r.search_case_sensitive,
            r.search_results@.len() == 0,
            r.current_search_index == 0,
            r.toc_headers@.len() == 0,
            r.scroll_to_header is None,
            r.image_cache@ == Map::<Seq<char>, ImageEntryV>::empty(),
    {
        ReaderSession {
            content: Vec::new(),
            search_query: Vec::new(),
            search_case_sensitive: false,
            search_results: Vec::new(),
            current_search_index: 0,
            toc_headers: Vec::new(),
            scroll_to_header: None,
            image_cache: ImageCache::new(),
        }
    }

    /// Loads a new document: the text replaces the old one, the image cache
    /// is cleared in full, the search results and cursor are reset, and the
    /// table of contents is rebuilt. The query and scroll target are kept.
    pub fn load_document(&mut self, content: Vec<char>)
        ensures
            final(self).wf(),
            final(self).content@ == content@,
            final(self).image_cache@ == Map::<Seq<char>, ImageEntryV>::empty(),
            final(self).search_results@.len() == 0,
            final(self).current_search_index == 0,
            final(self).toc_headers.deep_view() == toc_spec(events_of(content@)),
            forall|k: int|
                0 <= k < final(self).toc_headers.deep_view().len() ==> 1 <= (#[trigger] final(self).toc_headers.deep_view()[k]).level <= 6,
            final(self).search_query == old(self).search_query,
            final(self).search_case_sensitive == old(self).search_case_sensitive,
            final(self).scroll_to_header == old(self).scroll_to_header,
    {
        self.content = content;
        self.image_cache.clear();
        self.search_results = Vec::new();
        self.current_search_index = 0;
        self.generate_toc();
    }

    /// Rebuilds the table of contents from the current document text. Every
    /// entry's level lies between 1 and 6: the parser produces no others.
    pub fn generate_toc(&mut self)
        ensures
            final(self).toc_headers.deep_view() == toc_spec(events_of(old(self).content@)),
            forall|k: int|
                0 <= k < final(self).toc_headers.deep_view().len() ==> 1 <= (#[trigger] final(self).toc_headers.deep_view()[k]).level <= 6,
            final(self).content == old(self).content,
            final(self).search_query == old(self).search_query,
            final(self).search_case_sensitive == old(self).search_case_sensitive,
            final(self).search_results == old(self).search_results,
            final(self).current_search_index == old(self).current_search_index,
            final(self).scroll_to_header == old(self).scroll_to_header,
            final(self).image_cache == old(self).image_cache,
    {
        let events = parse_events(&self.content);
        self.toc_headers = extract_toc(&events);
        proof {
            lemma_toc_levels_bounded(toc_init(), events.deep_view());
        }
    }

    /// Sets the query and case mode; the results are not rebuilt until
    /// `perform_search` runs.
    pub fn set_search_query(&mut self, query: Vec<char>, case_sensitive: bool)
        ensures
            final(self).search_query@ == query@,
            final(self).search_case_sensitive == case_sensitive,
            final(self).content == old(self).content,
            final(self).search_results == old(self).search_results,
            final(self).current_search_index == old(self).current_search_index,
            final(self).toc_headers == old(self).toc_headers,
            final(self).scroll_to_header == old(self).scroll_to_header,
            final(self).image_cache == old(self).image_cache,
            old(self).wf() ==> final(self).wf(),
    {
        self.search_query = query;
        self.search_case_sensitive = case_sensitive;
    }

    /// Rebuilds the search results from the document text, the query and the
    /// case mode. The cursor is derived state: it is preserved across the
    /// rebuild and clamped into the new range, and cleared when the rebuild
    /// yields nothing. An empty query yields no results.
    pub fn perform_search(&mut self)
        ensures
            final(self).wf() == final(self).image_cache.wf(),
            final(self).search_results.deep_view() == search_spec(
                old(self).content@,
                old(self).search_query@,
                old(self).search_case_sensitive,
            ),
            final(self).search_results@.len() == 0 ==> final(self).current_search_index == 0,
            final(self).search_results@.len() > 0 ==> final(self).current_search_index as int == (
            if (old(self).current_search_index as int) < final(self).search_results@.len() {
                old(self).current_search_index as int
            } else {
                final(self).search_results@.len() - 1
            }),
            final(self).content == old(self).content,
            final(self).search_query == old(self).search_query,
            final(self).search_case_sensitive == old(self).search_case_sensitive,
            final(self).toc_headers == old(self).toc_headers,
            final(self).scroll_to_header == old(self).scroll_to_header,
            final(self).image_cache == old(self).image_cache,
    {
        self.search_results = search(&self.content, &self.search_query, self.search_case_sensitive);
        let n = self.search_results.len();
        if n == 0 {
            self.current_search_index = 0;
        } else if self.current_search_index >= n {
            self.current_search_index = n - 1;
        }
    }

    /// Moves the cursor to the next result, wrapping from the last to the
    /// first; with no results nothing changes and nothing fails.
    pub fn next_search_result(&mut self)
        ensures
            old(self).search_results@.len() == 0 ==> *final(self) == *old(self),
            Self::same_except_cursor(*old(self), *final(self)),
            old(self).search_results@.len() > 0 && (old(self).current_search_index as int) < old(
                self,
            ).search_results@.len() ==> final(self).current_search_index as int == (old(
                self,
            ).current_search_index + 1) as int % (old(self).search_results@.len() as int),
            old(self).search_results@.len() > 0 ==> (final(self).current_search_index as int) < old(
                self,
            ).search_results@.len(),
            old(self).wf() ==> final(self).wf(),
    {
        let n = self.search_results.len();
        if n > 0 {
            let i = self.current_search_index;
            self.current_search_index = if i >= n - 1 {
                0
            } else {
                i + 1
            };
            proof {
                let n0 = n as int;
                let i0 = i as int;
                if i0 < n0 {
                    if i0 == n0 - 1 {
                        assert((i0 + 1) % n0 == 0) by (nonlinear_arith)
                            requires
                                i0 == n0 - 1,
                                n0 > 0,
                        ;
                    } else {
                        assert((i0 + 1) % n0 == i0 + 1) by (nonlinear_arith)
                            requires
                                0 <= i0 + 1 < n0,
                        ;
                    }
                }
            }
        }
    }

    /// Moves the cursor to the previous result, wrapping from the first to
    /// the last; with no results nothing changes and nothing fails.
    pub fn previous_search_result(&mut self)
        ensures
            old(self).search_results@.len() == 0 ==> *final(self) == *old(self),
            Self::same_except_cursor(*old(self), *final(self)),
            old(self).search_results@.len() > 0 ==> final(self).current_search_index as int == (
            if old(self).current_search_index == 0 {
                old(self).search_results@.len() as int - 1
            } else {
                old(self).current_search_index as int - 1
            }),
            old(self).wf() ==> final(self).wf(),
    {
        let n = self.search_results.len();
        if n > 0 {
            let i = self.current_search_index;
            self.current_search_index = if i == 0 {
                n - 1
            } else {
                i - 1
            };
        }
    }

    /// Designates a table-of-contents entry's title as the pending scroll
    /// target for the next pass.
    pub fn select_toc_entry(&mut self, index: usize)
        requires
            (index as int) < old(self).toc_headers@.len(),
        ensures
            final(self).scroll_to_header matches Some(t) && t@ == old(
                self,
            ).toc_headers.deep_view()[index as int].title,
            final(self).content == old(self).content,
            final(self).search_query == old(self).search_query,
            final(self).search_case_sensitive == old(self).search_case_sensitive,
            final(self).search_results == old(self).search_results,
            final(self).current_search_index == old(self).current_search_index,
            final(self).toc_headers == old(self).toc_headers,
            final(self).image_cache == old(self).image_cache,
            old(self).wf() ==> final(self).wf(),
    {
        let title = copy_chars(&self.toc_headers[index].title);
        self.scroll_to_header = Some(title);
    }

    /// Compiles the current document into its block stream under the current
    /// query, and consumes the pending scroll target exactly when a heading
    /// block matches it: the result carries the index of that heading.
    pub fn compile_document(&mut self) -> (r: (Vec<Block>, Option<usize>))
        ensures
            r.0.deep_view() == compile_spec(
                events_of(old(self).content@),
                old(self).search_query@,
                old(self).search_case_sensitive,
            ),
            old(self).scroll_to_header is None ==> r.1 is None && final(self).scroll_to_header
                is None,
            old(self).scroll_to_header matches Some(t) ==> (r.1 matches Some(i) ==> {
                &&& (i as int) < r.0@.len()
                &&& heading_matches(r.0.deep_view()[i as int], t@)
                &&& forall|j: int| 0 <= j < i ==> !heading_matches(r.0.deep_view()[j], t@)
                &&& final(self).scroll_to_header is None
            }),
            old(self).scroll_to_header matches Some(t) ==> (r.1 is None ==> {
                &&& forall|j: int|
                    0 <= j < r.0@.len() ==> !heading_matches(r.0.deep_view()[j], t@)
                &&& final(self).scroll_to_header == old(self).scroll_to_header
            }),
            final(self).content == old(self).content,
            final(self).search_query == old(self).search_query,
            final(self).search_case_sensitive == old(self).search_case_sensitive,
            final(self).search_results == old(self).search_results,
            final(self).current_search_index == old(self).current_search_index,
            final(self).toc_headers == old(self).toc_headers,
            final(self).image_cache == old(self).image_cache,
            old(self).wf() ==> final(self).wf(),
    {
        let events = parse_events(&self.content);
        let blocks = compile_events(&events, &self.search_query, self.search_case_sensitive);
        let hit = match &self.scroll_to_header {
            None => None,
            Some(t) => find_heading(&blocks, t),
        };
        if hit.is_some() {
            self.scroll_to_header = None;
        }
        (blocks, hit)
    }

    /// The recorded outcome for an image reference, if one is cached.
    pub fn cached_image(&self, url: &Vec<char>) -> (r: Option<&ImageEntry>)
        requires
            self.wf(),
        ensures
            match r {
                Some(e) => self.image_cache@.contains_key(url@) && e.deep_view()
                    == self.image_cache@[url@],
                None => !self.image_cache@.contains_key(url@),
            },
    {
        self.image_cache.get(url)
    }

    /// Records the outcome of resolving a reference not yet in the cache, so
    /// that no render pass retries it within this document load.
    pub fn record_image(&mut self, url: Vec<char>, entry: ImageEntry)
        requires
            old(self).wf(),
            !old(self).image_cache@.contains_key(url@),
        ensures
            final(self).wf(),
            final(self).image_cache@ == old(self).image_cache@.insert(url@, entry.deep_view()),
            final(self).content == old(self).content,
            final(self).search_query == old(self).search_query,
            final(self).search_case_sensitive == old(self).search_case_sensitive,
            final(self).search_results == old(self).search_results,
            final(self).current_search_index == old(self).current_search_index,
            final(self).toc_headers == old(self).toc_headers,
            final(self).scroll_to_header == old(self).scroll_to_header,
    {
        self.image_cache.insert(url, entry);
    }
}

/// Compiling the same document twice, under the same query and case mode and
/// with no other state, yields an identical block stream.
pub proof fn lemma_compile_document_deterministic(
    d: Seq<char>,
    query: Seq<char>,
    cs: bool,
    b1: Seq<BlockV>,
    b2: Seq<BlockV>,
)
    requires
        b1 == compile_spec(events_of(d), query, cs),
        b2 == compile_spec(events_of(d), query, cs),
    ensures
        b1 == b2,
{
}

} // verus!
