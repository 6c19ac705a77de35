//! The image resolver's verified side: reference classification, the
//! per-document cache keyed by the literal reference string, and the
//! placeholder shown when a reference fails to resolve.
//!
//! The byte retrieval and pixel decoding are the collaborators' work; the
//! cache records their outcome per reference, a decoded-image handle or a
//! terminal error message, so a known-bad reference is never retried within
//! one document load.

use vstd::prelude::*;

use crate::text::{copy_chars, chars_eq, match_at, match_chars_at};

verus! {

/// The recorded outcome of resolving one image reference.
#[derive(Clone, PartialEq, Eq, Debug)]
pub enum ImageEntry {
    /// A decoded image, as the handle the presentation layer assigned.
    Ready(u64),
    /// A terminal failure, with its human-readable message.
    Failed(Vec<char>),
}

/// The mathematical value of a cache entry.
#[verifier::ext_equal]
pub enum ImageEntryV {
    /// A decoded image handle.
    Ready(u64),
    /// A terminal failure message.
    Failed(Seq<char>),
}

impl DeepView for ImageEntry {
    type V = ImageEntryV;

    open spec fn deep_view(&self) -> ImageEntryV {
        match self {
            ImageEntry::Ready(h) => ImageEntryV::Ready(*h),
            ImageEntry::Failed(m) => ImageEntryV::Failed(m@),
        }
    }
}

/// One cache slot: a reference string and its recorded outcome.
#[derive(Clone, PartialEq, Eq, Debug)]
struct CacheSlot {
    /// The reference exactly as it appears in the source.
    key: Vec<char>,
    /// The recorded outcome.
    value: ImageEntry,
}

/// The mathematical value of a cache slot.
#[verifier::ext_equal]
pub struct CacheSlotV {
    /// The reference string.
    pub key: Seq<char>,
    /// The recorded outcome.
    pub value: ImageEntryV,
}

impl DeepView for CacheSlot {
    type V = CacheSlotV;

    closed spec fn deep_view(&self) -> CacheSlotV {
        CacheSlotV { key: self.key@, value: self.value.deep_view() }
    }
}

/// The mapping a sequence of slots holds, later slots overriding earlier.
pub closed spec fn slots_map(s: Seq<CacheSlotV>) -> Map<Seq<char>, ImageEntryV>
    decreases s.len(),
{
    if s.len() == 0 {
        Map::empty()
    } else {
        slots_map(s.drop_last()).insert(s.last().key, s.last().value)
    }
}

/// A key is in the mapping exactly when some slot holds it.
proof fn lemma_slots_map_contains(s: Seq<CacheSlotV>, k: Seq<char>)
    ensures
        slots_map(s).contains_key(k) <==> exists|i: int| 0 <= i < s.len() && s[i].key == k,
    decreases s.len(),
{
    if s.len() == 0 {
    } else {
        lemma_slots_map_contains(s.drop_last(), k);
        if s.last().key == k {
            assert(s[s.len() - 1].key == k);
        } else if slots_map(s).contains_key(k) {
            let i = choose|i: int| 0 <= i < s.drop_last().len() && s.drop_last()[i].key == k;
            assert(s[i].key == k);
        } else {
            assert forall|i: int| 0 <= i < s.len() implies s[i].key != k by {
                if i < s.len() - 1 {
                    assert(s.drop_last()[i] == s[i]);
                }
            }
        }
    }
}

/// With distinct keys, the slot holding a key gives its mapped value.
proof fn lemma_slots_map_at(s: Seq<CacheSlotV>, i: int)
    requires
        0 <= i < s.len(),
        forall|a: int, b: int| 0 <= a < b < s.len() ==> s[a].key != s[b].key,
    ensures
        slots_map(s).contains_key(s[i].key),
        slots_map(s)[s[i].key] == s[i].value,
    decreases s.len(),
{
    if i == s.len() - 1 {
    } else {
        assert forall|a: int, b: int| 0 <= a < b < s.drop_last().len() implies s.drop_last()[a].key
            != s.drop_last()[b].key by {
            assert(s.drop_last()[a] == s[a]);
            assert(s.drop_last()[b] == s[b]);
        }
        lemma_slots_map_at(s.drop_last(), i);
        assert(s.drop_last()[i] == s[i]);
        assert(s[i].key != s[s.len() - 1].key);
    }
}

/// The per-document image cache: at most one entry per distinct reference
/// string, cleared in full on every new document load.
#[derive(Clone, PartialEq, Eq, Debug)]
pub struct ImageCache {
    entries: Vec<CacheSlot>,
}

impl View for ImageCache {
    type V = Map<Seq<char>, ImageEntryV>;

    closed spec fn view(&self) -> Map<Seq<char>, ImageEntryV> {
        slots_map(self.entries.deep_view())
    }
}

impl ImageCache {
    /// The cache keeps at most one entry per distinct reference string.
    pub closed spec fn wf(&self) -> bool {
        forall|a: int, b: int|
            0 <= a < b < self.entries.deep_view().len() ==> self.entries.deep_view()[a].key
                != self.entries.deep_view()[b].key
    }

    /// An empty cache.
    pub fn new() -> (r: Self)
        ensures
            r@ == Map::<Seq<char>, ImageEntryV>::empty(),
            r.wf(),
    {
        let r = ImageCache { entries: Vec::new() };
        assert(r.entries.deep_view() =~= Seq::<CacheSlotV>::empty());
        r
    }

    /// The recorded outcome for a reference, if there is one.
    pub fn get(&self, url: &Vec<char>) -> (r: Option<&ImageEntry>)
        requires
            self.wf(),
        ensures
            match r {
                Some(e) => self@.contains_key(url@) && e.deep_view() == self@[url@],
                None => !self@.contains_key(url@),
            },
    {
        let n = self.entries.len();
        let mut i: usize = 0;
        while i < n
            invariant
                i <= n,
                n == self.entries@.len(),
                self.wf(),
                forall|k: int| 0 <= k < i ==> self.entries.deep_view()[k].key != url@,
            decreases n - i,
        {
            if chars_eq(&self.entries[i].key, url) {
                proof {
                    lemma_slots_map_at(self.entries.deep_view(), i as int);
                }
                return Some(&self.entries[i].value);
            }
            i += 1;
        }
        proof {
            lemma_slots_map_contains(self.entries.deep_view(), url@);
        }
        None
    }

    /// Records the outcome for a reference not yet in the cache.
    pub fn insert(&mut self, url: Vec<char>, entry: ImageEntry)
        requires
            old(self).wf(),
            !old(self)@.contains_key(url@),
        ensures
            final(self).wf(),
            final(self)@ == old(self)@.insert(url@, entry.deep_view()),
    {
        proof {
            lemma_slots_map_contains(old(self).entries.deep_view(), url@);
        }
        let ghost pre = self.entries.deep_view();
        let slot = CacheSlot { key: url, value: entry };
        let ghost sv = slot.deep_view();
        self.entries.push(slot);
        assert(self.entries.deep_view() =~= pre.push(sv));
        assert(self.entries.deep_view().drop_last() =~= pre);
        assert(final(self)@ == old(self)@.insert(sv.key, sv.value));
    }

    /// Forgets everything: the whole cache is invalidated on a document load.
    pub fn clear(&mut self)
        ensures
            final(self).wf(),
            final(self)@ == Map::<Seq<char>, ImageEntryV>::empty(),
    {
        self.entries = Vec::new();
        assert(self.entries.deep_view() =~= Seq::<CacheSlotV>::empty());
    }

    /// Whether the cache holds no entry at all.
    pub fn is_empty(&self) -> (r: bool)
        ensures
            r == (self@ == Map::<Seq<char>, ImageEntryV>::empty()),
    {
        let r = self.entries.len() == 0;
        proof {
            if self.entries.len() == 0 {
                assert(self.entries.deep_view() =~= Seq::<CacheSlotV>::empty());
            } else {
                let s = self.entries.deep_view();
                assert(slots_map(s).contains_key(s.last().key));
                assert(slots_map(s) != Map::<Seq<char>, ImageEntryV>::empty());
            }
        }
        r
    }
}

/// The scheme prefix that marks a reference as a network fetch.
pub open spec fn is_remote_spec(url: Seq<char>) -> bool {
    ||| match_at(url, seq!['h', 't', 't', 'p', ':', '/', '/'], true, 0)
    ||| match_at(url, seq!['h', 't', 't', 'p', 's', ':', '/', '/'], true, 0)
}

/// Whether a reference is an absolute network reference (`http://` or
/// `https://`); anything else resolves as a filesystem path.
pub fn is_remote(url: &Vec<char>) -> (r: bool)
    ensures
        r == is_remote_spec(url@),
{
    let mut http: Vec<char> = Vec::new();
    http.push('h');
    http.push('t');
    http.push('t');
    http.push('p');
    http.push(':');
    http.push('/');
    http.push('/');
    assert(http@ =~= seq!['h', 't', 't', 'p', ':', '/', '/']);
    let mut https: Vec<char> = Vec::new();
    https.push('h');
    https.push('t');
    https.push('t');
    https.push('p');
    https.push('s');
    https.push(':');
    https.push('/');
    https.push('/');
    assert(https@ =~= seq!['h', 't', 't', 'p', 's', ':', '/', '/']);
    let a = match_chars_at(url, &http, true, 0);
    let b = match_chars_at(url, &https, true, 0);
    a || b
}

/// Where a local reference resolves: itself when absolute, else under the
/// directory of the loaded document, or as given with no document loaded.
pub open spec fn local_target_spec(url: Seq<char>, base_dir: Option<Seq<char>>) -> Seq<char> {
    match base_dir {
        None => url,
        Some(d) => if url.len() > 0 && url[0] == '/' {
            url
        } else {
            d + seq!['/'] + url
        },
    }
}

/// Resolves a local reference against the directory holding the document.
pub fn local_target(url: &Vec<char>, base_dir: &Option<Vec<char>>) -> (r: Vec<char>)
    ensures
        r@ == local_target_spec(url@, match base_dir {
            Some(d) => Some(d@),
            None => None,
        }),
{
    match base_dir {
        None => copy_chars(url),
        Some(d) => {
            if url.len() > 0 && url[0] == '/' {
                copy_chars(url)
            } else {
                let mut r = copy_chars(d);
                r.push('/');
                let mut tail = copy_chars(url);
                r.append(&mut tail);
                assert(r@ =~= d@ + seq!['/'] + url@);
                r
            }
        },
    }
}

/// The placeholder a failed image renders as: a caption and, separately, the
/// literal reference string.
#[derive(Clone, PartialEq, Eq, Debug)]
pub struct ImagePlaceholder {
    /// The caption: the alt text when there is one, else the reference.
    pub caption: Vec<char>,
    /// The reference exactly as it appears in the source.
    pub reference: Vec<char>,
}

/// The caption of the placeholder: `Image: ` then the alt text, or the
/// reference itself when the alt text is empty.
pub open spec fn placeholder_caption_spec(url: Seq<char>, alt: Seq<char>) -> Seq<char> {
    seq!['I', 'm', 'a', 'g', 'e', ':', ' '] + (if alt.len() > 0 {
        alt
    } else {
        url
    })
}

/// Builds the placeholder for a reference that failed to resolve. The
/// reference string itself is always carried, never an error value.
pub fn image_placeholder(url: &Vec<char>, alt: &Vec<char>) -> (r: ImagePlaceholder)
    ensures
        r.caption@ == placeholder_caption_spec(url@, alt@),
        r.reference@ == url@,
{
    let mut caption: Vec<char> = Vec::new();
    caption.push('I');
    caption.push('m');
    caption.push('a');
    caption.push('g');
    caption.push('e');
    caption.push(':');
    caption.push(' ');
    assert(caption@ =~= seq!['I', 'm', 'a', 'g', 'e', ':', ' ']);
    let mut tail = if alt.len() > 0 {
        copy_chars(alt)
    } else {
        copy_chars(url)
    };
    caption.append(&mut tail);
    assert(caption@ =~= placeholder_caption_spec(url@, alt@));
    ImagePlaceholder { caption, reference: copy_chars(url) }
}

} // verus!
