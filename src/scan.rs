//! The directory listing rules: which entries are image files, and which
//! subdirectories a scan descends into.
use vstd::prelude::*;

use crate::text::chars_of;

verus! {

/// What `str::to_lowercase` returns for a text.
pub uninterp spec fn lowercase_of(s: Seq<char>) -> Seq<char>;

/// Relies on `str::to_lowercase`: the result depends on the characters alone.
#[verifier::external_body]
fn lowercase(s: &str) -> (r: String)
    ensures
        r@ == lowercase_of(s@),
{
    s.to_lowercase()
}

/// The allowed image extensions, in lowercase.
pub open spec fn image_extension(e: Seq<char>) -> bool {
    ||| e == seq!['j', 'p', 'g']
    ||| e == seq!['j', 'p', 'e', 'g']
    ||| e == seq!['p', 'n', 'g']
    ||| e == seq!['g', 'i', 'f']
    ||| e == seq!['h', 'e', 'i', 'c']
    ||| e == seq!['w', 'e', 'b', 'p']
    ||| e == seq!['t', 'i', 'f', 'f']
}

fn same_chars(a: &Vec<char>, b: &Vec<char>) -> (r: bool)
    ensures
        r == (a@ == b@),
{
    if a.len() != b.len() {
        return false;
    }
    let mut i: usize = 0;
    while i < a.len()
        invariant
            i <= a@.len(),
            a@.len() == b@.len(),
            forall|k: int| 0 <= k < i ==> a@[k] == b@[k],
        decreases a@.len() - i,
    {
        if a[i] != b[i] {
            return false;
        }
        i = i + 1;
    }
    assert(a@ =~= b@);
    true
}

/// Whether an already lowercased extension is one of the allowed ones.
pub fn is_image_extension_lowered(ext: &str) -> (r: bool)
    ensures
        r == image_extension(ext@),
{
    let e = chars_of(ext);
    let jpg = vec!['j', 'p', 'g'];
    let jpeg = vec!['j', 'p', 'e', 'g'];
    let png = vec!['p', 'n', 'g'];
    let gif = vec!['g', 'i', 'f'];
    let heic = vec!['h', 'e', 'i', 'c'];
    let webp = vec!['w', 'e', 'b', 'p'];
    let tiff = vec!['t', 'i', 'f', 'f'];
    assert(jpg@ =~= seq!['j', 'p', 'g']);
    assert(jpeg@ =~= seq!['j', 'p', 'e', 'g']);
    assert(png@ =~= seq!['p', 'n', 'g']);
    assert(gif@ =~= seq!['g', 'i', 'f']);
    assert(heic@ =~= seq!['h', 'e', 'i', 'c']);
    assert(webp@ =~= seq!['w', 'e', 'b', 'p']);
    assert(tiff@ =~= seq!['t', 'i', 'f', 'f']);
    same_chars(&e, &jpg) || same_chars(&e, &jpeg) || same_chars(&e, &png) || same_chars(&e, &gif)
        || same_chars(&e, &heic) || same_chars(&e, &webp) || same_chars(&e, &tiff)
}

/// Whether a file extension, lowercased, is one of the allowed ones.
pub fn is_image_extension(ext: &str) -> (r: bool)
    ensures
        r == image_extension(lowercase_of(ext@)),
{
    let lowered = lowercase(ext);
    is_image_extension_lowered(lowered.as_str())
}

#[derive(Clone, Copy, Debug, PartialEq, Eq)]
pub enum EntryKind {
    File,
    Directory,
    Other,
}

/// One entry of a directory listing: its path, what it is, and its
/// extension as text if it has one.
pub struct ScanEntry {
    pub path: String,
    pub kind: EntryKind,
    pub extension: Option<String>,
}

/// What a scan takes from one listing: the image files it keeps and the
/// subdirectories it descends into next.
pub struct ListingResult {
    pub files: Vec<String>,
    pub subdirs: Vec<String>,
}

pub open spec fn is_image_entry(e: ScanEntry) -> bool {
    &&& e.kind == EntryKind::File
    &&& e.extension matches Some(x) && image_extension(lowercase_of(x@))
}

/// The paths of the image files of a listing, in listing order.
pub open spec fn image_files(es: Seq<ScanEntry>) -> Seq<Seq<char>>
    decreases es.len(),
{
    if es.len() == 0 {
        Seq::empty()
    } else {
        let rest = image_files(es.drop_last());
        if is_image_entry(es.last()) {
            rest.push(es.last().path@)
        } else {
            rest
        }
    }
}

/// The paths of the subdirectories of a listing, in listing order.
pub open spec fn subdirectories(es: Seq<ScanEntry>) -> Seq<Seq<char>>
    decreases es.len(),
{
    if es.len() == 0 {
        Seq::empty()
    } else {
        let rest = subdirectories(es.drop_last());
        if es.last().kind == EntryKind::Directory {
            rest.push(es.last().path@)
        } else {
            rest
        }
    }
}

/// Applies the listing rules to one directory's entries: image files are
/// kept; subdirectories are descended into only by a recursive scan.
pub fn scan_listing(entries: &Vec<ScanEntry>, recursive: bool) -> (r: ListingResult)
    ensures
        r.files@.len() == image_files(entries@).len(),
        forall|k: int| 0 <= k < r.files@.len() ==> #[trigger] r.files@[k]@ == image_files(entries@)[k],
        recursive ==> r.subdirs@.len() == subdirectories(entries@).len(),
        recursive ==> forall|k: int|
            0 <= k < r.subdirs@.len() ==> #[trigger] r.subdirs@[k]@ == subdirectories(entries@)[k],
        !recursive ==> r.subdirs@.len() == 0,
{
    let mut files: Vec<String> = Vec::new();
    let mut subdirs: Vec<String> = Vec::new();
    let mut i: usize = 0;
    while i < entries.len()
        invariant
            i <= entries@.len(),
            files@.len() == image_files(entries@.subrange(0, i as int)).len(),
            forall|k: int|
                0 <= k < files@.len() ==> #[trigger] files@[k]@ == image_files(entries@.subrange(0, i as int))[k],
            recursive ==> subdirs@.len() == subdirectories(entries@.subrange(0, i as int)).len(),
            recursive ==> forall|k: int|
                0 <= k < subdirs@.len() ==> #[trigger] subdirs@[k]@ == subdirectories(entries@.subrange(0, i as int))[k],
            !recursive ==> subdirs@.len() == 0,
        decreases entries@.len() - i,
    {
        let e = &entries[i];
        assert(entries@.subrange(0, i + 1).drop_last() =~= entries@.subrange(0, i as int));
        assert(entries@.subrange(0, i + 1).last() == *e);
        match e.kind {
            EntryKind::File => {
                let keep = match &e.extension {
                    Some(x) => is_image_extension(x.as_str()),
                    None => false,
                };
                if keep {
                    files.push(e.path.clone());
                }
            },
            EntryKind::Directory => {
                if recursive {
                    subdirs.push(e.path.clone());
                }
            },
            EntryKind::Other => {},
        }
        i = i + 1;
    }
    assert(entries@.subrange(0, entries@.len() as int) =~= entries@);
    ListingResult { files, subdirs }
}

pub open spec fn texts(v: Seq<String>) -> Seq<Seq<char>> {
    v.map_values(|s: String| s@)
}

/// A scan in progress: the directories still to list, the image files found
/// so far, and whether subdirectories are descended into.
pub struct ScanWalk {
    pending: Vec<String>,
    files: Vec<String>,
    recursive: bool,
}

impl ScanWalk {
    pub closed spec fn pending(&self) -> Seq<Seq<char>> {
        texts(self.pending@)
    }

    pub closed spec fn found(&self) -> Seq<Seq<char>> {
        texts(self.files@)
    }

    pub closed spec fn is_recursive(&self) -> bool {
        self.recursive
    }

    /// A scan that starts at `root`.
    pub fn new(root: String, recursive: bool) -> (r: ScanWalk)
        ensures
            r.pending() == seq![root@],
            r.found().len() == 0,
            r.is_recursive() == recursive,
    {
        let mut pending: Vec<String> = Vec::new();
        let ghost root_text = root@;
        pending.push(root);
        assert(texts(pending@) =~= seq![root_text]);
        ScanWalk { pending, files: Vec::new(), recursive }
    }

    /// The next directory to list, most recently found first; `None` once
    /// the scan is complete.
    pub fn next_directory(&mut self) -> (r: Option<String>)
        ensures
            final(self).is_recursive() == old(self).is_recursive(),
            final(self).found() == old(self).found(),
            old(self).pending().len() == 0 ==> r is None && final(self).pending() == old(self).pending(),
            old(self).pending().len() > 0 ==> (r matches Some(d) && d@ == old(self).pending().last()
                && final(self).pending() == old(self).pending().drop_last()),
    {
        let r = self.pending.pop();
        proof {
            if old(self).pending@.len() > 0 {
                assert(texts(self.pending@) =~= texts(old(self).pending@).drop_last());
            }
        }
        r
    }

    /// Takes in the listing of the directory last handed out: its image files
    /// are found, and its subdirectories are queued when the scan is
    /// recursive.
    pub fn absorb(&mut self, entries: &Vec<ScanEntry>)
        ensures
            final(self).is_recursive() == old(self).is_recursive(),
            final(self).found() == old(self).found() + image_files(entries@),
            old(self).is_recursive() ==> final(self).pending() == old(self).pending()
                + subdirectories(entries@),
            !old(self).is_recursive() ==> final(self).pending() == old(self).pending(),
    {
        let listing = scan_listing(entries, self.recursive);
        let ghost files0 = texts(self.files@);
        let ghost pending0 = texts(self.pending@);
        let mut i: usize = 0;
        while i < listing.files.len()
            invariant
                i <= listing.files@.len(),
                listing.files@.len() == image_files(entries@).len(),
                forall|k: int| 0 <= k < listing.files@.len() ==> #[trigger] listing.files@[k]@ == image_files(entries@)[k],
                texts(self.files@) == files0 + image_files(entries@).subrange(0, i as int),
                texts(self.pending@) == pending0,
                self.recursive == old(self).recursive,
            decreases listing.files@.len() - i,
        {
            let ghost before = self.files@;
            self.files.push(listing.files[i].clone());
            assert(texts(self.files@) =~= texts(before).push(listing.files@[i as int]@));
            assert(image_files(entries@).subrange(0, i + 1) =~= image_files(entries@).subrange(0, i as int).push(image_files(entries@)[i as int]));
            i = i + 1;
        }
        let mut j: usize = 0;
        while j < listing.subdirs.len()
            invariant
                j <= listing.subdirs@.len(),
                self.recursive == old(self).recursive,
                self.recursive ==> listing.subdirs@.len() == subdirectories(entries@).len(),
                self.recursive ==> forall|k: int| 0 <= k < listing.subdirs@.len() ==> #[trigger] listing.subdirs@[k]@ == subdirectories(entries@)[k],
                !self.recursive ==> listing.subdirs@.len() == 0,
                self.recursive ==> texts(self.pending@) == pending0 + subdirectories(entries@).subrange(0, j as int),
                !self.recursive ==> texts(self.pending@) == pending0,
                texts(self.files@) == files0 + image_files(entries@),
            decreases listing.subdirs@.len() - j,
        {
            let ghost before = self.pending@;
            self.pending.push(listing.subdirs[j].clone());
            assert(texts(self.pending@) =~= texts(before).push(listing.subdirs@[j as int]@));
            assert(subdirectories(entries@).subrange(0, j + 1) =~= subdirectories(entries@).subrange(0, j as int).push(subdirectories(entries@)[j as int]));
            j = j + 1;
        }
        assert(image_files(entries@).subrange(0, image_files(entries@).len() as int) =~= image_files(entries@));
        assert(subdirectories(entries@).subrange(0, subdirectories(entries@).len() as int) =~= subdirectories(entries@));
    }

    /// The image files found, in the order found.
    pub fn into_files(self) -> (r: Vec<String>)
        ensures
            texts(r@) == self.found(),
    {
        self.files
    }
}

} // verus!
