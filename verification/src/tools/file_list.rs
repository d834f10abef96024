//! Listing a directory for the model: directories first, then files, each
//! group in name order, hidden entries left out.

use crate::text::{lex_sorted, sort_strings, views};
use vstd::prelude::*;
use vstd::string::*;

verus! {

/// What the path names on disk.
#[derive(Debug, Clone, Copy, PartialEq, Eq, Structural)]
pub enum PathKind {
    Missing,
    NotDirectory,
    Directory,
}

/// One entry of a directory.
#[derive(Debug, Clone)]
pub struct DirEntryInfo {
    pub name: String,
    pub is_dir: bool,
}

/// Why a path could not be listed.
#[derive(Debug, Clone)]
pub enum ListError {
    NotFound(String),
    NotADirectory(String),
}

impl ListError {
    /// The message of the error.
    pub fn message(&self) -> (r: String)
        ensures
            match self {
                ListError::NotFound(p) => r@ == "Path not found: "@ + p@,
                ListError::NotADirectory(p) => r@ == "Not a directory: "@ + p@,
            },
    {
        match self {
            ListError::NotFound(p) => {
                let mut m = String::from_str("Path not found: ");
                m.append(p.as_str());
                m
            },
            ListError::NotADirectory(p) => {
                let mut m = String::from_str("Not a directory: ");
                m.append(p.as_str());
                m
            },
        }
    }
}

/// An entry whose name starts with `.` is hidden.
pub open spec fn is_hidden(name: Seq<char>) -> bool {
    name.len() > 0 && name[0] == '.'
}

/// The names shown for visible directories among the first `n` entries, each
/// with a trailing `/`.
pub open spec fn dir_items(entries: Seq<DirEntryInfo>, n: int) -> Seq<Seq<char>>
    decreases n,
{
    if n <= 0 {
        Seq::empty()
    } else {
        let e = entries[n - 1];
        if !is_hidden(e.name@) && e.is_dir {
            dir_items(entries, n - 1).push(e.name@ + "/"@)
        } else {
            dir_items(entries, n - 1)
        }
    }
}

/// The names of visible files among the first `n` entries.
pub open spec fn file_items(entries: Seq<DirEntryInfo>, n: int) -> Seq<Seq<char>>
    decreases n,
{
    if n <= 0 {
        Seq::empty()
    } else {
        let e = entries[n - 1];
        if !is_hidden(e.name@) && !e.is_dir {
            file_items(entries, n - 1).push(e.name@)
        } else {
            file_items(entries, n - 1)
        }
    }
}

/// The lines `. item` for the first `n` items.
pub open spec fn item_lines(items: Seq<Seq<char>>, n: int) -> Seq<char>
    decreases n,
{
    if n <= 0 {
        Seq::empty()
    } else {
        item_lines(items, n - 1) + ". "@ + items[n - 1] + "\n"@
    }
}

/// The listing text: a header with the path, then one line per item.
pub open spec fn listing_text(path: Seq<char>, items: Seq<Seq<char>>) -> Seq<char> {
    "Directory: "@ + path + "\n"@ + item_lines(items, items.len() as int)
}

/// `sorted` holds the items of `items` in ascending order.
pub open spec fn sorted_arrangement(items: Seq<Seq<char>>, sorted: Seq<Seq<char>>) -> bool {
    sorted.to_multiset() == items.to_multiset() && lex_sorted(sorted)
}

/// Lists the entries of the directory at `path`. `kind` says what the path
/// names; `entries` are its entries when it is a directory.
pub fn list(path: &str, kind: PathKind, entries: &Vec<DirEntryInfo>) -> (r: Result<String, ListError>)
    ensures
        kind == PathKind::Missing ==> (r matches Err(ListError::NotFound(p)) && p@ == path@),
        kind == PathKind::NotDirectory ==> (r matches Err(ListError::NotADirectory(p)) && p@
            == path@),
        kind == PathKind::Directory ==> (r matches Ok(text) && exists|
            ds: Seq<Seq<char>>,
            fs: Seq<Seq<char>>,
        |
            sorted_arrangement(dir_items(entries@, entries@.len() as int), ds) && sorted_arrangement(
                file_items(entries@, entries@.len() as int),
                fs,
            ) && text@ == #[trigger] listing_text(path@, ds + fs)),
{
    match kind {
        PathKind::Missing => {
            return Err(ListError::NotFound(String::from_str(path)));
        },
        PathKind::NotDirectory => {
            return Err(ListError::NotADirectory(String::from_str(path)));
        },
        PathKind::Directory => {},
    }
    let mut dirs: Vec<String> = Vec::new();
    let mut files: Vec<String> = Vec::new();
    let mut i: usize = 0;
    while i < entries.len()
        invariant
            i <= entries@.len(),
            views(dirs@) == dir_items(entries@, i as int),
            views(files@) == file_items(entries@, i as int),
        decreases entries.len() - i,
    {
        let e = &entries[i];
        let hidden = e.name.as_str().unicode_len() > 0 && e.name.as_str().get_char(0) == '.';
        if !hidden {
            if e.is_dir {
                let mut d = e.name.clone();
                d.append("/");
                let ghost before = views(dirs@);
                dirs.push(d);
                proof {
                    assert(views(dirs@) =~= before.push(e.name@ + "/"@));
                }
            } else {
                let ghost before = views(files@);
                files.push(e.name.clone());
                proof {
                    assert(views(files@) =~= before.push(e.name@));
                }
            }
        }
        i = i + 1;
    }
    let dirs = sort_strings(dirs);
    let files = sort_strings(files);
    let mut text = String::from_str("Directory: ");
    text.append(path);
    text.append("\n");
    let ghost head = text@;
    let ghost all = views(dirs@) + views(files@);
    let mut k: usize = 0;
    while k < dirs.len()
        invariant
            k <= dirs@.len(),
            all == views(dirs@) + views(files@),
            text@ == head + item_lines(all, k as int),
        decreases dirs.len() - k,
    {
        text.append(". ");
        text.append(dirs[k].as_str());
        text.append("\n");
        k = k + 1;
    }
    let mut m: usize = 0;
    while m < files.len()
        invariant
            m <= files@.len(),
            k == dirs@.len(),
            all == views(dirs@) + views(files@),
            text@ == head + item_lines(all, k + m),
        decreases files.len() - m,
    {
        text.append(". ");
        text.append(files[m].as_str());
        text.append("\n");
        m = m + 1;
    }
    proof {
        assert(text@ == listing_text(path@, all));
    }
    Ok(text)
}

proof fn lemma_dir_items(entries: Seq<DirEntryInfo>, n: int)
    requires
        0 <= n <= entries.len(),
    ensures
        forall|k: int|
            0 <= k < dir_items(entries, n).len() ==> exists|j: int|
                0 <= j < n && entries[j].is_dir && !is_hidden(entries[j].name@) && #[trigger] dir_items(
                    entries,
                    n,
                )[k] == entries[j].name@ + "/"@,
        forall|j: int|
            0 <= j < n && (#[trigger] entries[j]).is_dir && !is_hidden(entries[j].name@) ==> dir_items(
                entries,
                n,
            ).contains(entries[j].name@ + "/"@),
    decreases n,
{
    if n > 0 {
        lemma_dir_items(entries, n - 1);
        let prev = dir_items(entries, n - 1);
        let cur = dir_items(entries, n);
        let e = entries[n - 1];
        if !is_hidden(e.name@) && e.is_dir {
            assert(cur == prev.push(e.name@ + "/"@));
            assert forall|k: int| 0 <= k < cur.len() implies exists|j: int|
                0 <= j < n && entries[j].is_dir && !is_hidden(entries[j].name@) && #[trigger] cur[k]
                    == entries[j].name@ + "/"@ by {
                if k == cur.len() - 1 {
                    assert(cur[k] == entries[n - 1].name@ + "/"@);
                } else {
                    assert(cur[k] == prev[k]);
                }
            }
            assert forall|j: int|
                0 <= j < n && (#[trigger] entries[j]).is_dir && !is_hidden(entries[j].name@) implies cur.contains(
                entries[j].name@ + "/"@,
            ) by {
                if j == n - 1 {
                    assert(cur[cur.len() - 1] == entries[j].name@ + "/"@);
                } else {
                    assert(prev.contains(entries[j].name@ + "/"@));
                    let m = choose|m: int| 0 <= m < prev.len() && prev[m] == entries[j].name@ + "/"@;
                    assert(cur[m] == prev[m]);
                }
            }
        } else {
            assert(cur == prev);
        }
    }
}

proof fn lemma_file_items(entries: Seq<DirEntryInfo>, n: int)
    requires
        0 <= n <= entries.len(),
    ensures
        forall|k: int|
            0 <= k < file_items(entries, n).len() ==> exists|j: int|
                0 <= j < n && !entries[j].is_dir && !is_hidden(entries[j].name@) && #[trigger] file_items(
                    entries,
                    n,
                )[k] == entries[j].name@,
        forall|j: int|
            0 <= j < n && !(#[trigger] entries[j]).is_dir && !is_hidden(entries[j].name@) ==> file_items(
                entries,
                n,
            ).contains(entries[j].name@),
    decreases n,
{
    if n > 0 {
        lemma_file_items(entries, n - 1);
        let prev = file_items(entries, n - 1);
        let cur = file_items(entries, n);
        let e = entries[n - 1];
        if !is_hidden(e.name@) && !e.is_dir {
            assert(cur == prev.push(e.name@));
            assert forall|k: int| 0 <= k < cur.len() implies exists|j: int|
                0 <= j < n && !entries[j].is_dir && !is_hidden(entries[j].name@) && #[trigger] cur[k]
                    == entries[j].name@ by {
                if k == cur.len() - 1 {
                    assert(cur[k] == entries[n - 1].name@);
                } else {
                    assert(cur[k] == prev[k]);
                }
            }
            assert forall|j: int|
                0 <= j < n && !(#[trigger] entries[j]).is_dir && !is_hidden(entries[j].name@) implies cur.contains(
                entries[j].name@,
            ) by {
                if j == n - 1 {
                    assert(cur[cur.len() - 1] == entries[j].name@);
                } else {
                    assert(prev.contains(entries[j].name@));
                    let m = choose|m: int| 0 <= m < prev.len() && prev[m] == entries[j].name@;
                    assert(cur[m] == prev[m]);
                }
            }
        } else {
            assert(cur == prev);
        }
    }
}

/// `item` is the name of a directory entry not starting with `.`, followed by `/`.
pub open spec fn names_visible_directory(entries: Seq<DirEntryInfo>, item: Seq<char>) -> bool {
    exists|j: int|
        0 <= j < entries.len() && (#[trigger] entries[j]).is_dir && !(entries[j].name@.len() > 0
            && entries[j].name@[0] == '.') && item == entries[j].name@ + "/"@
}

/// `item` is the name of a file entry not starting with `.`.
pub open spec fn names_visible_file(entries: Seq<DirEntryInfo>, item: Seq<char>) -> bool {
    exists|j: int|
        0 <= j < entries.len() && !(#[trigger] entries[j]).is_dir && !(entries[j].name@.len() > 0
            && entries[j].name@[0] == '.') && item == entries[j].name@
}

/// The listing shows exactly the visible entries: every directory item is the
/// name of a directory entry not starting with `.`, followed by `/`; every
/// file item is the name of a file entry not starting with `.`; and every
/// such entry is shown. No item names an entry whose name starts with `.`.
pub proof fn law_listing_shows_exactly_the_visible_entries(
    entries: Seq<DirEntryInfo>,
    ds: Seq<Seq<char>>,
    fs: Seq<Seq<char>>,
)
    requires
        sorted_arrangement(dir_items(entries, entries.len() as int), ds),
        sorted_arrangement(file_items(entries, entries.len() as int), fs),
    ensures
        forall|k: int| 0 <= k < ds.len() ==> names_visible_directory(entries, #[trigger] ds[k]),
        forall|k: int| 0 <= k < fs.len() ==> names_visible_file(entries, #[trigger] fs[k]),
        forall|j: int|
            0 <= j < entries.len() && (#[trigger] entries[j]).is_dir && !(entries[j].name@.len() > 0
                && entries[j].name@[0] == '.') ==> ds.contains(entries[j].name@ + "/"@),
        forall|j: int|
            0 <= j < entries.len() && !(#[trigger] entries[j]).is_dir && !(entries[j].name@.len() > 0
                && entries[j].name@[0] == '.') ==> fs.contains(entries[j].name@),
{
    let n = entries.len() as int;
    let di = dir_items(entries, n);
    let fi = file_items(entries, n);
    lemma_dir_items(entries, n);
    lemma_file_items(entries, n);
    ds.to_multiset_ensures();
    fs.to_multiset_ensures();
    di.to_multiset_ensures();
    fi.to_multiset_ensures();
    assert forall|k: int| 0 <= k < ds.len() implies names_visible_directory(entries, #[trigger] ds[k]) by {
        assert(ds.contains(ds[k]));
        assert(ds.to_multiset().count(ds[k]) > 0);
        assert(di.contains(ds[k]));
        let m = choose|m: int| 0 <= m < di.len() && di[m] == ds[k];
        let j = choose|j: int|
            0 <= j < n && entries[j].is_dir && !is_hidden(entries[j].name@) && #[trigger] dir_items(
                entries,
                n,
            )[m] == entries[j].name@ + "/"@;
        assert(entries[j].is_dir);
    }
    assert forall|k: int| 0 <= k < fs.len() implies names_visible_file(entries, #[trigger] fs[k]) by {
        assert(fs.contains(fs[k]));
        assert(fs.to_multiset().count(fs[k]) > 0);
        assert(fi.contains(fs[k]));
        let m = choose|m: int| 0 <= m < fi.len() && fi[m] == fs[k];
        let j = choose|j: int|
            0 <= j < n && !entries[j].is_dir && !is_hidden(entries[j].name@) && #[trigger] file_items(
                entries,
                n,
            )[m] == entries[j].name@;
        assert(!entries[j].is_dir);
    }
    assert forall|j: int|
        0 <= j < entries.len() && (#[trigger] entries[j]).is_dir && !(entries[j].name@.len() > 0
            && entries[j].name@[0] == '.') implies ds.contains(entries[j].name@ + "/"@) by {
        assert(di.contains(entries[j].name@ + "/"@));
        assert(di.to_multiset().count(entries[j].name@ + "/"@) > 0);
    }
    assert forall|j: int|
        0 <= j < entries.len() && !(#[trigger] entries[j]).is_dir && !(entries[j].name@.len() > 0
            && entries[j].name@[0] == '.') implies fs.contains(entries[j].name@) by {
        assert(fi.contains(entries[j].name@));
        assert(fi.to_multiset().count(entries[j].name@) > 0);
    }
}

} // verus!
