//! The disk-space analyzer: one directory level listed by size, largest
//! first, and the state of the analyzer panel as the user moves through
//! directories and scans report back.

use vstd::prelude::*;
use crate::multiboot::{join, path_join};
use crate::sort::is_permutation;

verus! {

/// A file, or a directory with the size of its whole tree.
#[derive(Debug, PartialEq)]
pub struct UsageEntry {
    pub name: String,
    pub is_dir: bool,
    pub size_bytes: u64,
}

/// The sum of the entries' sizes.
pub open spec fn sizes_sum(s: Seq<UsageEntry>) -> nat
    decreases s.len(),
{
    if s.len() == 0 {
        0
    } else {
        sizes_sum(s.drop_last()) + s.last().size_bytes as nat
    }
}

/// `out` is `input` ordered by size, largest first, entries of equal size
/// in their given order.
pub open spec fn by_size_desc(input: Seq<UsageEntry>, out: Seq<UsageEntry>) -> bool {
    exists|perm: Seq<int>|
        {
            &&& is_permutation(perm, input.len() as int)
            &&& out.len() == input.len()
            &&& forall|k: int| 0 <= k < out.len() ==> #[trigger] out[k] == input[perm[k]]
            &&& forall|a: int, c: int|
                0 <= a < c < out.len() ==> out[a].size_bytes >= out[c].size_bytes
            &&& forall|a: int, c: int|
                0 <= a < c < out.len() && out[a].size_bytes == out[c].size_bytes ==> perm[a] < perm[c]
        }
}

/// One level of a directory tree: its entries, largest first, and their
/// total size.
#[derive(Debug, PartialEq)]
pub struct UsageListing {
    pub items: Vec<UsageEntry>,
    pub total_bytes: u64,
}

fn sort_by_size_desc(items: Vec<UsageEntry>) -> (r: Vec<UsageEntry>)
    ensures
        by_size_desc(items@, r@),
{
    let ghost input = items@;
    let ghost n = items@.len() as int;
    let mut src = items;
    let mut out: Vec<UsageEntry> = Vec::new();
    let ghost mut perm: Seq<int> = Seq::empty();
    let ghost mut k: int = 0;
    while src.len() > 0
        invariant
            0 <= k <= n,
            n == input.len(),
            src@ == input.subrange(k, n),
            out@.len() == k,
            perm.len() == k,
            forall|i: int| 0 <= i < k ==> 0 <= #[trigger] perm[i] < k,
            forall|i: int, j: int| 0 <= i < j < k ==> perm[i] != perm[j],
            forall|i: int| 0 <= i < k ==> #[trigger] out@[i] == input[perm[i]],
            forall|a: int, c: int| 0 <= a < c < k ==> out@[a].size_bytes >= out@[c].size_bytes,
            forall|a: int, c: int|
                0 <= a < c < k && out@[a].size_bytes == out@[c].size_bytes ==> perm[a] < perm[c],
        decreases src@.len(),
    {
        let x = src.remove(0);
        assert(x == input[k]);
        let mut pos: usize = 0;
        while pos < out.len() && out[pos].size_bytes >= x.size_bytes
            invariant
                pos <= out@.len(),
                forall|i: int| 0 <= i < pos ==> #[trigger] out@[i].size_bytes >= x.size_bytes,
            decreases out@.len() - pos,
        {
            pos = pos + 1;
        }
        let ghost old_out = out@;
        let ghost old_perm = perm;
        proof {
            if pos < out@.len() {
                assert forall|j: int| pos <= j < out@.len() implies #[trigger] out@[j].size_bytes
                    < x.size_bytes by {
                    assert(out@[pos as int].size_bytes < x.size_bytes);
                    if j > pos {
                        assert(out@[pos as int].size_bytes >= out@[j].size_bytes);
                    }
                }
            }
        }
        out.insert(pos, x);
        proof {
            perm = old_perm.insert(pos as int, k);
            assert(out@ == old_out.insert(pos as int, x));
            assert forall|i: int| 0 <= i < k + 1 implies 0 <= #[trigger] perm[i] < k + 1 by {
                if i < pos {
                    assert(perm[i] == old_perm[i]);
                } else if i > pos {
                    assert(perm[i] == old_perm[i - 1]);
                }
            }
            assert forall|i: int, j: int| 0 <= i < j < k + 1 implies perm[i] != perm[j] by {
                if i < pos && j < pos {
                    assert(perm[i] == old_perm[i] && perm[j] == old_perm[j]);
                } else if i < pos && j > pos {
                    assert(perm[i] == old_perm[i] && perm[j] == old_perm[j - 1]);
                } else if i > pos && j > pos {
                    assert(perm[i] == old_perm[i - 1] && perm[j] == old_perm[j - 1]);
                } else if i == pos {
                    assert(perm[j] == old_perm[j - 1]);
                } else {
                    assert(perm[i] == old_perm[i]);
                }
            }
            assert forall|i: int| 0 <= i < k + 1 implies #[trigger] out@[i] == input[perm[i]] by {
                if i < pos {
                    assert(out@[i] == old_out[i] && perm[i] == old_perm[i]);
                } else if i > pos {
                    assert(out@[i] == old_out[i - 1] && perm[i] == old_perm[i - 1]);
                }
            }
            assert forall|a: int, c: int| 0 <= a < c < k + 1 implies out@[a].size_bytes
                >= out@[c].size_bytes by {
                if a < pos && c < pos {
                    assert(out@[a] == old_out[a] && out@[c] == old_out[c]);
                } else if a < pos && c == pos {
                    assert(out@[a] == old_out[a]);
                } else if a < pos && c > pos {
                    assert(out@[a] == old_out[a] && out@[c] == old_out[c - 1]);
                } else if a == pos {
                    assert(out@[c] == old_out[c - 1]);
                } else {
                    assert(out@[a] == old_out[a - 1] && out@[c] == old_out[c - 1]);
                }
            }
            assert forall|a: int, c: int|
                0 <= a < c < k + 1 && out@[a].size_bytes == out@[c].size_bytes implies perm[a]
                < perm[c] by {
                if a < pos && c < pos {
                    assert(out@[a] == old_out[a] && out@[c] == old_out[c]);
                    assert(perm[a] == old_perm[a] && perm[c] == old_perm[c]);
                } else if a < pos && c == pos {
                    assert(perm[a] == old_perm[a]);
                } else if a < pos && c > pos {
                    assert(out@[a] == old_out[a] && out@[c] == old_out[c - 1]);
                } else if a == pos {
                    assert(out@[c] == old_out[c - 1]);
                } else {
                    assert(out@[a] == old_out[a - 1] && out@[c] == old_out[c - 1]);
                    assert(perm[a] == old_perm[a - 1] && perm[c] == old_perm[c - 1]);
                }
            }
            k = k + 1;
            assert(src@ =~= input.subrange(k, n));
        }
    }
    proof {
        assert(k == n);
        assert(is_permutation(perm, input.len() as int));
        assert(by_size_desc(input, out@));
    }
    out
}

/// The listing of one directory level: its entries ordered by size,
/// largest first (equal sizes in the order read), and their total size.
pub fn usage_listing(items: Vec<UsageEntry>) -> (r: UsageListing)
    requires
        sizes_sum(items@) <= u64::MAX,
    ensures
        by_size_desc(items@, r.items@),
        r.total_bytes == sizes_sum(items@),
{
    let mut total: u64 = 0;
    let mut i: usize = 0;
    while i < items.len()
        invariant
            i <= items@.len(),
            sizes_sum(items@) <= u64::MAX,
            total == sizes_sum(items@.subrange(0, i as int)),
        decreases items@.len() - i,
    {
        proof {
            assert(items@.subrange(0, i + 1).drop_last() =~= items@.subrange(0, i as int));
            lemma_sizes_sum_prefix(items@, i + 1);
        }
        total = total + items[i].size_bytes;
        i = i + 1;
    }
    assert(items@.subrange(0, i as int) =~= items@);
    let sorted = sort_by_size_desc(items);
    UsageListing { items: sorted, total_bytes: total }
}

/// A prefix never sums to more than the whole.
proof fn lemma_sizes_sum_prefix(s: Seq<UsageEntry>, k: int)
    requires
        0 <= k <= s.len(),
    ensures
        sizes_sum(s.subrange(0, k)) <= sizes_sum(s),
    decreases s.len(),
{
    if k < s.len() {
        lemma_sizes_sum_prefix(s.drop_last(), k);
        assert(s.drop_last().subrange(0, k) =~= s.subrange(0, k));
    } else {
        assert(s.subrange(0, k) =~= s);
    }
}

/// The analyzer panel: the directory shown, its listing, the selected row,
/// and the state of the scan in progress.
#[derive(Debug)]
pub struct DiskAnalyzerState {
    pub current_path: String,
    pub total_bytes: u64,
    pub items: Vec<UsageEntry>,
    pub selected: usize,
    pub is_scanning: bool,
    pub error: Option<String>,
    pub current_scanning_item: Option<String>,
    pub files_scanned: usize,
    pub spinner_frame: usize,
}

/// A scan of `path` starts: the listing is cleared and progress reset.
pub open spec fn scan_started(s: DiskAnalyzerState, path: Seq<char>) -> bool {
    &&& s.current_path@ == path
    &&& s.items@.len() == 0
    &&& s.selected == 0
    &&& s.is_scanning
    &&& s.error is None
    &&& s.current_scanning_item is None
    &&& s.files_scanned == 0
}

impl DiskAnalyzerState {
    /// The panel opened on `path`, scanning it.
    pub fn opening(path: String) -> (r: DiskAnalyzerState)
        ensures
            scan_started(r, path@),
            r.total_bytes == 0,
            r.spinner_frame == 0,
    {
        DiskAnalyzerState {
            current_path: path,
            total_bytes: 0,
            items: Vec::new(),
            selected: 0,
            is_scanning: true,
            error: None,
            current_scanning_item: None,
            files_scanned: 0,
            spinner_frame: 0,
        }
    }

    /// Selects the row above, if any.
    pub fn move_up(&mut self)
        ensures
            final(self).selected == if old(self).selected > 0 {
                old(self).selected - 1
            } else {
                0
            },
            final(self).items == old(self).items,
            final(self).current_path == old(self).current_path,
    {
        if self.selected > 0 {
            self.selected = self.selected - 1;
        }
    }

    /// Selects the row below, if any.
    pub fn move_down(&mut self)
        ensures
            final(self).selected == if old(self).selected + 1 < old(self).items@.len() {
                old(self).selected + 1
            } else {
                old(self).selected as int
            },
            final(self).items == old(self).items,
            final(self).current_path == old(self).current_path,
    {
        let n = self.items.len();
        if self.selected < usize::MAX && self.selected + 1 < n {
            self.selected = self.selected + 1;
        }
    }

    fn restart(&mut self, path: String)
        ensures
            scan_started(*final(self), path@),
            final(self).total_bytes == old(self).total_bytes,
            final(self).spinner_frame == old(self).spinner_frame,
    {
        self.current_path = path;
        self.items = Vec::new();
        self.selected = 0;
        self.is_scanning = true;
        self.error = None;
        self.current_scanning_item = None;
        self.files_scanned = 0;
    }

    /// Enters the selected row when it is a directory; gives the path to
    /// scan.
    pub fn drill_down(&mut self) -> (r: Option<String>)
        ensures
            old(self).selected < old(self).items@.len() && old(self).items@[old(
                self,
            ).selected as int].is_dir ==> {
                let p = path_join(
                    old(self).current_path@,
                    old(self).items@[old(self).selected as int].name@,
                );
                &&& r matches Some(s) && s@ == p
                &&& scan_started(*final(self), p)
            },
            !(old(self).selected < old(self).items@.len() && old(self).items@[old(
                self,
            ).selected as int].is_dir) ==> r is None && *final(self) == *old(self),
    {
        if self.selected >= self.items.len() || !self.items[self.selected].is_dir {
            return None;
        }
        let p = join(self.current_path.as_str(), self.items[self.selected].name.as_str());
        let again = join(self.current_path.as_str(), self.items[self.selected].name.as_str());
        self.restart(p);
        Some(again)
    }

    /// Goes to the parent directory (`parent` is the current directory's
    /// parent, if it has one); gives the path to scan.
    pub fn go_up(&mut self, parent: Option<String>) -> (r: Option<String>)
        ensures
            match parent {
                Some(p) => r == Some(p) && scan_started(*final(self), p@),
                None => r is None && *final(self) == *old(self),
            },
    {
        match parent {
            Some(p) => {
                let again = p.clone();
                self.restart(p);
                Some(again)
            },
            None => None,
        }
    }

    /// Scans the current directory again (the listing stays until the scan
    /// reports); gives the path to scan.
    pub fn rescan(&mut self) -> (r: String)
        ensures
            r@ == old(self).current_path@,
            final(self).is_scanning,
            final(self).error is None,
            final(self).current_scanning_item is None,
            final(self).files_scanned == 0,
            final(self).current_path == old(self).current_path,
            final(self).items == old(self).items,
            final(self).selected == old(self).selected,
    {
        self.is_scanning = true;
        self.error = None;
        self.current_scanning_item = None;
        self.files_scanned = 0;
        self.current_path.clone()
    }

    /// A finished scan of `path`: shown only if it is the current directory.
    pub fn on_snapshot(&mut self, path: &str, listing: UsageListing)
        ensures
            path@ == old(self).current_path@ ==> {
                &&& final(self).items == listing.items
                &&& final(self).total_bytes == listing.total_bytes
                &&& final(self).selected == 0
                &&& !final(self).is_scanning
                &&& final(self).error is None
                &&& final(self).current_scanning_item is None
                &&& final(self).current_path == old(self).current_path
            },
            path@ != old(self).current_path@ ==> *final(self) == *old(self),
    {
        let mine = path_eq(self.current_path.as_str(), path);
        if mine {
            self.total_bytes = listing.total_bytes;
            self.items = listing.items;
            self.selected = 0;
            self.is_scanning = false;
            self.error = None;
            self.current_scanning_item = None;
        }
    }

    /// A scan failed.
    pub fn on_error(&mut self, message: String)
        ensures
            !final(self).is_scanning,
            final(self).error == Some(message),
            final(self).items == old(self).items,
            final(self).current_path == old(self).current_path,
    {
        self.is_scanning = false;
        self.error = Some(message);
    }

    /// Progress of the scan in progress; ignored when none is.
    pub fn on_progress(&mut self, current_item: String, items_scanned: usize, total_bytes: u64)
        ensures
            old(self).is_scanning ==> final(self).current_scanning_item == Some(current_item)
                && final(self).files_scanned == items_scanned && final(self).total_bytes
                == total_bytes && final(self).items == old(self).items,
            !old(self).is_scanning ==> *final(self) == *old(self),
    {
        if self.is_scanning {
            self.current_scanning_item = Some(current_item);
            self.files_scanned = items_scanned;
            self.total_bytes = total_bytes;
        }
    }

    /// A clock tick: the spinner turns while a scan runs.
    pub fn tick(&mut self)
        ensures
            final(self).spinner_frame == if old(self).is_scanning {
                if old(self).spinner_frame == usize::MAX {
                    0
                } else {
                    (old(self).spinner_frame + 1) as usize
                }
            } else {
                old(self).spinner_frame
            },
            final(self).is_scanning == old(self).is_scanning,
            *final(self) == (DiskAnalyzerState { spinner_frame: final(self).spinner_frame, ..*old(self) }),
    {
        if self.is_scanning {
            self.spinner_frame = if self.spinner_frame == usize::MAX {
                0
            } else {
                self.spinner_frame + 1
            };
        }
    }
}

fn path_eq(a: &str, b: &str) -> (r: bool)
    ensures
        r == (a@ == b@),
{
    let av = crate::text::chars_of(a);
    let bv = crate::text::chars_of(b);
    crate::text::seq_eq(&av, &bv)
}

} // verus!
