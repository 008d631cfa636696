//! The local side of the file browser.

use vstd::prelude::*;

use crate::lettercase;
use crate::order;
use crate::order::Rank;

verus! {

#[derive(Debug)]
pub struct LocalFileEntry {
    pub name: String,
    pub is_dir: bool,
    pub size: u64,
    pub path: String,
}

/// Local entries as the list shows them: folders first, then by name,
/// ignoring case.
pub struct FoldersFirst {}

impl Rank for FoldersFirst {
    type Item = LocalFileEntry;

    open spec fn le(&self, a: LocalFileEntry, b: LocalFileEntry) -> bool {
        if a.is_dir == b.is_dir {
            order::text_le(lettercase::lower_text(a.name@), lettercase::lower_text(b.name@))
        } else {
            a.is_dir
        }
    }

    proof fn total(&self, a: LocalFileEntry, b: LocalFileEntry) {
        order::lemma_text_le_total(
            lettercase::lower_text(a.name@),
            lettercase::lower_text(b.name@),
        );
    }

    proof fn transitive(&self, a: LocalFileEntry, b: LocalFileEntry, c: LocalFileEntry) {
        if a.is_dir == b.is_dir && b.is_dir == c.is_dir {
            order::lemma_text_le_transitive(
                lettercase::lower_text(a.name@),
                lettercase::lower_text(b.name@),
                lettercase::lower_text(c.name@),
            );
        }
    }

    fn before(&self, a: &LocalFileEntry, b: &LocalFileEntry) -> (r: bool) {
        if a.is_dir == b.is_dir {
            let x = lettercase::lowercase(a.name.as_str());
            let y = lettercase::lowercase(b.name.as_str());
            order::texts_le(x.as_str(), y.as_str())
        } else {
            a.is_dir
        }
    }
}

/// The entries of a local directory, as the list shows them.
pub fn list_local_dir(read: Vec<LocalFileEntry>) -> (out: Vec<LocalFileEntry>)
    ensures
        order::stably_sorted(FoldersFirst {  }, read@, out@),
{
    order::sort_by(read, &FoldersFirst {  })
}

/// No file stands before a folder.
pub proof fn law_folders_come_first(read: Seq<LocalFileEntry>, out: Seq<LocalFileEntry>, i: int, j: int)
    requires
        order::stably_sorted(FoldersFirst {  }, read, out),
        0 <= i < j < out.len(),
        out[j].is_dir,
    ensures
        out[i].is_dir,
{
    assert(FoldersFirst {  }.le(out[i], out[j]));
}

} // verus!
