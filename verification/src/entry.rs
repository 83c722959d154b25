//! A directory child: a subdirectory or a file on the same device.

use vstd::prelude::*;

use crate::dir_entry::SpecDirEntry;
use crate::directory::Directory;
use crate::file::File;

verus! {

/// One child of a directory listing.
pub enum Entry<'a, T> {
    Dir(Directory<'a, T>),
    File(File<'a, T>),
}

impl<'a, T> Entry<'a, T> {
    /// The on-disk entry behind this child.
    pub open spec fn spec_dirent(self) -> SpecDirEntry {
        match self {
            Entry::Dir(d) => d.spec_entry()@,
            Entry::File(f) => f.spec_entry()@,
        }
    }

    /// The device the child lives on.
    pub open spec fn spec_device(self) -> &'a T {
        match self {
            Entry::Dir(d) => d.spec_device(),
            Entry::File(f) => f.spec_device(),
        }
    }

    /// A child is listed as a directory exactly when its entry carries the
    /// directory attribute.
    pub open spec fn kind_matches(self) -> bool {
        (self matches Entry::Dir(_)) <==> self.spec_dirent().is_directory()
    }
}

/// The on-disk entries behind a run of children.
pub open spec fn spec_dirents<'a, T>(s: Seq<Entry<'a, T>>) -> Seq<SpecDirEntry> {
    s.map_values(|e: Entry<'a, T>| e.spec_dirent())
}

/// Every child of the run lives on device `d` and is listed under its true
/// kind.
pub open spec fn spec_children_wf<'a, T>(s: Seq<Entry<'a, T>>, d: &'a T) -> bool {
    forall|i: int|
        0 <= i < s.len() ==> (#[trigger] s[i]).spec_device() == d && s[i].kind_matches()
}

} // verus!
