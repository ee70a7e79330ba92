//! The outcome of enumerating a pseudo-filesystem namespace directory,
//! as a plain value: either the namespace itself could not be listed, or
//! it yielded entries, each readable or not. A single unreadable entry
//! does not abort an enumeration; an unlistable namespace does.

use vstd::prelude::*;

verus! {

/// One entry of a namespace directory.
pub enum DirEntry {
    /// An entry whose name could be read.
    Name(String),
    /// An entry the operating system reported as unreadable.
    Unreadable,
}

/// The outcome of listing a namespace directory.
pub enum DirListing {
    /// The namespace itself could not be listed.
    Unavailable { path: String },
    /// The namespace was listed; entries come in the order the operating
    /// system reported them.
    Entries { entries: Vec<DirEntry> },
}

/// The names of the readable entries, in listing order.
pub open spec fn readable_names(es: Seq<DirEntry>) -> Seq<Seq<char>>
    decreases es.len(),
{
    if es.len() == 0 {
        Seq::empty()
    } else {
        match es.first() {
            DirEntry::Name(s) => seq![s@] + readable_names(es.drop_first()),
            DirEntry::Unreadable => readable_names(es.drop_first()),
        }
    }
}

/// Collects the names of the readable entries of a listed namespace,
/// in order, skipping unreadable entries.
pub fn entry_names(entries: &Vec<DirEntry>) -> (r: Vec<String>)
    ensures
        r.deep_view() == readable_names(entries@),
{
    let n = entries.len();
    let mut r: Vec<String> = Vec::new();
    let mut i: usize = 0;
    proof {
        assert(entries@.skip(0) =~= entries@);
        assert(r.deep_view() =~~= Seq::<Seq<char>>::empty());
    }
    while i < n
        invariant
            i <= n,
            n == entries@.len(),
            r.deep_view() + readable_names(entries@.skip(i as int)) =~~= readable_names(entries@),
        decreases n - i,
    {
        proof {
            assert(entries@.skip(i as int).first() == entries@[i as int]);
            assert(entries@.skip(i as int).drop_first() =~= entries@.skip(i + 1));
        }
        match &entries[i] {
            DirEntry::Name(s) => {
                let ghost pre = r.deep_view();
                r.push(s.clone());
                proof {
                    assert(r.deep_view() =~~= pre.push(s@));
                }
            },
            DirEntry::Unreadable => {},
        }
        i = i + 1;
    }
    proof {
        assert(entries@.skip(n as int).len() == 0);
        assert(r.deep_view() =~~= readable_names(entries@));
    }
    r
}

} // verus!
