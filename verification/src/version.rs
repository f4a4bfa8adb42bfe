//! Game versions and protocol IDs.

use vstd::prelude::*;
use crate::strings::str_eq;

verus! {

/// The known protocol IDs, each with the release names that speak it,
/// earliest first.
pub open spec fn version_table() -> Seq<(u32, Seq<Seq<char>>)> {
    seq![
        (767u32, seq!["1.21"@, "1.21.1"@]),
        (768u32, seq!["1.21.2"@, "1.21.3"@]),
        (769u32, seq!["1.21.4"@]),
        (770u32, seq!["1.21.5"@]),
        (771u32, seq!["1.21.6"@]),
        (772u32, seq!["1.21.7"@, "1.21.8"@]),
    ]
}

/// A game version, identified by its protocol ID.
#[derive(Clone, Copy, PartialEq, Eq, Structural, Hash, Debug)]
pub struct Version {
    id: u32,
    idx: usize,
}

/// The names of the table row at `i`.
fn table_names(i: usize) -> (r: Vec<&'static str>)
    requires
        i < version_table().len(),
    ensures
        r@.len() == version_table()[i as int].1.len(),
        forall|j: int|
            0 <= j < r@.len() ==> (#[trigger] r@[j])@ == version_table()[i as int].1[j],
{
    match i {
        0 => vec!["1.21", "1.21.1"],
        1 => vec!["1.21.2", "1.21.3"],
        2 => vec!["1.21.4"],
        3 => vec!["1.21.5"],
        4 => vec!["1.21.6"],
        _ => vec!["1.21.7", "1.21.8"],
    }
}

/// The protocol ID of the table row at `i`.
fn table_id(i: usize) -> (r: u32)
    requires
        i < version_table().len(),
    ensures
        r == version_table()[i as int].0,
{
    match i {
        0 => 767,
        1 => 768,
        2 => 769,
        3 => 770,
        4 => 771,
        _ => 772,
    }
}

impl Version {
    /// The stored row matches the stored protocol ID.
    pub closed spec fn wf(self) -> bool {
        self.idx < version_table().len() && version_table()[self.idx as int].0 == self.id
    }

    /// The table row this version stands for.
    pub closed spec fn row(self) -> int {
        self.idx as int
    }

    /// Get version information by protocol ID.
    pub fn by_id(id: u32) -> (r: Option<Self>)
        ensures
            match r {
                Some(v) => v.wf() && v.spec_id() == id && version_table()[v.row()].0 == id,
                None => forall|i: int|
                    0 <= i < version_table().len() ==> (#[trigger] version_table()[i]).0
                        != id,
            },
    {
        let mut i: usize = 0;
        while i < 6
            invariant
                i <= 6,
                version_table().len() == 6,
                forall|j: int| 0 <= j < i ==> (#[trigger] version_table()[j]).0 != id,
            decreases 6 - i,
        {
            if table_id(i) == id {
                return Some(Version { id, idx: i });
            }
            i = i + 1;
        }
        None
    }

    /// Get version information by version name.
    pub fn by_name(name: &str) -> (r: Option<Self>)
        ensures
            match r {
                Some(v) => v.wf() && exists|j: int|
                    0 <= j < version_table()[v.row()].1.len() && version_table()[
                        v.row()
                    ].1[j] == name@,
                None => forall|i: int, j: int|
                    0 <= i < version_table().len() && 0 <= j < version_table()[i].1.len()
                        ==> #[trigger] version_table()[i].1[j] != name@,
            },
    {
        let mut i: usize = 0;
        while i < 6
            invariant
                i <= 6,
                version_table().len() == 6,
                forall|a: int, j: int|
                    0 <= a < i && 0 <= j < version_table()[a].1.len()
                        ==> #[trigger] version_table()[a].1[j] != name@,
            decreases 6 - i,
        {
            let names = table_names(i);
            let mut j: usize = 0;
            while j < names.len()
                invariant
                    i < 6,
                    version_table().len() == 6,
                    j <= names@.len(),
                    names@.len() == version_table()[i as int].1.len(),
                    forall|t: int|
                        0 <= t < names@.len() ==> (#[trigger] names@[t])@
                            == version_table()[i as int].1[t],
                    forall|t: int|
                        0 <= t < j ==> version_table()[i as int].1[t] != name@,
                decreases names@.len() - j,
            {
                if str_eq(name, names[j]) {
                    let id = table_id(i);
                    let v = Version { id, idx: i };
                    proof {
                        assert(v.row() == i as int);
                        assert((j as int) < version_table()[v.row()].1.len()
                            && version_table()[v.row()].1[j as int] == name@);
                        assert(v.wf());
                        assert(exists|jx: int|
                            0 <= jx < version_table()[v.row()].1.len()
                                && version_table()[v.row()].1[jx] == name@);
                    }
                    return Some(v);
                }
                j = j + 1;
            }
            i = i + 1;
        }
        None
    }

    /// The protocol ID of this version.
    pub fn id(self) -> (r: u32)
        ensures
            r == self.spec_id(),
    {
        self.id
    }

    /// The protocol ID, for contracts.
    pub closed spec fn spec_id(self) -> u32 {
        self.id
    }

    /// The version names supporting this protocol ID, earliest first.
    pub fn names(self) -> (r: Vec<&'static str>)
        requires
            self.wf(),
        ensures
            r@.len() == version_table()[self.row()].1.len(),
            forall|j: int|
                0 <= j < r@.len() ==> (#[trigger] r@[j])@ == version_table()[
                    self.row()
                ].1[j],
    {
        table_names(self.idx)
    }

    /// The earliest version name supporting this protocol ID.
    pub fn earliest_name(self) -> (r: &'static str)
        requires
            self.wf(),
        ensures
            r@ == version_table()[self.row()].1.first(),
    {
        let names = self.names();
        names[0]
    }

    /// The latest version name supporting this protocol ID.
    pub fn latest_name(self) -> (r: &'static str)
        requires
            self.wf(),
        ensures
            r@ == version_table()[self.row()].1.last(),
    {
        let names = self.names();
        names[names.len() - 1]
    }

    /// The newest version this crate speaks.
    pub fn current() -> (r: Self)
        ensures
            r.wf() && r.spec_id() == 772 && r.row() == 5,
    {
        Version { id: 772, idx: 5 }
    }
}

} // verus!
