use vstd::prelude::*;

verus! {

/// One package found by a source: its name and a one-line description.
#[derive(Clone, Debug, PartialEq, Eq)]
pub struct PackageRecord {
    pub name: String,
    pub description: String,
}

impl View for PackageRecord {
    type V = (Seq<char>, Seq<char>);

    open spec fn view(&self) -> (Seq<char>, Seq<char>) {
        (self.name@, self.description@)
    }
}

impl PackageRecord {
    pub fn new(name: String, description: String) -> (r: PackageRecord)
        ensures
            r.name@ == name@,
            r.description@ == description@,
    {
        PackageRecord { name, description }
    }
}

/// The contents of a list of records.
pub open spec fn records_view(v: Seq<PackageRecord>) -> Seq<(Seq<char>, Seq<char>)> {
    v.map_values(|r: PackageRecord| r@)
}

/// Every record has a name and a description.
pub open spec fn all_well_formed(v: Seq<(Seq<char>, Seq<char>)>) -> bool {
    forall|i: int| 0 <= i < v.len() ==> (#[trigger] v[i]).0.len() > 0 && v[i].1.len() > 0
}

} // verus!
