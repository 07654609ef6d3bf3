//! The package record and its mathematical value, plus the display rows the
//! rendering layer shows.

use vstd::prelude::*;
use vstd::string::StringExecFns;

verus! {

/// One installed package, as parsed from a backend's listing output.
/// Immutable once parsed; duplicate names are tolerated, not deduplicated.
#[derive(Debug, Clone)]
pub struct Package {
    pub name: String,
    pub version: String,
}

/// The mathematical value of a package: its two fields as character
/// sequences.
pub struct SpecPackage {
    pub name: Seq<char>,
    pub version: Seq<char>,
}

impl View for Package {
    type V = SpecPackage;

    open spec fn view(&self) -> SpecPackage {
        SpecPackage { name: self.name@, version: self.version@ }
    }
}

/// The sequence of package values a vector of packages holds.
pub open spec fn packages_of(items: Seq<Package>) -> Seq<SpecPackage> {
    items.map_values(|p: Package| p@)
}

/// One display row: the package's name and version separated by one space.
pub fn display_row(p: &Package) -> (r: String)
    ensures
        r@ == p@.name + " "@ + p@.version,
{
    let mut r = p.name.clone();
    r.append(" ");
    r.append(p.version.as_str());
    r
}

/// The display rows for a whole catalog, in catalog order.
pub fn display_rows(items: &Vec<Package>) -> (r: Vec<String>)
    ensures
        r@.len() == items@.len(),
        forall|i: int|
            0 <= i < items@.len() ==> #[trigger] r@[i]@ == items@[i]@.name + " "@
                + items@[i]@.version,
{
    let mut r: Vec<String> = Vec::new();
    let mut idx: usize = 0;
    while idx < items.len()
        invariant
            idx <= items@.len(),
            r@.len() == idx,
            forall|i: int|
                0 <= i < idx ==> #[trigger] r@[i]@ == items@[i]@.name + " "@ + items@[i]@.version,
        decreases items@.len() - idx,
    {
        r.push(display_row(&items[idx]));
        idx += 1;
    }
    r
}

} // verus!
