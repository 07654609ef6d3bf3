//! The package catalog: the ordered list parsed from the active backend,
//! the selection index, and the navigation operations over them.

use vstd::prelude::*;
use vstd::string::StringExecFns;

use crate::backend::PackageManager;
use crate::package::{packages_of, Package};
use crate::parser::{parse_listing, spec_parse_listing};

verus! {

/// The catalog of the active backend: its parsed packages, in listing order,
/// and the currently selected index.
pub struct PackageList {
    pub items: Vec<Package>,
    pub selected: Option<usize>,
    pub package_manager: PackageManager,
}

/// The selection index after one step down, wrapping to the top.
pub open spec fn spec_next_index(i: int, n: int) -> int {
    if i + 1 >= n {
        0
    } else {
        i + 1
    }
}

/// The selection index after one step up, wrapping to the bottom.
pub open spec fn spec_prev_index(i: int, n: int) -> int {
    if i == 0 {
        n - 1
    } else {
        i - 1
    }
}

impl PackageList {
    /// The catalog invariant: nothing is selected exactly when the catalog is
    /// empty, and otherwise the selection is in range.
    pub open spec fn well_formed(self) -> bool {
        match self.selected {
            None => self.items@.len() == 0,
            Some(i) => (i as int) < self.items@.len(),
        }
    }

    /// The catalog after one step down: the selection advances by one and
    /// wraps to the first entry; an empty catalog stays untouched.
    pub open spec fn nav_next(self) -> PackageList {
        PackageList {
            items: self.items,
            selected: match self.selected {
                None => None,
                Some(i) => Some(spec_next_index(i as int, self.items@.len() as int) as usize),
            },
            package_manager: self.package_manager,
        }
    }

    /// The catalog after one step up: the selection retreats by one and wraps
    /// to the last entry; an empty catalog stays untouched.
    pub open spec fn nav_prev(self) -> PackageList {
        PackageList {
            items: self.items,
            selected: match self.selected {
                None => None,
                Some(i) => Some(spec_prev_index(i as int, self.items@.len() as int) as usize),
            },
            package_manager: self.package_manager,
        }
    }

    /// The catalog after a jump to the first entry; an empty catalog stays
    /// untouched.
    pub open spec fn jump_first(self) -> PackageList {
        PackageList {
            items: self.items,
            selected: if self.items@.len() == 0 {
                self.selected
            } else {
                Some(0usize)
            },
            package_manager: self.package_manager,
        }
    }

    /// The catalog after a jump to the last entry; an empty catalog stays
    /// untouched.
    pub open spec fn jump_last(self) -> PackageList {
        PackageList {
            items: self.items,
            selected: if self.items@.len() == 0 {
                self.selected
            } else {
                Some((self.items@.len() - 1) as usize)
            },
            package_manager: self.package_manager,
        }
    }

    /// Builds the catalog for `package_manager` from raw listing output: the
    /// parsed packages in listing order, with the first entry selected when
    /// there is one.
    pub fn load(package_manager: PackageManager, raw: &str) -> (r: PackageList)
        ensures
            r.package_manager == package_manager,
            packages_of(r.items@) == spec_parse_listing(package_manager, raw@),
            r.selected == (if spec_parse_listing(package_manager, raw@).len() == 0 {
                None::<usize>
            } else {
                Some(0usize)
            }),
            r.well_formed(),
    {
        let items = parse_listing(package_manager, raw);
        let selected: Option<usize> = if items.len() == 0 {
            None
        } else {
            Some(0)
        };
        proof {
            assert(packages_of(items@).len() == items@.len());
        }
        PackageList { items, selected, package_manager }
    }

    /// Switches to the next backend in the cycle, replacing the whole catalog
    /// with what `raw` (that backend's listing output) parses to.
    pub fn toggle_package_manager(&mut self, raw: &str)
        ensures
            final (self).package_manager == old(self).package_manager.spec_next(),
            packages_of(final (self).items@) == spec_parse_listing(
                old(self).package_manager.spec_next(),
                raw@,
            ),
            final (self).selected == (if spec_parse_listing(
                old(self).package_manager.spec_next(),
                raw@,
            ).len() == 0 {
                None::<usize>
            } else {
                Some(0usize)
            }),
            final (self).well_formed(),
    {
        let next = self.package_manager.next();
        *self = PackageList::load(next, raw);
    }

    /// Moves the selection one entry down, wrapping from the last entry to
    /// the first; does nothing on an empty catalog.
    pub fn select_next(&mut self)
        ensures
            final (self).items == old(self).items,
            final (self).package_manager == old(self).package_manager,
            old(self).well_formed() ==> *final (self) == old(self).nav_next(),
            old(self).well_formed() ==> final (self).well_formed(),
    {
        match self.selected {
            None => {},
            Some(i) => {
                let n = self.items.len();
                if n > 0 {
                    self.selected = Some(
                        if i >= n - 1 {
                            0
                        } else {
                            i + 1
                        },
                    );
                }
            },
        }
    }

    /// Moves the selection one entry up, wrapping from the first entry to the
    /// last; does nothing on an empty catalog.
    pub fn select_previous(&mut self)
        ensures
            final (self).items == old(self).items,
            final (self).package_manager == old(self).package_manager,
            old(self).well_formed() ==> *final (self) == old(self).nav_prev(),
            old(self).well_formed() ==> final (self).well_formed(),
    {
        match self.selected {
            None => {},
            Some(i) => {
                let n = self.items.len();
                if n > 0 {
                    self.selected = Some(
                        if i == 0 {
                            n - 1
                        } else {
                            i - 1
                        },
                    );
                }
            },
        }
    }

    /// Jumps to the first entry; does nothing on an empty catalog.
    pub fn select_first(&mut self)
        ensures
            final (self).items == old(self).items,
            final (self).package_manager == old(self).package_manager,
            final (self).selected == (if old(self).items@.len() == 0 {
                old(self).selected
            } else {
                Some(0usize)
            }),
            old(self).well_formed() ==> final (self).well_formed(),
    {
        if self.items.len() > 0 {
            self.selected = Some(0);
        }
    }

    /// Jumps to the last entry; does nothing on an empty catalog.
    pub fn select_last(&mut self)
        ensures
            final (self).items == old(self).items,
            final (self).package_manager == old(self).package_manager,
            final (self).selected == (if old(self).items@.len() == 0 {
                old(self).selected
            } else {
                Some((old(self).items@.len() - 1) as usize)
            }),
            old(self).well_formed() ==> final (self).well_formed(),
    {
        let n = self.items.len();
        if n > 0 {
            self.selected = Some(n - 1);
        }
    }

    /// The name of the selected package, if one is selected.
    pub fn selected_name(&self) -> (r: Option<String>)
        ensures
            self.well_formed() ==> (match self.selected {
                None => r is None,
                Some(i) => r matches Some(s) && s@ == self.items@[i as int].name@,
            }),
            r matches Some(s) ==> (match self.selected {
                Some(i) => (i as int) < self.items@.len() && s@ == self.items@[i as int].name@,
                None => false,
            }),
    {
        match self.selected {
            None => None,
            Some(i) => {
                if i < self.items.len() {
                    Some(self.items[i].name.clone())
                } else {
                    None
                }
            },
        }
    }
}

/// `k` steps down from `l`.
pub open spec fn nav_next_n(l: PackageList, k: nat) -> PackageList
    decreases k,
{
    if k == 0 {
        l
    } else {
        nav_next_n(l, (k - 1) as nat).nav_next()
    }
}

/// After `k <= n` steps down from selection `i` in a catalog of `n` entries,
/// the selection sits at `i + k`, reduced by `n` once it has wrapped.
proof fn lemma_next_n_value(l: PackageList, k: nat)
    requires
        l.well_formed(),
        l.items@.len() >= 1,
        k <= l.items@.len(),
    ensures
        nav_next_n(l, k).items == l.items,
        nav_next_n(l, k).package_manager == l.package_manager,
        nav_next_n(l, k).well_formed(),
        ({
            let n = l.items@.len() as int;
            let i = match l.selected {
                Some(i) => i as int,
                None => 0int,
            };
            nav_next_n(l, k).selected == Some(
                ((if i + k < n {
                    i + k
                } else {
                    i + k - n
                }) as usize),
            )
        }),
    decreases k,
{
    assert(l.items.len() == l.items@.len());
    if k > 0 {
        lemma_next_n_value(l, (k - 1) as nat);
    }
}

/// Law: on a catalog of `n >= 1` entries, `n` consecutive steps down return
/// the selection (and the whole catalog) to where it started.
pub proof fn lemma_select_next_cycles(l: PackageList)
    requires
        l.well_formed(),
        l.items@.len() >= 1,
    ensures
        nav_next_n(l, l.items@.len()) == l,
{
    lemma_next_n_value(l, l.items@.len());
}

/// Law: on a non-empty catalog, one step down followed by one step up leaves
/// the selection unchanged, and so does one step up followed by one step
/// down.
pub proof fn lemma_prev_next_identity(l: PackageList)
    requires
        l.well_formed(),
        l.items@.len() >= 1,
    ensures
        l.nav_next().nav_prev() == l,
        l.nav_prev().nav_next() == l,
{
    assert(l.items.len() == l.items@.len());
}

} // verus!
