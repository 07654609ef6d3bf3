//! The interaction loop's state machine: one discrete input event goes in,
//! at most one catalog operation comes out, and the exit flag is owned here.
//! Running the external listing command for a backend switch is the caller's
//! job; the step function says which backend to ask.

use vstd::prelude::*;

use crate::backend::PackageManager;
use crate::catalog::PackageList;

verus! {

/// A discrete input event, already decoded from the key that caused it.
#[derive(Clone, Copy, Debug, PartialEq, Eq, Structural)]
pub enum InputEvent {
    Quit,
    MoveDown,
    MoveUp,
    JumpFirst,
    JumpLast,
    CycleBackend,
    Other,
}

/// The interaction state: the exit flag and the catalog being browsed.
pub struct App {
    pub should_exit: bool,
    pub package_list: PackageList,
}

impl App {
    /// The starting state: running, with the catalog loaded from the default
    /// backend's (PkgTool's) raw listing output.
    pub fn new(raw: &str) -> (r: App)
        ensures
            r.should_exit == false,
            r.package_list.package_manager == PackageManager::Pkg,
            crate::package::packages_of(r.package_list.items@) == crate::parser::spec_parse_listing(
                PackageManager::Pkg,
                raw@,
            ),
            r.package_list.selected == (if crate::parser::spec_parse_listing(
                PackageManager::Pkg,
                raw@,
            ).len() == 0 {
                None::<usize>
            } else {
                Some(0usize)
            }),
            r.package_list.well_formed(),
    {
        App { should_exit: false, package_list: PackageList::load(PackageManager::Pkg, raw) }
    }

    /// One step of the interaction loop: applies the event's catalog
    /// operation, or sets the exit flag on `Quit`.  For `CycleBackend` the
    /// state is left untouched and the backend to reload from is returned;
    /// the caller runs that backend's listing command and hands its output to
    /// `toggle_package_manager`.  All other events change nothing.
    pub fn handle_event(&mut self, ev: InputEvent) -> (reload: Option<PackageManager>)
        ensures
            reload == (if ev is CycleBackend {
                Some(old(self).package_list.package_manager.spec_next())
            } else {
                None::<PackageManager>
            }),
            final (self).should_exit == (old(self).should_exit || ev is Quit),
            final (self).package_list.items == old(self).package_list.items,
            final (self).package_list.package_manager == old(self).package_list.package_manager,
            old(self).package_list.well_formed() ==> final (self).package_list == (match ev {
                InputEvent::MoveDown => old(self).package_list.nav_next(),
                InputEvent::MoveUp => old(self).package_list.nav_prev(),
                InputEvent::JumpFirst => old(self).package_list.jump_first(),
                InputEvent::JumpLast => old(self).package_list.jump_last(),
                _ => old(self).package_list,
            }),
            old(self).package_list.well_formed() ==> final (self).package_list.well_formed(),
    {
        match ev {
            InputEvent::Quit => {
                self.should_exit = true;
                None
            },
            InputEvent::MoveDown => {
                self.package_list.select_next();
                None
            },
            InputEvent::MoveUp => {
                self.package_list.select_previous();
                None
            },
            InputEvent::JumpFirst => {
                self.package_list.select_first();
                None
            },
            InputEvent::JumpLast => {
                self.package_list.select_last();
                None
            },
            InputEvent::CycleBackend => Some(self.package_list.package_manager.next()),
            InputEvent::Other => None,
        }
    }
}

} // verus!
