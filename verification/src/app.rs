//! The screen the terminal interface shows and whether it keeps running.

use vstd::prelude::*;

verus! {

#[derive(Debug, Clone, Copy, PartialEq, Eq)]
pub enum Screen {
    Setup,
    Dashboard,
    UserDetail,
    AddUser,
    QrView,
}

pub struct App {
    pub screen: Screen,
    pub running: bool,
}

impl App {
    /// A running interface showing the dashboard.
    pub fn new() -> (a: Self)
        ensures
            a.screen == Screen::Dashboard,
            a.running,
    {
        App { screen: Screen::Dashboard, running: true }
    }

    /// Stop the interface.
    pub fn quit(&mut self)
        ensures
            !final(self).running,
            final(self).screen == old(self).screen,
    {
        self.running = false;
    }
}

impl Default for App {
    fn default() -> (a: Self)
        ensures
            a.screen == Screen::Dashboard,
            a.running,
    {
        App::new()
    }
}

} // verus!
