//! The tabs of the main window.

use vstd::prelude::*;

verus! {

/// A tab of the main window.
#[derive(Debug, PartialEq, Eq, Structural, Copy, Clone)]
pub enum Tab {
    /// Welcomes the user
    Welcome,
    /// For controlling and connecting to the mercury modem
    ModemConnection,
    /// Overall Packet monitor
    Monitor,
}

impl Tab {
    /// Every tab, in the order in which menus list them.
    pub open spec fn all() -> Seq<Tab> {
        seq![Tab::Welcome, Tab::ModemConnection, Tab::Monitor]
    }

    /// The tabs that the view menu offers: every tab but the welcome tab.
    pub open spec fn addable(self) -> bool {
        self != Tab::Welcome
    }

    /// The brief name of the tab.
    pub open spec fn name(self) -> Seq<char> {
        match self {
            Tab::Welcome => "Welcome"@,
            Tab::ModemConnection => "Modem"@,
            Tab::Monitor => "Monitor"@,
        }
    }

    /// Whether the tab can/should be added by the user
    pub fn can_be_added(&self) -> (r: bool)
        ensures
            r == self.addable(),
    {
        // Currently, every tab can be added except the welcome tab
        !matches!(self, Tab::Welcome)
    }

    /// Brief name for the tab that can be shown in the view dropdown
    pub fn brief(&self) -> (r: &'static str)
        ensures
            r@ == self.name(),
    {
        match self {
            Tab::Welcome => "Welcome",
            Tab::ModemConnection => "Modem",
            Tab::Monitor => "Monitor",
        }
    }

    /// Every tab, in the order of `Tab::all`.
    pub fn iter() -> (r: Vec<Tab>)
        ensures
            r@ == Tab::all(),
    {
        let r: Vec<Tab> = vec![Tab::Welcome, Tab::ModemConnection, Tab::Monitor];
        assert(r@ =~= Tab::all());
        r
    }
}

/// The name of each tab.
pub proof fn tabs_are_named_so(tab: Tab)
    ensures
        tab is Welcome ==> tab.name() == "Welcome"@,
        tab is ModemConnection ==> tab.name() == "Modem"@,
        tab is Monitor ==> tab.name() == "Monitor"@,
{
}

/// Every tab but the welcome tab can be added.
pub proof fn all_but_welcome_can_be_added(tab: Tab)
    ensures
        tab.addable() <==> tab is ModemConnection || tab is Monitor,
{
}

/// The tabs are listed once each, the welcome tab first and the monitor tab last.
pub proof fn tabs_are_listed_in_order()
    ensures
        Tab::all().len() == 3,
        Tab::all()[0] is Welcome,
        Tab::all()[1] is ModemConnection,
        Tab::all()[2] is Monitor,
{
}

} // verus!
