//! Plain values shared across the application: the sidebar's tabs, user
//! settings, error severities and the kinds of items in the collection tree.

use vstd::prelude::*;

verus! {

/// The tabs of the sidebar.
#[derive(Debug, Clone, Copy, PartialEq, Eq, Structural)]
pub enum SidebarTab {
    Collections,
    History,
}

/// A stored user setting.
#[derive(Debug, Clone, PartialEq)]
pub struct UserSetting {
    pub theme: String,
}

/// Error severity levels
#[derive(Debug, Clone, Copy, PartialEq, Eq, Structural)]
pub enum ErrorSeverity {
    Info,
    Warning,
    Error,
    Critical,
}

/// Type of tree item in the metadata context
#[derive(Debug, Clone, Copy, PartialEq, Eq, Structural)]
pub enum TreeItemKind {
    Collection,
    Group,
    Request,
}

} // verus!
