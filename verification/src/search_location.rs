use vstd::prelude::*;
use crate::text::{blank, is_blank, trim, trim_seq};

verus! {

/// What the disk says of a folder.
#[derive(Debug, Clone, Copy, PartialEq, Eq, Structural)]
pub enum LocationStatus {
    Ready,
    Missing,
    NotDirectory,
    Unreadable,
}

/// The folder that project search starts from, before `~` is expanded: the stored one,
/// trimmed, or the home folder when none is stored; and whether that default is used.
pub fn search_location_source(stored: &str, home: &str) -> (source: (bool, String))
    ensures
        source.0 == is_blank(stored@),
        source.1@ == (if is_blank(stored@) {
            home@
        } else {
            trim_seq(stored@)
        }),
{
    if blank(stored) {
        (true, home.to_owned())
    } else {
        (false, trim(stored))
    }
}

/// How the settings row for the search location looks.
#[derive(Debug, Clone, PartialEq, Eq)]
pub struct SearchLocationRow {
    /// The warning under the row, when the folder cannot be used.
    pub warning: Option<&'static str>,
    /// The folder that the folder picker opens at.
    pub picker_directory: String,
    /// Whether "Use App Default" can be pressed.
    pub reset_enabled: bool,
}

/// The warning for a search location that cannot be used.
pub open spec fn location_warning(status: LocationStatus) -> Option<Seq<char>> {
    match status {
        LocationStatus::Ready => None,
        LocationStatus::Missing => Some(
            "Search location no longer exists. Choose another folder or use the app default."@,
        ),
        LocationStatus::NotDirectory => Some(
            "Search location is not a folder. Choose another folder or use the app default."@,
        ),
        LocationStatus::Unreadable => Some(
            "Search location can\u{2019}t be read. Choose another folder, fix permissions, or use the app default."@,
        ),
    }
}

/// The settings row for the search location, given whether the default is used, the
/// expanded folder and what the disk says of it: a warning unless it is ready, the picker
/// opening there when it is ready and at home otherwise, and a reset only for a stored
/// location.
pub fn search_location_row(
    uses_default: bool,
    path: &str,
    status: LocationStatus,
    home: &str,
) -> (row: SearchLocationRow)
    ensures
        match row.warning {
            Some(w) => location_warning(status) == Some(w@),
            None => location_warning(status) is None,
        },
        row.picker_directory@ == (if status == LocationStatus::Ready {
            path@
        } else {
            home@
        }),
        row.reset_enabled == !uses_default,
{
    let warning = match status {
        LocationStatus::Ready => None,
        LocationStatus::Missing => Some(
            "Search location no longer exists. Choose another folder or use the app default.",
        ),
        LocationStatus::NotDirectory => Some(
            "Search location is not a folder. Choose another folder or use the app default.",
        ),
        LocationStatus::Unreadable => Some(
            "Search location can\u{2019}t be read. Choose another folder, fix permissions, or use the app default.",
        ),
    };
    let picker_directory = if status == LocationStatus::Ready {
        path.to_owned()
    } else {
        home.to_owned()
    };
    SearchLocationRow { warning, picker_directory, reset_enabled: !uses_default }
}

} // verus!
