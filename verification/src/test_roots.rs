use vstd::prelude::*;
use crate::text::{chars_of, str_eq};

verus! {

/// File whose appearance asks a test run to close the main window.
pub const TEST_CLOSE_REQUEST_FILE: &'static str = ".muxy-test-close-main-window";

/// File where the staged Composer panel check reports its status.
pub const PANEL_STATUS_FILE: &'static str = ".muxy-p7-panel-status.json";

/// `Path::starts_with` on the two paths: the components of `base` begin those of `path`.
pub uninterp spec fn path_starts_with_spec(path: Seq<char>, base: Seq<char>) -> bool;

/// `Path` equality of two paths: their components are equal.
pub uninterp spec fn path_eq_spec(a: Seq<char>, b: Seq<char>) -> bool;

/// `Path::join` of a base path and a file name, read back as a string.
pub uninterp spec fn joined_path_spec(base: Seq<char>, name: Seq<char>) -> Seq<char>;

/// Whether the components of `base` begin those of `path` (`std::path::Path::starts_with`).
#[verifier::external_body]
fn path_starts_with(path: &str, base: &str) -> (r: bool)
    ensures
        r == path_starts_with_spec(path@, base@),
{
    std::path::Path::new(path).starts_with(base)
}

/// Whether two paths are equal as paths (`==` on `std::path::Path`, which compares their
/// components); equal texts are equal paths.
#[verifier::external_body]
fn paths_equal(a: &str, b: &str) -> (r: bool)
    ensures
        r == path_eq_spec(a@, b@),
        a@ == b@ ==> r,
{
    std::path::Path::new(a) == std::path::Path::new(b)
}

/// `base` joined with `name` (`std::path::Path::join`), as a string. As documented, an
/// absolute name replaces the base, and a relative one extends a base that does not end
/// with a separator after a separator; what joining gives for an empty base or one that
/// ends with a separator is left to the name.
#[verifier::external_body]
fn joined_path(base: &str, name: &str) -> (joined: String)
    ensures
        joined@ == joined_path_spec(base@, name@),
        is_absolute_path(name@) ==> joined@ == name@,
        !is_absolute_path(name@) && base@.len() > 0 && base@.last() != '/' ==> joined@ == base@
            + "/"@ + name@,
{
    std::path::Path::new(base).join(name).to_string_lossy().into_owned()
}

/// A Unix path is absolute when it starts at the root.
pub open spec fn is_absolute_path(path: Seq<char>) -> bool {
    path.len() > 0 && path[0] == '/'
}

/// The path has a `..` component.
pub open spec fn has_parent_component(path: Seq<char>) -> bool {
    exists|i: int|
        0 <= i && i + 2 <= path.len() && #[trigger] path[i] == '.' && path[i + 1] == '.' && (i
            == 0 || path[i - 1] == '/') && (i + 2 == path.len() || path[i + 2] == '/')
}

fn parent_component(path: &str) -> (r: bool)
    ensures
        r == has_parent_component(path@),
{
    let v = chars_of(path);
    let n = v.len();
    if n < 2 {
        return false;
    }
    let mut i: usize = 0;
    while i < n - 1
        invariant
            v@ == path@,
            n == v@.len(),
            n >= 2,
            i <= n - 1,
            forall|k: int|
                0 <= k < i && k + 2 <= n ==> !(#[trigger] v@[k] == '.' && v@[k + 1] == '.' && (k
                    == 0 || v@[k - 1] == '/') && (k + 2 == n || v@[k + 2] == '/')),
        decreases n - i,
    {
        if v[i] == '.' && v[i + 1] == '.' && (i == 0 || v[i - 1] == '/') && (i + 2 == n || v[i
            + 2] == '/') {
            return true;
        }
        i = i + 1;
    }
    false
}

/// An injected application-support folder is safe to act on from a test: it is the one
/// the process uses, absolute, outside the home folder and without `..` components.
pub open spec fn safe_injected_root(
    app_support: Seq<char>,
    injected_app_support: Option<Seq<char>>,
    home: Seq<char>,
) -> bool {
    &&& injected_app_support matches Some(injected) && path_eq_spec(injected, app_support)
    &&& is_absolute_path(app_support)
    &&& !path_starts_with_spec(app_support, home)
    &&& !has_parent_component(app_support)
}

fn safe_root(app_support: &str, injected_app_support: Option<&str>, home: &str) -> (r: bool)
    ensures
        r == safe_injected_root(
            app_support@,
            match injected_app_support {
                Some(p) => Some(p@),
                None => None,
            },
            home@,
        ),
{
    let injected_matches = match injected_app_support {
        Some(injected) => paths_equal(injected, app_support),
        None => false,
    };
    if !injected_matches {
        return false;
    }
    let v = chars_of(app_support);
    let absolute = v.len() > 0 && v[0] == '/';
    absolute && !path_starts_with(app_support, home) && !parent_component(app_support)
}

/// Where a test asks the main window to close: only in a test process that enabled it,
/// with a safe injected application-support folder whose components all exist and none of
/// which is a symbolic link (`root_has_symlink_or_missing_component`, found on disk).
pub fn test_close_request_path(
    is_test_process: bool,
    enabled: bool,
    app_support: &str,
    injected_app_support: Option<&str>,
    home: &str,
    root_has_symlink_or_missing_component: bool,
) -> (path: Option<String>)
    ensures
        match path {
            Some(p) => is_test_process && enabled && safe_injected_root(
                app_support@,
                match injected_app_support {
                    Some(p) => Some(p@),
                    None => None,
                },
                home@,
            ) && !root_has_symlink_or_missing_component && p@ == joined_path_spec(
                app_support@,
                TEST_CLOSE_REQUEST_FILE@,
            ) && (app_support@.last() != '/' ==> p@ == app_support@ + "/"@
                + TEST_CLOSE_REQUEST_FILE@),
            None => !(is_test_process && enabled && safe_injected_root(
                app_support@,
                match injected_app_support {
                    Some(p) => Some(p@),
                    None => None,
                },
                home@,
            ) && !root_has_symlink_or_missing_component),
        },
{
    if !is_test_process || !enabled || !safe_root(app_support, injected_app_support, home)
        || root_has_symlink_or_missing_component {
        return None;
    }
    proof {
        reveal_strlit(".muxy-test-close-main-window");
    }
    Some(joined_path(app_support, TEST_CLOSE_REQUEST_FILE))
}

/// Where the staged Composer panel check writes its status: only in a test process running
/// exactly that case, with a safe injected application-support folder that is a real
/// directory under its canonical name (`root_is_canonical_directory`, found on disk).
pub fn phase_4_status_path(
    is_test_process: bool,
    case_name: Option<&str>,
    app_support: &str,
    injected_app_support: Option<&str>,
    home: &str,
    root_is_canonical_directory: bool,
) -> (path: Option<String>)
    ensures
        match path {
            Some(p) => is_test_process && (case_name matches Some(c) && c@ == "phase-4"@)
                && safe_injected_root(
                app_support@,
                match injected_app_support {
                    Some(p) => Some(p@),
                    None => None,
                },
                home@,
            ) && root_is_canonical_directory && p@ == joined_path_spec(
                app_support@,
                PANEL_STATUS_FILE@,
            ) && (app_support@.last() != '/' ==> p@ == app_support@ + "/"@ + PANEL_STATUS_FILE@),
            None => !(is_test_process && (case_name matches Some(c) && c@ == "phase-4"@)
                && safe_injected_root(
                app_support@,
                match injected_app_support {
                    Some(p) => Some(p@),
                    None => None,
                },
                home@,
            ) && root_is_canonical_directory),
        },
{
    let right_case = match case_name {
        Some(name) => str_eq(name, "phase-4"),
        None => false,
    };
    if !is_test_process || !right_case || !safe_root(app_support, injected_app_support, home)
        || !root_is_canonical_directory {
        return None;
    }
    proof {
        reveal_strlit(".muxy-p7-panel-status.json");
    }
    Some(joined_path(app_support, PANEL_STATUS_FILE))
}

} // verus!
