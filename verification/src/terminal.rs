use vstd::prelude::*;

verus! {

/// The title of a desktop notification: the one the terminal sent, or a default when it
/// sent an empty one.
pub fn desktop_notification_title(title: String) -> (shown: String)
    ensures
        shown@ == (if title@.len() == 0 {
            "Command executed!"@
        } else {
            title@
        }),
{
    if title.as_str().is_empty() {
        "Command executed!".to_owned()
    } else {
        title
    }
}

/// A terminal notification only plays its sound when its pane is focused in the active
/// window.
pub fn desktop_notification_is_sound_only(window_active: bool, target_focused: bool) -> (r: bool)
    ensures
        r == (window_active && target_focused),
{
    window_active && target_focused
}

/// Terminal input is suspended while an overlay, a search bar or the Composer editor has
/// the keyboard.
pub fn terminal_input_overlay_active(
    overlay_open: bool,
    search_open: bool,
    composer_input_focused: bool,
) -> (r: bool)
    ensures
        r == (overlay_open || search_open || composer_input_focused),
{
    overlay_open || search_open || composer_input_focused
}

/// How the indicators of a tab change when its terminal's state changes.
#[derive(Debug, Clone, Copy, PartialEq, Eq, Structural)]
pub struct IndicatorUpdate {
    /// The tab asks for attention.
    pub attention: bool,
    /// The tab's bell flashes.
    pub bell_flash: bool,
}

/// Progress that ends, or a new bell, asks for attention; a new bell also flashes.
pub fn indicator_update(
    progress_was_active: bool,
    progress_is_active: bool,
    bell_generation_before: u64,
    bell_generation_after: u64,
) -> (update: IndicatorUpdate)
    ensures
        update.bell_flash == (bell_generation_before != bell_generation_after),
        update.attention == ((progress_was_active && !progress_is_active) || update.bell_flash),
{
    let bell_flash = bell_generation_before != bell_generation_after;
    IndicatorUpdate {
        attention: (progress_was_active && !progress_is_active) || bell_flash,
        bell_flash,
    }
}

} // verus!
