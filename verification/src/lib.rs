pub mod composer;
pub mod composer_flow;
pub mod extension_webviews;
pub mod omnibox;
pub mod omnibox_items;
pub mod scoring;
pub mod search_location;
pub mod status_bar;
pub mod terminal;
pub mod test_roots;
pub mod text;
pub mod titlebar;
pub mod workspace_view;
pub mod worktree_settings;
