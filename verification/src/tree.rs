//! Decision logic of the file-tree domain store: directory slugs, timestamps,
//! stored names of the enum fields, the id-to-directory index and the surface
//! bindings of a session's layout file. The store's own file I/O lives with the
//! application.

mod cache;
mod datetime;
mod entries;
mod layout;
mod slug;
mod store;

pub use datetime::{
    days_before_month, days_before_year, days_to_ymd, format_iso8601, is_iso8601_stamp, is_leap,
    is_leap_year, lemma_days_to_ymd_is_calendar_date, law_next_day_is_calendar_successor, next_day, valid_date, day_number, month_len, month_of, now_iso8601, spec_days_to_ymd, spec_iso8601, year_len,
    year_of,
};

pub use slug::{
    law_ascii_slug, law_ascii_slug_idempotent, law_ascii_slug_runs, law_slug_body_is_joined_runs,
    ascii_slug_chars, dash_runs, join_dashes, split_runs, is_run, slug_alphabet, slug_body, law_first_free_is_free, law_slug_shape, slug_shaped, candidate, collapsed, first_free, holds, prefix, slug_char, slugify, spec_slugify,
    trim_end_dashes, unique_slug_among,
};
pub use store::{
    law_archive_covers_subtree, law_live_child_is_not_archived, is_live_name, listing_order, order_key, spec_is_live_name, is_archived, max_order, next_sort_order, persistence_error, segment_at, source_kind_from_str,
    source_kind_str, spec_is_archived, spec_next_sort_order, spec_source_kind_of,
    spec_surface_kind_of, spec_title_source_of, surface_kind_from_str, surface_kind_str,
    title_source_from_str, title_source_str, TreeState, ARCHIVE_DIR,
};
pub use layout::{
    attach_binding, binding_for_placement, binding_live, binding_placed, binding_surface,
    binds_live, check_placement, id_bound, kept_panel_tree, new_binding, placement_held, placement_in_use,
    record_binding_status, soft_delete_binding, unbind, SurfaceBinding,
};
pub use entries::{
    opt_dir, check_attach, check_project_archive, check_project_hard_delete, check_session_archive,
    check_session_hard_delete, check_workspace_delete, law_relocated_names_are_fresh, name_views, orders_bounded, plan_project, plan_relocation,
    plan_session, plan_workspace, renamed_slug, tree_inferred_name,
};
pub use cache::{cache_paths, FileCache, FileStamp};
