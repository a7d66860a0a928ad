//! Builds a mod-metadata manifest: a base document, a list of dependency
//! names drawn from a paginated portal or a local cache, a filter over an
//! ignore set, and a date-stamped version string.

mod text;
mod document;
mod paginate;
mod transform;
mod version;

pub use text::{decimal, digit_char, push_decimal, push_two_digits, two_digits};
pub use transform::{
    dependencies_of, dependency_for, dependency_text, is_ignored, lemma_ignored_never_emitted,
    lemma_kept_emitted_per_occurrence, marker, name_set, occurrences, texts, transform_names,
};
pub use version::{current_version, stamp_version, version_text, CivilDate};
pub use document::{
    build_info, dependencies_key, has_key, keys_unique, lemma_merge_overrides, lemma_set_entry,
    lookup, merge_document, merged, set_entry, version_key, DocValue, Document,
};
pub use paginate::{
    lemma_walk_requests_each_page, next_request, page_url, page_url_text, recorded_total,
    requests_from, select_source, NameSource, PageError, Paginator, PortalPage, Step,
};
