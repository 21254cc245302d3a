//! Core of a stale-branch cleanup tool: branch records enriched with
//! pull-request status, a cache-backed store, and the pure view-state
//! transitions that drive an interactive selection UI.
//!
//! The modules follow the tool's data flow: `branch` holds the record
//! type; `model` the specification-level sequences and name sets that the
//! contracts speak of; `git` the remote-URL parsing and the choice of
//! cleanup candidates, with `url_shape` guarding the URL shapes the
//! outside parser handles; `enrich` the folding of pull-request lookups
//! into records; `store` the store trait and the in-memory store that backs
//! tests and the shared cache; `view_model` the cursor, marking, update
//! and delete-then-reload transitions; `controller` the key bindings and
//! signal dispatch; and `laws` the proved global properties of those
//! transitions. Repository, network and terminal I/O stay outside the
//! library and reach it only through plain values.
mod branch;
mod controller;
mod enrich;
mod error;
mod git;
pub mod laws;
pub mod model;
mod store;
pub mod url_shape;
mod view_model;

pub use branch::BCBranch;
pub use branch::PrStatus;
pub use controller::format_status_for_display;
pub use controller::map_key;
pub use controller::AppSignal;
pub use controller::BranchCleanerApp;
pub use controller::InputKey;
pub use controller::KeyAction;
pub use enrich::classify_pr;
pub use enrich::enrich_records;
pub use enrich::record_from_lookup;
pub use error::BranchCleanerError;
pub use git::deletable_branch_names;
pub use git::get_local_branches;
pub use git::parse_github_remote;
pub use git::BranchRepository;
pub use store::loading_records;
pub use store::BranchStore;
pub use store::InMemoryBranchStore;
pub use view_model::delete_rel;
pub use view_model::merged_branch_names;
pub use view_model::move_down_rel;
pub use view_model::move_up_rel;
pub use view_model::toggle_rel;
pub use view_model::update_rel;
pub use view_model::BranchViewModel;
pub use view_model::ViewState;
