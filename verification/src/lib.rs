//! Verified core of a key-value store migration engine.
//!
//! The engine copies every key of a source store to a destination store,
//! preserving the per-key data type (string, list, set, hash, with a
//! best-effort fallback for anything else). The modules here hold the
//! decisions of that engine — type dispatch, write planning, batching and
//! failure accounting — together with a model of the destination store's
//! write semantics, against which the planner's laws are proved.

mod batch;
mod engine;
mod laws;
mod plan;
mod report;
mod store;
mod value;

pub use batch::chunks_of;
pub use batch::lemma_chunk_sizes;
pub use batch::lemma_chunks_flatten;
pub use batch::make_batches;
pub use engine::KeyRead;
pub use engine::dest_after;
pub use engine::migrate_batch_into;
pub use engine::outcome_for;
pub use engine::outcomes_for;
pub use laws::lemma_hash_fidelity;
pub use laws::lemma_hash_idempotent;
pub use laws::lemma_hash_plan_effect;
pub use laws::lemma_list_order_preserved;
pub use laws::lemma_list_plan_effect;
pub use laws::lemma_list_rerun_doubles;
pub use laws::lemma_nil_fallback_unsupported;
pub use laws::lemma_set_idempotent;
pub use laws::lemma_set_plan_effect;
pub use laws::lemma_string_idempotent;
pub use laws::lemma_string_plan_effect;
pub use laws::lemma_written_fields_exact;
pub use laws::written_fields;
pub use plan::OpV;
pub use plan::PlanOutcome;
pub use plan::ReadOp;
pub use plan::WriteOp;
pub use plan::fallback_plan;
pub use plan::hash_plan;
pub use plan::list_plan;
pub use plan::migration_plan;
pub use plan::ops_view;
pub use plan::plan_migration;
pub use plan::read_op_for;
pub use plan::set_plan;
pub use plan::spec_read_op;
pub use plan::string_plan;
pub use plan::text_fields;
pub use plan::texts;
pub use report::KeyOutcome;
pub use report::MigrationError;
pub use report::MigrationSummary;
pub use report::failures_of;
pub use report::is_success;
pub use report::lemma_all_success;
pub use report::lemma_single_failure;
pub use report::success_count;
pub use report::summarize;
pub use store::EntryV;
pub use store::MemStore;
pub use store::StoreV;
pub use store::apply_op;
pub use store::apply_ops;
pub use store::base_hash;
pub use store::base_list;
pub use store::base_set;
pub use store::scalars_view;
pub use value::KeyType;
pub use value::RawItem;
pub use value::RawItemV;
pub use value::RawValue;
pub use value::RawValueV;
pub use value::Scalar;
pub use value::ScalarV;
pub use value::SourceValue;
pub use value::SourceValueV;
pub use value::parse_key_type;
pub use value::spec_key_type;
