mod audit;
mod ids;
mod laws;
mod nodes;
mod script;
mod state;
mod tree_def;

pub use audit::audit_bracketed;
pub use audit::audit_enter;
pub use audit::audit_entered;
pub use audit::audit_exit;
pub use audit::audit_exited;
pub use audit::audit_mark;
pub use audit::audit_marked;
pub use audit::audit_step_ok;
pub use audit::BehaviorTreeAudit;
pub use audit::BehaviorTreeAuditTrait;
pub use audit::BehaviorTreeMarker;
pub use ids::bt_id_label;
pub use ids::decimal_digits;
pub use ids::digit_char;
pub use ids::get_bt_id;
pub use ids::lemma_bt_id_label_injective;
pub use ids::lemma_decimal_digits_injective;
pub use laws::lemma_failer_table;
pub use laws::lemma_inverter_table;
pub use laws::lemma_succeeder_table;
pub use laws::ScriptedNode;
pub use nodes::BehaviorTree;
pub use nodes::BehaviorTreeNode;
pub use nodes::DECORATOR_LOOP_FUEL;
pub use nodes::Failer;
pub use nodes::Inverter;
pub use nodes::lemma_reset_preserves_height;
pub use nodes::list_resume_start;
pub use nodes::node_height;
pub use nodes::node_is_fresh;
pub use nodes::node_resume_rel;
pub use nodes::list_children_run;
pub use nodes::list_run_terminal;
pub use nodes::node_run_rel;
pub use nodes::selector_step_rel;
pub use nodes::sequence_step_rel;
pub use nodes::node_seq_height;
pub use nodes::node_seq_is_fresh;
pub use nodes::node_steps_chain;
pub use nodes::Repeat;
pub use nodes::repeat_step_rel;
pub use nodes::repeat_until_fail_step_rel;
pub use nodes::repeat_until_success_step_rel;
pub use nodes::RepeatUntilFail;
pub use nodes::RepeatUntilSuccess;
pub use nodes::reset_rel;
pub use nodes::resume_step_ok;
pub use nodes::Selector;
pub use nodes::Sequence;
pub use nodes::Succeeder;
pub use script::MeteredLeaf;
pub use script::scripted_outcome;
pub use script::ScriptedLeaf;
pub use state::apply_failer_outcome;
pub use state::apply_inverter_outcome;
pub use state::apply_succeeder_outcome;
pub use state::BehaviorTreeState;
pub use state::failer_outcome;
pub use state::gas_step_ok;
pub use state::inverter_outcome;
pub use state::is_decided;
pub use state::succeeder_outcome;
pub use tree_def::BehaviorTreeDef;
pub use tree_def::compiled_from;
pub use tree_def::compiled_seq_from;
pub use tree_def::lemma_compiled_is_fresh;
pub use tree_def::UserNodeDefinition;
pub use tree_def::UserWrapperDefinition;
