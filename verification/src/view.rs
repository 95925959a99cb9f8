//! The view projector: a pure, toolkit-agnostic description of what to
//! render, derived from the state with no mutation.

use vstd::prelude::*;
use vstd::string::StringExecFns;

use crate::seqs::lemma_filter_partition;
use crate::seqs::lemma_filter_push;
use crate::state::AppTheme;
use crate::state::Message;
use crate::state::TaskView;
use crate::state::TodoApp;
use crate::text::dec_str;
use crate::text::usize_to_string;

verus! {

/// One displayed task row, with the intents its interactive regions emit.
pub struct TaskRow {
    pub id: usize,
    pub text: String,
    pub completed: bool,
    /// Muted, secondary styling; derived solely from `completed`.
    pub muted: bool,
    /// What the row's checkbox emits on activation.
    pub toggle_intent: Message,
    /// What the row's delete control emits on activation.
    pub delete_intent: Message,
}

/// The task area: a structural branch, not merely an empty list, because the
/// empty state carries its own guidance text.
pub enum TaskListView {
    Empty { headline: String, guidance: String },
    List { rows: Vec<TaskRow> },
}

/// The declarative presentation tree handed to the rendering adapter.
pub struct ViewTree {
    pub title: String,
    pub subtitle: String,
    pub input_placeholder: String,
    /// The current draft, echoed back into the input control.
    pub input_value: String,
    pub add_label: String,
    /// Names the target theme, never the current one.
    pub theme_label: String,
    pub clear_label: String,
    pub list: TaskListView,
    pub summary: String,
    pub total: usize,
    pub completed_count: usize,
    pub remaining_count: usize,
}

/// Display order: incomplete tasks first, then completed ones, each side in
/// stored (id) order.
pub open spec fn display_order(tasks: Seq<TaskView>) -> Seq<TaskView> {
    tasks.filter(|t: TaskView| !t.completed) + tasks.filter(|t: TaskView| t.completed)
}

/// Strict composite-key order for display: no completed task before an
/// incomplete one, and ids ascending within each group.
pub open spec fn display_sorted(s: Seq<TaskView>) -> bool {
    forall|i: int, j: int|
        0 <= i < j < s.len() ==> ((!(#[trigger] s[i]).completed || (#[trigger] s[j]).completed) && (
        s[i].completed == s[j].completed ==> s[i].id < s[j].id))
}

/// A row faithfully presents one task.
pub open spec fn row_matches(r: TaskRow, t: TaskView) -> bool {
    &&& r.id as int == t.id
    &&& r.text@ == t.text
    &&& r.completed == t.completed
    &&& r.muted == t.completed
    &&& r.toggle_intent == Message::ToggleTodo(r.id)
    &&& r.delete_intent == Message::DeleteTodo(r.id)
}

/// The rows present exactly the given tasks, in the given order.
pub open spec fn rows_match(rows: Seq<TaskRow>, tasks: Seq<TaskView>) -> bool {
    &&& rows.len() == tasks.len()
    &&& forall|i: int| 0 <= i < rows.len() ==> row_matches(#[trigger] rows[i], tasks[i])
}

/// The summary line when at least one task exists.
pub open spec fn summary_spec(total: nat, completed: nat, remaining: nat) -> Seq<char> {
    "Total: "@ + dec_str(total) + " | Completed: "@ + dec_str(completed) + " | Remaining: "@
        + dec_str(remaining)
}

impl TodoApp {
    /// Projects the state into a view tree. Pure: the state is only read, and
    /// every derived value is recomputed from it.
    #[verifier::loop_isolation(false)]
    pub fn view(state: &TodoApp) -> (res: ViewTree)
        ensures
            res.title@ == "Todo List"@,
            res.subtitle@ == "Organize your tasks efficiently"@,
            res.input_placeholder@ == "What needs to be done?"@,
            res.input_value@ == state@.draft,
            res.add_label@ == "Add"@,
            res.clear_label@ == "Clear Completed"@,
            state@.theme == AppTheme::Light ==> res.theme_label@ == "Dark Mode"@,
            state@.theme == AppTheme::Dark ==> res.theme_label@ == "Light Mode"@,
            res.total == state@.tasks.len(),
            res.completed_count == state@.tasks.filter(|t: TaskView| t.completed).len(),
            res.remaining_count == state@.tasks.filter(|t: TaskView| !t.completed).len(),
            res.total == res.completed_count + res.remaining_count,
            state@.tasks.len() == 0 ==> (res.list matches TaskListView::Empty { headline, guidance }
                && headline@ == "No todos yet!"@ && guidance@
                == "Add your first task above to get started"@),
            state@.tasks.len() > 0 ==> (res.list matches TaskListView::List { rows } && rows_match(
                rows@,
                display_order(state@.tasks),
            )),
            state@.tasks.len() == 0 ==> res.summary@ == "Ready to add your first task!"@,
            state@.tasks.len() > 0 ==> res.summary@ == summary_spec(
                res.total as nat,
                res.completed_count as nat,
                res.remaining_count as nat,
            ),
    {
        let ghost tasks = state@.tasks;
        let total = state.todos.len();
        let mut pending: Vec<TaskRow> = Vec::new();
        let mut done_rows: Vec<TaskRow> = Vec::new();
        let mut i: usize = 0;
        while i < total
            invariant
                i <= total,
                rows_match(pending@, tasks.take(i as int).filter(|t: TaskView| !t.completed)),
                rows_match(done_rows@, tasks.take(i as int).filter(|t: TaskView| t.completed)),
            decreases total - i,
        {
            let todo = &state.todos[i];
            let row = TaskRow {
                id: todo.id,
                text: todo.text.clone(),
                completed: todo.completed,
                muted: todo.completed,
                toggle_intent: Message::ToggleTodo(todo.id),
                delete_intent: Message::DeleteTodo(todo.id),
            };
            proof {
                lemma_filter_push(tasks.take(i as int), |t: TaskView| !t.completed, tasks[i as int]);
                lemma_filter_push(tasks.take(i as int), |t: TaskView| t.completed, tasks[i as int]);
                assert(tasks.take(i as int).push(tasks[i as int]) =~= tasks.take(i + 1));
            }
            if todo.completed {
                done_rows.push(row);
            } else {
                pending.push(row);
            }
            i += 1;
        }
        proof {
            assert(tasks.take(total as int) =~= tasks);
            lemma_filter_partition(
                tasks,
                |t: TaskView| !t.completed,
                |t: TaskView| t.completed,
            );
        }
        let remaining_count = pending.len();
        let completed_count = done_rows.len();

        let list = if total == 0 {
            TaskListView::Empty {
                headline: String::from_str("No todos yet!"),
                guidance: String::from_str("Add your first task above to get started"),
            }
        } else {
            let ghost fp = tasks.filter(|t: TaskView| !t.completed);
            let ghost fd = tasks.filter(|t: TaskView| t.completed);
            let mut rows = pending;
            rows.append(&mut done_rows);
            proof {
                assert forall|k: int| 0 <= k < rows@.len() implies row_matches(
                    #[trigger] rows@[k],
                    (fp + fd)[k],
                ) by {
                    if k < fp.len() {
                    }
                }
                assert(rows_match(rows@, display_order(tasks)));
            }
            TaskListView::List { rows }
        };

        let summary = if total == 0 {
            String::from_str("Ready to add your first task!")
        } else {
            let mut s = String::from_str("Total: ");
            let t1 = usize_to_string(total);
            s.append(t1.as_str());
            s.append(" | Completed: ");
            let t2 = usize_to_string(completed_count);
            s.append(t2.as_str());
            s.append(" | Remaining: ");
            let t3 = usize_to_string(remaining_count);
            s.append(t3.as_str());
            proof {
                assert(s@ =~= summary_spec(
                    total as nat,
                    completed_count as nat,
                    remaining_count as nat,
                ));
            }
            s
        };

        let theme_label = match state.current_theme {
            AppTheme::Light => String::from_str("Dark Mode"),
            AppTheme::Dark => String::from_str("Light Mode"),
        };

        ViewTree {
            title: String::from_str("Todo List"),
            subtitle: String::from_str("Organize your tasks efficiently"),
            input_placeholder: String::from_str("What needs to be done?"),
            input_value: state.input_value.clone(),
            add_label: String::from_str("Add"),
            theme_label,
            clear_label: String::from_str("Clear Completed"),
            list,
            summary,
            total,
            completed_count,
            remaining_count,
        }
    }
}

} // verus!
