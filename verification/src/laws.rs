//! Laws of the state machine and of the projection, proved once for all
//! states rather than observed on samples.

use vstd::prelude::*;

use crate::seqs::lemma_filter_all_true;
use crate::seqs::lemma_filter_ordered;
use crate::state::flip_theme;
use crate::state::has_id;
use crate::state::lemma_step_preserves_wf;
use crate::state::sorted_ids;
use crate::state::step;
use crate::state::wf;
use crate::state::AppView;
use crate::state::Message;
use crate::state::TaskView;
use crate::text::trim_spec;
use crate::view::display_order;
use crate::view::display_sorted;

verus! {

/// Submitting while the trimmed draft is empty is a perfect no-op: tasks,
/// draft, id counter and theme all stay exactly as they were.
pub proof fn lemma_submit_empty_noop(v: AppView)
    requires
        trim_spec(v.draft).len() == 0,
    ensures
        step(v, Message::AddTodo) == v,
{
}

/// A successful submission assigns exactly the current counter value, an id
/// no stored task carries, and moves the counter up by one.
pub proof fn lemma_submit_assigns_fresh_id(v: AppView)
    requires
        wf(v),
        trim_spec(v.draft).len() > 0,
    ensures
        step(v, Message::AddTodo).tasks.last().id == v.next_id,
        step(v, Message::AddTodo).next_id == v.next_id + 1,
        !has_id(v.tasks, v.next_id),
{
    if has_id(v.tasks, v.next_id) {
        let i = choose|i: int| 0 <= i < v.tasks.len() && v.tasks[i].id == v.next_id;
        assert(v.tasks[i].id < v.next_id);
    }
}

/// The result of applying a sequence of intents in order.
pub open spec fn run(v: AppView, ms: Seq<Message>) -> AppView
    decreases ms.len(),
{
    if ms.len() == 0 {
        v
    } else {
        run(step(v, ms[0]), ms.drop_first())
    }
}

/// Ids are monotone and never reused. Along any sequence of intents the id
/// counter never goes down and the state stays well-formed, so the ids in the
/// task list strictly increase in creation order; and every task id present
/// afterwards either was present at the start or is at least the starting
/// counter value — a deleted id stays below every later counter value and so
/// can never be assigned again.
pub proof fn lemma_id_monotonicity(v: AppView, ms: Seq<Message>)
    requires
        wf(v),
    ensures
        wf(run(v, ms)),
        run(v, ms).next_id >= v.next_id,
        forall|i: int|
            0 <= i < run(v, ms).tasks.len() ==> has_id(
                v.tasks,
                (#[trigger] run(v, ms).tasks[i]).id,
            ) || run(v, ms).tasks[i].id >= v.next_id,
    decreases ms.len(),
{
    if ms.len() > 0 {
        let v1 = step(v, ms[0]);
        lemma_step_preserves_wf(v, ms[0]);
        lemma_id_monotonicity(v1, ms.drop_first());
        let fin = run(v, ms);
        assert(fin == run(v1, ms.drop_first()));
        assert forall|i: int| 0 <= i < fin.tasks.len() implies has_id(
            v.tasks,
            (#[trigger] fin.tasks[i]).id,
        ) || fin.tasks[i].id >= v.next_id by {
            if has_id(v1.tasks, fin.tasks[i].id) {
                let k = choose|k: int|
                    0 <= k < v1.tasks.len() && v1.tasks[k].id == fin.tasks[i].id;
                assert(has_id(v.tasks, v1.tasks[k].id) || v1.tasks[k].id >= v.next_id);
            }
        }
    }
}

/// Toggling the same id twice returns the state to exactly what it was,
/// whether or not a task with that id exists.
pub proof fn lemma_toggle_involution(v: AppView, id: usize)
    ensures
        step(step(v, Message::ToggleTodo(id)), Message::ToggleTodo(id)) == v,
{
    let w = step(step(v, Message::ToggleTodo(id)), Message::ToggleTodo(id));
    assert forall|i: int| 0 <= i < v.tasks.len() implies #[trigger] w.tasks[i] == v.tasks[i] by {
        if v.tasks[i].id == id as int {
            assert(w.tasks[i] =~= v.tasks[i]);
        }
    }
    assert(w.tasks =~= v.tasks);
    assert(w =~= v);
}

/// Deletion is absorbing: once an id is deleted, toggling it or deleting it
/// again changes nothing — a stale reference is a no-op, never an error.
pub proof fn lemma_delete_absorbing(v: AppView, id: usize)
    ensures
        step(step(v, Message::DeleteTodo(id)), Message::ToggleTodo(id)) == step(
            v,
            Message::DeleteTodo(id),
        ),
        step(step(v, Message::DeleteTodo(id)), Message::DeleteTodo(id)) == step(
            v,
            Message::DeleteTodo(id),
        ),
{
    let p = |t: TaskView| t.id != id as int;
    let v1 = step(v, Message::DeleteTodo(id));
    assert forall|i: int| 0 <= i < v1.tasks.len() implies p(#[trigger] v1.tasks[i]) by {
        v.tasks.lemma_filter_pred(p, i);
    }
    let w = step(v1, Message::ToggleTodo(id));
    assert(w.tasks =~= v1.tasks);
    assert(w =~= v1);
    lemma_filter_all_true(v1.tasks, p);
    assert(step(v1, Message::DeleteTodo(id)) =~= v1);
}

/// Two theme toggles return to the start, and the machine has no other
/// transition: each flip only swaps the two states.
pub proof fn lemma_theme_cycle(v: AppView)
    ensures
        step(step(v, Message::ToggleTheme), Message::ToggleTheme) == v,
        flip_theme(v.theme) != v.theme,
{
    assert(step(step(v, Message::ToggleTheme), Message::ToggleTheme) =~= v);
}

/// When ids ascend in storage order — the state invariant — the display
/// order is exactly the composite key (completed ascending, id ascending):
/// all incomplete tasks first, each side in creation order.
pub proof fn lemma_display_ordering(tasks: Seq<TaskView>)
    requires
        sorted_ids(tasks),
    ensures
        display_sorted(display_order(tasks)),
{
    let pnot = |t: TaskView| !t.completed;
    let pyes = |t: TaskView| t.completed;
    let fp = tasks.filter(pnot);
    let fd = tasks.filter(pyes);
    lemma_filter_ordered(tasks, pnot, |t: TaskView| t.id);
    lemma_filter_ordered(tasks, pyes, |t: TaskView| t.id);
    let ord = display_order(tasks);
    assert forall|i: int, j: int| 0 <= i < j < ord.len() implies ((!(#[trigger] ord[i]).completed
        || (#[trigger] ord[j]).completed) && (ord[i].completed == ord[j].completed ==> ord[i].id
        < ord[j].id)) by {
        if i < fp.len() {
            tasks.lemma_filter_pred(pnot, i);
        } else {
            tasks.lemma_filter_pred(pyes, i - fp.len());
        }
        if j < fp.len() {
            tasks.lemma_filter_pred(pnot, j);
        } else {
            tasks.lemma_filter_pred(pyes, j - fp.len());
        }
    }
}

} // verus!
