//! The state store: the application state, the closed set of intents, and the
//! transition that applies one intent atomically.

use vstd::prelude::*;
use vstd::string::StrSliceExecFns;

use crate::seqs::lemma_filter_all_true;
use crate::seqs::lemma_filter_ordered;
use crate::seqs::lemma_filter_push;
use crate::seqs::lemma_remove_is_filter;
use crate::text::is_space;
use crate::text::is_trimmed;
use crate::text::lemma_trim_spec_trimmed;
use crate::text::trim_spec;
use crate::text::trim_str;

verus! {

/// One to-do entry: a unique id, its text, and whether it is done.
#[derive(Debug, Clone)]
pub struct Todo {
    pub id: usize,
    pub text: String,
    pub completed: bool,
}

/// The mathematical image of one task.
#[verifier::ext_equal]
pub ghost struct TaskView {
    pub id: int,
    pub text: Seq<char>,
    pub completed: bool,
}

impl View for Todo {
    type V = TaskView;

    open spec fn view(&self) -> TaskView {
        TaskView { id: self.id as int, text: self.text@, completed: self.completed }
    }
}

/// The visual theme: a two-state machine flipped by `Message::ToggleTheme`.
#[derive(Debug, Clone, Copy, PartialEq, Eq, Structural)]
pub enum AppTheme {
    Light,
    Dark,
}

/// The opposite theme.
pub open spec fn flip_theme(t: AppTheme) -> AppTheme {
    match t {
        AppTheme::Light => AppTheme::Dark,
        AppTheme::Dark => AppTheme::Light,
    }
}

/// The closed set of user intents the runtime can deliver.
#[derive(Debug, Clone)]
pub enum Message {
    InputChanged(String),
    AddTodo,
    ToggleTodo(usize),
    DeleteTodo(usize),
    ToggleTheme,
    ClearCompleted,
}

/// The authoritative application state.
#[derive(Debug)]
pub struct TodoApp {
    pub todos: Vec<Todo>,
    pub input_value: String,
    pub next_id: usize,
    pub current_theme: AppTheme,
}

/// The mathematical image of the whole state.
#[verifier::ext_equal]
pub ghost struct AppView {
    pub tasks: Seq<TaskView>,
    pub draft: Seq<char>,
    pub next_id: int,
    pub theme: AppTheme,
}

impl View for TodoApp {
    type V = AppView;

    open spec fn view(&self) -> AppView {
        AppView {
            tasks: self.todos@.map_values(|t: Todo| t@),
            draft: self.input_value@,
            next_id: self.next_id as int,
            theme: self.current_theme,
        }
    }
}

/// Ids strictly increase along the task list, so they also record creation
/// order.
pub open spec fn sorted_ids(s: Seq<TaskView>) -> bool {
    forall|i: int, j: int| 0 <= i < j < s.len() ==> s[i].id < s[j].id
}

/// Whether some task in the list carries the given id.
pub open spec fn has_id(s: Seq<TaskView>, id: int) -> bool {
    exists|i: int| 0 <= i < s.len() && s[i].id == id
}

/// One stored task is valid: a positive id and a non-empty, trimmed text.
pub open spec fn task_wf(t: TaskView) -> bool {
    &&& t.id >= 1
    &&& t.text.len() > 0
    &&& is_trimmed(t.text)
}

/// The state invariant: every task valid, ids strictly increasing and all
/// below `next_id`, which starts at 1 and never goes back.
pub open spec fn wf(v: AppView) -> bool {
    &&& v.next_id >= 1
    &&& forall|i: int| 0 <= i < v.tasks.len() ==> task_wf(#[trigger] v.tasks[i])
    &&& forall|i: int| 0 <= i < v.tasks.len() ==> (#[trigger] v.tasks[i]).id < v.next_id
    &&& sorted_ids(v.tasks)
}

/// The state right after start: no tasks, empty draft, ids start at 1, light
/// theme.
pub open spec fn init_view() -> AppView {
    AppView { tasks: Seq::empty(), draft: Seq::empty(), next_id: 1, theme: AppTheme::Light }
}

/// Flips the completion flag of the task with the given id, if present.
pub open spec fn toggle_tasks(tasks: Seq<TaskView>, id: int) -> Seq<TaskView> {
    tasks.map_values(
        |t: TaskView|
            if t.id == id {
                TaskView { completed: !t.completed, ..t }
            } else {
                t
            },
    )
}

/// Submitting the draft: a no-op when the trimmed draft is empty; otherwise a
/// new, not-completed task with the trimmed text and the next id is appended,
/// the id counter moves up, and the draft is cleared.
pub open spec fn submit_view(pre: AppView) -> AppView {
    let text = trim_spec(pre.draft);
    if text.len() == 0 {
        pre
    } else {
        AppView {
            tasks: pre.tasks.push(TaskView { id: pre.next_id, text, completed: false }),
            draft: Seq::empty(),
            next_id: pre.next_id + 1,
            theme: pre.theme,
        }
    }
}

/// What one intent does to the state. Missing ids and empty drafts are
/// no-ops, never errors.
pub open spec fn step(pre: AppView, m: Message) -> AppView {
    match m {
        Message::InputChanged(value) => AppView { draft: value@, ..pre },
        Message::AddTodo => submit_view(pre),
        Message::ToggleTodo(id) => AppView { tasks: toggle_tasks(pre.tasks, id as int), ..pre },
        Message::DeleteTodo(id) => AppView {
            tasks: pre.tasks.filter(|t: TaskView| t.id != id as int),
            ..pre
        },
        Message::ToggleTheme => AppView { theme: flip_theme(pre.theme), ..pre },
        Message::ClearCompleted => AppView {
            tasks: pre.tasks.filter(|t: TaskView| !t.completed),
            ..pre
        },
    }
}

/// Every step keeps the state well-formed, never lowers the id counter, and
/// gives no task an id that an earlier task could already have carried unless
/// that id was present before the step.
pub proof fn lemma_step_preserves_wf(v: AppView, m: Message)
    requires
        wf(v),
    ensures
        wf(step(v, m)),
        step(v, m).next_id >= v.next_id,
        forall|i: int|
            0 <= i < step(v, m).tasks.len() ==> has_id(v.tasks, (#[trigger] step(v, m).tasks[i]).id)
                || step(v, m).tasks[i].id >= v.next_id,
{
    let post = step(v, m);
    match m {
        Message::InputChanged(_) => {},
        Message::AddTodo => {
            if trim_spec(v.draft).len() > 0 {
                lemma_trim_spec_trimmed(v.draft);
                assert(forall|i: int|
                    0 <= i < v.tasks.len() ==> post.tasks[i] == #[trigger] v.tasks[i]);
                assert(forall|i: int|
                    0 <= i < v.tasks.len() ==> has_id(v.tasks, (#[trigger] v.tasks[i]).id));
            }
        },
        Message::ToggleTodo(id) => {
            assert(forall|i: int|
                0 <= i < v.tasks.len() ==> (#[trigger] post.tasks[i]).id == v.tasks[i].id
                    && post.tasks[i].text == v.tasks[i].text);
            assert(forall|i: int|
                0 <= i < post.tasks.len() ==> has_id(v.tasks, (#[trigger] post.tasks[i]).id));
        },
        Message::DeleteTodo(id) => {
            lemma_filter_retains(v, |t: TaskView| t.id != id as int);
        },
        Message::ToggleTheme => {},
        Message::ClearCompleted => {
            lemma_filter_retains(v, |t: TaskView| !t.completed);
        },
    }
}

/// Filtering the task list of a well-formed state keeps it well-formed and
/// keeps every surviving id an old id.
proof fn lemma_filter_retains(v: AppView, p: spec_fn(TaskView) -> bool)
    requires
        wf(v),
    ensures
        wf(AppView { tasks: v.tasks.filter(p), ..v }),
        forall|i: int|
            0 <= i < v.tasks.filter(p).len() ==> has_id(
                v.tasks,
                (#[trigger] v.tasks.filter(p)[i]).id,
            ),
{
    let f = v.tasks.filter(p);
    lemma_filter_ordered(v.tasks, p, |t: TaskView| t.id);
    assert forall|i: int| 0 <= i < f.len() implies task_wf(#[trigger] f[i]) && f[i].id < v.next_id
        && has_id(v.tasks, f[i].id) by {
        assert(v.tasks.contains(f[i]));
        let k = choose|k: int| 0 <= k < v.tasks.len() && v.tasks[k] == f[i];
        assert(task_wf(v.tasks[k]));
    }
    assert forall|i: int, j: int| 0 <= i < j < f.len() implies f[i].id < f[j].id by {
        assert(forall|i: int, j: int| 0 <= i < j < v.tasks.len() ==> v.tasks[i].id < v.tasks[j].id);
    }
}

impl Default for TodoApp {
    /// The single initial state: empty tasks, empty draft, `next_id` 1, light
    /// theme.
    fn default() -> (res: Self)
        ensures
            res@ == init_view(),
            res.inv(),
    {
        let res = TodoApp {
            todos: Vec::new(),
            input_value: String::new(),
            next_id: 1,
            current_theme: AppTheme::Light,
        };
        proof {
            assert(res@ =~= init_view());
        }
        res
    }
}

impl TodoApp {
    /// The state invariant, stated over the mathematical image.
    pub open spec fn inv(&self) -> bool {
        wf(self@)
    }

    /// Decides the state invariant at run time, so that an unverified caller
    /// can test it before asking for an update.
    #[verifier::loop_isolation(false)]
    pub fn invariant_holds(&self) -> (r: bool)
        ensures
            r == self.inv(),
    {
        if self.next_id < 1 {
            return false;
        }
        let n = self.todos.len();
        let mut i: usize = 0;
        while i < n
            invariant
                i <= n,
                forall|a: int, b: int|
                    0 <= a < b < i ==> self@.tasks[a].id < self@.tasks[b].id,
                forall|a: int| 0 <= a < i ==> task_wf(#[trigger] self@.tasks[a]),
                forall|a: int| 0 <= a < i ==> (#[trigger] self@.tasks[a]).id < self@.next_id,
            decreases n - i,
        {
            let t = &self.todos[i];
            if t.id < 1 || t.id >= self.next_id {
                proof {
                    let tv = self@.tasks[i as int];
                    assert(tv.id == t.id as int);
                    if t.id < 1 {
                        assert(!task_wf(tv));
                    } else {
                        assert(tv.id >= self@.next_id);
                    }
                }
                return false;
            }
            if i > 0 && self.todos[i - 1].id >= t.id {
                proof {
                    let a = self@.tasks[i - 1];
                    let b = self@.tasks[i as int];
                    assert(a.id >= b.id);
                    assert(!sorted_ids(self@.tasks));
                }
                return false;
            }
            let s = t.text.as_str();
            let l = s.unicode_len();
            proof {
                assert(self@.tasks[i as int].text == s@);
            }
            if l == 0 {
                proof {
                    assert(!task_wf(self@.tasks[i as int]));
                }
                return false;
            }
            if s.get_char(0).is_whitespace() {
                proof {
                    assert(!is_trimmed(self@.tasks[i as int].text));
                    assert(!task_wf(self@.tasks[i as int]));
                }
                return false;
            }
            if s.get_char(l - 1).is_whitespace() {
                proof {
                    assert(is_space(s@.last()));
                    assert(!is_trimmed(self@.tasks[i as int].text));
                    assert(!task_wf(self@.tasks[i as int]));
                }
                return false;
            }
            proof {
                assert forall|a: int, b: int|
                    0 <= a < b < i + 1 implies self@.tasks[a].id < self@.tasks[b].id by {
                    if b == i as int && a < i - 1 {
                        assert(self@.tasks[a].id < self@.tasks[i - 1].id);
                    }
                }
            }
            i += 1;
        }
        true
    }

    /// Applies one intent atomically. The whole effect is `step`; the state
    /// stays well-formed.
    #[verifier::loop_isolation(false)]
    pub fn update(state: &mut TodoApp, message: Message)
        requires
            old(state).inv(),
            old(state).next_id < usize::MAX,
        ensures
            final(state)@ == step(old(state)@, message),
            final(state).inv(),
    {
        proof {
            lemma_step_preserves_wf(old(state)@, message);
        }
        match message {
            Message::InputChanged(value) => {
                state.input_value = value;
                proof {
                    assert(state@ =~= step(old(state)@, Message::InputChanged(value)));
                }
            },
            Message::AddTodo => {
                let trimmed = trim_str(state.input_value.as_str());
                if !trimmed.is_empty() {
                    let text = trimmed.to_owned();
                    let id = state.next_id;
                    state.todos.push(Todo { id, text, completed: false });
                    state.next_id = state.next_id + 1;
                    state.input_value = String::new();
                    proof {
                        assert(state@.tasks =~= submit_view(old(state)@).tasks);
                        assert(state@ =~= step(old(state)@, Message::AddTodo));
                    }
                } else {
                    proof {
                        assert(state@ =~= step(old(state)@, Message::AddTodo));
                    }
                }
            },
            Message::ToggleTodo(id) => {
                let n = state.todos.len();
                let mut i: usize = 0;
                let ghost pre = state@;
                while i < n
                    invariant
                        *state == *old(state),
                        pre == state@,
                        n == state.todos.len(),
                        i <= n,
                        forall|j: int| 0 <= j < i ==> (#[trigger] pre.tasks[j]).id != id as int,
                    decreases n - i,
                {
                    if state.todos[i].id == id {
                        let was_done = state.todos[i].completed;
                        state.todos[i].completed = !was_done;
                        proof {
                            assert forall|j: int|
                                0 <= j < pre.tasks.len() && j != i implies (
                                #[trigger] pre.tasks[j]).id != id as int by {
                                if j > i {
                                    assert(pre.tasks[i as int].id < pre.tasks[j].id);
                                }
                            }
                            assert(state@.tasks =~= toggle_tasks(pre.tasks, id as int));
                            assert(state@ =~= step(old(state)@, Message::ToggleTodo(id)));
                        }
                        return ;
                    }
                    i += 1;
                }
                proof {
                    assert(state@.tasks =~= toggle_tasks(pre.tasks, id as int));
                    assert(state@ =~= step(old(state)@, Message::ToggleTodo(id)));
                }
            },
            Message::DeleteTodo(id) => {
                let n = state.todos.len();
                let mut i: usize = 0;
                let ghost pre = state@;
                while i < n
                    invariant
                        *state == *old(state),
                        pre == state@,
                        n == state.todos.len(),
                        i <= n,
                        forall|j: int| 0 <= j < i ==> (#[trigger] pre.tasks[j]).id != id as int,
                    decreases n - i,
                {
                    if state.todos[i].id == id {
                        state.todos.remove(i);
                        proof {
                            assert forall|j: int|
                                0 <= j < pre.tasks.len() && j != i implies (
                                #[trigger] pre.tasks[j]).id != id as int by {
                                if j > i {
                                    assert(pre.tasks[i as int].id < pre.tasks[j].id);
                                }
                            }
                            lemma_remove_is_filter(
                                pre.tasks,
                                |t: TaskView| t.id != id as int,
                                i as int,
                            );
                            assert(state@.tasks =~= pre.tasks.remove(i as int));
                            assert(state@ =~= step(old(state)@, Message::DeleteTodo(id)));
                        }
                        return ;
                    }
                    i += 1;
                }
                proof {
                    lemma_filter_all_true(pre.tasks, |t: TaskView| t.id != id as int);
                    assert(state@ =~= step(old(state)@, Message::DeleteTodo(id)));
                }
            },
            Message::ToggleTheme => {
                state.current_theme = match state.current_theme {
                    AppTheme::Light => AppTheme::Dark,
                    AppTheme::Dark => AppTheme::Light,
                };
                proof {
                    assert(state@ =~= step(old(state)@, Message::ToggleTheme));
                }
            },
            Message::ClearCompleted => {
                let mut kept: Vec<Todo> = Vec::new();
                let ghost mut seen: Seq<TaskView> = Seq::empty();
                while state.todos.len() > 0
                    invariant
                        state.input_value == old(state).input_value,
                        state.next_id == old(state).next_id,
                        state.current_theme == old(state).current_theme,
                        old(state)@.tasks =~= seen + state.todos@.map_values(|t: Todo| t@),
                        kept@.map_values(|t: Todo| t@) =~= seen.filter(
                            |t: TaskView| !t.completed,
                        ),
                    decreases state.todos@.len(),
                {
                    let ghost seen_pre = seen;
                    let ghost cur = state.todos@.map_values(|t: Todo| t@);
                    let t = state.todos.remove(0);
                    if !t.completed {
                        kept.push(t);
                    }
                    proof {
                        seen = seen_pre.push(t@);
                        lemma_filter_push(seen_pre, |t: TaskView| !t.completed, t@);
                        assert(cur =~= seq![t@] + state.todos@.map_values(|t: Todo| t@));
                        assert(seen_pre + cur =~= seen + state.todos@.map_values(|t: Todo| t@));
                        if !t.completed {
                            assert(kept@.map_values(|t: Todo| t@) =~= seen.filter(
                                |t: TaskView| !t.completed,
                            ));
                        }
                    }
                }
                state.todos = kept;
                proof {
                    assert(old(state)@.tasks =~= seen);
                    assert(state@ =~= step(old(state)@, Message::ClearCompleted));
                }
            },
        }
    }
}

} // verus!
