use todo_core::state::AppTheme;
use todo_core::state::Message;
use todo_core::state::TodoApp;
use todo_core::view::TaskListView;
use todo_core::view::TaskRow;
use todo_core::view::ViewTree;

fn apply(app: &mut TodoApp, message: Message) {
    assert!(app.invariant_holds());
    assert!(app.next_id < usize::MAX);
    TodoApp::update(app, message);
}

fn add_task(app: &mut TodoApp, text: &str) {
    apply(app, Message::InputChanged(text.to_string()));
    apply(app, Message::AddTodo);
}

fn rows_of(tree: &ViewTree) -> &Vec<TaskRow> {
    match &tree.list {
        TaskListView::List { rows } => rows,
        TaskListView::Empty { .. } => panic!("expected the list branch"),
    }
}

#[test]
fn submit_of_blank_draft_changes_nothing() {
    let mut app = TodoApp::default();
    apply(&mut app, Message::InputChanged("   \t ".to_string()));
    apply(&mut app, Message::AddTodo);
    assert_eq!(app.todos.len(), 0);
    assert_eq!(app.next_id, 1);
    assert_eq!(app.input_value, "   \t ");
}

#[test]
fn ids_stay_monotone_across_deletions() {
    let mut app = TodoApp::default();
    add_task(&mut app, "first");
    add_task(&mut app, "second");
    apply(&mut app, Message::DeleteTodo(1));
    add_task(&mut app, "third");
    let ids: Vec<usize> = app.todos.iter().map(|t| t.id).collect();
    assert_eq!(ids, vec![2, 3]);
    assert_eq!(app.next_id, 4);
}

#[test]
fn submit_trims_the_draft() {
    let mut app = TodoApp::default();
    apply(&mut app, Message::InputChanged("  buy milk  ".to_string()));
    apply(&mut app, Message::AddTodo);
    assert_eq!(app.todos.len(), 1);
    assert_eq!(app.todos[0].text, "buy milk");
    assert_eq!(app.todos[0].id, 1);
    assert!(!app.todos[0].completed);
    assert_eq!(app.input_value, "");
}

#[test]
fn submit_trims_unicode_whitespace() {
    let mut app = TodoApp::default();
    apply(
        &mut app,
        Message::InputChanged("\u{3000}\u{00a0}water plants\u{3000}".to_string()),
    );
    apply(&mut app, Message::AddTodo);
    assert_eq!(app.todos[0].text, "water plants");
}

#[test]
fn toggle_twice_restores_the_flag() {
    let mut app = TodoApp::default();
    add_task(&mut app, "walk dog");
    assert!(!app.todos[0].completed);
    apply(&mut app, Message::ToggleTodo(1));
    assert!(app.todos[0].completed);
    apply(&mut app, Message::ToggleTodo(1));
    assert!(!app.todos[0].completed);
}

#[test]
fn deleted_id_is_absorbing() {
    let mut app = TodoApp::default();
    add_task(&mut app, "first");
    add_task(&mut app, "second");
    apply(&mut app, Message::DeleteTodo(1));
    assert_eq!(app.todos.len(), 1);
    apply(&mut app, Message::ToggleTodo(1));
    assert_eq!(app.todos.len(), 1);
    assert_eq!(app.todos[0].id, 2);
    assert_eq!(app.todos[0].text, "second");
    assert!(!app.todos[0].completed);
    apply(&mut app, Message::DeleteTodo(1));
    assert_eq!(app.todos.len(), 1);
    assert_eq!(app.todos[0].id, 2);
}

#[test]
fn clear_completed_keeps_only_open_tasks() {
    let mut app = TodoApp::default();
    add_task(&mut app, "a");
    add_task(&mut app, "b");
    add_task(&mut app, "c");
    apply(&mut app, Message::ToggleTodo(2));
    apply(&mut app, Message::ToggleTodo(3));
    apply(&mut app, Message::ClearCompleted);
    assert_eq!(app.todos.len(), 1);
    assert_eq!(app.todos[0].text, "a");
    assert_eq!(app.todos[0].id, 1);
    assert_eq!(app.next_id, 4);
}

#[test]
fn display_puts_open_tasks_first_in_id_order() {
    let mut app = TodoApp::default();
    add_task(&mut app, "a");
    add_task(&mut app, "b");
    add_task(&mut app, "c");
    apply(&mut app, Message::ToggleTodo(2));
    let tree = TodoApp::view(&app);
    let rows = rows_of(&tree);
    let ids: Vec<usize> = rows.iter().map(|r| r.id).collect();
    assert_eq!(ids, vec![1, 3, 2]);
    let flags: Vec<bool> = rows.iter().map(|r| r.completed).collect();
    assert_eq!(flags, vec![false, false, true]);
    let texts: Vec<&str> = rows.iter().map(|r| r.text.as_str()).collect();
    assert_eq!(texts, vec!["a", "c", "b"]);
}

#[test]
fn rows_carry_their_intents_and_styling() {
    let mut app = TodoApp::default();
    add_task(&mut app, "a");
    add_task(&mut app, "b");
    apply(&mut app, Message::ToggleTodo(2));
    let tree = TodoApp::view(&app);
    for row in rows_of(&tree) {
        assert_eq!(row.muted, row.completed);
        assert!(matches!(row.toggle_intent, Message::ToggleTodo(id) if id == row.id));
        assert!(matches!(row.delete_intent, Message::DeleteTodo(id) if id == row.id));
    }
}

#[test]
fn summary_text_is_exact() {
    let mut app = TodoApp::default();
    add_task(&mut app, "a");
    add_task(&mut app, "b");
    add_task(&mut app, "c");
    apply(&mut app, Message::ToggleTodo(1));
    apply(&mut app, Message::ToggleTodo(3));
    let tree = TodoApp::view(&app);
    assert_eq!(tree.total, 3);
    assert_eq!(tree.completed_count, 2);
    assert_eq!(tree.remaining_count, 1);
    assert_eq!(tree.summary, "Total: 3 | Completed: 2 | Remaining: 1");
}

#[test]
fn summary_handles_multi_digit_counts() {
    let mut app = TodoApp::default();
    for i in 0..12usize {
        add_task(&mut app, &format!("task {}", i));
    }
    apply(&mut app, Message::ToggleTodo(10));
    let tree = TodoApp::view(&app);
    assert_eq!(tree.summary, "Total: 12 | Completed: 1 | Remaining: 11");
}

#[test]
fn empty_state_is_a_distinct_branch() {
    let app = TodoApp::default();
    let tree = TodoApp::view(&app);
    match &tree.list {
        TaskListView::Empty { headline, guidance } => {
            assert_eq!(headline.as_str(), "No todos yet!");
            assert_eq!(guidance.as_str(), "Add your first task above to get started");
        }
        TaskListView::List { .. } => panic!("expected the empty-state branch"),
    }
    assert_eq!(tree.summary, "Ready to add your first task!");
    assert_eq!(tree.total, 0);
}

#[test]
fn emptied_list_returns_to_the_empty_branch() {
    let mut app = TodoApp::default();
    add_task(&mut app, "only");
    apply(&mut app, Message::DeleteTodo(1));
    let tree = TodoApp::view(&app);
    assert!(matches!(tree.list, TaskListView::Empty { .. }));
}

#[test]
fn theme_cycles_and_label_names_the_target() {
    let mut app = TodoApp::default();
    assert!(matches!(app.current_theme, AppTheme::Light));
    let tree = TodoApp::view(&app);
    assert_eq!(tree.theme_label, "Dark Mode");
    apply(&mut app, Message::ToggleTheme);
    assert!(matches!(app.current_theme, AppTheme::Dark));
    let tree = TodoApp::view(&app);
    assert_eq!(tree.theme_label, "Light Mode");
    apply(&mut app, Message::ToggleTheme);
    assert!(matches!(app.current_theme, AppTheme::Light));
}

#[test]
fn projection_is_pure_and_echoes_the_draft() {
    let mut app = TodoApp::default();
    add_task(&mut app, "a");
    apply(&mut app, Message::InputChanged("half-typed".to_string()));
    let first = TodoApp::view(&app);
    let second = TodoApp::view(&app);
    assert_eq!(first.title, "Todo List");
    assert_eq!(first.subtitle, "Organize your tasks efficiently");
    assert_eq!(first.input_placeholder, "What needs to be done?");
    assert_eq!(first.add_label, "Add");
    assert_eq!(first.clear_label, "Clear Completed");
    assert_eq!(first.input_value, "half-typed");
    assert_eq!(first.summary, second.summary);
    assert_eq!(first.total, second.total);
    assert_eq!(first.input_value, second.input_value);
    assert_eq!(app.input_value, "half-typed");
}

#[test]
fn invariant_check_accepts_reachable_states_only() {
    let mut app = TodoApp::default();
    assert!(app.invariant_holds());
    add_task(&mut app, "a");
    add_task(&mut app, "b");
    apply(&mut app, Message::ToggleTodo(1));
    apply(&mut app, Message::ClearCompleted);
    assert!(app.invariant_holds());
    app.next_id = 1;
    assert!(!app.invariant_holds());
}
