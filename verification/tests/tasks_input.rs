use space_engine::selection::SelectedEntities;
use space_engine::input::{InputSystem, MouseButton};
use std::sync::Arc;
use space_engine::task_server::{TaskServer, TaskState};

#[test]
fn tasks_register_progress_and_leave() {
    let mut server = TaskServer::new();
    assert_eq!(server.get_task_count(), 0);
    let a = server.register(&String::from("load"));
    let b = server.register(&String::from("bake"));
    assert_eq!(a.get_idx(), 0);
    assert_eq!(b.get_idx(), 1);
    assert_eq!(a.get_state(), TaskState::Created);
    assert_eq!(server.get_task_count(), 2);
    let mut list = server.clone_task_list();
    list.sort_by_key(|t| t.get_idx());
    a.set_state(TaskState::Running);
    assert_eq!(list.len(), 2);
    assert_eq!(list[0].get_name(), "load");
    assert_eq!(list[0].get_state(), TaskState::Running);
    assert_eq!(list[1].get_name(), "bake");
    assert_eq!(list[1].get_state(), TaskState::Created);
    let done = server.finish_task(0).unwrap();
    assert_eq!(done.get_state(), TaskState::Finished);
    assert_eq!(a.get_state(), TaskState::Finished);
    assert_eq!(list[0].get_state(), TaskState::Finished);
    assert!(Arc::ptr_eq(&done, &a));
    assert_eq!(server.get_task_count(), 1);
    assert!(server.finish_task(0).is_none());
    assert!(server.finish_task(7).is_none());
    assert_eq!(server.get_task_count(), 1);
    let c = server.register(&String::from("again"));
    assert_eq!(c.get_idx(), 2);
}

#[test]
fn keys_read_back_last_event() {
    let mut input = InputSystem::new();
    assert!(!input.get_key_state(17));
    input.process_event(Some(17), true);
    assert!(input.get_key_state(17));
    assert!(!input.get_key_state(18));
    input.process_event(None, false);
    assert!(input.get_key_state(17));
    input.process_event(Some(17), false);
    assert!(!input.get_key_state(17));
}

#[test]
fn buttons_read_back_last_event() {
    let mut input = InputSystem::new();
    input.process_mouse_event(&MouseButton::Other(0), true);
    assert!(input.get_mouse_button_state(&MouseButton::Other(0)));
    assert!(!input.get_mouse_button_state(&MouseButton::Left));
    assert!(!input.get_mouse_button_state(&MouseButton::Middle));
    input.process_mouse_event(&MouseButton::Left, true);
    input.process_mouse_event(&MouseButton::Other(0), false);
    assert!(input.get_mouse_button_state(&MouseButton::Left));
    assert!(!input.get_mouse_button_state(&MouseButton::Other(0)));
    assert_eq!(MouseButton::Other(4).code(), 7);
    assert_eq!(MouseButton::Right.code(), 1);
}

#[test]
fn selection_toggles() {
    let mut sel = SelectedEntities::new();
    assert!(!sel.is_selected(42));
    sel.toggle(42);
    assert!(sel.is_selected(42));
    sel.toggle(7);
    sel.toggle(42);
    assert!(!sel.is_selected(42));
    assert!(sel.is_selected(7));
    assert_eq!(sel.list.len(), 1);
}

#[test]
fn registrations_numbered_in_order() {
    let mut server = TaskServer::new();
    let mut got = Vec::new();
    for k in 0..5usize {
        let task = server.try_register(&format!("task {}", k)).unwrap();
        let id = task.get_idx();
        got.push(id);
        if k % 2 == 0 {
            server.finish_task(id);
        } else {
            task.set_state(TaskState::Running);
        }
    }
    assert_eq!(got, vec![0, 1, 2, 3, 4]);
    assert_eq!(server.get_task_count(), 2);
}
