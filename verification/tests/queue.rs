use warehouse_nav::error::WarehouseError;
use warehouse_nav::position::Pos;
use warehouse_nav::queue::{Task, TaskQueue};

#[test]
fn a_new_queue_is_empty() {
    let queue = TaskQueue::new();
    assert!(queue.is_empty());
    assert_eq!(queue.len(), 0);
}

#[test]
fn tasks_leave_in_the_order_they_joined() {
    let a = Task::new(Pos::new(1, 2));
    let b = Task::new(Pos::new(5, 8));
    let mut queue = TaskQueue::new();
    queue.enqueue(a);
    assert!(!queue.is_empty());
    queue.enqueue(b);
    assert_eq!(queue.len(), 2);
    assert_eq!(queue.dequeue(), Ok(a));
    assert_eq!(queue.len(), 1);
    assert_eq!(queue.dequeue(), Ok(b));
    assert!(queue.is_empty());
}

#[test]
fn an_empty_queue_gives_no_task() {
    let mut queue = TaskQueue::new();
    assert_eq!(queue.dequeue(), Err(WarehouseError::EmptyQueue));
    assert!(queue.is_empty());
    queue.enqueue(Task::new(Pos::new(0, 0)));
    assert_eq!(queue.dequeue(), Ok(Task::new(Pos::new(0, 0))));
    assert_eq!(queue.dequeue(), Err(WarehouseError::EmptyQueue));
    assert_eq!(queue.len(), 0);
}

#[test]
fn joining_a_waiting_queue_keeps_the_front() {
    let mut queue = TaskQueue::new();
    for x in 0..5 {
        queue.enqueue(Task::new(Pos::new(x, 0)));
    }
    assert_eq!(queue.dequeue(), Ok(Task::new(Pos::new(0, 0))));
    queue.enqueue(Task::new(Pos::new(9, 9)));
    for x in 1..5 {
        assert_eq!(queue.dequeue(), Ok(Task::new(Pos::new(x, 0))));
    }
    assert_eq!(queue.dequeue(), Ok(Task::new(Pos::new(9, 9))));
    assert!(queue.is_empty());
}

#[test]
fn a_task_wraps_its_target() {
    let task = Task::new(Pos::new(3, 4));
    assert_eq!(task.target, Pos::new(3, 4));
}
