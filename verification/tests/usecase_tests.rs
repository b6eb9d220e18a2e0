use todo_api::repository::InMemoryTaskRepository;
use todo_api::task::{CreateTask, UpdateTask};
use todo_api::usecase::{TaskError, TaskUsecaseImpl};

fn usecase() -> TaskUsecaseImpl {
    TaskUsecaseImpl::new(InMemoryTaskRepository::new())
}

#[test]
fn test_create_task_with_validation() {
    let mut usecase = usecase();

    let create_task = CreateTask { description: "Valid task".to_string() };
    let result = usecase.create_task(create_task);
    assert!(result.is_ok());
}

#[test]
fn test_delete_task_with_existence_check() {
    let mut usecase = usecase();

    let result = usecase.delete_task(999);
    assert!(matches!(result, Err(TaskError::NotFound(999))));
}

#[test]
fn test_complete_task() {
    let mut usecase = usecase();

    let created = usecase
        .create_task(CreateTask { description: "Task to complete".to_string() })
        .unwrap();
    let result = usecase.complete_task(created.id);
    assert!(result.is_ok());
}

#[test]
fn test_uncomplete_task() {
    let mut usecase = usecase();

    let created = usecase
        .create_task(CreateTask { description: "Task to uncomplete".to_string() })
        .unwrap();
    usecase.complete_task(created.id).unwrap();
    let result = usecase.uncomplete_task(created.id);
    assert!(result.is_ok());
    assert!(!result.unwrap().completed);
}

#[test]
fn test_update_task_with_validation() {
    let mut usecase = usecase();

    let created = usecase
        .create_task(CreateTask { description: "Original task".to_string() })
        .unwrap();
    let update_task =
        UpdateTask { description: Some("Updated task".to_string()), completed: None };
    let result = usecase.update_task(created.id, update_task);
    assert!(result.is_ok());
    assert_eq!(result.unwrap().description, "Updated task");
}

#[test]
fn test_get_completed_tasks() {
    let mut usecase = usecase();

    let task1 = usecase.create_task(CreateTask { description: "Task 1".to_string() }).unwrap();
    usecase.create_task(CreateTask { description: "Task 2".to_string() }).unwrap();
    usecase.complete_task(task1.id).unwrap();

    let completed_tasks = usecase.get_completed_tasks();
    assert_eq!(completed_tasks.len(), 1);
}

#[test]
fn test_get_pending_tasks() {
    let mut usecase = usecase();

    let task1 = usecase.create_task(CreateTask { description: "Task 1".to_string() }).unwrap();
    usecase.create_task(CreateTask { description: "Task 2".to_string() }).unwrap();
    usecase.complete_task(task1.id).unwrap();

    let pending_tasks = usecase.get_pending_tasks();
    assert_eq!(pending_tasks.len(), 1);
}

#[test]
fn test_search_tasks() {
    let mut usecase = usecase();

    usecase.create_task(CreateTask { description: "Buy groceries".to_string() }).unwrap();
    usecase.create_task(CreateTask { description: "Clean house".to_string() }).unwrap();
    usecase.create_task(CreateTask { description: "Buy books".to_string() }).unwrap();

    let search_results = usecase.search_tasks("buy");
    assert_eq!(search_results.len(), 2);
}

#[test]
fn test_get_tasks_by_status() {
    let mut usecase = usecase();

    let task1 = usecase.create_task(CreateTask { description: "Task 1".to_string() }).unwrap();
    usecase.create_task(CreateTask { description: "Task 2".to_string() }).unwrap();
    usecase.complete_task(task1.id).unwrap();

    let completed_tasks = usecase.get_tasks_by_status(true);
    assert_eq!(completed_tasks.len(), 1);

    let pending_tasks = usecase.get_tasks_by_status(false);
    assert_eq!(pending_tasks.len(), 1);
}
