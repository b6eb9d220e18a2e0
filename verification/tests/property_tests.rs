use todo_api::repository::InMemoryTaskRepository;
use todo_api::task::{CreateTask, TaskValidationError, UpdateTask};
use todo_api::usecase::{TaskError, TaskUsecaseImpl};

fn usecase() -> TaskUsecaseImpl {
    TaskUsecaseImpl::new(InMemoryTaskRepository::new())
}

#[test]
fn test_created_task_is_pending_with_equal_timestamps() {
    let mut usecase = usecase();

    let created = usecase
        .create_task(CreateTask { description: "Write a letter".to_string() })
        .unwrap();
    assert!(!created.completed);
    assert_eq!(created.created_at, created.updated_at);
}

#[test]
fn test_create_then_get_round_trip() {
    let mut usecase = usecase();

    let created = usecase
        .create_task(CreateTask { description: "Water the plants".to_string() })
        .unwrap();
    let fetched = usecase.get_task_by_id(created.id).unwrap();
    assert_eq!(fetched.id, created.id);
    assert_eq!(fetched.description, created.description);
    assert_eq!(fetched.completed, created.completed);
    assert_eq!(fetched, created);
}

#[test]
fn test_blank_descriptions_are_rejected_and_state_unchanged() {
    let mut usecase = usecase();

    let result = usecase.create_task(CreateTask { description: "\t \n ".to_string() });
    assert!(matches!(
        result,
        Err(TaskError::Validation(TaskValidationError::EmptyDescription))
    ));
    assert_eq!(usecase.get_all_tasks().len(), 0);

    let created = usecase
        .create_task(CreateTask { description: "Keep me".to_string() })
        .unwrap();
    let update = UpdateTask { description: Some("   ".to_string()), completed: Some(true) };
    let result = usecase.update_task(created.id, update);
    assert!(matches!(
        result,
        Err(TaskError::Validation(TaskValidationError::EmptyDescription))
    ));

    let stored = usecase.get_task_by_id(created.id).unwrap();
    assert_eq!(stored.description, "Keep me");
    assert!(!stored.completed);
}

#[test]
fn test_description_length_boundary() {
    let mut usecase = usecase();

    let at_limit = "a".repeat(1000);
    let created = usecase.create_task(CreateTask { description: at_limit.clone() }).unwrap();
    assert_eq!(created.description, at_limit);

    let over_limit = "b".repeat(1001);
    let result = usecase.create_task(CreateTask { description: over_limit.clone() });
    assert!(matches!(
        result,
        Err(TaskError::Validation(TaskValidationError::DescriptionTooLong(1000)))
    ));

    let update = UpdateTask { description: Some(over_limit), completed: None };
    let result = usecase.update_task(created.id, update);
    assert!(matches!(
        result,
        Err(TaskError::Validation(TaskValidationError::DescriptionTooLong(1000)))
    ));
    assert_eq!(usecase.get_task_by_id(created.id).unwrap().description, at_limit);
}

#[test]
fn test_complete_task_is_idempotent() {
    let mut usecase = usecase();

    let created = usecase
        .create_task(CreateTask { description: "Do it once".to_string() })
        .unwrap();
    let first = usecase.complete_task(created.id).unwrap();
    assert!(first.completed);

    let second = usecase.complete_task(created.id).unwrap();
    assert!(second.completed);
    assert_eq!(second.description, first.description);
    assert!(second.updated_at > first.updated_at);
}

#[test]
fn test_empty_update_is_rejected_and_task_unchanged() {
    let mut usecase = usecase();

    let created = usecase
        .create_task(CreateTask { description: "Stay as you are".to_string() })
        .unwrap();
    let update = UpdateTask { description: None, completed: None };
    let result = usecase.update_task(created.id, update);
    assert!(matches!(result, Err(TaskError::InvalidOperation(_))));

    let stored = usecase.get_task_by_id(created.id).unwrap();
    assert_eq!(stored.description, "Stay as you are");
    assert!(!stored.completed);
    assert_eq!(stored.updated_at, created.updated_at);
}

#[test]
fn test_delete_then_get_both_not_found() {
    let mut usecase = usecase();

    let result = usecase.delete_task(999);
    assert!(matches!(result, Err(TaskError::NotFound(999))));

    let result = usecase.get_task_by_id(999);
    assert!(matches!(result, Err(TaskError::NotFound(999))));
}

#[test]
fn test_id_allocation_never_reuses_ids() {
    let mut usecase = usecase();

    let first = usecase.create_task(CreateTask { description: "First".to_string() }).unwrap();
    let second = usecase.create_task(CreateTask { description: "Second".to_string() }).unwrap();
    assert!(second.id > first.id);

    usecase.delete_task(first.id).unwrap();

    let third = usecase.create_task(CreateTask { description: "Third".to_string() }).unwrap();
    assert!(third.id > second.id);
    assert_ne!(third.id, first.id);
}

#[test]
fn test_search_is_case_insensitive_both_ways() {
    let mut usecase = usecase();

    usecase.create_task(CreateTask { description: "BUY MILK".to_string() }).unwrap();
    usecase.create_task(CreateTask { description: "buy stamps".to_string() }).unwrap();
    usecase.create_task(CreateTask { description: "Sell a bike".to_string() }).unwrap();

    // Matches only if both the query and the descriptions are case folded.
    let results = usecase.search_tasks("Buy");
    assert_eq!(results.len(), 2);

    let results = usecase.search_tasks("SELL");
    assert_eq!(results.len(), 1);
    assert_eq!(results[0].description, "Sell a bike");
}

#[test]
fn test_search_empty_query_matches_everything() {
    let mut usecase = usecase();

    usecase.create_task(CreateTask { description: "One".to_string() }).unwrap();
    usecase.create_task(CreateTask { description: "Two".to_string() }).unwrap();

    let results = usecase.search_tasks("");
    assert_eq!(results.len(), 2);
}

#[test]
fn test_search_no_match_returns_nothing() {
    let mut usecase = usecase();

    usecase.create_task(CreateTask { description: "Feed the cat".to_string() }).unwrap();

    let results = usecase.search_tasks("dog");
    assert_eq!(results.len(), 0);
}

#[test]
fn test_uncomplete_is_idempotent() {
    let mut usecase = usecase();

    let created = usecase
        .create_task(CreateTask { description: "Back and forth".to_string() })
        .unwrap();
    usecase.complete_task(created.id).unwrap();
    let first = usecase.uncomplete_task(created.id).unwrap();
    assert!(!first.completed);
    let second = usecase.uncomplete_task(created.id).unwrap();
    assert!(!second.completed);
}
