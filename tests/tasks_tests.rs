use chrono::Utc;
use task_manager::{Tasks, UpdateFields};

#[test]
fn tasks_test_get_tasks() {
    let mut tasks = Tasks::new();

    // Add some test tasks
    tasks.add_task("Task".to_string(), "Test".to_string(), Utc::now().to_string()).unwrap();

    let stored_tasks = tasks.get_tasks();

    // Assert number of tasks
    assert_eq!(stored_tasks.len(), 1);

    // Assert task fields
    assert_eq!(stored_tasks[0].id, 1);
    assert_eq!(stored_tasks[0].name, "Task");
}

#[test]
fn tasks_test_add_task() {
    let mut tasks = Tasks::new();

    // Add some test tasks
    let id = tasks.add_task("Task 1".to_string(), "Text for task1".to_string(), Utc::now().to_string()).unwrap();

    let stored_tasks = tasks.get_tasks();

    assert_eq!(stored_tasks.len(), 1);
    assert_eq!(stored_tasks[0].id, id);
}

#[test]
fn tasks_test_delete_task() {
    // Arrange
    let mut tasks = Tasks::new();
    tasks.add_task("Task 1".to_string(), "Text for task1".to_string(), Utc::now().to_string()).unwrap();
    tasks.add_task("Task 2".to_string(), "Text for task2".to_string(), Utc::now().to_string()).unwrap();

    // Act
    let deleted = tasks.delete_task(1);

    // Assert
    let stored_tasks = tasks.get_tasks();
    assert!(deleted);
    assert_eq!(stored_tasks.len(), 1);
    assert_eq!(tasks.get_tasks()[0].id, 2);
}

#[test]
fn tasks_test_delete_invalid() {
    // Arrange
    let mut tasks = Tasks::new();
    tasks.add_task("Task 1".to_string(), "Text for task1".to_string(), Utc::now().to_string()).unwrap();

    // Act
    let deleted = tasks.delete_task(2);

    // Assert
    let stored_tasks = tasks.get_tasks();
    assert!(!deleted);
    assert_eq!(stored_tasks.len(), 1);
}

#[test]
fn tasks_test_find_task_by_id() {
    // Arrange
    let mut tasks = Tasks::new();
    tasks.add_task("Task 1".to_string(), "Text for task1".to_string(), Utc::now().to_string()).unwrap();

    // Act
    let (_, found) = tasks.find_task_by_id(1).unwrap();

    // Assert
    assert_eq!(found.id, 1);
}

#[test]
fn tasks_test_find_invalid_id() {
    // Arrange
    let mut tasks = Tasks::new();
    tasks.add_task("Task 1".to_string(), "Text for task1".to_string(), Utc::now().to_string()).unwrap();

    // Act
    let found = tasks.find_task_by_id(2);

    // Assert
    assert_eq!(found, None);
}

#[test]
fn tasks_test_list_tasks_empty() {
    // Arrange
    let tasks = Tasks::new();
    let mut writer = Vec::new();

    // Act
    tasks.list_tasks(&mut writer, &None, &None);

    // Read output
    let output = String::from_utf8(writer).unwrap();

    // Assert - capture output and check empty
    assert_eq!(output, "");
}

#[test]
fn tasks_test_list_one_task() {
    // Arrange
    let mut tasks = Tasks::new();
    let due_date = Utc::now().to_string();
    let compare_due_date = due_date.clone();
    tasks.add_task("Task 1".to_string(), "Text for task1".to_string(), due_date).unwrap();

    let mut writer = Vec::new();

    // Act
    tasks.list_tasks(&mut writer, &None, &None);

    let output = String::from_utf8(writer).unwrap();

    let expected_output = format!("1 - Task 1 - Text for task1 - {}\n", compare_due_date);

    // Assert - output contains task
    assert_eq!(output, expected_output);
}

#[test]
fn tasks_test_list_multiple() {
    // Arrange
    let mut tasks = Tasks::new();
    tasks.add_task("Task 1".to_string(), "Text for task1".to_string(), Utc::now().to_string()).unwrap();
    tasks.add_task("Task 2".to_string(), "Text for task2".to_string(), Utc::now().to_string()).unwrap();

    // Capture output
    let mut writer = Vec::new();

    // Act
    tasks.list_tasks(&mut writer, &None, &None);

    let output = String::from_utf8(writer).unwrap();

    // Assert both tasks printed
    assert!(output.contains("1 - Task 1"));
    assert!(output.contains("2 - Task 2"));
}

#[test]
fn tasks_test_delete_task_removes_it() {
    // Setup
    let mut tasks = Tasks::new();
    tasks.add_task("Task 1".to_string(), "Text for task1".to_string(), Utc::now().to_string()).unwrap();
    let mut writer = Vec::new();

    // Act
    tasks.list_tasks(&mut writer, &None, &None);

    let output = String::from_utf8(writer).unwrap();

    // Assert task printed
    assert!(output.contains("1 - Task 1"));

    // Delete task and assert the len is 0
    tasks.delete_task(1);
    assert_eq!(tasks.get_tasks().len(), 0);

    // Setup output to check writer contains nothing
    let mut writer = Vec::new();
    tasks.list_tasks(&mut writer, &None, &None);
    let output = String::from_utf8(writer).unwrap();

    assert!(output.contains(""));
}

#[test]
fn tasks_test_update_task() {
    // Setup
    let mut tasks = Tasks::new();
    tasks.add_task("Task 1".to_string(), "Text for task1".to_string(), Utc::now().to_string()).unwrap();

    let (_, original_task) = tasks.find_task_by_id(1).unwrap();
    assert_eq!("Task 1", original_task.name);

    // Update task
    let updated_fields = UpdateFields {
        name: Some("updated name".to_string()),
        ..Default::default()
    };

    tasks.update_task(1, updated_fields).unwrap();

    // Validate after update
    let (_, updated_task) = tasks.find_task_by_id(1).unwrap();
    assert_eq!("updated name", updated_task.name);
}

#[test]
fn tasks_test_show_task() {
    // Setup
    let mut tasks = Tasks::new();
    let due_date = Utc::now().to_string();
    let compare_due_date = due_date.clone();
    tasks.add_task("Task 1".to_string(), "Text for task1".to_string(), due_date).unwrap();

    let expected = format!("{} - Task 1 - Text for task1 - {}\n", 1, compare_due_date);

    // Act
    let mut output = Vec::new();
    tasks.show_task(1, &mut output).unwrap();

    // Assert
    let result = String::from_utf8(output).unwrap();
    assert_eq!(result, expected);
}

#[test]
fn tasks_test_complete_task() {
    // Setup
    let mut tasks = Tasks::new();
    let due_date = Utc::now().to_string();
    tasks.add_task("Task 1".to_string(), "Text for task1".to_string(), due_date).unwrap();

    // Act
    tasks.complete_task(1).unwrap();

    // Assert
    let (_, task) = tasks.find_task_by_id(1).unwrap();
    assert_eq!(task.completed, true);
}

#[test]
fn tasks_test_update_args() {
    // Setup
    let mut tasks = Tasks::new();
    let due_date = Utc::now().to_string();
    tasks.add_task("Task 1".to_string(), "Text for task1".to_string(), due_date).unwrap();
    assert_eq!(tasks.get_tasks().len(), 1);
}
