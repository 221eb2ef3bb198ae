use task_manager::{Task, TaskError};

#[test]
fn test_create_task() {
    let task = Task::new(1, "My Task".to_string(), "Description".to_string(), "2023-03-01T12:00:00Z".to_string()).unwrap();

    assert_eq!(task.id, 1);
    assert_eq!(task.name, "My Task");
}

#[test]
fn create_task_with_bad_date() {
    let task = Task::new(1, "My Task".to_string(), "Description".to_string(), "invalid date".to_string());
    assert!(matches!(task, Err(TaskError::InvalidDueDateFormat)));
}

#[test]
fn task_line() {
    let mut task = Task::new(42, "My Task".to_string(), "Description".to_string(), "2023-03-01T12:00:00Z".to_string()).unwrap();
    assert!(!task.completed);
    assert_eq!(task.to_text(), "42 - My Task - Description - 2023-03-01 12:00:00 UTC");
    task.completed = true;
    assert_eq!(task.clone(), task);
}

#[test]
fn test_task_error_display() {
    let err = TaskError::NotFound;
    assert_eq!(err.to_text(), "Task not found");

    let err = TaskError::NoFile;
    assert_eq!(err.to_text(), "No file found");

    let err = TaskError::InvalidTaskId;
    assert_eq!(err.to_text(), "Invalid task ID");

    let err = TaskError::ParseUpdateError;
    assert_eq!(err.to_text(), "Erroring in parsing update");

    let err = TaskError::ParseBoolError;
    assert_eq!(err.to_text(), "Error parsing string to boolean");

    let err = TaskError::Io(std::io::Error::new(std::io::ErrorKind::Other, "io error").to_string());
    assert_eq!(err.to_text(), "IO error: io error");

    let bad_yaml = "%%not_valid_yaml";
    let yaml_err = serde_yaml::from_str::<serde_yaml::Value>(bad_yaml).unwrap_err();
    let message = yaml_err.to_string();
    assert!(message.contains("could not find expected directive name at line 1 column 2"));
    let err = TaskError::Yaml(message.clone());
    assert_eq!(err.to_text(), format!("YAML error: {}", message));

    let err = TaskError::InvalidInput("invalid input".to_string());
    assert_eq!(err.to_text(), "Invalid input: invalid input");

    assert_eq!(TaskError::InvalidDueDateFormat.to_text(), "Invalid due date format");
}
