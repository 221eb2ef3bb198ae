use chrono::Utc;
use task_manager::{run, CompletionFilter, DueFilter, TaskCommand, TaskError, Tasks};

// Tasks due 3 and 2 days ago, in 2 hours, and in 1 and 2 days.
fn create_tasks() -> Tasks {
    let mut tasks = Tasks::new();
    let dues = vec![
        ("Task 1", "Description: Overdue Task 1", Utc::now() - chrono::Duration::days(3)),
        ("Task 2", "Description: Overdue Task 2", Utc::now() - chrono::Duration::days(2)),
        ("Task 3", "Description", Utc::now() + chrono::Duration::hours(2)),
        ("Task 4", "Description", Utc::now() + chrono::Duration::days(1)),
        ("Task 5", "Description", Utc::now() + chrono::Duration::days(2)),
    ];
    for (name, description, due) in dues {
        tasks.add_task(name.to_string(), description.to_string(), due.to_string()).unwrap();
    }
    tasks
}

#[test]
fn test_add_command_parsing() {
    let mut tasks = Tasks::new();

    let cmd = TaskCommand::Add {
        name: "Task 1".to_string(),
        description: "Description 1".to_string(),
        due_date: "2023-03-01T12:00:00Z".to_string(),
    };

    run(&mut tasks, &cmd).unwrap();

    assert_eq!(tasks.get_tasks().len(), 1);
    assert_eq!(tasks.get_tasks()[0].name, "Task 1");
    assert_eq!(tasks.get_tasks()[0].description, "Description 1");
    assert_eq!(tasks.get_tasks()[0].due_date.to_text(), "2023-03-01 12:00:00 UTC");
}

#[test]
fn test_list_command() {
    let mut tasks = Tasks::new();
    tasks.add_task("Task 1".to_string(), "".to_string(), "2023-03-01T12:00:00Z".to_string()).unwrap();

    let cmd = TaskCommand::List { due: None, status: None };

    let mut writer = Vec::new();
    run(&mut tasks, &cmd).unwrap();
    tasks.list_tasks(&mut writer, &None, &None);

    let output = String::from_utf8(writer).unwrap();

    assert!(output.contains("Task 1"));
}

#[test]
fn test_delete_command() {
    let mut tasks = Tasks::new();
    tasks.add_task("Task 1".to_string(), "".to_string(), "2023-03-01T12:00:00Z".to_string()).unwrap();

    let cmd = TaskCommand::Delete { id: 1 };
    run(&mut tasks, &cmd).unwrap();

    assert_eq!(tasks.get_tasks().len(), 0);
}

#[test]
fn cli_test_update_command() {
    let mut tasks = Tasks::new();
    tasks.add_task("Task 1".to_string(), "".to_string(), "2023-03-01T12:00:00Z".to_string()).unwrap();

    let cmd = TaskCommand::Update {
        id: 1,
        fields: "name:New Name, description:Update desc, completed:true".to_string(),
    };

    run(&mut tasks, &cmd).unwrap();

    assert_eq!(tasks.get_tasks()[0].name, "New Name");
    assert!(tasks.get_tasks()[0].completed);
}

#[test]
fn test_list_command_with_due_filter() {
    let mut tasks = Tasks::new();
    tasks.add_task("Task 1".to_string(), "Text for task1".to_string(), Utc::now().to_string()).unwrap();
    tasks.add_task("Task 2".to_string(), "".to_string(), "2023-03-01T12:00:00Z".to_string()).unwrap();

    let cmd = TaskCommand::List {
        due: Some(DueFilter::DueToday),
        status: None,
    };

    let mut writer = Vec::new();
    run(&mut tasks, &cmd).unwrap();
    tasks.list_tasks(&mut writer, &Some(DueFilter::DueToday), &None);

    let output = String::from_utf8(writer).unwrap();
    println!("{:?}", output);
    assert!(output.contains("Task 1"));
    assert!(!output.contains("Task 2"));
}

#[test]
fn test_list_command_filters() {
    let mut tasks = create_tasks();

    tasks.complete_task(1).expect("There was an error updating the task's completion status.");

    let cmd = TaskCommand::List {
        due: Some(DueFilter::PastDue),
        status: Some(CompletionFilter::Complete),
    };

    let mut writer = Vec::new();
    run(&mut tasks, &cmd).unwrap();
    tasks.list_tasks(&mut writer, &Some(DueFilter::PastDue), &Some(CompletionFilter::Complete));

    let output = String::from_utf8(writer).unwrap();
    assert!(output.contains("Overdue Task 1"));
}

#[test]
fn run_list_returns_lines() {
    let mut tasks = Tasks::new();
    tasks.add_task("Task 1".to_string(), "d1".to_string(), "2023-03-01T12:00:00Z".to_string()).unwrap();
    tasks.add_task("Task 2".to_string(), "d2".to_string(), "2023-03-02T12:00:00.5Z".to_string()).unwrap();
    let out = run(&mut tasks, &TaskCommand::List { due: None, status: None }).unwrap();
    assert_eq!(
        String::from_utf8(out).unwrap(),
        "1 - Task 1 - d1 - 2023-03-01 12:00:00 UTC\n2 - Task 2 - d2 - 2023-03-02 12:00:00.500 UTC\n"
    );
}

#[test]
fn run_show_and_stats() {
    let mut tasks = Tasks::new();
    tasks.add_task("Task 1".to_string(), "d1".to_string(), "2023-03-01T12:00:00Z".to_string()).unwrap();
    let out = run(&mut tasks, &TaskCommand::Show { id: 1 }).unwrap();
    assert_eq!(String::from_utf8(out).unwrap(), "1 - Task 1 - d1 - 2023-03-01 12:00:00 UTC\n");
    assert!(matches!(run(&mut tasks, &TaskCommand::Show { id: 9 }), Err(TaskError::NotFound)));
    run(&mut tasks, &TaskCommand::Complete { id: 1 }).unwrap();
    let out = run(&mut tasks, &TaskCommand::Stats).unwrap();
    assert_eq!(String::from_utf8(out).unwrap(), "Total: 1\nCompleted: 1\nPercent completed: 100\n");
}

#[test]
fn run_reports_errors() {
    let mut tasks = Tasks::new();
    let cmd = TaskCommand::Add {
        name: "Task 1".to_string(),
        description: "Description 1".to_string(),
        due_date: "invalid date".to_string(),
    };
    assert!(matches!(run(&mut tasks, &cmd), Err(TaskError::InvalidDueDateFormat)));
    assert_eq!(tasks.get_tasks().len(), 0);

    let cmd = TaskCommand::Update { id: 999, fields: "invalid".to_string() };
    assert!(matches!(run(&mut tasks, &cmd), Err(TaskError::InvalidInput(_))));
    let cmd = TaskCommand::Update { id: 999, fields: "name:x".to_string() };
    assert!(matches!(run(&mut tasks, &cmd), Err(TaskError::NotFound)));
    assert!(matches!(run(&mut tasks, &TaskCommand::Complete { id: 3 }), Err(TaskError::NotFound)));
}
