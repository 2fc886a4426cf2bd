use corp::migrations::{migrations_dir, MigrationsDir};
use corp::migrations::{is_migration_file_name, migration_order, migration_statements};

#[test]
fn statements_split_at_semicolons() {
    let script = "-- users\nCREATE TABLE users (\n  id INTEGER PRIMARY KEY,\n  name TEXT\n);\n\nCREATE INDEX idx ON users(name);\n";
    let statements = migration_statements(script);
    assert_eq!(
        statements,
        vec![
            "CREATE TABLE users ( id INTEGER PRIMARY KEY, name TEXT );".to_string(),
            "CREATE INDEX idx ON users(name);".to_string(),
        ]
    );
}

#[test]
fn trailing_statement_without_semicolon_runs() {
    let statements = migration_statements("SELECT 1;\r\n  DELETE FROM tokens  \n");
    assert_eq!(statements, vec!["SELECT 1;".to_string(), "DELETE FROM tokens".to_string()]);
}

#[test]
fn comments_and_blank_lines_are_dropped() {
    assert!(migration_statements("-- only a comment\n\n   \n--another").is_empty());
    assert!(migration_statements("").is_empty());
}

#[test]
fn lone_semicolon_closes_statement() {
    let statements = migration_statements("INSERT INTO t VALUES (1)\n;\n");
    assert_eq!(statements, vec!["INSERT INTO t VALUES (1) ;".to_string()]);
}

#[test]
fn unicode_whitespace_is_trimmed() {
    let statements = migration_statements("\u{3000}SELECT 2;\u{a0}\n");
    assert_eq!(statements, vec!["SELECT 2;".to_string()]);
}

#[test]
fn only_sql_files_run() {
    assert!(is_migration_file_name("001_init.sql"));
    assert!(is_migration_file_name("..sql"));
    assert!(!is_migration_file_name(".sql"));
    assert!(!is_migration_file_name("sql"));
    assert!(!is_migration_file_name("notes.sql.bak"));
    assert!(!is_migration_file_name("README.md"));
}

#[test]
fn migrations_run_in_name_order() {
    let names = vec![
        "003_tokens.sql".to_string(),
        "README.md".to_string(),
        "001_users.sql".to_string(),
        "002_index.sql".to_string(),
        ".sql".to_string(),
    ];
    assert_eq!(migration_order(&names), vec![2, 3, 0]);
}

#[test]
fn empty_directory_runs_nothing() {
    assert!(migration_order(&Vec::new()).is_empty());
}

#[test]
fn migrations_directory_choice() {
    assert_eq!(migrations_dir(true, true), Some(MigrationsDir::Local));
    assert_eq!(migrations_dir(false, true), Some(MigrationsDir::Workspace));
    assert_eq!(migrations_dir(false, false), None);
}
