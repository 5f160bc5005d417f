use usercrud::config::{parse_u16, parse_u32, Config, ConfigEnv, ConfigError};
use usercrud::models::{
    DatabaseComment, DatabaseStatus, DatabaseTask, DatabaseTaskType, DatabaseUser,
    ResponseComment, ResponseStatus, ResponseTask, ResponseTaskType, ResponseUser,
};

fn base_env() -> ConfigEnv {
    ConfigEnv {
        server_host: None,
        server_port: None,
        log_level: None,
        log_file_path: None,
        db_url: Some("sqlite://app.db".to_string()),
        db_max_connections: None,
        db_min_connections: None,
    }
}

#[test]
fn config_applies_documented_defaults() {
    let c = Config::new(base_env()).unwrap();
    assert_eq!(c.server_host, "127.0.0.1");
    assert_eq!(c.server_port, 8080);
    assert_eq!(c.log_level, "error");
    assert_eq!(c.log_file_path, "app.log");
    assert_eq!(c.db_url, "sqlite://app.db");
    assert_eq!(c.db_max_connections, 4);
    assert_eq!(c.db_min_connections, 2);
}

#[test]
fn config_takes_explicit_values() {
    let mut env = base_env();
    env.server_host = Some("0.0.0.0".to_string());
    env.server_port = Some("3000".to_string());
    env.db_max_connections = Some("16".to_string());
    let c = Config::new(env).unwrap();
    assert_eq!(c.server_host, "0.0.0.0");
    assert_eq!(c.server_port, 3000);
    assert_eq!(c.db_max_connections, 16);
}

#[test]
fn config_requires_db_url() {
    let mut env = base_env();
    env.db_url = None;
    assert_eq!(Config::new(env), Err(ConfigError::MissingDbUrl));
}

#[test]
fn config_rejects_non_numeric_port() {
    let mut env = base_env();
    env.server_port = Some("eighty".to_string());
    assert_eq!(Config::new(env), Err(ConfigError::InvalidServerPort));
}

#[test]
fn config_rejects_out_of_range_port() {
    let mut env = base_env();
    env.server_port = Some("70000".to_string());
    assert_eq!(Config::new(env), Err(ConfigError::InvalidServerPort));
}

#[test]
fn config_rejects_bad_pool_sizes() {
    let mut env = base_env();
    env.db_max_connections = Some("-1".to_string());
    assert_eq!(Config::new(env), Err(ConfigError::InvalidDbMaxConnections));
    let mut env = base_env();
    env.db_min_connections = Some("".to_string());
    assert_eq!(Config::new(env), Err(ConfigError::InvalidDbMinConnections));
}

#[test]
fn parse_u16_handles_bounds() {
    assert_eq!(parse_u16("0"), Some(0));
    assert_eq!(parse_u16("65535"), Some(65535));
    assert_eq!(parse_u16("65536"), None);
    assert_eq!(parse_u16(""), None);
    assert_eq!(parse_u16("12a"), None);
}

#[test]
fn parse_u32_handles_bounds() {
    assert_eq!(parse_u32("4294967295"), Some(u32::MAX));
    assert_eq!(parse_u32("4294967296"), None);
    assert_eq!(parse_u32("007"), Some(7));
    assert_eq!(parse_u32("+7"), None);
}

#[test]
fn user_projection_drops_only_server_fields() {
    let stored = DatabaseUser {
        id: 7,
        name: "alice".to_string(),
        email: "alice@example.com".to_string(),
        created_at: 100,
        updated_at: 200,
        deleted_at: Some(300),
    };
    let r = ResponseUser::from(stored);
    assert_eq!(
        r,
        ResponseUser { id: 7, name: "alice".to_string(), email: "alice@example.com".to_string() }
    );
}

#[test]
fn status_projection_keeps_all_client_fields() {
    let s = DatabaseStatus { id: 1, name: "open".to_string(), description: "d".to_string() };
    let r = ResponseStatus::from(s);
    assert_eq!(r.id, 1);
    assert_eq!(r.name, "open");
    assert_eq!(r.description, "d");
}

#[test]
fn task_type_projection_keeps_all_client_fields() {
    let t = DatabaseTaskType { id: 2, name: "bug".to_string(), description: "d".to_string() };
    let r = ResponseTaskType::from(t);
    assert_eq!(r.id, 2);
    assert_eq!(r.name, "bug");
}

#[test]
fn task_projection_drops_timestamps() {
    let t = DatabaseTask {
        id: 3,
        user_id: 7,
        status_id: 1,
        parent_id: None,
        task_type_id: 2,
        title: "t".to_string(),
        description: "d".to_string(),
        created_at: 1,
        updated_at: 2,
        deleted_at: None,
    };
    let r = ResponseTask::from(t);
    assert_eq!(r.id, 3);
    assert_eq!(r.user_id, 7);
    assert_eq!(r.parent_id, None);
    assert_eq!(r.title, "t");
}

#[test]
fn comment_projection_drops_timestamps() {
    let c = DatabaseComment {
        id: 4,
        task_id: 3,
        user_id: 7,
        parent_id: Some(1),
        comment: "hi".to_string(),
        created_at: 1,
        updated_at: 2,
        delete_at: None,
    };
    let r = ResponseComment::from(c);
    assert_eq!(r.id, 4);
    assert_eq!(r.parent_id, Some(1));
    assert_eq!(r.comment, "hi");
}
