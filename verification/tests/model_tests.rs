use texler::auth::PasswordUtils;
use texler::collaboration::JoinSessionRequest;
use texler::collaboration::MessageType;
use texler::collaboration::ParticipantRole;
use texler::collaboration::SessionType;
use texler::compilation::ArtifactType;
use texler::compilation::QueuePriority;
use texler::compilation::WorkerStatus;
use texler::config::DatabaseConfig;
use texler::config::ServerConfig;
use texler::errors::AppError;
use texler::files::detect_content_type;
use texler::files::file_extension;
use texler::models::ContentType;
use texler::models::PaginatedResponse;
use texler::models::PaginationParams;
use texler::models::SortOrder;
use texler::text::decimal_string;
use texler::text::parse_u64;
use texler::users::UserPreferencesUpdateRequest;
use texler::users::UserUpdateRequest;
use texler::workspaces::UpdateProject;
use texler::workspaces::normalize_name;
use texler::ratelimit::AuthRateLimits;
use texler::ratelimit::RateLimiterState;

#[test]
fn test_join_session_request() {
    let request = JoinSessionRequest {
        role: ParticipantRole::Editor,
        password: Some("password123".to_string()),
    };

    assert_eq!(request.role, ParticipantRole::Editor);
    assert_eq!(request.password, Some("password123".to_string()));
}

#[test]
fn test_content_type_detection() {
    assert_eq!(file_extension("document.tex"), Some("tex".to_string()));
    assert_eq!(file_extension("image.png"), Some("png".to_string()));
    assert_eq!(file_extension("references.bib"), Some("bib".to_string()));
}

#[test]
fn test_user_update_request() {
    let request = UserUpdateRequest {
        display_name: Some("New Display Name".to_string()),
        avatar_url: Some("https://example.com/avatar.png".to_string()),
    };

    assert!(request.display_name.is_some());
    assert!(request.avatar_url.is_some());
}

#[test]
fn test_preferences_update() {
    let request = UserPreferencesUpdateRequest {
        theme: Some("dark".to_string()),
        language: None,
        latex_engine: None,
        auto_save: Some(true),
        line_numbers: None,
        word_wrap: None,
        font_size: Some(16),
        tab_size: Some(4),
    };

    assert_eq!(request.theme, Some("dark".to_string()));
    assert_eq!(request.font_size, Some(16));
    assert_eq!(request.auto_save, Some(true));
    assert_eq!(request.tab_size, Some(4));
}

#[test]
fn test_password_validation() {
    assert!(PasswordUtils::validate_password_strength("").is_err());
    assert!(PasswordUtils::validate_password_strength("weak").is_err());
    assert!(PasswordUtils::validate_password_strength("weakpass").is_err());
    assert!(PasswordUtils::validate_password_strength("Weakpass").is_err());
    assert!(PasswordUtils::validate_password_strength("Weakpass1").is_err());
    assert!(PasswordUtils::validate_password_strength("Weakpass1!").is_ok());
}

#[test]
fn test_session_type_default() {
    assert_eq!(SessionType::default(), SessionType::Realtime);
}

#[test]
fn test_participant_role_default() {
    assert_eq!(ParticipantRole::default(), ParticipantRole::Viewer);
}

#[test]
fn test_message_type_default() {
    assert_eq!(MessageType::default(), MessageType::Text);
}

#[test]
fn test_queue_priority_default() {
    assert_eq!(QueuePriority::default(), QueuePriority::Normal);
}

#[test]
fn test_worker_status_default() {
    assert_eq!(WorkerStatus::default(), WorkerStatus::Idle);
}

#[test]
fn test_artifact_type_values() {
    assert_eq!(ArtifactType::Pdf.as_str(), "pdf");
    assert_eq!(ArtifactType::Log.as_str(), "log");
    assert_eq!(ArtifactType::Aux.as_str(), "aux");
}

#[test]
fn test_project_access_check() {
    let update = UpdateProject {
        name: None,
        description: None,
        is_public: Some(false),
        main_file_path: None,
        latex_engine: None,
        output_format: None,
        custom_args: None,
        bibliography_path: None,
        tags: None,
    };
    assert!(!update.is_public.unwrap());
}

#[test]
fn test_detect_content_type_values() {
    assert_eq!(detect_content_type("document.tex"), ContentType::Latex);
    assert_eq!(detect_content_type("references.bib"), ContentType::Bibliography);
    assert_eq!(detect_content_type("image.png"), ContentType::Image);
    assert_eq!(detect_content_type("notes.txt"), ContentType::Other);
    assert_eq!(detect_content_type("README"), ContentType::Other);
}

#[test]
fn test_password_error_messages() {
    match PasswordUtils::validate_password_strength("short") {
        Err(AppError::BadRequest(m)) => {
            assert_eq!(m, "Password must be at least 8 characters long")
        }
        _ => panic!("expected a bad-request error"),
    }
    match PasswordUtils::validate_password_strength("weakpassword") {
        Err(AppError::BadRequest(m)) => {
            assert_eq!(m, "Password must contain at least one uppercase letter")
        }
        _ => panic!("expected a bad-request error"),
    }
    match PasswordUtils::validate_password_strength("Weakpass1") {
        Err(AppError::BadRequest(m)) => {
            assert_eq!(m, "Password must contain at least one special character")
        }
        _ => panic!("expected a bad-request error"),
    }
}

#[test]
fn test_password_hash_round_trip() {
    let hash = PasswordUtils::hash_password("Sup3rS3cret!").unwrap();
    assert_eq!(hash.len(), 60);
    assert!(PasswordUtils::verify_password("Sup3rS3cret!", &hash).unwrap());
    assert!(!PasswordUtils::verify_password("wrong", &hash).unwrap());
}

#[test]
fn test_token_lengths() {
    assert_eq!(PasswordUtils::generate_reset_token().len(), 32);
    assert_eq!(PasswordUtils::generate_verification_token().len(), 64);
}

#[test]
fn test_decimal_and_parse_round_trip() {
    assert_eq!(decimal_string(0), "0");
    assert_eq!(decimal_string(1234), "1234");
    assert_eq!(parse_u64("1234"), Some(1234));
    assert_eq!(parse_u64(""), None);
    assert_eq!(parse_u64("12a"), None);
    assert_eq!(parse_u64("18446744073709551615"), Some(u64::MAX));
    assert_eq!(parse_u64("18446744073709551616"), None);
}

#[test]
fn test_bind_addresses() {
    let server = ServerConfig {
        host: "127.0.0.1".to_string(),
        port: 8080,
        workers: 4,
        max_connections: 100,
        request_timeout: 30,
        keep_alive: 75,
        tls: None,
    };
    assert_eq!(server.bind_address(), "127.0.0.1:8080");
    let db = DatabaseConfig {
        host: "localhost".to_string(),
        port: 5432,
        database: "texler".to_string(),
        username: "postgres".to_string(),
        password: "pw".to_string(),
        max_connections: 20,
        min_connections: 5,
        connect_timeout: 30,
        idle_timeout: 600,
    };
    assert_eq!(db.connection_string(), "postgresql://postgres:pw@localhost:5432/texler");
}

#[test]
fn test_pagination() {
    let params = PaginationParams {
        page: Some(2),
        limit: Some(10),
        offset: None,
        sort_by: None,
        sort_order: None,
    };
    assert_eq!(params.page(), 2);
    assert_eq!(params.limit(), 10);
    assert_eq!(params.offset(), 10);
    assert_eq!(params.sort_by(), "created_at");
    assert!(matches!(params.sort_order(), SortOrder::Desc));
    let response = PaginatedResponse::new(vec![1u32, 2, 3], &params, 25);
    assert_eq!(response.pagination.total_pages, 3);
    assert!(response.pagination.has_next);
    assert!(response.pagination.has_prev);
    let capped = PaginationParams {
        page: None,
        limit: Some(500),
        offset: None,
        sort_by: None,
        sort_order: None,
    };
    assert_eq!(capped.limit(), 100);
}

#[test]
fn test_normalize_name() {
    assert_eq!(normalize_name("  my project  ").unwrap(), "my project");
    match normalize_name("   ") {
        Err(AppError::Validation(m)) => assert_eq!(m, "Name cannot be empty"),
        _ => panic!("expected a validation error"),
    }
}

#[test]
fn test_rate_limiter_window() {
    let mut limiter = RateLimiterState::new();
    let config = AuthRateLimits::login();
    let now_ms: u64 = 10_000_000;
    for _ in 0..5 {
        assert!(limiter.is_allowed("client", &config, now_ms));
    }
    assert!(!limiter.is_allowed("client", &config, now_ms));
    // a different key has its own window
    assert!(limiter.is_allowed("other", &config, now_ms));
    // once the window has passed, requests flow again
    assert!(limiter.is_allowed("client", &config, now_ms + 901_000));
}
