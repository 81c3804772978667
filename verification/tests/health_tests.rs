use reposentry::health::{CheckResult, HealthCheck};

#[test]
fn test_check_result_ok() {
    let result = CheckResult::ok("Test passed");
    assert!(result.passed);
    assert!(!result.is_warning);
    assert!(result.details.is_none());
}

#[test]
fn test_check_result_ok_with_details() {
    let result = CheckResult::ok_with_details("Test passed", "Some details");
    assert!(result.passed);
    assert!(!result.is_warning);
    assert_eq!(result.details, Some("Some details".to_string()));
}

#[test]
fn test_check_result_warning() {
    let result = CheckResult::warning("Test warning");
    assert!(result.passed); // Warnings still "pass"
    assert!(result.is_warning);
}

#[test]
fn test_check_result_warning_with_details() {
    let result = CheckResult::warning_with_details("Test warning", "Warning details");
    assert!(result.passed);
    assert!(result.is_warning);
    assert_eq!(result.details, Some("Warning details".to_string()));
}

#[test]
fn test_check_result_error() {
    let result = CheckResult::error("Test failed");
    assert!(!result.passed);
    assert!(!result.is_warning);
}

#[test]
fn test_check_result_error_with_details() {
    let result = CheckResult::error_with_details("Test failed", "Error details");
    assert!(!result.passed);
    assert!(!result.is_warning);
    assert_eq!(result.details, Some("Error details".to_string()));
}

#[test]
fn test_all_passed_with_passing_checks() {
    let health = HealthCheck {
        git: CheckResult::ok("Git OK"),
        github_auth: CheckResult::ok("Auth OK"),
        base_dir: CheckResult::ok("Dir OK"),
        ssh: CheckResult::warning("SSH warning"), // Warnings don't fail
    };
    assert!(health.all_passed());
}

#[test]
fn test_all_passed_with_failing_git() {
    let health = HealthCheck {
        git: CheckResult::error("Git missing"),
        github_auth: CheckResult::ok("Auth OK"),
        base_dir: CheckResult::ok("Dir OK"),
        ssh: CheckResult::ok("SSH OK"),
    };
    assert!(!health.all_passed());
}

#[test]
fn test_all_passed_with_failing_auth() {
    let health = HealthCheck {
        git: CheckResult::ok("Git OK"),
        github_auth: CheckResult::error("Auth failed"),
        base_dir: CheckResult::ok("Dir OK"),
        ssh: CheckResult::ok("SSH OK"),
    };
    assert!(!health.all_passed());
}

#[test]
fn test_all_passed_with_failing_base_dir() {
    let health = HealthCheck {
        git: CheckResult::ok("Git OK"),
        github_auth: CheckResult::ok("Auth OK"),
        base_dir: CheckResult::error("Dir missing"),
        ssh: CheckResult::ok("SSH OK"),
    };
    assert!(!health.all_passed());
}

#[test]
fn test_all_passed_with_ssh_warning() {
    // SSH warnings should NOT cause all_passed to fail
    let health = HealthCheck {
        git: CheckResult::ok("Git OK"),
        github_auth: CheckResult::ok("Auth OK"),
        base_dir: CheckResult::ok("Dir OK"),
        ssh: CheckResult::warning("No SSH keys"),
    };
    assert!(health.all_passed());
}

#[test]
fn test_errors_returns_only_errors() {
    let health = HealthCheck {
        git: CheckResult::error("Git error"),
        github_auth: CheckResult::ok("Auth OK"),
        base_dir: CheckResult::error("Dir error"),
        ssh: CheckResult::warning("SSH warning"),
    };
    let errors = health.errors();
    assert_eq!(errors.len(), 2);
    assert!(!errors[0].passed);
    assert!(!errors[1].passed);
}

#[test]
fn test_errors_excludes_warnings() {
    let health = HealthCheck {
        git: CheckResult::ok("Git OK"),
        github_auth: CheckResult::ok("Auth OK"),
        base_dir: CheckResult::ok("Dir OK"),
        ssh: CheckResult::warning("SSH warning"),
    };
    let errors = health.errors();
    assert!(errors.is_empty());
}

#[test]
fn test_warnings_returns_only_warnings() {
    let health = HealthCheck {
        git: CheckResult::ok("Git OK"),
        github_auth: CheckResult::error("Auth error"),
        base_dir: CheckResult::ok("Dir OK"),
        ssh: CheckResult::warning("SSH warning"),
    };
    let warnings = health.warnings();
    assert_eq!(warnings.len(), 1);
    assert!(warnings[0].is_warning);
}

#[test]
fn test_all_checks_returns_all_four() {
    let health = HealthCheck {
        git: CheckResult::ok("Git OK"),
        github_auth: CheckResult::ok("Auth OK"),
        base_dir: CheckResult::ok("Dir OK"),
        ssh: CheckResult::ok("SSH OK"),
    };
    let checks = health.all_checks();
    assert_eq!(checks.len(), 4);
    assert_eq!(checks[0].0, "Git Installation");
    assert_eq!(checks[1].0, "GitHub Authentication");
    assert_eq!(checks[2].0, "Base Directory");
    assert_eq!(checks[3].0, "SSH Configuration");
}
