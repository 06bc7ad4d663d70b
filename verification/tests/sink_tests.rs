use uuid_guard::config::{Config, Language, LineEnding, Newline};
use uuid_guard::config::{newline_for_separator, newline_str, resolve_line_ending};
use uuid_guard::sink::{plan_emit, success_message, EmitPlan, SinkError};

#[test]
fn plan_prints_to_stdout_without_path() {
    assert_eq!(plan_emit(&None, false, false), EmitPlan::ToStdout);
    assert_eq!(plan_emit(&None, true, true), EmitPlan::ToStdout);
}

#[test]
fn plan_refuses_existing_target_without_overwrite() {
    let path = Some("guard.h".to_string());
    assert_eq!(plan_emit(&path, false, true), EmitPlan::RefuseExisting);
}

#[test]
fn plan_writes_fresh_or_overwritable_target() {
    let path = Some("guard.h".to_string());
    assert_eq!(plan_emit(&path, false, false), EmitPlan::ToFile);
    assert_eq!(plan_emit(&path, true, false), EmitPlan::ToFile);
    assert_eq!(plan_emit(&path, true, true), EmitPlan::ToFile);
}

#[test]
fn already_exists_message_names_the_path() {
    let m = SinkError::AlreadyExists.message("guard.h");
    assert_eq!(
        m,
        "Error: File 'guard.h' already exists. Use --overwrite to overwrite."
    );
}

#[test]
fn permission_denied_message_names_the_path() {
    let m = SinkError::PermissionDenied.message("guard.h");
    assert_eq!(m, "Error: Permission denied when accessing 'guard.h'.");
}

#[test]
fn create_and_write_messages_carry_the_detail() {
    let m = SinkError::CreateFailed("disk full".to_string()).message("guard.h");
    assert_eq!(m, "Error creating file 'guard.h': disk full");
    let m = SinkError::WriteFailed("disk full".to_string()).message("guard.h");
    assert_eq!(m, "Error writing to file 'guard.h': disk full");
}

#[test]
fn success_message_names_the_path() {
    assert_eq!(success_message("guard.h"), "Guard written to 'guard.h'.");
}

#[test]
fn explicit_line_endings_resolve_to_themselves() {
    assert_eq!(resolve_line_ending(LineEnding::Lf), Newline::Lf);
    assert_eq!(resolve_line_ending(LineEnding::Crlf), Newline::Crlf);
    assert_eq!(newline_str(Newline::Lf), "\n");
    assert_eq!(newline_str(Newline::Crlf), "\r\n");
}

#[test]
fn auto_resolves_to_some_newline() {
    let n = resolve_line_ending(LineEnding::Auto);
    assert!(n == Newline::Lf || n == Newline::Crlf);
}

#[test]
fn backslash_separator_means_crlf_any_other_lf() {
    assert_eq!(newline_for_separator('\\'), Newline::Crlf);
    assert_eq!(newline_for_separator('/'), Newline::Lf);
    assert_eq!(newline_for_separator(':'), Newline::Lf);
}

#[test]
fn default_config_matches_the_documented_defaults() {
    let c = Config::default();
    assert!(c.output_path.is_none());
    assert!(!c.overwrite);
    assert_eq!(c.prefix, "UUID");
    assert!(c.suffix.is_none());
    assert!(matches!(c.language_mode, Language::Plain));
    assert!(matches!(c.line_ending_mode, LineEnding::Auto));
}
