//! Errors as clients see them, and the settings that are checked at startup.

use orders_and_settlements::config::{
    health, load_config, required_env, Config, HealthBody, StartupError, SERVICE_NAME,
};
use orders_and_settlements::error::{
    overpayment_message, report, validation_summary, AppError, DatabaseFailure, ErrorBody,
    FieldError, ServerFnErrorErr,
};

fn validation(fields: &[(&str, &str)]) -> AppError {
    AppError::ValidationFailed(
        fields
            .iter()
            .map(|(field, message)| FieldError::new(field, message))
            .collect(),
    )
}

#[test]
fn every_error_has_its_own_code_status_and_sentence() {
    let expected = [
        (
            AppError::Internal,
            "INTERNAL",
            500,
            "The request could not be completed.",
        ),
        (
            AppError::DependencyUnavailable("PostgreSQL".to_string()),
            "DEPENDENCY_UNAVAILABLE",
            503,
            "PostgreSQL is temporarily unavailable.",
        ),
        (
            AppError::Unauthenticated,
            "UNAUTHENTICATED",
            401,
            "You need to sign in to do that.",
        ),
        (
            AppError::ForbiddenOrigin,
            "FORBIDDEN_ORIGIN",
            403,
            "This request did not come from a trusted origin.",
        ),
        (
            AppError::AuthRejected("Password too short".to_string()),
            "AUTH_REJECTED",
            400,
            "Password too short",
        ),
        (
            validation(&[("customer", "Enter a name.")]),
            "VALIDATION_FAILED",
            400,
            "Enter a name.",
        ),
        (
            AppError::AmountOutOfRange,
            "AMOUNT_OUT_OF_RANGE",
            400,
            "That amount is too large. Keep the order total below $92,233,720,368,547,758.",
        ),
        (
            AppError::NotFound,
            "NOT_FOUND",
            404,
            "That order does not exist, or it is not yours.",
        ),
        (
            AppError::OrderHasPayments,
            "ORDER_HAS_PAYMENTS",
            409,
            "This order has payments recorded against it and can no longer be changed.",
        ),
        (
            AppError::PaymentExceedsAmountDue {
                maximum_cents: 123_456,
            },
            "PAYMENT_EXCEEDS_AMOUNT_DUE",
            409,
            "That is more than is still owed. The most you can pay is $1,234.56.",
        ),
        (
            AppError::Transport("network error".to_string()),
            "TRANSPORT",
            500,
            "network error",
        ),
    ];

    for (i, (error, code, status, message)) in expected.iter().enumerate() {
        assert_eq!(error.code(), *code);
        assert_eq!(error.status_code(), *status);
        assert_eq!(error.to_string(), *message);
        assert_eq!(&error.clone(), error);
        for (other, _, _, _) in &expected[i + 1..] {
            assert_ne!(error.code(), other.code());
        }

        let body = ErrorBody::from(error);
        assert_eq!(body.error, *code);
        assert_eq!(body.message, *message);
        assert_eq!(body.fields.as_slice(), error.field_errors());
    }
}

#[test]
fn several_problems_are_summed_up_in_one_sentence() {
    let error = validation(&[
        ("customer", "Enter a name."),
        ("due_date", "Enter a date."),
        ("items[0].quantity", "Enter a quantity."),
    ]);
    assert_eq!(
        error.to_string(),
        "3 fields need attention: customer, due_date, items[0].quantity"
    );
    assert_eq!(error.message_for("due_date"), Some("Enter a date."));
    assert_eq!(error.message_for("items"), None);
    assert_eq!(AppError::Internal.message_for("due_date"), None);
    assert_eq!(
        validation_summary(&[]),
        "The submitted values were not accepted."
    );
}

#[test]
fn the_first_message_about_a_field_is_the_one_shown() {
    let error = validation(&[("a", "first"), ("b", "other"), ("a", "second")]);
    assert_eq!(error.message_for("a"), Some("first"));
}

#[test]
fn a_settled_order_is_not_told_that_zero_can_be_paid() {
    assert_eq!(
        overpayment_message(0),
        "This order is already paid in full."
    );
    assert_eq!(
        overpayment_message(-5),
        "This order is already paid in full."
    );
    assert_eq!(
        overpayment_message(1),
        "That is more than is still owed. The most you can pay is $0.01."
    );
}

#[test]
fn only_a_failure_changes_the_status_of_a_response() {
    assert_eq!(report(&Ok(7)), None);
    assert_eq!(report::<()>(&Err(AppError::NotFound)), Some(404));
}

#[test]
fn only_failures_in_the_browser_are_described() {
    let detail = || "detail".to_string();
    for described in [
        ServerFnErrorErr::Request(detail()),
        ServerFnErrorErr::UnsupportedRequestMethod(detail()),
        ServerFnErrorErr::Serialization(detail()),
        ServerFnErrorErr::Deserialization(detail()),
    ] {
        assert_eq!(
            AppError::from_server_fn_error(described),
            AppError::Transport(detail())
        );
    }
    for hidden in [
        ServerFnErrorErr::Registration(detail()),
        ServerFnErrorErr::ServerError(detail()),
        ServerFnErrorErr::MiddlewareError(detail()),
        ServerFnErrorErr::Args(detail()),
        ServerFnErrorErr::MissingArg(detail()),
        ServerFnErrorErr::Response(detail()),
    ] {
        assert_eq!(AppError::from_server_fn_error(hidden), AppError::Internal);
    }
}

#[test]
fn a_database_failure_says_at_most_that_there_is_no_connection() {
    assert_eq!(
        AppError::from_database(DatabaseFailure::Unreachable),
        AppError::DependencyUnavailable("PostgreSQL".to_string())
    );
    assert_eq!(
        AppError::from_database(DatabaseFailure::Rejected),
        AppError::Internal
    );
}

// ---------------------------------------------------------------------------
// Settings
// ---------------------------------------------------------------------------

const DATABASE: Option<&str> = Some("postgres://localhost/orders");
const AUTH: Option<&str> = Some("https://auth.example.com/");
const OUTPUT: Option<&str> = Some("orders");

#[test]
fn complete_settings_are_loaded() {
    assert_eq!(
        load_config(DATABASE, AUTH, OUTPUT),
        Ok(Config {
            database_url: "postgres://localhost/orders".to_string(),
            auth_base_url: "https://auth.example.com".to_string(),
        })
    );
    assert!(load_config(Some("postgresql://localhost/orders"), AUTH, OUTPUT).is_ok());
    assert!(load_config(DATABASE, Some("http://localhost:3000"), OUTPUT).is_ok());
}

#[test]
fn a_missing_setting_is_named() {
    for missing in [None, Some(""), Some(" \t")] {
        assert_eq!(
            load_config(missing, AUTH, OUTPUT),
            Err(StartupError::MissingEnv("DATABASE_URL"))
        );
        assert_eq!(
            load_config(DATABASE, missing, OUTPUT),
            Err(StartupError::MissingEnv("BETTER_AUTH_URL"))
        );
        assert_eq!(
            load_config(DATABASE, AUTH, missing),
            Err(StartupError::MissingEnv("LEPTOS_OUTPUT_NAME"))
        );
        assert_eq!(
            required_env("KEY", missing),
            Err(StartupError::MissingEnv("KEY"))
        );
    }
    assert_eq!(required_env("KEY", Some(" x ")), Ok(" x ".to_string()));
    // The first problem is the one reported.
    assert_eq!(
        load_config(None, None, None),
        Err(StartupError::MissingEnv("DATABASE_URL"))
    );
}

#[test]
fn a_setting_of_the_wrong_kind_is_explained() {
    let error = load_config(Some("mysql://localhost/orders"), AUTH, OUTPUT).unwrap_err();
    assert_eq!(
        error.to_string(),
        "invalid environment variable DATABASE_URL: must use the postgres:// or postgresql:// scheme"
    );
    let error = load_config(DATABASE, Some("auth.example.com"), OUTPUT).unwrap_err();
    assert_eq!(
        error.to_string(),
        "invalid environment variable BETTER_AUTH_URL: must be an absolute http:// or https:// URL"
    );
    // White space in front is part of the value.
    assert!(load_config(Some(" postgres://localhost"), AUTH, OUTPUT).is_err());
}

#[test]
fn every_failed_start_says_why() {
    let cause = || "cause".to_string();
    let expected = [
        (
            StartupError::MissingEnv("KEY"),
            "missing required environment variable KEY",
        ),
        (
            StartupError::Database(cause()),
            "could not connect to PostgreSQL: cause",
        ),
        (
            StartupError::Migration(cause()),
            "could not apply database migrations: cause",
        ),
        (
            StartupError::LeptosConfig(cause()),
            "could not load Leptos configuration: cause",
        ),
        (
            StartupError::Bind(cause()),
            "could not bind the listen address: cause",
        ),
    ];
    for (error, message) in expected {
        assert_eq!(error.to_string(), message);
    }
}

#[test]
fn the_service_is_healthy_while_the_database_answers() {
    assert_eq!(
        health(true),
        Ok(HealthBody {
            status: "ok",
            service: "orders-and-settlements",
            database: "up",
        })
    );
    assert_eq!(SERVICE_NAME, "orders-and-settlements");
    let error = health(false).unwrap_err();
    assert_eq!(error.status_code(), 503);
    assert_eq!(error.to_string(), "PostgreSQL is temporarily unavailable.");
}
