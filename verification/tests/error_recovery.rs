use badge_access_simulator::simulation::error::{
    ErrorHandler, RecoveryContext, RecoveryStep, RecoveryStrategy, SimulationError, SimulationResult,
};
use std::io;

#[test]
fn test_error_creation() {
    let config_error = SimulationError::configuration_error("Invalid config");
    assert!(matches!(config_error, SimulationError::ConfigurationError(_)));
    assert_eq!(config_error.to_display_string(), "Configuration validation failed: Invalid config");

    let user_error =
        SimulationError::user_generation_error("Failed to create user");
    assert!(matches!(user_error, SimulationError::UserGenerationError(_)));
    assert_eq!(
        user_error.to_display_string(),
        "User generation failed: Failed to create user"
    );
}

#[test]
fn test_error_from_string() {
    let error: SimulationError = "Test error".to_string().into();
    assert!(matches!(error, SimulationError::EventGenerationError(_)));
    assert_eq!(error.to_display_string(), "Event generation failed: Test error");
}

#[test]
fn test_error_from_io_error() {
    let io_error = io::Error::new(io::ErrorKind::NotFound, "File not found");
    let sim_error: SimulationError = io_error.into();
    assert!(matches!(sim_error, SimulationError::IoError(_)));
}

#[test]
fn test_error_recoverability() {
    let config_error = SimulationError::configuration_error("Invalid config");
    assert!(!config_error.is_recoverable());

    let event_error = SimulationError::event_generation_error("Event failed");
    assert!(event_error.is_recoverable());

    let location_error = SimulationError::location_setup_error("Location failed");
    assert!(!location_error.is_recoverable());
}

#[test]
fn test_error_categories() {
    let config_error = SimulationError::configuration_error("Invalid config");
    assert_eq!(config_error.category(), "Configuration");

    let user_error = SimulationError::user_generation_error("User failed");
    assert_eq!(user_error.category(), "User Generation");

    let time_error = SimulationError::time_error("Time failed");
    assert_eq!(time_error.category(), "Time Management");

    let permission_error = SimulationError::permission_error("Permission denied");
    assert_eq!(permission_error.category(), "Permission");

    let facility_error = SimulationError::facility_error("Facility error");
    assert_eq!(facility_error.category(), "Facility");

    let behavior_error = SimulationError::behavior_engine_error("Behavior error");
    assert_eq!(behavior_error.category(), "Behavior Engine");

    let stats_error = SimulationError::statistics_error("Stats error");
    assert_eq!(stats_error.category(), "Statistics");
}

#[test]
fn test_simulation_result_type() {
    let success: SimulationResult<i32> = Ok(42);
    assert!(success.is_ok());
    if let Ok(value) = success {
        assert_eq!(value, 42);
    }

    let failure: SimulationResult<i32> = Err(SimulationError::configuration_error("Test"));
    assert!(failure.is_err());
}

#[test]
fn test_recovery_context_creation() {
    let retry_context = RecoveryContext::retry(5);
    assert_eq!(retry_context.strategy, RecoveryStrategy::Retry);
    assert_eq!(retry_context.max_retries, 5);
    assert_eq!(retry_context.retry_count, 0);

    let fallback_context = RecoveryContext::retry_with_fallback(3);
    assert_eq!(fallback_context.strategy, RecoveryStrategy::RetryWithFallback);
    assert_eq!(fallback_context.max_retries, 3);

    let skip_context = RecoveryContext::skip();
    assert_eq!(skip_context.strategy, RecoveryStrategy::Skip);

    let defaults_context = RecoveryContext::use_defaults();
    assert_eq!(defaults_context.strategy, RecoveryStrategy::UseDefaults);

    let abort_context = RecoveryContext::abort();
    assert_eq!(abort_context.strategy, RecoveryStrategy::Abort);
    assert_eq!(abort_context.max_retries, 0);
}

#[test]
fn test_recovery_context_retry_logic() {
    let mut context = RecoveryContext::retry(3);
    assert!(context.can_retry());
    assert_eq!(context.retry_count, 0);

    context.increment_retry();
    assert!(context.can_retry());
    assert_eq!(context.retry_count, 1);

    context.increment_retry();
    context.increment_retry();
    assert!(!context.can_retry());
    assert_eq!(context.retry_count, 3);
}

#[test]
fn test_recovery_context_with_context() {
    let context = RecoveryContext::retry(3).with_context("Test operation");
    assert_eq!(context.context, "Test operation");
}

#[test]
fn test_error_handler_strategy_selection() {
    let handler = ErrorHandler::new();

    // Non-recoverable error should always abort
    let config_error = SimulationError::configuration_error("Invalid config");
    let context = RecoveryContext::retry(3);
    let strategy = handler.handle_error(&config_error, &context);
    assert_eq!(strategy, RecoveryStrategy::Abort);

    // Recoverable error with retries available should retry
    let event_error = SimulationError::event_generation_error("Event failed");
    let context = RecoveryContext::retry(3);
    let strategy = handler.handle_error(&event_error, &context);
    assert_eq!(strategy, RecoveryStrategy::Retry);

    // Recoverable error with no retries left should skip
    let mut context = RecoveryContext::retry(2);
    context.retry_count = 2; // Max retries reached
    let strategy = handler.handle_error(&event_error, &context);
    assert_eq!(strategy, RecoveryStrategy::Skip);
}

#[test]
fn test_error_handler_execute_with_recovery_success() {
    let handler = ErrorHandler::new();
    let context = RecoveryContext::retry(3);

    let result = handler.execute_with_recovery(|| Ok(42), context);

    assert!(result.is_ok());
    assert_eq!(result.unwrap(), Some(42));
}

#[test]
fn test_error_handler_execute_with_recovery_retry_then_success() {
    let handler = ErrorHandler::new();
    let context = RecoveryContext::retry(3);

    let mut attempt_count = 0;
    let result = handler.execute_with_recovery(
        || {
            attempt_count += 1;
            if attempt_count < 3 {
                Err(SimulationError::event_generation_error("Temporary failure"))
            } else {
                Ok(42)
            }
        },
        context,
    );

    assert!(result.is_ok());
    assert_eq!(result.unwrap(), Some(42));
    assert_eq!(attempt_count, 3);
}

#[test]
fn test_error_handler_execute_with_recovery_max_retries_exceeded() {
    let handler = ErrorHandler::new();
    let context = RecoveryContext::retry(2);

    let mut attempt_count = 0;
    let result: SimulationResult<Option<i32>> = handler.execute_with_recovery(
        || {
            attempt_count += 1;
            Err(SimulationError::event_generation_error("Persistent failure"))
        },
        context,
    );

    assert!(result.is_ok());
    assert_eq!(result.unwrap(), None); // Should skip after max retries
    assert_eq!(attempt_count, 3); // Initial attempt + 2 retries
}

#[test]
fn test_error_handler_execute_with_recovery_non_recoverable() {
    let handler = ErrorHandler::new();
    let context = RecoveryContext::retry(3);

    let result: SimulationResult<Option<i32>> = handler.execute_with_recovery(
        || Err(SimulationError::configuration_error("Fatal error")),
        context,
    );

    assert!(result.is_err());
    assert!(matches!(result.unwrap_err(), SimulationError::ConfigurationError(_)));
}

#[test]
fn recovery_steps_follow_the_decision() {
    let handler = ErrorHandler::new();
    let mut ctx = RecoveryContext::retry(1);
    let step = handler.recovery_step::<i32>(Err(SimulationError::time_error("late")), &mut ctx);
    assert!(matches!(step, RecoveryStep::Again));
    assert_eq!(ctx.retry_count, 1);
    let step = handler.recovery_step::<i32>(Err(SimulationError::time_error("late")), &mut ctx);
    assert!(matches!(step, RecoveryStep::Done(Ok(None))));
    assert_eq!(ctx.retry_count, 1);
    let step = handler.recovery_step::<i32>(Ok(7), &mut ctx);
    assert!(matches!(step, RecoveryStep::Done(Ok(Some(7)))));
    let step = handler.recovery_step::<i32>(Err(SimulationError::configuration_error("bad")), &mut ctx);
    assert!(matches!(step, RecoveryStep::Done(Err(SimulationError::ConfigurationError(_)))));
}

#[test]
fn retries_are_counted_to_the_limit() {
    let handler = ErrorHandler::new();
    let mut calls = 0;
    let result = handler.execute_with_recovery(
        || -> SimulationResult<i32> {
            calls += 1;
            Err(SimulationError::time_error("late"))
        },
        RecoveryContext::retry(2),
    );
    assert!(matches!(result, Ok(None)));
    assert_eq!(calls, 3);
}
