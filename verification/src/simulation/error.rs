//! Errors of the simulation and how to recover from them.

use vstd::prelude::*;
use vstd::string::StringExecFns;

verus! {

/// The error type of the standard library's I/O operations.
#[verifier::external_type_specification]
#[verifier::external_body]
pub struct ExIoError(std::io::Error);

/// The error type of `serde_json`.
#[verifier::external_type_specification]
#[verifier::external_body]
pub struct ExJsonError(serde_json::Error);

/// Errors that can occur during a simulation.
#[derive(Debug)]
pub enum SimulationError {
    /// Configuration validation failed.
    ConfigurationError(String),
    /// User generation failed.
    UserGenerationError(String),
    /// Location setup failed.
    LocationSetupError(String),
    /// Event generation failed.
    EventGenerationError(String),
    /// Time management failed.
    TimeError(String),
    /// An I/O operation failed.
    IoError(std::io::Error),
    /// Serialization failed.
    SerializationError(serde_json::Error),
    /// A permission was refused.
    PermissionError(String),
    /// A facility was inconsistent.
    FacilityError(String),
    /// The behavior engine failed.
    BehaviorEngineError(String),
    /// Statistics could not be computed.
    StatisticsError(String),
}

/// A simulation result.
pub type SimulationResult<T> = Result<T, SimulationError>;

/// Whether the simulation can go on after the error: all errors but
/// configuration and location setup errors.
pub open spec fn recoverable(e: &SimulationError) -> bool {
    match e {
        SimulationError::ConfigurationError(_) => false,
        SimulationError::LocationSetupError(_) => false,
        _ => true,
    }
}

/// The category an error falls in.
pub open spec fn category_text(e: &SimulationError) -> Seq<char> {
    match e {
        SimulationError::ConfigurationError(_) => "Configuration"@,
        SimulationError::UserGenerationError(_) => "User Generation"@,
        SimulationError::LocationSetupError(_) => "Location Setup"@,
        SimulationError::EventGenerationError(_) => "Event Generation"@,
        SimulationError::TimeError(_) => "Time Management"@,
        SimulationError::IoError(_) => "IO"@,
        SimulationError::SerializationError(_) => "Serialization"@,
        SimulationError::PermissionError(_) => "Permission"@,
        SimulationError::FacilityError(_) => "Facility"@,
        SimulationError::BehaviorEngineError(_) => "Behavior Engine"@,
        SimulationError::StatisticsError(_) => "Statistics"@,
    }
}

/// The text that starts the message of an error.
pub open spec fn message_prefix(e: &SimulationError) -> Seq<char> {
    match e {
        SimulationError::ConfigurationError(_) => "Configuration validation failed: "@,
        SimulationError::UserGenerationError(_) => "User generation failed: "@,
        SimulationError::LocationSetupError(_) => "Location setup failed: "@,
        SimulationError::EventGenerationError(_) => "Event generation failed: "@,
        SimulationError::TimeError(_) => "Time management error: "@,
        SimulationError::IoError(_) => "IO error: "@,
        SimulationError::SerializationError(_) => "Serialization error: "@,
        SimulationError::PermissionError(_) => "Permission error: "@,
        SimulationError::FacilityError(_) => "Facility error: "@,
        SimulationError::BehaviorEngineError(_) => "Behavior engine error: "@,
        SimulationError::StatisticsError(_) => "Statistics error: "@,
    }
}

/// The detail text that an error carries, for the errors that carry one as text.
pub open spec fn detail_text(e: &SimulationError) -> Option<Seq<char>> {
    match e {
        SimulationError::ConfigurationError(m) => Some(m@),
        SimulationError::UserGenerationError(m) => Some(m@),
        SimulationError::LocationSetupError(m) => Some(m@),
        SimulationError::EventGenerationError(m) => Some(m@),
        SimulationError::TimeError(m) => Some(m@),
        SimulationError::IoError(_) => None,
        SimulationError::SerializationError(_) => None,
        SimulationError::PermissionError(m) => Some(m@),
        SimulationError::FacilityError(m) => Some(m@),
        SimulationError::BehaviorEngineError(m) => Some(m@),
        SimulationError::StatisticsError(m) => Some(m@),
    }
}

/// How the standard library displays an I/O error. The text comes from
/// `std::io::Error`'s `Display`, which for errors of the operating system
/// depends on the system; nothing is claimed of it.
#[verifier::external_body]
fn io_error_text(e: &std::io::Error) -> String {
    e.to_string()
}

/// How `serde_json` displays its error: its `Display` impl. Nothing is
/// claimed of the text.
#[verifier::external_body]
fn json_error_text(e: &serde_json::Error) -> String {
    e.to_string()
}

impl SimulationError {
    /// A configuration error with the message.
    pub fn configuration_error(msg: &str) -> (e: Self)
        ensures
            e matches SimulationError::ConfigurationError(m) && m@ == msg@,
    {
        SimulationError::ConfigurationError(String::from_str(msg))
    }

    /// A user generation error with the message.
    pub fn user_generation_error(msg: &str) -> (e: Self)
        ensures
            e matches SimulationError::UserGenerationError(m) && m@ == msg@,
    {
        SimulationError::UserGenerationError(String::from_str(msg))
    }

    /// A location setup error with the message.
    pub fn location_setup_error(msg: &str) -> (e: Self)
        ensures
            e matches SimulationError::LocationSetupError(m) && m@ == msg@,
    {
        SimulationError::LocationSetupError(String::from_str(msg))
    }

    /// An event generation error with the message.
    pub fn event_generation_error(msg: &str) -> (e: Self)
        ensures
            e matches SimulationError::EventGenerationError(m) && m@ == msg@,
    {
        SimulationError::EventGenerationError(String::from_str(msg))
    }

    /// A time management error with the message.
    pub fn time_error(msg: &str) -> (e: Self)
        ensures
            e matches SimulationError::TimeError(m) && m@ == msg@,
    {
        SimulationError::TimeError(String::from_str(msg))
    }

    /// A permission error with the message.
    pub fn permission_error(msg: &str) -> (e: Self)
        ensures
            e matches SimulationError::PermissionError(m) && m@ == msg@,
    {
        SimulationError::PermissionError(String::from_str(msg))
    }

    /// A facility error with the message.
    pub fn facility_error(msg: &str) -> (e: Self)
        ensures
            e matches SimulationError::FacilityError(m) && m@ == msg@,
    {
        SimulationError::FacilityError(String::from_str(msg))
    }

    /// A behavior engine error with the message.
    pub fn behavior_engine_error(msg: &str) -> (e: Self)
        ensures
            e matches SimulationError::BehaviorEngineError(m) && m@ == msg@,
    {
        SimulationError::BehaviorEngineError(String::from_str(msg))
    }

    /// A statistics error with the message.
    pub fn statistics_error(msg: &str) -> (e: Self)
        ensures
            e matches SimulationError::StatisticsError(m) && m@ == msg@,
    {
        SimulationError::StatisticsError(String::from_str(msg))
    }

    /// Whether the simulation can go on after the error.
    pub fn is_recoverable(&self) -> (b: bool)
        ensures
            b == recoverable(self),
    {
        match self {
            SimulationError::ConfigurationError(_) => false,
            SimulationError::LocationSetupError(_) => false,
            _ => true,
        }
    }

    /// The category the error falls in.
    pub fn category(&self) -> (c: &'static str)
        ensures
            c@ == category_text(self),
    {
        match self {
            SimulationError::ConfigurationError(_) => "Configuration",
            SimulationError::UserGenerationError(_) => "User Generation",
            SimulationError::LocationSetupError(_) => "Location Setup",
            SimulationError::EventGenerationError(_) => "Event Generation",
            SimulationError::TimeError(_) => "Time Management",
            SimulationError::IoError(_) => "IO",
            SimulationError::SerializationError(_) => "Serialization",
            SimulationError::PermissionError(_) => "Permission",
            SimulationError::FacilityError(_) => "Facility",
            SimulationError::BehaviorEngineError(_) => "Behavior Engine",
            SimulationError::StatisticsError(_) => "Statistics",
        }
    }

    /// The message of the error: its prefix, then its detail text, or how
    /// the I/O or serialization error displays itself.
    pub fn to_display_string(&self) -> (s: String)
        ensures
            s@.len() >= message_prefix(self).len(),
            s@.subrange(0, message_prefix(self).len() as int) == message_prefix(self),
            match detail_text(self) {
                Some(m) => s@ == message_prefix(self) + m,
                None => true,
            },
    {
        let (prefix, detail): (&str, String) = match self {
            SimulationError::ConfigurationError(m) => ("Configuration validation failed: ", m.clone()),
            SimulationError::UserGenerationError(m) => ("User generation failed: ", m.clone()),
            SimulationError::LocationSetupError(m) => ("Location setup failed: ", m.clone()),
            SimulationError::EventGenerationError(m) => ("Event generation failed: ", m.clone()),
            SimulationError::TimeError(m) => ("Time management error: ", m.clone()),
            SimulationError::IoError(e) => ("IO error: ", io_error_text(e)),
            SimulationError::SerializationError(e) => ("Serialization error: ", json_error_text(e)),
            SimulationError::PermissionError(m) => ("Permission error: ", m.clone()),
            SimulationError::FacilityError(m) => ("Facility error: ", m.clone()),
            SimulationError::BehaviorEngineError(m) => ("Behavior engine error: ", m.clone()),
            SimulationError::StatisticsError(m) => ("Statistics error: ", m.clone()),
        };
        let mut s = String::from_str(prefix);
        s.append(detail.as_str());
        assert(s@.subrange(0, prefix@.len() as int) =~= prefix@);
        s
    }
}

impl From<String> for SimulationError {
    /// A text becomes an event generation error.
    fn from(s: String) -> (e: Self) {
        SimulationError::EventGenerationError(s)
    }
}

impl vstd::std_specs::convert::FromSpecImpl<String> for SimulationError {
    open spec fn obeys_from_spec() -> bool {
        true
    }

    open spec fn from_spec(v: String) -> Self {
        SimulationError::EventGenerationError(v)
    }
}

impl From<std::io::Error> for SimulationError {
    /// An I/O error becomes an `IoError`.
    fn from(e: std::io::Error) -> (r: Self) {
        SimulationError::IoError(e)
    }
}

impl vstd::std_specs::convert::FromSpecImpl<std::io::Error> for SimulationError {
    open spec fn obeys_from_spec() -> bool {
        true
    }

    open spec fn from_spec(v: std::io::Error) -> Self {
        SimulationError::IoError(v)
    }
}

impl From<serde_json::Error> for SimulationError {
    /// A serialization error becomes a `SerializationError`.
    fn from(e: serde_json::Error) -> (r: Self) {
        SimulationError::SerializationError(e)
    }
}

impl vstd::std_specs::convert::FromSpecImpl<serde_json::Error> for SimulationError {
    open spec fn obeys_from_spec() -> bool {
        true
    }

    open spec fn from_spec(v: serde_json::Error) -> Self {
        SimulationError::SerializationError(v)
    }
}

/// What to do after an error.
#[derive(Clone, Copy, Debug, PartialEq, Eq, Structural)]
pub enum RecoveryStrategy {
    /// Try the operation again as it was.
    Retry,
    /// Try the operation again with fallback parameters.
    RetryWithFallback,
    /// Skip the operation and go on.
    Skip,
    /// Go on with default values.
    UseDefaults,
    /// Stop the whole simulation.
    Abort,
}

/// How to recover from errors of one operation, and how many retries it has had.
#[derive(Clone, Debug)]
pub struct RecoveryContext {
    /// The strategy to follow.
    pub strategy: RecoveryStrategy,
    /// Most retries allowed.
    pub max_retries: usize,
    /// Retries made so far.
    pub retry_count: usize,
    /// Whether errors are logged.
    pub log_error: bool,
    /// What the operation was doing.
    pub context: String,
}

impl Default for RecoveryContext {
    /// Skip on error, with up to 3 retries, logging errors, without context.
    fn default() -> (c: Self)
        ensures
            c.strategy == RecoveryStrategy::Skip,
            c.max_retries == 3,
            c.retry_count == 0,
            c.log_error,
            c.context@ == Seq::<char>::empty(),
    {
        RecoveryContext {
            strategy: RecoveryStrategy::Skip,
            max_retries: 3,
            retry_count: 0,
            log_error: true,
            context: String::new(),
        }
    }
}

impl RecoveryContext {
    /// Retry up to `max_retries` times.
    pub fn retry(max_retries: usize) -> (c: Self)
        ensures
            c.strategy == RecoveryStrategy::Retry,
            c.max_retries == max_retries,
            c.retry_count == 0,
            c.log_error,
            c.context@ == Seq::<char>::empty(),
    {
        RecoveryContext { strategy: RecoveryStrategy::Retry, max_retries, ..Default::default() }
    }

    /// Retry with fallback parameters up to `max_retries` times.
    pub fn retry_with_fallback(max_retries: usize) -> (c: Self)
        ensures
            c.strategy == RecoveryStrategy::RetryWithFallback,
            c.max_retries == max_retries,
            c.retry_count == 0,
            c.log_error,
            c.context@ == Seq::<char>::empty(),
    {
        RecoveryContext { strategy: RecoveryStrategy::RetryWithFallback, max_retries, ..Default::default() }
    }

    /// Skip the operation on error.
    pub fn skip() -> (c: Self)
        ensures
            c.strategy == RecoveryStrategy::Skip,
            c.max_retries == 3,
            c.retry_count == 0,
            c.log_error,
            c.context@ == Seq::<char>::empty(),
    {
        RecoveryContext { strategy: RecoveryStrategy::Skip, ..Default::default() }
    }

    /// Go on with default values on error.
    pub fn use_defaults() -> (c: Self)
        ensures
            c.strategy == RecoveryStrategy::UseDefaults,
            c.max_retries == 3,
            c.retry_count == 0,
            c.log_error,
            c.context@ == Seq::<char>::empty(),
    {
        RecoveryContext { strategy: RecoveryStrategy::UseDefaults, ..Default::default() }
    }

    /// Stop the simulation on error, with no retries.
    pub fn abort() -> (c: Self)
        ensures
            c.strategy == RecoveryStrategy::Abort,
            c.max_retries == 0,
            c.retry_count == 0,
            c.log_error,
            c.context@ == Seq::<char>::empty(),
    {
        RecoveryContext { strategy: RecoveryStrategy::Abort, max_retries: 0, ..Default::default() }
    }

    /// The same context describing what the operation was doing.
    pub fn with_context(self, context: &str) -> (c: Self)
        ensures
            c.strategy == self.strategy,
            c.max_retries == self.max_retries,
            c.retry_count == self.retry_count,
            c.log_error == self.log_error,
            c.context@ == context@,
    {
        RecoveryContext { context: String::from_str(context), ..self }
    }

    /// Count one more retry.
    pub fn increment_retry(&mut self)
        requires
            old(self).retry_count < usize::MAX,
        ensures
            final(self).retry_count == old(self).retry_count + 1,
            final(self).strategy == old(self).strategy,
            final(self).max_retries == old(self).max_retries,
            final(self).log_error == old(self).log_error,
            final(self).context == old(self).context,
    {
        self.retry_count = self.retry_count + 1;
    }

    /// Whether another retry is allowed.
    pub fn can_retry(&self) -> (b: bool)
        ensures
            b == (self.retry_count < self.max_retries),
    {
        self.retry_count < self.max_retries
    }
}

/// The strategy to follow after an error, given whether the error is
/// recoverable: abort on an unrecoverable error; retry (with or without
/// fallback) while retries remain, then skip; otherwise the context's strategy.
pub open spec fn recovery_decision(is_recoverable: bool, c: RecoveryContext) -> RecoveryStrategy {
    if !is_recoverable {
        RecoveryStrategy::Abort
    } else {
        match c.strategy {
            RecoveryStrategy::Retry => if c.retry_count < c.max_retries {
                RecoveryStrategy::Retry
            } else {
                RecoveryStrategy::Skip
            },
            RecoveryStrategy::RetryWithFallback => if c.retry_count < c.max_retries {
                RecoveryStrategy::RetryWithFallback
            } else {
                RecoveryStrategy::Skip
            },
            s => s,
        }
    }
}

/// What follows an outcome of an operation run with recovery: the run is
/// done with a result, or the operation is to be called again.
pub enum RecoveryStep<T> {
    /// The run is over with this result.
    Done(SimulationResult<Option<T>>),
    /// Call the operation again.
    Again,
}

/// The context after `n` more retries.
pub open spec fn retried(c: RecoveryContext, n: int) -> RecoveryContext {
    RecoveryContext { retry_count: (c.retry_count + n) as usize, ..c }
}

/// Where running through the outcomes of successive calls leads, from the
/// context: a value ends the run with it; an error ends it as
/// `recovery_decision` says (skipped or continued with defaults: no value;
/// aborted: the error), except that a retry uses one and goes on with the
/// next outcome. `None` when the outcomes run out before the run ends.
pub open spec fn recovery_run<T>(outcomes: Seq<SimulationResult<T>>, c: RecoveryContext) -> Option<SimulationResult<Option<T>>>
    decreases outcomes.len(),
{
    if outcomes.len() == 0 {
        None
    } else {
        match outcomes[0] {
            Ok(v) => Some(Ok(Some(v))),
            Err(e) => match recovery_decision(recoverable(&e), c) {
                RecoveryStrategy::Retry => recovery_run(outcomes.drop_first(), retried(c, 1)),
                RecoveryStrategy::RetryWithFallback => recovery_run(outcomes.drop_first(), retried(c, 1)),
                RecoveryStrategy::Skip => Some(Ok(None)),
                RecoveryStrategy::UseDefaults => Some(Ok(None)),
                RecoveryStrategy::Abort => Some(Err(e)),
            },
        }
    }
}

/// A run that has not ended goes on, after one more outcome, as that
/// outcome alone would from the context with a retry used per earlier
/// outcome; and it has used no more retries than allowed.
pub proof fn lemma_recovery_run_push<T>(s: Seq<SimulationResult<T>>, o: SimulationResult<T>, c: RecoveryContext)
    requires
        recovery_run(s, c) is None,
    ensures
        c.retry_count + s.len() <= c.max_retries || s.len() == 0,
        recovery_run(s.push(o), c) == recovery_run(seq![o], retried(c, s.len() as int)),
    decreases s.len(),
{
    if s.len() == 0 {
        assert(s.push(o) =~= seq![o]);
        assert(retried(c, 0) == c);
    } else {
        assert(s.push(o).drop_first() =~= s.drop_first().push(o));
        assert(s.push(o)[0] == s[0]);
        let e = s[0]->Err_0;
        let c1 = retried(c, 1);
        lemma_recovery_run_push(s.drop_first(), o, c1);
        assert(retried(c1, s.len() - 1) == retried(c, s.len() as int));
    }
}

/// Decides how to recover from errors.
#[derive(Debug)]
pub struct ErrorHandler {
    /// Whether to go on after recoverable errors.
    pub continue_on_recoverable: bool,
    /// The recovery context used when none is given.
    pub default_recovery: RecoveryContext,
}

impl Default for ErrorHandler {
    /// Go on after recoverable errors, with the default recovery context.
    fn default() -> (h: Self)
        ensures
            h.continue_on_recoverable,
            h.default_recovery.strategy == RecoveryStrategy::Skip,
            h.default_recovery.max_retries == 3,
            h.default_recovery.retry_count == 0,
            h.default_recovery.log_error,
            h.default_recovery.context@ == Seq::<char>::empty(),
    {
        ErrorHandler { continue_on_recoverable: true, default_recovery: RecoveryContext::default() }
    }
}

impl ErrorHandler {
    /// A handler that goes on after recoverable errors, with the default recovery context.
    pub fn new() -> (h: Self)
        ensures
            h.continue_on_recoverable,
            h.default_recovery.strategy == RecoveryStrategy::Skip,
            h.default_recovery.max_retries == 3,
            h.default_recovery.retry_count == 0,
            h.default_recovery.log_error,
            h.default_recovery.context@ == Seq::<char>::empty(),
    {
        ErrorHandler::default()
    }

    /// The strategy to follow after the error in the given context.
    pub fn handle_error(&self, error: &SimulationError, context: &RecoveryContext) -> (s: RecoveryStrategy)
        ensures
            s == recovery_decision(recoverable(error), *context),
    {
        if !error.is_recoverable() {
            return RecoveryStrategy::Abort;
        }
        match context.strategy {
            RecoveryStrategy::Retry => if context.can_retry() {
                RecoveryStrategy::Retry
            } else {
                RecoveryStrategy::Skip
            },
            RecoveryStrategy::RetryWithFallback => if context.can_retry() {
                RecoveryStrategy::RetryWithFallback
            } else {
                RecoveryStrategy::Skip
            },
            strategy => strategy,
        }
    }

    /// The strategy to follow after the error in the default context.
    pub fn handle_error_default(&self, error: &SimulationError) -> (s: RecoveryStrategy)
        ensures
            s == recovery_decision(recoverable(error), self.default_recovery),
    {
        self.handle_error(error, &self.default_recovery)
    }

    /// What follows an outcome of the operation: a value ends the run with
    /// it; an error ends it or uses a retry as `handle_error` decides.
    pub fn recovery_step<T>(&self, outcome: SimulationResult<T>, ctx: &mut RecoveryContext) -> (s: RecoveryStep<T>)
        ensures
            match outcome {
                Ok(v) => s == RecoveryStep::Done(Ok::<Option<T>, SimulationError>(Some(v))) && *final(ctx) == *old(ctx),
                Err(e) => match recovery_decision(recoverable(&e), *old(ctx)) {
                    RecoveryStrategy::Retry => s is Again && *final(ctx) == retried(*old(ctx), 1),
                    RecoveryStrategy::RetryWithFallback => s is Again && *final(ctx) == retried(*old(ctx), 1),
                    RecoveryStrategy::Skip => s == RecoveryStep::<T>::Done(Ok(None)) && *final(ctx) == *old(ctx),
                    RecoveryStrategy::UseDefaults => s == RecoveryStep::<T>::Done(Ok(None)) && *final(ctx) == *old(ctx),
                    RecoveryStrategy::Abort => s == RecoveryStep::<T>::Done(Err(e)) && *final(ctx) == *old(ctx),
                },
            },
    {
        match outcome {
            Ok(result) => RecoveryStep::Done(Ok(Some(result))),
            Err(error) => {
                let strategy = self.handle_error(&error, ctx);
                match strategy {
                    RecoveryStrategy::Retry => {
                        ctx.increment_retry();
                        RecoveryStep::Again
                    },
                    RecoveryStrategy::RetryWithFallback => {
                        ctx.increment_retry();
                        RecoveryStep::Again
                    },
                    RecoveryStrategy::Skip => RecoveryStep::Done(Ok(None)),
                    RecoveryStrategy::UseDefaults => RecoveryStep::Done(Ok(None)),
                    RecoveryStrategy::Abort => RecoveryStep::Done(Err(error)),
                }
            },
        }
    }

    /// Run the operation until it succeeds, retrying as `handle_error`
    /// decides: the result is where `recovery_run` leads through the
    /// outcomes of the calls made, and the operation is called until the run
    /// ends and no more.
    pub fn execute_with_recovery<T, F>(&self, operation: F, context: RecoveryContext) -> (r: SimulationResult<Option<T>>)
        where
            F: FnMut() -> SimulationResult<T>,
        requires
            call_requires(operation, ()),
        ensures
            exists|outcomes: Seq<SimulationResult<T>>| {
                &&& forall|i: int| 0 <= i < outcomes.len() ==> call_ensures(operation, (), #[trigger] outcomes[i])
                &&& recovery_run(outcomes, context) == Some(r)
                &&& forall|k: int| 0 <= k < outcomes.len() ==> #[trigger] recovery_run(outcomes.take(k), context) is None
            },
    {
        broadcast use vstd::function::group_function_axioms;
        let mut op = operation;
        let mut ctx = context;
        let ghost mut outcomes: Seq<SimulationResult<T>> = Seq::empty();
        loop
            invariant
                op == operation,
                call_requires(op, ()),
                forall|i: int| 0 <= i < outcomes.len() ==> call_ensures(operation, (), #[trigger] outcomes[i]),
                forall|k: int| 0 <= k <= outcomes.len() ==> #[trigger] recovery_run(outcomes.take(k), context) is None,
                ctx == retried(context, outcomes.len() as int),
                context.retry_count + outcomes.len() <= context.max_retries || outcomes.len() == 0,
            decreases (if ctx.retry_count < ctx.max_retries { ctx.max_retries - ctx.retry_count } else { 0 }),
        {
            let outcome = op();
            let ghost o = outcome;
            proof {
                assert(outcomes.take(outcomes.len() as int) =~= outcomes);
                lemma_recovery_run_push(outcomes, o, context);
                assert forall|k: int| 0 <= k < outcomes.len() + 1 implies #[trigger] outcomes.push(o).take(k) == outcomes.take(k) by {
                    assert(outcomes.push(o).take(k) =~= outcomes.take(k));
                }
            }
            let ghost before = ctx;
            match self.recovery_step(outcome, &mut ctx) {
                RecoveryStep::Done(result) => {
                    proof {
                        let next = outcomes.push(o);
                        assert(recovery_run(seq![o], before) == Some(result)) by {
                            assert(seq![o][0] == o);
                        }
                        assert forall|i: int| 0 <= i < next.len() implies call_ensures(operation, (), #[trigger] next[i]) by {
                            if i < outcomes.len() {
                                assert(next[i] == outcomes[i]);
                            }
                        }
                        assert forall|k: int| 0 <= k < next.len() implies #[trigger] recovery_run(next.take(k), context) is None by {
                            assert(next.take(k) == outcomes.take(k));
                        }
                    }
                    return result;
                },
                RecoveryStep::Again => {
                    proof {
                        let next = outcomes.push(o);
                        assert(recovery_run(seq![o], before) is None) by {
                            assert(seq![o][0] == o);
                            assert(seq![o].drop_first() =~= Seq::<SimulationResult<T>>::empty());
                            assert(recovery_run(Seq::<SimulationResult<T>>::empty(), retried(before, 1)) is None);
                            reveal_with_fuel(recovery_run, 2);
                        }
                        assert(next.take(next.len() as int) =~= next);
                        assert forall|k: int| 0 <= k <= next.len() implies #[trigger] recovery_run(next.take(k), context) is None by {
                            if k < next.len() {
                                assert(next.take(k) == outcomes.take(k));
                            }
                        }
                        outcomes = next;
                    }
                },
            }
        }
    }
}

/// An unrecoverable error aborts in every context; a recoverable one aborts
/// only when the context says so; once retries run out, no retry is chosen.
pub proof fn law_recovery_decision(e: SimulationError, c: RecoveryContext)
    ensures
        !recoverable(&e) ==> recovery_decision(recoverable(&e), c) == RecoveryStrategy::Abort,
        recoverable(&e) ==> (recovery_decision(recoverable(&e), c) == RecoveryStrategy::Abort
            <==> c.strategy == RecoveryStrategy::Abort),
        c.retry_count >= c.max_retries ==> recovery_decision(recoverable(&e), c) != RecoveryStrategy::Retry
            && recovery_decision(recoverable(&e), c) != RecoveryStrategy::RetryWithFallback,
{
}

} // verus!
