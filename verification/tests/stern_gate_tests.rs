use std::cell::RefCell;
use twin4rust::gates::gate::Gate;
use twin4rust::gates::stern_gate::SternGate;
use twin4rust::process::command_outcome::CommandOutcome;
use twin4rust::process::command_runner::CommandRunner;

// A stand-in runner: it answers with what it was given and records the
// arguments of each call.
pub struct FakeCommandRunner {
    available: bool,
    streaming_code: Option<i32>,
    stdout: String,
    calls: RefCell<Vec<Vec<String>>>,
}

impl FakeCommandRunner {
    pub fn new() -> Self {
        Self {
            available: true,
            streaming_code: Some(0),
            stdout: String::new(),
            calls: RefCell::new(Vec::new()),
        }
    }

    pub fn with_available(mut self, available: bool) -> Self {
        self.available = available;
        self
    }

    pub fn with_streaming_code(mut self, streaming_code: Option<i32>) -> Self {
        self.streaming_code = streaming_code;
        self
    }

    pub fn with_stdout(mut self, stdout: &str) -> Self {
        self.stdout = String::from(stdout);
        self
    }

    pub fn calls(&self) -> Vec<Vec<String>> {
        self.calls.borrow().clone()
    }
}

impl Default for FakeCommandRunner {
    fn default() -> Self {
        Self::new()
    }
}

impl CommandRunner for FakeCommandRunner {
    fn is_available(&self, _binary_name: &str) -> bool {
        self.available
    }

    fn run_streaming(&self, _program: &str, args: &[String]) -> Result<Option<i32>, String> {
        self.calls.borrow_mut().push(args.to_vec());
        Ok(self.streaming_code)
    }

    fn run_capturing(&self, _program: &str, args: &[String]) -> Result<CommandOutcome, String> {
        self.calls.borrow_mut().push(args.to_vec());
        Ok(CommandOutcome::new(
            self.streaming_code,
            self.stdout.clone(),
            String::new(),
        ))
    }
}

fn gate(runner: &FakeCommandRunner) -> SternGate<'_> {
    SternGate::new(
        runner,
        String::from("Cargo.toml"),
        vec![String::from("cargo-twin4rust")],
    )
}

#[test]
fn label_names_the_house_rules_gate() {
    // Arrange
    let runner = FakeCommandRunner::new();

    // Act
    let label = gate(&runner).label();

    // Assert
    assert_eq!(label, "House rules");
}

#[test]
fn run_passes_the_manifest_path_and_package_to_the_tool() {
    // Arrange
    let runner = FakeCommandRunner::new();

    // Act
    let _ = gate(&runner).run();

    // Assert
    let calls = runner.calls();
    assert_eq!(calls.len(), 1);
    assert_eq!(
        calls[0],
        vec![
            String::from("stern4rust"),
            String::from("--manifest-path"),
            String::from("Cargo.toml"),
            String::from("--package"),
            String::from("cargo-twin4rust"),
        ]
    );
}

#[test]
fn stern_gate_tests_run_with_a_zero_exit_code_returns_ok() {
    // Arrange
    let runner = FakeCommandRunner::new().with_streaming_code(Some(0));

    // Act
    let result = gate(&runner).run();

    // Assert
    assert!(result.is_ok());
}

#[test]
fn run_with_exit_code_one_reports_a_failure_to_run() {
    // Arrange
    let runner = FakeCommandRunner::new().with_streaming_code(Some(1));

    // Act
    let result = gate(&runner).run();

    // Assert
    assert!(result.is_err_and(|error| error.contains("could not run")));
}

// 2 is a rule broken and 1 is the tool failing to start. Collapsing them would
// let a bad manifest read as a clean codebase.
#[test]
fn run_with_exit_code_two_reports_a_broken_rule() {
    // Arrange
    let runner = FakeCommandRunner::new().with_streaming_code(Some(2));

    // Act
    let result = gate(&runner).run();

    // Assert
    assert_eq!(result, Err(String::from("a house coding rule was broken")));
}

#[test]
fn stern_gate_tests_run_with_the_tool_missing_returns_an_install_hint() {
    // Arrange
    let runner = FakeCommandRunner::new().with_available(false);

    // Act
    let result = gate(&runner).run();

    // Assert
    assert!(result.is_err_and(|error| error.contains("cargo install cargo-stern4rust")));
}
