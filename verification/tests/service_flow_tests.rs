//! End-to-end flows: resolve a slug, plan the invocation, run the real
//! command, and map the captured result to the HTTP reply.

use junction::exec::plan_invocation;
use junction::exec::CommandInvocation;
use junction::exec::ExecutionResult;
use junction::exec::ExitStatus;
use junction::response::execution_reply;
use junction::response::spawn_error_reply;
use junction::Config;
use junction::OutputConfig;
use junction::ResolvedConfig;

fn test_registry() -> ResolvedConfig {
    ResolvedConfig::new(
        Config {
            outputs: vec![
                OutputConfig {
                    slug: "echo-hello".to_string(),
                    cmd: "/bin/echo".to_string(),
                    args: vec!["hello".to_string(), "world".to_string()],
                },
                OutputConfig {
                    slug: "invalid".to_string(),
                    cmd: "this-command-does-not-exist-12345".to_string(),
                    args: vec![],
                },
                OutputConfig {
                    slug: "failing".to_string(),
                    cmd: "/bin/cat".to_string(),
                    args: vec!["no-such-file-in-here-12345".to_string()],
                },
            ],
        },
        "/tmp".to_string(),
    )
    .unwrap()
}

fn run_plan(plan: &CommandInvocation) -> Result<ExecutionResult, std::io::Error> {
    let runtime = tokio::runtime::Runtime::new().unwrap();
    runtime.block_on(async {
        let mut command = tokio::process::Command::new(&plan.program);
        command.args(&plan.args).current_dir(&plan.working_dir);
        if let Some(path_var) = &plan.path_var {
            command.env("PATH", path_var);
        }
        let output = command.output().await?;
        Ok(ExecutionResult {
            stdout: output.stdout,
            stderr: output.stderr,
            exit_status: if output.status.success() {
                ExitStatus::Success
            } else {
                ExitStatus::Failure(output.status.code())
            },
        })
    })
}

#[test]
fn test_known_slug_executes_and_returns_stdout() {
    let registry = test_registry();
    let definition = registry.get_output_by_slug("echo-hello").unwrap();
    let plan = plan_invocation(definition, &registry.data_dir, None);
    let result = run_plan(&plan).unwrap();
    let reply = execution_reply(&result);
    assert_eq!(reply.status, 200);
    assert_eq!(reply.content_type.as_deref(), Some("text/plain; charset=utf-8"));
    assert_eq!(reply.body, "hello world\n");
}

#[test]
fn test_nonexistent_executable_maps_to_server_error() {
    let registry = test_registry();
    let definition = registry.get_output_by_slug("invalid").unwrap();
    let plan = plan_invocation(definition, &registry.data_dir, None);
    let spawn_error = run_plan(&plan).unwrap_err();
    let reply = spawn_error_reply(&spawn_error.to_string());
    assert_eq!(reply.status, 500);
    assert!(reply.body.starts_with("Failed to execute command: "));
}

#[test]
fn test_failing_command_maps_stderr_to_body() {
    let registry = test_registry();
    let definition = registry.get_output_by_slug("failing").unwrap();
    let plan = plan_invocation(definition, &registry.data_dir, None);
    let result = run_plan(&plan).unwrap();
    assert!(matches!(result.exit_status, ExitStatus::Failure(Some(_))));
    let stderr_text = String::from_utf8_lossy(&result.stderr).into_owned();
    assert!(!stderr_text.is_empty());
    let reply = execution_reply(&result);
    assert_eq!(reply.status, 500);
    assert_eq!(reply.body, stderr_text);
}
