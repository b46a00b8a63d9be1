use worker_core::deps::clean_lockfile;
use worker_core::deps::dependency_requirements;
use worker_core::deps::lock_success_line;
use worker_core::deps::requirements_header;
use worker_core::dispatch::CompletionCall;
use worker_core::dispatch::dispatch_plan;
use worker_core::dispatch::escalate_to_parent;
use worker_core::dispatch::flow_escalation_message;
use worker_core::dispatch::poll_pause_ms;
use worker_core::dispatch::require_parent;
use worker_core::dispatch::should_ping_worker;
use worker_core::dispatch::unexpected_job_error_prefix;
use worker_core::json::JsonValue;
use worker_core::model::JobError;
use worker_core::model::JobKind;
use worker_core::model::ParamTyp;
use worker_core::model::QueuedJob;
use worker_core::model::ScriptLang;
use worker_core::runner::deno_run_command;
use worker_core::runner::deno_spread;
use worker_core::runner::deno_wrapper;
use worker_core::runner::job_header;
use worker_core::runner::pip_compile_command;
use worker_core::runner::preview_code;
use worker_core::runner::python_install_command;
use worker_core::runner::python_path_env;
use worker_core::runner::python_run_command;
use worker_core::runner::python_transforms;
use worker_core::runner::python_wrapper;
use worker_core::runner::require_language;
use worker_core::runner::require_lockfile;
use worker_core::runner::resolve_script_row;
use worker_core::runner::substitute_placeholders;
use worker_core::runner::token_expiry_ms;
use worker_core::runner::token_label;

fn plain_job(kind: JobKind) -> QueuedJob {
    QueuedJob {
        id: "00000000-0000-0000-0000-000000000001".to_string(),
        workspace_id: "demo".to_string(),
        parent_job: None,
        created_by: "alice".to_string(),
        permissioned_as: "u/alice".to_string(),
        job_kind: kind,
        language: Some(ScriptLang::Python3),
        script_hash: Some(123),
        script_path: None,
        schedule_path: None,
        raw_code: None,
        args: None,
        is_flow_step: false,
        started_at: Some(0),
        canceled: false,
    }
}

#[test]
fn lockfile_cleaning() {
    let cleaned = clean_lockfile("# via pip-compile\nfoo==1.0\n   # indented comment\nbar==2.0\n");
    assert_eq!(cleaned, "foo==1.0\nbar==2.0");
    assert_eq!(clean_lockfile(""), "");
    assert_eq!(clean_lockfile("#only\n# comments"), "");
    // a blank line is kept: it is no comment
    assert_eq!(clean_lockfile("a\n\nb"), "a\n\nb");
    // any Unicode whitespace may stand before the comment marker
    assert_eq!(clean_lockfile("\u{a0}# hidden\nreal==1"), "real==1");
    assert_eq!(clean_lockfile("\u{2003}\t# wide\nkept==2"), "kept==2");
}

#[test]
fn lock_success_line_shape() {
    let line = lock_success_line("a==1\nb==2");
    assert_eq!(
        line,
        "{ \"success\": \"Successful lock file generation\", \"lock\": \"a==1\\nb==2\" }"
    );
    // the recorded line is valid JSON and carries the lock verbatim
    let parsed: serde_json::Value = serde_json::from_str(&line).expect("valid json");
    assert_eq!(parsed["lock"], serde_json::Value::String("a==1\nb==2".to_string()));
    assert_eq!(
        parsed["success"],
        serde_json::Value::String("Successful lock file generation".to_string())
    );
}

#[test]
fn dependency_job_inputs() {
    assert_eq!(
        requirements_header("requests\n"),
        "content of requirements:\nrequests\n\n"
    );
    let mut job = plain_job(JobKind::Dependencies);
    job.raw_code = Some("requests".to_string());
    assert_eq!(dependency_requirements(&job), Ok(&"requests".to_string()));
    job.raw_code = None;
    assert_eq!(
        dependency_requirements(&job),
        Err(JobError::ExecutionErr("missing requirements".to_string()))
    );
}

#[test]
fn transforms_for_typed_parameters() {
    let sig = vec![
        ("b".to_string(), ParamTyp::Bytes),
        ("when".to_string(), ParamTyp::Datetime),
        ("x".to_string(), ParamTyp::Other),
    ];
    let t = python_transforms(&sig);
    let expected = "if \"b\" in kwargs and kwargs[\"b\"] is not None:\n    kwargs[\"b\"] = base64.b64decode(kwargs[\"b\"])\nif \"when\" in kwargs and kwargs[\"when\"] is not None:\n    kwargs[\"when\"] = datetime.strptime(kwargs[\"when\"], '%Y-%m-%dT%H:%M')\n";
    assert_eq!(t, expected);
    let empty: Vec<(String, ParamTyp)> = Vec::new();
    assert_eq!(python_transforms(&empty), "");
}

#[test]
fn python_wrapper_text_shape() {
    let w = python_wrapper("TRANSFORMS\n");
    assert!(w.starts_with("\nimport json\nimport base64\nfrom datetime import datetime\n"));
    assert!(w.contains("inner_script = __import__(\"inner\")"));
    assert!(w.contains("with open(\"args.json\") as f:\n    kwargs = json.load(f, strict=False)"));
    assert!(w.contains("if v == '<function call>':\n        del kwargs[k]\nTRANSFORMS\n\nres = inner_script.main(**kwargs)"));
    assert!(w.contains("json.dumps(res, separators=(',', ':'), default=str).replace('\\n', '')"));
    assert!(w.ends_with("print()\nprint(\"result:\")\nprint(res_json)\n"));
}

#[test]
fn deno_wrapper_text_shape() {
    let sig = vec![
        ("a".to_string(), ParamTyp::Other),
        ("b".to_string(), ParamTyp::Other),
    ];
    let spread = deno_spread(&sig);
    assert_eq!(spread, "a,b");
    let w = deno_wrapper(&spread);
    assert!(w.starts_with("\nimport { main } from \"./inner.ts\";\n"));
    assert!(w.contains(".then(({ a,b }) => [ a,b ])"));
    assert!(w.contains("let res: any = await main(...args);"));
    assert!(w.contains("typeof value === 'undefined' ? null : value"));
    assert!(w.ends_with("Deno.exit(0);\n}\nrun();\n"));
}

#[test]
fn sandbox_template_substitution() {
    let pairs = vec![
        ("{JOB_DIR}".to_string(), "/tmp/w/j".to_string()),
        ("{WORKER_DIR}".to_string(), "/tmp/w".to_string()),
        ("{CACHE_DIR}".to_string(), "/tmp/cache".to_string()),
        ("{CLONE_NEWUSER}".to_string(), "true".to_string()),
    ];
    let rendered = substitute_placeholders(
        "mount {JOB_DIR} and {JOB_DIR}/dependencies under {WORKER_DIR}; cache {CACHE_DIR}; clone_newuser: {CLONE_NEWUSER}",
        &pairs,
    );
    assert_eq!(
        rendered,
        "mount /tmp/w/j and /tmp/w/j/dependencies under /tmp/w; cache /tmp/cache; clone_newuser: true"
    );
}

#[test]
fn command_lines() {
    let c = python_install_command(false);
    assert_eq!(c.program, "nsjail");
    assert_eq!(c.args, vec!["--config", "download.config.proto"]);
    let c = python_install_command(true);
    assert_eq!(c.program, "/usr/local/bin/python3");
    assert_eq!(
        c.args,
        vec![
            "-m",
            "pip",
            "install",
            "--no-color",
            "--isolated",
            "--no-warn-conflicts",
            "--disable-pip-version-check",
            "-t",
            "./dependencies",
            "-r",
            "./requirements.txt"
        ]
    );
    let c = python_run_command(false);
    assert_eq!(c.program, "nsjail");
    assert_eq!(
        c.args,
        vec!["--config", "run.config.proto", "--", "/usr/local/bin/python3", "-u", "/tmp/main.py"]
    );
    let c = python_run_command(true);
    assert_eq!(c.program, "/usr/local/bin/python3");
    assert_eq!(c.args, vec!["-u", "main.py"]);
    let c = deno_run_command(false);
    assert_eq!(c.program, "nsjail");
    assert_eq!(
        c.args,
        vec![
            "--config",
            "run.config.proto",
            "--",
            "/usr/bin/deno",
            "run",
            "--unstable",
            "--v8-flags=--max-heap-size=2048",
            "-A",
            "/tmp/main.ts"
        ]
    );
    let c = deno_run_command(true);
    assert_eq!(c.program, "/usr/bin/deno");
    assert_eq!(
        c.args,
        vec!["run", "--unstable", "--v8-flags=--max-heap-size=2048", "-A", "main.ts"]
    );
    let c = pip_compile_command();
    assert_eq!(c.program, "pip-compile");
    assert_eq!(c.args, vec!["-q", "--no-header", "requirements.in"]);
}

#[test]
fn clone_newuser_text() {
    assert_eq!(worker_core::runner::bool_text(true), "true");
    assert_eq!(worker_core::runner::bool_text(false), "false");
}

#[test]
fn environment_entries() {
    assert_eq!(
        python_path_env(true, "/tmp/w/j"),
        Some(("PYTHONPATH".to_string(), "/tmp/w/j/dependencies".to_string()))
    );
    assert_eq!(python_path_env(false, "/tmp/w/j"), None);
    let (k, v) = worker_core::runner::deno_log_env();
    assert_eq!(k, "RUST_LOG");
    assert_eq!(v, "info");
}

#[test]
fn token_parameters() {
    assert_eq!(token_label(), "ephemeral-script");
    assert_eq!(token_expiry_ms(1_000, 2), 5_000);
    assert_eq!(token_expiry_ms(0, 0), 0);
}

#[test]
fn content_requirements() {
    assert_eq!(preview_code(&Some("def main(): pass".to_string())), "def main(): pass");
    assert_eq!(preview_code(&None), "no raw code");
    assert_eq!(
        resolve_script_row(Some(("code".to_string(), None, Some(ScriptLang::Deno)))),
        Ok(("code".to_string(), None, Some(ScriptLang::Deno)))
    );
    assert_eq!(
        resolve_script_row(None),
        Err(JobError::InternalErr("expected content and lock".to_string()))
    );
    assert_eq!(require_language(Some(ScriptLang::Python3)), Ok(ScriptLang::Python3));
    assert_eq!(
        require_language(None),
        Err(JobError::ExecutionErr("Require language to be not null".to_string()))
    );
    assert_eq!(require_lockfile(Some("foo==1".to_string())), Ok("foo==1".to_string()));
    assert_eq!(
        require_lockfile(None),
        Err(JobError::InternalErr("lockfile missing".to_string()))
    );
}

#[test]
fn creator_email() {
    assert_eq!(
        worker_core::runner::email_or_fallback(Some("a@b.c".to_string())),
        "a@b.c"
    );
    assert_eq!(
        worker_core::runner::email_or_fallback(None),
        "nosuitable@email.xyz"
    );
}

#[test]
fn log_header() {
    assert_eq!(job_header("j1", "w1"), "job j1 on worker w1\n");
}

#[test]
fn one_completion_per_job() {
    // a handled job obliges exactly one completion record
    let p = dispatch_plan(JobKind::Script, false, Ok("42".to_string()));
    assert!(!p.delegate_to_flow);
    assert_eq!(p.completion, Some(CompletionCall::AddCompleted { result: "42".to_string() }));
    assert_eq!(p.update_flow_status, None);

    let err = JobError::ExecutionErr("boom".to_string());
    let p = dispatch_plan(JobKind::Preview, true, Err(err.clone()));
    assert!(!p.delegate_to_flow);
    assert_eq!(p.completion, Some(CompletionCall::AddCompletedError { error: err }));
    assert_eq!(p.update_flow_status, Some(false));

    let p = dispatch_plan(JobKind::Flow, false, Ok("{}".to_string()));
    assert!(p.delegate_to_flow);
    assert_eq!(p.completion, None);
    assert_eq!(p.update_flow_status, None);
}

#[test]
fn dispatcher_timing() {
    assert!(should_ping_worker(16));
    assert!(!should_ping_worker(15));
    assert_eq!(poll_pause_ms(50, 4), 200);
}

#[test]
fn escalation() {
    assert_eq!(unexpected_job_error_prefix(), "Unexpected error during job execution:\n");
    let e = JobError::InternalErr("db down".to_string());
    assert_eq!(
        flow_escalation_message(&e),
        "Unexpected error during flow job error handling:\ndb down"
    );
    assert!(escalate_to_parent(&Some("p".to_string()), true));
    assert!(!escalate_to_parent(&Some("p".to_string()), false));
    assert!(!escalate_to_parent(&None, true));
    assert_eq!(require_parent(&Some("p".to_string())), Ok(&"p".to_string()));
    assert_eq!(
        require_parent(&None),
        Err(JobError::InternalErr("expected parent job".to_string()))
    );
}

#[test]
fn language_labels() {
    assert_eq!(ScriptLang::Python3.as_str(), "python3");
    assert_eq!(ScriptLang::Deno.as_str(), "deno");
    let j = plain_job(JobKind::Script);
    assert_eq!(j.language.as_ref().map(|l| l.as_str()).unwrap_or(""), "python3");
    let e = JobError::ExecutionErr("m".to_string());
    assert_eq!(e.message(), "m");
}

#[test]
fn resolved_args_reach_the_child() {
    // the wrapper reads args.json; a resolved argument object arrives
    // as the child's kwargs text
    let store = worker_core::args::ResolutionStore {
        vars: Vec::new(),
        resources: vec![(
            "foo/bar".to_string(),
            JsonValue::Obj(vec![("k".to_string(), JsonValue::Str("v".to_string()))]),
        )],
    };
    let args = Some(JsonValue::Obj(vec![(
        "conf".to_string(),
        JsonValue::Str("$res:foo/bar".to_string()),
    )]));
    let text = worker_core::runner::serialize_resolved_args(&args, &store, 16);
    assert_eq!(text, "{\"conf\":{\"k\":\"v\"}}");
}
