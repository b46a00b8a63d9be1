//! Preparing a job's working directory and child process: the wrapper
//! scripts written next to the user's code, the interpreter and
//! sandbox command lines, the sandbox-template substitutions, the
//! extra environment entries, and the ephemeral token's parameters.

use crate::args::ResolutionStore;
use crate::args::resolve_spec;
use crate::json::json_text_of;
use crate::json::JsonValue;
use crate::json::to_json_string;
use crate::args::transform_json_value;
use crate::model::JobError;
use crate::model::ParamTyp;
use crate::model::ScriptLang;
use crate::text::join_with;
use crate::text::join_strings;
use crate::text::replace_all;
use crate::text::replace_all_spec;
use vstd::prelude::*;
use vstd::string::StringExecFns;

verus! {

// ---------------------------------------------------------------
// sandbox templates
// ---------------------------------------------------------------
/// `t` with every pair's placeholder replaced by its text, first pair
/// first.
pub open spec fn substitute_spec(t: Seq<char>, pairs: Seq<(Seq<char>, Seq<char>)>) -> Seq<char>
    decreases pairs.len(),
{
    if pairs.len() == 0 {
        t
    } else {
        substitute_spec(replace_all_spec(t, pairs[0].0, pairs[0].1), pairs.skip(1))
    }
}

/// Renders a sandbox configuration template: each pair is a
/// placeholder and its replacement, substituted in turn by plain text
/// replacement.
pub fn substitute_placeholders(template: &str, pairs: &Vec<(String, String)>) -> (r: String)
    ensures
        r@ == substitute_spec(template@, crate::args::var_pairs_view(pairs@)),
{
    let ghost pv = crate::args::var_pairs_view(pairs@);
    proof {
        crate::args::lemma_var_pairs_view(pairs@);
    }
    let mut cur = String::from_str(template);
    let mut i: usize = 0;
    proof {
        assert(pv.skip(0) =~= pv);
    }
    while i < pairs.len()
        invariant
            0 <= i <= pairs@.len(),
            pv.len() == pairs@.len(),
            forall|j: int| 0 <= j < pairs@.len() ==> pv[j] == (
                #[trigger] pairs@[j].0@,
                pairs@[j].1@,
            ),
            substitute_spec(template@, pv) == substitute_spec(cur@, pv.skip(i as int)),
        decreases pairs@.len() - i,
    {
        let pair = &pairs[i];
        cur = replace_all(cur.as_str(), pair.0.as_str(), pair.1.as_str());
        proof {
            assert(pv.skip(i as int)[0] == pv[i as int]);
            assert(pv.skip(i as int).skip(1) =~= pv.skip(i + 1));
        }
        i += 1;
    }
    proof {
        assert(pv.skip(pv.len() as int) =~= Seq::<(Seq<char>, Seq<char>)>::empty());
    }
    cur
}

/// The text substituted for the user-namespace placeholder: whether
/// the sandbox is to clone a new user namespace.
pub fn bool_text(b: bool) -> (r: &'static str)
    ensures
        b ==> r@ == "true"@,
        !b ==> r@ == "false"@,
{
    if b {
        "true"
    } else {
        "false"
    }
}

// ---------------------------------------------------------------
// entrypoint signatures and wrapper scripts
// ---------------------------------------------------------------
/// The names of the entrypoint's parameters, in order.
pub open spec fn names_view(sig: Seq<(String, ParamTyp)>) -> Seq<Seq<char>>
    decreases sig,
{
    if sig.len() == 0 {
        Seq::empty()
    } else {
        names_view(sig.drop_last()).push(sig.last().0@)
    }
}

pub proof fn lemma_names_view(sig: Seq<(String, ParamTyp)>)
    ensures
        names_view(sig).len() == sig.len(),
        forall|i: int| 0 <= i < sig.len() ==> names_view(sig)[i] == #[trigger] sig[i].0@,
    decreases sig,
{
    if sig.len() > 0 {
        lemma_names_view(sig.drop_last());
        assert forall|i: int| 0 <= i < sig.len() implies names_view(sig)[i] == #[trigger] sig[
            i
        ].0@ by {
            if i < sig.len() - 1 {
                assert(sig.drop_last()[i] == sig[i]);
            } else {
                assert(sig.last() == sig[i]);
            }
        }
    }
}

/// The kwargs transform emitted for one parameter of type bytes: its
/// value is base64-decoded before the call.
pub open spec fn bytes_transform_text(n: Seq<char>) -> Seq<char> {
    "if \""@ + n + "\" in kwargs and kwargs[\""@ + n + "\"] is not None:\n    kwargs[\""@ + n
        + "\"] = base64.b64decode(kwargs[\""@ + n + "\"])\n"@
}

/// The kwargs transform emitted for one parameter of type datetime:
/// its value is parsed from ISO text before the call.
pub open spec fn datetime_transform_text(n: Seq<char>) -> Seq<char> {
    "if \""@ + n + "\" in kwargs and kwargs[\""@ + n + "\"] is not None:\n    kwargs[\""@ + n
        + "\"] = datetime.strptime(kwargs[\""@ + n + "\"], '%Y-%m-%dT%H:%M')\n"@
}

/// The transform one parameter contributes, by its declared type.
pub open spec fn transform_text(arg: (Seq<char>, ParamTyp)) -> Seq<char> {
    match arg.1 {
        ParamTyp::Bytes => bytes_transform_text(arg.0),
        ParamTyp::Datetime => datetime_transform_text(arg.0),
        ParamTyp::Other => Seq::empty(),
    }
}

/// The models of a signature's parameters, elementwise.
pub open spec fn sig_view(sig: Seq<(String, ParamTyp)>) -> Seq<(Seq<char>, ParamTyp)>
    decreases sig,
{
    if sig.len() == 0 {
        Seq::empty()
    } else {
        sig_view(sig.drop_last()).push((sig.last().0@, sig.last().1))
    }
}

/// All transforms of a signature, concatenated in parameter order.
pub open spec fn transforms_text(sig: Seq<(Seq<char>, ParamTyp)>) -> Seq<char>
    decreases sig,
{
    if sig.len() == 0 {
        Seq::empty()
    } else {
        transforms_text(sig.drop_last()) + transform_text(sig.last())
    }
}

fn append_transform(n: &String, typ: ParamTyp, out: &mut String)
    ensures
        final(out)@ == old(out)@ + transform_text((n@, typ)),
{
    match typ {
        ParamTyp::Bytes => {
            out.append("if \"");
            out.append(n.as_str());
            out.append("\" in kwargs and kwargs[\"");
            out.append(n.as_str());
            out.append("\"] is not None:\n    kwargs[\"");
            out.append(n.as_str());
            out.append("\"] = base64.b64decode(kwargs[\"");
            out.append(n.as_str());
            out.append("\"])\n");
            proof {
                assert(final(out)@ =~= old(out)@ + bytes_transform_text(n@));
            }
        },
        ParamTyp::Datetime => {
            out.append("if \"");
            out.append(n.as_str());
            out.append("\" in kwargs and kwargs[\"");
            out.append(n.as_str());
            out.append("\"] is not None:\n    kwargs[\"");
            out.append(n.as_str());
            out.append("\"] = datetime.strptime(kwargs[\"");
            out.append(n.as_str());
            out.append("\"], '%Y-%m-%dT%H:%M')\n");
            proof {
                assert(final(out)@ =~= old(out)@ + datetime_transform_text(n@));
            }
        },
        ParamTyp::Other => {
            proof {
                assert(old(out)@ + transform_text((n@, typ)) =~= old(out)@);
            }
        },
    }
}

/// Renders the kwargs transforms for a parsed entrypoint signature.
pub fn python_transforms(sig: &Vec<(String, ParamTyp)>) -> (r: String)
    ensures
        r@ == transforms_text(sig_view(sig@)),
{
    let ghost sv = sig_view(sig@);
    proof {
        lemma_sig_view(sig@);
    }
    let mut out = String::new();
    let mut i: usize = 0;
    proof {
        assert(sv.take(0) =~= Seq::<(Seq<char>, ParamTyp)>::empty());
    }
    while i < sig.len()
        invariant
            0 <= i <= sig@.len(),
            sv.len() == sig@.len(),
            forall|j: int| 0 <= j < sig@.len() ==> sv[j] == (
                #[trigger] sig@[j].0@,
                sig@[j].1,
            ),
            out@ == transforms_text(sv.take(i as int)),
        decreases sig@.len() - i,
    {
        let pair = &sig[i];
        append_transform(&pair.0, pair.1, &mut out);
        proof {
            assert(sv.take(i + 1).drop_last() =~= sv.take(i as int));
            assert(sv.take(i + 1).last() == sv[i as int]);
        }
        i += 1;
    }
    proof {
        assert(sv.take(sv.len() as int) =~= sv);
    }
    out
}

pub proof fn lemma_sig_view(sig: Seq<(String, ParamTyp)>)
    ensures
        sig_view(sig).len() == sig.len(),
        forall|i: int| 0 <= i < sig.len() ==> sig_view(sig)[i] == (
            #[trigger] sig[i].0@,
            sig[i].1,
        ),
    decreases sig,
{
    if sig.len() > 0 {
        lemma_sig_view(sig.drop_last());
        assert forall|i: int| 0 <= i < sig.len() implies sig_view(sig)[i] == (
            #[trigger] sig[i].0@,
            sig[i].1,
        ) by {
            if i < sig.len() - 1 {
                assert(sig.drop_last()[i] == sig[i]);
            } else {
                assert(sig.last() == sig[i]);
            }
        }
    }
}

/// The wrapper run in place of the user's code for a Python job: it
/// loads the resolved arguments, drops placeholders for function
/// calls, applies the transforms, calls the entrypoint and prints the
/// result as one compact JSON line after a `result:` marker.
pub open spec fn python_wrapper_text(transforms: Seq<char>) -> Seq<char> {
    "\nimport json\nimport base64\nfrom datetime import datetime\n\ninner_script = __import__(\"inner\")\n\nwith open(\"args.json\") as f:\n    kwargs = json.load(f, strict=False)\nfor k, v in list(kwargs.items()):\n    if v == '<function call>':\n        del kwargs[k]\n"@
        + transforms
        + "\nres = inner_script.main(**kwargs)\nres_json = json.dumps(res, separators=(',', ':'), default=str).replace('\\n', '')\nprint()\nprint(\"result:\")\nprint(res_json)\n"@
}

/// Renders the Python wrapper with the given transforms inserted.
pub fn python_wrapper(transforms: &str) -> (r: String)
    ensures
        r@ == python_wrapper_text(transforms@),
{
    let mut out = String::from_str(
        "\nimport json\nimport base64\nfrom datetime import datetime\n\ninner_script = __import__(\"inner\")\n\nwith open(\"args.json\") as f:\n    kwargs = json.load(f, strict=False)\nfor k, v in list(kwargs.items()):\n    if v == '<function call>':\n        del kwargs[k]\n",
    );
    out.append(transforms);
    out.append(
        "\nres = inner_script.main(**kwargs)\nres_json = json.dumps(res, separators=(',', ':'), default=str).replace('\\n', '')\nprint()\nprint(\"result:\")\nprint(res_json)\n",
    );
    proof {
        assert(out@ =~= python_wrapper_text(transforms@));
    }
    out
}

/// The parameter names destructured by the TypeScript wrapper,
/// comma-separated.
pub open spec fn spread_text(sig: Seq<(String, ParamTyp)>) -> Seq<char> {
    join_with(names_view(sig), ","@)
}

/// Renders the comma-separated parameter names of the signature.
pub fn deno_spread(sig: &Vec<(String, ParamTyp)>) -> (r: String)
    ensures
        r@ == spread_text(sig@),
{
    proof {
        lemma_names_view(sig@);
    }
    let mut names: Vec<String> = Vec::new();
    let mut i: usize = 0;
    while i < sig.len()
        invariant
            0 <= i <= sig@.len(),
            names@.len() == i,
            forall|j: int| 0 <= j < i ==> names@[j] == #[trigger] sig@[j].0,
        decreases sig@.len() - i,
    {
        names.push(sig[i].0.clone());
        i += 1;
    }
    proof {
        assert forall|k: int| 0 <= k < names.deep_view().len() implies names.deep_view()[k]
            == names_view(sig@)[k] by {
            assert(names@[k] == sig@[k].0);
        }
        assert(names.deep_view() =~= names_view(sig@));
    }
    join_strings(&names, ",")
}

/// The wrapper run in place of the user's code for a TypeScript job:
/// it reads the resolved arguments, destructures them by parameter
/// name, calls the entrypoint and prints the result as one JSON line
/// after a `result:` marker, with `undefined` read as `null`.
pub open spec fn deno_wrapper_text(spread: Seq<char>) -> Seq<char> {
    "\nimport { main } from \"./inner.ts\";\n\nconst args = await Deno.readTextFile(\"args.json\")\n    .then(JSON.parse)\n    .then(({ "@
        + spread + " }) => [ "@ + spread
        + " ])\n\nasync function run() {\n    let res: any = await main(...args);\n    const res_json = JSON.stringify(res ?? null, (key, value) => typeof value === 'undefined' ? null : value);\n    console.log();\n    console.log(\"result:\");\n    console.log(res_json);\n    Deno.exit(0);\n}\nrun();\n"@
}

/// Renders the TypeScript wrapper with the given spread inserted.
pub fn deno_wrapper(spread: &str) -> (r: String)
    ensures
        r@ == deno_wrapper_text(spread@),
{
    let mut out = String::from_str(
        "\nimport { main } from \"./inner.ts\";\n\nconst args = await Deno.readTextFile(\"args.json\")\n    .then(JSON.parse)\n    .then(({ ",
    );
    out.append(spread);
    out.append(" }) => [ ");
    out.append(spread);
    out.append(
        " ])\n\nasync function run() {\n    let res: any = await main(...args);\n    const res_json = JSON.stringify(res ?? null, (key, value) => typeof value === 'undefined' ? null : value);\n    console.log();\n    console.log(\"result:\");\n    console.log(res_json);\n    Deno.exit(0);\n}\nrun();\n",
    );
    proof {
        assert(out@ =~= deno_wrapper_text(spread@));
    }
    out
}

// ---------------------------------------------------------------
// the resolved arguments file
// ---------------------------------------------------------------
/// The content of the arguments file handed to the child: the job's
/// arguments with placeholders resolved, as compact JSON; absent
/// arguments serialize as `null`.
pub fn serialize_resolved_args(
    job_args: &Option<JsonValue>,
    store: &ResolutionStore,
    fuel: u32,
) -> (r: String)
    ensures
        match job_args {
            Option::Some(v) => r@ == json_text_of(resolve_spec(v@, store@, fuel as nat)),
            Option::None => r@ == "null"@,
        },
{
    match job_args {
        Option::Some(v) => {
            let resolved = transform_json_value(v, store, fuel);
            to_json_string(&resolved)
        },
        Option::None => String::from_str("null"),
    }
}

// ---------------------------------------------------------------
// child command lines
// ---------------------------------------------------------------
/// A child process to spawn: its program and arguments, in order.
pub struct ChildCommand {
    pub program: String,
    pub args: Vec<String>,
}

fn push_arg(args: &mut Vec<String>, a: &str)
    ensures
        final(args)@.len() == old(args)@.len() + 1,
        final(args).deep_view() == old(args).deep_view().push(a@),
{
    args.push(String::from_str(a));
    proof {
        assert(final(args).deep_view() =~= old(args).deep_view().push(a@));
    }
}

/// The sandbox invocation that installs a Python job's dependencies
/// under the download configuration.
pub fn nsjail_download_command() -> (r: ChildCommand)
    ensures
        r.program@ == "nsjail"@,
        r.args.deep_view() == seq!["--config"@, "download.config.proto"@],
{
    let mut args: Vec<String> = Vec::new();
    push_arg(&mut args, "--config");
    push_arg(&mut args, "download.config.proto");
    proof {
        assert(args.deep_view() =~= seq!["--config"@, "download.config.proto"@]);
    }
    ChildCommand { program: String::from_str("nsjail"), args }
}

/// The direct package-manager invocation that installs a Python job's
/// dependencies when the sandbox is disabled.
pub fn pip_install_command() -> (r: ChildCommand)
    ensures
        r.program@ == "/usr/local/bin/python3"@,
        r.args.deep_view() == seq![
            "-m"@,
            "pip"@,
            "install"@,
            "--no-color"@,
            "--isolated"@,
            "--no-warn-conflicts"@,
            "--disable-pip-version-check"@,
            "-t"@,
            "./dependencies"@,
            "-r"@,
            "./requirements.txt"@,
        ],
{
    let mut args: Vec<String> = Vec::new();
    push_arg(&mut args, "-m");
    push_arg(&mut args, "pip");
    push_arg(&mut args, "install");
    push_arg(&mut args, "--no-color");
    push_arg(&mut args, "--isolated");
    push_arg(&mut args, "--no-warn-conflicts");
    push_arg(&mut args, "--disable-pip-version-check");
    push_arg(&mut args, "-t");
    push_arg(&mut args, "./dependencies");
    push_arg(&mut args, "-r");
    push_arg(&mut args, "./requirements.txt");
    proof {
        assert(args.deep_view() =~= seq![
            "-m"@,
            "pip"@,
            "install"@,
            "--no-color"@,
            "--isolated"@,
            "--no-warn-conflicts"@,
            "--disable-pip-version-check"@,
            "-t"@,
            "./dependencies"@,
            "-r"@,
            "./requirements.txt"@,
        ]);
    }
    ChildCommand { program: String::from_str("/usr/local/bin/python3"), args }
}

/// How a Python job's dependencies are installed: sandboxed under the
/// download configuration, or directly when the sandbox is disabled.
pub fn python_install_command(disable_nsjail: bool) -> (r: ChildCommand)
    ensures
        !disable_nsjail ==> r.program@ == "nsjail"@ && r.args.deep_view() == seq![
            "--config"@,
            "download.config.proto"@,
        ],
        disable_nsjail ==> r.program@ == "/usr/local/bin/python3"@ && r.args.deep_view() == seq![
            "-m"@,
            "pip"@,
            "install"@,
            "--no-color"@,
            "--isolated"@,
            "--no-warn-conflicts"@,
            "--disable-pip-version-check"@,
            "-t"@,
            "./dependencies"@,
            "-r"@,
            "./requirements.txt"@,
        ],
{
    if !disable_nsjail {
        nsjail_download_command()
    } else {
        pip_install_command()
    }
}

/// How a Python job's code runs: sandboxed under the run
/// configuration, or directly when user namespacing is disabled.
pub fn python_run_command(disable_nuser: bool) -> (r: ChildCommand)
    ensures
        !disable_nuser ==> r.program@ == "nsjail"@ && r.args.deep_view() == seq![
            "--config"@,
            "run.config.proto"@,
            "--"@,
            "/usr/local/bin/python3"@,
            "-u"@,
            "/tmp/main.py"@,
        ],
        disable_nuser ==> r.program@ == "/usr/local/bin/python3"@ && r.args.deep_view() == seq![
            "-u"@,
            "main.py"@,
        ],
{
    let mut args: Vec<String> = Vec::new();
    if !disable_nuser {
        push_arg(&mut args, "--config");
        push_arg(&mut args, "run.config.proto");
        push_arg(&mut args, "--");
        push_arg(&mut args, "/usr/local/bin/python3");
        push_arg(&mut args, "-u");
        push_arg(&mut args, "/tmp/main.py");
        proof {
            assert(args.deep_view() =~= seq![
                "--config"@,
                "run.config.proto"@,
                "--"@,
                "/usr/local/bin/python3"@,
                "-u"@,
                "/tmp/main.py"@,
            ]);
        }
        ChildCommand { program: String::from_str("nsjail"), args }
    } else {
        push_arg(&mut args, "-u");
        push_arg(&mut args, "main.py");
        proof {
            assert(args.deep_view() =~= seq!["-u"@, "main.py"@]);
        }
        ChildCommand { program: String::from_str("/usr/local/bin/python3"), args }
    }
}

/// How a TypeScript job's code runs: sandboxed under the run
/// configuration, or directly when the sandbox is disabled; either
/// way with the interpreter's unstable APIs, a bounded heap, and all
/// permissions.
pub fn deno_run_command(disable_nsjail: bool) -> (r: ChildCommand)
    ensures
        !disable_nsjail ==> r.program@ == "nsjail"@ && r.args.deep_view() == seq![
            "--config"@,
            "run.config.proto"@,
            "--"@,
            "/usr/bin/deno"@,
            "run"@,
            "--unstable"@,
            "--v8-flags=--max-heap-size=2048"@,
            "-A"@,
            "/tmp/main.ts"@,
        ],
        disable_nsjail ==> r.program@ == "/usr/bin/deno"@ && r.args.deep_view() == seq![
            "run"@,
            "--unstable"@,
            "--v8-flags=--max-heap-size=2048"@,
            "-A"@,
            "main.ts"@,
        ],
{
    let mut args: Vec<String> = Vec::new();
    if !disable_nsjail {
        push_arg(&mut args, "--config");
        push_arg(&mut args, "run.config.proto");
        push_arg(&mut args, "--");
        push_arg(&mut args, "/usr/bin/deno");
        push_arg(&mut args, "run");
        push_arg(&mut args, "--unstable");
        push_arg(&mut args, "--v8-flags=--max-heap-size=2048");
        push_arg(&mut args, "-A");
        push_arg(&mut args, "/tmp/main.ts");
        proof {
            assert(args.deep_view() =~= seq![
                "--config"@,
                "run.config.proto"@,
                "--"@,
                "/usr/bin/deno"@,
                "run"@,
                "--unstable"@,
                "--v8-flags=--max-heap-size=2048"@,
                "-A"@,
                "/tmp/main.ts"@,
            ]);
        }
        ChildCommand { program: String::from_str("nsjail"), args }
    } else {
        push_arg(&mut args, "run");
        push_arg(&mut args, "--unstable");
        push_arg(&mut args, "--v8-flags=--max-heap-size=2048");
        push_arg(&mut args, "-A");
        push_arg(&mut args, "main.ts");
        proof {
            assert(args.deep_view() =~= seq![
                "run"@,
                "--unstable"@,
                "--v8-flags=--max-heap-size=2048"@,
                "-A"@,
                "main.ts"@,
            ]);
        }
        ChildCommand { program: String::from_str("/usr/bin/deno"), args }
    }
}

/// The pinning tool a dependency job runs on its requirements file.
pub fn pip_compile_command() -> (r: ChildCommand)
    ensures
        r.program@ == "pip-compile"@,
        r.args.deep_view() == seq!["-q"@, "--no-header"@, "requirements.in"@],
{
    let mut args: Vec<String> = Vec::new();
    push_arg(&mut args, "-q");
    push_arg(&mut args, "--no-header");
    push_arg(&mut args, "requirements.in");
    proof {
        assert(args.deep_view() =~= seq!["-q"@, "--no-header"@, "requirements.in"@]);
    }
    ChildCommand { program: String::from_str("pip-compile"), args }
}

// ---------------------------------------------------------------
// environment and token
// ---------------------------------------------------------------
/// The extra environment entry for a Python child: the dependency
/// directory goes on the module path exactly when the run is not
/// sandboxed.
pub fn python_path_env(disable_nuser: bool, job_dir: &str) -> (r: Option<(String, String)>)
    ensures
        disable_nuser ==> (r matches Option::Some(p) && p.0@ == "PYTHONPATH"@ && p.1@ == job_dir@
            + "/dependencies"@),
        !disable_nuser ==> r is None,
{
    if disable_nuser {
        let mut path = String::from_str(job_dir);
        path.append("/dependencies");
        Option::Some((String::from_str("PYTHONPATH"), path))
    } else {
        Option::None
    }
}

/// The extra environment entry for a TypeScript child: the logging
/// level its interpreter reads.
pub fn deno_log_env() -> (r: (String, String))
    ensures
        r.0@ == "RUST_LOG"@,
        r.1@ == "info"@,
{
    (String::from_str("RUST_LOG"), String::from_str("info"))
}

/// The label of the ephemeral token issued to the job's principal.
pub fn token_label() -> (r: &'static str)
    ensures
        r@ == "ephemeral-script"@,
{
    "ephemeral-script"
}

/// When the job's ephemeral token expires: twice the timeout past
/// now, in milliseconds since the epoch.
pub fn token_expiry_ms(now_ms: i64, timeout: i32) -> (r: i64)
    requires
        0 <= now_ms < 0x4000000000000000,
        0 <= timeout,
    ensures
        r == now_ms + 2000 * (timeout as int),
{
    now_ms + 2000 * (timeout as i64)
}

// ---------------------------------------------------------------
// resolving what to run
// ---------------------------------------------------------------
/// The code of a preview job: its inline code, or a stand-in when
/// none came.
pub fn preview_code(raw_code: &Option<String>) -> (r: String)
    ensures
        match raw_code {
            Option::Some(c) => r@ == c@,
            Option::None => r@ == "no raw code"@,
        },
{
    match raw_code {
        Option::Some(c) => c.clone(),
        Option::None => String::from_str("no raw code"),
    }
}

/// The stored script a non-preview job runs: the row read under the
/// job's hash, or an internal error when no row exists.
pub fn resolve_script_row(row: Option<(String, Option<String>, Option<ScriptLang>)>) -> (r: Result<
    (String, Option<String>, Option<ScriptLang>),
    JobError,
>)
    ensures
        match row {
            Option::Some(t) => r == Result::<(String, Option<String>, Option<ScriptLang>),
                JobError,
            >::Ok(t),
            Option::None => r is Err && r->Err_0 is InternalErr && r->Err_0->InternalErr_0@
                == "expected content and lock"@,
        },
{
    match row {
        Option::Some(t) => Result::Ok(t),
        Option::None => Result::Err(
            JobError::InternalErr(String::from_str("expected content and lock")),
        ),
    }
}

/// A job can only run with a language; a null language is refused.
pub fn require_language(language: Option<ScriptLang>) -> (r: Result<ScriptLang, JobError>)
    ensures
        match language {
            Option::Some(l) => r == Result::<ScriptLang, JobError>::Ok(l),
            Option::None => r is Err && r->Err_0 is ExecutionErr && r->Err_0->ExecutionErr_0@
                == "Require language to be not null"@,
        },
{
    match language {
        Option::Some(l) => Result::Ok(l),
        Option::None => Result::Err(
            JobError::ExecutionErr(String::from_str("Require language to be not null")),
        ),
    }
}

/// A Python job can only run with a pinned lockfile at hand; the
/// runner never generates one itself.
pub fn require_lockfile(requirements: Option<String>) -> (r: Result<String, JobError>)
    ensures
        match requirements {
            Option::Some(l) => r == Result::<String, JobError>::Ok(l),
            Option::None => r is Err && r->Err_0 is InternalErr && r->Err_0->InternalErr_0@
                == "lockfile missing"@,
        },
{
    match requirements {
        Option::Some(l) => Result::Ok(l),
        Option::None => Result::Err(JobError::InternalErr(String::from_str("lockfile missing"))),
    }
}

/// The creator's email as exposed to the child, with the stand-in
/// address used when none is known.
pub fn email_or_fallback(email: Option<String>) -> (r: String)
    ensures
        match email {
            Option::Some(e) => r == e,
            Option::None => r@ == "nosuitable@email.xyz"@,
        },
{
    match email {
        Option::Some(e) => e,
        Option::None => String::from_str("nosuitable@email.xyz"),
    }
}

/// The line opening a job's log: which job runs on which worker.
pub fn job_header(id: &str, worker: &str) -> (r: String)
    ensures
        r@ == "job "@ + id@ + " on worker "@ + worker@ + "\n"@,
{
    let mut out = String::from_str("job ");
    out.append(id);
    out.append(" on worker ");
    out.append(worker);
    out.append("\n");
    proof {
        assert(out@ =~= "job "@ + id@ + " on worker "@ + worker@ + "\n"@);
    }
    out
}

} // verus!
