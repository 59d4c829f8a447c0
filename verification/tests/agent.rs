use edge_orchestrator::agent::llm::{
    analysis_prompt, chat_args, content_of, llm_chat, plan_prompt, revise_prompt, ChatError,
    ChatOutput, Prompt,
};
use edge_orchestrator::agent::plan::{
    extract_json, heuristic_plan, parse_plan, plan_of, Plan, PlanError,
};
use edge_orchestrator::agent::session::{
    decode, describe, expand_socket, first_plan, heuristic_analysis, outcome_of, read_answer, rpc,
    rpc_request, submission, Session, SessionStep, Waiting, MAX_POLLS,
};
use edge_orchestrator::agent::settings::{
    config_path, llm_config, pick, read_config_file, warn_if_public, LlmConfig,
};
use edge_orchestrator::agent::workspace::{DirEntry, Walk, WalkStep, WorkspaceInfo, MAX_FILES};
use edge_orchestrator::outside::json::Json;
use edge_orchestrator::table::TextTable;

fn info(files: &[&str]) -> WorkspaceInfo {
    WorkspaceInfo {
        root: "/tmp/x".to_string(),
        files: files.iter().map(|s| s.to_string()).collect(),
    }
}

fn texts(v: &[&str]) -> Vec<String> {
    v.iter().map(|s| s.to_string()).collect()
}

fn fields(v: Vec<(&str, Json)>) -> Json {
    Json::Fields(v.into_iter().map(|(k, j)| (k.to_string(), j)).collect())
}

#[test]
fn extract_json_takes_object_slice() {
    let s = "noise { 1 } trailing";
    assert_eq!(extract_json(s), "{ 1 }");
}

#[test]
fn heuristic_c_single_file() {
    let p = heuristic_plan(&info(&["main.c"]));
    assert!(p.build_cmd[0].contains("gcc"));
    assert_eq!(p.run_cmd, vec!["./app".to_string()]);
}

#[test]
fn heuristic_cargo_project() {
    let p = heuristic_plan(&info(&["Cargo.toml", "src/main.rs"]));
    assert!(p.build_cmd[0].contains("cargo build"));
}

#[test]
fn heuristic_makefile() {
    let p = heuristic_plan(&info(&["Makefile", "a.c", "b.c"]));
    assert!(p.build_cmd[0].contains("make"));
}

/// What the node answers in turn, each line as it goes over the socket.
fn mock_node(line: &str, polls: &mut u32) -> String {
    let req: serde_json::Value = serde_json::from_str(line.trim()).unwrap();
    let method = req["method"].as_str().unwrap_or("").to_string();
    let id = req["id"].to_string();
    let result = match method.as_str() {
        "submit_project" => r#"{"task_id":"11111111-1111-1111-1111-111111111111"}"#.to_string(),
        "fetch_project_result" => {
            *polls += 1;
            if *polls < 2 {
                r#"{"status":"pending"}"#.to_string()
            } else {
                // "project-hello\n" in base64.
                r#"{"status":"completed","exit_code":0,"stdout":"cHJvamVjdC1oZWxsbwo=","stderr":"","execution_time_ms":1,"executed_on":"22222222-2222-2222-2222-222222222222"}"#.to_string()
            }
        }
        _ => "null".to_string(),
    };
    format!("{{\"jsonrpc\":\"2.0\",\"result\":{result},\"id\":{id}}}\n")
}

#[test]
fn submit_and_wait_roundtrip_against_mock_node() {
    let info = WorkspaceInfo {
        root: ".".to_string(),
        files: Vec::new(),
    };
    let plan = Plan {
        build_cmd: Vec::new(),
        run_cmd: vec!["true".to_string()],
        work_dir: "/root/project".to_string(),
    };
    let mut polls = 0u32;
    let line = rpc_request("submit_project", submission(&info, &plan, &None), 7);
    let answer = rpc("submit_project", &mock_node(&line, &mut polls));
    let mut waiting = Waiting::submitted(answer).unwrap();
    assert_eq!(waiting.task_id, "11111111-1111-1111-1111-111111111111");
    let res = loop {
        let line = rpc_request("fetch_project_result", waiting.question(), 8);
        let answer = rpc("fetch_project_result", &mock_node(&line, &mut polls));
        if let Some(end) = waiting.submit_and_wait(answer) {
            break end.unwrap();
        }
    };
    assert_eq!(polls, 2);
    assert_eq!(res.str_field("status"), Some("completed"));
    assert_eq!(decode(res.str_field("stdout").unwrap()), "project-hello\n");
}

#[test]
fn submission_carries_the_plan() {
    let plan = Plan {
        build_cmd: texts(&["make"]),
        run_cmd: texts(&["./app"]),
        work_dir: "/root/project".to_string(),
    };
    let j = submission(&info(&[]), &plan, &Some("node-1".to_string()));
    assert_eq!(j.str_field("project_dir"), Some("/tmp/x"));
    assert_eq!(j.str_field("work_dir"), Some("/root/project"));
    assert_eq!(j.str_field("target_node"), Some("node-1"));
    assert_eq!(
        j.get("run_cmd"),
        Some(&Json::List(vec![Json::Text("./app".to_string())]))
    );
}

#[test]
fn waiting_gives_up_after_the_last_poll() {
    let mut w = Waiting {
        task_id: "t".to_string(),
        polls: MAX_POLLS - 1,
    };
    let end = w.submit_and_wait(Ok(fields(vec![(
        "status",
        Json::Text("pending".to_string()),
    )])));
    assert!(matches!(end, Some(Err(_))));
    let mut w = Waiting {
        task_id: "t".to_string(),
        polls: 0,
    };
    assert_eq!(
        w.submit_and_wait(Ok(fields(vec![(
            "status",
            Json::Text("pending".to_string()),
        )]))),
        None
    );
    assert_eq!(w.polls, 1);
}

#[test]
fn an_error_answer_is_an_error() {
    let answer = fields(vec![(
        "error",
        fields(vec![("message", Json::Text("nope".to_string()))]),
    )]);
    let err = read_answer("submit_project", answer).unwrap_err();
    assert!(err.contains("nope"), "{err}");
    assert!(rpc("submit_project", "not json").is_err());
    assert!(Waiting::submitted(Ok(fields(vec![]))).is_err());
}

#[test]
fn session_ends_with_the_first_success() {
    let plan = heuristic_plan(&info(&["main.c"]));
    let (mut s, step) = Session::begin(plan, 3, true, false);
    assert_eq!(step, SessionStep::Submit);
    let failed = fields(vec![("exit_code", Json::Unsigned(2))]);
    assert_eq!(s.run(&failed), SessionStep::Revise);
    let again = heuristic_plan(&info(&["Makefile"]));
    assert_eq!(s.revised(Ok(again)), SessionStep::Submit);
    assert!(s.plan.build_cmd[0].contains("make"));
    let done = fields(vec![("exit_code", Json::Unsigned(0))]);
    assert_eq!(s.run(&done), SessionStep::Exit(0));
}

#[test]
fn session_without_a_model_ends_at_the_first_failure() {
    let plan = heuristic_plan(&info(&["main.c"]));
    let (mut s, _) = Session::begin(plan, 1, false, false);
    let failed = fields(vec![("exit_code", Json::Unsigned(3))]);
    assert_eq!(s.run(&failed), SessionStep::Exit(1));
    let (_, step) = Session::begin(heuristic_plan(&info(&[])), 1, false, true);
    assert_eq!(step, SessionStep::ShowPlan);
}

#[test]
fn outcome_reads_the_encoded_streams() {
    let j = fields(vec![
        ("exit_code", Json::Negative(-1)),
        ("stdout", Json::Text("aGk=".to_string())),
        ("stderr", Json::Text("b29wcw==".to_string())),
    ]);
    let o = outcome_of(&j);
    assert_eq!(o.exit_code, -1);
    assert_eq!(o.stdout, "hi");
    assert_eq!(o.stderr, "oops");
    assert_eq!(describe(&o), "failure (exit -1). stderr tail:\noops");
    assert_eq!(heuristic_analysis(&j), describe(&o));
    let j = fields(vec![
        ("exit_code", Json::Unsigned(0)),
        ("stdout", Json::Text("aGk=".to_string())),
    ]);
    assert_eq!(
        heuristic_analysis(&j),
        "success (exit 0). last output:\nhi"
    );
}

#[test]
fn damaged_base64_is_shown_as_it_is() {
    // Bytes that are no text are replaced one by one.
    assert_eq!(decode("/w=="), "\u{fffd}");
}

#[test]
fn plan_is_read_out_of_a_chatty_answer() {
    let p = parse_plan(
        "Sure! {\"build_cmd\":[\"make\"],\"run_cmd\":[\"./a\"],\"work_dir\":\"/w\"} done",
        &info(&[]),
    )
    .unwrap();
    assert_eq!(p.build_cmd, texts(&["make"]));
    assert_eq!(p.run_cmd, texts(&["./a"]));
}

#[test]
fn plan_that_runs_nothing_is_refused() {
    let j = fields(vec![("build_cmd", Json::List(vec![]))]);
    assert!(matches!(
        plan_of(&j, &info(&[])),
        Err(PlanError::NothingToRun(_))
    ));
    assert!(matches!(
        parse_plan("no json here", &info(&[])),
        Err(PlanError::NotJson(_))
    ));
    assert!(!PlanError::NothingToRun(3).to_string().is_empty());
}

#[test]
fn proposed_plan_falls_back_to_the_layout() {
    let i = info(&["Makefile"]);
    assert_eq!(first_plan(None, &i), heuristic_plan(&i));
    assert_eq!(first_plan(Some(Err("down".into())), &i), heuristic_plan(&i));
}

#[test]
fn chat_call_names_the_endpoint_and_the_key() {
    let cfg = LlmConfig {
        base_url: "http://host/v1//".to_string(),
        api_key: "SECRET-REDACTED".to_string(),
        model: "m".to_string(),
    };
    let prompt = Prompt {
        system: "s".to_string(),
        user: "u".to_string(),
    };
    let args = chat_args(&cfg, &prompt);
    assert!(args.iter().any(|a| a == "http://host/v1/chat/completions"));
    assert!(args
        .iter()
        .any(|a| a == "Authorization: Bearer SECRET-REDACTED"));
    let body = args.iter().find(|a| a.starts_with('{')).unwrap();
    let v: serde_json::Value = serde_json::from_str(body).unwrap();
    assert_eq!(v["model"].as_str(), Some("m"));
    assert_eq!(v["messages"][0]["content"].as_str(), Some("s"));
    assert_eq!(v["messages"][1]["role"].as_str(), Some("user"));
}

#[test]
fn each_chat_failure_is_told_apart() {
    assert_eq!(
        llm_chat(Err("no curl".into())),
        Err(ChatError::NotRun("no curl".into()))
    );
    let failed = ChatOutput {
        success: false,
        stdout: vec![],
        stderr: b"refused".to_vec(),
    };
    assert!(matches!(llm_chat(Ok(failed)), Err(ChatError::Failed(_))));
    let odd = ChatOutput {
        success: true,
        stdout: b"<html>".to_vec(),
        stderr: vec![],
    };
    assert!(matches!(llm_chat(Ok(odd)), Err(ChatError::NotJson(_))));
    let empty = ChatOutput {
        success: true,
        stdout: b"{}".to_vec(),
        stderr: vec![],
    };
    assert_eq!(llm_chat(Ok(empty)), Err(ChatError::NoContent));
    let good = ChatOutput {
        success: true,
        stdout: br#"{"choices":[{"message":{"content":"hello"}}]}"#.to_vec(),
        stderr: vec![],
    };
    assert_eq!(llm_chat(Ok(good)), Ok("hello".to_string()));
    assert_eq!(content_of(&Json::Null), Err(ChatError::NoContent));
    assert!(!ChatError::NotConfigured.to_string().is_empty());
}

#[test]
fn prompts_carry_what_they_are_about() {
    let p = plan_prompt(&info(&["main.c"]), Some("run it"));
    assert!(p.user.contains("main.c"));
    assert!(p.user.contains("run it"));
    let plan = heuristic_plan(&info(&["main.c"]));
    let r = revise_prompt(&info(&["main.c"]), &plan, 2, "no such file", None);
    assert!(r.user.contains("no such file"));
    assert!(r.user.contains("Previous run: [\"./app\"]"));
    let a = analysis_prompt(0, "out", "err");
    assert!(a.user.contains("out") && a.user.contains("err"));
}

#[test]
fn settings_prefer_the_environment() {
    let mut env = TextTable::new();
    env.insert("LLM_API_KEY".to_string(), "from-env".to_string());
    let file = read_config_file(&Some(
        "# comment\nLLM_API_KEY = \"from-file\"\nexport LLM_MODEL='m'\n".to_string(),
    ));
    assert_eq!(
        pick(&env, &file, "LLM_API_KEY", &[]),
        Some("from-env".to_string())
    );
    assert_eq!(
        file.get("LLM_API_KEY").map(|s| s.as_str()),
        Some("from-file")
    );
    assert_eq!(pick(&TextTable::new(), &file, "absent", &[]), None);
    assert_eq!(llm_config(&TextTable::new(), &TextTable::new()), None);
}

#[test]
fn config_file_that_others_can_read_is_pointed_out() {
    assert_eq!(warn_if_public("/c", 0o100600), None);
    let note = warn_if_public("/c", 0o100644).unwrap();
    assert!(note.contains("/c"), "{note}");
    assert!(note.contains("644"), "{note}");
}

#[test]
fn home_is_written_out() {
    assert_eq!(expand_socket("~/s.sock", Some("/home/u")), "/home/u/s.sock");
    assert_eq!(expand_socket("/s.sock", Some("/home/u")), "/s.sock");
    assert_eq!(
        config_path(&Some("/etc/c".to_string()), &None),
        "/etc/c".to_string()
    );
}

fn small_tree(dir: &str) -> Vec<DirEntry> {
    match dir {
        "" => vec![
            DirEntry::File("z.c".to_string()),
            DirEntry::Dir("src".to_string()),
            DirEntry::Dir(".git".to_string()),
            DirEntry::Dir("target".to_string()),
        ],
        "src" => vec![DirEntry::File("main.rs".to_string())],
        _ => vec![DirEntry::File("never".to_string())],
    }
}

fn many_files(dir: &str) -> Vec<DirEntry> {
    if dir.is_empty() {
        let mut all: Vec<DirEntry> = (0..MAX_FILES)
            .map(|n| DirEntry::File(format!("f{n:03}")))
            .collect();
        all.push(DirEntry::Dir("more".to_string()));
        all
    } else {
        vec![DirEntry::File("never".to_string())]
    }
}

fn deep_tree(dir: &str) -> Vec<DirEntry> {
    vec![
        DirEntry::File(format!("f{}", dir.len())),
        DirEntry::Dir("d".to_string()),
    ]
}

fn walk(list: fn(&str) -> Vec<DirEntry>) -> WorkspaceInfo {
    let mut w = Walk::begin();
    w.supply(list(""));
    loop {
        match w.advance() {
            WalkStep::Read(dir) => w.supply(list(&dir)),
            WalkStep::Done => return w.finish("/root".to_string()),
        }
    }
}

#[test]
fn walk_lists_files_in_order_without_the_hidden_ones() {
    let i = walk(small_tree);
    assert_eq!(i.root, "/root");
    assert_eq!(i.files, texts(&["src/main.rs", "z.c"]));
}

#[test]
fn walk_stops_at_the_limits() {
    let i = walk(many_files);
    assert_eq!(i.files.len(), MAX_FILES);
    let i = walk(deep_tree);
    assert_eq!(i.files.len(), 4);
}
