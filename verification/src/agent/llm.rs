//! Talking to a language model: prompts, requests and answers.
use vstd::prelude::*;
use vstd::string::*;
use crate::agent::plan::Plan;
use crate::agent::settings::LlmConfig;
use crate::agent::workspace::WorkspaceInfo;
use crate::dump::{show_texts, texts_debug};
use crate::outside::json::{json_document, json_field, json_item, json_str, json_text, list_view, list_view_items, parse_json, render_json, Json, JsonView};
use crate::outside::lossy::{lossy_text, text_lossy};
use crate::text::{cat2, cat5, chars_of, join_texts, joined, signed_decimal, signed_text, tail_lines, tail_of, text_of};
use crate::types::texts;

verus! {

/// The instruction for planning.
pub open spec fn plan_system() -> Seq<char> {
    "You are a build/run planner for a sandboxed Linux VM (fresh Debian, no toolchain preinstalled). You MUST install missing tools inside the build command, for example apt-get update and apt-get install -y gcc. Return ONLY a JSON object with keys build_cmd (string array), run_cmd (string array), work_dir (usually /root/project)."@
}

/// The instruction for correcting a plan.
pub open spec fn revise_system() -> Seq<char> {
    "A previous build/run attempt failed in a sandboxed Linux VM. Propose corrected commands. Return ONLY a JSON object with keys build_cmd (string array), run_cmd (string array), work_dir."@
}

/// The instruction for explaining a result.
pub open spec fn analysis_system() -> Seq<char> {
    "Explain the sandbox execution result in 2-3 sentences and state whether it succeeded."@
}

/// What a model is told and asked.
#[derive(Debug, PartialEq, Eq)]
pub struct Prompt {
    /// The instruction.
    pub system: String,
    /// The question.
    pub user: String,
}

/// The goal, or the usual one.
pub open spec fn goal_text(goal: Option<&str>) -> Seq<char> {
    match goal {
        Some(g) => g@,
        None => "build and run the project"@,
    }
}

fn goal_or_usual<'a>(goal: Option<&'a str>) -> (r: &'a str)
    ensures
        r@ == goal_text(goal),
{
    match goal {
        Some(g) => g,
        None => "build and run the project",
    }
}

/// The prompt for a plan.
pub fn plan_prompt(info: &WorkspaceInfo, goal: Option<&str>) -> (r: Prompt)
    ensures
        r.system@ == plan_system(),
        r.user@ == "Workspace files:\n"@ + joined(texts(info.files@), "\n"@) + "\n\nGoal: "@
            + goal_text(goal) + "\n\nReturn the JSON now."@,
{
    let files = join_texts(&info.files, "\n");
    let user = cat5(
        "Workspace files:\n",
        files.as_str(),
        "\n\nGoal: ",
        goal_or_usual(goal),
        "\n\nReturn the JSON now.",
    );
    Prompt {
        system: String::from_str(
            "You are a build/run planner for a sandboxed Linux VM (fresh Debian, no toolchain preinstalled). You MUST install missing tools inside the build command, for example apt-get update and apt-get install -y gcc. Return ONLY a JSON object with keys build_cmd (string array), run_cmd (string array), work_dir (usually /root/project).",
        ),
        user,
    }
}

/// The prompt for a correction of a plan, given the exit code and the standard error of the failed
/// attempt.
pub fn revise_prompt(
    info: &WorkspaceInfo,
    plan: &Plan,
    exit_code: i64,
    stderr: &str,
    goal: Option<&str>,
) -> (r: Prompt)
    ensures
        r.system@ == revise_system(),
        r.user@ == "Files:\n"@ + joined(texts(info.files@), "\n"@) + "\n\nGoal: "@ + goal_text(goal)
            + "\nPrevious build: "@ + texts_debug(plan@.build_cmd) + "\nPrevious run: "@
            + texts_debug(plan@.run_cmd) + "\nExit: "@ + signed_decimal(exit_code as int)
            + "\nstderr tail:\n"@ + tail_lines(stderr@, 20, "\n"@),
{
    let files = join_texts(&info.files, "\n");
    let mut user = cat5(
        "Files:\n",
        files.as_str(),
        "\n\nGoal: ",
        goal_or_usual(goal),
        "\nPrevious build: ",
    );
    user.append(show_texts(&plan.build_cmd).as_str());
    user.append("\nPrevious run: ");
    user.append(show_texts(&plan.run_cmd).as_str());
    user.append("\nExit: ");
    user.append(signed_text(exit_code).as_str());
    user.append("\nstderr tail:\n");
    user.append(tail_of(stderr, 20, "\n").as_str());
    Prompt {
        system: String::from_str(
            "A previous build/run attempt failed in a sandboxed Linux VM. Propose corrected commands. Return ONLY a JSON object with keys build_cmd (string array), run_cmd (string array), work_dir.",
        ),
        user,
    }
}

/// The prompt for an explanation of a result.
pub fn analysis_prompt(exit_code: i64, stdout: &str, stderr: &str) -> (r: Prompt)
    ensures
        r.system@ == analysis_system(),
        r.user@ == "exit_code: "@ + signed_decimal(exit_code as int) + "\nstdout tail:\n"@
            + tail_lines(stdout@, 30, "\n"@) + "\nstderr tail:\n"@ + tail_lines(
            stderr@,
            30,
            "\n"@,
        ),
{
    let out = tail_of(stdout, 30, "\n");
    let mut user = cat5(
        "exit_code: ",
        signed_text(exit_code).as_str(),
        "\nstdout tail:\n",
        out.as_str(),
        "\nstderr tail:\n",
    );
    user.append(tail_of(stderr, 30, "\n").as_str());
    Prompt {
        system: String::from_str(
            "Explain the sandbox execution result in 2-3 sentences and state whether it succeeded.",
        ),
        user,
    }
}

/// A text without the slashes at its end.
pub open spec fn without_slashes(s: Seq<char>) -> Seq<char>
    decreases s.len(),
{
    if s.len() > 0 && s.last() == '/' {
        without_slashes(s.drop_last())
    } else {
        s
    }
}

fn strip_slashes(s: &str) -> (r: String)
    ensures
        r@ == without_slashes(s@),
{
    let chars = chars_of(s);
    let mut n: usize = chars.len();
    assert(chars@.take(n as int) =~= s@);
    while n > 0 && chars[n - 1] == '/'
        invariant
            n <= chars@.len(),
            without_slashes(s@) == without_slashes(chars@.take(n as int)),
        decreases n,
    {
        assert(chars@.take(n as int).drop_last() =~= chars@.take(n - 1));
        n -= 1;
    }
    let r = text_of(&chars, 0, n);
    assert(r@ =~= chars@.take(n as int));
    r
}

/// A message of a chat.
pub open spec fn message_view(role: Seq<char>, content: Seq<char>) -> JsonView {
    JsonView::Fields(map!["role"@ => JsonView::Text(role), "content"@ => JsonView::Text(content)])
}

/// The request that asks a model.
pub open spec fn chat_request(model: Seq<char>, system: Seq<char>, user: Seq<char>) -> JsonView {
    JsonView::Fields(
        map![
            "model"@ => JsonView::Text(model),
            "temperature"@ => JsonView::Unsigned(0),
            "messages"@ => JsonView::List(
                seq![message_view("system"@, system), message_view("user"@, user)],
            ),
        ],
    )
}

fn message(role: &str, content: &str) -> (r: Json)
    ensures
        r@ == message_view(role@, content@),
{
    Json::object1("role", Json::text(role)).with("content", Json::text(content))
}

fn chat_body(model: &str, prompt: &Prompt) -> (r: Json)
    ensures
        r@ == chat_request(model@, prompt.system@, prompt.user@),
{
    let mut messages: Vec<Json> = Vec::new();
    messages.push(message("system", prompt.system.as_str()));
    messages.push(message("user", prompt.user.as_str()));
    proof {
        list_view_items(messages@);
        assert(list_view(messages@) =~= seq![
            message_view("system"@, prompt.system@),
            message_view("user"@, prompt.user@),
        ]);
    }
    Json::object1("model", Json::text(model)).with("temperature", Json::Unsigned(0)).with(
        "messages",
        Json::List(messages),
    )
}

/// The arguments of the request: the key is sent in a header where there is one.
pub open spec fn chat_arguments(
    base_url: Seq<char>,
    api_key: Seq<char>,
    body: Seq<char>,
) -> Seq<Seq<char>> {
    let start = seq![
        "-sS"@,
        "-X"@,
        "POST"@,
        without_slashes(base_url) + "/chat/completions"@,
        "-H"@,
        "Content-Type: application/json"@,
    ];
    let key = if api_key.len() == 0 {
        Seq::empty()
    } else {
        seq!["-H"@, "Authorization: Bearer "@ + api_key]
    };
    start + key + seq!["-d"@, body]
}

/// The arguments of the request that asks a model.
pub fn chat_args(cfg: &LlmConfig, prompt: &Prompt) -> (r: Vec<String>)
    ensures
        texts(r@) == chat_arguments(
            cfg.base_url@,
            cfg.api_key@,
            json_text(chat_request(cfg.model@, prompt.system@, prompt.user@)),
        ),
{
    let body = render_json(&chat_body(cfg.model.as_str(), prompt));
    let url = cat2(strip_slashes(cfg.base_url.as_str()).as_str(), "/chat/completions");
    let mut args: Vec<String> = Vec::new();
    args.push(String::from_str("-sS"));
    args.push(String::from_str("-X"));
    args.push(String::from_str("POST"));
    args.push(url);
    args.push(String::from_str("-H"));
    args.push(String::from_str("Content-Type: application/json"));
    let chars = chars_of(cfg.api_key.as_str());
    if chars.len() > 0 {
        args.push(String::from_str("-H"));
        args.push(cat2("Authorization: Bearer ", cfg.api_key.as_str()));
    }
    args.push(String::from_str("-d"));
    args.push(body);
    assert(texts(args@) =~= chat_arguments(cfg.base_url@, cfg.api_key@, body@));
    args
}

/// Why a model gave no answer.
#[derive(Debug, PartialEq, Eq)]
pub enum ChatError {
    /// No service is set.
    NotConfigured,
    /// The request could not be made.
    NotRun(String),
    /// The request failed.
    Failed(String),
    /// The answer is no JSON.
    NotJson(String),
    /// The answer has no content.
    NoContent,
}

/// The message of a chat error.
pub open spec fn chat_message(e: ChatError) -> Seq<char> {
    match e {
        ChatError::NotConfigured =>
            "LLM not configured (set EO_LLM_BASE_URL or use a config file)"@,
        ChatError::NotRun(_) => "failed to run curl"@,
        ChatError::Failed(text) => "curl failed: "@ + text@,
        ChatError::NotJson(_) => "LLM response not JSON"@,
        ChatError::NoContent => "LLM response missing content"@,
    }
}

impl ChatError {
    /// The message of this error.
    pub fn to_string(&self) -> (r: String)
        ensures
            r@ == chat_message(*self),
    {
        match self {
            ChatError::NotConfigured => String::from_str(
                "LLM not configured (set EO_LLM_BASE_URL or use a config file)",
            ),
            ChatError::NotRun(_) => String::from_str("failed to run curl"),
            ChatError::Failed(text) => cat2("curl failed: ", text.as_str()),
            ChatError::NotJson(_) => String::from_str("LLM response not JSON"),
            ChatError::NoContent => String::from_str("LLM response missing content"),
        }
    }
}

/// What a finished request left.
#[derive(Debug, PartialEq, Eq)]
pub struct ChatOutput {
    /// Whether it succeeded.
    pub success: bool,
    /// Standard output.
    pub stdout: Vec<u8>,
    /// Standard error.
    pub stderr: Vec<u8>,
}

/// The content of a model's answer.
pub open spec fn answer_content(j: JsonView) -> Option<Seq<char>> {
    json_str(
        json_field(json_field(json_item(json_field(j, "choices"@), 0), "message"@), "content"@),
    )
}

/// The content of a model's answer.
pub fn content_of(j: &Json) -> (r: std::result::Result<String, ChatError>)
    ensures
        match answer_content(j@) {
            Some(s) => r is Ok && r->Ok_0@ == s,
            None => r == Err::<String, ChatError>(ChatError::NoContent),
        },
{
    match j.get("choices") {
        Some(choices) => match choices.item(0) {
            Some(first) => match first.get("message") {
                Some(m) => match m.str_field("content") {
                    Some(s) => Ok(String::from_str(s)),
                    None => Err(ChatError::NoContent),
                },
                None => Err(ChatError::NoContent),
            },
            None => Err(ChatError::NoContent),
        },
        None => Err(ChatError::NoContent),
    }
}

/// What a request to a model leads to.
pub fn llm_chat(ran: std::result::Result<ChatOutput, String>) -> (r: std::result::Result<
    String,
    ChatError,
>)
    ensures
        match ran {
            Err(e) => r == Err::<String, ChatError>(ChatError::NotRun(e)),
            Ok(out) => if !out.success {
                r is Err && r->Err_0 is Failed && r->Err_0->Failed_0@ == lossy_text(out.stderr@)
            } else {
                match json_document(out.stdout@) {
                    Err(e) => r is Err && r->Err_0 is NotJson && r->Err_0->NotJson_0@ == e,
                    Ok(j) => match answer_content(j) {
                        Some(s) => r is Ok && r->Ok_0@ == s,
                        None => r == Err::<String, ChatError>(ChatError::NoContent),
                    },
                }
            },
        },
{
    match ran {
        Err(e) => Err(ChatError::NotRun(e)),
        Ok(out) => {
            if !out.success {
                return Err(ChatError::Failed(text_lossy(out.stderr.as_slice())));
            }
            match parse_json(out.stdout.as_slice()) {
                Err(e) => Err(ChatError::NotJson(e)),
                Ok(j) => content_of(&j),
            }
        },
    }
}

/// The address that is asked has no slash left at its end, and loses nothing else.
pub proof fn only_slashes_are_taken_off(s: Seq<char>)
    ensures
        without_slashes(s).len() <= s.len(),
        s.take(without_slashes(s).len() as int) == without_slashes(s),
        without_slashes(s).len() > 0 ==> without_slashes(s).last() != '/',
        forall|i: int| without_slashes(s).len() <= i < s.len() ==> #[trigger] s[i] == '/',
    decreases s.len(),
{
    let r = without_slashes(s);
    if s.len() > 0 && s.last() == '/' {
        only_slashes_are_taken_off(s.drop_last());
        assert(s.take(r.len() as int) =~= s.drop_last().take(r.len() as int));
        assert forall|i: int| r.len() <= i < s.len() implies #[trigger] s[i] == '/' by {
            if i < s.len() - 1 {
                assert(s.drop_last()[i] == s[i]);
            }
        }
    } else {
        assert(s.take(s.len() as int) =~= s);
    }
}

/// A request names the model and says first the instruction, as the system, and then
/// the question, as the user.
pub proof fn request_asks_the_model(model: Seq<char>, system: Seq<char>, user: Seq<char>)
    ensures
        ({
            let j = chat_request(model, system, user);
            let first = json_item(json_field(j, "messages"@), 0);
            let second = json_item(json_field(j, "messages"@), 1);
            &&& json_field(j, "model"@) == JsonView::Text(model)
            &&& json_field(j, "temperature"@) == JsonView::Unsigned(0)
            &&& json_field(first, "role"@) == JsonView::Text("system"@)
            &&& json_field(first, "content"@) == JsonView::Text(system)
            &&& json_field(second, "role"@) == JsonView::Text("user"@)
            &&& json_field(second, "content"@) == JsonView::Text(user)
            &&& json_item(json_field(j, "messages"@), 2) is Null
        }),
{
    reveal_strlit("model");
    reveal_strlit("temperature");
    reveal_strlit("messages");
    reveal_strlit("role");
    reveal_strlit("content");
    assert("model"@.len() == 5 && "temperature"@.len() == 11 && "messages"@.len() == 8);
    assert("role"@.len() == 4 && "content"@.len() == 7);
}

/// The request goes to the service's address; the key is sent exactly where there is
/// one; and the body comes last.
pub proof fn request_goes_to_the_service(
    base_url: Seq<char>,
    api_key: Seq<char>,
    body: Seq<char>,
)
    ensures
        ({
            let args = chat_arguments(base_url, api_key, body);
            &&& args[3] == without_slashes(base_url) + "/chat/completions"@
            &&& args.last() == body
            &&& args[args.len() - 2] == "-d"@
            &&& api_key.len() == 0 ==> args.len() == 8
            &&& api_key.len() > 0 ==> args.len() == 10 && args[6] == "-H"@ && args[7]
                == "Authorization: Bearer "@ + api_key
        }),
{
}

/// The answer is the content of the message of the first choice.
pub proof fn answer_is_the_first_choice(
    j: Map<Seq<char>, JsonView>,
    choices: Seq<JsonView>,
    choice: Map<Seq<char>, JsonView>,
    message: Map<Seq<char>, JsonView>,
    content: Seq<char>,
)
    requires
        j.contains_key("choices"@) && j["choices"@] == JsonView::List(choices),
        choices.len() > 0 && choices[0] == JsonView::Fields(choice),
        choice.contains_key("message"@) && choice["message"@] == JsonView::Fields(message),
        message.contains_key("content"@) && message["content"@] == JsonView::Text(content),
    ensures
        answer_content(JsonView::Fields(j)) == Some(content),
{
}

} // verus!
