//! What each command asks of the TAPD API: the HTTP method, the endpoint
//! and the parameters or JSON body, worked out before anything is sent.

use vstd::prelude::*;

use crate::cli::{
    BugAction, Cmd, CommentAction, FieldAction, IterAction, StoryAction, TaskAction, TcaseAction,
    TimesheetAction, WikiAction, WorkflowAction,
};
use crate::client::{
    nick_default, nick_override, normalized, wecom_msgtype, wecom_payload, TapdClient,
    WecomPayload,
};
use crate::config::opt_view;
use crate::params::{
    coerce, str_pair_views, string_views, to_json, with_workspace, workspace_params,
    workspace_pairs, ws_map, JsonObject, JsonScalar, ParamMap,
};
use crate::text::{decimal, str_eq, u64_to_string};

verus! {

/// A request to send.
pub enum Request {
    /// A GET request with query parameters.
    Get { endpoint: String, params: ParamMap },
    /// A POST request with a JSON body.
    Post { endpoint: String, body: JsonObject },
    /// A message to the WeCom robot at `bot_url`.
    Wecom { bot_url: String, payload: WecomPayload },
}

/// The contents of a request.
pub enum RequestView {
    Get { endpoint: Seq<char>, params: Map<Seq<char>, Seq<char>> },
    Post { endpoint: Seq<char>, body: Map<Seq<char>, JsonScalar> },
    Wecom { bot_url: Seq<char>, msgtype: Seq<char>, content: Seq<char> },
}

impl View for Request {
    type V = RequestView;

    open spec fn view(&self) -> RequestView {
        match self {
            Request::Get { endpoint, params } => RequestView::Get {
                endpoint: endpoint@,
                params: params@,
            },
            Request::Post { endpoint, body } => RequestView::Post {
                endpoint: endpoint@,
                body: body@,
            },
            Request::Wecom { bot_url, payload } => RequestView::Wecom {
                bot_url: bot_url@,
                msgtype: payload.msgtype@,
                content: payload.content@,
            },
        }
    }
}

/// Why a command could not be turned into a request.
pub enum PlanError {
    /// `projects` without `--nick` and without a configured nick.
    MissingNick,
    /// `todo` with a type other than `story`, `bug` or `task`.
    UnsupportedTodoType { entity_type: String },
    /// `wecom` without a configured robot URL.
    MissingBotUrl,
}

/// The contents of a `PlanError`.
pub enum PlanFailure {
    MissingNick,
    UnsupportedTodoType(Seq<char>),
    MissingBotUrl,
}

impl View for PlanError {
    type V = PlanFailure;

    open spec fn view(&self) -> PlanFailure {
        match self {
            PlanError::MissingNick => PlanFailure::MissingNick,
            PlanError::UnsupportedTodoType { entity_type } => PlanFailure::UnsupportedTodoType(
                entity_type@,
            ),
            PlanError::MissingBotUrl => PlanFailure::MissingBotUrl,
        }
    }
}

impl PlanError {
    /// The message shown for this error.
    pub fn message(&self) -> (r: String)
        ensures
            r@ == match self@ {
                PlanFailure::MissingNick => "需要指定 --nick 或配置 CURRENT_USER_NICK"@,
                PlanFailure::UnsupportedTodoType(t) => "不支持的待办类型: "@ + t
                    + " (可选: story/bug/task)"@,
                PlanFailure::MissingBotUrl => "BOT_URL 未配置"@,
            },
    {
        match self {
            PlanError::MissingNick => String::from_str("需要指定 --nick 或配置 CURRENT_USER_NICK"),
            PlanError::UnsupportedTodoType { entity_type } => {
                let mut r = String::from_str("不支持的待办类型: ");
                r.append(entity_type.as_str());
                r.append(" (可选: story/bug/task)");
                r
            },
            PlanError::MissingBotUrl => String::from_str("BOT_URL 未配置"),
        }
    }
}

/// The JSON body sent for a parameter map.
pub open spec fn json_body(m: Map<Seq<char>, Seq<char>>) -> Map<Seq<char>, JsonScalar> {
    m.map_values(|v: Seq<char>| coerce(v))
}

/// A list: the arguments with the workspace, page 1 and the given page
/// size by default, IDs in long form.
pub open spec fn list_request(
    c: TapdClient,
    endpoint: Seq<char>,
    ws: u64,
    raw: Seq<String>,
    limit: Seq<char>,
) -> RequestView {
    RequestView::Get {
        endpoint,
        params: normalized(
            workspace_params(ws, string_views(raw), seq![("page"@, "1"@), ("limit"@, limit)]),
            c.is_cloud,
        ),
    }
}

/// A plain query: the arguments with the workspace, IDs in long form.
pub open spec fn get_request(c: TapdClient, endpoint: Seq<char>, ws: u64, raw: Seq<String>) -> RequestView {
    RequestView::Get {
        endpoint,
        params: normalized(workspace_params(ws, string_views(raw), seq![]), c.is_cloud),
    }
}

/// A creation: the arguments with the workspace, IDs in long form, and the
/// nick in `nick_field` unless it is given.
pub open spec fn create_request(
    c: TapdClient,
    endpoint: Seq<char>,
    ws: u64,
    raw: Seq<String>,
    nick_field: Seq<char>,
) -> RequestView {
    RequestView::Post {
        endpoint,
        body: json_body(
            nick_default(
                normalized(workspace_params(ws, string_views(raw), seq![]), c.is_cloud),
                opt_view(c.nick),
                nick_field,
            ),
        ),
    }
}

/// An update: the arguments with the workspace, IDs in long form, and the
/// nick in `nick_field` in any case.
pub open spec fn update_request(
    c: TapdClient,
    endpoint: Seq<char>,
    ws: u64,
    raw: Seq<String>,
    nick_field: Seq<char>,
) -> RequestView {
    RequestView::Post {
        endpoint,
        body: json_body(
            nick_override(
                normalized(workspace_params(ws, string_views(raw), seq![]), c.is_cloud),
                opt_view(c.nick),
                nick_field,
            ),
        ),
    }
}

fn do_list_n(c: &TapdClient, endpoint: &str, ws: u64, params: &[String], limit: &str) -> (r:
    Request)
    ensures
        r@ == list_request(*c, endpoint@, ws, params@, limit@),
{
    let defaults = [("page", "1"), ("limit", limit)];
    assert(str_pair_views(defaults@) =~= seq![("page"@, "1"@), ("limit"@, limit@)]);
    let mut p = with_workspace(ws, params, &defaults);
    c.normalize_ids(&mut p);
    Request::Get { endpoint: String::from_str(endpoint), params: p }
}

fn do_list(c: &TapdClient, endpoint: &str, ws: u64, params: &[String]) -> (r: Request)
    ensures
        r@ == list_request(*c, endpoint@, ws, params@, "10"@),
{
    do_list_n(c, endpoint, ws, params, "10")
}

fn do_get(c: &TapdClient, endpoint: &str, ws: u64, params: &[String]) -> (r: Request)
    ensures
        r@ == get_request(*c, endpoint@, ws, params@),
{
    let defaults: [(&str, &str); 0] = [];
    assert(str_pair_views(defaults@) =~= Seq::<(Seq<char>, Seq<char>)>::empty());
    let mut p = with_workspace(ws, params, &defaults);
    c.normalize_ids(&mut p);
    Request::Get { endpoint: String::from_str(endpoint), params: p }
}

fn do_create(c: &TapdClient, endpoint: &str, ws: u64, params: &[String], nick_field: &str) -> (r:
    Request)
    ensures
        r@ == create_request(*c, endpoint@, ws, params@, nick_field@),
{
    let defaults: [(&str, &str); 0] = [];
    assert(str_pair_views(defaults@) =~= Seq::<(Seq<char>, Seq<char>)>::empty());
    let mut p = with_workspace(ws, params, &defaults);
    c.normalize_ids(&mut p);
    c.set_nick_default(&mut p, nick_field);
    Request::Post { endpoint: String::from_str(endpoint), body: to_json(&p) }
}

fn do_update(c: &TapdClient, endpoint: &str, ws: u64, params: &[String], nick_field: &str) -> (r:
    Request)
    ensures
        r@ == update_request(*c, endpoint@, ws, params@, nick_field@),
{
    let defaults: [(&str, &str); 0] = [];
    assert(str_pair_views(defaults@) =~= Seq::<(Seq<char>, Seq<char>)>::empty());
    let mut p = with_workspace(ws, params, &defaults);
    c.normalize_ids(&mut p);
    c.set_nick_override(&mut p, nick_field);
    Request::Post { endpoint: String::from_str(endpoint), body: to_json(&p) }
}


/// What a story command asks for.
pub open spec fn story_plan(c: TapdClient, a: StoryAction) -> RequestView {
    match a {
        StoryAction::List { workspace_id, params } => list_request(
            c,
            "stories"@,
            workspace_id,
            params@,
            "10"@,
        ),
        StoryAction::Create { workspace_id, params } => create_request(
            c,
            "stories"@,
            workspace_id,
            params@,
            "creator"@,
        ),
        StoryAction::Update { workspace_id, params } => update_request(
            c,
            "stories"@,
            workspace_id,
            params@,
            "current_user"@,
        ),
        StoryAction::Count { workspace_id, params } => get_request(
            c,
            "stories/count"@,
            workspace_id,
            params@,
        ),
    }
}

fn story_request(c: &TapdClient, a: &StoryAction) -> (r: Request)
    ensures
        r@ == story_plan(*c, *a),
{
    match a {
        StoryAction::List { workspace_id, params } => do_list(c, "stories", *workspace_id, params),
        StoryAction::Create { workspace_id, params } => do_create(
            c,
            "stories",
            *workspace_id,
            params,
            "creator",
        ),
        StoryAction::Update { workspace_id, params } => do_update(
            c,
            "stories",
            *workspace_id,
            params,
            "current_user",
        ),
        StoryAction::Count { workspace_id, params } => do_get(
            c,
            "stories/count",
            *workspace_id,
            params,
        ),
    }
}

/// What a task command asks for.
pub open spec fn task_plan(c: TapdClient, a: TaskAction) -> RequestView {
    match a {
        TaskAction::List { workspace_id, params } => list_request(
            c,
            "tasks"@,
            workspace_id,
            params@,
            "10"@,
        ),
        TaskAction::Create { workspace_id, params } => create_request(
            c,
            "tasks"@,
            workspace_id,
            params@,
            "creator"@,
        ),
        TaskAction::Update { workspace_id, params } => update_request(
            c,
            "tasks"@,
            workspace_id,
            params@,
            "current_user"@,
        ),
        TaskAction::Count { workspace_id, params } => get_request(
            c,
            "tasks/count"@,
            workspace_id,
            params@,
        ),
    }
}

fn task_request(c: &TapdClient, a: &TaskAction) -> (r: Request)
    ensures
        r@ == task_plan(*c, *a),
{
    match a {
        TaskAction::List { workspace_id, params } => do_list(c, "tasks", *workspace_id, params),
        TaskAction::Create { workspace_id, params } => do_create(
            c,
            "tasks",
            *workspace_id,
            params,
            "creator",
        ),
        TaskAction::Update { workspace_id, params } => do_update(
            c,
            "tasks",
            *workspace_id,
            params,
            "current_user",
        ),
        TaskAction::Count { workspace_id, params } => do_get(c, "tasks/count", *workspace_id, params),
    }
}

/// What a bug command asks for.
pub open spec fn bug_plan(c: TapdClient, a: BugAction) -> RequestView {
    match a {
        BugAction::List { workspace_id, params } => list_request(
            c,
            "bugs"@,
            workspace_id,
            params@,
            "10"@,
        ),
        BugAction::Create { workspace_id, params } => create_request(
            c,
            "bugs"@,
            workspace_id,
            params@,
            "reporter"@,
        ),
        BugAction::Update { workspace_id, params } => update_request(
            c,
            "bugs"@,
            workspace_id,
            params@,
            "current_user"@,
        ),
        BugAction::Count { workspace_id, params } => get_request(
            c,
            "bugs/count"@,
            workspace_id,
            params@,
        ),
    }
}

fn bug_request(c: &TapdClient, a: &BugAction) -> (r: Request)
    ensures
        r@ == bug_plan(*c, *a),
{
    match a {
        BugAction::List { workspace_id, params } => do_list(c, "bugs", *workspace_id, params),
        BugAction::Create { workspace_id, params } => do_create(
            c,
            "bugs",
            *workspace_id,
            params,
            "reporter",
        ),
        BugAction::Update { workspace_id, params } => do_update(
            c,
            "bugs",
            *workspace_id,
            params,
            "current_user",
        ),
        BugAction::Count { workspace_id, params } => do_get(c, "bugs/count", *workspace_id, params),
    }
}

/// What an iteration command asks for.
pub open spec fn iteration_plan(c: TapdClient, a: IterAction) -> RequestView {
    match a {
        IterAction::List { workspace_id, params } => list_request(
            c,
            "iterations"@,
            workspace_id,
            params@,
            "10"@,
        ),
        IterAction::Create { workspace_id, params } => create_request(
            c,
            "iterations"@,
            workspace_id,
            params@,
            "creator"@,
        ),
        IterAction::Update { workspace_id, params } => update_request(
            c,
            "iterations"@,
            workspace_id,
            params@,
            "current_user"@,
        ),
    }
}

fn iteration_request(c: &TapdClient, a: &IterAction) -> (r: Request)
    ensures
        r@ == iteration_plan(*c, *a),
{
    match a {
        IterAction::List { workspace_id, params } => do_list(
            c,
            "iterations",
            *workspace_id,
            params,
        ),
        IterAction::Create { workspace_id, params } => do_create(
            c,
            "iterations",
            *workspace_id,
            params,
            "creator",
        ),
        IterAction::Update { workspace_id, params } => do_update(
            c,
            "iterations",
            *workspace_id,
            params,
            "current_user",
        ),
    }
}

/// What a comment command asks for.
pub open spec fn comment_plan(c: TapdClient, a: CommentAction) -> RequestView {
    match a {
        CommentAction::List { workspace_id, params } => list_request(
            c,
            "comments"@,
            workspace_id,
            params@,
            "10"@,
        ),
        CommentAction::Create { workspace_id, params } => create_request(
            c,
            "comments"@,
            workspace_id,
            params@,
            "author"@,
        ),
        CommentAction::Update { workspace_id, params } => update_request(
            c,
            "comments"@,
            workspace_id,
            params@,
            "change_creator"@,
        ),
    }
}

fn comment_request(c: &TapdClient, a: &CommentAction) -> (r: Request)
    ensures
        r@ == comment_plan(*c, *a),
{
    match a {
        CommentAction::List { workspace_id, params } => do_list(
            c,
            "comments",
            *workspace_id,
            params,
        ),
        CommentAction::Create { workspace_id, params } => do_create(
            c,
            "comments",
            *workspace_id,
            params,
            "author",
        ),
        CommentAction::Update { workspace_id, params } => do_update(
            c,
            "comments",
            *workspace_id,
            params,
            "change_creator",
        ),
    }
}

/// What a wiki command asks for.
pub open spec fn wiki_plan(c: TapdClient, a: WikiAction) -> RequestView {
    match a {
        WikiAction::List { workspace_id, params } => list_request(
            c,
            "tapd_wikis"@,
            workspace_id,
            params@,
            "30"@,
        ),
        WikiAction::Create { workspace_id, params } => create_request(
            c,
            "tapd_wikis"@,
            workspace_id,
            params@,
            "creator"@,
        ),
        WikiAction::Update { workspace_id, params } => update_request(
            c,
            "tapd_wikis"@,
            workspace_id,
            params@,
            "modifier"@,
        ),
    }
}

fn wiki_request(c: &TapdClient, a: &WikiAction) -> (r: Request)
    ensures
        r@ == wiki_plan(*c, *a),
{
    match a {
        WikiAction::List { workspace_id, params } => do_list_n(
            c,
            "tapd_wikis",
            *workspace_id,
            params,
            "30",
        ),
        WikiAction::Create { workspace_id, params } => do_create(
            c,
            "tapd_wikis",
            *workspace_id,
            params,
            "creator",
        ),
        WikiAction::Update { workspace_id, params } => do_update(
            c,
            "tapd_wikis",
            *workspace_id,
            params,
            "modifier",
        ),
    }
}

/// What a test case command asks for.
pub open spec fn tcase_plan(c: TapdClient, a: TcaseAction) -> RequestView {
    match a {
        TcaseAction::List { workspace_id, params } => list_request(
            c,
            "tcases"@,
            workspace_id,
            params@,
            "30"@,
        ),
        TcaseAction::Create { workspace_id, params } => create_request(
            c,
            "tcases"@,
            workspace_id,
            params@,
            "creator"@,
        ),
    }
}

fn tcase_request(c: &TapdClient, a: &TcaseAction) -> (r: Request)
    ensures
        r@ == tcase_plan(*c, *a),
{
    match a {
        TcaseAction::List { workspace_id, params } => do_list_n(
            c,
            "tcases",
            *workspace_id,
            params,
            "30",
        ),
        TcaseAction::Create { workspace_id, params } => do_create(
            c,
            "tcases",
            *workspace_id,
            params,
            "creator",
        ),
    }
}

/// What a workflow command asks for.
pub open spec fn workflow_plan(c: TapdClient, a: WorkflowAction) -> RequestView {
    match a {
        WorkflowAction::Transitions { workspace_id, params } => get_request(
            c,
            "workflows/all_transitions"@,
            workspace_id,
            params@,
        ),
        WorkflowAction::StatusMap { workspace_id, params } => get_request(
            c,
            "workflows/status_map"@,
            workspace_id,
            params@,
        ),
        WorkflowAction::LastSteps { workspace_id, params } => get_request(
            c,
            "workflows/last_steps"@,
            workspace_id,
            params@,
        ),
    }
}

fn workflow_request(c: &TapdClient, a: &WorkflowAction) -> (r: Request)
    ensures
        r@ == workflow_plan(*c, *a),
{
    match a {
        WorkflowAction::Transitions { workspace_id, params } => do_get(
            c,
            "workflows/all_transitions",
            *workspace_id,
            params,
        ),
        WorkflowAction::StatusMap { workspace_id, params } => do_get(
            c,
            "workflows/status_map",
            *workspace_id,
            params,
        ),
        WorkflowAction::LastSteps { workspace_id, params } => do_get(
            c,
            "workflows/last_steps",
            *workspace_id,
            params,
        ),
    }
}

/// What a field command asks for.
pub open spec fn field_plan(c: TapdClient, a: FieldAction) -> RequestView {
    match a {
        FieldAction::Labels { workspace_id } => get_request(
            c,
            "stories/get_fields_lable"@,
            workspace_id,
            seq![],
        ),
        FieldAction::Info { workspace_id } => get_request(
            c,
            "stories/get_fields_info"@,
            workspace_id,
            seq![],
        ),
    }
}

fn field_request(c: &TapdClient, a: &FieldAction) -> (r: Request)
    ensures
        r@ == field_plan(*c, *a),
{
    let none: Vec<String> = Vec::new();
    match a {
        FieldAction::Labels { workspace_id } => do_get(
            c,
            "stories/get_fields_lable",
            *workspace_id,
            none.as_slice(),
        ),
        FieldAction::Info { workspace_id } => do_get(
            c,
            "stories/get_fields_info",
            *workspace_id,
            none.as_slice(),
        ),
    }
}

/// What a time sheet command asks for: adding and updating send the
/// arguments with the workspace, IDs in long form, and the nick as `owner`.
pub open spec fn timesheet_plan(c: TapdClient, a: TimesheetAction) -> RequestView {
    match a {
        TimesheetAction::List { workspace_id, params } => get_request(
            c,
            "timesheets"@,
            workspace_id,
            params@,
        ),
        TimesheetAction::Add { workspace_id, params } => RequestView::Post {
            endpoint: "timesheets"@,
            body: json_body(
                nick_override(
                    normalized(workspace_params(workspace_id, string_views(params@), seq![]), c.is_cloud),
                    opt_view(c.nick),
                    "owner"@,
                ),
            ),
        },
        TimesheetAction::Update { workspace_id, params } => RequestView::Post {
            endpoint: "timesheets"@,
            body: json_body(
                nick_override(
                    normalized(workspace_params(workspace_id, string_views(params@), seq![]), c.is_cloud),
                    opt_view(c.nick),
                    "owner"@,
                ),
            ),
        },
    }
}

fn timesheet_post(c: &TapdClient, ws: u64, params: &[String]) -> (r: Request)
    ensures
        r@ == (RequestView::Post {
            endpoint: "timesheets"@,
            body: json_body(
                nick_override(
                    normalized(workspace_params(ws, string_views(params@), seq![]), c.is_cloud),
                    opt_view(c.nick),
                    "owner"@,
                ),
            ),
        }),
{
    let defaults: [(&str, &str); 0] = [];
    assert(str_pair_views(defaults@) =~= Seq::<(Seq<char>, Seq<char>)>::empty());
    let mut p = with_workspace(ws, params, &defaults);
    c.normalize_ids(&mut p);
    c.set_nick_override(&mut p, "owner");
    Request::Post { endpoint: String::from_str("timesheets"), body: to_json(&p) }
}

fn timesheet_request(c: &TapdClient, a: &TimesheetAction) -> (r: Request)
    ensures
        r@ == timesheet_plan(*c, *a),
{
    match a {
        TimesheetAction::List { workspace_id, params } => do_get(
            c,
            "timesheets",
            *workspace_id,
            params,
        ),
        TimesheetAction::Add { workspace_id, params } => timesheet_post(c, *workspace_id, params),
        TimesheetAction::Update { workspace_id, params } => timesheet_post(
            c,
            *workspace_id,
            params,
        ),
    }
}


/// The to-do endpoint for an entity type.
pub open spec fn todo_endpoint(entity_type: Seq<char>) -> Option<Seq<char>> {
    if entity_type == "story"@ {
        Some("user_oauth/get_user_todo_story"@)
    } else if entity_type == "bug"@ {
        Some("user_oauth/get_user_todo_bug"@)
    } else if entity_type == "task"@ {
        Some("user_oauth/get_user_todo_task"@)
    } else {
        None
    }
}

/// The to-do query: the workspace where one is given, then page size and
/// page.
pub open spec fn todo_params(ws: Option<u64>, limit: u32, page: u32) -> Map<Seq<char>, Seq<char>> {
    let base = match ws {
        Some(w) => Map::<Seq<char>, Seq<char>>::empty().insert("workspace_id"@, decimal(w as nat)),
        None => Map::<Seq<char>, Seq<char>>::empty(),
    };
    base.insert("limit"@, decimal(limit as nat)).insert("page"@, decimal(page as nat))
}

/// What a command asks of the API, or why it cannot be asked. Every
/// command but `update` is a request.
pub open spec fn planned(c: TapdClient, cmd: Cmd) -> Result<RequestView, PlanFailure> {
    match cmd {
        Cmd::Projects { nick } => match (match nick {
            Some(n) => Some(n@),
            None => opt_view(c.nick),
        }) {
            Some(n) => Ok(
                RequestView::Get {
                    endpoint: "workspaces/user_participant_projects"@,
                    params: Map::<Seq<char>, Seq<char>>::empty().insert("nick"@, n),
                },
            ),
            None => Err(PlanFailure::MissingNick),
        },
        Cmd::Story { action } => Ok(story_plan(c, action)),
        Cmd::Task { action } => Ok(task_plan(c, action)),
        Cmd::Bug { action } => Ok(bug_plan(c, action)),
        Cmd::Iteration { action } => Ok(iteration_plan(c, action)),
        Cmd::Comment { action } => Ok(comment_plan(c, action)),
        Cmd::Wiki { action } => Ok(wiki_plan(c, action)),
        Cmd::Tcase { action } => Ok(tcase_plan(c, action)),
        Cmd::Workflow { action } => Ok(workflow_plan(c, action)),
        Cmd::Field { action } => Ok(field_plan(c, action)),
        Cmd::CustomFields { workspace_id, entity_type } => Ok(
            get_request(c, entity_type@ + "/custom_fields_settings"@, workspace_id, seq![]),
        ),
        Cmd::Workspace { workspace_id } => Ok(
            get_request(c, "workspaces/get_workspace_info"@, workspace_id, seq![]),
        ),
        Cmd::Todo { workspace_id, entity_type, limit, page } => match todo_endpoint(
            entity_type@,
        ) {
            Some(ep) => Ok(
                RequestView::Get {
                    endpoint: ep,
                    params: todo_params(workspace_id, limit, page),
                },
            ),
            None => Err(PlanFailure::UnsupportedTodoType(entity_type@)),
        },
        Cmd::Timesheet { action } => Ok(timesheet_plan(c, action)),
        Cmd::Release { workspace_id, params } => Ok(
            get_request(c, "releases"@, workspace_id, params@),
        ),
        Cmd::Attachment { workspace_id, params } => Ok(
            get_request(c, "attachments"@, workspace_id, params@),
        ),
        Cmd::Image { workspace_id, image_path } => Ok(
            RequestView::Get {
                endpoint: "files/get_image"@,
                params: workspace_pairs(workspace_id, seq![("image_path"@, image_path@)]),
            },
        ),
        Cmd::CommitMsg { workspace_id, object_id, object_type } => Ok(
            RequestView::Get {
                endpoint: "svn_commits/get_scm_copy_keywords"@,
                params: normalized(
                    workspace_pairs(
                        workspace_id,
                        seq![("object_id"@, object_id@), ("type"@, object_type@)],
                    ),
                    c.is_cloud,
                ),
            },
        ),
        Cmd::Wecom { msg } => match c.bot_url {
            Some(u) => Ok(
                RequestView::Wecom { bot_url: u@, msgtype: wecom_msgtype(msg@), content: msg@ },
            ),
            None => Err(PlanFailure::MissingBotUrl),
        },
        Cmd::Relation { workspace_id, params } => Ok(
            RequestView::Post {
                endpoint: "relations"@,
                body: json_body(
                    normalized(workspace_params(workspace_id, string_views(params@), seq![]), c.is_cloud),
                ),
            },
        ),
        Cmd::RelatedBugs { workspace_id, story_id } => Ok(
            RequestView::Get {
                endpoint: "stories/get_related_bugs"@,
                params: normalized(
                    workspace_pairs(workspace_id, seq![("story_id"@, story_id@)]),
                    c.is_cloud,
                ),
            },
        ),
        Cmd::Update => arbitrary(),
    }
}

fn todo_request(workspace_id: Option<u64>, entity_type: &String, limit: u32, page: u32) -> (r:
    Result<Request, PlanError>)
    ensures
        match (r, todo_endpoint(entity_type@)) {
            (Ok(q), Some(ep)) => q@ == (RequestView::Get {
                endpoint: ep,
                params: todo_params(workspace_id, limit, page),
            }),
            (Err(e), None) => e@ == PlanFailure::UnsupportedTodoType(entity_type@),
            _ => false,
        },
{
    let ep = if str_eq(entity_type.as_str(), "story") {
        "user_oauth/get_user_todo_story"
    } else if str_eq(entity_type.as_str(), "bug") {
        "user_oauth/get_user_todo_bug"
    } else if str_eq(entity_type.as_str(), "task") {
        "user_oauth/get_user_todo_task"
    } else {
        return Err(PlanError::UnsupportedTodoType { entity_type: entity_type.clone() });
    };
    let mut p = ParamMap::new();
    match workspace_id {
        Some(ws) => {
            p.insert(String::from_str("workspace_id"), u64_to_string(ws));
        },
        None => {},
    }
    p.insert(String::from_str("limit"), u64_to_string(limit as u64));
    p.insert(String::from_str("page"), u64_to_string(page as u64));
    Ok(Request::Get { endpoint: String::from_str(ep), params: p })
}

/// Works out what a command asks of the API. `update` is not a request and
/// is handled before any client exists.
pub fn plan_request(c: &TapdClient, cmd: &Cmd) -> (r: Result<Request, PlanError>)
    requires
        !(cmd is Update),
    ensures
        match (r, planned(*c, *cmd)) {
            (Ok(q), Ok(v)) => q@ == v,
            (Err(e), Err(f)) => e@ == f,
            _ => false,
        },
{
    match cmd {
        Cmd::Projects { nick } => {
            let chosen = match nick {
                Some(n) => Some(n.clone()),
                None => match &c.nick {
                    Some(n) => Some(n.clone()),
                    None => None,
                },
            };
            match chosen {
                Some(n) => {
                    let mut p = ParamMap::new();
                    p.insert(String::from_str("nick"), n);
                    Ok(
                        Request::Get {
                            endpoint: String::from_str("workspaces/user_participant_projects"),
                            params: p,
                        },
                    )
                },
                None => Err(PlanError::MissingNick),
            }
        },
        Cmd::Story { action } => Ok(story_request(c, action)),
        Cmd::Task { action } => Ok(task_request(c, action)),
        Cmd::Bug { action } => Ok(bug_request(c, action)),
        Cmd::Iteration { action } => Ok(iteration_request(c, action)),
        Cmd::Comment { action } => Ok(comment_request(c, action)),
        Cmd::Wiki { action } => Ok(wiki_request(c, action)),
        Cmd::Tcase { action } => Ok(tcase_request(c, action)),
        Cmd::Workflow { action } => Ok(workflow_request(c, action)),
        Cmd::Field { action } => Ok(field_request(c, action)),
        Cmd::CustomFields { workspace_id, entity_type } => {
            let mut ep = entity_type.clone();
            ep.append("/custom_fields_settings");
            let none: Vec<String> = Vec::new();
            Ok(do_get(c, ep.as_str(), *workspace_id, none.as_slice()))
        },
        Cmd::Workspace { workspace_id } => {
            let none: Vec<String> = Vec::new();
            Ok(do_get(c, "workspaces/get_workspace_info", *workspace_id, none.as_slice()))
        },
        Cmd::Todo { workspace_id, entity_type, limit, page } => todo_request(
            *workspace_id,
            entity_type,
            *limit,
            *page,
        ),
        Cmd::Timesheet { action } => Ok(timesheet_request(c, action)),
        Cmd::Release { workspace_id, params } => Ok(do_get(c, "releases", *workspace_id, params)),
        Cmd::Attachment { workspace_id, params } => Ok(
            do_get(c, "attachments", *workspace_id, params),
        ),
        Cmd::Image { workspace_id, image_path } => {
            let pairs = [("image_path", image_path.as_str())];
            assert(str_pair_views(pairs@) =~= seq![("image_path"@, image_path@)]);
            let p = ws_map(*workspace_id, &pairs);
            Ok(Request::Get { endpoint: String::from_str("files/get_image"), params: p })
        },
        Cmd::CommitMsg { workspace_id, object_id, object_type } => {
            let pairs = [("object_id", object_id.as_str()), ("type", object_type.as_str())];
            assert(str_pair_views(pairs@) =~= seq![
                ("object_id"@, object_id@),
                ("type"@, object_type@),
            ]);
            let mut p = ws_map(*workspace_id, &pairs);
            c.normalize_ids(&mut p);
            Ok(
                Request::Get {
                    endpoint: String::from_str("svn_commits/get_scm_copy_keywords"),
                    params: p,
                },
            )
        },
        Cmd::Wecom { msg } => match &c.bot_url {
            Some(u) => Ok(Request::Wecom { bot_url: u.clone(), payload: wecom_payload(msg.as_str()) }),
            None => Err(PlanError::MissingBotUrl),
        },
        Cmd::Relation { workspace_id, params } => {
            let defaults: [(&str, &str); 0] = [];
            assert(str_pair_views(defaults@) =~= Seq::<(Seq<char>, Seq<char>)>::empty());
            let mut p = with_workspace(*workspace_id, params, &defaults);
            c.normalize_ids(&mut p);
            Ok(Request::Post { endpoint: String::from_str("relations"), body: to_json(&p) })
        },
        Cmd::RelatedBugs { workspace_id, story_id } => {
            let pairs = [("story_id", story_id.as_str())];
            assert(str_pair_views(pairs@) =~= seq![("story_id"@, story_id@)]);
            let mut p = ws_map(*workspace_id, &pairs);
            c.normalize_ids(&mut p);
            Ok(Request::Get { endpoint: String::from_str("stories/get_related_bugs"), params: p })
        },
        Cmd::Update => vstd::pervasive::unreached(),
    }
}

} // verus!
