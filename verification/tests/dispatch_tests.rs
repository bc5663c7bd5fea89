use tapd_cli::cli::{BugAction, Cmd, FieldAction, StoryAction, TimesheetAction, WikiAction};
use tapd_cli::client::TapdClient;
use tapd_cli::config::Config;
use tapd_cli::dispatch::{plan_request, PlanError, Request};
use tapd_cli::params::{JsonObject, JsonValue, ParamMap};

fn s(x: &str) -> String {
    x.to_string()
}

fn client(nick: Option<&str>, bot: Option<&str>) -> TapdClient {
    TapdClient::new(&Config {
        api_base_url: s("https://api.tapd.cn"),
        web_base_url: None,
        access_token: Some(s("t")),
        api_user: None,
        api_password: None,
        bot_url: bot.map(s),
        nick: nick.map(s),
    })
}

fn sorted(p: &ParamMap) -> Vec<(String, String)> {
    let mut v = p.entries().clone();
    v.sort();
    v
}

fn sorted_json(o: &JsonObject) -> Vec<(String, String)> {
    let mut v: Vec<(String, String)> = o
        .fields()
        .iter()
        .map(|(k, v)| {
            (
                k.clone(),
                match v {
                    JsonValue::Number(n) => format!("#{n}"),
                    JsonValue::Text(t) => t.clone(),
                },
            )
        })
        .collect();
    v.sort();
    v
}

fn pairs(x: &[(&str, &str)]) -> Vec<(String, String)> {
    let mut v: Vec<(String, String)> = x.iter().map(|(a, b)| (s(a), s(b))).collect();
    v.sort();
    v
}

fn expect_get(r: Result<Request, PlanError>, endpoint: &str, params: &[(&str, &str)]) {
    match r {
        Ok(Request::Get { endpoint: e, params: p }) => {
            assert_eq!(e, endpoint);
            assert_eq!(sorted(&p), pairs(params));
        }
        _ => panic!("expected a GET request"),
    }
}

fn expect_post(r: Result<Request, PlanError>, endpoint: &str, body: &[(&str, &str)]) {
    match r {
        Ok(Request::Post { endpoint: e, body: b }) => {
            assert_eq!(e, endpoint);
            assert_eq!(sorted_json(&b), pairs(body));
        }
        _ => panic!("expected a POST request"),
    }
}

#[test]
fn story_list_defaults_and_long_ids() {
    let c = client(Some("me"), None);
    let cmd = Cmd::Story {
        action: StoryAction::List { workspace_id: 52921131, params: vec![s("id=123"), s("limit=20")] },
    };
    expect_get(
        plan_request(&c, &cmd),
        "stories",
        &[
            ("workspace_id", "52921131"),
            ("id", "1152921131000000123"),
            ("page", "1"),
            ("limit", "20"),
        ],
    );
}

#[test]
fn story_count_lengthens_ids() {
    let c = client(None, None);
    let cmd = Cmd::Story {
        action: StoryAction::Count { workspace_id: 1, params: vec![s("id=5"), s("status=open")] },
    };
    expect_get(
        plan_request(&c, &cmd),
        "stories/count",
        &[("workspace_id", "1"), ("id", "111000000005"), ("status", "open")],
    );
}

#[test]
fn attachment_lengthens_entry_id() {
    let c = client(Some("alice"), None);
    let cmd = Cmd::Attachment {
        workspace_id: 52921131,
        params: vec![s("entry_id=123"), s("type=story")],
    };
    expect_get(
        plan_request(&c, &cmd),
        "attachments",
        &[("workspace_id", "52921131"), ("entry_id", "1152921131000000123"), ("type", "story")],
    );
}

#[test]
fn bug_create_fills_reporter() {
    let c = client(Some("me"), None);
    let cmd = Cmd::Bug {
        action: BugAction::Create { workspace_id: 9, params: vec![s("title=页面崩溃"), s("story_id=3")] },
    };
    expect_post(
        plan_request(&c, &cmd),
        "bugs",
        &[("workspace_id", "#9"), ("title", "页面崩溃"), ("story_id", "#119000000003"), ("reporter", "me")],
    );
}

#[test]
fn bug_create_keeps_given_reporter() {
    let c = client(Some("me"), None);
    let cmd = Cmd::Bug {
        action: BugAction::Create { workspace_id: 9, params: vec![s("reporter=you")] },
    };
    expect_post(plan_request(&c, &cmd), "bugs", &[("workspace_id", "#9"), ("reporter", "you")]);
}

#[test]
fn story_update_overrides_current_user() {
    let c = client(Some("me"), None);
    let cmd = Cmd::Story {
        action: StoryAction::Update { workspace_id: 9, params: vec![s("id=1"), s("current_user=x")] },
    };
    expect_post(
        plan_request(&c, &cmd),
        "stories",
        &[("workspace_id", "#9"), ("id", "#119000000001"), ("current_user", "me")],
    );
}

#[test]
fn wiki_list_page_size() {
    let c = client(None, None);
    let cmd = Cmd::Wiki { action: WikiAction::List { workspace_id: 2, params: vec![] } };
    expect_get(
        plan_request(&c, &cmd),
        "tapd_wikis",
        &[("workspace_id", "2"), ("page", "1"), ("limit", "30")],
    );
}

#[test]
fn projects_nick() {
    let c = client(Some("me"), None);
    expect_get(
        plan_request(&c, &Cmd::Projects { nick: None }),
        "workspaces/user_participant_projects",
        &[("nick", "me")],
    );
    expect_get(
        plan_request(&c, &Cmd::Projects { nick: Some(s("you")) }),
        "workspaces/user_participant_projects",
        &[("nick", "you")],
    );
    let none = client(None, None);
    match plan_request(&none, &Cmd::Projects { nick: None }) {
        Err(e @ PlanError::MissingNick) => {
            assert_eq!(e.message(), "需要指定 --nick 或配置 CURRENT_USER_NICK")
        }
        _ => panic!("expected a missing nick"),
    }
}

#[test]
fn todo_requests() {
    let c = client(None, None);
    expect_get(
        plan_request(
            &c,
            &Cmd::Todo { workspace_id: None, entity_type: s("bug"), limit: 10, page: 1 },
        ),
        "user_oauth/get_user_todo_bug",
        &[("limit", "10"), ("page", "1")],
    );
    expect_get(
        plan_request(
            &c,
            &Cmd::Todo { workspace_id: Some(3), entity_type: s("story"), limit: 5, page: 2 },
        ),
        "user_oauth/get_user_todo_story",
        &[("workspace_id", "3"), ("limit", "5"), ("page", "2")],
    );
    match plan_request(
        &c,
        &Cmd::Todo { workspace_id: None, entity_type: s("epic"), limit: 10, page: 1 },
    ) {
        Err(e @ PlanError::UnsupportedTodoType { .. }) => {
            assert_eq!(e.message(), "不支持的待办类型: epic (可选: story/bug/task)")
        }
        _ => panic!("expected an unsupported type"),
    }
}

#[test]
fn field_custom_fields_and_workspace() {
    let c = client(None, None);
    expect_get(
        plan_request(&c, &Cmd::Field { action: FieldAction::Labels { workspace_id: 4 } }),
        "stories/get_fields_lable",
        &[("workspace_id", "4")],
    );
    expect_get(
        plan_request(&c, &Cmd::CustomFields { workspace_id: 4, entity_type: s("bugs") }),
        "bugs/custom_fields_settings",
        &[("workspace_id", "4")],
    );
    expect_get(
        plan_request(&c, &Cmd::Workspace { workspace_id: 4 }),
        "workspaces/get_workspace_info",
        &[("workspace_id", "4")],
    );
}

#[test]
fn timesheet_add_sets_owner() {
    let c = client(Some("me"), None);
    let cmd = Cmd::Timesheet {
        action: TimesheetAction::Add {
            workspace_id: 8,
            params: vec![s("entity_id=123"), s("timespent=4h"), s("owner=you"), s("id=3")],
        },
    };
    expect_post(
        plan_request(&c, &cmd),
        "timesheets",
        &[
            ("workspace_id", "#8"),
            ("entity_id", "#123"),
            ("timespent", "4h"),
            ("owner", "me"),
            ("id", "#118000000003"),
        ],
    );
}

#[test]
fn commit_msg_and_related_bugs_use_long_ids() {
    let c = client(None, None);
    expect_get(
        plan_request(
            &c,
            &Cmd::CommitMsg { workspace_id: 6, object_id: s("12"), object_type: s("story") },
        ),
        "svn_commits/get_scm_copy_keywords",
        &[("workspace_id", "6"), ("object_id", "116000000012"), ("type", "story")],
    );
    expect_get(
        plan_request(&c, &Cmd::RelatedBugs { workspace_id: 6, story_id: s("1,2") }),
        "stories/get_related_bugs",
        &[("workspace_id", "6"), ("story_id", "116000000001,116000000002")],
    );
    expect_get(
        plan_request(&c, &Cmd::Image { workspace_id: 6, image_path: s("/a.png") }),
        "files/get_image",
        &[("workspace_id", "6"), ("image_path", "/a.png")],
    );
}

#[test]
fn relation_and_release() {
    let c = client(Some("me"), None);
    expect_post(
        plan_request(
            &c,
            &Cmd::Relation {
                workspace_id: 1,
                params: vec![s("source_id=2"), s("source_type=story"), s("entry_id=4")],
            },
        ),
        "relations",
        &[
            ("workspace_id", "#1"),
            ("source_id", "#2"),
            ("source_type", "story"),
            ("entry_id", "#111000000004"),
        ],
    );
    expect_get(
        plan_request(&c, &Cmd::Release { workspace_id: 1, params: vec![s("id=2")] }),
        "releases",
        &[("workspace_id", "1"), ("id", "111000000002")],
    );
}

#[test]
fn wecom_needs_bot_url() {
    let c = client(None, None);
    match plan_request(&c, &Cmd::Wecom { msg: s("hi") }) {
        Err(e @ PlanError::MissingBotUrl) => assert_eq!(e.message(), "BOT_URL 未配置"),
        _ => panic!("expected a missing bot URL"),
    }
    let c = client(None, Some("https://bot"));
    match plan_request(&c, &Cmd::Wecom { msg: s("hi @a") }) {
        Ok(Request::Wecom { bot_url, payload }) => {
            assert_eq!(bot_url, "https://bot");
            assert_eq!(payload.msgtype, "markdown");
            assert_eq!(payload.content, "hi @a");
        }
        _ => panic!("expected a WeCom message"),
    }
}
