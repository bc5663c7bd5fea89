//! What each command sends, stated with the literal endpoints and field
//! names of the TAPD API, and proved of the request plan.

use vstd::prelude::*;

use crate::cli::{
    BugAction, Cmd, CommentAction, FieldAction, IterAction, StoryAction, TaskAction, TcaseAction,
    TimesheetAction, WikiAction, WorkflowAction,
};
use crate::client::{
    id_keys, lemma_normalized, nick_default, nick_override, normalized, TapdClient,
};
use crate::ids::long_ids;
use crate::text::decimal;
use crate::params::insert_all;
use crate::config::opt_view;
use crate::dispatch::{planned, PlanFailure, RequestView};
use crate::params::{
    coerce, fill_defaults, lemma_workspace_params, parsed_params, string_views, workspace_key,
    workspace_params,
    JsonScalar,
};

verus! {

/// The arguments given on the command line, as a map.
pub open spec fn args(raw: Seq<String>) -> Map<Seq<char>, Seq<char>> {
    parsed_params(string_views(raw))
}

/// The body holds only the workspace, the given arguments and `field`;
/// where there is a nick, `field` holds it, unless the arguments give
/// `field` and the nick does not override it.
pub open spec fn body_with_nick(
    body: Map<Seq<char>, JsonScalar>,
    c: TapdClient,
    raw: Seq<String>,
    field: Seq<char>,
    overriding: bool,
) -> bool {
    &&& forall|k: Seq<char>| #[trigger]
        body.contains_key(k) ==> k == workspace_key() || k == field || args(raw).contains_key(k)
    &&& match c.nick {
        Some(n) => (overriding || !args(raw).contains_key(field)) ==> body.contains_key(field)
            && body[field] == coerce(n@),
        None => true,
    }
}

/// A POST to `endpoint` with such a body.
pub open spec fn posts_with_nick(
    r: Result<RequestView, PlanFailure>,
    endpoint: Seq<char>,
    c: TapdClient,
    raw: Seq<String>,
    field: Seq<char>,
    overriding: bool,
) -> bool {
    match r {
        Ok(RequestView::Post { endpoint: e, body }) => e == endpoint && body_with_nick(
            body,
            c,
            raw,
            field,
            overriding,
        ),
        _ => false,
    }
}

/// The query holds the workspace, and otherwise only the given arguments
/// and the keys of `extra`.
pub open spec fn query_keys(
    params: Map<Seq<char>, Seq<char>>,
    raw: Seq<String>,
    extra: Set<Seq<char>>,
) -> bool {
    &&& params.contains_key(workspace_key())
    &&& forall|k: Seq<char>| #[trigger]
        params.contains_key(k) ==> k == workspace_key() || extra.contains(k) || args(
            raw,
        ).contains_key(k)
}

/// A GET of `endpoint` with such a query.
pub open spec fn gets(
    r: Result<RequestView, PlanFailure>,
    endpoint: Seq<char>,
    raw: Seq<String>,
    extra: Set<Seq<char>>,
) -> bool {
    match r {
        Ok(RequestView::Get { endpoint: e, params }) => e == endpoint && query_keys(
            params,
            raw,
            extra,
        ),
        _ => false,
    }
}

/// A GET of `endpoint` that lists: page 1 and `limit` items per page
/// unless the arguments say otherwise.
pub open spec fn lists(
    r: Result<RequestView, PlanFailure>,
    endpoint: Seq<char>,
    raw: Seq<String>,
    limit: Seq<char>,
) -> bool {
    match r {
        Ok(RequestView::Get { endpoint: e, params }) => {
            &&& e == endpoint
            &&& query_keys(params, raw, set!["page"@, "limit"@])
            &&& !args(raw).contains_key("page"@) ==> params.contains_key("page"@)
                && params["page"@] == "1"@
            &&& !args(raw).contains_key("limit"@) ==> params.contains_key("limit"@)
                && params["limit"@] == limit
        },
        _ => false,
    }
}

proof fn lemma_body(c: TapdClient, ws: u64, raw: Seq<String>, field: Seq<char>, overriding: bool)
    requires
        field != workspace_key(),
    ensures
        ({
            let m = normalized(workspace_params(ws, string_views(raw), seq![]), c.is_cloud);
            let b = if overriding {
                nick_override(m, opt_view(c.nick), field)
            } else {
                nick_default(m, opt_view(c.nick), field)
            };
            body_with_nick(b.map_values(|v: Seq<char>| coerce(v)), c, raw, field, overriding)
        }),
{
    let sv = string_views(raw);
    let w = workspace_params(ws, sv, seq![]);
    lemma_workspace_params(ws, sv, seq![]);
    lemma_normalized(w, c.is_cloud);
    let m = normalized(w, c.is_cloud);
    assert(m.dom() == w.dom());
    assert(!m.contains_key(field) <== !args(raw).contains_key(field)) by {
        if m.contains_key(field) {
            assert(w.contains_key(field));
        }
    }
}


/// A key of a length that no ID parameter has is not an ID parameter.
proof fn lemma_not_id_key(k: Seq<char>)
    requires
        k.len() != 2 && k.len() != 8 && k.len() != 9,
    ensures
        !id_keys().contains(k),
{
    reveal_strlit("id");
    reveal_strlit("entry_id");
    reveal_strlit("object_id");
    reveal_strlit("story_id");
    let ks = id_keys();
    if ks.contains(k) {
        let i = choose|i: int| 0 <= i < ks.len() && ks[i] == k;
        assert(ks[0] == "id"@ && ks[1] == "entry_id"@ && ks[2] == "object_id"@ && ks[3]
            == "story_id"@);
    }
}

proof fn lemma_query(c: TapdClient, ws: u64, raw: Seq<String>)
    ensures
        query_keys(
            normalized(workspace_params(ws, string_views(raw), seq![]), c.is_cloud),
            raw,
            Set::empty(),
        ),
{
    let sv = string_views(raw);
    let w = workspace_params(ws, sv, seq![]);
    lemma_workspace_params(ws, sv, seq![]);
    lemma_normalized(w, c.is_cloud);
}

proof fn lemma_list(c: TapdClient, ws: u64, raw: Seq<String>, limit: Seq<char>, endpoint: Seq<char>)
    ensures
        ({
            let d = seq![("page"@, "1"@), ("limit"@, limit)];
            let params = normalized(workspace_params(ws, string_views(raw), d), c.is_cloud);
            lists(Ok(RequestView::Get { endpoint, params }), endpoint, raw, limit)
        }),
{
    reveal_strlit("page");
    reveal_strlit("limit");
    reveal_strlit("1");
    let sv = string_views(raw);
    let d = seq![("page"@, "1"@), ("limit"@, limit)];
    let w = workspace_params(ws, sv, d);
    lemma_workspace_params(ws, sv, d);
    lemma_normalized(w, c.is_cloud);
    lemma_not_id_key("page"@);
    lemma_not_id_key("limit"@);
    let params = normalized(w, c.is_cloud);
    assert(d[0].0 == "page"@ && d[1].0 == "limit"@);
    assert forall|k: Seq<char>| #[trigger]
        params.contains_key(k) implies k == workspace_key() || set!["page"@, "limit"@].contains(k)
        || args(raw).contains_key(k) by {
        assert(w.contains_key(k));
        if !(k == workspace_key() || args(raw).contains_key(k)) {
            let i = choose|i: int| 0 <= i < d.len() && (#[trigger] d[i]).0 == k;
        }
    }
    let m0 = parsed_params(sv).insert(workspace_key(), crate::text::decimal(ws as nat));
    assert(d.drop_last().drop_last() =~= Seq::<(Seq<char>, Seq<char>)>::empty());
    let p0 = fill_defaults(m0, d.drop_last().drop_last());
    assert(p0 == m0);
    let p1 = fill_defaults(m0, d.drop_last());
    assert(d.drop_last().last() == ("page"@, "1"@));
    assert(d.last() == ("limit"@, limit));
    assert("page"@ != "limit"@);
    assert("page"@ != workspace_key());
    assert("limit"@ != workspace_key());
    if !args(raw).contains_key("page"@) {
        assert(!m0.contains_key("page"@));
        assert(p1.contains_key("page"@) && p1["page"@] == "1"@);
        assert(w.contains_key("page"@) && w["page"@] == "1"@);
    }
    if !args(raw).contains_key("limit"@) {
        assert(!m0.contains_key("limit"@));
        assert(!p1.contains_key("limit"@));
        assert(w.contains_key("limit"@) && w["limit"@] == limit);
    }
}


/// Story commands: `list` queries `stories`, ten per page by default;
/// `create` posts to `stories` with the nick as `creator` unless given;
/// `update` posts to `stories` with the nick as `current_user`; `count`
/// queries `stories/count`.
pub proof fn lemma_story_commands(c: TapdClient, ws: u64, params: Vec<String>)
    ensures
        lists(
            planned(c, Cmd::Story { action: StoryAction::List { workspace_id: ws, params } }),
            "stories"@,
            params@,
            "10"@,
        ),
        posts_with_nick(
            planned(c, Cmd::Story { action: StoryAction::Create { workspace_id: ws, params } }),
            "stories"@,
            c,
            params@,
            "creator"@,
            false,
        ),
        posts_with_nick(
            planned(c, Cmd::Story { action: StoryAction::Update { workspace_id: ws, params } }),
            "stories"@,
            c,
            params@,
            "current_user"@,
            true,
        ),
        gets(
            planned(c, Cmd::Story { action: StoryAction::Count { workspace_id: ws, params } }),
            "stories/count"@,
            params@,
            Set::empty(),
        ),
{
    reveal_strlit("creator");
    reveal_strlit("current_user");
    lemma_list(c, ws, params@, "10"@, "stories"@);
    lemma_body(c, ws, params@, "creator"@, false);
    lemma_body(c, ws, params@, "current_user"@, true);
    lemma_query(c, ws, params@);
}

/// Task commands: `list` queries `tasks`, ten per page by default;
/// `create` posts to `tasks` with the nick as `creator` unless given;
/// `update` posts to `tasks` with the nick as `current_user`; `count`
/// queries `tasks/count`.
pub proof fn lemma_task_commands(c: TapdClient, ws: u64, params: Vec<String>)
    ensures
        lists(
            planned(c, Cmd::Task { action: TaskAction::List { workspace_id: ws, params } }),
            "tasks"@,
            params@,
            "10"@,
        ),
        posts_with_nick(
            planned(c, Cmd::Task { action: TaskAction::Create { workspace_id: ws, params } }),
            "tasks"@,
            c,
            params@,
            "creator"@,
            false,
        ),
        posts_with_nick(
            planned(c, Cmd::Task { action: TaskAction::Update { workspace_id: ws, params } }),
            "tasks"@,
            c,
            params@,
            "current_user"@,
            true,
        ),
        gets(
            planned(c, Cmd::Task { action: TaskAction::Count { workspace_id: ws, params } }),
            "tasks/count"@,
            params@,
            Set::empty(),
        ),
{
    reveal_strlit("creator");
    reveal_strlit("current_user");
    lemma_list(c, ws, params@, "10"@, "tasks"@);
    lemma_body(c, ws, params@, "creator"@, false);
    lemma_body(c, ws, params@, "current_user"@, true);
    lemma_query(c, ws, params@);
}

/// Bug commands: `list` queries `bugs`, ten per page by default; `create`
/// posts to `bugs` with the nick as `reporter` unless given; `update` posts
/// to `bugs` with the nick as `current_user`; `count` queries `bugs/count`.
pub proof fn lemma_bug_commands(c: TapdClient, ws: u64, params: Vec<String>)
    ensures
        lists(
            planned(c, Cmd::Bug { action: BugAction::List { workspace_id: ws, params } }),
            "bugs"@,
            params@,
            "10"@,
        ),
        posts_with_nick(
            planned(c, Cmd::Bug { action: BugAction::Create { workspace_id: ws, params } }),
            "bugs"@,
            c,
            params@,
            "reporter"@,
            false,
        ),
        posts_with_nick(
            planned(c, Cmd::Bug { action: BugAction::Update { workspace_id: ws, params } }),
            "bugs"@,
            c,
            params@,
            "current_user"@,
            true,
        ),
        gets(
            planned(c, Cmd::Bug { action: BugAction::Count { workspace_id: ws, params } }),
            "bugs/count"@,
            params@,
            Set::empty(),
        ),
{
    reveal_strlit("reporter");
    reveal_strlit("current_user");
    lemma_list(c, ws, params@, "10"@, "bugs"@);
    lemma_body(c, ws, params@, "reporter"@, false);
    lemma_body(c, ws, params@, "current_user"@, true);
    lemma_query(c, ws, params@);
}

/// Iteration commands: `list` queries `iterations`, ten per page by
/// default; `create` posts with the nick as `creator` unless given;
/// `update` posts with the nick as `current_user`.
pub proof fn lemma_iteration_commands(c: TapdClient, ws: u64, params: Vec<String>)
    ensures
        lists(
            planned(c, Cmd::Iteration { action: IterAction::List { workspace_id: ws, params } }),
            "iterations"@,
            params@,
            "10"@,
        ),
        posts_with_nick(
            planned(c, Cmd::Iteration { action: IterAction::Create { workspace_id: ws, params } }),
            "iterations"@,
            c,
            params@,
            "creator"@,
            false,
        ),
        posts_with_nick(
            planned(c, Cmd::Iteration { action: IterAction::Update { workspace_id: ws, params } }),
            "iterations"@,
            c,
            params@,
            "current_user"@,
            true,
        ),
{
    reveal_strlit("creator");
    reveal_strlit("current_user");
    lemma_list(c, ws, params@, "10"@, "iterations"@);
    lemma_body(c, ws, params@, "creator"@, false);
    lemma_body(c, ws, params@, "current_user"@, true);
}

/// Comment commands: `list` queries `comments`, ten per page by default;
/// `create` posts with the nick as `author` unless given; `update` posts
/// with the nick as `change_creator`.
pub proof fn lemma_comment_commands(c: TapdClient, ws: u64, params: Vec<String>)
    ensures
        lists(
            planned(c, Cmd::Comment { action: CommentAction::List { workspace_id: ws, params } }),
            "comments"@,
            params@,
            "10"@,
        ),
        posts_with_nick(
            planned(c, Cmd::Comment { action: CommentAction::Create { workspace_id: ws, params } }),
            "comments"@,
            c,
            params@,
            "author"@,
            false,
        ),
        posts_with_nick(
            planned(c, Cmd::Comment { action: CommentAction::Update { workspace_id: ws, params } }),
            "comments"@,
            c,
            params@,
            "change_creator"@,
            true,
        ),
{
    reveal_strlit("author");
    reveal_strlit("change_creator");
    lemma_list(c, ws, params@, "10"@, "comments"@);
    lemma_body(c, ws, params@, "author"@, false);
    lemma_body(c, ws, params@, "change_creator"@, true);
}

/// Wiki commands: `list` queries `tapd_wikis`, thirty per page by default;
/// `create` posts with the nick as `creator` unless given; `update` posts
/// with the nick as `modifier`.
pub proof fn lemma_wiki_commands(c: TapdClient, ws: u64, params: Vec<String>)
    ensures
        lists(
            planned(c, Cmd::Wiki { action: WikiAction::List { workspace_id: ws, params } }),
            "tapd_wikis"@,
            params@,
            "30"@,
        ),
        posts_with_nick(
            planned(c, Cmd::Wiki { action: WikiAction::Create { workspace_id: ws, params } }),
            "tapd_wikis"@,
            c,
            params@,
            "creator"@,
            false,
        ),
        posts_with_nick(
            planned(c, Cmd::Wiki { action: WikiAction::Update { workspace_id: ws, params } }),
            "tapd_wikis"@,
            c,
            params@,
            "modifier"@,
            true,
        ),
{
    reveal_strlit("creator");
    reveal_strlit("modifier");
    lemma_list(c, ws, params@, "30"@, "tapd_wikis"@);
    lemma_body(c, ws, params@, "creator"@, false);
    lemma_body(c, ws, params@, "modifier"@, true);
}

/// Test case commands: `list` queries `tcases`, thirty per page by
/// default; `create` posts with the nick as `creator` unless given.
pub proof fn lemma_tcase_commands(c: TapdClient, ws: u64, params: Vec<String>)
    ensures
        lists(
            planned(c, Cmd::Tcase { action: TcaseAction::List { workspace_id: ws, params } }),
            "tcases"@,
            params@,
            "30"@,
        ),
        posts_with_nick(
            planned(c, Cmd::Tcase { action: TcaseAction::Create { workspace_id: ws, params } }),
            "tcases"@,
            c,
            params@,
            "creator"@,
            false,
        ),
{
    reveal_strlit("creator");
    lemma_list(c, ws, params@, "30"@, "tcases"@);
    lemma_body(c, ws, params@, "creator"@, false);
}

/// Time sheet commands: `list` queries `timesheets`; `add` and `update`
/// post to `timesheets` with the nick as `owner`.
pub proof fn lemma_timesheet_commands(c: TapdClient, ws: u64, params: Vec<String>)
    ensures
        gets(
            planned(c, Cmd::Timesheet { action: TimesheetAction::List { workspace_id: ws, params } }),
            "timesheets"@,
            params@,
            Set::empty(),
        ),
        posts_with_nick(
            planned(c, Cmd::Timesheet { action: TimesheetAction::Add { workspace_id: ws, params } }),
            "timesheets"@,
            c,
            params@,
            "owner"@,
            true,
        ),
        posts_with_nick(
            planned(
                c,
                Cmd::Timesheet { action: TimesheetAction::Update { workspace_id: ws, params } },
            ),
            "timesheets"@,
            c,
            params@,
            "owner"@,
            true,
        ),
{
    reveal_strlit("owner");
    lemma_query(c, ws, params@);
    lemma_body(c, ws, params@, "owner"@, true);
}

/// Workflow commands query `workflows/all_transitions`,
/// `workflows/status_map` and `workflows/last_steps`.
pub proof fn lemma_workflow_commands(c: TapdClient, ws: u64, params: Vec<String>)
    ensures
        gets(
            planned(
                c,
                Cmd::Workflow { action: WorkflowAction::Transitions { workspace_id: ws, params } },
            ),
            "workflows/all_transitions"@,
            params@,
            Set::empty(),
        ),
        gets(
            planned(
                c,
                Cmd::Workflow { action: WorkflowAction::StatusMap { workspace_id: ws, params } },
            ),
            "workflows/status_map"@,
            params@,
            Set::empty(),
        ),
        gets(
            planned(
                c,
                Cmd::Workflow { action: WorkflowAction::LastSteps { workspace_id: ws, params } },
            ),
            "workflows/last_steps"@,
            params@,
            Set::empty(),
        ),
{
    lemma_query(c, ws, params@);
}


/// To-do lists: for `story`, `bug` and `task` the query goes to
/// `user_oauth/get_user_todo_` followed by the type, with the workspace
/// where one is given and the page size and page; any other type is
/// refused, naming the type.
pub proof fn lemma_todo_command(
    c: TapdClient,
    ws: Option<u64>,
    entity_type: String,
    limit: u32,
    page: u32,
)
    ensures
        ({
            let r = planned(
                c,
                Cmd::Todo { workspace_id: ws, entity_type, limit, page },
            );
            let t = entity_type@;
            if t == "story"@ || t == "bug"@ || t == "task"@ {
                r matches Ok(RequestView::Get { endpoint, params }) && {
                    &&& endpoint == "user_oauth/get_user_todo_"@ + t
                    &&& params.contains_key("limit"@) && params["limit"@] == decimal(limit as nat)
                    &&& params.contains_key("page"@) && params["page"@] == decimal(page as nat)
                    &&& match ws {
                        Some(w) => params.contains_key(workspace_key()) && params[workspace_key()]
                            == decimal(w as nat),
                        None => !params.contains_key(workspace_key()),
                    }
                    &&& forall|k: Seq<char>| #[trigger]
                        params.contains_key(k) ==> k == workspace_key() || k == "limit"@ || k
                            == "page"@
                }
            } else {
                r == Err::<RequestView, PlanFailure>(PlanFailure::UnsupportedTodoType(t))
            }
        }),
{
    reveal_strlit("story");
    reveal_strlit("bug");
    reveal_strlit("task");
    reveal_strlit("limit");
    reveal_strlit("page");
    reveal_strlit("user_oauth/get_user_todo_");
    reveal_strlit("user_oauth/get_user_todo_story");
    reveal_strlit("user_oauth/get_user_todo_bug");
    reveal_strlit("user_oauth/get_user_todo_task");
    assert("user_oauth/get_user_todo_story"@ =~= "user_oauth/get_user_todo_"@ + "story"@);
    assert("user_oauth/get_user_todo_bug"@ =~= "user_oauth/get_user_todo_"@ + "bug"@);
    assert("user_oauth/get_user_todo_task"@ =~= "user_oauth/get_user_todo_"@ + "task"@);
    reveal_strlit("workspace_id");
    assert(workspace_key() =~= "workspace_id"@);
    assert("limit"@.len() == 5 && "page"@.len() == 4);
    assert("limit"@ != "page"@);
    assert("limit"@ != workspace_key());
    assert("page"@ != workspace_key());
    let t = entity_type@;
    let params = crate::dispatch::todo_params(ws, limit, page);
    assert(params.contains_key("limit"@) && params["limit"@] == decimal(limit as nat));
    assert(params.contains_key("page"@) && params["page"@] == decimal(page as nat));
    match ws {
        Some(w) => {
            assert(params.contains_key(workspace_key()) && params[workspace_key()] == decimal(
                w as nat,
            ));
        },
        None => {
            assert(!params.contains_key(workspace_key()));
        },
    }
    assert forall|k: Seq<char>| #[trigger]
        params.contains_key(k) implies k == workspace_key() || k == "limit"@ || k == "page"@ by {}
    if t == "story"@ {
        assert(crate::dispatch::todo_endpoint(t) == Some("user_oauth/get_user_todo_story"@));
    } else if t == "bug"@ {
        assert(crate::dispatch::todo_endpoint(t) == Some("user_oauth/get_user_todo_bug"@));
    } else if t == "task"@ {
        assert(crate::dispatch::todo_endpoint(t) == Some("user_oauth/get_user_todo_task"@));
    } else {
        assert(crate::dispatch::todo_endpoint(t) is None);
    }
}

/// Projects: the given nick, else the configured one, is sent to
/// `workspaces/user_participant_projects` as `nick`; with neither the
/// command is refused.
pub proof fn lemma_projects_command(c: TapdClient, nick: Option<String>)
    ensures
        ({
            let r = planned(c, Cmd::Projects { nick });
            let chosen = match nick {
                Some(n) => Some(n@),
                None => opt_view(c.nick),
            };
            match chosen {
                Some(n) => r matches Ok(RequestView::Get { endpoint, params }) && endpoint
                    == "workspaces/user_participant_projects"@ && params.dom() =~= set!["nick"@]
                    && params["nick"@] == n,
                None => r == Err::<RequestView, PlanFailure>(PlanFailure::MissingNick),
            }
        }),
{
}

/// Plain queries: custom fields of a type at the type followed by
/// `/custom_fields_settings`, the workspace at
/// `workspaces/get_workspace_info`, field labels at
/// `stories/get_fields_lable`, field information at
/// `stories/get_fields_info`, releases at `releases` and attachments at
/// `attachments`.
pub proof fn lemma_query_commands(c: TapdClient, ws: u64, params: Vec<String>, entity_type: String)
    ensures
        gets(
            planned(c, Cmd::CustomFields { workspace_id: ws, entity_type }),
            entity_type@ + "/custom_fields_settings"@,
            Seq::empty(),
            Set::empty(),
        ),
        gets(
            planned(c, Cmd::Workspace { workspace_id: ws }),
            "workspaces/get_workspace_info"@,
            Seq::empty(),
            Set::empty(),
        ),
        gets(
            planned(c, Cmd::Field { action: FieldAction::Labels { workspace_id: ws } }),
            "stories/get_fields_lable"@,
            Seq::empty(),
            Set::empty(),
        ),
        gets(
            planned(c, Cmd::Field { action: FieldAction::Info { workspace_id: ws } }),
            "stories/get_fields_info"@,
            Seq::empty(),
            Set::empty(),
        ),
        gets(
            planned(c, Cmd::Release { workspace_id: ws, params }),
            "releases"@,
            params@,
            Set::empty(),
        ),
        gets(
            planned(c, Cmd::Attachment { workspace_id: ws, params }),
            "attachments"@,
            params@,
            Set::empty(),
        ),
{
    lemma_query(c, ws, params@);
    lemma_query(c, ws, Seq::empty());
}

/// Relations: posted to `relations` with the workspace and the given
/// arguments only.
pub proof fn lemma_relation_command(c: TapdClient, ws: u64, params: Vec<String>)
    ensures
        planned(c, Cmd::Relation { workspace_id: ws, params }) matches Ok(
            RequestView::Post { endpoint, body },
        ) && endpoint == "relations"@ && body.contains_key(workspace_key()) && forall|k: Seq<char>|
            #[trigger] body.contains_key(k) ==> k == workspace_key() || args(params@).contains_key(k),
{
    lemma_query(c, ws, params@);
}

/// Single-object queries: an image path is sent to `files/get_image` as
/// `image_path`; an object's commit keyword is asked of
/// `svn_commits/get_scm_copy_keywords` with the object ID in long form and
/// its type as `type`; related bugs are asked of
/// `stories/get_related_bugs` with the story IDs in long form; each with
/// the workspace and nothing else.
pub proof fn lemma_object_commands(
    c: TapdClient,
    ws: u64,
    image_path: String,
    object_id: String,
    object_type: String,
    story_id: String,
)
    ensures
        planned(c, Cmd::Image { workspace_id: ws, image_path }) matches Ok(
            RequestView::Get { endpoint, params },
        ) && endpoint == "files/get_image"@ && params == Map::<Seq<char>, Seq<char>>::empty().insert(
            workspace_key(),
            decimal(ws as nat),
        ).insert("image_path"@, image_path@),
        planned(c, Cmd::CommitMsg { workspace_id: ws, object_id, object_type }) matches Ok(
            RequestView::Get { endpoint, params },
        ) && endpoint == "svn_commits/get_scm_copy_keywords"@ && params == Map::<
            Seq<char>,
            Seq<char>,
        >::empty().insert(workspace_key(), decimal(ws as nat)).insert(
            "object_id"@,
            long_ids(object_id@, decimal(ws as nat), c.is_cloud),
        ).insert("type"@, object_type@),
        planned(c, Cmd::RelatedBugs { workspace_id: ws, story_id }) matches Ok(
            RequestView::Get { endpoint, params },
        ) && endpoint == "stories/get_related_bugs"@ && params == Map::<
            Seq<char>,
            Seq<char>,
        >::empty().insert(workspace_key(), decimal(ws as nat)).insert(
            "story_id"@,
            long_ids(story_id@, decimal(ws as nat), c.is_cloud),
        ),
{
    reveal_strlit("image_path");
    reveal_strlit("object_id");
    reveal_strlit("type");
    reveal_strlit("story_id");
    reveal_strlit("workspace_id");
    assert(workspace_key() =~= "workspace_id"@);
    assert("object_id"@.len() == 9 && "type"@.len() == 4 && "story_id"@.len() == 8);
    assert("image_path"@.len() == 10);
    let d = decimal(ws as nat);
    let e = Map::<Seq<char>, Seq<char>>::empty().insert(workspace_key(), d);
    let pi = seq![("image_path"@, image_path@)];
    assert(pi.drop_last() =~= Seq::<(Seq<char>, Seq<char>)>::empty());
    assert(insert_all(e, pi.drop_last()) == e);
    assert(pi.last() == ("image_path"@, image_path@));
    assert(crate::params::workspace_pairs(ws, pi) == e.insert("image_path"@, image_path@));
    let pc = seq![("object_id"@, object_id@), ("type"@, object_type@)];
    assert(pc.drop_last().drop_last() =~= Seq::<(Seq<char>, Seq<char>)>::empty());
    assert(insert_all(e, pc.drop_last().drop_last()) == e);
    assert(pc.drop_last().last() == ("object_id"@, object_id@));
    assert(pc.last() == ("type"@, object_type@));
    assert(insert_all(e, pc.drop_last()) == e.insert("object_id"@, object_id@));
    let mc = e.insert("object_id"@, object_id@).insert("type"@, object_type@);
    assert(crate::params::workspace_pairs(ws, pc) == mc);
    lemma_normalized(mc, c.is_cloud);
    lemma_not_id_key("type"@);
    lemma_not_id_key(workspace_key());
    assert(id_keys()[2] == "object_id"@);
    assert(normalized(mc, c.is_cloud) =~= e.insert(
        "object_id"@,
        long_ids(object_id@, d, c.is_cloud),
    ).insert("type"@, object_type@));
    let ps = seq![("story_id"@, story_id@)];
    assert(ps.drop_last() =~= Seq::<(Seq<char>, Seq<char>)>::empty());
    assert(insert_all(e, ps.drop_last()) == e);
    assert(ps.last() == ("story_id"@, story_id@));
    let ms = e.insert("story_id"@, story_id@);
    assert(crate::params::workspace_pairs(ws, ps) == ms);
    lemma_normalized(ms, c.is_cloud);
    assert(id_keys()[3] == "story_id"@);
    assert(normalized(ms, c.is_cloud) =~= e.insert(
        "story_id"@,
        long_ids(story_id@, d, c.is_cloud),
    ));
}


/// WeCom messages go to the configured robot as `markdown` when the text
/// mentions someone (holds `@`), else as `markdown_v2`, with the text as
/// content; without a robot URL the command is refused.
pub proof fn lemma_wecom_command(c: TapdClient, msg: String)
    ensures
        match c.bot_url {
            Some(u) => planned(c, Cmd::Wecom { msg }) == Ok::<RequestView, PlanFailure>(
                RequestView::Wecom {
                    bot_url: u@,
                    msgtype: if msg@.contains('@') {
                        "markdown"@
                    } else {
                        "markdown_v2"@
                    },
                    content: msg@,
                },
            ),
            None => planned(c, Cmd::Wecom { msg }) == Err::<RequestView, PlanFailure>(
                PlanFailure::MissingBotUrl,
            ),
        },
{
}

} // verus!
