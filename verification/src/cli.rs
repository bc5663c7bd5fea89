//! The command line: the global options and each command with its
//! arguments. Parsing the command line itself is left to the caller.

use vstd::prelude::*;

verus! {

/// The parsed command line.
pub struct Cli {
    pub cmd: Cmd,
    /// Print compact JSON instead of pretty-printed JSON.
    pub raw: bool,
}

/// A top-level command.
pub enum Cmd {
    /// The projects the user takes part in.
    Projects { nick: Option<String> },
    /// Stories.
    Story { action: StoryAction },
    /// Tasks.
    Task { action: TaskAction },
    /// Bugs.
    Bug { action: BugAction },
    /// Iterations.
    Iteration { action: IterAction },
    /// Comments.
    Comment { action: CommentAction },
    /// Wiki pages.
    Wiki { action: WikiAction },
    /// Test cases.
    Tcase { action: TcaseAction },
    /// Workflow information.
    Workflow { action: WorkflowAction },
    /// Field information.
    Field { action: FieldAction },
    /// Project information.
    Workspace { workspace_id: u64 },
    /// Custom field settings of an entity type.
    CustomFields { workspace_id: u64, entity_type: String },
    /// The user's to-do items of one type.
    Todo { workspace_id: Option<u64>, entity_type: String, limit: u32, page: u32 },
    /// Time sheets.
    Timesheet { action: TimesheetAction },
    /// Release plans.
    Release { workspace_id: u64, params: Vec<String> },
    /// Attachments and their download links.
    Attachment { workspace_id: u64, params: Vec<String> },
    /// The download link of an image.
    Image { workspace_id: u64, image_path: String },
    /// The SCM commit keyword of an object.
    CommitMsg { workspace_id: u64, object_id: String, object_type: String },
    /// A WeCom robot message.
    Wecom { msg: String },
    /// A relation between two entities.
    Relation { workspace_id: u64, params: Vec<String> },
    /// Replace the program with its latest release.
    Update,
    /// The bugs related to stories.
    RelatedBugs { workspace_id: u64, story_id: String },
}

/// Story commands.
pub enum StoryAction {
    List { workspace_id: u64, params: Vec<String> },
    Create { workspace_id: u64, params: Vec<String> },
    Update { workspace_id: u64, params: Vec<String> },
    Count { workspace_id: u64, params: Vec<String> },
}

/// Task commands.
pub enum TaskAction {
    List { workspace_id: u64, params: Vec<String> },
    Create { workspace_id: u64, params: Vec<String> },
    Update { workspace_id: u64, params: Vec<String> },
    Count { workspace_id: u64, params: Vec<String> },
}

/// Bug commands.
pub enum BugAction {
    List { workspace_id: u64, params: Vec<String> },
    Create { workspace_id: u64, params: Vec<String> },
    Update { workspace_id: u64, params: Vec<String> },
    Count { workspace_id: u64, params: Vec<String> },
}

/// Iteration commands.
pub enum IterAction {
    List { workspace_id: u64, params: Vec<String> },
    Create { workspace_id: u64, params: Vec<String> },
    Update { workspace_id: u64, params: Vec<String> },
}

/// Comment commands.
pub enum CommentAction {
    List { workspace_id: u64, params: Vec<String> },
    Create { workspace_id: u64, params: Vec<String> },
    Update { workspace_id: u64, params: Vec<String> },
}

/// Wiki commands.
pub enum WikiAction {
    List { workspace_id: u64, params: Vec<String> },
    Create { workspace_id: u64, params: Vec<String> },
    Update { workspace_id: u64, params: Vec<String> },
}

/// Test case commands.
pub enum TcaseAction {
    List { workspace_id: u64, params: Vec<String> },
    Create { workspace_id: u64, params: Vec<String> },
}

/// Time sheet commands.
pub enum TimesheetAction {
    List { workspace_id: u64, params: Vec<String> },
    Add { workspace_id: u64, params: Vec<String> },
    Update { workspace_id: u64, params: Vec<String> },
}

/// Workflow commands.
pub enum WorkflowAction {
    Transitions { workspace_id: u64, params: Vec<String> },
    StatusMap { workspace_id: u64, params: Vec<String> },
    LastSteps { workspace_id: u64, params: Vec<String> },
}

/// Field commands.
pub enum FieldAction {
    /// The names of story fields in both languages.
    Labels { workspace_id: u64 },
    /// Story fields and their candidate values.
    Info { workspace_id: u64 },
}

} // verus!
