use vstd::prelude::*;
use crate::stash::{find_stash, labelled, parse_stash_list, stash_entries, stash_name_for_branch, stash_tag};
use crate::text::{count_of, parse_count, trim_of, trimmed};

verus! {

/// A verb of the command line.
pub enum Command {
    /// Clone a repository.
    Clone { url: String },
    /// Fetch, integrate remote commits by rebasing, and publish local ones.
    Sync,
    /// Show the current branch and the short status.
    Status,
    /// View commit history (not available).
    History,
    /// Stage the changes that match a path pattern.
    Stage { pattern: String },
    /// Unstage the changes that match a path pattern.
    Unstage { pattern: String },
    /// Discard every local change to the current branch.
    Clear,
    /// Commit the staged changes, then synchronise.
    Commit { message: String },
    /// Switch to another branch, carrying local changes over.
    Switch { branch_name: String },
    /// Create a new branch from the current one, keeping staged changes.
    Branch { branch_name: String },
    /// Not available.
    Undo,
    /// Not available.
    Redo,
    /// Not available.
    Rewrite,
    /// Rebase the current branch onto another, after bringing that one up
    /// to date.
    Rebase { other_branch: String },
}

impl Command {
    /// Whether the verb has a meaning (history, undo, redo and rewrite have none).
    pub open spec fn available(&self) -> bool {
        !(self is History || self is Undo || self is Redo || self is Rewrite)
    }

    pub fn is_available(&self) -> (r: bool)
        ensures
            r == self.available(),
    {
        match self {
            Command::History | Command::Undo | Command::Redo | Command::Rewrite => false,
            _ => true,
        }
    }
}

/// One primitive git invocation of a verb.
pub enum Task {
    /// Runs git with these arguments; its output is not read.
    Git(Vec<String>),
    /// Reads the current branch name into the session.
    ReadBranch,
    /// Reads the current branch name and keeps it to come back to.
    SaveBranch,
    /// Stashes everything under the current branch's label; with `true` the
    /// index and working tree are kept.
    StashPush(bool),
    /// Lists the stashes and, if one carries the current branch's label,
    /// goes on by popping it.
    StashLookup,
    /// Counts the commits of the branch that its remote lacks.
    CountAhead,
    /// Counts the commits of the remote that the branch lacks.
    CountBehind,
    /// Checks out the branch kept by `SaveBranch`.
    CheckoutSaved,
    /// Reads the short status.
    ShowStatus,
}

pub enum TaskView {
    Git(Seq<Seq<char>>),
    ReadBranch,
    SaveBranch,
    StashPush(bool),
    StashLookup,
    CountAhead,
    CountBehind,
    CheckoutSaved,
    ShowStatus,
}

impl View for Task {
    type V = TaskView;

    open spec fn view(&self) -> TaskView {
        match self {
            Task::Git(a) => TaskView::Git(arg_views(a@)),
            Task::ReadBranch => TaskView::ReadBranch,
            Task::SaveBranch => TaskView::SaveBranch,
            Task::StashPush(k) => TaskView::StashPush(*k),
            Task::StashLookup => TaskView::StashLookup,
            Task::CountAhead => TaskView::CountAhead,
            Task::CountBehind => TaskView::CountBehind,
            Task::CheckoutSaved => TaskView::CheckoutSaved,
            Task::ShowStatus => TaskView::ShowStatus,
        }
    }
}

pub open spec fn task_views(v: Seq<Task>) -> Seq<TaskView> {
    v.map_values(|t: Task| t@)
}

pub open spec fn arg_views(v: Seq<String>) -> Seq<Seq<char>> {
    v.map_values(|a: String| a@)
}

/// The arguments of git for a task, given the branch last read and the
/// branch kept to come back to.
pub open spec fn args_of(t: TaskView, branch: Seq<char>, saved: Seq<char>) -> Seq<Seq<char>> {
    match t {
        TaskView::Git(a) => a,
        TaskView::ReadBranch => seq!["rev-parse"@, "--abbrev-ref"@, "HEAD"@],
        TaskView::SaveBranch => seq!["rev-parse"@, "--abbrev-ref"@, "HEAD"@],
        TaskView::StashPush(keep) => if keep {
            seq!["stash"@, "push"@, "-k"@, "-m"@, stash_tag(branch)]
        } else {
            seq!["stash"@, "push"@, "-m"@, stash_tag(branch)]
        },
        TaskView::StashLookup => seq!["stash"@, "list"@],
        TaskView::CountAhead => seq!["rev-list"@, "origin/"@ + branch + ".."@ + branch, "--count"@],
        TaskView::CountBehind => seq!["rev-list"@, branch + "..origin/"@ + branch, "--count"@],
        TaskView::CheckoutSaved => seq!["checkout"@, saved],
        TaskView::ShowStatus => seq!["status"@, "--short"@],
    }
}

/// A single git invocation whose output is not read.
pub open spec fn git_step(args: Seq<Seq<char>>) -> Seq<TaskView> {
    seq![TaskView::Git(args)]
}

/// Reads the current branch name.
pub open spec fn branch_plan() -> Seq<TaskView> {
    seq![TaskView::ReadBranch]
}

/// Counts the local commits that the remote lacks.
pub open spec fn ahead_plan() -> Seq<TaskView> {
    branch_plan() + seq![TaskView::CountAhead]
}

/// Counts the remote commits that the branch lacks.
pub open spec fn behind_plan() -> Seq<TaskView> {
    branch_plan() + seq![TaskView::CountBehind]
}

/// Synchronisation: fetch, count both ways, rebase onto the remote, push.
pub open spec fn sync_plan() -> Seq<TaskView> {
    git_step(seq!["fetch"@]) + ahead_plan() + behind_plan() + git_step(seq!["pull"@, "--rebase"@])
        + git_step(seq!["push"@])
}

/// Stages everything that matches a path pattern.
pub open spec fn stage_plan(pattern: Seq<char>) -> Seq<TaskView> {
    git_step(seq!["add"@, pattern])
}

/// Unstages everything that matches a path pattern.
pub open spec fn unstage_plan(pattern: Seq<char>) -> Seq<TaskView> {
    git_step(seq!["reset"@, pattern])
}

/// Stashes all local changes of the current branch under its label; when
/// `keep_staged`, the stash leaves them in place and they are unstaged.
pub open spec fn preserve_plan(keep_staged: bool) -> Seq<TaskView> {
    let stashed = branch_plan() + stage_plan("."@) + seq![TaskView::StashPush(keep_staged)];
    if keep_staged {
        stashed + unstage_plan("."@)
    } else {
        stashed
    }
}

/// Brings back the changes stashed under the current branch's label.
pub open spec fn restore_plan() -> Seq<TaskView> {
    branch_plan() + seq![TaskView::StashLookup]
}

/// Switching: preserve, check out, restore.
pub open spec fn switch_plan(checkout: TaskView) -> Seq<TaskView> {
    preserve_plan(false) + seq![checkout] + restore_plan()
}

pub open spec fn checkout_of(branch: Seq<char>) -> TaskView {
    TaskView::Git(seq!["checkout"@, branch])
}

/// The steps of a verb, in order.
pub open spec fn plan(c: Command) -> Seq<TaskView> {
    match c {
        Command::Clone { url } => git_step(seq!["clone"@, url@]),
        Command::Sync => sync_plan(),
        Command::Status => branch_plan() + seq![TaskView::ShowStatus],
        Command::Stage { pattern } => stage_plan(pattern@),
        Command::Unstage { pattern } => unstage_plan(pattern@),
        Command::Clear => git_step(seq!["reset"@, "--hard"@]),
        Command::Commit { message } => git_step(seq!["commit"@, "-m"@, message@]) + sync_plan(),
        Command::Switch { branch_name } => switch_plan(checkout_of(branch_name@)),
        Command::Branch { branch_name } => preserve_plan(true) + git_step(seq!["checkout"@, "-b"@, branch_name@]),
        Command::Rebase { other_branch } => seq![TaskView::SaveBranch] + switch_plan(checkout_of(other_branch@))
            + sync_plan() + switch_plan(TaskView::CheckoutSaved) + git_step(seq!["rebase"@, other_branch@]),
        _ => seq![],
    }
}

/// What a verb reports when it completes.
pub enum Reporting {
    Nothing,
    Counts,
    ShortStatus,
}

pub open spec fn reporting_of(c: Command) -> Reporting {
    match c {
        Command::Sync | Command::Commit { .. } => Reporting::Counts,
        Command::Status => Reporting::ShortStatus,
        _ => Reporting::Nothing,
    }
}

/// The failures of a verb.
pub enum GudError {
    /// git could not be run; the message that came back.
    Execution(String),
    /// A reply of git did not have the expected shape; the text read.
    Parse(String),
}

/// The result of a completed verb.
pub enum Report {
    Done,
    /// Commits published and commits integrated, as counted before.
    Synced { ahead: usize, behind: usize },
    /// The current branch and git's short status.
    Status { branch: String, changes: String },
}

/// The index of the first entry whose description holds `tag`.
pub open spec fn first_labelled(entries: Seq<(Seq<char>, Seq<char>)>, tag: Seq<char>, from: int) -> Option<int>
    decreases entries.len() - from,
{
    if from < 0 || from >= entries.len() {
        None
    } else if labelled(entries[from], tag) {
        Some(from)
    } else {
        first_labelled(entries, tag, from + 1)
    }
}

/// The steps that follow a stash listing: pop the first stash labelled for
/// `branch` and unstage what it brought back; none if no stash is.
pub open spec fn restore_tasks(listing: Seq<char>, branch: Seq<char>) -> Seq<TaskView> {
    let entries = stash_entries(listing);
    match first_labelled(entries, stash_tag(branch), 0) {
        Some(j) => git_step(seq!["stash"@, "pop"@, entries[j].0]) + unstage_plan("."@),
        None => seq![],
    }
}


proof fn lemma_first_labelled_found(entries: Seq<(Seq<char>, Seq<char>)>, tag: Seq<char>, from: int, j: int)
    requires
        0 <= from <= j < entries.len(),
        labelled(entries[j], tag),
        forall|i: int| from <= i < j ==> !labelled(#[trigger] entries[i], tag),
    ensures
        first_labelled(entries, tag, from) == Some(j),
    decreases j - from,
{
    if from < j {
        lemma_first_labelled_found(entries, tag, from + 1, j);
    }
}

proof fn lemma_first_labelled_none(entries: Seq<(Seq<char>, Seq<char>)>, tag: Seq<char>, from: int)
    requires
        0 <= from,
        forall|i: int| from <= i < entries.len() ==> !labelled(#[trigger] entries[i], tag),
    ensures
        first_labelled(entries, tag, from) is None,
    decreases entries.len() - from,
{
    if from < entries.len() {
        lemma_first_labelled_none(entries, tag, from + 1);
    }
}

/// A failure seen as its kind (`true` for a parse failure) and its text.
pub open spec fn failure_view(f: Option<GudError>) -> Option<(bool, Seq<char>)> {
    match f {
        Some(GudError::Execution(m)) => Some((false, m@)),
        Some(GudError::Parse(m)) => Some((true, m@)),
        None => None,
    }
}

/// How a reply to task `t` fails the verb, if it does: git could not be
/// run, or a count could not be read.
pub open spec fn reply_failure(t: TaskView, reply: Result<String, String>) -> Option<(bool, Seq<char>)> {
    match reply {
        Err(m) => Some((false, m@)),
        Ok(out) => if (t is CountAhead || t is CountBehind) && count_of(trim_of(out@)) is None {
            Some((true, trim_of(out@)))
        } else {
            None
        },
    }
}

/// A verb in progress: the git invocations still to make, and what the
/// replies so far have told.
pub struct Session {
    pub tasks: Vec<Task>,
    pub branch: String,
    pub saved: String,
    pub ahead: usize,
    pub behind: usize,
    pub changes: String,
    pub reporting: Reporting,
    pub failure: Option<GudError>,
}

/// `post` is what `pre` becomes on `reply` to its next invocation.
pub open spec fn advanced(pre: Session, post: Session, reply: Result<String, String>) -> bool {
    let t = pre.queue()[0];
    let rest = pre.queue().drop_first();
    let out = reply->Ok_0@;
    let fail = reply_failure(t, reply);
    &&& failure_view(post.failure) == fail
    &&& post.queue() == if fail is Some {
        seq![]
    } else if t is StashLookup {
        restore_tasks(out, pre.branch@) + rest
    } else {
        rest
    }
    &&& post.reporting == pre.reporting
    &&& post.branch@ == if fail is None && t is ReadBranch { trim_of(out) } else { pre.branch@ }
    &&& post.saved@ == if fail is None && t is SaveBranch { trim_of(out) } else { pre.saved@ }
    &&& post.changes@ == if fail is None && t is ShowStatus { out } else { pre.changes@ }
    &&& post.ahead as nat == if fail is None && t is CountAhead {
        count_of(trim_of(out))->0
    } else {
        pre.ahead as nat
    }
    &&& post.behind as nat == if fail is None && t is CountBehind {
        count_of(trim_of(out))->0
    } else {
        pre.behind as nat
    }
}

fn append_tasks(v: &mut Vec<Task>, more: Vec<Task>)
    ensures
        task_views(final(v)@) == task_views(old(v)@) + task_views(more@),
{
    let ghost m = more@;
    let mut more = more;
    v.append(&mut more);
    assert(task_views(v@) =~= task_views(old(v)@) + task_views(m));
}

fn single(t: Task) -> (r: Vec<Task>)
    ensures
        task_views(r@) == seq![t@],
{
    let r = vec![t];
    assert(task_views(r@) =~= seq![r@[0]@]);
    r
}

/// One git invocation with these arguments, whose output is not read.
pub fn git(args: Vec<String>) -> (r: Vec<Task>)
    ensures
        task_views(r@) == git_step(arg_views(args@)),
{
    single(Task::Git(args))
}

/// Reads the current branch name.
pub fn get_branch_name() -> (r: Vec<Task>)
    ensures
        task_views(r@) == branch_plan(),
{
    single(Task::ReadBranch)
}

/// Counts the local commits that the remote lacks.
pub fn commits_ahead() -> (r: Vec<Task>)
    ensures
        task_views(r@) == ahead_plan(),
{
    let mut r = get_branch_name();
    append_tasks(&mut r, single(Task::CountAhead));
    r
}

/// Counts the remote commits that the branch lacks.
pub fn commits_behind() -> (r: Vec<Task>)
    ensures
        task_views(r@) == behind_plan(),
{
    let mut r = get_branch_name();
    append_tasks(&mut r, single(Task::CountBehind));
    r
}

/// Fetches, counts both ways, rebases onto the remote and pushes.
pub fn sync() -> (r: Vec<Task>)
    ensures
        task_views(r@) == sync_plan(),
{
    let mut r = git(args1(word("fetch")));
    append_tasks(&mut r, commits_ahead());
    append_tasks(&mut r, commits_behind());
    append_tasks(&mut r, git(args2(word("pull"), word("--rebase"))));
    append_tasks(&mut r, git(args1(word("push"))));
    r
}

/// Stages what matches a path pattern.
pub fn stage(pattern: &str) -> (r: Vec<Task>)
    ensures
        task_views(r@) == stage_plan(pattern@),
{
    git(args2(word("add"), word(pattern)))
}

/// Unstages what matches a path pattern.
pub fn unstage(pattern: &str) -> (r: Vec<Task>)
    ensures
        task_views(r@) == unstage_plan(pattern@),
{
    git(args2(word("reset"), word(pattern)))
}

/// Stashes the local changes of the current branch under its label.
pub fn stash_branch_changes(keep: bool) -> (r: Vec<Task>)
    ensures
        task_views(r@) == preserve_plan(keep),
{
    let mut r = get_branch_name();
    append_tasks(&mut r, stage("."));
    append_tasks(&mut r, single(Task::StashPush(keep)));
    if keep {
        append_tasks(&mut r, unstage("."));
    }
    r
}

/// Pops the stash labelled for the current branch, if there is one.
pub fn pop_stashed_branch_changes() -> (r: Vec<Task>)
    ensures
        task_views(r@) == restore_plan(),
{
    let mut r = get_branch_name();
    append_tasks(&mut r, single(Task::StashLookup));
    r
}

fn switch_with(checkout: Task) -> (r: Vec<Task>)
    ensures
        task_views(r@) == switch_plan(checkout@),
{
    let ghost c = checkout@;
    let mut r = stash_branch_changes(false);
    append_tasks(&mut r, single(checkout));
    append_tasks(&mut r, pop_stashed_branch_changes());
    r
}

/// Switches to a branch, carrying the local changes of each branch along.
pub fn switch(branch_name: &str) -> (r: Vec<Task>)
    ensures
        task_views(r@) == switch_plan(checkout_of(branch_name@)),
{
    let args = args2(word("checkout"), word(branch_name));
    switch_with(Task::Git(args))
}

fn args1(a: String) -> (r: Vec<String>)
    ensures
        arg_views(r@) == seq![a@],
{
    let r = vec![a];
    assert(arg_views(r@) =~= seq![r@[0]@]);
    r
}

fn args2(a: String, b: String) -> (r: Vec<String>)
    ensures
        arg_views(r@) == seq![a@, b@],
{
    let r = vec![a, b];
    assert(arg_views(r@) =~= seq![r@[0]@, r@[1]@]);
    r
}

fn args3(a: String, b: String, c: String) -> (r: Vec<String>)
    ensures
        arg_views(r@) == seq![a@, b@, c@],
{
    let r = vec![a, b, c];
    assert(arg_views(r@) =~= seq![r@[0]@, r@[1]@, r@[2]@]);
    r
}

fn args4(a: String, b: String, c: String, d: String) -> (r: Vec<String>)
    ensures
        arg_views(r@) == seq![a@, b@, c@, d@],
{
    let r = vec![a, b, c, d];
    assert(arg_views(r@) =~= seq![r@[0]@, r@[1]@, r@[2]@, r@[3]@]);
    r
}

fn args5(a: String, b: String, c: String, d: String, e: String) -> (r: Vec<String>)
    ensures
        arg_views(r@) == seq![a@, b@, c@, d@, e@],
{
    let r = vec![a, b, c, d, e];
    assert(arg_views(r@) =~= seq![r@[0]@, r@[1]@, r@[2]@, r@[3]@, r@[4]@]);
    r
}

fn word(s: &str) -> (r: String)
    ensures
        r@ == s@,
{
    String::from_str(s)
}

fn copy_args(a: &Vec<String>) -> (r: Vec<String>)
    ensures
        arg_views(r@) == arg_views(a@),
{
    let mut r: Vec<String> = Vec::new();
    let mut i: usize = 0;
    while i < a.len()
        invariant
            i <= a@.len(),
            arg_views(r@) == arg_views(a@).subrange(0, i as int),
        decreases a@.len() - i,
    {
        let ghost before = r@;
        r.push(a[i].clone());
        assert(arg_views(r@) =~= arg_views(before).push(a@[i as int]@));
        i = i + 1;
        assert(arg_views(a@).subrange(0, i as int) =~= arg_views(a@).subrange(0, i - 1).push(a@[i - 1]@));
    }
    assert(arg_views(a@).subrange(0, i as int) =~= arg_views(a@));
    r
}

/// The git arguments of a task.
pub fn command_line(t: &Task, branch: &String, saved: &String) -> (r: Vec<String>)
    ensures
        arg_views(r@) == args_of(t@, branch@, saved@),
{
    match t {
        Task::Git(a) => copy_args(a),
        Task::ReadBranch | Task::SaveBranch => args3(word("rev-parse"), word("--abbrev-ref"), word("HEAD")),
        Task::StashPush(keep) => {
            let tag = stash_name_for_branch(branch.as_str());
            if *keep {
                args5(word("stash"), word("push"), word("-k"), word("-m"), tag)
            } else {
                args4(word("stash"), word("push"), word("-m"), tag)
            }
        },
        Task::StashLookup => args2(word("stash"), word("list")),
        Task::CountAhead => {
            let range = word("origin/").concat(branch.as_str()).concat("..").concat(branch.as_str());
            args3(word("rev-list"), range, word("--count"))
        },
        Task::CountBehind => {
            let range = branch.clone().concat("..origin/").concat(branch.as_str());
            args3(word("rev-list"), range, word("--count"))
        },
        Task::CheckoutSaved => args2(word("checkout"), saved.clone()),
        Task::ShowStatus => args2(word("status"), word("--short")),
    }
}

impl Session {
    pub open spec fn queue(&self) -> Seq<TaskView> {
        task_views(self.tasks@)
    }

    /// Nothing is left to run: the verb failed or completed.
    pub open spec fn finished(&self) -> bool {
        self.failure is Some || self.tasks@.len() == 0
    }

    /// Begins a verb.
    pub fn start(command: Command) -> (s: Session)
        requires
            command.available(),
        ensures
            s.queue() == plan(command),
            s.reporting == reporting_of(command),
            s.failure is None,
            !s.finished(),
            s.branch@.len() == 0,
            s.saved@.len() == 0,
            s.changes@.len() == 0,
            s.ahead == 0,
            s.behind == 0,
    {
        let ghost c = command;
        let reporting = match &command {
            Command::Sync | Command::Commit { .. } => Reporting::Counts,
            Command::Status => Reporting::ShortStatus,
            _ => Reporting::Nothing,
        };
        let v = match command {
            Command::Clone { url } => git(args2(word("clone"), url)),
            Command::Sync => sync(),
            Command::Status => {
                let mut v = get_branch_name();
                append_tasks(&mut v, single(Task::ShowStatus));
                v
            },
            Command::Stage { pattern } => stage(pattern.as_str()),
            Command::Unstage { pattern } => unstage(pattern.as_str()),
            Command::Clear => git(args2(word("reset"), word("--hard"))),
            Command::Commit { message } => {
                let mut v = git(args3(word("commit"), word("-m"), message));
                append_tasks(&mut v, sync());
                v
            },
            Command::Switch { branch_name } => switch(branch_name.as_str()),
            Command::Branch { branch_name } => {
                let mut v = stash_branch_changes(true);
                append_tasks(&mut v, git(args3(word("checkout"), word("-b"), branch_name)));
                v
            },
            Command::Rebase { other_branch } => {
                let mut v = single(Task::SaveBranch);
                append_tasks(&mut v, switch(other_branch.as_str()));
                append_tasks(&mut v, sync());
                append_tasks(&mut v, switch_with(Task::CheckoutSaved));
                append_tasks(&mut v, git(args2(word("rebase"), other_branch)));
                v
            },
            _ => Vec::new(),
        };
        assert(task_views(v@) =~= plan(c));
        Session {
            tasks: v,
            branch: String::new(),
            saved: String::new(),
            ahead: 0,
            behind: 0,
            changes: String::new(),
            reporting,
            failure: None,
        }
    }

    /// The git arguments of the next invocation; none once the verb failed
    /// or completed.
    pub fn next_command(&self) -> (r: Option<Vec<String>>)
        ensures
            r is None <==> self.finished(),
            r is Some ==> arg_views(r->0@) == args_of(self.queue()[0], self.branch@, self.saved@),
    {
        if self.failure.is_some() || self.tasks.len() == 0 {
            None
        } else {
            Some(command_line(&self.tasks[0], &self.branch, &self.saved))
        }
    }

    /// Takes git's reply to the invocation of `next_command`: its output, or
    /// the message of why it could not run. A failure ends the verb, and
    /// nothing after it is run.
    pub fn advance(&mut self, reply: Result<String, String>)
        requires
            !old(self).finished(),
        ensures
            advanced(*old(self), *final(self), reply),
    {
        let ghost pre = *self;
        let t = self.tasks.remove(0);
        assert(task_views(self.tasks@) =~= pre.queue().drop_first());
        match reply {
            Err(m) => {
                self.tasks.clear();
                assert(task_views(self.tasks@) =~= seq![]);
                self.failure = Some(GudError::Execution(m));
            },
            Ok(out) => {
                match t {
                    Task::ReadBranch => {
                        self.branch = trimmed(out.as_str());
                    },
                    Task::SaveBranch => {
                        self.saved = trimmed(out.as_str());
                    },
                    Task::ShowStatus => {
                        self.changes = out;
                    },
                    Task::CountAhead | Task::CountBehind => {
                        let text = trimmed(out.as_str());
                        match parse_count(text.as_str()) {
                            Some(n) => {
                                if let Task::CountAhead = t {
                                    self.ahead = n;
                                } else {
                                    self.behind = n;
                                }
                            },
                            None => {
                                self.tasks.clear();
                                assert(task_views(self.tasks@) =~= seq![]);
                                self.failure = Some(GudError::Parse(text));
                            },
                        }
                    },
                    Task::StashLookup => {
                        let listing = parse_stash_list(out.as_str());
                        let tag = stash_name_for_branch(self.branch.as_str());
                        let ghost entries = stash_entries(out@);
                        let ghost rest = task_views(self.tasks@);
                        match find_stash(&listing, tag.as_str()) {
                            Some(j) => {
                                proof {
                                    assert(entries[j as int] == listing@[j as int].view_pair());
                                    assert forall|i: int| 0 <= i < j implies !labelled(#[trigger] entries[i], tag@) by {
                                        assert(entries[i] == listing@[i].view_pair());
                                    }
                                    lemma_first_labelled_found(entries, tag@, 0, j as int);
                                }
                                let reference = listing[j].reference.clone();
                                let mut popped = git(args3(word("stash"), word("pop"), reference));
                                append_tasks(&mut popped, unstage("."));
                                let mut others = Vec::new();
                                std::mem::swap(&mut others, &mut self.tasks);
                                append_tasks(&mut popped, others);
                                self.tasks = popped;
                                assert(task_views(self.tasks@) =~= restore_tasks(out@, pre.branch@) + rest);
                            },
                            None => {
                                proof {
                                    assert forall|i: int| 0 <= i < entries.len() implies !labelled(#[trigger] entries[i], tag@) by {
                                        assert(entries[i] == listing@[i].view_pair());
                                    }
                                    lemma_first_labelled_none(entries, tag@, 0);
                                }
                                assert(restore_tasks(out@, pre.branch@) + rest =~= rest);
                            },
                        }
                    },
                    _ => {},
                }
            },
        }
    }

    /// What the finished verb comes to: its failure, or what it reports.
    pub fn into_outcome(self) -> (r: Result<Report, GudError>)
        requires
            self.finished(),
        ensures
            self.failure is Some ==> r is Err && failure_view(Some(r->Err_0)) == failure_view(self.failure),
            self.failure is None ==> match self.reporting {
                Reporting::Nothing => r matches Ok(Report::Done),
                Reporting::Counts => r matches Ok(Report::Synced { ahead, behind }) && ahead == self.ahead && behind
                    == self.behind,
                Reporting::ShortStatus => r matches Ok(Report::Status { branch, changes }) && branch@
                    == self.branch@ && changes@ == self.changes@,
            },
    {
        match self.failure {
            Some(e) => Err(e),
            None => match self.reporting {
                Reporting::Nothing => Ok(Report::Done),
                Reporting::Counts => Ok(Report::Synced { ahead: self.ahead, behind: self.behind }),
                Reporting::ShortStatus => Ok(Report::Status { branch: self.branch, changes: self.changes }),
            },
        }
    }
}

/// A restore right after a preserve on the same branch finds the stash that
/// the preserve made: the preserve labels its stash with the branch's tag,
/// and when that stash is on top of the listing the restore pops exactly it
/// and then unstages what came back.
pub proof fn lemma_preserve_then_restore(listing: Seq<char>, branch: Seq<char>, saved: Seq<char>)
    requires
        stash_entries(listing).len() > 0,
        labelled(stash_entries(listing)[0], stash_tag(branch)),
    ensures
        args_of(TaskView::StashPush(false), branch, saved).last() == stash_tag(branch),
        restore_tasks(listing, branch) == git_step(seq!["stash"@, "pop"@, stash_entries(listing)[0].0])
            + unstage_plan("."@),
{
}

/// A restore for a branch that has no stash pops nothing and runs nothing
/// more.
pub proof fn lemma_restore_without_stash(listing: Seq<char>, branch: Seq<char>)
    requires
        forall|i: int|
            0 <= i < stash_entries(listing).len() ==> !labelled(
                #[trigger] stash_entries(listing)[i],
                stash_tag(branch),
            ),
    ensures
        restore_tasks(listing, branch) == Seq::<TaskView>::empty(),
{
    lemma_first_labelled_none(stash_entries(listing), stash_tag(branch), 0);
}

/// Once a step fails, the verb is over: no later step is run.
pub proof fn lemma_failure_stops_verb(pre: Session, post: Session, reply: Result<String, String>)
    requires
        pre.queue().len() > 0,
        advanced(pre, post, reply),
        reply_failure(pre.queue()[0], reply) is Some,
    ensures
        post.finished(),
        post.queue().len() == 0,
{
}

/// Creating a branch keeps the staged changes staged: none of its steps
/// looks a stash up (the only step after which a stash is popped), and the
/// last one checks out the new branch.
pub proof fn lemma_branch_keeps_staged(c: Command)
    requires
        c is Branch,
    ensures
        forall|i: int|
            0 <= i < plan(c).len() ==> !(#[trigger] plan(c)[i] is StashLookup),
        plan(c).last() == TaskView::Git(seq!["checkout"@, "-b"@, c->Branch_branch_name@]),
{
}

} // verus!
