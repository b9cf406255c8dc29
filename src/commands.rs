use vstd::prelude::*;
use vstd::string::*;
use crate::error::GarError;
use crate::github::{GitHub, WorkflowRun};
use crate::inputs::{inputs_of, parse_inputs, InputMap};
use crate::poll::{on_dispatched, PollAction, PollPhase, SETTLE_MILLIS};
use crate::text::{decimal, decimal_digits};

verus! {

/// The most executions that the history view lists.
pub const HISTORY_LIMIT: usize = 10;

/// What every command needs: the credential, the repository and the reference.
pub struct Command {
    pub token: String,
    pub owner: String,
    pub repo: String,
    pub ref_name: String,
}

/// Installs shell completion.
pub struct AutocompleteCommand {
    _command: Command,
}

/// Shows one past execution and its flattened logs.
pub struct DetailsCommand {
    command: Command,
}

/// Lists the latest executions of a job.
pub struct HistoryCommand {
    command: Command,
}

/// Triggers a job and waits for the new execution to end.
pub struct RunWorkflowCommand {
    command: Command,
    inputs: InputMap,
}

/// What to do once the operator has answered the confirmation prompt.
pub enum DispatchPlan {
    /// Declined: nothing is sent, and that is no error.
    Cancel,
    /// Send the trigger request to this endpoint.
    Trigger { url: String },
}

/// The conclusion shown for an execution; `N/A` while there is none.
pub open spec fn shown_conclusion(c: Option<String>) -> Seq<char> {
    match c {
        Some(x) => x@,
        None => "N/A"@,
    }
}

/// One history row: id, branch, status, conclusion, created, updated, url.
pub open spec fn history_row(run: WorkflowRun) -> Seq<Seq<char>> {
    seq![
        decimal_digits(run.id as nat),
        run.head_branch@,
        run.status@,
        shown_conclusion(run.conclusion),
        run.created_at@,
        run.updated_at@,
        run.html_url@,
    ]
}

/// The detail lines of an execution, in display order.
pub open spec fn detail_view(run: WorkflowRun) -> Seq<Seq<char>> {
    seq![
        "ID: "@ + decimal_digits(run.id as nat),
        "Name: "@ + run.name@,
        "Display Title: "@ + run.display_title@,
        "URL: "@ + run.html_url@,
        "Status: "@ + run.status@,
        "Conclusion: "@ + shown_conclusion(run.conclusion),
        "Branch: "@ + run.head_branch@,
        "Created At: "@ + run.created_at@,
        "Updated At: "@ + run.updated_at@,
    ]
}

pub open spec fn strings_view(v: Seq<String>) -> Seq<Seq<char>> {
    v.map_values(|s: String| s@)
}

fn shown_conclusion_of(c: &Option<String>) -> (r: String)
    ensures
        r@ == shown_conclusion(*c),
{
    match c {
        Some(x) => x.clone(),
        None => String::from_str("N/A"),
    }
}

fn prefixed(prefix: &str, s: &str) -> (r: String)
    ensures
        r@ == prefix@ + s@,
{
    let mut r = String::from_str(prefix);
    r.append(s);
    r
}

impl Command {
    /// The trigger endpoint of job `workflow_id` in this command's repository.
    pub open spec fn github_dispatch(&self, workflow_id: u64) -> Seq<char> {
        "https://api.github.com/repos/"@ + self.owner@ + "/"@ + self.repo@ + "/actions/workflows/"@
            + decimal_digits(workflow_id as nat) + "/dispatches"@
    }

    pub fn new(token: String, owner: String, repo: String, ref_name: String) -> (r: Command)
        ensures
            r.token == token,
            r.owner == owner,
            r.repo == repo,
            r.ref_name == ref_name,
    {
        Command { token, owner, repo, ref_name }
    }

    /// The reference to run against: the one given, else the one detected
    /// from the local checkout, else `main`.
    pub fn resolve_ref(given: Option<String>, detected: Option<String>) -> (r: String)
        ensures
            r@ == match given {
                Some(g) => g@,
                None => match detected {
                    Some(d) => d@,
                    None => "main"@,
                },
            },
    {
        match given {
            Some(g) => g,
            None => match detected {
                Some(d) => d,
                None => String::from_str("main"),
            },
        }
    }

    /// The API client for this command's credential and repository.
    pub fn github(&self) -> (r: GitHub)
        ensures
            r.token_view() == self.token@,
            r.owner_view() == self.owner@,
            r.repo_view() == self.repo@,
    {
        GitHub::new(self.token.clone(), self.owner.clone(), self.repo.clone())
    }
}

impl AutocompleteCommand {
    pub closed spec fn command_view(&self) -> Command {
        self._command
    }

    pub fn new(_command: Command) -> (r: Self)
        ensures
            r.command_view() == _command,
    {
        AutocompleteCommand { _command }
    }
}

impl DetailsCommand {
    pub closed spec fn command_view(&self) -> Command {
        self.command
    }

    pub fn new(command: Command) -> (r: Self)
        ensures
            r.command_view() == command,
    {
        DetailsCommand { command }
    }

    pub fn command(&self) -> (r: &Command)
        ensures
            *r == self.command_view(),
    {
        &self.command
    }

    /// The lines that describe one execution.
    pub fn detail_lines(run: &WorkflowRun) -> (r: Vec<String>)
        ensures
            strings_view(r@) == detail_view(*run),
    {
        let mut r: Vec<String> = Vec::new();
        let id = decimal(run.id);
        r.push(prefixed("ID: ", id.as_str()));
        r.push(prefixed("Name: ", run.name.as_str()));
        r.push(prefixed("Display Title: ", run.display_title.as_str()));
        r.push(prefixed("URL: ", run.html_url.as_str()));
        r.push(prefixed("Status: ", run.status.as_str()));
        let c = shown_conclusion_of(&run.conclusion);
        r.push(prefixed("Conclusion: ", c.as_str()));
        r.push(prefixed("Branch: ", run.head_branch.as_str()));
        r.push(prefixed("Created At: ", run.created_at.as_str()));
        r.push(prefixed("Updated At: ", run.updated_at.as_str()));
        assert(strings_view(r@) =~= detail_view(*run));
        r
    }
}

impl HistoryCommand {
    pub closed spec fn command_view(&self) -> Command {
        self.command
    }

    pub fn new(command: Command) -> (r: Self)
        ensures
            r.command_view() == command,
    {
        HistoryCommand { command }
    }

    pub fn command(&self) -> (r: &Command)
        ensures
            *r == self.command_view(),
    {
        &self.command
    }

    /// The table rows of the latest executions, at most `HISTORY_LIMIT`, in listing order.
    pub fn history_rows(runs: &Vec<WorkflowRun>) -> (r: Vec<Vec<String>>)
        ensures
            r@.len() == if runs@.len() < HISTORY_LIMIT { runs@.len() } else { HISTORY_LIMIT as nat },
            forall|i: int| 0 <= i < r@.len() ==> strings_view((#[trigger] r@[i])@) == history_row(runs@[i]),
    {
        let n = if runs.len() < HISTORY_LIMIT { runs.len() } else { HISTORY_LIMIT };
        let mut r: Vec<Vec<String>> = Vec::new();
        let mut i: usize = 0;
        while i < n
            invariant
                n <= runs@.len(),
                i <= n,
                r@.len() == i,
                forall|k: int| 0 <= k < i ==> strings_view((#[trigger] r@[k])@) == history_row(runs@[k]),
            decreases n - i,
        {
            let run = &runs[i];
            let mut row: Vec<String> = Vec::new();
            row.push(decimal(run.id));
            row.push(run.head_branch.clone());
            row.push(run.status.clone());
            row.push(shown_conclusion_of(&run.conclusion));
            row.push(run.created_at.clone());
            row.push(run.updated_at.clone());
            row.push(run.html_url.clone());
            assert(strings_view(row@) =~= history_row(runs@[i as int]));
            r.push(row);
            i = i + 1;
        }
        r
    }
}

impl RunWorkflowCommand {
    pub closed spec fn command_view(&self) -> Command {
        self.command
    }

    pub closed spec fn inputs_view(&self) -> Map<Seq<char>, Seq<char>> {
        self.inputs@
    }

    pub closed spec fn wf(&self) -> bool {
        self.inputs.wf()
    }

    /// Keeps the command and parses the encoded parameters `k1=v1&k2=v2...`.
    pub fn new(command: Command, inputs: String) -> (r: Self)
        ensures
            r.wf(),
            r.command_view() == command,
            r.inputs_view() == inputs_of(inputs@),
    {
        let parsed = parse_inputs(inputs.as_str());
        RunWorkflowCommand { command, inputs: parsed }
    }

    pub fn command(&self) -> (r: &Command)
        ensures
            *r == self.command_view(),
    {
        &self.command
    }

    pub fn inputs(&self) -> (r: &InputMap)
        requires
            self.wf(),
        ensures
            r.wf(),
            r@ == self.inputs_view(),
    {
        &self.inputs
    }

    /// Declining the confirmation sends nothing; confirming sends the
    /// trigger for job `workflow_id`.
    pub fn plan_dispatch(&self, workflow_id: u64, confirmed: bool) -> (r: DispatchPlan)
        ensures
            !confirmed ==> r is Cancel,
            confirmed ==> (r matches DispatchPlan::Trigger { url } && url@ == self.command_view().github_dispatch(workflow_id)),
    {
        if confirmed {
            let github = self.command.github();
            DispatchPlan::Trigger { url: github.dispatch_url(workflow_id) }
        } else {
            DispatchPlan::Cancel
        }
    }

    /// After the trigger request: a failed one ends the command; a
    /// successful one starts the wait with the settling pause.
    pub fn after_dispatch(succeeded: bool) -> (r: Result<(PollPhase, PollAction), GarError>)
        ensures
            succeeded <==> r is Ok,
            r matches Err(e) ==> e is DispatchFailed,
            r matches Ok(s) ==> s.0 is Dispatched && s.1 == (PollAction::Pause { millis: SETTLE_MILLIS }),
    {
        if succeeded {
            Ok(on_dispatched())
        } else {
            Err(GarError::DispatchFailed)
        }
    }
}

} // verus!
