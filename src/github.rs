use vstd::prelude::*;
use vstd::string::*;
use crate::text::{decimal, decimal_digits};

verus! {

/// A job definition as the listing call returns it.
pub struct Workflow {
    pub id: u64,
    pub name: String,
    pub html_url: String,
}

/// One execution of a job, as a snapshot observed by polling.
pub struct WorkflowRun {
    pub id: u64,
    pub name: String,
    pub display_title: String,
    pub html_url: String,
    pub status: String,
    pub conclusion: Option<String>,
    pub head_branch: String,
    pub logs_url: String,
    pub created_at: String,
    pub updated_at: String,
}

/// Where the remote API is reached, and with which credential.
pub struct GitHub {
    token: String,
    owner: String,
    repo: String,
}

pub open spec fn api_root() -> Seq<char> {
    "https://api.github.com/repos/"@
}

impl GitHub {
    pub closed spec fn token_view(&self) -> Seq<char> {
        self.token@
    }

    pub closed spec fn owner_view(&self) -> Seq<char> {
        self.owner@
    }

    pub closed spec fn repo_view(&self) -> Seq<char> {
        self.repo@
    }

    /// `https://api.github.com/repos/{owner}/{repo}`
    pub open spec fn repo_base(&self) -> Seq<char> {
        api_root() + self.owner_view() + "/"@ + self.repo_view()
    }

    pub fn new(token: String, owner: String, repo: String) -> (r: GitHub)
        ensures
            r.token_view() == token@,
            r.owner_view() == owner@,
            r.repo_view() == repo@,
    {
        GitHub { token, owner, repo }
    }

    pub fn token(&self) -> (r: &str)
        ensures
            r@ == self.token_view(),
    {
        self.token.as_str()
    }

    fn base_url(&self) -> (r: String)
        ensures
            r@ == self.repo_base(),
    {
        let mut r = String::from_str("https://api.github.com/repos/");
        r.append(self.owner.as_str());
        r.append("/");
        r.append(self.repo.as_str());
        r
    }

    /// The job listing endpoint.
    pub fn workflows_url(&self) -> (r: String)
        ensures
            r@ == self.repo_base() + "/actions/workflows"@,
    {
        let mut r = self.base_url();
        r.append("/actions/workflows");
        r
    }

    /// The execution listing endpoint of one job.
    pub fn workflow_runs_url(&self, workflow_id: u64) -> (r: String)
        ensures
            r@ == self.repo_base() + "/actions/workflows/"@ + decimal_digits(workflow_id as nat)
                + "/runs"@,
    {
        let mut r = self.base_url();
        r.append("/actions/workflows/");
        let id = decimal(workflow_id);
        r.append(id.as_str());
        r.append("/runs");
        r
    }

    /// The endpoint of one execution.
    pub fn workflow_run_url(&self, run_id: u64) -> (r: String)
        ensures
            r@ == self.repo_base() + "/actions/runs/"@ + decimal_digits(run_id as nat),
    {
        let mut r = self.base_url();
        r.append("/actions/runs/");
        let id = decimal(run_id);
        r.append(id.as_str());
        r
    }

    /// The endpoint that triggers one job.
    pub fn dispatch_url(&self, workflow_id: u64) -> (r: String)
        ensures
            r@ == self.repo_base() + "/actions/workflows/"@ + decimal_digits(workflow_id as nat)
                + "/dispatches"@,
    {
        let mut r = self.base_url();
        r.append("/actions/workflows/");
        let id = decimal(workflow_id);
        r.append(id.as_str());
        r.append("/dispatches");
        r
    }
}

} // verus!
