//! Preflight health checks: the result shape and the aggregation
//! rules.  Probing the system — running `git --version`, testing the
//! credentials, looking for the base directory and SSH keys — is the
//! embedding application's side; it builds each `CheckResult` from
//! what it finds.

use vstd::prelude::*;

use crate::strutil::lemma_filter_push;

verus! {

/// Result of an individual health check.
#[derive(Debug, Clone)]
pub struct CheckResult {
    pub passed: bool,
    pub message: String,
    pub details: Option<String>,
    pub is_warning: bool,
}

impl CheckResult {
    /// A passing check.
    pub fn ok(message: &str) -> (r: Self)
        ensures
            r.passed == true,
            r.message@ == message@,
            r.details is None,
            r.is_warning == false,
    {
        Self { passed: true, message: String::from_str(message), details: None, is_warning: false }
    }

    /// A passing check with details.
    pub fn ok_with_details(message: &str, details: &str) -> (r: Self)
        ensures
            r.passed == true,
            r.message@ == message@,
            r.details matches Some(d) && d@ == details@,
            r.is_warning == false,
    {
        Self {
            passed: true,
            message: String::from_str(message),
            details: Some(String::from_str(details)),
            is_warning: false,
        }
    }

    /// A failing check.
    pub fn error(message: &str) -> (r: Self)
        ensures
            r.passed == false,
            r.message@ == message@,
            r.details is None,
            r.is_warning == false,
    {
        Self { passed: false, message: String::from_str(message), details: None, is_warning: false }
    }

    /// A failing check with details.
    pub fn error_with_details(message: &str, details: &str) -> (r: Self)
        ensures
            r.passed == false,
            r.message@ == message@,
            r.details matches Some(d) && d@ == details@,
            r.is_warning == false,
    {
        Self {
            passed: false,
            message: String::from_str(message),
            details: Some(String::from_str(details)),
            is_warning: false,
        }
    }

    /// A warning: it still passes.
    pub fn warning(message: &str) -> (r: Self)
        ensures
            r.passed == true,
            r.message@ == message@,
            r.details is None,
            r.is_warning == true,
    {
        Self { passed: true, message: String::from_str(message), details: None, is_warning: true }
    }

    /// A warning with details.
    pub fn warning_with_details(message: &str, details: &str) -> (r: Self)
        ensures
            r.passed == true,
            r.message@ == message@,
            r.details matches Some(d) && d@ == details@,
            r.is_warning == true,
    {
        Self {
            passed: true,
            message: String::from_str(message),
            details: Some(String::from_str(details)),
            is_warning: true,
        }
    }
}

/// Result of the system health checks.
#[derive(Debug, Clone)]
pub struct HealthCheck {
    /// Git installation status.
    pub git: CheckResult,
    /// Remote authentication status.
    pub github_auth: CheckResult,
    /// Base directory status.
    pub base_dir: CheckResult,
    /// SSH configuration status; informational only, never required.
    pub ssh: CheckResult,
}

impl HealthCheck {
    /// The four checks, in report order.
    pub open spec fn checks_seq(self) -> Seq<CheckResult> {
        seq![self.git, self.github_auth, self.base_dir, self.ssh]
    }

    /// Whether every required check passed; SSH is optional and never
    /// counted.
    pub fn all_passed(&self) -> (r: bool)
        ensures
            r == (self.git.passed && self.github_auth.passed && self.base_dir.passed),
    {
        self.git.passed && self.github_auth.passed && self.base_dir.passed
    }

    /// The failed checks: the ones that neither passed nor are mere
    /// warnings.
    pub fn errors(&self) -> (r: Vec<&CheckResult>)
        ensures
            r@.map_values(|c: &CheckResult| *c) == self.checks_seq().filter(
                |c: CheckResult| !c.passed && !c.is_warning,
            ),
    {
        let mut out: Vec<&CheckResult> = Vec::new();
        if !self.git.passed && !self.git.is_warning {
            out.push(&self.git);
        }
        if !self.github_auth.passed && !self.github_auth.is_warning {
            out.push(&self.github_auth);
        }
        if !self.base_dir.passed && !self.base_dir.is_warning {
            out.push(&self.base_dir);
        }
        if !self.ssh.passed && !self.ssh.is_warning {
            out.push(&self.ssh);
        }
        proof {
            let p = |c: CheckResult| !c.passed && !c.is_warning;
            let e = Seq::<CheckResult>::empty();
            reveal(Seq::filter);
            lemma_filter_push(e, self.git, p);
            lemma_filter_push(e.push(self.git), self.github_auth, p);
            lemma_filter_push(e.push(self.git).push(self.github_auth), self.base_dir, p);
            lemma_filter_push(
                e.push(self.git).push(self.github_auth).push(self.base_dir),
                self.ssh,
                p,
            );
            assert(self.checks_seq() =~= e.push(self.git).push(self.github_auth).push(
                self.base_dir,
            ).push(self.ssh));
            assert(out@.map_values(|c: &CheckResult| *c) =~= self.checks_seq().filter(p));
        }
        out
    }

    /// The warnings.
    pub fn warnings(&self) -> (r: Vec<&CheckResult>)
        ensures
            r@.map_values(|c: &CheckResult| *c) == self.checks_seq().filter(
                |c: CheckResult| c.is_warning,
            ),
    {
        let mut out: Vec<&CheckResult> = Vec::new();
        if self.git.is_warning {
            out.push(&self.git);
        }
        if self.github_auth.is_warning {
            out.push(&self.github_auth);
        }
        if self.base_dir.is_warning {
            out.push(&self.base_dir);
        }
        if self.ssh.is_warning {
            out.push(&self.ssh);
        }
        proof {
            let p = |c: CheckResult| c.is_warning;
            let e = Seq::<CheckResult>::empty();
            reveal(Seq::filter);
            lemma_filter_push(e, self.git, p);
            lemma_filter_push(e.push(self.git), self.github_auth, p);
            lemma_filter_push(e.push(self.git).push(self.github_auth), self.base_dir, p);
            lemma_filter_push(
                e.push(self.git).push(self.github_auth).push(self.base_dir),
                self.ssh,
                p,
            );
            assert(self.checks_seq() =~= e.push(self.git).push(self.github_auth).push(
                self.base_dir,
            ).push(self.ssh));
            assert(out@.map_values(|c: &CheckResult| *c) =~= self.checks_seq().filter(p));
        }
        out
    }

    /// All four checks with their display labels, in report order.
    pub fn all_checks(&self) -> (r: Vec<(&'static str, &CheckResult)>)
        ensures
            r@.len() == 4,
            r@[0].0@ == "Git Installation"@ && r@[0].1 == &self.git,
            r@[1].0@ == "GitHub Authentication"@ && r@[1].1 == &self.github_auth,
            r@[2].0@ == "Base Directory"@ && r@[2].1 == &self.base_dir,
            r@[3].0@ == "SSH Configuration"@ && r@[3].1 == &self.ssh,
    {
        let mut out: Vec<(&'static str, &CheckResult)> = Vec::new();
        out.push(("Git Installation", &self.git));
        out.push(("GitHub Authentication", &self.github_auth));
        out.push(("Base Directory", &self.base_dir));
        out.push(("SSH Configuration", &self.ssh));
        out
    }
}

} // verus!
