//! The configuration: which pull requests to list, how the view is laid out, and which
//! repositories and deployed systems to watch.

use std::path::PathBuf;

use vstd::prelude::*;

use crate::paths::{join, path_joined};

verus! {

#[derive(Debug, Clone, PartialEq, Eq)]
pub struct Config {
    pub prs: Prs,
    pub ui: Ui,
    pub repo: Vec<Repo>,
}

/// The search that lists the pull requests, how many, and how often.
#[derive(Debug, Clone, PartialEq, Eq)]
pub struct Prs {
    pub query: String,
    pub limit: usize,
    pub refresh_secs: u64,
}

/// The narrowest a column may get before the columns become tabs, and the share of the height
/// the details pane takes.
#[derive(Debug, Clone, Copy, PartialEq, Eq, Structural)]
pub struct Ui {
    pub min_column_width: u16,
    pub details_percent: u16,
}

/// A repository to watch: its merge queue and the builds of its main workflow.
#[derive(Debug, Clone, PartialEq, Eq)]
pub struct Repo {
    pub name: String,
    pub main_workflow: String,
    pub builds: usize,
    pub refresh_secs: u64,
    pub deploy: Vec<Deploy>,
}

/// A deployed system of a repository and its environments.
#[derive(Debug, Clone, PartialEq, Eq)]
pub struct Deploy {
    pub system: String,
    pub refresh_secs: u64,
    pub env: Vec<DeployEnv>,
}

/// How the image an environment runs is read.
#[derive(Debug, Clone, Copy, PartialEq, Eq, Structural)]
pub enum Fetcher {
    Kubectl,
}

/// One environment: where its deployment is and how to read it.
#[derive(Debug, Clone, PartialEq, Eq)]
pub struct DeployEnv {
    pub name: String,
    pub fetcher: Fetcher,
    pub context: String,
    pub namespace: String,
    pub deployment: String,
}

impl Default for Prs {
    fn default() -> (r: Prs)
        ensures
            r.query@ == "is:pr is:open author:@me archived:false"@,
            r.limit == 20,
            r.refresh_secs == 60,
    {
        Prs {
            query: "is:pr is:open author:@me archived:false".to_owned(),
            limit: 20,
            refresh_secs: 60,
        }
    }
}

impl Default for Ui {
    fn default() -> (r: Ui)
        ensures
            r.min_column_width == 36,
            r.details_percent == 40,
    {
        Ui { min_column_width: 36, details_percent: 40 }
    }
}

impl Default for Config {
    fn default() -> (r: Config)
        ensures
            r.prs.query@ == "is:pr is:open author:@me archived:false"@,
            r.prs.limit == 20,
            r.prs.refresh_secs == 60,
            r.ui.min_column_width == 36,
            r.ui.details_percent == 40,
            r.repo@.len() == 0,
    {
        Config { prs: Prs::default(), ui: Ui::default(), repo: Vec::new() }
    }
}

impl Default for Repo {
    fn default() -> (r: Repo)
        ensures
            r.name@ == Seq::<char>::empty(),
            r.main_workflow@ == "CI/CD"@,
            r.builds == 10,
            r.refresh_secs == 30,
            r.deploy@.len() == 0,
    {
        Repo {
            name: String::new(),
            main_workflow: "CI/CD".to_owned(),
            builds: 10,
            refresh_secs: 30,
            deploy: Vec::new(),
        }
    }
}

impl Default for Deploy {
    fn default() -> (r: Deploy)
        ensures
            r.system@ == Seq::<char>::empty(),
            r.refresh_secs == 120,
            r.env@.len() == 0,
    {
        Deploy { system: String::new(), refresh_secs: 120, env: Vec::new() }
    }
}

impl Default for DeployEnv {
    fn default() -> (r: DeployEnv)
        ensures
            r.name@ == Seq::<char>::empty(),
            r.fetcher == Fetcher::Kubectl,
            r.context@ == Seq::<char>::empty(),
            r.namespace@ == Seq::<char>::empty(),
            r.deployment@ == Seq::<char>::empty(),
    {
        DeployEnv {
            name: String::new(),
            fetcher: Fetcher::Kubectl,
            context: String::new(),
            namespace: String::new(),
            deployment: String::new(),
        }
    }
}

/// Whether any watched repository has a deployed system.
pub open spec fn deploy_configured_in(config: Config) -> bool {
    exists|i: int| 0 <= i < config.repo@.len() && config.repo@[i].deploy@.len() > 0
}

impl Config {
    pub fn deploy_configured(&self) -> (r: bool)
        ensures
            r == deploy_configured_in(*self),
    {
        let mut i: usize = 0;
        while i < self.repo.len()
            invariant
                0 <= i <= self.repo@.len(),
                forall|k: int| 0 <= k < i ==> self.repo@[k].deploy@.len() == 0,
            decreases self.repo@.len() - i,
        {
            if self.repo[i].deploy.len() > 0 {
                return true;
            }
            i = i + 1;
        }
        false
    }
}

/// Where the configuration file is: the override, else `conveyor/config.toml` under the XDG
/// configuration directory, else `.config/conveyor/config.toml` under the home directory.
pub open spec fn config_path_of(over: Option<PathBuf>, xdg: Option<PathBuf>, home: PathBuf) -> PathBuf {
    match over {
        Some(p) => p,
        None => match xdg {
            Some(x) => path_joined(path_joined(x, "conveyor"@), "config.toml"@),
            None => path_joined(
                path_joined(path_joined(home, ".config"@), "conveyor"@),
                "config.toml"@,
            ),
        },
    }
}

/// See `config_path_of`.
pub fn path(over: Option<PathBuf>, xdg: Option<PathBuf>, home: &PathBuf) -> (r: PathBuf)
    ensures
        r == config_path_of(over, xdg, *home),
{
    match over {
        Some(p) => p,
        None => match xdg {
            Some(x) => {
                let dir = join(&x, "conveyor");
                join(&dir, "config.toml")
            },
            None => {
                let dot = join(home, ".config");
                let dir = join(&dot, "conveyor");
                join(&dir, "config.toml")
            },
        },
    }
}

} // verus!
