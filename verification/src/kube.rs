//! The arguments with which `kubectl` is asked what an environment runs.

use std::path::PathBuf;

use vstd::prelude::*;

use crate::config::DeployEnv;

verus! {

pub const MISSING: &'static str = "kubectl not found on PATH; install kubectl and log in to the cluster";

/// The `kubectl` program to run.
pub struct CliKubectl {
    pub program: PathBuf,
}

impl CliKubectl {
    pub fn with_program(program: PathBuf) -> (r: CliKubectl)
        ensures
            r.program == program,
    {
        CliKubectl { program }
    }

    /// The image of the first container of the environment's deployment, with a timeout.
    pub fn image_args(env: &DeployEnv) -> (r: Vec<String>)
        ensures
            r@.map_values(|s: String| s@) == seq![
                "--context"@,
                env.context@,
                "-n"@,
                env.namespace@,
                "get"@,
                "deploy"@,
                env.deployment@,
                "-o"@,
                "jsonpath={.spec.template.spec.containers[0].image}"@,
                "--request-timeout=10s"@,
            ],
    {
        let mut args: Vec<String> = Vec::new();
        args.push("--context".to_owned());
        args.push(env.context.clone());
        args.push("-n".to_owned());
        args.push(env.namespace.clone());
        args.push("get".to_owned());
        args.push("deploy".to_owned());
        args.push(env.deployment.clone());
        args.push("-o".to_owned());
        args.push("jsonpath={.spec.template.spec.containers[0].image}".to_owned());
        args.push("--request-timeout=10s".to_owned());
        assert(args@.map_values(|s: String| s@) =~= seq![
            "--context"@,
            env.context@,
            "-n"@,
            env.namespace@,
            "get"@,
            "deploy"@,
            env.deployment@,
            "-o"@,
            "jsonpath={.spec.template.spec.containers[0].image}"@,
            "--request-timeout=10s"@,
        ]);
        args
    }
}

} // verus!
