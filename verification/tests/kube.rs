use conveyor::command::{command_output, complaint, trimmed_output};
use conveyor::config::DeployEnv;
use conveyor::kube::{CliKubectl, MISSING};
use conveyor::model::deployed::sha_from_image;

fn env() -> DeployEnv {
    DeployEnv {
        name: "prod".to_string(),
        context: "teleport-prod".to_string(),
        namespace: "api".to_string(),
        deployment: "api".to_string(),
        ..DeployEnv::default()
    }
}

#[test]
fn image_argv_targets_the_context_namespace_and_deployment_with_a_timeout() {
    assert_eq!(
        CliKubectl::image_args(&env()),
        vec![
            "--context",
            "teleport-prod",
            "-n",
            "api",
            "get",
            "deploy",
            "api",
            "-o",
            "jsonpath={.spec.template.spec.containers[0].image}",
            "--request-timeout=10s",
        ]
    );
}

#[test]
fn the_sha_is_the_40_hex_tag_or_a_40_hex_suffix() {
    assert_eq!(
        sha_from_image("ghcr.io/acme/api:0123456789abcdef0123456789abcdef01234567").unwrap(),
        "0123456789abcdef0123456789abcdef01234567"
    );
    assert_eq!(
        sha_from_image("ghcr.io/acme/api:preview-0123456789abcdef0123456789abcdef01234567")
            .unwrap(),
        "0123456789abcdef0123456789abcdef01234567"
    );
    let err = sha_from_image("ghcr.io/acme/api:latest").unwrap_err();
    assert!(
        err.contains("unexpected image tag") && err.contains("latest"),
        "{err}"
    );
    assert!(sha_from_image("ghcr.io/acme/api").is_err());
    assert!(sha_from_image("registry:5000/acme/api@sha256:abc").is_err());
}

#[test]
fn the_missing_kubectl_message_says_what_to_install() {
    assert_eq!(
        MISSING,
        "kubectl not found on PATH; install kubectl and log in to the cluster"
    );
    let kubectl = CliKubectl::with_program("/opt/bin/kubectl".into());
    assert_eq!(kubectl.program, std::path::PathBuf::from("/opt/bin/kubectl"));
}

#[test]
fn an_uppercase_hex_tag_is_a_sha_and_a_short_one_is_not() {
    assert_eq!(
        sha_from_image("ghcr.io/acme/api:0123456789ABCDEF0123456789abcdef01234567").unwrap(),
        "0123456789ABCDEF0123456789abcdef01234567"
    );
    assert_eq!(
        sha_from_image("ghcr.io/acme/api:short").unwrap_err(),
        "unexpected image tag `short`: expected a 40-hex commit sha"
    );
    assert!(sha_from_image("ghcr.io/acme/api:0123456789abcdef").is_err());
    assert!(sha_from_image("ghcr.io/acme/api:").is_err());
}

#[test]
fn image_returns_the_trimmed_stdout_and_maps_failures() {
    assert_eq!(
        trimmed_output(true, "ghcr.io/acme/api:0123456789abcdef0123456789abcdef01234567\n", "", "kubectl", "exit status: 0"),
        Ok("ghcr.io/acme/api:0123456789abcdef0123456789abcdef01234567".to_string())
    );
    assert_eq!(
        trimmed_output(false, "", "ERROR: Active profile expired.\n", "kubectl", "exit status: 1"),
        Err("ERROR: Active profile expired.".to_string())
    );
    assert_eq!(
        trimmed_output(false, "partial", " \n", "kubectl", "exit status: 1"),
        Err("kubectl exited with exit status: 1".to_string()),
        "a silent failure names its status"
    );
    assert_eq!(
        command_output(true, "{\"data\": 1}\n".to_string(), "warning", "gh", "exit status: 0"),
        Ok("{\"data\": 1}\n".to_string()),
        "what a command printed is handed on whole"
    );
    assert_eq!(complaint("", "gh", "signal: 9"), "gh exited with signal: 9");
    assert_eq!(MISSING, "kubectl not found on PATH; install kubectl and log in to the cluster");
    assert_eq!(complaint("HTTP 401", "gh", "exit status: 1"), "HTTP 401");
}
