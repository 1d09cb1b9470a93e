use std::time::{Duration, SystemTime};

use llmman::cmd::list::{list_table, list_table_at, Image};
use llmman::cmd::login::{login_report, typed_line, LoginArgs, LoginPlan, NO_USERNAME};
use llmman::cmd::ps::{ps_table, ps_table_at, PsModel, NOT_RUNNING};
use llmman::cmd::pull::pull_report;
use llmman::cmd::transfer::{transfer_report, TransferArgs};
use llmman::keyed::TextMap;

fn model(name: &str, started_at: &str) -> PsModel {
    PsModel {
        name: name.to_string(),
        digest: "sha256:0123456789abcdef".to_string(),
        size: 1536,
        processor: "vllm (local)".to_string(),
        context_length: Some(4096),
        started_at: started_at.to_string(),
    }
}

fn ps_row(name: &str, id: &str, size: &str, proc: &str, ctx: &str, started: &str) -> String {
    format!("{name:<6}    {id:<12}    {size:<10}    {proc:<12}    {ctx:<9}    {started}")
}

#[test]
fn running_models_are_shown_in_the_order_of_their_names() {
    let mut b = model("b", "2024-01-02T03:04:05Z");
    b.context_length = None;
    let models = vec![model("gemma3", "2024-01-02T03:04:05Z"), b, model("a", "yesterday")];
    let now = (1_704_164_645 + 7200, 0);
    let lines = ps_table_at(models, None, now);
    assert_eq!(
        lines,
        vec![
            ps_row("NAME", "ID", "SIZE", "PROCESSOR", "CONTEXT", "STARTED"),
            ps_row("a", "0123456789ab", "1.5 kB", "vllm (local)", "4096", "unknown"),
            ps_row("b", "0123456789ab", "1.5 kB", "vllm (local)", "", "2 hours ago"),
            ps_row("gemma3", "0123456789ab", "1.5 kB", "vllm (local)", "4096", "2 hours ago"),
        ]
    );
}

#[test]
fn only_models_that_begin_so_are_shown() {
    let now = (1_704_164_645, 0);
    let names = |prefix| -> Vec<String> {
        let models = ["ab", "b", "aa", "é", "Z"].map(|n| model(n, "2024-01-02T03:04:05Z"));
        ps_table_at(models.into(), prefix, now)
            .iter()
            .skip(1)
            .map(|l| l.split(' ').next().unwrap().to_string())
            .collect()
    };
    assert_eq!(names(Some("a")), vec!["aa", "ab"]);
    assert_eq!(names(None), vec!["Z", "aa", "ab", "b", "é"]);
    assert!(names(Some("x")).is_empty());
    assert!(NOT_RUNNING.starts_with("llmman serve is not running"));
    // Models of one name stay in their order.
    let mut two = vec![model("a", "2024-01-02T03:04:05Z"), model("a", "nothing")];
    two[0].context_length = Some(1);
    let lines = ps_table_at(two, None, now);
    assert!(lines[1].contains("    1    ") && lines[2].ends_with("unknown"));
}

#[test]
fn a_table_of_now() {
    let lines = ps_table(vec![model("a", "2001-01-01T00:00:00Z")], None);
    assert_eq!(lines.len(), 2);
    assert!(lines[1].ends_with("months ago") || lines[1].ends_with("years ago"));
    let image = Image {
        reference: "r".to_string(),
        digest: "d".to_string(),
        size: 0,
        modified_at: Some(SystemTime::now()),
    };
    assert!(list_table(&vec![image])[1].ends_with("just now"));
}

#[test]
fn the_store_is_listed_in_its_own_order() {
    let now = SystemTime::UNIX_EPOCH + Duration::new(1_000_000, 0);
    let image = |reference: &str, size, age| Image {
        reference: reference.to_string(),
        digest: "sha256:0123456789abcdef".to_string(),
        size,
        modified_at: age,
    };
    let row = |name: &str, id: &str, size: &str, modified: &str| {
        format!("{name:<9}    {id:<16}    {size:<10}    {modified}")
    };
    let images = vec![
        image("b/longest", 10, None),
        image("a", 2048, Some(now - Duration::new(180, 0))),
    ];
    assert_eq!(
        list_table_at(&images, now),
        vec![
            row("NAME", "ID", "SIZE", "MODIFIED"),
            row("b/longest", "0123456789ab", "10 B", "unknown"),
            row("a", "0123456789ab", "2.0 kB", "3 minutes ago"),
        ]
    );
    assert!(list_table_at(&vec![], now).is_empty());
}

fn login(server: Option<&str>, username: Option<&str>) -> LoginArgs {
    LoginArgs {
        server: server.map(str::to_string),
        username: username.map(str::to_string),
        password: Some("p".to_string()),
        token: Some("t".to_string()),
    }
}

#[test]
fn logins() {
    assert_eq!(login(None, None).server(), "docker.io");
    assert_eq!(login(Some("ghcr.io"), None).server(), "ghcr.io");
    assert!(matches!(login(None, None).plan(false), LoginPlan::NoUsername));
    assert_eq!(NO_USERNAME, "--username is required to log in to a registry");
    match login(None, Some("u")).plan(false) {
        LoginPlan::Registry { username, password } => {
            assert_eq!((username.as_str(), password.as_deref()), ("u", Some("p")))
        }
        _ => panic!(),
    }
    match login(None, Some("u")).plan(true) {
        LoginPlan::HuggingFace { token } => assert_eq!(token.as_deref(), Some("t")),
        _ => panic!(),
    }
    assert_eq!(login_report("hf.co", Some("u")), "Login succeeded for hf.co (user: u)");
    assert_eq!(login_report("docker.io", None), "Login succeeded for docker.io");
    assert_eq!(typed_line("secret \r\n"), "secret ");
    assert_eq!(typed_line("secret"), "secret");
}

#[test]
fn pulls_and_transfers() {
    assert_eq!(pull_report("x"), "Pulled x");
    let args = TransferArgs { source: "hf://a/b".to_string(), destination: "ghcr.io/c".to_string() };
    let (from, to) = args.endpoints(&TextMap::new());
    assert_eq!((from.as_str(), to.as_str()), ("hf.co/a/b", "ghcr.io/c"));
    assert_eq!(transfer_report(true, "a", "b"), "Transferred a to b");
    assert_eq!(transfer_report(false, "a", "b"), "b already up to date with a");
}
