use stash_core::github::{github_status_of, owner_repo_of_origin, require_token};
use stash_core::providers::bitbucket::{self, decode_credential, encode_credential, merge_strategy};
use stash_core::providers::github;
use stash_core::providers::gitlab::{self, project_id, wants_squash};
use stash_core::providers::{
    parse_remote, plan_connect, provider_status_of, require_bearer_token, require_bitbucket_credential,
    resolve_origin_url, ConnectPlan, Provider, RemoteRef,
};

fn s(x: &str) -> String {
    x.to_string()
}

#[test]
fn credential_round_trips_through_encoding() {
    let encoded = encode_credential("user", "s3cr3t");
    let decoded = decode_credential(&encoded).unwrap();
    assert_eq!(decoded.username, "user");
    assert_eq!(decoded.secret, "s3cr3t");
}

#[test]
fn credential_is_packed_with_a_newline_and_secret_may_hold_newlines() {
    assert_eq!(encode_credential("me", "pw"), "me\npw");
    let decoded = decode_credential("me\np\nw").unwrap();
    assert_eq!(decoded.username, "me");
    assert_eq!(decoded.secret, "p\nw");
}

#[test]
fn credential_without_both_parts_is_rejected() {
    assert!(decode_credential("no-newline").is_none());
    assert!(decode_credential("\nsecret").is_none());
    assert!(decode_credential("user\n").is_none());
    assert!(decode_credential("").is_none());
}

#[test]
fn provider_names_accounts_and_labels() {
    assert_eq!(Provider::parse("github"), Ok(Provider::Github));
    assert_eq!(Provider::parse("gitlab"), Ok(Provider::Gitlab));
    assert_eq!(Provider::parse("bitbucket"), Ok(Provider::Bitbucket));
    assert_eq!(Provider::parse("GitHub"), Err(s("Proveedor desconocido: GitHub")));
    assert_eq!(Provider::Github.token_account(), "github_token");
    assert_eq!(Provider::Bitbucket.token_account(), "bitbucket_token");
    assert_eq!(Provider::Gitlab.token_account(), "gitlab_token");
    assert_eq!(Provider::Github.label(), "GitHub");
    assert_eq!(Provider::Bitbucket.label(), "Bitbucket");
    assert_eq!(Provider::Gitlab.label(), "GitLab");
}

#[test]
fn token_accounts_are_pairwise_distinct() {
    let all = [Provider::Github, Provider::Bitbucket, Provider::Gitlab];
    for p in all {
        for q in all {
            if p != q {
                assert_ne!(p.token_account(), q.token_account());
            }
        }
    }
}

#[test]
fn parse_remote_detects_each_provider() {
    let r = parse_remote("git@gitlab.com:group/sub/project.git").unwrap();
    assert_eq!(r.provider, Provider::Gitlab);
    assert_eq!(r.owner, "group");
    assert_eq!(r.repo, "sub/project");
    let r = parse_remote("https://bitbucket.org/team/repo").unwrap();
    assert_eq!(r.provider, Provider::Bitbucket);
    let r = parse_remote("https://github.com/o/r.git").unwrap();
    assert_eq!(r.provider, Provider::Github);
    assert!(parse_remote("https://example.com/o/r.git").is_none());
}

#[test]
fn origin_of_unsupported_host_is_refused() {
    assert_eq!(
        resolve_origin_url("https://example.com/o/r.git").err(),
        Some(s("El remoto 'origin' no es de un proveedor soportado (GitHub, GitLab o Bitbucket)"))
    );
    assert!(resolve_origin_url("git@github.com:o/r.git").is_ok());
}

#[test]
fn provider_status_reports_label_and_token_only_when_resolved() {
    let st = provider_status_of(
        Some(RemoteRef { provider: Provider::Gitlab, owner: s("g"), repo: s("p") }),
        true,
    );
    assert_eq!(st.provider, Some(Provider::Gitlab));
    assert_eq!(st.provider_label, Some(s("GitLab")));
    assert!(st.has_token);
    assert_eq!(st.owner, Some(s("g")));
    assert_eq!(st.repo, Some(s("p")));
    let st = provider_status_of(None, true);
    assert_eq!(st.provider, None);
    assert_eq!(st.provider_label, None);
    assert!(!st.has_token);
    assert_eq!(st.owner, None);
}

#[test]
fn connect_plans_and_their_errors() {
    match plan_connect("github", Some(s("tok")), None, None).unwrap() {
        ConnectPlan::Bearer { provider, token } => {
            assert_eq!(provider, Provider::Github);
            assert_eq!(token, "tok");
        }
        ConnectPlan::Basic { .. } => panic!("expected a bearer plan"),
    }
    assert_eq!(plan_connect("gitlab", Some(s("")), None, None).err(), Some(s("Falta el token")));
    assert_eq!(plan_connect("gitlab", None, None, None).err(), Some(s("Falta el token")));
    assert_eq!(plan_connect("bitbucket", None, None, Some(s("x"))).err(), Some(s("Falta el usuario")));
    assert_eq!(
        plan_connect("bitbucket", None, Some(s("u")), Some(s(""))).err(),
        Some(s("Falta el app password"))
    );
    assert_eq!(plan_connect("codeberg", None, None, None).err(), Some(s("Proveedor desconocido: codeberg")));
    let plan = plan_connect("bitbucket", None, Some(s("u")), Some(s("p"))).unwrap();
    assert_eq!(plan.provider(), Provider::Bitbucket);
    assert_eq!(plan.stored_secret(), "u\np");
    let plan = plan_connect("gitlab", Some(s("glpat")), None, None).unwrap();
    assert_eq!(plan.provider(), Provider::Gitlab);
    assert_eq!(plan.stored_secret(), "glpat");
}

#[test]
fn stored_credentials_are_required_before_calling_a_provider() {
    assert_eq!(require_bearer_token(Provider::Github, Some(s("t"))), Ok(s("t")));
    assert_eq!(
        require_bearer_token(Provider::Gitlab, None),
        Err(s("Conecta tu cuenta de GitLab primero"))
    );
    let c = require_bitbucket_credential(Provider::Bitbucket, Some(s("u\np"))).unwrap();
    assert_eq!(c.username, "u");
    assert_eq!(c.secret, "p");
    assert_eq!(
        require_bitbucket_credential(Provider::Bitbucket, None).err(),
        Some(s("Conecta tu cuenta de Bitbucket primero"))
    );
    assert_eq!(
        require_bitbucket_credential(Provider::Bitbucket, Some(s("garbage"))).err(),
        Some(s("Credencial de Bitbucket inválida; reconecta tu cuenta"))
    );
}

#[test]
fn github_repository_status_and_token() {
    assert_eq!(owner_repo_of_origin("git@github.com:o/r.git"), Ok((s("o"), s("r"))));
    assert!(owner_repo_of_origin("https://gitlab.com/o/r").is_err());
    assert_eq!(require_token(Some(s("t"))), Ok(s("t")));
    assert!(require_token(None).is_err());
    let st = github_status_of(Some((s("o"), s("r"))), true);
    assert!(st.has_token);
    assert_eq!(st.owner, Some(s("o")));
    assert_eq!(st.repo, Some(s("r")));
    let st = github_status_of(None, false);
    assert!(!st.has_token);
    assert_eq!(st.owner, None);
    assert_eq!(st.repo, None);
}

#[test]
fn github_pull_request_maps_fields_and_defaults() {
    let raw = github::RawPullRequest {
        number: 7,
        title: s("Fix"),
        state: s("open"),
        draft: true,
        user: github::RawUser { login: s("ana"), avatar_url: s("a.png") },
        base: github::RawBranchRef { ref_: s("main") },
        head: github::RawBranchRef { ref_: s("fix") },
        html_url: s("https://github.com/o/r/pull/7"),
        created_at: s("2024-01-01"),
        updated_at: s("2024-01-02"),
        body: None,
        merged: None,
        mergeable: Some(true),
        mergeable_state: Some(s("clean")),
        additions: Some(10),
        deletions: None,
        changed_files: Some(2),
        commits: Some(1),
    };
    let d = raw.into_detail();
    assert_eq!(d.summary.number, 7);
    assert_eq!(d.summary.author, "ana");
    assert_eq!(d.summary.base, "main");
    assert_eq!(d.summary.head, "fix");
    assert!(d.summary.draft);
    assert_eq!(d.body, "");
    assert!(!d.merged);
    assert_eq!(d.mergeable, Some(true));
    assert_eq!(d.mergeable_state, "clean");
    assert_eq!(d.additions, 10);
    assert_eq!(d.deletions, 0);
    assert_eq!(d.changed_files, 2);
    assert_eq!(d.commits, 1);
    let u = github::RawUser { login: s("octo"), avatar_url: s("x.png") }.into_user();
    assert_eq!(u.login, "octo");
    assert_eq!(u.avatar_url, "x.png");
}

#[test]
fn github_summary_keeps_state_and_errors_quote_the_message() {
    let raw = github::RawPullRequest {
        number: 1,
        title: s("t"),
        state: s("closed"),
        draft: false,
        user: github::RawUser { login: s("u"), avatar_url: s("") },
        base: github::RawBranchRef { ref_: s("b") },
        head: github::RawBranchRef { ref_: s("h") },
        html_url: s("url"),
        created_at: s("c"),
        updated_at: s("u"),
        body: Some(s("body")),
        merged: Some(true),
        mergeable: None,
        mergeable_state: None,
        additions: None,
        deletions: None,
        changed_files: None,
        commits: None,
    };
    let sm = raw.into_summary();
    assert_eq!(sm.state, "closed");
    assert_eq!(sm.html_url, "url");
    assert_eq!(github::bearer("abc"), "Bearer abc");
    assert_eq!(
        github::api_error("401 Unauthorized", Some(github::ErrorBody { message: Some(s("Bad credentials")) }), s("{}")),
        "GitHub respondió 401 Unauthorized: Bad credentials"
    );
    assert_eq!(github::api_error("500", None, s("oops")), "GitHub respondió 500: oops");
    assert_eq!(
        github::api_error("500", Some(github::ErrorBody { message: None }), s("{\"x\":1}")),
        "GitHub respondió 500: {\"x\":1}"
    );
    assert_eq!(github::merge_outcome(true, s("ok")), Ok(()));
    assert_eq!(github::merge_outcome(false, s("Head branch was modified")), Err(s("Head branch was modified")));
}

fn gitlab_mr(state: &str, merge_status: Option<&str>, changes: Option<&str>) -> gitlab::RawMergeRequest {
    gitlab::RawMergeRequest {
        iid: 12,
        title: s("MR"),
        state: s(state),
        draft: false,
        author: gitlab::RawUser { username: s("gl"), avatar_url: None },
        source_branch: s("feature"),
        target_branch: s("main"),
        web_url: s("https://gitlab.com/g/p/-/merge_requests/12"),
        created_at: s("c"),
        updated_at: s("u"),
        description: Some(s("desc")),
        merge_status: merge_status.map(s),
        changes_count: changes.map(s),
    }
}

#[test]
fn gitlab_merge_request_maps_state_merge_status_and_changes() {
    let sm = gitlab_mr("opened", None, None).into_summary();
    assert_eq!(sm.number, 12);
    assert_eq!(sm.state, "open");
    assert_eq!(sm.head, "feature");
    assert_eq!(sm.base, "main");
    let d = gitlab_mr("merged", Some("can_be_merged"), Some("1000+")).into_detail();
    assert_eq!(d.summary.state, "closed");
    assert!(d.merged);
    assert_eq!(d.mergeable, Some(true));
    assert_eq!(d.mergeable_state, "can_be_merged");
    assert_eq!(d.changed_files, 1000);
    assert_eq!(d.body, "desc");
    let d = gitlab_mr("closed", Some("cannot_be_merged"), Some("3")).into_detail();
    assert!(!d.merged);
    assert_eq!(d.mergeable, Some(false));
    assert_eq!(d.changed_files, 3);
    let d = gitlab_mr("locked", Some("checking"), Some("n/a")).into_detail();
    assert_eq!(d.mergeable, None);
    assert_eq!(d.changed_files, 0);
    let u = gitlab::RawUser { username: s("gl"), avatar_url: None }.into_user();
    assert_eq!(u.avatar_url, "");
}

#[test]
fn gitlab_filters_project_ids_and_merge_methods() {
    assert_eq!(gitlab::state_filter_values("open"), vec!["opened"]);
    assert_eq!(gitlab::state_filter_values("closed"), vec!["closed", "merged"]);
    assert_eq!(gitlab::state_filter_values("all"), vec!["all"]);
    assert_eq!(project_id("group", "sub/project"), "group%2Fsub%2Fproject");
    assert_eq!(project_id("g", "p"), "g%2Fp");
    assert!(wants_squash("squash"));
    assert!(!wants_squash("rebase"));
    let body = |m: Option<&str>, e: Option<&str>| Some(gitlab::ErrorBody { message: m.map(s), error: e.map(s) });
    assert_eq!(
        gitlab::api_error("404", body(Some("\"404 Not found\""), Some("\"x\"")), s("raw")),
        "GitLab respondió 404: \"404 Not found\""
    );
    assert_eq!(gitlab::api_error("401", body(None, Some("\"invalid_token\"")), s("raw")), "GitLab respondió 401: \"invalid_token\"");
    assert_eq!(gitlab::api_error("500", None, s("raw")), "GitLab respondió 500: raw");
    assert_eq!(gitlab::merge_error(body(None, Some("\"e\"")), s("raw")), "raw");
    assert_eq!(gitlab::merge_error(body(Some("\"405 Method Not Allowed\""), None), s("raw")), "\"405 Method Not Allowed\"");
}

fn bitbucket_pr(state: &str) -> bitbucket::RawPullRequest {
    bitbucket::RawPullRequest {
        id: 3,
        title: s("PR"),
        state: s(state),
        draft: false,
        author: bitbucket::RawUser {
            display_name: s("Jane Doe"),
            links: bitbucket::RawUserLinks { avatar: None },
        },
        source: bitbucket::RawBranchRef { branch: bitbucket::RawBranch { name: s("feature") } },
        destination: bitbucket::RawBranchRef { branch: bitbucket::RawBranch { name: s("main") } },
        links: bitbucket::RawPrLinks { html: bitbucket::RawLink { href: s("https://bitbucket.org/t/r/pull-requests/3") } },
        created_on: s("c"),
        updated_on: s("u"),
        description: None,
    }
}

#[test]
fn bitbucket_pull_request_normalizes_state_and_branches() {
    let sm = bitbucket_pr("OPEN").into_summary();
    assert_eq!(sm.state, "open");
    assert_eq!(sm.head, "feature");
    assert_eq!(sm.base, "main");
    assert_eq!(sm.author, "Jane Doe");
    assert_eq!(sm.html_url, "https://bitbucket.org/t/r/pull-requests/3");
    let d = bitbucket_pr("MERGED").into_detail();
    assert_eq!(d.summary.state, "closed");
    assert!(d.merged);
    assert_eq!(d.mergeable, None);
    assert_eq!(d.mergeable_state, "");
    let d = bitbucket_pr("DECLINED").into_detail();
    assert!(!d.merged);
    let u = bitbucket::RawUser {
        display_name: s("Jane"),
        links: bitbucket::RawUserLinks { avatar: Some(bitbucket::RawLink { href: s("https://example.invalid/a.png") }) },
    }
    .into_user();
    assert_eq!(u.login, "Jane");
    assert_eq!(u.avatar_url, "https://example.invalid/a.png");
}

#[test]
fn bitbucket_filters_and_merge_strategies() {
    assert_eq!(bitbucket::state_filter_values("open"), vec!["OPEN"]);
    assert_eq!(bitbucket::state_filter_values("closed"), vec!["MERGED", "DECLINED", "SUPERSEDED"]);
    assert!(bitbucket::state_filter_values("all").is_empty());
    assert_eq!(merge_strategy("squash"), "squash");
    assert_eq!(merge_strategy("rebase"), "fast_forward");
    assert_eq!(merge_strategy("merge"), "merge_commit");
    assert_eq!(
        bitbucket::api_error(
            "409",
            Some(bitbucket::ErrorBody { error: Some(bitbucket::ErrorDetail { message: Some(s("conflict")) }) }),
            s("{}")
        ),
        "Bitbucket respondió 409: conflict"
    );
    assert_eq!(bitbucket::merge_error(Some(bitbucket::ErrorBody { error: None }), s("raw")), "raw");
    assert_eq!(
        bitbucket::merge_error(
            Some(bitbucket::ErrorBody { error: Some(bitbucket::ErrorDetail { message: Some(s("You can't merge")) }) }),
            s("raw")
        ),
        "You can't merge"
    );
}

#[test]
fn filtered_states_normalize_back_to_the_filter() {
    for st in bitbucket::state_filter_values("closed") {
        assert_eq!(bitbucket_pr(st).into_summary().state, "closed");
    }
    for st in bitbucket::state_filter_values("open") {
        assert_eq!(bitbucket_pr(st).into_summary().state, "open");
    }
    for st in gitlab::state_filter_values("closed") {
        assert_eq!(gitlab_mr(st, None, None).into_summary().state, "closed");
    }
    for st in gitlab::state_filter_values("open") {
        assert_eq!(gitlab_mr(st, None, None).into_summary().state, "open");
    }
}

#[test]
fn api_endpoints_are_built_from_base_owner_repo_and_number() {
    assert_eq!(github::user_url("https://api.github.com"), "https://api.github.com/user");
    assert_eq!(github::pulls_url("B", "o", "r"), "B/repos/o/r/pulls");
    assert_eq!(github::pull_url("B", "o", "r", 42), "B/repos/o/r/pulls/42");
    assert_eq!(github::merge_url("B", "o", "r", 7), "B/repos/o/r/pulls/7/merge");
    assert_eq!(gitlab::merge_requests_url("B", "g", "sub/p"), "B/projects/g%2Fsub%2Fp/merge_requests");
    assert_eq!(gitlab::merge_request_url("B", "g", "p", 1000), "B/projects/g%2Fp/merge_requests/1000");
    assert_eq!(gitlab::merge_url("B", "g", "p", 0), "B/projects/g%2Fp/merge_requests/0/merge");
    assert_eq!(bitbucket::pullrequests_url("B", "w", "s"), "B/repositories/w/s/pullrequests");
    assert_eq!(bitbucket::pullrequest_url("B", "w", "s", 18446744073709551615), "B/repositories/w/s/pullrequests/18446744073709551615");
    assert_eq!(bitbucket::merge_url("B", "w", "s", 9), "B/repositories/w/s/pullrequests/9/merge");
    assert_eq!(gitlab::user_url("B"), "B/user");
    assert_eq!(bitbucket::user_url("B"), "B/user");
    assert_eq!(github::unexpected_response("eof"), "Respuesta inesperada de GitHub: eof");
    assert_eq!(gitlab::unexpected_response("x"), "Respuesta inesperada de GitLab: x");
    assert_eq!(bitbucket::unexpected_response("y"), "Respuesta inesperada de Bitbucket: y");
}
