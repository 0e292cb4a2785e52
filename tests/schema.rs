use psdevbot::config::UsernameAliases;
use psdevbot::github_api::User;
use psdevbot::schema::{
    Author, Commit, PullRequest, PullRequestEvent, PushEvent, PushEventContext, Repository, Sender,
};

fn sample_commit() -> Commit {
    Commit {
        id: "0da2590a700d054fc2ce39ddc9c95f360329d9be".into(),
        message: "Hello, world!".into(),
        author: Author {
            name: "Konrad Borowski".into(),
            username: Some("xfix".into()),
        },
        url: "http://example.com".into(),
    }
}

fn empty_context() -> PushEventContext {
    PushEventContext {
        profiles: Vec::new(),
        username_aliases: UsernameAliases::default(),
    }
}

#[test]
fn test_push_event() {
    let commit = [
        "[<a href='https://github.com/smogon/pokemon-showdown'>",
        "<font color=FF00FF>server</font></a>] ",
        "<a href='http://example.com'><font color=606060><kbd>0da259</kbd></font></a>\n",
        "<span title='Hello, world!'>Hello, world!</span> ",
        r#"<font color=909090 title="Konrad Borowski">(xfix)</font>"#,
    ].concat();
    assert_eq!(
        PushEvent {
            git_ref: "refs/head/master".into(),
            commits: vec![sample_commit(), sample_commit()],
            repository: Repository {
                name: "pokemon-showdown".into(),
                html_url: "https://github.com/smogon/pokemon-showdown".into(),
                default_branch: "master".into(),
            }
        }
        .to_view(&empty_context())
        .render(),
        format!("{0}<br>{0}", commit)
    );
}

#[test]
fn schema_test_commit() {
    assert_eq!(
        sample_commit()
            .to_view("shouldn't be used", &empty_context())
            .render(),
        [
            "<a href='http://example.com'>",
            "<font color=606060><kbd>0da259</kbd></font></a>\n",
            "<span title='Hello, world!'>Hello, world!</span> ",
            r#"<font color=909090 title="Konrad Borowski">(xfix)</font>"#,
        ].concat(),
    );
}

fn sample_pull_request() -> PullRequestEvent {
    PullRequestEvent {
        action: "created".into(),
        pull_request: PullRequest {
            number: 1,
            html_url: "http://example.com/pr/1".into(),
            title: "Hello, world".into(),
        },
        repository: Repository {
            name: "ExampleCom".into(),
            html_url: "http://example.com/".into(),
            default_branch: "master".into(),
        },
        sender: Sender { login: "Me".into() },
    }
}

#[test]
fn schema_test_pull_request() {
    assert_eq!(
        sample_pull_request()
            .to_view(&UsernameAliases::default())
            .render(),
        [
            "[<a href='http://example.com/'><font color=FF00FF>",
            "ExampleCom</font></a>] <a href='https://github.com/Me'><font ",
            "color='909090'>Me</font></a> created ",
            "<a href='http://example.com/pr/1'>PR#1</a>: Hello, world",
        ].concat(),
    );
}

#[test]
fn test_pull_request_with_an_alias() {
    let mut aliases = UsernameAliases::default();
    aliases.insert("mE".into(), "Not me".into());
    assert_eq!(
        sample_pull_request().to_view(&aliases).render(),
        [
            "[<a href='http://example.com/'><font color=FF00FF>",
            "ExampleCom</font></a>] <a href='https://github.com/Me'><font ",
            "color='909090'>Not me</font></a> created ",
            "<a href='http://example.com/pr/1'>PR#1</a>: Hello, world",
        ].concat(),
    );
}

#[test]
fn commit_with_profile_and_alias_links_the_profile() {
    let mut aliases = UsernameAliases::default();
    aliases.insert("XFIX".into(), "Konrad".into());
    let ctx = PushEventContext {
        profiles: vec![(
            "xfix".into(),
            User {
                html_url: "https://github.com/xfix".into(),
            },
        )],
        username_aliases: aliases,
    };
    assert_eq!(
        sample_commit().author.to_view(&ctx).render(),
        [
            r#"<font color=909090 title="Konrad Borowski">("#,
            "<a href='https://github.com/xfix'>Konrad</a>)</font>",
        ].concat(),
    );
}

#[test]
fn author_without_login_shows_name_only() {
    let author = Author {
        name: "A <b>".into(),
        username: None,
    };
    assert_eq!(
        author.to_view(&empty_context()).render(),
        "<font color=909090>A &lt;b&gt;</font>"
    );
}

#[test]
fn multiline_commit_is_cut_with_an_ellipsis_and_links_issues() {
    let mut commit = sample_commit();
    commit.message = "Fix #12 & more\n\nDetails".into();
    assert_eq!(commit.short_message(), "Fix #12 & more");
    assert_eq!(
        commit.to_view("https://github.com/a/b", &empty_context()).render(),
        [
            "<a href='http://example.com'><font color=606060><kbd>0da259</kbd></font></a>\n",
            "<span title='Fix #12 &amp; more\n\nDetails'>",
            "Fix <a href='https://github.com/a/b/issues/12'>#12</a> &amp; more…</span> ",
            r#"<font color=909090 title="Konrad Borowski">(xfix)</font>"#,
        ].concat()
    );
}

#[test]
fn simple_commit_view() {
    let mut commit = sample_commit();
    commit.message = "One\nTwo".into();
    assert_eq!(
        commit.to_simple_view(&empty_context()).render(),
        [
            "<span title='One\nTwo'><a href='http://example.com'>One…</a></span> ",
            r#"<font color=909090 title="Konrad Borowski">(xfix)</font>"#,
        ].concat()
    );
}

#[test]
fn short_commit_id_is_kept_whole() {
    let mut commit = sample_commit();
    commit.id = "abc".into();
    let view = commit.to_view("u", &empty_context());
    assert_eq!(view.id, "abc");
    assert_eq!(view.message, "Hello, world!");
    assert_eq!(view.url, "http://example.com");
}

#[test]
fn commit_id_is_cut_after_six_bytes() {
    let mut commit = sample_commit();
    commit.id = "\u{e9}\u{e9}\u{e9}123".into();
    assert_eq!(commit.to_view("u", &empty_context()).id, "\u{e9}\u{e9}\u{e9}");
    commit.id = "ab\u{20ac}\u{20ac}x".into();
    // Byte 6 falls inside the second euro sign: the id stops before it.
    assert_eq!(commit.to_view("u", &empty_context()).id, "ab\u{20ac}");
}

#[test]
fn branch_is_the_ref_without_refs_heads() {
    let event = PushEvent {
        git_ref: "refs/heads/feature/x".into(),
        commits: vec![],
        repository: Repository {
            name: "r".into(),
            html_url: "u".into(),
            default_branch: "x".into(),
        },
    };
    assert_eq!(event.branch(), Some("feature/x"));
    assert!(!event.is_to_default_branch());
    let tag = PushEvent {
        git_ref: "refs/tags/x".into(),
        ..event
    };
    assert_eq!(tag.branch(), None);
    assert!(!tag.is_to_default_branch());
    let main = PushEvent {
        git_ref: "refs/heads/x".into(),
        ..tag
    };
    assert_eq!(main.branch(), Some("x"));
    assert!(main.is_to_default_branch());
}

#[test]
fn pull_request_actions_are_renamed() {
    let mut event = sample_pull_request();
    event.action = "synchronize".into();
    assert_eq!(event.to_view(&UsernameAliases::default()).action, "updated");
    event.action = "review_requested".into();
    assert_eq!(
        event.to_view(&UsernameAliases::default()).action,
        "requested a review for"
    );
    event.repository.name = "pokemon-showdown-client".into();
    assert_eq!(event.repository.to_view().name, "client");
}

#[test]
fn pull_request_number_is_written_in_decimal() {
    let mut event = sample_pull_request();
    event.pull_request.number = 4294967295;
    event.pull_request.title = "a'b\nc".into();
    assert_eq!(
        event.pull_request.render(),
        "<a href='http://example.com/pr/1'>PR#4294967295</a>: a&#x27;b…"
    );
}
