use maid::comment::{
    comment_request, published_comment, CUT_OFF, MAX_COMMENT_CHARS, PROVENANCE,
};
use maid::domain::{PullRequest, WorkTarget};

#[test]
fn comments_carry_their_provenance() {
    assert_eq!(
        published_comment("looks good"),
        format!("{PROVENANCE}\n\nlooks good")
    );
    assert_eq!(published_comment(""), format!("{PROVENANCE}\n\n"));
}

#[test]
fn mentions_are_neutralized() {
    assert_eq!(
        published_comment("ask @octocat, @org/team or a@b.c @"),
        format!(
            "{PROVENANCE}\n\nask @\u{200b}octocat, @\u{200b}org/team or a@\u{200b}b.c @\u{200b}"
        )
    );
}

#[test]
fn long_answers_are_cut_off() {
    let fits = "\u{e9}".repeat(59_000);
    let long = "@".repeat(100_000);

    assert_eq!(published_comment(&fits), format!("{PROVENANCE}\n\n{fits}"));
    let comment = published_comment(&format!("{fits}x"));
    assert_eq!(comment, format!("{PROVENANCE}\n\n{fits}{CUT_OFF}"));
    assert!(comment.chars().count() <= MAX_COMMENT_CHARS);
    let comment = published_comment(&long);
    assert!(comment.ends_with(CUT_OFF));
    assert!(comment.chars().count() <= MAX_COMMENT_CHARS);
}

#[test]
fn answers_are_published_on_their_target() {
    let target = WorkTarget::PullRequest(PullRequest {
        owner: "o".to_string(),
        repo: "r".to_string(),
        number: 7,
        author: "a".to_string(),
        author_id: 1234,
        api_url: "https://api.github.com/repos/o/r/pulls/7".to_string(),
        html_url: "https://github.com/o/r/pull/7".to_string(),
        clone_url: "https://github.com/o/r.git".to_string(),
    });

    assert_eq!(
        comment_request(&target, "thanks @you"),
        (
            "https://api.github.com/repos/o/r/issues/7/comments".to_string(),
            format!("{PROVENANCE}\n\nthanks @\u{200b}you")
        )
    );
}
