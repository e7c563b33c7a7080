//! The text of a published comment.
use crate::domain::WorkTarget;
use crate::{domain, github_api, text};
use vstd::prelude::*;

verus! {

/// The line with which every published comment begins.
pub const PROVENANCE: &'static str = "_Automated answer by Maid, written by Codex._";

/// What stands at the end of an answer that was cut off.
pub const CUT_OFF: &'static str = "\n\n_The rest of the answer was too long and is left out._";

/// An answer that is longer is cut off.
pub const MAX_ANSWER_CHARS: usize = 59000;

/// No published comment is longer: a conservative bound.
pub const MAX_COMMENT_CHARS: usize = 60000;

/// A zero-width space.
pub const BREAK: char = '\u{200b}';

/// Somewhere an `@` stands right before a character of a login: GitHub would
/// notify whoever has it.
pub open spec fn has_live_mention(s: Seq<char>) -> bool {
    exists|i: int| 0 <= i < s.len() - 1 && #[trigger] s[i] == '@' && domain::login_char(s[i + 1])
}

/// A text in which a zero-width space follows every `@`: it reads the same and
/// mentions nobody.
pub open spec fn neutralized(s: Seq<char>) -> Seq<char>
    decreases s.len(),
{
    if s.len() == 0 {
        Seq::empty()
    } else if s.last() == '@' {
        neutralized(s.drop_last()).push('@').push(BREAK)
    } else {
        neutralized(s.drop_last()).push(s.last())
    }
}

/// The beginning of a text that is too long, with a note.
pub open spec fn clipped(s: Seq<char>) -> Seq<char> {
    if s.len() <= MAX_ANSWER_CHARS {
        s
    } else {
        s.take(MAX_ANSWER_CHARS as int) + CUT_OFF@
    }
}

/// An answer as it is published.
pub open spec fn published_text(response: Seq<char>) -> Seq<char> {
    PROVENANCE@ + "\n\n"@ + clipped(neutralized(response))
}

proof fn lemma_neutralized(s: Seq<char>)
    ensures
        forall|i: int|
            0 <= i < neutralized(s).len() && #[trigger] neutralized(s)[i] == '@' ==> i + 1
                < neutralized(s).len() && neutralized(s)[i + 1] == BREAK,
    decreases s.len(),
{
    if s.len() > 0 {
        lemma_neutralized(s.drop_last());
        let earlier = neutralized(s.drop_last());
        let now = neutralized(s);
        assert forall|i: int| 0 <= i < now.len() && #[trigger] now[i] == '@' implies i + 1
            < now.len() && now[i + 1] == BREAK by {
            if i < earlier.len() {
                assert(earlier[i] == '@');
            }
        }
    }
}

/// Whatever Codex answers: the published comment begins with its provenance,
/// mentions nobody, and is within the limit.
pub proof fn law_published_comments_are_safe(response: Seq<char>)
    ensures
        text::has_prefix(published_text(response), PROVENANCE@),
        !has_live_mention(published_text(response)),
        published_text(response).len() <= MAX_COMMENT_CHARS,
{
    reveal_strlit("_Automated answer by Maid, written by Codex._");
    reveal_strlit("\n\n_The rest of the answer was too long and is left out._");
    reveal_strlit("\n\n");
    lemma_neutralized(response);
    let body = clipped(neutralized(response));
    let head = PROVENANCE@ + "\n\n"@;
    let all = published_text(response);
    assert(all.take(PROVENANCE@.len() as int) =~= PROVENANCE@);
    assert forall|i: int| 0 <= i < all.len() - 1 && #[trigger] all[i] == '@' implies
        !domain::login_char(all[i + 1]) by {
        if i >= head.len() {
            let k = i - head.len();
            assert(body[k] == '@' && all[i + 1] == body[k + 1]);
            if k < neutralized(response).len() && k < MAX_ANSWER_CHARS {
                assert(neutralized(response)[k] == '@');
            }
        }
    }
}

/// The comment that an answer is published as.
pub fn published_comment(response: &str) -> (r: String)
    ensures
        r@ == published_text(response@),
        text::has_prefix(r@, PROVENANCE@),
        !has_live_mention(r@),
        r@.len() <= MAX_COMMENT_CHARS,
{
    let chars = text::to_chars(response);
    let mut body: Vec<char> = Vec::new();
    let mut i: usize = 0;
    assert(response@.take(0) =~= Seq::<char>::empty());
    while i < chars.len()
        invariant
            chars@ == response@,
            i <= chars@.len(),
            body@ == neutralized(response@.take(i as int)),
        decreases chars@.len() - i,
    {
        assert(response@.take(i + 1).drop_last() =~= response@.take(i as int));
        body.push(chars[i]);
        if chars[i] == '@' {
            body.push(BREAK);
        }
        i = i + 1;
    }
    assert(response@.take(response@.len() as int) =~= response@);
    proof {
        law_published_comments_are_safe(response@);
    }
    let too_long = body.len() > MAX_ANSWER_CHARS;
    let mut r: String = text::cat2(PROVENANCE, "\n\n");
    let ghost head = r@;
    let mut k: usize = 0;
    assert(body@.take(0) =~= Seq::<char>::empty());
    while k < body.len() && k < MAX_ANSWER_CHARS
        invariant
            k <= body@.len(),
            k <= MAX_ANSWER_CHARS,
            r@ == head + body@.take(k as int),
        decreases body@.len() - k,
    {
        r.push(body[k]);
        assert(body@.take(k + 1) =~= body@.take(k as int).push(body@[k as int]));
        assert(r@ =~= head + body@.take(k + 1));
        k = k + 1;
    }
    if too_long {
        r.append(CUT_OFF);
        assert(r@ =~= head + (body@.take(MAX_ANSWER_CHARS as int) + CUT_OFF@));
    } else {
        assert(body@.take(body@.len() as int) =~= body@);
    }
    r
}

/// The request that publishes an answer on a pull request or issue: its address,
/// and the comment's text.
pub fn comment_request(target: &WorkTarget, response: &str) -> (r: (String, String))
    ensures
        r.0@ == github_api::item_url_text(
            target.owner_string()@,
            target.repo_string()@,
            "/issues/"@,
            target.number_value(),
            "/comments"@,
        ),
        r.1@ == published_text(response@),
{
    (github_api::post_comment_url(target), published_comment(response))
}

// ---------------------------------------------------------------------------
// What is published of an answer
// ---------------------------------------------------------------------------
proof fn lemma_neutralized_keeps_the_text(s: Seq<char>)
    ensures
        neutralized(s).filter(|c: char| c != '\u{200b}') == s.filter(|c: char| c != '\u{200b}'),
        neutralized(s).len() == s.len() + s.filter(|c: char| c == '@').len(),
    decreases s.len(),
{
    reveal(Seq::filter);
    let kept = |c: char| c != '\u{200b}';
    if s.len() > 0 {
        let earlier = neutralized(s.drop_last());
        lemma_neutralized_keeps_the_text(s.drop_last());
        if s.last() == '@' {
            assert(earlier.push('@').push(BREAK).drop_last() =~= earlier.push('@'));
            assert(earlier.push('@').drop_last() =~= earlier);
            assert(earlier.push('@').filter(kept) == earlier.filter(kept).push('@'));
        } else {
            assert(earlier.push(s.last()).drop_last() =~= earlier);
        }
    }
}

proof fn lemma_all_kept(s: Seq<char>)
    requires
        !s.contains('\u{200b}'),
    ensures
        s.filter(|c: char| c != '\u{200b}') == s,
    decreases s.len(),
{
    reveal(Seq::filter);
    if s.len() > 0 {
        assert forall|i: int| 0 <= i < s.len() implies #[trigger] s[i] != '\u{200b}' by {
            assert(s.contains(s[i]));
        }
        assert(!s.drop_last().contains('\u{200b}')) by {
            assert forall|i: int| 0 <= i < s.len() - 1 implies #[trigger] s.drop_last()[i]
                != '\u{200b}' by {
                assert(s.drop_last()[i] == s[i]);
            }
        }
        lemma_all_kept(s.drop_last());
        assert(s =~= s.drop_last().push(s.last()));
    }
}

/// An answer that fits the limit is published whole: behind the provenance line
/// and a blank line, and but for zero-width spaces, the published text is the
/// answer, character for character and in order, line breaks and all. One
/// zero-width space is added for each `@`, and no other character.
pub proof fn law_answers_are_published_whole(response: Seq<char>)
    requires
        response.len() + response.filter(|c: char| c == '@').len() <= 59000,
    ensures
        ({
            let head = "_Automated answer by Maid, written by Codex._"@ + seq!['\n', '\n'];
            let body = published_text(response).skip(head.len() as int);
            &&& published_text(response) == head + body
            &&& body.filter(|c: char| c != '\u{200b}') == response.filter(
                |c: char| c != '\u{200b}',
            )
            &&& body.len() == response.len() + response.filter(|c: char| c == '@').len()
            &&& !response.contains('\u{200b}') ==> body.filter(|c: char| c != '\u{200b}')
                == response
            &&& !response.contains('@') ==> body == response
        }),
{
    reveal_strlit("\n\n");
    let head = "_Automated answer by Maid, written by Codex._"@ + seq!['\n', '\n'];
    assert("\n\n"@ =~= seq!['\n', '\n']);
    lemma_neutralized_keeps_the_text(response);
    assert(published_text(response) =~= head + neutralized(response));
    assert(published_text(response).skip(head.len() as int) =~= neutralized(response));
    if !response.contains('\u{200b}') {
        lemma_all_kept(response);
    }
    if !response.contains('@') {
        lemma_nothing_to_neutralize(response);
    }
}

proof fn lemma_nothing_to_neutralize(s: Seq<char>)
    requires
        !s.contains('@'),
    ensures
        neutralized(s) == s,
    decreases s.len(),
{
    if s.len() > 0 {
        assert(s.contains(s.last()));
        assert(!s.drop_last().contains('@')) by {
            assert forall|i: int| 0 <= i < s.len() - 1 implies #[trigger] s.drop_last()[i]
                != '@' by {
                assert(s.contains(s[i]));
            }
        }
        lemma_nothing_to_neutralize(s.drop_last());
        assert(s =~= s.drop_last().push(s.last()));
    } else {
        assert(neutralized(s) =~= s);
    }
}

/// Two parts of an answer are published one behind the other, each as it would be
/// by itself; of single characters, only an `@` is changed.
pub proof fn law_answers_are_published_part_by_part(first: Seq<char>, second: Seq<char>, c: char)
    ensures
        neutralized(first + second) == neutralized(first) + neutralized(second),
        neutralized(seq![c]) == (if c == '@' {
            seq!['@', '\u{200b}']
        } else {
            seq![c]
        }),
    decreases second.len(),
{
    if second.len() > 0 {
        law_answers_are_published_part_by_part(first, second.drop_last(), c);
        assert((first + second).drop_last() =~= first + second.drop_last());
        assert((first + second).last() == second.last());
        assert(neutralized(first + second) =~= neutralized(first) + neutralized(second));
    } else {
        assert(first + second =~= first);
        assert(neutralized(first) + neutralized(second) =~= neutralized(first));
    }
    assert(seq![c].drop_last() =~= Seq::<char>::empty());
    assert(neutralized(Seq::<char>::empty()) =~= Seq::<char>::empty());
    assert(neutralized(seq![c]) =~= (if c == '@' {
        seq!['@', '\u{200b}']
    } else {
        seq![c]
    }));
}

/// Of an answer that is too long a long beginning is published, and a note says
/// that the rest is left out.
pub proof fn law_long_answers_are_cut_off(response: Seq<char>)
    requires
        response.len() + response.filter(|c: char| c == '@').len() > 59000,
    ensures
        ({
            let head = "_Automated answer by Maid, written by Codex._"@ + seq!['\n', '\n'];
            published_text(response) == head + neutralized(response).take(59000)
                + "\n\n_The rest of the answer was too long and is left out._"@
        }),
        forall|more: Seq<char>|
            #![trigger published_text(response + more)]
            published_text(response + more) == published_text(response),
{
    reveal_strlit("\n\n");
    let head = "_Automated answer by Maid, written by Codex._"@ + seq!['\n', '\n'];
    assert("\n\n"@ =~= seq!['\n', '\n']);
    lemma_neutralized_keeps_the_text(response);
    assert(published_text(response) =~= head + neutralized(response).take(59000) + CUT_OFF@);
    assert forall|more: Seq<char>|
        #![trigger published_text(response + more)]
        published_text(response + more) == published_text(response) by {
        law_answers_are_published_part_by_part(response, more, 'a');
        assert(neutralized(response + more).take(59000) =~= neutralized(response).take(59000));
    }
}

/// No published comment has more than sixty thousand characters, and each ends with
/// the answer or says that it was cut off.
pub proof fn law_comments_have_a_bound(response: Seq<char>)
    ensures
        published_text(response).len() <= 60000,
        ({
            let answer = neutralized(response);
            let end = if answer.len() <= 59000 {
                answer
            } else {
                answer.take(59000) + "\n\n_The rest of the answer was too long and is left out._"@
            };
            published_text(response) == "_Automated answer by Maid, written by Codex._"@
                + "\n\n"@ + end
        }),
{
    law_published_comments_are_safe(response);
}

/// What is posted under a pull request or an issue is the answer itself, line breaks
/// and all, under the line that says where it comes from, as long as it fits and
/// mentions nobody.
pub proof fn law_posted_answers_are_whole(
    target: &WorkTarget,
    response: &str,
    r: (String, String),
    comment: String,
)
    requires
        call_ensures(comment_request, (target, response), r),
        call_ensures(published_comment, (response,), comment),
        !response@.contains('@'),
        response@.len() <= 59000,
    ensures
        r.0@ == "https://api.github.com/repos/"@ + target.owner_string()@ + "/"@
            + target.repo_string()@ + "/issues/"@ + crate::numeral::decimal(
            target.number_value() as nat,
        ) + "/comments"@,
        r.1@ == "_Automated answer by Maid, written by Codex._"@ + seq!['\n', '\n']
            + response@,
        comment@ == r.1@,
{
    lemma_plain_is_kept(response@);
    reveal_strlit("\n\n");
    assert("\n\n"@ =~= seq!['\n', '\n']);
}

proof fn lemma_plain_is_kept(s: Seq<char>)
    requires
        !s.contains('@'),
    ensures
        neutralized(s) == s,
    decreases s.len(),
{
    if s.len() > 0 {
        assert(s.contains(s.last()));
        assert forall|i: int| 0 <= i < s.drop_last().len() implies s.drop_last()[i] != '@' by {
            assert(s.contains(s[i]));
        }
        lemma_plain_is_kept(s.drop_last());
        assert(s.drop_last().push(s.last()) =~= s);
    }
}

} // verus!
