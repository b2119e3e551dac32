//! Reading the proposals out of an answer of the backend, under either convention.

use crate::lines::{is_line_of, lemma_text_lines, text_lines, text_lines_of};
use crate::open_ai::{
    content_views, BackendReply, ChatCompletionResponse, Choice, ConversationTurn, ReplyView,
    ResponseConvention, Role, TurnView,
};
use crate::prompt::{PromptError, PromptErrorView};
use crate::text::{
    decimal, is_piece_of, is_space, join_with, leading_space, lemma_leading_space,
    lemma_piece_of_piece, lemma_trailing_space, lemma_trim, lemma_trim_is_piece, push_decimal,
    same_text, trim, trimmed, views,
};
use vstd::prelude::*;
use vstd::string::StringExecFns;

verus! {

/// The first of `lines` that is not empty, without the white space at its ends. A line of
/// white space only is not empty: of it nothing is left.
pub open spec fn first_filled(lines: Seq<Seq<char>>) -> Option<Seq<char>>
    decreases lines.len(),
{
    if lines.len() == 0 {
        None
    } else if lines[0].len() > 0 {
        Some(trim(lines[0]))
    } else {
        first_filled(lines.drop_first())
    }
}

/// The proposal that a content holds: its first line that is not empty, without the white
/// space at its ends. Lines are taken as `str::lines` gives them. A content without a line
/// that is not empty holds no proposal.
pub open spec fn candidate_of(content: Seq<char>) -> Option<Seq<char>> {
    first_filled(text_lines(content))
}

/// The proposals of contents that hold one each, in order. The first content that is
/// missing, or that holds no proposal, decides the error.
pub open spec fn line_candidates(contents: Seq<Option<Seq<char>>>) -> Result<
    Seq<Seq<char>>,
    PromptErrorView,
>
    decreases contents.len(),
{
    if contents.len() == 0 {
        Ok(Seq::empty())
    } else {
        match line_candidates(contents.drop_last()) {
            Err(e) => Err(e),
            Ok(found) => match contents.last() {
                None => Err(PromptErrorView::OpenAiNoContent),
                Some(text) => match candidate_of(text) {
                    None => Err(PromptErrorView::OpenAiWrongContent(text)),
                    Some(candidate) => Ok(found.push(candidate)),
                },
            },
        }
    }
}

/// The contents themselves, where none is missing.
pub open spec fn texts_of(contents: Seq<Option<Seq<char>>>) -> Seq<Seq<char>> {
    contents.map_values(|c: Option<Seq<char>>| c.unwrap())
}

/// The sentence that cites a wrong number of `what`, and the payload that held them.
pub open spec fn wrong_count(
    what: Seq<char>,
    expected: nat,
    found: nat,
    payload: Seq<char>,
) -> Seq<char> {
    "wrong number of "@ + what + " (expected "@ + decimal(expected) + ", found "@ + decimal(found)
        + "): "@ + payload
}

/// What an answer is worth: the turn of the assistant, as it came, and the proposals.
pub ghost struct CompletionView {
    pub assistant: TurnView,
    pub candidates: Seq<Seq<char>>,
}

/// What an answer is worth: the turn of the assistant, as it came, and the proposals.
#[derive(Debug)]
pub struct Completion {
    pub assistant: ConversationTurn,
    pub candidates: Vec<String>,
}

impl View for Completion {
    type V = CompletionView;

    open spec fn view(&self) -> CompletionView {
        CompletionView { assistant: self.assistant@, candidates: views(self.candidates@) }
    }
}

/// A `Result` of this module with both sides as plain values.
pub open spec fn outcome_view(outcome: Result<Completion, PromptError>) -> Result<
    CompletionView,
    PromptErrorView,
> {
    match outcome {
        Ok(c) => Ok(c@),
        Err(e) => Err(e@),
    }
}

/// What an answer under the plain-text convention is worth when `expected` proposals were
/// asked for. No choice at all is `OpenAiNoChoices`. Each choice gives one proposal; the
/// first choice that cannot decides the error. Another number of choices than was asked
/// for is `OpenAiWrongContent`. The turn of the assistant is the contents, one below the
/// other.
pub open spec fn plain_text_reading(contents: Seq<Option<Seq<char>>>, expected: nat) -> Result<
    CompletionView,
    PromptErrorView,
> {
    if contents.len() == 0 {
        Err(PromptErrorView::OpenAiNoChoices)
    } else {
        match line_candidates(contents) {
            Err(e) => Err(e),
            Ok(candidates) => {
                let raw = join_with(texts_of(contents), "\n"@);
                if contents.len() != expected {
                    Err(
                        PromptErrorView::OpenAiWrongContent(
                            wrong_count("choices"@, expected, contents.len(), raw),
                        ),
                    )
                } else {
                    Ok(
                        CompletionView {
                            assistant: TurnView { role: Role::Assistant, content: raw },
                            candidates,
                        },
                    )
                }
            },
        }
    }
}

/// The sentence that cites a wrong number of `what`, and the payload that held them.
pub fn wrong_count_text(what: &str, expected: usize, found: usize, payload: &str) -> (text: String)
    ensures
        text@ == wrong_count(what@, expected as nat, found as nat, payload@),
{
    let mut text = "wrong number of ".to_owned();
    text.append(what);
    text.append(" (expected ");
    push_decimal(&mut text, expected);
    text.append(", found ");
    push_decimal(&mut text, found);
    text.append("): ");
    text.append(payload);
    text
}

/// The proposal that `content` holds: its first line that is not empty, without the white
/// space at its ends.
pub fn candidate(content: &str) -> (found: Option<String>)
    ensures
        match found {
            Some(text) => candidate_of(content@) == Some(text@),
            None => candidate_of(content@) is None,
        },
{
    let lines = text_lines_of(content);
    let mut i: usize = 0;
    assert(views(lines@).skip(0) == views(lines@));
    while i < lines.len()
        invariant
            i <= lines.len(),
            views(lines@) == text_lines(content@),
            first_filled(views(lines@).skip(i as int)) == candidate_of(content@),
        decreases lines.len() - i,
    {
        proof {
            let rest = views(lines@).skip(i as int);
            assert(rest[0] == lines@[i as int]@);
            assert(rest.drop_first() == views(lines@).skip(i + 1));
        }
        if lines[i].as_str().unicode_len() > 0 {
            return Some(trimmed(lines[i].as_str()));
        }
        i += 1;
    }
    None
}

/// Reads an answer under the plain-text convention, for which `expected` proposals were
/// asked. The proposal at a place is taken from the choice at that place alone: it is the
/// first line of its content that is not empty, without the white space at its ends.
pub fn read_plain_text(choices: &Vec<Choice>, expected: usize) -> (outcome: Result<
    Completion,
    PromptError,
>)
    ensures
        outcome_view(outcome) == plain_text_reading(content_views(choices@), expected as nat),
        outcome matches Ok(read) ==> read.candidates@.len() == choices@.len() && forall|i: int|
            0 <= i < choices@.len() ==> is_proposal_of(
                #[trigger] views(read.candidates@)[i],
                content_views(choices@)[i],
            ),
{
    let ghost contents = content_views(choices@);
    proof {
        lemma_line_candidates(contents);
    }
    if choices.len() == 0 {
        return Err(PromptError::OpenAiNoChoices);
    }
    let mut candidates: Vec<String> = Vec::new();
    let mut raw = String::new();
    let mut i: usize = 0;
    assert(views(candidates@) == Seq::<Seq<char>>::empty());
    while i < choices.len()
        invariant
            i <= choices.len(),
            contents == content_views(choices@),
            line_candidates(contents.take(i as int)) == Ok::<Seq<Seq<char>>, PromptErrorView>(
                views(candidates@),
            ),
            forall|j: int| 0 <= j < i ==> contents[j] is Some,
            raw@ == join_with(texts_of(contents.take(i as int)), "\n"@),
        decreases choices.len() - i,
    {
        proof {
            let next = contents.take(i + 1);
            assert(next.drop_last() == contents.take(i as int));
            assert(texts_of(next).drop_last() == texts_of(contents.take(i as int)));
        }
        match &choices[i].message.content {
            None => {
                proof {
                    lemma_first_error_stays(contents, i + 1);
                }
                return Err(PromptError::OpenAiNoContent);
            },
            Some(text) => {
                match candidate(text.as_str()) {
                    None => {
                        proof {
                            lemma_first_error_stays(contents, i + 1);
                        }
                        return Err(PromptError::OpenAiWrongContent(text.clone()));
                    },
                    Some(found) => {
                        let ghost before = candidates@;
                        candidates.push(found);
                        assert(views(candidates@) == views(before).push(found@));
                        if i > 0 {
                            raw.append("\n");
                        }
                        raw.append(text.as_str());
                    },
                }
            },
        }
        i += 1;
    }
    assert(contents.take(choices.len() as int) == contents);
    if choices.len() != expected {
        return Err(
            PromptError::OpenAiWrongContent(
                wrong_count_text("choices", expected, choices.len(), raw.as_str()),
            ),
        );
    }
    Ok(Completion { assistant: ConversationTurn { role: Role::Assistant, content: raw }, candidates })
}

/// An error among the first contents is the error of all of them.
pub proof fn lemma_first_error_stays(contents: Seq<Option<Seq<char>>>, n: int)
    requires
        0 <= n <= contents.len(),
        line_candidates(contents.take(n)) is Err,
    ensures
        line_candidates(contents) == line_candidates(contents.take(n)),
    decreases contents.len(),
{
    if n < contents.len() {
        assert(contents.drop_last().take(n) == contents.take(n));
        lemma_first_error_stays(contents.drop_last(), n);
    } else {
        assert(contents.take(n) == contents);
    }
}

/// The error with which serde_json refuses a text. Nothing is read from it.
#[verifier::external_type_specification]
#[verifier::external_body]
pub struct ExJsonError(serde_json::Error);

/// What serde_json makes of `content` read as a JSON object all of whose members are
/// arrays of strings: the members as pairs of name and strings, in the order of the names;
/// `None` where `content` is no such object.
pub uninterp spec fn json_string_lists(content: Seq<char>) -> Option<
    Seq<(Seq<char>, Seq<Seq<char>>)>,
>;

/// Pairs of a name and strings as plain values.
pub open spec fn lists_view(lists: Seq<(String, Vec<String>)>) -> Seq<
    (Seq<char>, Seq<Seq<char>>),
> {
    lists.map_values(|pair: (String, Vec<String>)| (pair.0@, views(pair.1@)))
}

/// Calls `serde_json::from_str` to read `content` as a map from strings to vectors of
/// strings, and hands the members out as pairs, in the order in which the map of std walks
/// them. The contract only gives the outcome its name: `json_string_lists`.
#[verifier::external_body]
fn parse_string_lists(content: &str) -> (parsed: Result<
    Vec<(String, Vec<String>)>,
    serde_json::Error,
>)
    ensures
        match parsed {
            Ok(lists) => json_string_lists(content@) == Some(lists_view(lists@)),
            Err(_) => json_string_lists(content@) is None,
        },
{
    match serde_json::from_str::<std::collections::BTreeMap<String, Vec<String>>>(content) {
        Ok(members) => Ok(members.into_iter().collect()),
        Err(error) => Err(error),
    }
}

/// The strings under the first name `messages` in `lists`.
pub open spec fn messages_of(lists: Seq<(Seq<char>, Seq<Seq<char>>)>) -> Option<Seq<Seq<char>>>
    decreases lists.len(),
{
    if lists.len() == 0 {
        None
    } else if lists[0].0 == "messages"@ {
        Some(lists[0].1)
    } else {
        messages_of(lists.drop_first())
    }
}

/// The proposals of messages that hold one each, in order; `None` where one of them holds
/// none.
pub open spec fn message_candidates(messages: Seq<Seq<char>>) -> Option<Seq<Seq<char>>>
    decreases messages.len(),
{
    if messages.len() == 0 {
        Some(Seq::empty())
    } else {
        match (message_candidates(messages.drop_last()), candidate_of(messages.last())) {
            (Some(found), Some(candidate)) => Some(found.push(candidate)),
            _ => None,
        }
    }
}

/// The proposals in a content that was read as `parsed`, when `expected` were asked for. A
/// content that is no object of string arrays, or one without `messages`, is
/// `OpenAiWrongContent` with the content as it came; another number of messages than was
/// asked for is `OpenAiWrongContent` citing both numbers and the content. Each message
/// gives one proposal, as a content does under the plain-text convention; a message
/// without a line that is not empty makes the content `OpenAiWrongContent`.
pub open spec fn messages_reading(
    parsed: Option<Seq<(Seq<char>, Seq<Seq<char>>)>>,
    content: Seq<char>,
    expected: nat,
) -> Result<Seq<Seq<char>>, PromptErrorView> {
    match parsed {
        None => Err(PromptErrorView::OpenAiWrongContent(content)),
        Some(lists) => match messages_of(lists) {
            None => Err(PromptErrorView::OpenAiWrongContent(content)),
            Some(messages) => if messages.len() != expected {
                Err(
                    PromptErrorView::OpenAiWrongContent(
                        wrong_count("messages"@, expected, messages.len(), content),
                    ),
                )
            } else {
                match message_candidates(messages) {
                    None => Err(PromptErrorView::OpenAiWrongContent(content)),
                    Some(candidates) => Ok(candidates),
                }
            },
        },
    }
}

/// What an answer under the JSON convention is worth when `expected` proposals were asked
/// for. No choice at all is `OpenAiNoChoices`; a first choice without content is
/// `OpenAiNoContent`; more than one choice is `OpenAiWrongContent`. The proposals are read
/// from the messages of the one content, and the turn of the assistant is that content.
pub open spec fn json_reading(contents: Seq<Option<Seq<char>>>, expected: nat) -> Result<
    CompletionView,
    PromptErrorView,
> {
    if contents.len() == 0 {
        Err(PromptErrorView::OpenAiNoChoices)
    } else {
        match contents[0] {
            None => Err(PromptErrorView::OpenAiNoContent),
            Some(content) => if contents.len() != 1 {
                Err(
                    PromptErrorView::OpenAiWrongContent(
                        wrong_count("choices"@, 1, contents.len(), content),
                    ),
                )
            } else {
                match messages_reading(json_string_lists(content), content, expected) {
                    Err(e) => Err(e),
                    Ok(messages) => Ok(
                        CompletionView {
                            assistant: TurnView { role: Role::Assistant, content },
                            candidates: messages,
                        },
                    ),
                }
            },
        }
    }
}

/// What an answer is worth under `convention`.
pub open spec fn reading(
    convention: ResponseConvention,
    contents: Seq<Option<Seq<char>>>,
    expected: nat,
) -> Result<CompletionView, PromptErrorView> {
    match convention {
        ResponseConvention::PlainText => plain_text_reading(contents, expected),
        ResponseConvention::Json => json_reading(contents, expected),
    }
}

/// `Some` of the plain values of `parsed`, or `None`.
pub open spec fn parsed_view(parsed: Option<Vec<(String, Vec<String>)>>) -> Option<
    Seq<(Seq<char>, Seq<Seq<char>>)>,
> {
    match parsed {
        Some(lists) => Some(lists_view(lists@)),
        None => None,
    }
}

/// The proposals of `messages`, one from each; `None` where one of them holds none.
pub fn candidates_of_messages(messages: &Vec<String>) -> (found: Option<Vec<String>>)
    ensures
        match found {
            Some(candidates) => message_candidates(views(messages@)) == Some(views(candidates@)),
            None => message_candidates(views(messages@)) is None,
        },
{
    let ghost all = views(messages@);
    let mut candidates: Vec<String> = Vec::new();
    let mut i: usize = 0;
    while i < messages.len()
        invariant
            i <= messages.len(),
            all == views(messages@),
            message_candidates(all.take(i as int)) == Some(views(candidates@)),
        decreases messages.len() - i,
    {
        proof {
            let next = all.take(i + 1);
            assert(next.drop_last() == all.take(i as int));
        }
        match candidate(messages[i].as_str()) {
            Some(found) => {
                candidates.push(found);
            },
            None => {
                proof {
                    lemma_empty_message_spoils(all, i + 1);
                }
                return None;
            },
        }
        i += 1;
    }
    assert(all.take(messages.len() as int) == all);
    Some(candidates)
}

/// Where the first messages hold no proposal for each, neither do all of them.
pub proof fn lemma_empty_message_spoils(messages: Seq<Seq<char>>, n: int)
    requires
        0 <= n <= messages.len(),
        message_candidates(messages.take(n)) is None,
    ensures
        message_candidates(messages) is None,
    decreases messages.len(),
{
    if n < messages.len() {
        assert(messages.drop_last().take(n) == messages.take(n));
        lemma_empty_message_spoils(messages.drop_last(), n);
    } else {
        assert(messages.take(n) == messages);
    }
}

/// The proposals in `content`, which was read as `parsed`, when `expected` were asked for.
pub fn read_messages(
    parsed: Option<Vec<(String, Vec<String>)>>,
    content: &str,
    expected: usize,
) -> (outcome: Result<Vec<String>, PromptError>)
    ensures
        match outcome {
            Ok(messages) => messages_reading(parsed_view(parsed), content@, expected as nat)
                == Ok::<Seq<Seq<char>>, PromptErrorView>(views(messages@)),
            Err(e) => messages_reading(parsed_view(parsed), content@, expected as nat) == Err::<
                Seq<Seq<char>>,
                PromptErrorView,
            >(e@),
        },
{
    let mut lists = match parsed {
        Some(lists) => lists,
        None => {
            return Err(PromptError::OpenAiWrongContent(content.to_owned()));
        },
    };
    let ghost all = lists_view(lists@);
    let mut i: usize = 0;
    assert(all.skip(0) == all);
    while i < lists.len()
        invariant
            i <= lists.len(),
            all == lists_view(lists@),
            parsed_view(parsed) == Some(all),
            messages_of(all.skip(i as int)) == messages_of(all),
        decreases lists.len() - i,
    {
        proof {
            let rest = all.skip(i as int);
            assert(rest.drop_first() == all.skip(i + 1));
        }
        if same_text(lists[i].0.as_str(), "messages") {
            let (_, messages) = lists.remove(i);
            if messages.len() != expected {
                return Err(
                    PromptError::OpenAiWrongContent(
                        wrong_count_text("messages", expected, messages.len(), content),
                    ),
                );
            }
            return match candidates_of_messages(&messages) {
                Some(candidates) => Ok(candidates),
                None => Err(PromptError::OpenAiWrongContent(content.to_owned())),
            };
        }
        i += 1;
    }
    Err(PromptError::OpenAiWrongContent(content.to_owned()))
}

/// Reads an answer under the JSON convention, for which `expected` proposals were asked.
pub fn read_json(choices: &Vec<Choice>, expected: usize) -> (outcome: Result<
    Completion,
    PromptError,
>)
    ensures
        outcome_view(outcome) == json_reading(content_views(choices@), expected as nat),
{
    if choices.len() == 0 {
        return Err(PromptError::OpenAiNoChoices);
    }
    let content = match &choices[0].message.content {
        Some(content) => content,
        None => {
            return Err(PromptError::OpenAiNoContent);
        },
    };
    if choices.len() != 1 {
        return Err(
            PromptError::OpenAiWrongContent(
                wrong_count_text("choices", 1, choices.len(), content.as_str()),
            ),
        );
    }
    let parsed = match parse_string_lists(content.as_str()) {
        Ok(lists) => Some(lists),
        Err(_) => None,
    };
    match read_messages(parsed, content.as_str(), expected) {
        Ok(candidates) => Ok(
            Completion {
                assistant: ConversationTurn { role: Role::Assistant, content: content.clone() },
                candidates,
            },
        ),
        Err(e) => Err(e),
    }
}

/// Reads the answer `completion` under `convention`, when `expected` proposals were asked
/// for: the turn of the assistant and the proposals, or why there are none.
pub fn read_completion(
    convention: ResponseConvention,
    completion: &ChatCompletionResponse,
    expected: usize,
) -> (outcome: Result<Completion, PromptError>)
    ensures
        outcome_view(outcome) == reading(
            convention,
            content_views(completion.choices@),
            expected as nat,
        ),
        outcome matches Ok(read) ==> read.candidates@.len() == expected
            && read.assistant.role == Role::Assistant,
{
    proof {
        lemma_reading_yields_what_was_asked(
            convention,
            content_views(completion.choices@),
            expected as nat,
        );
    }
    match convention {
        ResponseConvention::PlainText => read_plain_text(&completion.choices, expected),
        ResponseConvention::Json => read_json(&completion.choices, expected),
    }
}

/// What came of a request is worth what its completion is worth. Something that is no
/// completion is `OpenAiWrongContent` with what was sent, and a backend that could not be
/// reached is `OpenAiUnreachable` with the reason.
pub open spec fn reply_reading(
    convention: ResponseConvention,
    reply: ReplyView,
    expected: nat,
) -> Result<CompletionView, PromptErrorView> {
    match reply {
        ReplyView::Completion(contents) => reading(convention, contents, expected),
        ReplyView::Malformed(payload) => Err(PromptErrorView::OpenAiWrongContent(payload)),
        ReplyView::Unreachable(reason) => Err(PromptErrorView::OpenAiUnreachable(reason)),
    }
}

/// Reads what came of a request under `convention`, when `expected` proposals were asked
/// for: the turn of the assistant and the proposals, or why there are none.
pub fn read_reply(convention: ResponseConvention, reply: &BackendReply, expected: usize) -> (outcome:
    Result<Completion, PromptError>)
    ensures
        outcome_view(outcome) == reply_reading(convention, reply@, expected as nat),
        outcome matches Ok(read) ==> read.candidates@.len() == expected
            && read.assistant.role == Role::Assistant,
{
    match reply {
        BackendReply::Completion(completion) => read_completion(convention, completion, expected),
        BackendReply::Malformed(payload) => Err(PromptError::OpenAiWrongContent(payload.clone())),
        BackendReply::Unreachable(reason) => Err(PromptError::OpenAiUnreachable(reason.clone())),
    }
}

/// `text` is a trimmed line: it holds no line feed and neither begins nor ends with white
/// space. It may be empty.
pub open spec fn is_trimmed_line(text: Seq<char>) -> bool {
    &&& forall|i: int| 0 <= i < text.len() ==> text[i] != '\n'
    &&& text.len() > 0 ==> !is_space(text[0]) && !is_space(text.last())
    &&& trim(text) == text
}

/// A proposal taken from `content`: a trimmed line that is a contiguous piece of `content`.
pub open spec fn is_proposal_from(text: Seq<char>, content: Seq<char>) -> bool {
    is_trimmed_line(text) && is_piece_of(text, content)
}

/// What is left of a line of `whole` without the white space at its ends is a proposal
/// from `whole`.
pub proof fn lemma_trimmed_line_is_proposal(line: Seq<char>, whole: Seq<char>)
    requires
        is_line_of(line, whole),
    ensures
        is_proposal_from(trim(line), whole),
{
    lemma_trim(line);
    lemma_trim_is_piece(line);
    lemma_leading_space(line);
    lemma_trailing_space(line);
    lemma_piece_of_piece(trim(line), line, whole);
    let text = trim(line);
    let from = leading_space(line);
    assert forall|i: int| 0 <= i < text.len() implies text[i] != '\n' by {
        assert(text[i] == line[from + i]);
    }
}

/// The first filled line of lines of `whole`, trimmed, is a proposal from `whole`.
pub proof fn lemma_first_filled_is_proposal(lines: Seq<Seq<char>>, whole: Seq<char>)
    requires
        forall|i: int| 0 <= i < lines.len() ==> is_line_of(#[trigger] lines[i], whole),
    ensures
        first_filled(lines) matches Some(text) ==> is_proposal_from(text, whole),
    decreases lines.len(),
{
    if lines.len() > 0 {
        if lines[0].len() > 0 {
            lemma_trimmed_line_is_proposal(lines[0], whole);
        } else {
            let rest = lines.drop_first();
            assert forall|i: int| 0 <= i < rest.len() implies is_line_of(
                #[trigger] rest[i],
                whole,
            ) by {
                assert(rest[i] == lines[i + 1]);
            }
            lemma_first_filled_is_proposal(rest, whole);
        }
    }
}

/// A proposal is a trimmed line of its content: it holds no line feed, neither begins nor
/// ends with white space, and is a contiguous piece of the content. It is empty where the
/// first line of the content that is not empty holds white space only.
pub proof fn lemma_candidate_is_proposal(content: Seq<char>)
    ensures
        candidate_of(content) matches Some(text) ==> is_proposal_from(text, content),
{
    lemma_text_lines(content);
    lemma_first_filled_is_proposal(text_lines(content), content);
}

/// `text` is the proposal that `content` holds, and so a trimmed line of it.
pub open spec fn is_proposal_of(text: Seq<char>, content: Option<Seq<char>>) -> bool {
    match content {
        Some(content) => candidate_of(content) == Some(text) && is_proposal_from(text, content),
        None => false,
    }
}

/// The proposals of contents are as many as the contents, and each is the proposal of the
/// content in its place: a trimmed line of that content.
pub proof fn lemma_line_candidates(contents: Seq<Option<Seq<char>>>)
    ensures
        line_candidates(contents) matches Ok(found) ==> found.len() == contents.len()
            && forall|i: int|
            0 <= i < found.len() ==> is_proposal_of(#[trigger] found[i], contents[i]),
    decreases contents.len(),
{
    if contents.len() > 0 {
        let front = contents.drop_last();
        lemma_line_candidates(front);
        if line_candidates(contents) is Ok {
            let found = line_candidates(contents)->Ok_0;
            let before = line_candidates(front)->Ok_0;
            let last = contents.last()->Some_0;
            lemma_candidate_is_proposal(last);
            assert(found == before.push(candidate_of(last)->Some_0));
            assert forall|i: int| 0 <= i < found.len() implies is_proposal_of(
                #[trigger] found[i],
                contents[i],
            ) by {
                if i < before.len() {
                    assert(found[i] == before[i]);
                    assert(contents[i] == front[i]);
                } else {
                    assert(contents[i] == contents.last());
                }
            }
        }
    }
}

/// The proposals of messages are as many as the messages, and each is the proposal of the
/// message in its place: a trimmed line of that message.
pub proof fn lemma_message_candidates(messages: Seq<Seq<char>>)
    ensures
        message_candidates(messages) matches Some(found) ==> found.len() == messages.len()
            && forall|i: int|
            0 <= i < found.len() ==> is_proposal_of(#[trigger] found[i], Some(messages[i])),
    decreases messages.len(),
{
    if messages.len() > 0 {
        let front = messages.drop_last();
        lemma_message_candidates(front);
        lemma_candidate_is_proposal(messages.last());
        if message_candidates(messages) is Some {
            let found = message_candidates(messages)->Some_0;
            let before = message_candidates(front)->Some_0;
            assert(found == before.push(candidate_of(messages.last())->Some_0));
            assert forall|i: int| 0 <= i < found.len() implies is_proposal_of(
                #[trigger] found[i],
                Some(messages[i]),
            ) by {
                if i < before.len() {
                    assert(found[i] == before[i]);
                    assert(messages[i] == front[i]);
                }
            }
        }
    }
}

/// An answer that reads well gives exactly as many proposals as were asked for, in the
/// order of the answer, each of them a trimmed line, and the turn is one of the assistant.
/// Under the plain-text convention the proposal at a place is taken from the choice at that
/// place alone and is a contiguous piece of its content.
pub proof fn lemma_reading_yields_what_was_asked(
    convention: ResponseConvention,
    contents: Seq<Option<Seq<char>>>,
    expected: nat,
)
    ensures
        reading(convention, contents, expected) matches Ok(read) ==> {
            &&& read.candidates.len() == expected
            &&& forall|i: int|
                0 <= i < read.candidates.len() ==> is_trimmed_line(#[trigger] read.candidates[i])
            &&& convention == ResponseConvention::PlainText ==> contents.len() == expected
                && forall|i: int|
                0 <= i < expected ==> is_proposal_of(#[trigger] read.candidates[i], contents[i])
            &&& read.assistant.role == Role::Assistant
        },
{
    match convention {
        ResponseConvention::PlainText => {
            lemma_line_candidates(contents);
        },
        ResponseConvention::Json => {
            if contents.len() == 1 && contents[0] is Some {
                let content = contents[0].unwrap();
                match json_string_lists(content) {
                    Some(lists) => {
                        match messages_of(lists) {
                            Some(messages) => {
                                lemma_message_candidates(messages);
                            },
                            None => {},
                        }
                    },
                    None => {},
                }
            }
        },
    }
}

} // verus!
