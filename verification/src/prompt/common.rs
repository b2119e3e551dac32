//! What a prompt is made from, the size of the model's window, and the instruction document
//! that opens a conversation.

use crate::git::{diff_views, FileDiff, FileDiffView};
use crate::open_ai::{BackendReply, ConversationTurn, ResponseConvention, Role, TurnView};
use crate::prompt::budget::{fit_diffs, fits_budget, fitted, total_len};
use crate::prompt::{CommitCompletionData, PromptError, PromptErrorView};
use crate::text::{same_text, views};
use vstd::prelude::*;
use vstd::string::StringExecFns;

verus! {

/// The bytes of the window that are kept free for the instructions around the patches.
pub const RESERVED_OVERHEAD: usize = 2048;

/// What the backend is told to do.
pub const SYSTEM_PROMPT: &'static str =
    "You are a CLI program designed to generate clear, concise, and informative git commit messages for users based on provided diffs. \nYour response should be a short one-line string, that concisely summarizes the changes made.\nWhen crafting commit messages, consider the context of the change, its purpose, and its impact on the project.\nFocus on action verbs, clear descriptions, and the specific area of the project affected by the changes.";

/// The line that introduces the earlier commit messages.
pub const STYLE_GUIDE_HEADER: &'static str =
    "Use the following previous commits as a style guide for consistency and clarity:\n";

/// The line that introduces the patches.
pub const DIFF_HEADER: &'static str = "# Git diff:\n";

/// The number of tokens in the window of `model`. A model that is not known is taken to have
/// the smallest window.
pub open spec fn window_tokens(model: Seq<char>) -> nat {
    if model == "gpt-3.5-turbo-0125"@ {
        16385
    } else if model == "gpt-4"@ {
        8192
    } else {
        4096
    }
}

/// The number of bytes in the window of `model`, at four bytes to the token.
pub open spec fn window_bytes(model: Seq<char>) -> nat {
    window_tokens(model) * 4
}

/// The number of bytes that the patches may take for `model`.
pub open spec fn budget_of(model: Seq<char>) -> nat {
    (window_bytes(model) - RESERVED_OVERHEAD) as nat
}

/// The number of bytes in the window of `model`, at four bytes to the token.
pub fn model_propmpt_length(model: &str) -> (length: usize)
    ensures
        length == window_bytes(model@),
{
    let tokens: usize = if same_text(model, "gpt-3.5-turbo-0125") {
        16385
    } else if same_text(model, "gpt-4") {
        8192
    } else {
        4096
    };
    tokens * 4
}

/// The earlier commit messages as a list, one item to the line.
pub open spec fn message_items(messages: Seq<Seq<char>>) -> Seq<char>
    decreases messages.len(),
{
    if messages.len() == 0 {
        Seq::empty()
    } else {
        message_items(messages.drop_last()) + "  - "@ + messages.last() + "\n"@
    }
}

/// The block that shows the earlier commit messages; nothing where there are none.
pub open spec fn style_guide(messages: Seq<Seq<char>>) -> Seq<char> {
    if messages.len() == 0 {
        Seq::empty()
    } else {
        STYLE_GUIDE_HEADER@ + message_items(messages)
    }
}

/// The patches, each inside a fence, in the order of `diffs`.
pub open spec fn fenced_patches(diffs: Seq<FileDiffView>) -> Seq<char>
    decreases diffs.len(),
{
    if diffs.len() == 0 {
        Seq::empty()
    } else {
        fenced_patches(diffs.drop_last()) + "```diff\n"@ + diffs.last().formatted_diff
            + "\n```\n"@
    }
}

/// The instruction document: what to do, the earlier commit messages as a style guide if
/// there are any, and the patches.
pub open spec fn prompt_text(messages: Seq<Seq<char>>, diffs: Seq<FileDiffView>) -> Seq<char> {
    SYSTEM_PROMPT@ + "\n"@ + style_guide(messages) + "\n"@ + DIFF_HEADER@ + fenced_patches(diffs)
}

/// The turn that opens a conversation: the user shows the instruction document.
pub open spec fn opening_turn(messages: Seq<Seq<char>>, diffs: Seq<FileDiffView>) -> TurnView {
    TurnView { role: Role::User, content: prompt_text(messages, diffs) }
}

/// Assembles the turn that opens a conversation from the earlier commit messages and the
/// patches, each in the order in which it was collected.
pub fn assemble_prompt(messages: &Vec<String>, diffs: &Vec<FileDiff>) -> (turn: ConversationTurn)
    ensures
        turn@ == opening_turn(views(messages@), diff_views(diffs@)),
{
    let mut text = SYSTEM_PROMPT.to_owned();
    text.append("\n");
    if messages.len() > 0 {
        text.append(STYLE_GUIDE_HEADER);
        let ghost head = text@;
        let mut i: usize = 0;
        while i < messages.len()
            invariant
                i <= messages.len(),
                text@ == head + message_items(views(messages@).take(i as int)),
            decreases messages.len() - i,
        {
            proof {
                let next = views(messages@).take(i + 1);
                assert(next.drop_last() == views(messages@).take(i as int));
            }
            text.append("  - ");
            text.append(messages[i].as_str());
            text.append("\n");
            i += 1;
        }
        assert(views(messages@).take(messages.len() as int) == views(messages@));
        assert(text@ == SYSTEM_PROMPT@ + "\n"@ + style_guide(views(messages@)));
    } else {
        assert(text@ == SYSTEM_PROMPT@ + "\n"@ + style_guide(views(messages@)));
    }
    text.append("\n");
    text.append(DIFF_HEADER);
    let ghost head = text@;
    let mut i: usize = 0;
    while i < diffs.len()
        invariant
            i <= diffs.len(),
            text@ == head + fenced_patches(diff_views(diffs@).take(i as int)),
        decreases diffs.len() - i,
    {
        proof {
            let next = diff_views(diffs@).take(i + 1);
            assert(next.drop_last() == diff_views(diffs@).take(i as int));
        }
        text.append("```diff\n");
        text.append(diffs[i].formatted_diff.as_str());
        text.append("\n```\n");
        i += 1;
    }
    assert(diff_views(diffs@).take(diffs.len() as int) == diff_views(diffs@));
    ConversationTurn { role: Role::User, content: text }
}

/// The first `limit` of `messages`, or all of them where there are fewer.
pub fn most_recent(messages: Vec<String>, limit: usize) -> (kept: Vec<String>)
    ensures
        views(kept@) == views(messages@).take(
            if messages@.len() <= limit {
                messages@.len() as int
            } else {
                limit as int
            },
        ),
{
    let mut kept = messages;
    if kept.len() > limit {
        kept.truncate(limit);
    } else {
        assert(views(messages@).take(messages@.len() as int) == views(messages@));
    }
    kept
}

/// What a prompt is made from.
#[derive(Debug)]
pub struct PromptData {
    /// The subjects of the most recent commits, newest first.
    pub previous_commit_messages: Vec<String>,
    /// The staged patches, in the order in which they were collected.
    pub diff: Vec<FileDiff>,
    pub model: String,
    /// How the backend hands back its proposals.
    pub convention: ResponseConvention,
    /// What the user last asked to have changed.
    pub refinement_prompt: Option<String>,
}

/// The zero-context patches that were read, or none where they were not read.
pub open spec fn read_or_none(zero_context: Option<Vec<FileDiff>>) -> Seq<FileDiffView> {
    match zero_context {
        Some(diffs) => diff_views(diffs@),
        None => Seq::empty(),
    }
}

impl PromptData {
    /// The data of a prompt, from what was collected in the repository: the history and
    /// the model as they are in `data`, and the staged patches fitted into the budget of
    /// the model, for which `zero_context` holds them without context.
    ///
    /// Without a staged file this fails with `NoStagedFiles`. The patches of `data` are
    /// taken as they are where they fit the budget, and `zero_context` is not looked at
    /// then. Where they do not fit, the zero-context patches are taken, trimmed where they
    /// too are over the budget; `None` says that they could not be read, and this fails
    /// with `GitError`. Where the zero-context patches are no longer than those of `data`,
    /// as patches with less context are, the patches of the prompt are no longer than
    /// either.
    pub fn from_collected(
        data: CommitCompletionData,
        zero_context: Option<Vec<FileDiff>>,
        convention: ResponseConvention,
    ) -> (made: Result<PromptData, PromptError>)
        ensures
            made matches Err(e) ==> e@ == (if data.diff@.len() > 0 && zero_context is None {
                PromptErrorView::GitError
            } else {
                PromptErrorView::NoStagedFiles
            }),
            made is Err <==> data.diff@.len() == 0 || (total_len(diff_views(data.diff@))
                > budget_of(data.model@) && read_or_none(zero_context).len() == 0),
            made matches Ok(prompt) ==> {
                &&& prompt.previous_commit_messages == data.previous_messages
                &&& diff_views(prompt.diff@) == fitted(
                    diff_views(data.diff@),
                    read_or_none(zero_context),
                    budget_of(data.model@),
                )
                &&& total_len(diff_views(data.diff@)) <= budget_of(data.model@) ==> prompt.diff
                    == data.diff
                &&& total_len(read_or_none(zero_context)) <= total_len(diff_views(data.diff@))
                    ==> total_len(diff_views(prompt.diff@)) <= total_len(
                    diff_views(data.diff@),
                )
                &&& prompt.model == data.model
                &&& prompt.convention == convention
                &&& prompt.refinement_prompt == data.refinement_prompt
            },
    {
        let budget = CommitCompletionData::get_length_for_model(data.model.as_str());
        let zero_context = match zero_context {
            Some(diffs) => diffs,
            None => {
                if data.diff.len() > 0 && !fits_budget(&data.diff, budget) {
                    return Err(PromptError::GitError);
                }
                Vec::new()
            },
        };
        let fit = fit_diffs(data.diff, zero_context, budget);
        match fit {
            Ok(fit) => Ok(
                PromptData {
                    previous_commit_messages: data.previous_messages,
                    diff: fit.diffs,
                    model: data.model,
                    convention,
                    refinement_prompt: data.refinement_prompt,
                },
            ),
            Err(e) => Err(e),
        }
    }

    /// Keeps `prompt` as what the user last asked to have changed.
    pub fn update_refinement_prompt(&mut self, prompt: String)
        ensures
            final(self).refinement_prompt == Some(prompt),
            final(self).previous_commit_messages == old(self).previous_commit_messages,
            final(self).diff == old(self).diff,
            final(self).model == old(self).model,
            final(self).convention == old(self).convention,
    {
        self.refinement_prompt = Some(prompt);
    }
}

/// A way to get proposals for a commit message out of the backend. The request is sent
/// and the answer received elsewhere; a generator is handed what came of it.
pub trait PromptGenerator {
    /// A request was made and its answer is still to come.
    spec fn awaits_completion(&self) -> bool;

    /// Takes what came of the request that is waiting, when `num_results` proposals were
    /// asked for, and hands out the proposals.
    fn generate_results(&mut self, reply: &BackendReply, num_results: usize) -> (results: Result<
        Vec<String>,
        PromptError,
    >)
        requires
            old(self).awaits_completion(),
    ;
}

} // verus!
