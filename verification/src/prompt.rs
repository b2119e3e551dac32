//! Commit-message generation: what can go wrong, and the modules that fit the staged patches
//! into the model's window, assemble the prompt and keep the conversation.

use crate::git::{diff_views, FileDiff, HISTORY_LIMIT};
use crate::prompt::budget::{fits_budget, total_len};
use crate::prompt::common::{
    budget_of, model_propmpt_length, most_recent, RESERVED_OVERHEAD,
};
use crate::text::views;
use vstd::prelude::*;
use vstd::string::StringExecFns;

pub mod budget;
pub mod candidates;
pub mod common;
pub mod single_request;

verus! {

/// Why no commit message could be proposed.
#[derive(Debug)]
pub enum PromptError {
    /// Nothing is staged.
    NoStagedFiles,
    /// The answer of the backend holds no choice.
    OpenAiNoChoices,
    /// A choice of the backend holds no content.
    OpenAiNoContent,
    /// The backend answered, but not in the expected shape; the text cites what it sent.
    OpenAiWrongContent(String),
    /// The backend could not be reached; the text says why.
    OpenAiUnreachable(String),
    /// The repository could not be opened or read.
    GitError,
}

/// A `PromptError` as plain values.
pub ghost enum PromptErrorView {
    NoStagedFiles,
    OpenAiNoChoices,
    OpenAiNoContent,
    OpenAiWrongContent(Seq<char>),
    OpenAiUnreachable(Seq<char>),
    GitError,
}

impl View for PromptError {
    type V = PromptErrorView;

    open spec fn view(&self) -> PromptErrorView {
        match self {
            PromptError::NoStagedFiles => PromptErrorView::NoStagedFiles,
            PromptError::OpenAiNoChoices => PromptErrorView::OpenAiNoChoices,
            PromptError::OpenAiNoContent => PromptErrorView::OpenAiNoContent,
            PromptError::OpenAiWrongContent(m) => PromptErrorView::OpenAiWrongContent(m@),
            PromptError::OpenAiUnreachable(m) => PromptErrorView::OpenAiUnreachable(m@),
            PromptError::GitError => PromptErrorView::GitError,
        }
    }
}

/// The sentence that tells a user of `error`.
pub open spec fn error_text(error: PromptErrorView) -> Seq<char> {
    match error {
        PromptErrorView::NoStagedFiles => "No staged files"@,
        PromptErrorView::OpenAiNoChoices => "OpenAI returned no choices"@,
        PromptErrorView::OpenAiNoContent => "OpenAI returned no content"@,
        PromptErrorView::OpenAiWrongContent(m) => "OpenAI returned wrong content: "@ + m,
        PromptErrorView::OpenAiUnreachable(m) => "Reqwest Error: "@ + m,
        PromptErrorView::GitError => "Git error"@,
    }
}

impl PromptError {
    /// The sentence that tells a user of this error.
    pub fn message(&self) -> (text: String)
        ensures
            text@ == error_text(self@),
    {
        match self {
            PromptError::NoStagedFiles => "No staged files".to_owned(),
            PromptError::OpenAiNoChoices => "OpenAI returned no choices".to_owned(),
            PromptError::OpenAiNoContent => "OpenAI returned no content".to_owned(),
            PromptError::OpenAiWrongContent(m) => {
                "OpenAI returned wrong content: ".to_owned().concat(m.as_str())
            },
            PromptError::OpenAiUnreachable(m) => "Reqwest Error: ".to_owned().concat(m.as_str()),
            PromptError::GitError => "Git error".to_owned(),
        }
    }
}

/// What was collected in the repository for a completion.
#[derive(Debug)]
pub struct CommitCompletionData {
    /// The subjects of the most recent commits, newest first.
    pub previous_messages: Vec<String>,
    /// The staged patches with full context, in the order in which they were collected.
    pub diff: Vec<FileDiff>,
    pub model: String,
    /// What the user last asked to have changed.
    pub refinement_prompt: Option<String>,
}

impl CommitCompletionData {
    /// The number of bytes that the patches may take for `model`: its window, at four
    /// bytes to the token, less the reserve for the instructions.
    pub fn get_length_for_model(model: &str) -> (length: usize)
        ensures
            length == budget_of(model@),
            length >= 14336,
    {
        model_propmpt_length(model) - RESERVED_OVERHEAD
    }

    /// What was read in the repository for `model`, where it could be read: `None` stands
    /// for a history, or for staged patches, that could not be read. Of the history the
    /// first `HISTORY_LIMIT` messages are kept; the patches are kept as they are. Fails
    /// with `GitError` where either could not be read.
    pub fn from_path(
        previous_messages: Option<Vec<String>>,
        diff: Option<Vec<FileDiff>>,
        model: &str,
    ) -> (data: Result<CommitCompletionData, PromptError>)
        ensures
            data is Err <==> previous_messages is None || diff is None,
            data matches Err(e) ==> e@ == PromptErrorView::GitError,
            data matches Ok(d) ==> {
                &&& d.diff == diff->Some_0
                &&& d.model@ == model@
                &&& d.refinement_prompt is None
                &&& views(d.previous_messages@) == views(previous_messages->Some_0@).take(
                    if previous_messages->Some_0@.len() <= HISTORY_LIMIT {
                        previous_messages->Some_0@.len() as int
                    } else {
                        HISTORY_LIMIT as int
                    },
                )
            },
    {
        match (previous_messages, diff) {
            (Some(previous_messages), Some(diff)) => Ok(
                CommitCompletionData::new(previous_messages, diff, model),
            ),
            _ => Err(PromptError::GitError),
        }
    }

    /// What was collected for `model`: of `previous_messages` the first `HISTORY_LIMIT`
    /// are kept; `diff` is kept as it is. Nothing was asked to be changed yet.
    pub fn new(previous_messages: Vec<String>, diff: Vec<FileDiff>, model: &str) -> (data:
        CommitCompletionData)
        ensures
            views(data.previous_messages@) == views(previous_messages@).take(
                if previous_messages@.len() <= HISTORY_LIMIT {
                    previous_messages@.len() as int
                } else {
                    HISTORY_LIMIT as int
                },
            ),
            data.diff == diff,
            data.model@ == model@,
            data.refinement_prompt is None,
    {
        CommitCompletionData {
            previous_messages: most_recent(previous_messages, HISTORY_LIMIT),
            diff,
            model: model.to_owned(),
            refinement_prompt: None,
        }
    }

    /// Whether the patches fit the budget of the model as they are, so that the patches
    /// without context are not needed.
    pub fn fits(&self) -> (fits: bool)
        ensures
            fits == (total_len(diff_views(self.diff@)) <= budget_of(self.model@)),
    {
        fits_budget(&self.diff, CommitCompletionData::get_length_for_model(self.model.as_str()))
    }
}

} // verus!
