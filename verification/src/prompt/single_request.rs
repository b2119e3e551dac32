//! The conversation with the backend: one request for each generation, each carrying all
//! that was said before.

use crate::git::{diff_views, FileDiffView};
use crate::open_ai::{
    content_views, copy_turns, turn_views, BackendReply, ChatCompletionResponse,
    CompletionRequest, ConversationTurn, ResponseConvention, Role, TurnView,
};
use crate::prompt::candidates::{
    is_proposal_of, lemma_reading_yields_what_was_asked, read_completion, read_reply, reading,
    reply_reading, CompletionView,
};
use crate::prompt::common::{assemble_prompt, opening_turn, PromptData, PromptGenerator};
use crate::prompt::{PromptError, PromptErrorView};
use crate::text::views;
use vstd::prelude::*;

verus! {

/// A `CompletionRequest` as plain values.
pub ghost struct RequestView {
    pub model: Seq<char>,
    pub n: nat,
    pub stop: Option<Seq<char>>,
    pub messages: Seq<TurnView>,
}

impl View for CompletionRequest {
    type V = RequestView;

    open spec fn view(&self) -> RequestView {
        RequestView {
            model: self.model@,
            n: self.n as nat,
            stop: match self.stop {
                Some(s) => Some(s@),
                None => None,
            },
            messages: turn_views(self.messages@),
        }
    }
}

/// The user speaks in the turns at even places and the assistant in those at odd places.
pub open spec fn alternates(turns: Seq<TurnView>) -> bool {
    forall|i: int|
        0 <= i < turns.len() ==> (#[trigger] turns[i]).role == (if i % 2 == 0 {
            Role::User
        } else {
            Role::Assistant
        })
}

/// The text at which the backend is to stop: the end of the first line under the
/// plain-text convention, nothing under the JSON convention.
pub open spec fn stop_for(convention: ResponseConvention) -> Option<Seq<char>> {
    match convention {
        ResponseConvention::PlainText => Some("\n"@),
        ResponseConvention::Json => None,
    }
}

/// The turn in which the user says `text`.
pub open spec fn user_turn(text: Seq<char>) -> TurnView {
    TurnView { role: Role::User, content: text }
}

/// The turn in which the assistant says `text`.
pub open spec fn assistant_turn(text: Seq<char>) -> TurnView {
    TurnView { role: Role::Assistant, content: text }
}

/// The turns after the opening document was answered with `first_answer` and each
/// instruction of `rounds` with the answer beside it.
pub open spec fn conversation(
    opening: TurnView,
    first_answer: Seq<char>,
    rounds: Seq<(Seq<char>, Seq<char>)>,
) -> Seq<TurnView>
    decreases rounds.len(),
{
    if rounds.len() == 0 {
        seq![opening, assistant_turn(first_answer)]
    } else {
        conversation(opening, first_answer, rounds.drop_last()).push(
            user_turn(rounds.last().0),
        ).push(assistant_turn(rounds.last().1))
    }
}

/// After `k` refinements the conversation holds `2 + 2k` turns, the user and the assistant
/// speak in turn, beginning with the opening document, and every earlier state of the
/// conversation is its beginning: no turn is ever taken away or changed.
pub proof fn lemma_conversation_alternates(
    opening: TurnView,
    first_answer: Seq<char>,
    rounds: Seq<(Seq<char>, Seq<char>)>,
)
    requires
        opening.role == Role::User,
    ensures
        conversation(opening, first_answer, rounds).len() == 2 + 2 * rounds.len(),
        alternates(conversation(opening, first_answer, rounds)),
        conversation(opening, first_answer, rounds)[0] == opening,
        forall|k: int|
            0 <= k <= rounds.len() ==> (#[trigger] conversation(
                opening,
                first_answer,
                rounds.take(k),
            )).is_prefix_of(conversation(opening, first_answer, rounds)),
    decreases rounds.len(),
{
    let all = conversation(opening, first_answer, rounds);
    if rounds.len() == 0 {
        assert forall|k: int| 0 <= k <= rounds.len() implies (#[trigger] conversation(
            opening,
            first_answer,
            rounds.take(k),
        )).is_prefix_of(all) by {
            assert(rounds.take(k) == rounds);
        }
    } else {
        let front = rounds.drop_last();
        lemma_conversation_alternates(opening, first_answer, front);
        assert forall|k: int| 0 <= k <= rounds.len() implies (#[trigger] conversation(
            opening,
            first_answer,
            rounds.take(k),
        )).is_prefix_of(all) by {
            if k == rounds.len() {
                assert(rounds.take(k) == rounds);
            } else {
                assert(rounds.take(k) == front.take(k));
            }
        }
    }
}

/// A conversation about one set of staged patches. It starts empty; the first generation
/// opens it with the instruction document, every answer of the backend and every
/// refinement of the user is added at its end, and nothing is ever taken out of it.
pub struct SingleRequestPrompt {
    data: PromptData,
    turns: Vec<ConversationTurn>,
}

impl SingleRequestPrompt {
    /// In every state the user and the assistant speak in turn, and the first turn, if
    /// there is one, is the instruction document made from the data of this conversation.
    #[verifier::type_invariant]
    spec fn well_formed(&self) -> bool {
        &&& alternates(turn_views(self.turns@))
        &&& self.turns@.len() > 0 ==> {
            &&& self.data.diff@.len() > 0
            &&& turn_views(self.turns@)[0] == opening_turn(
                views(self.data.previous_commit_messages@),
                diff_views(self.data.diff@),
            )
        }
    }

    /// The turns so far.
    pub closed spec fn turns(&self) -> Seq<TurnView> {
        turn_views(self.turns@)
    }

    /// The earlier commit messages that serve as a style guide.
    pub closed spec fn previous_messages(&self) -> Seq<Seq<char>> {
        views(self.data.previous_commit_messages@)
    }

    /// The staged patches.
    pub closed spec fn diffs(&self) -> Seq<FileDiffView> {
        diff_views(self.data.diff@)
    }

    /// The model that is asked.
    pub closed spec fn model(&self) -> Seq<char> {
        self.data.model@
    }

    /// How the backend hands back its proposals.
    pub closed spec fn convention(&self) -> ResponseConvention {
        self.data.convention
    }

    /// What the user last asked to have changed.
    pub closed spec fn refinement(&self) -> Option<Seq<char>> {
        match self.data.refinement_prompt {
            Some(text) => Some(text@),
            None => None,
        }
    }

    /// The instruction document of this conversation.
    pub open spec fn opening(&self) -> TurnView {
        opening_turn(self.previous_messages(), self.diffs())
    }

    /// A request was made and its answer is still to come.
    pub open spec fn awaits_answer(&self) -> bool {
        self.turns().len() % 2 == 1
    }

    /// The last request was answered: there are proposals to accept or to refine.
    pub open spec fn has_answer(&self) -> bool {
        self.turns().len() > 0 && self.turns().len() % 2 == 0
    }

    /// The request that carries the whole conversation and asks for `n` proposals.
    pub open spec fn request(&self, n: nat) -> RequestView {
        RequestView {
            model: self.model(),
            n,
            stop: stop_for(self.convention()),
            messages: self.turns(),
        }
    }

    /// Everything but the turns is the same in `self` and `other`.
    pub open spec fn same_data(&self, other: &Self) -> bool {
        &&& self.previous_messages() == other.previous_messages()
        &&& self.diffs() == other.diffs()
        &&& self.model() == other.model()
        &&& self.convention() == other.convention()
    }

    /// Puts `turn` at the end of the conversation.
    fn push_turn(&mut self, turn: ConversationTurn)
        requires
            turn@.role == (if old(self).turns().len() % 2 == 0 {
                Role::User
            } else {
                Role::Assistant
            }),
            old(self).turns().len() == 0 ==> old(self).diffs().len() > 0 && turn@ == old(
                self,
            ).opening(),
        ensures
            final(self).turns() == old(self).turns().push(turn@),
            final(self).same_data(old(self)),
            final(self).refinement() == old(self).refinement(),
    {
        proof {
            use_type_invariant(&*self);
        }
        let mut turns: Vec<ConversationTurn> = Vec::new();
        core::mem::swap(&mut self.turns, &mut turns);
        let ghost before = turns@;
        turns.push(turn);
        assert(turn_views(turns@) == turn_views(before).push(turn@));
        core::mem::swap(&mut self.turns, &mut turns);
    }

    /// A conversation about `data` in which nothing was said yet.
    pub fn from(data: PromptData) -> (prompt: SingleRequestPrompt)
        ensures
            prompt.turns().len() == 0,
            prompt.previous_messages() == views(data.previous_commit_messages@),
            prompt.diffs() == diff_views(data.diff@),
            prompt.model() == data.model@,
            prompt.convention() == data.convention,
            prompt.refinement() == match data.refinement_prompt {
                Some(text) => Some(text@),
                None => None,
            },
    {
        SingleRequestPrompt { data, turns: Vec::new() }
    }

    /// What the user last asked to have changed, to start the next instruction from.
    pub fn get_refinement_prompt(&self) -> (prompt: Option<String>)
        ensures
            match prompt {
                Some(text) => self.refinement() == Some(text@),
                None => self.refinement() is None,
            },
    {
        self.data.refinement_prompt.clone()
    }

    /// Keeps `prompt` as what the user last asked to have changed. The conversation stays
    /// as it is.
    pub fn update_refinement_prompt(&mut self, prompt: String)
        ensures
            final(self).refinement() == Some(prompt@),
            final(self).turns() == old(self).turns(),
            final(self).same_data(old(self)),
    {
        proof {
            use_type_invariant(&*self);
        }
        self.data.refinement_prompt = Some(prompt);
    }

    /// The turns so far. The user and the assistant speak in turn, and the first turn is the
    /// instruction document.
    pub fn history(&self) -> (turns: &Vec<ConversationTurn>)
        ensures
            turn_views(turns@) == self.turns(),
            alternates(self.turns()),
            self.turns().len() > 0 ==> self.turns()[0] == self.opening() && self.diffs().len() > 0,
    {
        proof {
            use_type_invariant(self);
        }
        &self.turns
    }

    /// Whether a request was made whose answer is still to come.
    pub fn is_awaiting_answer(&self) -> (awaiting: bool)
        ensures
            awaiting == self.awaits_answer(),
    {
        self.turns.len() % 2 == 1
    }

    /// Whether the last request was answered.
    pub fn is_answered(&self) -> (answered: bool)
        ensures
            answered == self.has_answer(),
    {
        self.turns.len() > 0 && self.turns.len() % 2 == 0
    }

    /// The request that carries the whole conversation so far and asks for `num_results`
    /// proposals.
    pub fn build_request_body(&self, num_results: usize) -> (body: CompletionRequest)
        ensures
            body@ == self.request(num_results as nat),
    {
        let stop = match self.data.convention {
            ResponseConvention::PlainText => Some("\n".to_owned()),
            ResponseConvention::Json => None,
        };
        CompletionRequest {
            model: self.data.model.clone(),
            n: num_results,
            stop,
            messages: copy_turns(&self.turns),
        }
    }

    /// Starts a generation of `num_results` proposals and hands out the request to send.
    /// In a conversation in which nothing was said yet, the instruction document becomes the
    /// first turn; one that waits for an answer is sent again as it is. Fails with
    /// `NoStagedFiles`, and leaves the conversation as it was, where no patch is staged.
    /// Once an answer is there, the conversation goes on with `refine`, not from here: the
    /// user and the assistant speak in turn.
    pub fn generate(&mut self, num_results: usize) -> (request: Result<
        CompletionRequest,
        PromptError,
    >)
        requires
            !old(self).has_answer(),
        ensures
            request is Err <==> old(self).diffs().len() == 0,
            final(self).same_data(old(self)),
            final(self).refinement() == old(self).refinement(),
            match request {
                Err(e) => e@ == PromptErrorView::NoStagedFiles && final(self).turns() == old(
                    self,
                ).turns(),
                Ok(body) => {
                    &&& final(self).turns() == if old(self).turns().len() == 0 {
                        seq![old(self).opening()]
                    } else {
                        old(self).turns()
                    }
                    &&& body@ == final(self).request(num_results as nat)
                    &&& final(self).awaits_answer()
                },
            },
    {
        proof {
            use_type_invariant(&*self);
        }
        if self.data.diff.len() == 0 {
            return Err(PromptError::NoStagedFiles);
        }
        if self.turns.len() == 0 {
            let opening = assemble_prompt(&self.data.previous_commit_messages, &self.data.diff);
            self.push_turn(opening);
        }
        Ok(self.build_request_body(num_results))
    }

    /// Asks for `num_results` proposals that follow `instruction`: the instruction becomes
    /// the turn of the user at the end of the conversation, it is kept as what the user
    /// last asked for, and the request to send is handed out. There must be an answer to
    /// refine.
    pub fn refine(&mut self, instruction: String, num_results: usize) -> (body: CompletionRequest)
        requires
            old(self).has_answer(),
        ensures
            final(self).turns() == old(self).turns().push(user_turn(instruction@)),
            final(self).refinement() == Some(instruction@),
            final(self).same_data(old(self)),
            final(self).awaits_answer(),
            body@ == final(self).request(num_results as nat),
    {
        proof {
            use_type_invariant(&*self);
        }
        let turn = ConversationTurn { role: Role::User, content: instruction.clone() };
        self.push_turn(turn);
        self.data.refinement_prompt = Some(instruction);
        self.build_request_body(num_results)
    }

    /// The proposals in the answer `completion`, read under the convention of this
    /// conversation, when `num_results` were asked for. The conversation stays as it is.
    /// Under the plain-text convention the proposal at a place is taken from the choice at
    /// that place alone: the first line of its content that is not empty, without the white
    /// space at its ends.
    pub fn extract_results(&self, completion: &ChatCompletionResponse, num_results: usize) -> (results:
        Result<Vec<String>, PromptError>)
        ensures
            match results {
                Ok(found) => reading(
                    self.convention(),
                    content_views(completion.choices@),
                    num_results as nat,
                ) matches Ok(c) && c.candidates == views(found@) && found@.len() == num_results
                    && (self.convention() == ResponseConvention::PlainText ==> forall|i: int|
                    0 <= i < num_results ==> is_proposal_of(
                        #[trigger] views(found@)[i],
                        content_views(completion.choices@)[i],
                    )),
                Err(e) => reading(
                    self.convention(),
                    content_views(completion.choices@),
                    num_results as nat,
                ) == Err::<CompletionView, PromptErrorView>(e@),
            },
    {
        proof {
            lemma_reading_yields_what_was_asked(
                self.convention(),
                content_views(completion.choices@),
                num_results as nat,
            );
        }
        match read_completion(self.data.convention, completion, num_results) {
            Ok(read) => Ok(read.candidates),
            Err(e) => Err(e),
        }
    }
}

impl PromptGenerator for SingleRequestPrompt {
    open spec fn awaits_completion(&self) -> bool {
        self.awaits_answer()
    }

    /// Takes what came of the request that is waiting, when `num_results` proposals were
    /// asked for. Where an answer came and reads well, the turn of the assistant is added
    /// at the end of the conversation and the proposals are handed out; else the
    /// conversation stays as it was, so that the request can be made again, and the error
    /// says why.
    fn generate_results(&mut self, reply: &BackendReply, num_results: usize) -> (results: Result<
        Vec<String>,
        PromptError,
    >)
        ensures
            final(self).same_data(old(self)),
            final(self).refinement() == old(self).refinement(),
            match reply_reading(old(self).convention(), reply@, num_results as nat) {
                Ok(c) => {
                    &&& results matches Ok(found) && views(found@) == c.candidates
                        && found@.len() == num_results
                    &&& final(self).turns() == old(self).turns().push(c.assistant)
                    &&& c.assistant.role == Role::Assistant
                    &&& final(self).has_answer()
                },
                Err(e) => {
                    &&& results matches Err(error) && error@ == e
                    &&& final(self).turns() == old(self).turns()
                },
            },
    {
        proof {
            use_type_invariant(&*self);
        }
        match read_reply(self.data.convention, reply, num_results) {
            Ok(read) => {
                self.push_turn(read.assistant);
                Ok(read.candidates)
            },
            Err(e) => Err(e),
        }
    }
}

} // verus!
