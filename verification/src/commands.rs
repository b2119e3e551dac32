//! The run from the staged changes to a commit message: what is offered to the user once
//! proposals are there, what a pick means, and what is to be done next after each thing
//! that happened outside.

use crate::open_ai::{BackendReply, CompletionRequest, ReplyView};
use crate::prompt::candidates::reply_reading;
use crate::prompt::common::{PromptData, PromptGenerator};
use crate::prompt::single_request::{user_turn, RequestView, SingleRequestPrompt};
use crate::prompt::{PromptError, PromptErrorView};
use crate::text::{join, join_with, views};
use vstd::prelude::*;
use vstd::string::StringExecFns;

verus! {

/// The question above the proposals.
pub const CHOOSE_MESSAGE: &'static str = "Choose from generated options, or refine prompt:";

/// The question that asks for a refinement.
pub const REFINE_MESSAGE: &'static str = "What would you like to change:";

/// The option that asks for other proposals.
pub const REFINE_OPTION: &'static str = "Refine prompt";

/// What a pick among the options means.
#[derive(Debug)]
pub enum Decision {
    /// This proposal is the commit message.
    Accept(String),
    /// The user wants to say what to change.
    Refine,
}

/// A `Decision` as plain values.
pub ghost enum DecisionView {
    Accept(Seq<char>),
    Refine,
}

impl View for Decision {
    type V = DecisionView;

    open spec fn view(&self) -> DecisionView {
        match self {
            Decision::Accept(message) => DecisionView::Accept(message@),
            Decision::Refine => DecisionView::Refine,
        }
    }
}

/// The option that accepts `result`.
pub open spec fn accept_label(result: Seq<char>) -> Seq<char> {
    "Accept \""@ + result + "\""@
}

/// The options for `results`: one to accept each proposal, in order, then one to refine.
pub open spec fn options_of(results: Seq<Seq<char>>) -> Seq<Seq<char>> {
    Seq::new(
        results.len() + 1,
        |i: int|
            if i < results.len() {
                accept_label(results[i])
            } else {
                REFINE_OPTION@
            },
    )
}

/// What the pick of option `choice` means when `results` were offered.
pub open spec fn decision_of(results: Seq<Seq<char>>, choice: int) -> DecisionView {
    if choice < results.len() {
        DecisionView::Accept(results[choice])
    } else {
        DecisionView::Refine
    }
}

/// The options to show for `results`: one to accept each proposal, in order, then one to
/// refine.
pub fn options_for(results: &Vec<String>) -> (options: Vec<String>)
    ensures
        views(options@) == options_of(views(results@)),
        options@.len() == results@.len() + 1,
{
    let ghost want = options_of(views(results@));
    let mut options: Vec<String> = Vec::new();
    let mut i: usize = 0;
    while i < results.len()
        invariant
            i <= results.len(),
            want == options_of(views(results@)),
            options@.len() == i,
            views(options@) == want.take(i as int),
        decreases results.len() - i,
    {
        let label = "Accept \"".to_owned().concat(results[i].as_str()).concat("\"");
        assert(label@ == want[i as int]) by {
            assert(views(results@)[i as int] == results@[i as int]@);
        }
        options.push(label);
        i += 1;
    }
    let ghost before = options@;
    let last = REFINE_OPTION.to_owned();
    options.push(last);
    assert(views(options@) == views(before).push(last@));
    options
}

/// What the pick of option `choice` means when the options for `results` were shown: a
/// proposal is accepted, or, with the last option, a refinement is asked for.
pub fn decide(results: &Vec<String>, choice: usize) -> (decision: Decision)
    requires
        choice <= results@.len(),
    ensures
        decision@ == decision_of(views(results@), choice as int),
{
    if choice < results.len() {
        Decision::Accept(results[choice].clone())
    } else {
        Decision::Refine
    }
}

/// What is printed where nobody is asked: all proposals, one to the line.
pub fn non_interactive_output(results: &Vec<String>) -> (output: String)
    ensures
        output@ == join_with(views(results@), "\n"@),
{
    join(results, "\n")
}

/// Where a run stands.
#[derive(Clone, Copy, Debug, PartialEq, Eq, Structural)]
pub enum Phase {
    /// Nothing was asked yet.
    Fresh,
    /// A request is out and its reply is to come.
    Waiting,
    /// The proposals are on display and a pick is to come.
    Presenting,
    /// The user is asked what to change and the instruction is to come.
    Asking,
    /// The run is over.
    Finished,
}

/// What happened outside, for the run to go on from.
#[derive(Debug)]
pub enum Event {
    /// The run begins.
    Start,
    /// This came of the request that was sent.
    Reply(BackendReply),
    /// The option at this place was picked.
    Picked(usize),
    /// The user typed this instruction.
    Instruction(String),
}

/// An `Event` as plain values.
pub ghost enum EventView {
    Start,
    Reply(ReplyView),
    Picked(nat),
    Instruction(Seq<char>),
}

impl View for Event {
    type V = EventView;

    open spec fn view(&self) -> EventView {
        match self {
            Event::Start => EventView::Start,
            Event::Reply(reply) => EventView::Reply(reply@),
            Event::Picked(choice) => EventView::Picked(*choice as nat),
            Event::Instruction(text) => EventView::Instruction(text@),
        }
    }
}

/// What is to be done outside next.
#[derive(Debug)]
pub enum Action {
    /// Send this request to the backend and report what came of it.
    Send(CompletionRequest),
    /// Show these options under this question and report the pick.
    Present { message: String, options: Vec<String> },
    /// Ask this question, starting from the prefill if there is one, and report the answer.
    Ask { message: String, prefill: Option<String> },
    /// The run is over: print this.
    Done(String),
    /// The run is over: it failed.
    Failed(PromptError),
}

/// An `Action` as plain values.
pub ghost enum ActionView {
    Send(RequestView),
    Present { message: Seq<char>, options: Seq<Seq<char>> },
    Ask { message: Seq<char>, prefill: Option<Seq<char>> },
    Done(Seq<char>),
    Failed(PromptErrorView),
}

impl View for Action {
    type V = ActionView;

    open spec fn view(&self) -> ActionView {
        match self {
            Action::Send(request) => ActionView::Send(request@),
            Action::Present { message, options } => ActionView::Present {
                message: message@,
                options: views(options@),
            },
            Action::Ask { message, prefill } => ActionView::Ask {
                message: message@,
                prefill: match prefill {
                    Some(text) => Some(text@),
                    None => None,
                },
            },
            Action::Done(text) => ActionView::Done(text@),
            Action::Failed(error) => ActionView::Failed(error@),
        }
    }
}

/// One run from the staged changes to a commit message: proposals are generated and, where
/// the user is asked, presented; the user accepts one or says what to change, and new
/// proposals are generated from the whole conversation. Where nobody is asked, all
/// proposals of the first generation are the result. The run says what is to be done
/// outside and is told what happened.
pub struct Orchestrator {
    prompt: SingleRequestPrompt,
    results: Vec<String>,
    num_results: usize,
    interactive: bool,
    phase: Phase,
}

impl Orchestrator {
    /// Where the run stands.
    pub closed spec fn phase(&self) -> Phase {
        self.phase
    }

    /// The conversation with the backend.
    pub closed spec fn session(&self) -> SingleRequestPrompt {
        self.prompt
    }

    /// The proposals that are on display.
    pub closed spec fn results(&self) -> Seq<Seq<char>> {
        views(self.results@)
    }

    /// How many proposals are asked for in each generation.
    pub closed spec fn num_results(&self) -> nat {
        self.num_results as nat
    }

    /// Whether the user is asked.
    pub closed spec fn interactive(&self) -> bool {
        self.interactive
    }

    /// The conversation is in the state that the phase of the run stands for.
    pub open spec fn well_formed(&self) -> bool {
        match self.phase() {
            Phase::Fresh => self.session().turns().len() == 0,
            Phase::Waiting => self.session().awaits_answer(),
            Phase::Presenting => self.session().has_answer(),
            Phase::Asking => self.session().has_answer(),
            Phase::Finished => true,
        }
    }

    /// `event` is what the run waits for.
    pub open spec fn expects(&self, event: EventView) -> bool {
        match (self.phase(), event) {
            (Phase::Fresh, EventView::Start) => true,
            (Phase::Waiting, EventView::Reply(_)) => true,
            (Phase::Presenting, EventView::Picked(choice)) => choice <= self.results().len(),
            (Phase::Asking, EventView::Instruction(_)) => true,
            _ => false,
        }
    }

    /// The settings and the data of the conversation are the same in `self` and `other`.
    pub open spec fn same_setting(&self, other: &Self) -> bool {
        &&& self.num_results() == other.num_results()
        &&& self.interactive() == other.interactive()
        &&& self.session().same_data(&other.session())
    }

    /// A run about `data` that asks for `num_results` proposals in each generation.
    pub fn new(data: PromptData, num_results: usize, interactive: bool) -> (run: Orchestrator)
        ensures
            run.well_formed(),
            run.phase() == Phase::Fresh,
            run.num_results() == num_results,
            run.interactive() == interactive,
            run.results().len() == 0,
            run.session().turns().len() == 0,
            run.session().diffs() == crate::git::diff_views(data.diff@),
            run.session().previous_messages() == views(data.previous_commit_messages@),
            run.session().model() == data.model@,
            run.session().convention() == data.convention,
            run.session().refinement() == match data.refinement_prompt {
                Some(text) => Some(text@),
                None => None,
            },
    {
        Orchestrator {
            prompt: SingleRequestPrompt::from(data),
            results: Vec::new(),
            num_results,
            interactive,
            phase: Phase::Fresh,
        }
    }

    /// Where the run stands.
    pub fn current_phase(&self) -> (phase: Phase)
        ensures
            phase == self.phase(),
    {
        self.phase
    }

    /// Whether `event` is what the run waits for.
    pub fn is_expected(&self, event: &Event) -> (expected: bool)
        ensures
            expected == self.expects(event@),
    {
        match (self.phase, event) {
            (Phase::Fresh, Event::Start) => true,
            (Phase::Waiting, Event::Reply(_)) => true,
            (Phase::Presenting, Event::Picked(choice)) => *choice <= self.results.len(),
            (Phase::Asking, Event::Instruction(_)) => true,
            _ => false,
        }
    }

    /// Takes `event` and says what is to be done next.
    ///
    /// At the start the first generation is asked for; without staged patches the run
    /// fails with `NoStagedFiles` and nothing is sent. A reply that reads well brings the
    /// proposals: they are presented with an option to refine, or, where nobody is asked,
    /// they are the result, one to the line. A reply that does not read well, or none, ends
    /// the run with the error. The pick of a proposal ends the run with that proposal; the
    /// pick of the last option asks for an instruction, starting from the last one. An
    /// instruction asks for a generation that carries the whole conversation.
    pub fn step(&mut self, event: Event) -> (action: Action)
        requires
            old(self).well_formed(),
            old(self).expects(event@),
        ensures
            final(self).well_formed(),
            final(self).same_setting(old(self)),
            !(event@ is Instruction) ==> final(self).session().refinement() == old(
                self,
            ).session().refinement(),
            action matches Action::Present { options, .. } ==> options@.len() == old(
                self,
            ).num_results() + 1,
            match event@ {
                EventView::Start => if old(self).session().diffs().len() == 0 {
                    &&& action@ == ActionView::Failed(PromptErrorView::NoStagedFiles)
                    &&& final(self).phase() == Phase::Finished
                    &&& final(self).session().turns() == old(self).session().turns()
                } else {
                    &&& action@ == ActionView::Send(
                        final(self).session().request(old(self).num_results()),
                    )
                    &&& final(self).phase() == Phase::Waiting
                    &&& final(self).session().turns() == seq![old(self).session().opening()]
                },
                EventView::Reply(reply) => match reply_reading(
                    old(self).session().convention(),
                    reply,
                    old(self).num_results(),
                ) {
                    Ok(read) => {
                        &&& read.candidates.len() == old(self).num_results()
                        &&& final(self).session().turns() == old(self).session().turns().push(
                            read.assistant,
                        )
                        &&& if old(self).interactive() {
                            &&& action@ == (ActionView::Present {
                                message: CHOOSE_MESSAGE@,
                                options: options_of(read.candidates),
                            })
                            &&& final(self).phase() == Phase::Presenting
                            &&& final(self).results() == read.candidates
                        } else {
                            &&& action@ == ActionView::Done(join_with(read.candidates, "\n"@))
                            &&& final(self).phase() == Phase::Finished
                        }
                    },
                    Err(error) => {
                        &&& action@ == ActionView::Failed(error)
                        &&& final(self).phase() == Phase::Finished
                        &&& final(self).session().turns() == old(self).session().turns()
                    },
                },
                EventView::Picked(choice) => {
                    &&& final(self).session().turns() == old(self).session().turns()
                    &&& match decision_of(old(self).results(), choice as int) {
                        DecisionView::Accept(message) => {
                            &&& action@ == ActionView::Done(message)
                            &&& final(self).phase() == Phase::Finished
                        },
                        DecisionView::Refine => {
                            &&& action@ == (ActionView::Ask {
                                message: REFINE_MESSAGE@,
                                prefill: old(self).session().refinement(),
                            })
                            &&& final(self).phase() == Phase::Asking
                            &&& final(self).results() == old(self).results()
                        },
                    }
                },
                EventView::Instruction(text) => {
                    &&& final(self).session().turns() == old(self).session().turns().push(
                        user_turn(text),
                    )
                    &&& final(self).session().refinement() == Some(text)
                    &&& action@ == ActionView::Send(
                        final(self).session().request(old(self).num_results()),
                    )
                    &&& final(self).phase() == Phase::Waiting
                },
            },
    {
        match event {
            Event::Start => {
                match self.prompt.generate(self.num_results) {
                    Ok(request) => {
                        self.phase = Phase::Waiting;
                        Action::Send(request)
                    },
                    Err(error) => {
                        self.phase = Phase::Finished;
                        Action::Failed(error)
                    },
                }
            },
            Event::Reply(reply) => {
                match self.prompt.generate_results(&reply, self.num_results) {
                    Ok(results) => {
                        if self.interactive {
                            let options = options_for(&results);
                            self.results = results;
                            self.phase = Phase::Presenting;
                            Action::Present { message: CHOOSE_MESSAGE.to_owned(), options }
                        } else {
                            self.phase = Phase::Finished;
                            Action::Done(non_interactive_output(&results))
                        }
                    },
                    Err(error) => {
                        self.phase = Phase::Finished;
                        Action::Failed(error)
                    },
                }
            },
            Event::Picked(choice) => {
                match decide(&self.results, choice) {
                    Decision::Accept(message) => {
                        self.phase = Phase::Finished;
                        Action::Done(message)
                    },
                    Decision::Refine => {
                        self.phase = Phase::Asking;
                        Action::Ask {
                            message: REFINE_MESSAGE.to_owned(),
                            prefill: self.prompt.get_refinement_prompt(),
                        }
                    },
                }
            },
            Event::Instruction(text) => {
                let request = self.prompt.refine(text, self.num_results);
                self.phase = Phase::Waiting;
                Action::Send(request)
            },
        }
    }
}

} // verus!
