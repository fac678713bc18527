//! How a command goes through the responses that follow it.
//!
//! A command holds a state of its own. For each item that the stream of responses yields, the
//! function of the command is called with the state and the item. Its result says whether the
//! command is finished, and if not, what its state is now and which response is none of its
//! business.

use vstd::prelude::*;

use crate::error::{Error, IoError};
use crate::response::{Outcome, RequestId, Response, ResponseData, Status};

verus! {

/// What the stream of responses yields next: a response, a failure to read one, or, as `None`,
/// that there will be no more.
pub type Item = Option<Result<ResponseData, std::io::Error>>;

/// Where a command stands after an item.
#[derive(Debug)]
pub enum Progress<S, T> {
    /// More items are needed.
    More {
        state: S,
        /// A response that is to be handled as an unsolicited one.
        unilateral: Option<ResponseData>,
    },
    /// No more items are needed.
    Finished(Result<T, Error>),
}

/// What a command does on a response.
pub enum Reaction<M> {
    /// The response is used up, and this is the new state.
    Keep(M),
    /// The response is handled as an unsolicited one.
    PassOn,
    /// The command fails: it was answered with this status in place of `OK`.
    Refuse(Status, Outcome),
    /// The command is complete.
    Complete,
}

/// The response reports the completion of the command with this tag.
pub open spec fn completes(response: Response, command_tag: RequestId) -> bool {
    response matches Response::Done { tag, .. } && tag.0@ == command_tag.0@
}

/// None of the responses reports the completion of the command with this tag.
pub open spec fn none_completes(responses: Seq<ResponseData>, command_tag: RequestId) -> bool {
    forall|i: int|
        0 <= i < responses.len() ==> !((#[trigger] responses[i]).response matches Response::Done {
            tag,
            ..
        } && tag.0@ == command_tag.0@)
}

/// Where none completes, neither the last nor one before it does.
pub(crate) proof fn lemma_none_completes(responses: Seq<ResponseData>, command_tag: RequestId)
    requires
        responses.len() > 0,
        none_completes(responses, command_tag),
    ensures
        none_completes(responses.drop_last(), command_tag),
        !completes(responses.last().response, command_tag),
{
    assert forall|i: int| 0 <= i < responses.len() - 1 implies !completes(
        (#[trigger] responses.drop_last()[i]).response,
        command_tag,
    ) by {
        assert(responses.drop_last()[i] == responses[i]);
    }
    assert(responses.last() == responses[responses.len() - 1]);
}

/// `progress` is where a command with the given state stands after an item.
///
/// A response is reacted to in the given way. A command that is complete, or whose stream has
/// ended, finishes with the given result; a failure to read is the failure of the command.
pub open spec fn advances<S: View, T>(
    progress: Progress<S, T>,
    state: S,
    item: Item,
    reaction: spec_fn(Response) -> Reaction<S::V>,
    result: Result<T, Error>,
) -> bool {
    match item {
        None => progress == Progress::<S, T>::Finished(result),
        Some(Err(error)) => progress == Progress::<S, T>::Finished(
            Err(Error::Io(IoError::Stream(error))),
        ),
        Some(Ok(res)) => match reaction(res.response) {
            Reaction::Keep(model) => {
                &&& progress matches Progress::More { state, unilateral }
                &&& state@ == model
                &&& unilateral is None
            },
            Reaction::PassOn => progress == Progress::<S, T>::More { state, unilateral: Some(res) },
            Reaction::Refuse(status, outcome) => {
                &&& progress matches Progress::Finished(Err(error))
                &&& crate::refusal::is_refusal(error, status, outcome)
            },
            Reaction::Complete => progress == Progress::<S, T>::Finished(result),
        },
    }
}

/// Where a command stands after a number of responses.
#[verifier::ext_equal]
pub enum Run<M> {
    /// The command needs more responses.
    Open { state: M, passed_on: Seq<ResponseData> },
    /// The command is complete.
    Complete { state: M, passed_on: Seq<ResponseData> },
    /// The command was refused.
    Refused { status: Status, outcome: Outcome, passed_on: Seq<ResponseData> },
}

impl<M> Run<M> {
    /// The responses that were handled as unsolicited ones, in the order in which they came.
    pub open spec fn passed_on(self) -> Seq<ResponseData> {
        match self {
            Run::Open { passed_on, .. } => passed_on,
            Run::Complete { passed_on, .. } => passed_on,
            Run::Refused { passed_on, .. } => passed_on,
        }
    }

    /// The two stand alike, whatever they have passed on: both open or complete in the same state,
    /// or both refused with the same status and outcome.
    pub open spec fn same_outcome(self, other: Self) -> bool {
        match (self, other) {
            (Run::Open { state: a, .. }, Run::Open { state: b, .. }) => a == b,
            (Run::Complete { state: a, .. }, Run::Complete { state: b, .. }) => a == b,
            (
                Run::Refused { status: s, outcome: o, .. },
                Run::Refused { status: t, outcome: p, .. },
            ) => s == t && o == p,
            _ => false,
        }
    }
}

/// Where a command stands after the responses, if it reacts to each in the given way.
pub open spec fn run<M>(
    reaction: spec_fn(M, Response) -> Reaction<M>,
    start: M,
    responses: Seq<ResponseData>,
) -> Run<M>
    decreases responses.len(),
{
    if responses.len() == 0 {
        Run::Open { state: start, passed_on: Seq::empty() }
    } else {
        match run(reaction, start, responses.drop_last()) {
            Run::Open { state, passed_on } => match reaction(state, responses.last().response) {
                Reaction::Keep(state) => Run::Open { state, passed_on },
                Reaction::PassOn => Run::Open {
                    state,
                    passed_on: passed_on.push(responses.last()),
                },
                Reaction::Refuse(status, outcome) => Run::Refused { status, outcome, passed_on },
                Reaction::Complete => Run::Complete { state, passed_on },
            },
            ended => ended,
        }
    }
}

/// The responses that the steps of a command have handed out, where they did.
pub open spec fn handed_out(unilateral: Seq<Option<ResponseData>>) -> Seq<ResponseData>
    decreases unilateral.len(),
{
    if unilateral.len() == 0 {
        Seq::empty()
    } else {
        match unilateral.last() {
            None => handed_out(unilateral.drop_last()),
            Some(res) => handed_out(unilateral.drop_last()).push(res),
        }
    }
}

/// Calling the function of a command for one response after the other, each time with the state
/// that the call before gave, is a run of the command.
pub proof fn law_steps_make_a_run<S: View, T>(
    reaction: spec_fn(S::V, Response) -> Reaction<S::V>,
    result: spec_fn(S) -> Result<T, Error>,
    states: Seq<S>,
    unilateral: Seq<Option<ResponseData>>,
    responses: Seq<ResponseData>,
)
    requires
        states.len() == responses.len() + 1,
        unilateral.len() == responses.len(),
        forall|i: int|
            0 <= i < responses.len() ==> advances(
                Progress::<S, T>::More { state: states[i + 1], unilateral: unilateral[i] },
                #[trigger] states[i],
                Some(Ok(responses[i])),
                |response: Response| reaction(states[i]@, response),
                result(states[i]),
            ),
    ensures
        run(reaction, states[0]@, responses) == (Run::Open {
            state: states.last()@,
            passed_on: handed_out(unilateral),
        }),
    decreases responses.len(),
{
    if responses.len() > 0 {
        let n = responses.len() - 1;
        assert forall|i: int| 0 <= i < n implies advances(
            Progress::<S, T>::More {
                state: states.drop_last()[i + 1],
                unilateral: unilateral.drop_last()[i],
            },
            #[trigger] states.drop_last()[i],
            Some(Ok(responses.drop_last()[i])),
            |response: Response| reaction(states.drop_last()[i]@, response),
            result(states.drop_last()[i]),
        ) by {
            assert(states.drop_last()[i] == states[i]);
        }
        law_steps_make_a_run(
            reaction,
            result,
            states.drop_last(),
            unilateral.drop_last(),
            responses.drop_last(),
        );
        assert(states[n] == states.drop_last().last());
        assert(states[n + 1] == states.last());
    }
}

/// What comes after the end of a command makes no difference to it.
pub proof fn law_nothing_after_the_end<M>(
    reaction: spec_fn(M, Response) -> Reaction<M>,
    start: M,
    responses: Seq<ResponseData>,
    more: Seq<ResponseData>,
)
    requires
        !(run(reaction, start, responses) is Open),
    ensures
        run(reaction, start, responses + more) == run(reaction, start, responses),
    decreases more.len(),
{
    if more.len() == 0 {
        assert(responses + more == responses);
    } else {
        law_nothing_after_the_end(reaction, start, responses, more.drop_last());
        assert((responses + more).drop_last() == responses + more.drop_last());
    }
}

/// A command that is still open goes on from its state: what it passed on stays passed on, and
/// the rest is as if it had started there.
pub proof fn law_resumes<M>(
    reaction: spec_fn(M, Response) -> Reaction<M>,
    start: M,
    responses: Seq<ResponseData>,
    more: Seq<ResponseData>,
)
    requires
        run(reaction, start, responses) is Open,
    ensures
        ({
            let first = run(reaction, start, responses);
            let rest = run(reaction, first->Open_state, more);
            let whole = run(reaction, start, responses + more);
            &&& whole.passed_on() == first.passed_on() + rest.passed_on()
            &&& rest is Open ==> whole is Open && whole->Open_state == rest->Open_state
            &&& rest is Complete ==> whole is Complete && whole->Complete_state
                == rest->Complete_state
            &&& rest is Refused ==> whole is Refused && whole->status == rest->status
                && whole->outcome == rest->outcome
        }),
    decreases more.len(),
{
    if more.len() == 0 {
        assert(responses + more == responses);
    } else {
        law_resumes(reaction, start, responses, more.drop_last());
        assert((responses + more).drop_last() == responses + more.drop_last());
        assert((responses + more).last() == more.last());
    }
}

/// A command passes on, in their order, the responses that are not its own, whatever its state,
/// as long as which those are does not depend on the state.
pub proof fn law_passes_on_the_rest<M>(
    reaction: spec_fn(M, Response) -> Reaction<M>,
    foreign: spec_fn(ResponseData) -> bool,
    start: M,
    responses: Seq<ResponseData>,
)
    requires
        forall|m: M, res: ResponseData| #[trigger]
            reaction(m, res.response) is PassOn <==> foreign(res),
        run(reaction, start, responses) is Open,
    ensures
        run(reaction, start, responses).passed_on() == responses.filter(foreign),
    decreases responses.len(),
{
    reveal(Seq::filter);
    if responses.len() > 0 {
        law_passes_on_the_rest(reaction, foreign, start, responses.drop_last());
        let before = run(reaction, start, responses.drop_last())->Open_state;
        assert(reaction(before, responses.last().response) is PassOn <==> foreign(
            responses.last(),
        ));
    }
}

/// A command makes no use of the response: it passes it on, or its state stays as it was.
pub open spec fn is_idle<M>(
    reaction: spec_fn(M, Response) -> Reaction<M>,
    state: M,
    response: Response,
) -> bool {
    reaction(state, response) is PassOn || reaction(state, response) == Reaction::Keep(state)
}

/// A command with responses of which it makes no use stays where it was and hands out those that
/// it passes on.
proof fn lemma_idle_run<M>(
    reaction: spec_fn(M, Response) -> Reaction<M>,
    state: M,
    responses: Seq<ResponseData>,
)
    requires
        forall|i: int|
            0 <= i < responses.len() ==> is_idle(
                reaction,
                state,
                (#[trigger] responses[i]).response,
            ),
    ensures
        run(reaction, state, responses) == (Run::Open {
            state,
            passed_on: responses.filter(
                |res: ResponseData| reaction(state, res.response) is PassOn,
            ),
        }),
    decreases responses.len(),
{
    reveal(Seq::filter);
    if responses.len() > 0 {
        assert forall|i: int| 0 <= i < responses.len() - 1 implies is_idle(
            reaction,
            state,
            (#[trigger] responses.drop_last()[i]).response,
        ) by {
            assert(responses.drop_last()[i] == responses[i]);
        }
        lemma_idle_run(reaction, state, responses.drop_last());
        assert(responses.last() == responses[responses.len() - 1]);
    }
}

/// Responses of which a command makes no use where they come leave its outcome as it would be
/// without them. Those of them that it passes on are handed out in their place.
pub proof fn law_idle_responses_change_nothing<M>(
    reaction: spec_fn(M, Response) -> Reaction<M>,
    start: M,
    before: Seq<ResponseData>,
    inserted: Seq<ResponseData>,
    after: Seq<ResponseData>,
)
    requires
        run(reaction, start, before) matches Run::Open { state, .. } ==> forall|i: int|
            0 <= i < inserted.len() ==> is_idle(
                reaction,
                state,
                (#[trigger] inserted[i]).response,
            ),
    ensures
        run(reaction, start, before + inserted + after).same_outcome(
            run(reaction, start, before + after),
        ),
        run(reaction, start, before) matches Run::Open { state, passed_on } ==> {
            let rest = run(reaction, state, after).passed_on();
            &&& run(reaction, start, before + after).passed_on() == passed_on + rest
            &&& run(reaction, start, before + inserted + after).passed_on() == passed_on
                + inserted.filter(|res: ResponseData| reaction(state, res.response) is PassOn)
                + rest
        },
{
    match run(reaction, start, before) {
        Run::Open { state, .. } => {
            lemma_idle_run(reaction, state, inserted);
            law_resumes(reaction, start, before, inserted);
            law_resumes(reaction, start, before + inserted, after);
            law_resumes(reaction, start, before, after);
        },
        _ => {
            law_nothing_after_the_end(reaction, start, before, inserted + after);
            assert(before + inserted + after == before + (inserted + after));
            law_nothing_after_the_end(reaction, start, before, after);
        },
    }
}

/// Whether the two tags are the same.
pub(crate) fn same_tag(tag: &RequestId, command_tag: &RequestId) -> (same: bool)
    ensures
        same == (tag.0@ == command_tag.0@),
{
    tag.0 == command_tag.0
}

/// Whether an item of the stream still belongs to the command with this tag: all do up to the
/// completion of the command, failures to read included.
pub fn filter_sync(
    res: &Result<ResponseData, std::io::Error>,
    command_tag: &RequestId,
) -> (keep: bool)
    ensures
        keep == !(res matches Ok(res) && completes(res.response, *command_tag)),
{
    match res {
        Ok(res) => match res.parsed() {
            Response::Done { tag, .. } => !same_tag(tag, command_tag),
            _ => true,
        },
        // Errors such as an unexpected end of the connection are not filtered out.
        Err(_) => true,
    }
}

/// Nothing but a completion with the same tag, to the letter, completes a command, and every such
/// completion does, whatever its status is.
pub proof fn law_only_the_own_completion_completes(response: Response, command_tag: RequestId)
    ensures
        completes(response, command_tag) <==> response is Done && response->Done_tag.0@
            == command_tag.0@,
{
}

} // verus!
