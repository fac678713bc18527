//! Commands that collect nothing.

use vstd::prelude::*;

use crate::command::{filter_sync, Item, Progress, Reaction};
use crate::error::{Error, IoError};
use crate::response::{RequestId, Response, ResponseData};

verus! {

/// What `NOOP` does on a response: none is its own but its completion.
pub open spec fn noop_reaction(response: Response, command_tag: RequestId) -> Reaction<()> {
    if crate::command::completes(response, command_tag) {
        Reaction::Complete
    } else {
        Reaction::PassOn
    }
}

/// Goes through the responses to a command that has no data of its own.
pub fn parse_noop(item: Item, command_tag: &RequestId) -> (progress: Progress<(), ()>)
    ensures
        crate::command::advances(
            progress,
            (),
            item,
            |response: Response| noop_reaction(response, *command_tag),
            Ok(()),
        ),
{
    match item {
        Some(res) if filter_sync(&res, command_tag) => match res {
            Ok(res) => Progress::More { state: (), unilateral: Some(res) },
            Err(error) => Progress::Finished(Err(Error::Io(IoError::Stream(error)))),
        },
        _ => Progress::Finished(Ok(())),
    }
}

/// Until it is complete, `NOOP` passes on every response.
pub proof fn law_noop_passes_on_everything(responses: Seq<ResponseData>, command_tag: RequestId)
    requires
        crate::command::none_completes(responses, command_tag),
    ensures
        crate::command::run(
            |m: (), response: Response| noop_reaction(response, command_tag),
            (),
            responses,
        ) == (crate::command::Run::Open { state: (), passed_on: responses }),
    decreases responses.len(),
{
    if responses.len() > 0 {
        let init = responses.drop_last();
        crate::command::lemma_none_completes(responses, command_tag);
        law_noop_passes_on_everything(init, command_tag);
        assert(init.push(responses.last()) == responses);
    }
}

/// Whatever the response is, `NOOP` hands it out as it came and goes on, unless it is the
/// completion of the command itself. That, and the end of the stream, end it well; a failure to
/// read ends it with the error.
pub proof fn law_noop_uses_nothing_up(
    progress: Progress<(), ()>,
    item: Item,
    command_tag: RequestId,
)
    requires
        crate::command::advances(
            progress,
            (),
            item,
            |response: Response| noop_reaction(response, command_tag),
            Ok(()),
        ),
    ensures
        item is None ==> progress == Progress::<(), ()>::Finished(Ok(())),
        item matches Some(Err(error)) ==> progress == Progress::<(), ()>::Finished(
            Err(Error::Io(IoError::Stream(error))),
        ),
        item matches Some(Ok(res)) ==> {
            let own = res.response matches Response::Done { tag, .. } && tag.0@ == command_tag.0@;
            &&& own ==> progress == Progress::<(), ()>::Finished(Ok(()))
            &&& !own ==> progress == Progress::<(), ()>::More { state: (), unilateral: Some(res) }
        },
{
}

} // verus!
