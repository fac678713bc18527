//! The metadata of a mailbox.

use vstd::prelude::*;

use crate::command::{filter_sync, Item, Progress, Reaction};
use crate::error::{Error, IoError};
use crate::response::{MailboxDatum, Metadata, RequestId, Response, ResponseData};

verus! {

/// What `GETMETADATA` for a mailbox does on a response.
pub open spec fn metadata_reaction(
    values: Seq<Metadata>,
    response: Response,
    mailbox_name: Seq<char>,
    command_tag: RequestId,
) -> Reaction<Seq<Metadata>> {
    match response {
        Response::Done { tag, .. } if tag.0@ == command_tag.0@ => Reaction::Complete,
        Response::MailboxData(MailboxDatum::MetadataSolicited { mailbox, values: new })
            if mailbox@ == mailbox_name => Reaction::Keep(values + new@),
        _ => Reaction::PassOn,
    }
}

/// Collects the entries from the responses to
/// [GETMETADATA](https://www.rfc-editor.org/info/rfc5464).
///
/// Only responses with values count. Those without are unsolicited.
pub fn parse_metadata(
    values: Vec<Metadata>,
    item: Item,
    mailbox_name: &str,
    command_tag: &RequestId,
) -> (progress: Progress<Vec<Metadata>, Vec<Metadata>>)
    ensures
        crate::command::advances(
            progress,
            values,
            item,
            |response: Response|
                metadata_reaction(values@, response, mailbox_name@, *command_tag),
            Ok(values),
        ),
{
    let res = match item {
        Some(res) if filter_sync(&res, command_tag) => match res {
            Ok(res) => res,
            Err(error) => return Progress::Finished(Err(Error::Io(IoError::Stream(error)))),
        },
        _ => return Progress::Finished(Ok(values)),
    };
    let ResponseData { raw, response } = res;
    match response {
        Response::MailboxData(MailboxDatum::MetadataSolicited { mailbox, values: new })
            if *mailbox.as_str() == *mailbox_name => {
            let mut values = values;
            let mut new = new;
            values.append(&mut new);
            Progress::More { state: values, unilateral: None }
        },
        response => Progress::More {
            state: values,
            unilateral: Some(ResponseData { raw, response }),
        },
    }
}

/// The entries that a response gives for a mailbox.
pub open spec fn entries_for(res: ResponseData, mailbox_name: Seq<char>) -> Seq<Metadata> {
    match res.response {
        Response::MailboxData(MailboxDatum::MetadataSolicited { mailbox, values })
            if mailbox@ == mailbox_name => values@,
        _ => Seq::empty(),
    }
}

/// The response gives entries for a mailbox.
pub open spec fn is_metadata_for(res: ResponseData, mailbox_name: Seq<char>) -> bool {
    res.response matches Response::MailboxData(MailboxDatum::MetadataSolicited { mailbox, .. })
        && mailbox@ == mailbox_name
}

/// Until it is complete, `GETMETADATA` has collected the entries that were given for the mailbox,
/// in the order in which they came, and has passed on every other response.
pub proof fn law_metadata_is_what_was_given(
    responses: Seq<ResponseData>,
    mailbox_name: Seq<char>,
    command_tag: RequestId,
)
    requires
        crate::command::none_completes(responses, command_tag),
    ensures
        crate::command::run(
            |m: Seq<Metadata>, response: Response|
                metadata_reaction(m, response, mailbox_name, command_tag),
            Seq::empty(),
            responses,
        ) == (crate::command::Run::Open {
            state: responses.map_values(
                |res: ResponseData| entries_for(res, mailbox_name),
            ).flatten(),
            passed_on: responses.filter(|res: ResponseData| !is_metadata_for(res, mailbox_name)),
        }),
    decreases responses.len(),
{
    reveal(Seq::filter);
    let entries = |res: ResponseData| entries_for(res, mailbox_name);
    if responses.len() > 0 {
        let init = responses.drop_last();
        crate::command::lemma_none_completes(responses, command_tag);
        law_metadata_is_what_was_given(init, mailbox_name, command_tag);
        assert(responses.map_values(entries) =~= init.map_values(entries).push(
            entries(responses.last()),
        ));
        init.map_values(entries).lemma_flatten_push(entries(responses.last()));
    } else {
        assert(responses.map_values(entries).flatten() =~= Seq::<Metadata>::empty());
    }
}

/// A response with values for the mailbox in question makes the list longer by exactly those
/// values, in their order. Any other response but the completion of the command is handed out as it
/// came, also one with values for another mailbox or without values, and changes nothing. The list
/// is the result when the command is complete or the stream ends.
pub proof fn law_only_values_for_the_mailbox_count(
    progress: Progress<Vec<Metadata>, Vec<Metadata>>,
    values: Vec<Metadata>,
    item: Item,
    mailbox_name: Seq<char>,
    command_tag: RequestId,
)
    requires
        crate::command::advances(
            progress,
            values,
            item,
            |response: Response| metadata_reaction(values@, response, mailbox_name, command_tag),
            Ok(values),
        ),
    ensures
        item is None ==> progress == Progress::<Vec<Metadata>, Vec<Metadata>>::Finished(
            Ok(values),
        ),
        item matches Some(Err(error)) ==> progress == Progress::<
            Vec<Metadata>,
            Vec<Metadata>,
        >::Finished(Err(Error::Io(IoError::Stream(error)))),
        item matches Some(Ok(res)) ==> {
            let own = res.response matches Response::Done { tag, .. } && tag.0@ == command_tag.0@;
            let given = res.response matches Response::MailboxData(
                MailboxDatum::MetadataSolicited { mailbox, .. },
            ) && mailbox@ == mailbox_name;
            &&& own ==> progress == Progress::<Vec<Metadata>, Vec<Metadata>>::Finished(Ok(values))
            &&& given ==> {
                let new = res.response->MailboxData_0->MetadataSolicited_values@;
                &&& progress matches Progress::More { state, unilateral: None }
                &&& state@.len() == values@.len() + new.len()
                &&& forall|k: int| 0 <= k < values@.len() ==> #[trigger] state@[k] == values@[k]
                &&& forall|k: int|
                    0 <= k < new.len() ==> state@[values@.len() + k] == #[trigger] new[k]
            }
            &&& !own && !given ==> progress == (Progress::<Vec<Metadata>, Vec<Metadata>>::More {
                state: values,
                unilateral: Some(res),
            })
        },
{
}

} // verus!
