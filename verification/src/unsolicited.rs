//! Responses that no running command asked for.

use vstd::prelude::*;

use crate::channel::{Offer, Outbox};
use crate::response::{MailboxDatum, Response, ResponseData, StatusAttribute};

verus! {

/// A response that the server sent on its own account.
#[derive(Debug, PartialEq, Eq)]
pub enum UnsolicitedResponse {
    /// The state of a mailbox.
    Status { mailbox: String, attributes: Vec<StatusAttribute> },
    /// The number of messages with the `\Recent` flag.
    Recent(u32),
    /// The number of messages in the mailbox.
    Exists(u32),
    /// The message with this sequence number is gone.
    Expunge(u32),
    /// Any other response, as it came.
    Other(ResponseData),
}

/// What is reported of a response that no command asked for.
pub open spec fn report_of(res: ResponseData) -> UnsolicitedResponse {
    match res.response {
        Response::MailboxData(MailboxDatum::Status { mailbox, status }) => {
            UnsolicitedResponse::Status { mailbox, attributes: status }
        },
        Response::MailboxData(MailboxDatum::Recent(n)) => UnsolicitedResponse::Recent(n),
        Response::MailboxData(MailboxDatum::Exists(n)) => UnsolicitedResponse::Exists(n),
        Response::Expunge(n) => UnsolicitedResponse::Expunge(n),
        _ => UnsolicitedResponse::Other(res),
    }
}

/// Turns a response that no command asked for into the report of it.
pub fn report(res: ResponseData) -> (message: UnsolicitedResponse)
    ensures
        message == report_of(res),
{
    match res.response {
        Response::MailboxData(MailboxDatum::Status { mailbox, status }) => {
            UnsolicitedResponse::Status { mailbox, attributes: status }
        },
        Response::MailboxData(MailboxDatum::Recent(n)) => UnsolicitedResponse::Recent(n),
        Response::MailboxData(MailboxDatum::Exists(n)) => UnsolicitedResponse::Exists(n),
        Response::Expunge(n) => UnsolicitedResponse::Expunge(n),
        response => UnsolicitedResponse::Other(ResponseData { raw: res.raw, response }),
    }
}

/// Sends a unilateral server response into the channel: the report of it, once, and nothing else.
///
/// If the channel is full or closed, that is, if the responses are not being consumed, the report
/// is not sent. It is then the result, which callers are free to drop.
pub fn handle_unilateral(
    res: ResponseData,
    unsolicited: &mut Outbox<UnsolicitedResponse>,
) -> (refused: Option<UnsolicitedResponse>)
    ensures
        final(unsolicited).sender() == old(unsolicited).sender(),
        final(unsolicited).log() == old(unsolicited).log().push(
            (Offer { message: report_of(res), taken: refused is None }),
        ),
        refused matches Some(message) ==> message == report_of(res),
{
    unsolicited.try_send(report(res))
}

/// Handling one response after the other through the same outbox offers their reports in the order
/// of the responses, each once, whichever of them the channel takes.
pub proof fn law_reports_keep_the_order(
    outboxes: Seq<Outbox<UnsolicitedResponse>>,
    responses: Seq<ResponseData>,
    refused: Seq<Option<UnsolicitedResponse>>,
)
    requires
        outboxes.len() == responses.len() + 1,
        refused.len() == responses.len(),
        forall|i: int|
            0 <= i < responses.len() ==> outboxes[i + 1].log() == (
            #[trigger] outboxes[i]).log().push(
                (Offer { message: report_of(responses[i]), taken: refused[i] is None }),
            ),
    ensures
        outboxes.last().log() == outboxes[0].log() + Seq::new(
            responses.len(),
            |i: int| Offer { message: report_of(responses[i]), taken: refused[i] is None },
        ),
    decreases responses.len(),
{
    if responses.len() > 0 {
        let n = responses.len() - 1;
        assert forall|i: int| 0 <= i < n implies outboxes.drop_last()[i + 1].log() == (
        #[trigger] outboxes.drop_last()[i]).log().push(
            (Offer {
                message: report_of(responses.drop_last()[i]),
                taken: refused.drop_last()[i] is None,
            }),
        ) by {
            assert(outboxes.drop_last()[i] == outboxes[i]);
        }
        law_reports_keep_the_order(
            outboxes.drop_last(),
            responses.drop_last(),
            refused.drop_last(),
        );
        assert(outboxes[n] == outboxes.drop_last().last());
        assert(outboxes[n + 1] == outboxes.last());
    }
}

/// A report has the kind of the response that it is made of, and says what that says: a report of
/// the number of messages, of recent ones, of a message that is gone or of the state of a mailbox
/// comes from such a response and from no other. Any other response is reported as it came.
pub proof fn law_reports_are_true(res: ResponseData)
    ensures
        report_of(res) is Expunge <==> res.response is Expunge,
        report_of(res) is Exists <==> (res.response matches Response::MailboxData(datum)
            && datum is Exists),
        report_of(res) is Recent <==> (res.response matches Response::MailboxData(datum)
            && datum is Recent),
        report_of(res) is Status <==> (res.response matches Response::MailboxData(datum)
            && datum is Status),
        match report_of(res) {
            UnsolicitedResponse::Expunge(n) => res.response == Response::Expunge(n),
            UnsolicitedResponse::Exists(n) => res.response == Response::MailboxData(
                MailboxDatum::Exists(n),
            ),
            UnsolicitedResponse::Recent(n) => res.response == Response::MailboxData(
                MailboxDatum::Recent(n),
            ),
            UnsolicitedResponse::Status { mailbox, attributes } => res.response
                == Response::MailboxData(MailboxDatum::Status { mailbox, status: attributes }),
            UnsolicitedResponse::Other(reported) => reported == res,
        },
{
}

} // verus!
