//! What the capabilities of a server are told apart by.

use vstd::prelude::*;

use crate::capabilities::{Capabilities, CapabilityModel};
use crate::command::{Item, Progress};
use crate::error::{Error, IoError};
use crate::response::{Capability, RequestId, Response, ResponseData};

verus! {

/// Two capabilities are the same if they are of the same kind and have the same name, to the
/// letter, where they have one.
pub proof fn law_capabilities_differ_by_kind_and_name(a: Capability, b: Capability)
    ensures
        a@ == b@ <==> match (a, b) {
            (Capability::Imap4rev1, Capability::Imap4rev1) => true,
            (Capability::Auth(x), Capability::Auth(y)) => x@ == y@,
            (Capability::Atom(x), Capability::Atom(y)) => x@ == y@,
            _ => false,
        },
        match a {
            Capability::Imap4rev1 => a@ is Imap4rev1,
            Capability::Auth(name) => a@ == CapabilityModel::Auth(name@),
            Capability::Atom(name) => a@ == CapabilityModel::Atom(name@),
        },
{
}

/// A name stands for `IMAP4rev1` if it reads so in any case of letters, for an authentication
/// mechanism if it begins with `AUTH=` in any case of letters and goes on, the mechanism being the
/// rest as it stands, and for itself as it stands otherwise.
pub proof fn law_names_of_capabilities(name: Seq<char>)
    ensures
        ({
            let imap4rev1 = crate::text_laws::reads_as(
                name,
                seq!['i', 'm', 'a', 'p', '4', 'r', 'e', 'v', '1'],
            );
            let auth = name.len() > 5 && crate::text_laws::reads_as(
                name.take(5),
                seq!['a', 'u', 't', 'h', '='],
            );
            let capability = crate::capabilities::capability_named(name);
            &&& imap4rev1 ==> capability is Imap4rev1
            &&& auth ==> capability == CapabilityModel::Auth(name.skip(5))
            &&& !imap4rev1 && !auth ==> capability == CapabilityModel::Atom(name)
        }),
{
    crate::text_laws::lemma_imap4rev1(name);
    if name.len() > 5 {
        assert(name.take(5) =~= name.subrange(0, 5));
        assert(name.skip(5) =~= name.subrange(5, name.len() as int));
        crate::text_laws::lemma_auth(name.take(5));
        if crate::text_laws::reads_as(name.take(5), seq!['a', 'u', 't', 'h', '=']) {
            // The first letters of the two names differ.
            assert(name.take(5)[0] == name[0]);
        }
    }
}

/// A list of capabilities adds every one of its members and nothing else. Any other response but
/// the completion of the command is handed out as it came and changes nothing. The set is the
/// result when the command is complete or the stream ends.
pub proof fn law_every_listed_capability_counts(
    progress: Progress<Capabilities, Capabilities>,
    capabilities: Capabilities,
    item: Item,
    command_tag: RequestId,
)
    requires
        crate::command::advances(
            progress,
            capabilities,
            item,
            |response: Response|
                crate::capabilities::capability_reaction(capabilities@, response, command_tag),
            Ok(capabilities),
        ),
    ensures
        item is None ==> progress == Progress::<Capabilities, Capabilities>::Finished(
            Ok(capabilities),
        ),
        item matches Some(Err(error)) ==> progress == Progress::<
            Capabilities,
            Capabilities,
        >::Finished(Err(Error::Io(IoError::Stream(error)))),
        item matches Some(Ok(res)) ==> match res.response {
            Response::Capabilities(list) => {
                &&& progress matches Progress::More { state, unilateral: None }
                &&& forall|k: int| 0 <= k < list@.len() ==> state@.contains((#[trigger] list@[k])@)
                &&& forall|x: CapabilityModel| capabilities@.contains(x) ==> state@.contains(x)
                &&& forall|x: CapabilityModel| #[trigger]
                    state@.contains(x) ==> capabilities@.contains(x) || exists|k: int|
                        0 <= k < list@.len() && (#[trigger] list@[k])@ == x
            },
            Response::Done { tag, .. } if tag.0@ == command_tag.0@ => progress == Progress::<
                Capabilities,
                Capabilities,
            >::Finished(Ok(capabilities)),
            _ => progress == (Progress::<Capabilities, Capabilities>::More {
                state: capabilities,
                unilateral: Some(res),
            }),
        },
{
    if let Some(Ok(res)) = item {
        if let Response::Capabilities(list) = res.response {
            lemma_listed(list@);
        }
    }
}

/// The capabilities that a list holds are those that stand somewhere in it.
proof fn lemma_listed(list: Seq<Capability>)
    ensures
        forall|x: CapabilityModel| #[trigger]
            crate::capabilities::capability_set(list).contains(x) <==> exists|k: int|
                0 <= k < list.len() && (#[trigger] list[k])@ == x,
{
    let models = list.map_values(|capability: Capability| capability@);
    assert forall|x: CapabilityModel| #[trigger]
        crate::capabilities::capability_set(list).contains(x) <==> exists|k: int|
            0 <= k < list.len() && (#[trigger] list[k])@ == x by {
        if models.contains(x) {
            let k = models.index_of(x);
            assert(list[k]@ == x);
        }
        if exists|k: int| 0 <= k < list.len() && (#[trigger] list[k])@ == x {
            let k = choose|k: int| 0 <= k < list.len() && (#[trigger] list[k])@ == x;
            assert(models[k] == x);
        }
    }
}

/// Until `CAPABILITY` is complete, a capability is among those collected exactly if it stands in
/// the list of one of the responses.
pub proof fn law_collected_capabilities_were_listed(
    responses: Seq<ResponseData>,
    command_tag: RequestId,
    x: CapabilityModel,
)
    requires
        crate::command::none_completes(responses, command_tag),
    ensures
        ({
            let run = crate::command::run(
                |m: Set<CapabilityModel>, response: Response|
                    crate::capabilities::capability_reaction(m, response, command_tag),
                Set::empty(),
                responses,
            );
            &&& run is Open
            &&& run->Open_state.contains(x) <==> exists|i: int, k: int|
                0 <= i < responses.len() && (#[trigger] responses[i]).response is Capabilities && 0
                    <= k < responses[i].response->Capabilities_0@.len() && (
                #[trigger] responses[i].response->Capabilities_0@[k])@ == x
        }),
{
    crate::capabilities::law_capabilities_are_the_announced_ones(responses, command_tag);
    assert forall|i: int| 0 <= i < responses.len() implies (
    #[trigger] crate::capabilities::announces(responses[i], x)) == (responses[i].response
        is Capabilities && exists|k: int|
        0 <= k < responses[i].response->Capabilities_0@.len() && (
        #[trigger] responses[i].response->Capabilities_0@[k])@ == x) by {
        if let Response::Capabilities(list) = responses[i].response {
            lemma_listed(list@);
        }
    }
    if exists|i: int|
        0 <= i < responses.len() && crate::capabilities::announces(#[trigger] responses[i], x) {
        let i = choose|i: int|
            0 <= i < responses.len() && crate::capabilities::announces(#[trigger] responses[i], x);
        let k = choose|k: int|
            0 <= k < responses[i].response->Capabilities_0@.len() && (
            #[trigger] responses[i].response->Capabilities_0@[k])@ == x;
        assert(responses[i].response->Capabilities_0@[k]@ == x);
    }
    if exists|i: int, k: int|
        0 <= i < responses.len() && (#[trigger] responses[i]).response is Capabilities && 0 <= k
            < responses[i].response->Capabilities_0@.len() && (
        #[trigger] responses[i].response->Capabilities_0@[k])@ == x {
        let (i, k) = choose|i: int, k: int|
            0 <= i < responses.len() && (#[trigger] responses[i]).response is Capabilities && 0
                <= k < responses[i].response->Capabilities_0@.len() && (
            #[trigger] responses[i].response->Capabilities_0@[k])@ == x;
        assert(crate::capabilities::announces(responses[i], x));
    }
}

} // verus!
