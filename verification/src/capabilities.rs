//! The capabilities of a server.

use vstd::prelude::*;
use vstd::string::StrSliceExecFns;

use crate::command::{filter_sync, Item, Progress, Reaction};
use crate::error::{Error, IoError};
use crate::response::{Capability, RequestId, Response, ResponseData};

verus! {

/// What a [`Capability`] stands for.
pub enum CapabilityModel {
    Imap4rev1,
    Auth(Seq<char>),
    Atom(Seq<char>),
}

impl View for Capability {
    type V = CapabilityModel;

    open spec fn view(&self) -> CapabilityModel {
        match self {
            Capability::Imap4rev1 => CapabilityModel::Imap4rev1,
            Capability::Auth(name) => CapabilityModel::Auth(name@),
            Capability::Atom(name) => CapabilityModel::Atom(name@),
        }
    }
}

/// Whether the two capabilities are the same.
fn same_capability(a: &Capability, b: &Capability) -> (same: bool)
    ensures
        same == (a@ == b@),
{
    match (a, b) {
        (Capability::Imap4rev1, Capability::Imap4rev1) => true,
        (Capability::Auth(a), Capability::Auth(b)) => *a == *b,
        (Capability::Atom(a), Capability::Atom(b)) => *a == *b,
        _ => false,
    }
}

/// A set of capabilities.
#[derive(Debug)]
pub struct Capabilities {
    members: Vec<Capability>,
}

/// The capabilities that a list holds.
pub open spec fn capability_set(list: Seq<Capability>) -> Set<CapabilityModel> {
    list.map_values(|capability: Capability| capability@).to_set()
}

impl View for Capabilities {
    type V = Set<CapabilityModel>;

    closed spec fn view(&self) -> Set<CapabilityModel> {
        capability_set(self.members@)
    }
}

impl Default for Capabilities {
    fn default() -> (capabilities: Self)
        ensures
            capabilities@ == Set::<CapabilityModel>::empty(),
    {
        let capabilities = Capabilities { members: Vec::new() };
        assert(capabilities@ =~= Set::<CapabilityModel>::empty());
        capabilities
    }
}

impl Capabilities {
    /// No capability is listed twice.
    #[verifier::type_invariant]
    spec fn well_formed(self) -> bool {
        self.members@.map_values(|capability: Capability| capability@).no_duplicates()
    }

    /// Whether the server has this capability.
    pub fn has(&self, capability: &Capability) -> (has: bool)
        ensures
            has == self@.contains(capability@),
    {
        let ghost models = self.members@.map_values(|capability: Capability| capability@);
        let mut i: usize = 0;
        while i < self.members.len()
            invariant
                i <= self.members@.len(),
                models == self.members@.map_values(|capability: Capability| capability@),
                forall|k: int| 0 <= k < i ==> models[k] != capability@,
            decreases self.members@.len() - i,
        {
            if same_capability(&self.members[i], capability) {
                assert(models[i as int] == capability@);
                return true;
            }
            i += 1;
        }
        false
    }

    /// The number of capabilities.
    pub fn len(&self) -> (len: usize)
        ensures
            len == self@.len(),
    {
        proof {
            use_type_invariant(self);
            self.members@.map_values(|capability: Capability| capability@).unique_seq_to_set();
        }
        self.members.len()
    }

    /// Adds a capability.
    pub fn insert(self, capability: Capability) -> (capabilities: Self)
        ensures
            capabilities@ == self@.insert(capability@),
    {
        if self.has(&capability) {
            assert(self@ =~= self@.insert(capability@));
            return self;
        }
        proof {
            use_type_invariant(&self);
        }
        let ghost before = self.members@.map_values(|capability: Capability| capability@);
        let mut members = self.members;
        members.push(capability);
        proof {
            let after = members@.map_values(|capability: Capability| capability@);
            assert(after =~= before.push(capability@));
            assert forall|x: CapabilityModel|
                after.to_set().contains(x) <==> before.to_set().contains(x) || x == capability@ by {
                if x == capability@ {
                    assert(after[before.len() as int] == x);
                }
                if before.contains(x) {
                    assert(after[before.index_of(x)] == x);
                }
            }
            assert(after.to_set() =~= before.to_set().insert(capability@));
        }
        Capabilities { members }
    }

    /// Whether the server has the capability with this name, as it stands in a `CAPABILITY`
    /// response.
    pub fn has_str(&self, name: &str) -> (has: bool)
        ensures
            has == self@.contains(capability_named(name@)),
    {
        if name.eq_ignore_ascii_case("IMAP4rev1") {
            return self.has(&Capability::Imap4rev1);
        }
        let len: usize = name.unicode_len();
        if len > 5 && name.substring_char(0, 5).eq_ignore_ascii_case("AUTH=") {
            return self.has(&Capability::Auth(name.substring_char(5, len).to_owned()));
        }
        self.has(&Capability::Atom(name.to_owned()))
    }
}

/// The capability that a name of a `CAPABILITY` response stands for.
pub open spec fn capability_named(name: Seq<char>) -> CapabilityModel {
    if crate::text::same_ignoring_ascii_case(name, "IMAP4rev1"@) {
        CapabilityModel::Imap4rev1
    } else if name.len() > 5 && crate::text::same_ignoring_ascii_case(
        name.subrange(0, 5),
        "AUTH="@,
    ) {
        CapabilityModel::Auth(name.subrange(5, name.len() as int))
    } else {
        CapabilityModel::Atom(name)
    }
}

/// What `CAPABILITY` does on a response.
pub open spec fn capability_reaction(
    capabilities: Set<CapabilityModel>,
    response: Response,
    command_tag: RequestId,
) -> Reaction<Set<CapabilityModel>> {
    match response {
        Response::Done { tag, .. } if tag.0@ == command_tag.0@ => Reaction::Complete,
        Response::Capabilities(list) => Reaction::Keep(capabilities.union(capability_set(list@))),
        _ => Reaction::PassOn,
    }
}

/// Adds the capabilities of a list.
fn insert_all(capabilities: Capabilities, list: Vec<Capability>) -> (all: Capabilities)
    ensures
        all@ == capabilities@.union(capability_set(list@)),
{
    let ghost before = capabilities@;
    let ghost models = list@.map_values(|capability: Capability| capability@);
    let mut all = capabilities;
    for capability in it: list
        invariant
            it.seq() == list@,
            models == list@.map_values(|capability: Capability| capability@),
            forall|x: CapabilityModel| #[trigger]
                all@.contains(x) <==> before.contains(x) || exists|k: int|
                    0 <= k < it.index() && models[k] == x,
    {
        let ghost i = it.index() as int;
        assert(models[i] == capability@);
        all = all.insert(capability);
    }
    assert(all@ =~= before.union(capability_set(list@))) by {
        assert forall|x: CapabilityModel| capability_set(list@).contains(x) <==> exists|k: int|
            0 <= k < models.len() && models[k] == x by {}
    }
    all
}

/// Collects the capabilities of the server from the responses to `CAPABILITY`.
pub fn parse_capabilities(
    capabilities: Capabilities,
    item: Item,
    command_tag: &RequestId,
) -> (progress: Progress<Capabilities, Capabilities>)
    ensures
        crate::command::advances(
            progress,
            capabilities,
            item,
            |response: Response| capability_reaction(capabilities@, response, *command_tag),
            Ok(capabilities),
        ),
{
    let res = match item {
        Some(res) if filter_sync(&res, command_tag) => match res {
            Ok(res) => res,
            Err(error) => return Progress::Finished(Err(Error::Io(IoError::Stream(error)))),
        },
        _ => return Progress::Finished(Ok(capabilities)),
    };
    let ResponseData { raw, response } = res;
    match response {
        Response::Capabilities(list) => Progress::More {
            state: insert_all(capabilities, list),
            unilateral: None,
        },
        response => Progress::More {
            state: capabilities,
            unilateral: Some(ResponseData { raw, response }),
        },
    }
}

/// Until it is complete, `CAPABILITY` has collected the capabilities that the server has
/// announced, in however many responses, and no others, and has passed on every response that
/// announces none.
pub proof fn law_capabilities_are_the_announced_ones(
    responses: Seq<ResponseData>,
    command_tag: RequestId,
)
    requires
        crate::command::none_completes(responses, command_tag),
    ensures
        ({
            let run = crate::command::run(
                |m: Set<CapabilityModel>, response: Response|
                    capability_reaction(m, response, command_tag),
                Set::empty(),
                responses,
            );
            &&& run is Open
            &&& forall|x: CapabilityModel| #[trigger]
                run->Open_state.contains(x) <==> exists|i: int|
                    0 <= i < responses.len() && announces(#[trigger] responses[i], x)
            &&& run.passed_on() == responses.filter(
                |res: ResponseData| !(res.response is Capabilities),
            )
        }),
    decreases responses.len(),
{
    reveal(Seq::filter);
    if responses.len() > 0 {
        let init = responses.drop_last();
        crate::command::lemma_none_completes(responses, command_tag);
        law_capabilities_are_the_announced_ones(init, command_tag);
        let reaction = |m: Set<CapabilityModel>, response: Response|
            capability_reaction(m, response, command_tag);
        let before = crate::command::run(reaction, Set::empty(), init);
        let after = crate::command::run(reaction, Set::empty(), responses);
        assert forall|x: CapabilityModel| #[trigger]
            after->Open_state.contains(x) <==> exists|i: int|
                0 <= i < responses.len() && announces(#[trigger] responses[i], x) by {
            if before->Open_state.contains(x) {
                let i = choose|i: int| 0 <= i < init.len() && announces(#[trigger] init[i], x);
                assert(announces(responses[i], x));
            }
            if after->Open_state.contains(x) && !before->Open_state.contains(x) {
                assert(announces(responses[responses.len() - 1], x));
            }
            if exists|i: int| 0 <= i < responses.len() && announces(#[trigger] responses[i], x) {
                let i = choose|i: int|
                    0 <= i < responses.len() && announces(#[trigger] responses[i], x);
                if i < init.len() {
                    assert(announces(init[i], x));
                }
            }
        }
    }
}

/// The response announces the capability.
pub open spec fn announces(res: ResponseData, capability: CapabilityModel) -> bool {
    res.response matches Response::Capabilities(list) && capability_set(list@).contains(capability)
}

} // verus!
