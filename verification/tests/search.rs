use std::collections::HashSet;

use imap_responses::command::{filter_sync, Progress};
use imap_responses::error::{Error, ParseError};
use imap_responses::response::{
    IdRange, MailboxDatum, Outcome, RequestId, Response, ResponseData, SearchReturnData, Status,
};
use imap_responses::search::{collect_esearch_ids, parse_ids, FoundIds, MAX_ESEARCH_IDS};

fn all(ranges: &[(u32, u32)]) -> SearchReturnData {
    SearchReturnData::All(
        ranges
            .iter()
            .map(|(start, end)| IdRange {
                start: *start,
                end: *end,
            })
            .collect(),
    )
}

fn other(name: &str, value: &[u8]) -> SearchReturnData {
    SearchReturnData::Other {
        name: name.to_string(),
        value: value.to_vec(),
    }
}

fn set(ids: &[u32]) -> HashSet<u32> {
    ids.iter().cloned().collect()
}

fn data(response: Response) -> ResponseData {
    ResponseData {
        raw: vec![],
        response,
    }
}

fn done(tag: &str, status: Status) -> ResponseData {
    data(Response::Done {
        tag: RequestId(tag.to_string()),
        status,
        outcome: Outcome {
            code: None,
            information: None,
        },
    })
}

fn esearch(data_items: Vec<SearchReturnData>) -> ResponseData {
    data(Response::MailboxData(MailboxDatum::ESearch {
        correlator: None,
        uid: false,
        data: data_items,
    }))
}

fn search(ids: &[u32]) -> ResponseData {
    data(Response::MailboxData(MailboxDatum::Search(ids.to_vec())))
}

fn run(responses: Vec<ResponseData>) -> Result<HashSet<u32>, Error> {
    let tag = RequestId("A1".to_string());
    let mut found = FoundIds::default();
    for response in responses {
        match parse_ids(found, Some(Ok(response)), &tag) {
            Progress::More { state, unilateral } => {
                assert!(unilateral.is_none());
                found = state;
            }
            Progress::Finished(result) => return result,
        }
    }
    match parse_ids(found, None, &tag) {
        Progress::Finished(result) => result,
        Progress::More { .. } => panic!("the stream has ended"),
    }
}

#[test]
fn ranges_are_expanded_in_either_order() {
    let mut ids = set(&[3]);
    assert_eq!(
        collect_esearch_ids(&mut ids, &vec![all(&[(5, 7), (12, 10), (1, 1)])]),
        Ok(())
    );
    assert_eq!(ids, set(&[1, 3, 5, 6, 7, 10, 11, 12]));

    let mut ids = set(&[]);
    assert_eq!(
        collect_esearch_ids(&mut ids, &vec![all(&[(4294967295, 4294967293)])]),
        Ok(())
    );
    assert_eq!(ids, set(&[4294967293, 4294967294, 4294967295]));
}

#[test]
fn the_bound_counts_the_ids_that_are_there() {
    assert_eq!(MAX_ESEARCH_IDS, 1 << 24);
    let mut ids = set(&[20000000]);
    assert_eq!(
        collect_esearch_ids(&mut ids, &vec![all(&[(7, 8), (1, 16777214), (9, 9)])]),
        Err("ESEARCH result exceeds 16777216 ids".to_string())
    );
    // What came before the range that does not fit has been added.
    assert_eq!(ids, set(&[7, 8, 20000000]));
}

#[test]
fn unreadable_all_stops_the_expansion() {
    let mut ids = set(&[]);
    assert_eq!(
        collect_esearch_ids(
            &mut ids,
            &vec![
                all(&[(1, 2)]),
                other("PARTIAL", b"1:*"),
                other("aLl", b"1:*\"\xff"),
                all(&[(3, 4)])
            ]
        ),
        Err("ESEARCH ALL is not a sequence-set: \"1:*\\\"\u{fffd}\"".to_string())
    );
    assert_eq!(ids, set(&[1, 2]));
}

#[test]
fn other_items_are_ignored() {
    let mut ids = set(&[8]);
    assert_eq!(
        collect_esearch_ids(
            &mut ids,
            &vec![
                SearchReturnData::Min(1),
                SearchReturnData::Max(9),
                SearchReturnData::Count(2),
                other("ALLY", b"1")
            ]
        ),
        Ok(())
    );
    assert_eq!(ids, set(&[8]));
}

#[test]
fn search_and_esearch_add_up() {
    let ids = run(vec![
        search(&[4, 2, 4]),
        esearch(vec![all(&[(2, 3)]), all(&[(9, 9)])]),
        esearch(vec![]),
        search(&[7]),
        done("A1", Status::Okay),
        search(&[100]),
    ]);
    assert_eq!(ids.unwrap(), set(&[2, 3, 4, 7, 9]));
}

#[test]
fn items_may_come_in_several_responses() {
    let ids = set(&[2, 3, 9]);
    let first = || all(&[(2, 3)]);
    let second = || all(&[(9, 9)]);
    assert_eq!(run(vec![esearch(vec![first(), second()])]).unwrap(), ids);
    assert_eq!(
        run(vec![esearch(vec![first()]), esearch(vec![second()])]).unwrap(),
        ids
    );

    let bad = || other("ALL", b"*");
    for responses in [
        vec![esearch(vec![first(), bad(), second()])],
        vec![esearch(vec![first(), bad()]), esearch(vec![second()])],
        vec![esearch(vec![first()]), esearch(vec![bad(), second()])],
    ] {
        assert!(matches!(
            run(responses),
            Err(Error::Parse(ParseError::Unexpected(message)))
                if message == "ESEARCH ALL is not a sequence-set: \"*\""
        ));
    }
}

#[test]
fn first_failure_stays() {
    let result = run(vec![
        esearch(vec![all(&[(1, 3)])]),
        esearch(vec![other("ALL", b"first")]),
        esearch(vec![all(&[(1, 4294967295)])]),
        search(&[9]),
        done("A1", Status::Okay),
    ]);
    match result {
        Err(Error::Parse(ParseError::Unexpected(message))) => {
            assert_eq!(message, "ESEARCH ALL is not a sequence-set: \"first\"")
        }
        other => panic!("unexpected result {:?}", other),
    }
}

#[test]
fn status_of_the_completion_does_not_matter_to_a_search() {
    assert_eq!(
        run(vec![search(&[9]), done("A1", Status::No)]).unwrap(),
        set(&[9])
    );
}

#[test]
fn filter_ends_at_the_completion_of_the_command() {
    let tag = RequestId("A1".to_string());
    assert!(!filter_sync(&Ok(done("A1", Status::Okay)), &tag));
    assert!(!filter_sync(&Ok(done("A1", Status::Bad)), &tag));
    assert!(filter_sync(&Ok(done("A2", Status::Okay)), &tag));
    assert!(filter_sync(&Ok(search(&[])), &tag));
    assert!(filter_sync(
        &Err(std::io::Error::new(
            std::io::ErrorKind::UnexpectedEof,
            "gone"
        )),
        &tag
    ));
}
