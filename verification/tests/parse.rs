use std::collections::HashSet;

use async_channel::{bounded, Receiver, Sender};
use imap_responses::capabilities::{parse_capabilities, Capabilities};
use imap_responses::channel::Outbox;
use imap_responses::command::{Item, Progress};
use imap_responses::error::{Error, ParseError};
use imap_responses::listing::{parse_expunge, parse_fetches, parse_names, Name, Step};
use imap_responses::mailbox::{parse_mailbox, parse_status, Flag, Mailbox};
use imap_responses::metadata::parse_metadata;
use imap_responses::noop::parse_noop;
use imap_responses::response::{
    AttributeValue, Capability, CodeKind, IdRange, MailboxDatum, MailboxListData, Metadata,
    NameAttribute, Outcome, RequestId, Response, ResponseCode, ResponseData, SearchReturnData,
    Status, StatusAttribute,
};
use imap_responses::search::{parse_ids, FoundIds};
use imap_responses::unsolicited::{handle_unilateral, UnsolicitedResponse};

fn strings(texts: &[std::borrow::Cow<'_, str>]) -> Vec<String> {
    texts.iter().map(|text| text.to_string()).collect()
}

fn capability(capability: &imap_proto::Capability<'_>) -> Capability {
    match capability {
        imap_proto::Capability::Imap4rev1 => Capability::Imap4rev1,
        imap_proto::Capability::Auth(name) => Capability::Auth(name.to_string()),
        imap_proto::Capability::Atom(name) => Capability::Atom(name.to_string()),
    }
}

fn status(status: &imap_proto::Status) -> Status {
    match status {
        imap_proto::Status::Ok => Status::Okay,
        imap_proto::Status::No => Status::No,
        imap_proto::Status::Bad => Status::Bad,
        imap_proto::Status::PreAuth => Status::PreAuth,
        imap_proto::Status::Bye => Status::Bye,
    }
}

fn outcome(outcome: &imap_proto::Outcome<'_>) -> Outcome {
    Outcome {
        code: outcome.code.as_ref().map(|code| ResponseCode {
            kind: match code {
                imap_proto::ResponseCode::HighestModSeq(n) => CodeKind::HighestModSeq(*n),
                imap_proto::ResponseCode::PermanentFlags(flags) => {
                    CodeKind::PermanentFlags(strings(flags))
                }
                imap_proto::ResponseCode::UidNext(n) => CodeKind::UidNext(*n),
                imap_proto::ResponseCode::UidValidity(n) => CodeKind::UidValidity(*n),
                imap_proto::ResponseCode::Unseen(n) => CodeKind::Unseen(*n),
                _ => CodeKind::Other,
            },
            text: format!("{:?}", code),
        }),
        information: outcome.information.as_ref().map(|text| text.to_string()),
    }
}

fn attribute(attribute: &imap_proto::StatusAttribute) -> StatusAttribute {
    match attribute {
        imap_proto::StatusAttribute::HighestModSeq(n) => StatusAttribute::HighestModSeq(*n),
        imap_proto::StatusAttribute::Messages(n) => StatusAttribute::Messages(*n),
        imap_proto::StatusAttribute::Recent(n) => StatusAttribute::Recent(*n),
        imap_proto::StatusAttribute::UidNext(n) => StatusAttribute::UidNext(*n),
        imap_proto::StatusAttribute::UidValidity(n) => StatusAttribute::UidValidity(*n),
        imap_proto::StatusAttribute::Unseen(n) => StatusAttribute::Unseen(*n),
        _ => StatusAttribute::Other,
    }
}

fn datum(datum: &imap_proto::MailboxDatum<'_>) -> MailboxDatum {
    match datum {
        imap_proto::MailboxDatum::Exists(n) => MailboxDatum::Exists(*n),
        imap_proto::MailboxDatum::Flags(flags) => MailboxDatum::Flags(strings(flags)),
        imap_proto::MailboxDatum::List(list) => MailboxDatum::List(MailboxListData {
            name_attributes: list
                .name_attributes
                .iter()
                .map(|attribute| match attribute {
                    imap_proto::NameAttribute::NoSelect => NameAttribute::NoSelect,
                    imap_proto::NameAttribute::Extension(text) => {
                        NameAttribute::Extension(text.to_string())
                    }
                    other => panic!("unexpected attribute {:?}", other),
                })
                .collect(),
            delimiter: list.delimiter.as_ref().map(|text| text.to_string()),
            name: list.name.to_string(),
        }),
        imap_proto::MailboxDatum::Search(ids) => MailboxDatum::Search(ids.clone()),
        imap_proto::MailboxDatum::Sort(ids) => MailboxDatum::Sort(ids.clone()),
        imap_proto::MailboxDatum::Status { mailbox, status } => MailboxDatum::Status {
            mailbox: mailbox.to_string(),
            status: status.iter().map(attribute).collect(),
        },
        imap_proto::MailboxDatum::Recent(n) => MailboxDatum::Recent(*n),
        imap_proto::MailboxDatum::MetadataSolicited { mailbox, values } => {
            MailboxDatum::MetadataSolicited {
                mailbox: mailbox.to_string(),
                values: values
                    .iter()
                    .map(|value| Metadata {
                        entry: value.entry.clone(),
                        value: value.value.clone(),
                    })
                    .collect(),
            }
        }
        imap_proto::MailboxDatum::MetadataUnsolicited { mailbox, values } => {
            MailboxDatum::MetadataUnsolicited {
                mailbox: mailbox.to_string(),
                values: strings(values),
            }
        }
        _ => MailboxDatum::Other,
    }
}

fn response(response: &imap_proto::Response<'_>) -> Response {
    match response {
        imap_proto::Response::Capabilities(list) => {
            Response::Capabilities(list.iter().map(capability).collect())
        }
        imap_proto::Response::Done {
            tag,
            status: word,
            outcome: rest,
        } => Response::Done {
            tag: RequestId(tag.0.clone()),
            status: status(word),
            outcome: outcome(rest),
        },
        imap_proto::Response::Data {
            status: word,
            outcome: rest,
        } => Response::Data {
            status: status(word),
            outcome: outcome(rest),
        },
        imap_proto::Response::Expunge(n) => Response::Expunge(*n),
        imap_proto::Response::Fetch(message, attributes) => Response::Fetch(
            *message,
            attributes
                .iter()
                .map(|attribute| match attribute {
                    imap_proto::AttributeValue::Flags(flags) => {
                        AttributeValue::Flags(strings(flags))
                    }
                    imap_proto::AttributeValue::Uid(n) => AttributeValue::Uid(*n),
                    _ => AttributeValue::Other,
                })
                .collect(),
        ),
        imap_proto::Response::MailboxData(data) => Response::MailboxData(datum(data)),
        _ => Response::Other,
    }
}

fn line(text: &str) -> Result<ResponseData, std::io::Error> {
    let (remaining, parsed) = imap_proto::Response::parse(text.as_bytes()).unwrap();
    assert_eq!(remaining.len(), 0);
    Ok(ResponseData {
        raw: text.as_bytes().to_vec(),
        response: response(&parsed),
    })
}

fn input_stream(data: &[&str]) -> Vec<Result<ResponseData, std::io::Error>> {
    data.iter().map(|text| line(text)).collect()
}

fn esearch(
    correlator: Option<&str>,
    data: Vec<SearchReturnData>,
) -> Result<ResponseData, std::io::Error> {
    Ok(ResponseData {
        raw: b"* ESEARCH\r\n".to_vec(),
        response: Response::MailboxData(MailboxDatum::ESearch {
            correlator: correlator.map(|tag| tag.to_string()),
            uid: true,
            data,
        }),
    })
}

fn range(start: u32, end: u32) -> IdRange {
    IdRange { start, end }
}

fn id(tag: &str) -> RequestId {
    RequestId(tag.to_string())
}

/// Runs a command over all the items.
fn drive<S, T>(
    items: Vec<Result<ResponseData, std::io::Error>>,
    unsolicited: Sender<UnsolicitedResponse>,
    start: S,
    step: impl Fn(S, Item) -> Progress<S, T>,
) -> Result<T, Error> {
    let mut items = items.into_iter();
    let mut outbox = Outbox::new(unsolicited);
    let mut current = start;
    loop {
        match step(current, items.next()) {
            Progress::More { state, unilateral } => {
                current = state;
                if let Some(res) = unilateral {
                    handle_unilateral(res, &mut outbox);
                }
            }
            Progress::Finished(result) => return result,
        }
    }
}

/// Runs a command that yields a stream of results over all the items.
fn collect<T>(
    items: Vec<Result<ResponseData, std::io::Error>>,
    unsolicited: Sender<UnsolicitedResponse>,
    step: impl Fn(Item) -> Step<T>,
) -> Vec<Result<T, Error>> {
    let mut items = items.into_iter();
    let mut outbox = Outbox::new(unsolicited);
    let mut results = vec![];
    loop {
        match step(items.next()) {
            Step::Yield(result) => results.push(result),
            Step::Unilateral(res) => {
                handle_unilateral(res, &mut outbox);
            }
            Step::End => return results,
        }
    }
}

fn capabilities(
    items: Vec<Result<ResponseData, std::io::Error>>,
    send: Sender<UnsolicitedResponse>,
    tag: &str,
) -> Result<Capabilities, Error> {
    drive(items, send, Capabilities::default(), |state, item| {
        parse_capabilities(state, item, &id(tag))
    })
}

fn ids(
    items: Vec<Result<ResponseData, std::io::Error>>,
    send: Sender<UnsolicitedResponse>,
    tag: &str,
) -> Result<HashSet<u32>, Error> {
    drive(items, send, FoundIds::default(), |state, item| {
        parse_ids(state, item, &id(tag))
    })
}

fn select(
    items: Vec<Result<ResponseData, std::io::Error>>,
    send: Sender<UnsolicitedResponse>,
    tag: &str,
) -> Result<Mailbox, Error> {
    drive(items, send, Mailbox::default(), |state, item| {
        parse_mailbox(state, item, &id(tag))
    })
}

fn mailbox_status(
    items: Vec<Result<ResponseData, std::io::Error>>,
    send: Sender<UnsolicitedResponse>,
    name: &str,
    tag: &str,
) -> Result<Mailbox, Error> {
    drive(items, send, Mailbox::default(), |state, item| {
        parse_status(state, item, name, &id(tag))
    })
}

fn channel() -> (Sender<UnsolicitedResponse>, Receiver<UnsolicitedResponse>) {
    bounded(10)
}

#[test]
fn parse_capability_test() {
    let expected_capabilities = &["IMAP4rev1", "STARTTLS", "AUTH=GSSAPI", "LOGINDISABLED"];
    let responses =
        input_stream(&["* CAPABILITY IMAP4rev1 STARTTLS AUTH=GSSAPI LOGINDISABLED\r\n"]);

    let (send, recv) = channel();
    let capabilities = capabilities(responses, send, "A0001").unwrap();
    // shouldn't be any unexpected responses parsed
    assert!(recv.is_empty());
    assert_eq!(capabilities.len(), 4);
    for e in expected_capabilities {
        assert!(capabilities.has_str(e));
    }
}

#[test]
fn parse_capability_case_insensitive_test() {
    // Test that "IMAP4REV1" (instead of "IMAP4rev1") is accepted
    let expected_capabilities = &["IMAP4rev1", "STARTTLS"];
    let responses = input_stream(&["* CAPABILITY IMAP4REV1 STARTTLS\r\n"]);

    let (send, recv) = channel();
    let capabilities = capabilities(responses, send, "A0001").unwrap();

    // shouldn't be any unexpected responses parsed
    assert!(recv.is_empty());
    assert_eq!(capabilities.len(), 2);
    for e in expected_capabilities {
        assert!(capabilities.has_str(e));
    }
}

#[test]
fn parse_capability_invalid_test() {
    let text = "* JUNK IMAP4rev1 STARTTLS AUTH=GSSAPI LOGINDISABLED\r\n";
    assert!(imap_proto::Response::parse(text.as_bytes()).is_err());
}

#[test]
fn parse_names_test() {
    let (send, recv) = channel();
    let responses = input_stream(&["* LIST (\\HasNoChildren) \".\" \"INBOX\"\r\n"]);

    let names: Vec<Name> = collect(responses, send, |item| parse_names(item, &id("A0001")))
        .into_iter()
        .collect::<Result<_, _>>()
        .unwrap();
    assert!(recv.is_empty());
    assert_eq!(names.len(), 1);
    assert_eq!(
        names[0].attributes,
        vec![NameAttribute::Extension("\\HasNoChildren".into())]
    );
    assert_eq!(names[0].delimiter.as_deref(), Some("."));
    assert_eq!(names[0].name, "INBOX");
}

#[test]
fn parse_fetches_empty() {
    let (send, recv) = channel();
    let responses = input_stream(&[]);

    let fetches = collect(responses, send, |item| parse_fetches(item, &id("a")));
    assert!(recv.is_empty());
    assert!(fetches.is_empty());
}

#[test]
fn parse_fetches_test() {
    let (send, recv) = channel();
    let responses = input_stream(&[
        "* 24 FETCH (FLAGS (\\Seen) UID 4827943)\r\n",
        "* 25 FETCH (FLAGS (\\Seen))\r\n",
    ]);

    let fetches: Vec<_> = collect(responses, send, |item| parse_fetches(item, &id("a")))
        .into_iter()
        .collect::<Result<_, _>>()
        .unwrap();
    assert!(recv.is_empty());

    assert_eq!(fetches.len(), 2);
    assert_eq!(fetches[0].message, 24);
    assert_eq!(
        fetches[0].attributes,
        vec![
            AttributeValue::Flags(vec!["\\Seen".to_string()]),
            AttributeValue::Uid(4827943)
        ]
    );
    assert_eq!(fetches[0].raw, b"* 24 FETCH (FLAGS (\\Seen) UID 4827943)\r\n");
    assert_eq!(fetches[1].message, 25);
    assert_eq!(
        fetches[1].attributes,
        vec![AttributeValue::Flags(vec!["\\Seen".to_string()])]
    );
    assert_eq!(Flag::from("\\Seen".to_string()), Flag::Seen);
}

#[test]
fn parse_fetches_w_unilateral() {
    // https://github.com/mattnenterprise/rust-imap/issues/81
    let (send, recv) = channel();
    let responses = input_stream(&["* 37 FETCH (UID 74)\r\n", "* 1 RECENT\r\n"]);

    let fetches: Vec<_> = collect(responses, send, |item| parse_fetches(item, &id("a")))
        .into_iter()
        .collect::<Result<_, _>>()
        .unwrap();
    assert_eq!(recv.try_recv().unwrap(), UnsolicitedResponse::Recent(1));

    assert_eq!(fetches.len(), 1);
    assert_eq!(fetches[0].message, 37);
    assert_eq!(fetches[0].attributes, vec![AttributeValue::Uid(74)]);
}

#[test]
fn parse_names_w_unilateral() {
    let (send, recv) = channel();
    let responses = input_stream(&[
        "* LIST (\\HasNoChildren) \".\" \"INBOX\"\r\n",
        "* 4 EXPUNGE\r\n",
    ]);

    let names: Vec<_> = collect(responses, send, |item| parse_names(item, &id("A0001")))
        .into_iter()
        .collect::<Result<_, _>>()
        .unwrap();

    assert_eq!(recv.try_recv().unwrap(), UnsolicitedResponse::Expunge(4));

    assert_eq!(names.len(), 1);
    assert_eq!(
        names[0].attributes,
        vec![NameAttribute::Extension("\\HasNoChildren".into())]
    );
    assert_eq!(names[0].delimiter.as_deref(), Some("."));
    assert_eq!(names[0].name, "INBOX");
}

#[test]
fn parse_capabilities_w_unilateral() {
    let (send, recv) = channel();
    let responses = input_stream(&[
        "* CAPABILITY IMAP4rev1 STARTTLS AUTH=GSSAPI LOGINDISABLED\r\n",
        "* STATUS dev.github (MESSAGES 10 UIDNEXT 11 UIDVALIDITY 1408806928 UNSEEN 0)\r\n",
        "* 4 EXISTS\r\n",
    ]);

    let expected_capabilities = &["IMAP4rev1", "STARTTLS", "AUTH=GSSAPI", "LOGINDISABLED"];

    let capabilities = capabilities(responses, send, "A0001").unwrap();

    assert_eq!(capabilities.len(), 4);
    for e in expected_capabilities {
        assert!(capabilities.has_str(e));
    }

    assert_eq!(
        recv.try_recv().unwrap(),
        UnsolicitedResponse::Status {
            mailbox: "dev.github".to_string(),
            attributes: vec![
                StatusAttribute::Messages(10),
                StatusAttribute::UidNext(11),
                StatusAttribute::UidValidity(1408806928),
                StatusAttribute::Unseen(0)
            ]
        }
    );
    assert_eq!(recv.try_recv().unwrap(), UnsolicitedResponse::Exists(4));
}

#[test]
fn parse_ids_w_unilateral() {
    let (send, recv) = channel();
    let responses = input_stream(&[
        "* SEARCH 23 42 4711\r\n",
        "* 1 RECENT\r\n",
        "* STATUS INBOX (MESSAGES 10 UIDNEXT 11 UIDVALIDITY 1408806928 UNSEEN 0)\r\n",
    ]);

    let ids = ids(responses, send, "A0001").unwrap();

    assert_eq!(ids, [23, 42, 4711].iter().cloned().collect());

    assert_eq!(recv.try_recv().unwrap(), UnsolicitedResponse::Recent(1));
    assert_eq!(
        recv.try_recv().unwrap(),
        UnsolicitedResponse::Status {
            mailbox: "INBOX".to_string(),
            attributes: vec![
                StatusAttribute::Messages(10),
                StatusAttribute::UidNext(11),
                StatusAttribute::UidValidity(1408806928),
                StatusAttribute::Unseen(0)
            ]
        }
    );
}

#[test]
fn parse_ids_test() {
    let (send, recv) = channel();
    let responses = input_stream(&[
        "* SEARCH 1600 1698 1739 1781 1795 1885 1891 1892 1893 1898 1899 1901 1911 1926 1932 1933 1993 1994 2007 2032 2033 2041 2053 2062 2063 2065 2066 2072 2078 2079 2082 2084 2095 2100 2101 2102 2103 2104 2107 2116 2120 2135 2138 2154 2163 2168 2172 2189 2193 2198 2199 2205 2212 2213 2221 2227 2267 2275 2276 2295 2300 2328 2330 2332 2333 2334\r\n",
        "* SEARCH 2335 2336 2337 2338 2339 2341 2342 2347 2349 2350 2358 2359 2362 2369 2371 2372 2373 2374 2375 2376 2377 2378 2379 2380 2381 2382 2383 2384 2385 2386 2390 2392 2397 2400 2401 2403 2405 2409 2411 2414 2417 2419 2420 2424 2426 2428 2439 2454 2456 2467 2468 2469 2490 2515 2519 2520 2521\r\n",
    ]);

    let ids = ids(responses, send, "A0001").unwrap();

    assert!(recv.is_empty());
    assert_eq!(
        ids,
        [
            1600, 1698, 1739, 1781, 1795, 1885, 1891, 1892, 1893, 1898, 1899, 1901, 1911, 1926,
            1932, 1933, 1993, 1994, 2007, 2032, 2033, 2041, 2053, 2062, 2063, 2065, 2066, 2072,
            2078, 2079, 2082, 2084, 2095, 2100, 2101, 2102, 2103, 2104, 2107, 2116, 2120, 2135,
            2138, 2154, 2163, 2168, 2172, 2189, 2193, 2198, 2199, 2205, 2212, 2213, 2221, 2227,
            2267, 2275, 2276, 2295, 2300, 2328, 2330, 2332, 2333, 2334, 2335, 2336, 2337, 2338,
            2339, 2341, 2342, 2347, 2349, 2350, 2358, 2359, 2362, 2369, 2371, 2372, 2373, 2374,
            2375, 2376, 2377, 2378, 2379, 2380, 2381, 2382, 2383, 2384, 2385, 2386, 2390, 2392,
            2397, 2400, 2401, 2403, 2405, 2409, 2411, 2414, 2417, 2419, 2420, 2424, 2426, 2428,
            2439, 2454, 2456, 2467, 2468, 2469, 2490, 2515, 2519, 2520, 2521
        ]
        .iter()
        .cloned()
        .collect()
    );
}

#[test]
fn parse_ids_search() {
    let (send, recv) = channel();
    let responses = input_stream(&["* SEARCH\r\n"]);

    let ids = ids(responses, send, "A0001").unwrap();

    assert!(recv.is_empty());
    assert_eq!(ids, HashSet::<u32>::new());
}

#[test]
fn parse_ids_esearch() {
    // * ESEARCH (TAG "A0006") UID
    let (send, recv) = channel();
    let found = ids(vec![esearch(Some("A0006"), vec![])], send, "A0006").unwrap();
    assert!(recv.is_empty());
    assert_eq!(found, HashSet::<u32>::new());

    let (send, recv) = channel();
    let responses = vec![
        // * ESEARCH (TAG "A0009") UID ALL 1:2
        esearch(
            Some("A0009"),
            vec![SearchReturnData::All(vec![range(1, 2)])],
        ),
        // * ESEARCH UID ALL 9:7,12
        esearch(
            None,
            vec![SearchReturnData::All(vec![range(9, 7), range(12, 12)])],
        ),
        // * ESEARCH (TAG "A0008") UID ALL 5
        esearch(
            Some("A0008"),
            vec![SearchReturnData::All(vec![range(5, 5)])],
        ),
        // * ESEARCH (TAG "A0009") UID COUNT 3 MIN 1 MAX 2
        esearch(
            Some("A0009"),
            vec![
                SearchReturnData::Count(3),
                SearchReturnData::Min(1),
                SearchReturnData::Max(2),
            ],
        ),
    ];
    let found = ids(responses, send, "A0009").unwrap();
    assert_eq!(found, [1, 2, 7, 8, 9, 12].into_iter().collect());
    // The response for another command is not attributed to this one.
    match recv.try_recv().unwrap() {
        UnsolicitedResponse::Other(res) => assert!(matches!(
            res.parsed(),
            Response::MailboxData(MailboxDatum::ESearch { correlator: Some(tag), .. })
                if tag == "A0008"
        )),
        other => panic!("unexpected unsolicited response {:?}", other),
    }
    assert!(recv.is_empty());

    // A compact but absurd ALL set fails instead of exhausting memory.
    let (send, recv) = channel();
    let responses = vec![
        // * ESEARCH (TAG "A0010") UID ALL 1:4294967295
        esearch(
            Some("A0010"),
            vec![SearchReturnData::All(vec![range(1, 4294967295)])],
        ),
        line("* 3 EXISTS\r\n"),
    ];
    let result = ids(responses, send, "A0010");
    assert!(matches!(
        result,
        Err(Error::Parse(ParseError::Unexpected(_)))
    ));
    // The remaining responses were still consumed.
    assert_eq!(recv.try_recv().unwrap(), UnsolicitedResponse::Exists(3));

    // An ALL set that is not a plain sequence-set fails instead of
    // silently losing ids.
    for all in ["1:*", "1,4294967296"] {
        let (send, recv) = channel();
        let responses = vec![
            // * ESEARCH (TAG "A0011") UID ALL {all}
            esearch(
                Some("A0011"),
                vec![SearchReturnData::Other {
                    name: "ALL".to_string(),
                    value: all.as_bytes().to_vec(),
                }],
            ),
            line("* 4 EXISTS\r\n"),
        ];
        let result = ids(responses, send, "A0011");
        assert!(
            matches!(result, Err(Error::Parse(ParseError::Unexpected(_)))),
            "{}: {:?}",
            all,
            result
        );
        assert_eq!(recv.try_recv().unwrap(), UnsolicitedResponse::Exists(4));
    }
}

#[test]
fn parse_mailbox_does_not_exist_error() {
    let (send, recv) = channel();
    let responses = input_stream(&[
        "A0003 NO Mailbox doesn't exist: DeltaChat (0.001 + 0.140 + 0.139 secs).\r\n",
    ]);

    let mailbox = select(responses, send, "A0003");
    assert!(recv.is_empty());

    assert!(matches!(mailbox, Err(Error::No(_))));
}

#[test]
fn refusals_carry_code_and_information() {
    let (send, _recv) = channel();
    let result = select(
        input_stream(&["A1 NO [TRYCREATE] no \"such\" box\r\n"]),
        send,
        "A1",
    );
    match result {
        Err(Error::No(message)) => assert_eq!(
            message,
            "code: Some(TryCreate), info: Some(\"no \\\"such\\\" box\")"
        ),
        other => panic!("unexpected result {:?}", other),
    }

    let (send, _recv) = channel();
    match select(input_stream(&["* BAD what\r\n"]), send, "A1") {
        Err(Error::Bad(message)) => assert_eq!(message, "code: None, info: Some(\"what\")"),
        other => panic!("unexpected result {:?}", other),
    }

    let (send, _recv) = channel();
    match mailbox_status(input_stream(&["A1 BAD what\r\n"]), send, "INBOX", "A1") {
        Err(Error::Bad(message)) => assert_eq!(message, "code: None, info: Some(\"what\")"),
        other => panic!("unexpected result {:?}", other),
    }
}

#[test]
fn misplaced_status_is_an_io_error() {
    let (send, _recv) = channel();
    match select(input_stream(&["* BYE going down\r\n"]), send, "A1") {
        Err(Error::Io(imap_responses::error::IoError::Other(message))) => assert_eq!(
            message,
            "status: Bye, code: None, information: Some(\"going down\")"
        ),
        other => panic!("unexpected result {:?}", other),
    }

    // A STATUS command hands the same response on.
    let (send, recv) = channel();
    let mailbox = mailbox_status(input_stream(&["* BYE going down\r\n"]), send, "INBOX", "A1");
    assert_eq!(mailbox.unwrap(), Mailbox::default());
    assert!(matches!(
        recv.try_recv().unwrap(),
        UnsolicitedResponse::Other(_)
    ));
}

#[test]
fn select_collects_the_state_of_the_mailbox() {
    let (send, recv) = channel();
    let mailbox = select(
        input_stream(&[
            "* 172 EXISTS\r\n",
            "* 1 RECENT\r\n",
            "* OK [UNSEEN 12] Message 12 is first unseen\r\n",
            "* OK [UIDVALIDITY 3857529045] UIDs valid\r\n",
            "* OK [UIDNEXT 4392] Predicted next UID\r\n",
            "* OK [HIGHESTMODSEQ 715194045007]\r\n",
            "* FLAGS (\\Answered \\Flagged \\Deleted \\Seen \\Draft $Junk)\r\n",
            "* OK [PERMANENTFLAGS (\\Deleted \\Seen \\*)] Limited\r\n",
            "* LIST () \"/\" blurdybloop\r\n",
            "* STATUS other (MESSAGES 231)\r\n",
            "* 4 EXPUNGE\r\n",
            "* 173 EXISTS\r\n",
            "B7 OK done\r\n",
            "A142 OK [READ-WRITE] SELECT completed\r\n",
            "* 99 EXISTS\r\n",
        ]),
        send,
        "A142",
    )
    .unwrap();
    assert_eq!(
        mailbox,
        Mailbox {
            flags: vec![
                Flag::Answered,
                Flag::Flagged,
                Flag::Deleted,
                Flag::Seen,
                Flag::Draft,
                Flag::Custom("$Junk".to_string())
            ],
            exists: 173,
            recent: 1,
            unseen: Some(12),
            permanent_flags: vec![Flag::Deleted, Flag::Seen, Flag::MayCreate],
            uid_next: Some(4392),
            uid_validity: Some(3857529045),
            highest_modseq: Some(715194045007),
        }
    );
    assert_eq!(
        recv.try_recv().unwrap(),
        UnsolicitedResponse::Status {
            mailbox: "other".to_string(),
            attributes: vec![StatusAttribute::Messages(231)]
        }
    );
    assert_eq!(recv.try_recv().unwrap(), UnsolicitedResponse::Expunge(4));
    // The completion of another command.
    match recv.try_recv().unwrap() {
        UnsolicitedResponse::Other(res) => assert_eq!(res.raw, b"B7 OK done\r\n"),
        other => panic!("unexpected unsolicited response {:?}", other),
    }
    assert!(recv.is_empty());
}

#[test]
fn status_takes_the_items_of_its_mailbox() {
    let (send, recv) = channel();
    let mailbox = mailbox_status(
        input_stream(&[
            "* STATUS blurdybloop (MESSAGES 231 UIDNEXT 44292)\r\n",
            "* STATUS other (MESSAGES 5)\r\n",
            "* STATUS blurdybloop (MESSAGES 232 RECENT 2 UNSEEN 3 UIDVALIDITY 7 HIGHESTMODSEQ 9)\r\n",
            "A042 OK STATUS completed\r\n",
        ]),
        send,
        "blurdybloop",
        "A042",
    )
    .unwrap();
    assert_eq!(
        mailbox,
        Mailbox {
            flags: vec![],
            exists: 232,
            recent: 2,
            unseen: Some(3),
            permanent_flags: vec![],
            uid_next: Some(44292),
            uid_validity: Some(7),
            highest_modseq: Some(9),
        }
    );
    assert_eq!(
        recv.try_recv().unwrap(),
        UnsolicitedResponse::Status {
            mailbox: "other".to_string(),
            attributes: vec![StatusAttribute::Messages(5)]
        }
    );
    assert!(recv.is_empty());
}

#[test]
fn expunge_yields_numbers_up_to_the_completion() {
    let (send, recv) = channel();
    let mut items = input_stream(&["* 3 EXPUNGE\r\n", "* 2 EXISTS\r\n"]);
    items.push(Err(std::io::Error::new(
        std::io::ErrorKind::UnexpectedEof,
        "gone",
    )));
    items.extend(input_stream(&[
        "* 3 EXPUNGE\r\n",
        "A202 OK done\r\n",
        "* 8 EXPUNGE\r\n",
    ]));
    let results = collect(items, send, |item| parse_expunge(item, &id("A202")));
    assert_eq!(results.len(), 3);
    assert!(matches!(results[0], Ok(3)));
    assert!(matches!(
        &results[1],
        Err(Error::Io(imap_responses::error::IoError::Stream(error)))
            if error.kind() == std::io::ErrorKind::UnexpectedEof
    ));
    assert!(matches!(results[2], Ok(3)));
    assert_eq!(recv.try_recv().unwrap(), UnsolicitedResponse::Exists(2));
    assert!(recv.is_empty());
}

#[test]
fn noop_passes_on_everything() {
    let (send, recv) = channel();
    let items = input_stream(&["* 22 EXPUNGE\r\n", "* 23 EXISTS\r\n", "a047 NO done\r\n"]);
    let result = drive(items, send, (), |_, item| parse_noop(item, &id("a047")));
    assert!(result.is_ok());
    assert_eq!(recv.try_recv().unwrap(), UnsolicitedResponse::Expunge(22));
    assert_eq!(recv.try_recv().unwrap(), UnsolicitedResponse::Exists(23));
    assert!(recv.is_empty());
}

#[test]
fn failure_to_read_fails_the_command() {
    let (send, recv) = channel();
    let mut items = input_stream(&["* 23 EXISTS\r\n"]);
    items.push(Err(std::io::Error::new(
        std::io::ErrorKind::ConnectionReset,
        "reset",
    )));
    let result = drive(items, send, (), |_, item| parse_noop(item, &id("a047")));
    assert!(matches!(
        result,
        Err(Error::Io(imap_responses::error::IoError::Stream(error)))
            if error.kind() == std::io::ErrorKind::ConnectionReset
    ));
    assert_eq!(recv.try_recv().unwrap(), UnsolicitedResponse::Exists(23));
}

#[test]
fn results_go_on_after_a_failure_to_read() {
    let (send, recv) = channel();
    let mut items = input_stream(&["* 4 EXPUNGE\r\n", "* 23 EXISTS\r\n"]);
    items.push(Err(std::io::Error::new(
        std::io::ErrorKind::TimedOut,
        "slow",
    )));
    items.extend(input_stream(&["* 7 EXPUNGE\r\n", "* 6 RECENT\r\n"]));
    let results = collect(items, send, |item| parse_expunge(item, &id("a1")));
    assert_eq!(results.len(), 3);
    assert!(matches!(results[0], Ok(4)));
    assert!(matches!(
        &results[1],
        Err(Error::Io(imap_responses::error::IoError::Stream(error)))
            if error.kind() == std::io::ErrorKind::TimedOut
    ));
    assert!(matches!(results[2], Ok(7)));
    assert_eq!(recv.try_recv().unwrap(), UnsolicitedResponse::Exists(23));
    assert_eq!(recv.try_recv().unwrap(), UnsolicitedResponse::Recent(6));
    assert!(recv.is_empty());
}

#[test]
fn responses_without_use_change_no_outcome() {
    let plain = [
        "* 3 EXISTS\r\n",
        "* OK [UIDNEXT 12] next\r\n",
        "a1 OK [READ-ONLY] done\r\n",
    ];
    let mixed = [
        "* 3 EXISTS\r\n",
        "* 9 EXPUNGE\r\n",
        "* 3 EXISTS\r\n",
        "* STATUS dev (MESSAGES 5)\r\n",
        "* OK [UIDNEXT 12] next\r\n",
        "a1 OK [READ-ONLY] done\r\n",
    ];
    let (send, recv) = channel();
    let without = select(input_stream(&plain), send, "a1").unwrap();
    assert!(recv.is_empty());
    let (send, recv) = channel();
    let with = select(input_stream(&mixed), send, "a1").unwrap();
    assert_eq!(without, with);
    assert_eq!(with.exists, 3);
    assert_eq!(recv.len(), 2);
}

#[test]
fn metadata_is_collected_in_order() {
    let (send, recv) = channel();
    let items = input_stream(&[
        "* METADATA \"INBOX\" (/private/comment \"a\")\r\n",
        "* METADATA \"Other\" (/private/comment \"b\")\r\n",
        "* METADATA \"INBOX\" /shared/comment\r\n",
        "* METADATA \"INBOX\" (/shared/comment NIL)\r\n",
        "a1 OK done\r\n",
    ]);
    let values = drive(items, send, vec![], |state, item| {
        parse_metadata(state, item, "INBOX", &id("a1"))
    })
    .unwrap();
    assert_eq!(
        values,
        vec![
            Metadata {
                entry: "/private/comment".to_string(),
                value: Some("a".to_string())
            },
            Metadata {
                entry: "/shared/comment".to_string(),
                value: None
            },
        ]
    );
    assert!(matches!(
        recv.try_recv().unwrap(),
        UnsolicitedResponse::Other(res)
            if matches!(&res.response, Response::MailboxData(
                MailboxDatum::MetadataSolicited { mailbox, .. }) if mailbox == "Other")
    ));
    assert!(matches!(
        recv.try_recv().unwrap(),
        UnsolicitedResponse::Other(res)
            if matches!(&res.response, Response::MailboxData(
                MailboxDatum::MetadataUnsolicited { mailbox, .. }) if mailbox == "INBOX")
    ));
    assert!(recv.is_empty());
}

#[test]
fn capabilities_are_a_set() {
    let (send, recv) = channel();
    let found = capabilities(
        input_stream(&[
            "* CAPABILITY IMAP4rev1 IDLE AUTH=PLAIN\r\n",
            "* CAPABILITY IMAP4rev1 IDLE MOVE\r\n",
            "A1 OK done\r\n",
            "* CAPABILITY IMAP4rev1 LATE\r\n",
        ]),
        send,
        "A1",
    )
    .unwrap();
    assert!(recv.is_empty());
    assert_eq!(found.len(), 4);
    assert!(found.has(&Capability::Imap4rev1));
    assert!(found.has(&Capability::Auth("PLAIN".to_string())));
    assert!(found.has_str("auth=PLAIN"));
    assert!(!found.has_str("AUTH=plain"));
    assert!(found.has_str("MOVE"));
    assert!(!found.has_str("LATE"));
    assert!(!found.has_str("AUTH="));
    assert!(!found.has_str("\u{e9}\u{e9}\u{e9}\u{e9}"));
}
