use async_channel::bounded;
use imap_responses::channel::Outbox;
use imap_responses::response::{MailboxDatum, Response, ResponseData, StatusAttribute};
use imap_responses::unsolicited::{handle_unilateral, report, UnsolicitedResponse};

fn data(response: Response) -> ResponseData {
    ResponseData {
        raw: b"raw".to_vec(),
        response,
    }
}

#[test]
fn each_kind_has_its_report() {
    assert_eq!(
        report(data(Response::MailboxData(MailboxDatum::Recent(2)))),
        UnsolicitedResponse::Recent(2)
    );
    assert_eq!(
        report(data(Response::MailboxData(MailboxDatum::Exists(3)))),
        UnsolicitedResponse::Exists(3)
    );
    assert_eq!(
        report(data(Response::Expunge(4))),
        UnsolicitedResponse::Expunge(4)
    );
    assert_eq!(
        report(data(Response::MailboxData(MailboxDatum::Status {
            mailbox: "INBOX".to_string(),
            status: vec![StatusAttribute::Unseen(1)]
        }))),
        UnsolicitedResponse::Status {
            mailbox: "INBOX".to_string(),
            attributes: vec![StatusAttribute::Unseen(1)]
        }
    );
    assert_eq!(
        report(data(Response::MailboxData(MailboxDatum::Search(vec![1])))),
        UnsolicitedResponse::Other(data(Response::MailboxData(MailboxDatum::Search(vec![1]))))
    );
}

#[test]
fn full_channel_ignores_new_responses() {
    let (send, recv) = bounded(1);
    let mut outbox = Outbox::new(send);
    assert_eq!(
        handle_unilateral(data(Response::Expunge(1)), &mut outbox),
        None
    );
    assert_eq!(
        handle_unilateral(data(Response::Expunge(2)), &mut outbox),
        Some(UnsolicitedResponse::Expunge(2))
    );
    assert_eq!(recv.try_recv().unwrap(), UnsolicitedResponse::Expunge(1));
    assert!(recv.is_empty());
    assert_eq!(
        handle_unilateral(data(Response::Expunge(3)), &mut outbox),
        None
    );
    assert_eq!(recv.try_recv().unwrap(), UnsolicitedResponse::Expunge(3));
}

#[test]
fn closed_channel_ignores_new_responses() {
    let (send, recv) = bounded(1);
    drop(recv);
    let mut outbox = Outbox::new(send);
    assert_eq!(
        handle_unilateral(data(Response::Other), &mut outbox),
        Some(UnsolicitedResponse::Other(data(Response::Other)))
    );
}

#[test]
fn reports_keep_the_order_and_nothing_else_is_sent() {
    let (send, recv) = bounded(10);
    let mut outbox = Outbox::new(send);
    for n in [5, 3, 8] {
        assert_eq!(
            handle_unilateral(data(Response::Expunge(n)), &mut outbox),
            None
        );
    }
    assert_eq!(recv.len(), 3);
    for n in [5, 3, 8] {
        assert_eq!(recv.try_recv().unwrap(), UnsolicitedResponse::Expunge(n));
    }
}
