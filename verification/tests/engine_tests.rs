use imap_engine::connection::{ConnectionState, ReaderAction, serialize_command};
use imap_engine::parser::Parsed;
use imap_engine::response::parse_response;
use imap_engine::tag::{Tag, TagGenerator};
use imap_engine::types::{
    ImapResponse, ImapResult, UntaggedResponse, MailBoxData, RespText,
};

fn feed(state: &mut ConnectionState, wire: &[u8]) -> ReaderAction {
    match parse_response(wire) {
        Parsed::Match { val, .. } => state.on_frame(val),
        o => panic!("frame did not decode: {:?}", o),
    }
}

#[test]
fn sequential_tags_are_pairwise_distinct() {
    let mut generator = TagGenerator::new('a');
    let mut tags: Vec<Tag> = Vec::new();
    let mut k: usize = 0;
    while k < 64 {
        tags.push(generator.next_tag());
        k += 1;
    }
    let mut x: usize = 0;
    while x < tags.len() {
        let mut y: usize = x + 1;
        while y < tags.len() {
            assert!(tags[x] != tags[y]);
            y += 1;
        }
        x += 1;
    }
}

#[test]
fn untagged_attributed_to_oldest_not_newest() {
    let mut state = ConnectionState::new('a');
    let tag_a = state.register();
    let tag_b = state.register();

    let action = feed(&mut state, b"* 2 EXISTS\r\n");
    assert!(matches!(action, ReaderAction::Buffered));

    // B's completion arrives first: B has collected nothing.
    match feed(&mut state, b"a2 OK done\r\n") {
        ReaderAction::Resolve { tag, untagged, .. } => {
            assert_eq!(tag, tag_b);
            assert_eq!(untagged.len(), 0);
        },
        o => panic!("Wrong answer {:?}", o),
    }

    // A owns the untagged item.
    match feed(&mut state, b"a1 OK done\r\n") {
        ReaderAction::Resolve { tag, untagged, .. } => {
            assert_eq!(tag, tag_a);
            assert_eq!(
                untagged,
                vec![UntaggedResponse::MailBox(MailBoxData::Exists(2))],
            );
        },
        o => panic!("Wrong answer {:?}", o),
    }
}

#[test]
fn send_then_exists_then_completion_resolves_with_buffer() {
    let mut state = ConnectionState::new('b');
    let tag = state.register();
    assert_eq!(tag, Tag::new('b', 1));
    assert_eq!(serialize_command(tag, b"NOOP"), b"b1 NOOP\r\n".to_vec());

    assert!(matches!(feed(&mut state, b"* 2 EXISTS\r\n"), ReaderAction::Buffered));

    match feed(&mut state, b"b1 OK done\r\n") {
        ReaderAction::Resolve { tag: rtag, untagged, status, text } => {
            assert_eq!(rtag, tag);
            assert_eq!(untagged, vec![UntaggedResponse::MailBox(MailBoxData::Exists(2))]);
            assert_eq!(status, ImapResult::Okay);
            assert_eq!(text, RespText { code: vec![], text: b"done".to_vec() });
        },
        o => panic!("Wrong answer {:?}", o),
    }
    assert_eq!(state.outstanding.len(), 0);
}

#[test]
fn unmatched_completion_is_violation_not_crash() {
    let mut state = ConnectionState::new('a');
    let _ = state.register();

    match feed(&mut state, b"z99 OK done\r\n") {
        ReaderAction::Violation(tag) => assert_eq!(tag, Tag::new('z', 99)),
        o => panic!("Wrong answer {:?}", o),
    }
    // The reader keeps going: the outstanding command still resolves.
    assert!(matches!(
        feed(&mut state, b"a1 OK fine\r\n"),
        ReaderAction::Resolve { .. },
    ));
}

#[test]
fn greeting_and_continuation_pass_through() {
    let mut state = ConnectionState::new('a');
    match state.on_frame(match imap_engine::response::parse(b"* OK hello\r\n") {
        Parsed::Match { val, .. } => val,
        o => panic!("frame did not decode: {:?}", o),
    }) {
        ReaderAction::DeliverGreeting(_) => {},
        o => panic!("Wrong answer {:?}", o),
    }
    match feed(&mut state, b"+ Ready\r\n") {
        ReaderAction::DeliverContinuation(_) => {},
        o => panic!("Wrong answer {:?}", o),
    }
}

#[test]
fn untagged_without_outstanding_is_unattributed() {
    let mut state = ConnectionState::new('a');
    match feed(&mut state, b"* 3 RECENT\r\n") {
        ReaderAction::Unattributed(UntaggedResponse::MailBox(MailBoxData::Recent(3))) => {},
        o => panic!("Wrong answer {:?}", o),
    }
}

#[test]
fn close_drains_every_pending_entry() {
    let mut state = ConnectionState::new('c');
    let t1 = state.register();
    let t2 = state.register();
    assert!(matches!(feed(&mut state, b"* 1 EXISTS\r\n"), ReaderAction::Buffered));

    let pending = state.close();
    assert_eq!(pending.len(), 2);
    assert_eq!(pending[0].tag, t1);
    assert_eq!(pending[0].untagged.len(), 1);
    assert_eq!(pending[1].tag, t2);
    assert_eq!(pending[1].untagged.len(), 0);
    assert_eq!(state.outstanding.len(), 0);
}

#[test]
fn deregister_removes_only_the_named_waiter() {
    let mut state = ConnectionState::new('d');
    let t1 = state.register();
    let t2 = state.register();
    assert!(state.deregister(t1));
    assert!(!state.deregister(t1));
    assert_eq!(state.outstanding.len(), 1);
    assert_eq!(state.outstanding[0].tag, t2);
}

#[test]
fn serialize_multi_digit_tag() {
    let tag = Tag::new('a', 1204);
    assert_eq!(serialize_command(tag, b"SELECT INBOX"), b"a1204 SELECT INBOX\r\n".to_vec());
}
