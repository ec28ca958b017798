use imap_engine::parser::Parsed;
use imap_engine::response::{parse, parse_response, decode_frame};
use imap_engine::types::{
    ImapResponse, ImapResult, Greeting, GreetingStatus, ContinueReq, TaggedResponse, RespCond,
    RespText, RespTextCode, ByeResponse, UntaggedResponse, MailBoxData, MessageData, MsgAtt,
    MsgFlag, Flag, DefinedFlag, ListFlag, ListDefinedFlag, ListMailBox, StatusResponse,
    StatusInfo, Capability, Envelope, Address, DateTime, Time, Month, Body, BodyTypeText,
    BodyEnc,
};
use imap_engine::tag::Tag;
use imap_engine::error::{Error, create_custom_error};
use imap_engine::lex;
use imap_engine::body;

fn rt(s: &str) -> RespText {
    RespText { code: vec![], text: s.as_bytes().to_vec() }
}

#[test]
fn tests_parse_greeting() {
    let result = parse(b"* OK IMAP4rev1 Service Ready\r\n");

    match result {
        Parsed::Match { val: ImapResponse::Greeting(greeting), .. } => match greeting.status {
            GreetingStatus::Okay(resp) => {
                assert_eq!(resp.code.len(), 0);
                assert_eq!(resp.text, b"IMAP4rev1 Service Ready".to_vec());
            },
            _ => panic!("Wrong answer {:?}", greeting),
        },
        _ => panic!("Wrong answer {:?}", result),
    }
}

#[test]
fn mod_parse_greeting() {
    let response = b"* OK IMAP4rev1 Service Ready\r\n";

    let result = parse(response);

    let greeting = ImapResponse::Greeting(Greeting {
        status: GreetingStatus::Okay(rt("IMAP4rev1 Service Ready")),
    });

    assert_eq!(result, Parsed::Match { next: response.len(), val: greeting });
}

#[test]
fn parse_tagged_answer() {
    let response = b"a0017 OK CAPABILITY completed\r\n";

    let result = parse(response);

    let tagged_response = ImapResponse::Response(TaggedResponse {
        tag: Tag::new('a', 17),
        resp: RespCond { status: ImapResult::Okay, text: rt("CAPABILITY completed") },
    });

    assert_eq!(result, Parsed::Match { next: response.len(), val: tagged_response });
}

#[test]
fn parse_continue_req() {
    let response = b"+ Ready\r\n";

    let result = parse(response);

    let continue_req = ImapResponse::Continue(ContinueReq::Text(rt("Ready")));

    assert_eq!(result, Parsed::Match { next: response.len(), val: continue_req });
}

#[test]
fn parse_preauth() {
    let preauth_repsonse = b"* PREAUTH IMAP4rev1 server logged in as Smith\r\n";
    let resp_text = rt("IMAP4rev1 server logged in as Smith");
    let greeting_status = GreetingStatus::Preauth(resp_text);
    let expected = ImapResponse::Greeting(Greeting { status: greeting_status });

    let result = parse(preauth_repsonse);

    assert_eq!(result, Parsed::Match { next: preauth_repsonse.len(), val: expected });
}

#[test]
fn parse_bye() {
    let bye_repsonse = b"* BYE IDLE for too long\r\n";
    let bye_resp = ByeResponse { resp: rt("IDLE for too long") };
    let greeting_status = GreetingStatus::Bye(bye_resp);
    let expected = ImapResponse::Greeting(Greeting { status: greeting_status });

    let result = parse(bye_repsonse);

    assert_eq!(result, Parsed::Match { next: bye_repsonse.len(), val: expected });
}

#[test]
fn parse_ok() {
    let ok_repsonse = b"* OK [ALERT] System shutdown in 10 minutes\r\n";
    let resp_text = RespText {
        code: vec![RespTextCode::Alert],
        text: b"System shutdown in 10 minutes".to_vec(),
    };
    let resp_cond = RespCond { status: ImapResult::Okay, text: resp_text };
    let expected = ImapResponse::Untagged(UntaggedResponse::RespCond(resp_cond));

    let result = parse_response(ok_repsonse);

    assert_eq!(result, Parsed::Match { next: ok_repsonse.len(), val: expected });
}

#[test]
fn parse_no() {
    let no_repsonse = b"* NO COPY failed: disk is full\r\n";
    let resp_cond = RespCond { status: ImapResult::No, text: rt("COPY failed: disk is full") };
    let expected = ImapResponse::Untagged(UntaggedResponse::RespCond(resp_cond));

    let result = parse_response(no_repsonse);

    assert_eq!(result, Parsed::Match { next: no_repsonse.len(), val: expected });
}

#[test]
fn status_keyword_case_folded() {
    let lower = parse(b"a1 ok done\r\n");
    let mixed = parse(b"a1 Ok done\r\n");
    let upper = parse(b"a1 OK done\r\n");
    assert_eq!(lower, mixed);
    assert_eq!(mixed, upper);
    match upper {
        Parsed::Match { val: ImapResponse::Response(t), .. } => {
            assert_eq!(t.resp.status, ImapResult::Okay);
        },
        o => panic!("Wrong answer {:?}", o),
    }
}

#[test]
fn free_text_survives_decoding_verbatim() {
    let greeting_wire = b"* OK IMAP4rev1 Service Ready\r\n";
    match parse(greeting_wire) {
        Parsed::Match { val: ImapResponse::Greeting(g), .. } => match g.status {
            GreetingStatus::Okay(resp) => {
                assert_eq!(&resp.text[..], &greeting_wire[5..greeting_wire.len() - 2]);
            },
            o => panic!("Wrong answer {:?}", o),
        },
        o => panic!("Wrong answer {:?}", o),
    }
    let tagged_wire = b"a0017 OK CAPABILITY completed\r\n";
    match parse(tagged_wire) {
        Parsed::Match { val: ImapResponse::Response(t), .. } => {
            assert_eq!(&t.resp.text.text[..], &tagged_wire[9..tagged_wire.len() - 2]);
        },
        o => panic!("Wrong answer {:?}", o),
    }
    let mixed_case_text = b"* OK MiXeD CaSe TeXt 123\r\n";
    match parse(mixed_case_text) {
        Parsed::Match { val: ImapResponse::Greeting(g), .. } => match g.status {
            GreetingStatus::Okay(resp) => {
                assert_eq!(&resp.text[..], &mixed_case_text[5..mixed_case_text.len() - 2]);
            },
            o => panic!("Wrong answer {:?}", o),
        },
        o => panic!("Wrong answer {:?}", o),
    }
}

#[test]
fn partial_unit_is_incomplete_not_malformed() {
    assert_eq!(parse(b"* OK IMAP4rev1 Service Ready"), Parsed::Incomplete);
    assert_eq!(parse(b"* OK IMAP4rev1 Service Ready\r"), Parsed::Incomplete);
    assert_eq!(parse(b"a00"), Parsed::Incomplete);
    assert_eq!(parse_response(b"* 2 EXI"), Parsed::Incomplete);
    assert_eq!(lex::literal(b"{5}\r\nab", 0), Parsed::Incomplete);
}

#[test]
fn literal_reads_exact_octets_verbatim() {
    let input = b"{3}\r\nabcdef";
    assert_eq!(
        lex::literal(input, 0),
        Parsed::Match { next: 8, val: b"abc".to_vec() },
    );
    let with_crlf_inside = b"{4}\r\nx\r\ny rest";
    assert_eq!(
        lex::literal(with_crlf_inside, 0),
        Parsed::Match { next: 9, val: b"x\r\ny".to_vec() },
    );
}

#[test]
fn quoted_unescapes_and_rejects_raw_crlf() {
    assert_eq!(
        lex::quoted(b"\"a\\\"b\\\\c\" rest", 0),
        Parsed::Match { next: 9, val: b"a\"b\\c".to_vec() },
    );
    assert_eq!(lex::quoted(b"\"bad\rline\"", 0), Parsed::Fail);
}

#[test]
fn number_overflow_is_malformed() {
    assert_eq!(lex::number(b"4294967295 ", 0), Parsed::Match { next: 10, val: 4294967295 });
    assert_eq!(lex::number(b"4294967296 ", 0), Parsed::Fail);
}

#[test]
fn nz_number_rejects_zero_and_leading_zero() {
    assert_eq!(lex::nz_number(b"0 ", 0), Parsed::Fail);
    assert_eq!(lex::nz_number(b"007 ", 0), Parsed::Fail);
    assert_eq!(lex::nz_number(b"17 ", 0), Parsed::Match { next: 2, val: 17 });
}

#[test]
fn continuation_base64_branch() {
    let result = parse(b"+ \r\n");
    assert_eq!(
        result,
        Parsed::Match { next: 4, val: ImapResponse::Continue(ContinueReq::Base64(vec![])) },
    );
}

#[test]
fn untagged_flags_fold_defined_names() {
    let result = parse_response(b"* FLAGS (\\Answered \\flagged custom)\r\n");
    let expected = ImapResponse::Untagged(UntaggedResponse::MailBox(MailBoxData::Flags(vec![
        Flag::Defined(DefinedFlag::Answered),
        Flag::Defined(DefinedFlag::Flagged),
        Flag::Keyword(b"custom".to_vec()),
    ])));
    assert_eq!(result, Parsed::Match { next: 37, val: expected });
}

#[test]
fn permanent_flags_code_with_star() {
    let wire = b"* OK [PERMANENTFLAGS (\\Deleted \\Seen \\*)] Limited\r\n";
    let result = parse_response(wire);
    let code = RespTextCode::PermanentFlags(vec![
        Flag::Defined(DefinedFlag::Deleted),
        Flag::Defined(DefinedFlag::Seen),
        Flag::Perm,
    ]);
    let expected = ImapResponse::Untagged(UntaggedResponse::RespCond(RespCond {
        status: ImapResult::Okay,
        text: RespText { code: vec![code], text: b"Limited".to_vec() },
    }));
    assert_eq!(result, Parsed::Match { next: wire.len(), val: expected });
}

#[test]
fn unknown_code_kept_as_opaque_extension() {
    let wire = b"* OK [HIGHESTMODSEQ 715194045007] Ready\r\n";
    let result = parse_response(wire);
    let code = RespTextCode::Other(
        b"HIGHESTMODSEQ".to_vec(),
        Some(b"715194045007".to_vec()),
    );
    let expected = ImapResponse::Untagged(UntaggedResponse::RespCond(RespCond {
        status: ImapResult::Okay,
        text: RespText { code: vec![code], text: b"Ready".to_vec() },
    }));
    assert_eq!(result, Parsed::Match { next: wire.len(), val: expected });
}

#[test]
fn unknown_code_with_defined_prefix_stays_opaque() {
    // An atom that merely begins with a defined word is not that word.
    let wire = b"* OK [ALERTIFY] note\r\n";
    let code = RespTextCode::Other(b"ALERTIFY".to_vec(), None);
    let expected = ImapResponse::Untagged(UntaggedResponse::RespCond(RespCond {
        status: ImapResult::Okay,
        text: RespText { code: vec![code], text: b"note".to_vec() },
    }));
    assert_eq!(parse_response(wire), Parsed::Match { next: wire.len(), val: expected });

    let wire = b"* OK [TRYCREATEX 1] note\r\n";
    let code = RespTextCode::Other(b"TRYCREATEX".to_vec(), Some(b"1".to_vec()));
    let expected = ImapResponse::Untagged(UntaggedResponse::RespCond(RespCond {
        status: ImapResult::Okay,
        text: RespText { code: vec![code], text: b"note".to_vec() },
    }));
    assert_eq!(parse_response(wire), Parsed::Match { next: wire.len(), val: expected });

    // A defined word whose argument is malformed stays opaque too.
    let wire = b"* OK [UIDNEXT x] note\r\n";
    let code = RespTextCode::Other(b"UIDNEXT".to_vec(), Some(b"x".to_vec()));
    let expected = ImapResponse::Untagged(UntaggedResponse::RespCond(RespCond {
        status: ImapResult::Okay,
        text: RespText { code: vec![code], text: b"note".to_vec() },
    }));
    assert_eq!(parse_response(wire), Parsed::Match { next: wire.len(), val: expected });
}

#[test]
fn parse_covers_untagged_units() {
    let wire = b"* 2 EXISTS\r\n";
    let expected = ImapResponse::Untagged(UntaggedResponse::MailBox(MailBoxData::Exists(2)));
    assert_eq!(parse(wire), Parsed::Match { next: wire.len(), val: expected });

    // A status line stays the greeting at this positional entry point.
    let greeting_wire = b"* OK hi\r\n";
    assert!(matches!(
        parse(greeting_wire),
        Parsed::Match { val: ImapResponse::Greeting(_), .. },
    ));
}

#[test]
fn capability_data_list() {
    let wire = b"* CAPABILITY IMAP4rev1 AUTH=PLAIN STARTTLS\r\n";
    let result = parse_response(wire);
    let expected = ImapResponse::Untagged(UntaggedResponse::Capability(vec![
        Capability::Other(b"IMAP4rev1".to_vec()),
        Capability::Auth(b"PLAIN".to_vec()),
        Capability::Other(b"STARTTLS".to_vec()),
    ]));
    assert_eq!(result, Parsed::Match { next: wire.len(), val: expected });
}

#[test]
fn search_results_preserve_order() {
    let wire = b"* SEARCH 2 84 882\r\n";
    let result = parse_response(wire);
    let expected = ImapResponse::Untagged(UntaggedResponse::MailBox(MailBoxData::Search(vec![
        2, 84, 882,
    ])));
    assert_eq!(result, Parsed::Match { next: wire.len(), val: expected });
}

#[test]
fn search_with_no_results_is_valid() {
    let wire = b"* SEARCH\r\n";
    let expected = ImapResponse::Untagged(UntaggedResponse::MailBox(MailBoxData::Search(
        vec![],
    )));
    assert_eq!(parse_response(wire), Parsed::Match { next: wire.len(), val: expected });
}

#[test]
fn fetch_with_empty_flag_list_is_valid() {
    let wire = b"* 12 FETCH (FLAGS ())\r\n";
    let expected = ImapResponse::Untagged(UntaggedResponse::Message(MessageData::Fetch(
        12,
        vec![MsgAtt::Flags(vec![])],
    )));
    assert_eq!(parse_response(wire), Parsed::Match { next: wire.len(), val: expected });
}

#[test]
fn list_delimiter_escapes_resolve() {
    let backslash_delim = b"* LIST () \"\\\\\" INBOX\r\n";
    let expected = ImapResponse::Untagged(UntaggedResponse::MailBox(MailBoxData::List(
        ListMailBox { flags: vec![], delimiter: Some(92), name: b"INBOX".to_vec() },
    )));
    assert_eq!(
        parse_response(backslash_delim),
        Parsed::Match { next: backslash_delim.len(), val: expected },
    );

    let quote_delim = b"* LIST () \"\\\"\" INBOX\r\n";
    let expected = ImapResponse::Untagged(UntaggedResponse::MailBox(MailBoxData::List(
        ListMailBox { flags: vec![], delimiter: Some(34), name: b"INBOX".to_vec() },
    )));
    assert_eq!(
        parse_response(quote_delim),
        Parsed::Match { next: quote_delim.len(), val: expected },
    );

    // A bare, unescaped backslash between the quotes is malformed.
    let bare_backslash = b"* LIST () \"\\\" INBOX\r\n";
    assert_eq!(parse_response(bare_backslash), Parsed::Fail);
}

#[test]
fn list_line_with_delimiter_and_flags() {
    let wire = b"* LIST (\\Noselect) \"/\" ~/Mail/foo\r\n";
    let result = parse_response(wire);
    let expected = ImapResponse::Untagged(UntaggedResponse::MailBox(MailBoxData::List(
        ListMailBox {
            flags: vec![ListFlag::Defined(ListDefinedFlag::Noselect)],
            delimiter: Some(b'/'),
            name: b"~/Mail/foo".to_vec(),
        },
    )));
    assert_eq!(result, Parsed::Match { next: wire.len(), val: expected });
}

#[test]
fn status_line_attributes() {
    let wire = b"* STATUS blurdybloop (MESSAGES 231 UIDNEXT 44292)\r\n";
    let result = parse_response(wire);
    let expected = ImapResponse::Untagged(UntaggedResponse::MailBox(MailBoxData::Status(
        StatusResponse {
            name: b"blurdybloop".to_vec(),
            status: vec![StatusInfo::Messages(231), StatusInfo::UidNext(44292)],
        },
    )));
    assert_eq!(result, Parsed::Match { next: wire.len(), val: expected });
}

#[test]
fn exists_recent_and_expunge_counters() {
    assert_eq!(
        parse_response(b"* 23 EXISTS\r\n"),
        Parsed::Match {
            next: 13,
            val: ImapResponse::Untagged(UntaggedResponse::MailBox(MailBoxData::Exists(23))),
        },
    );
    assert_eq!(
        parse_response(b"* 5 RECENT\r\n"),
        Parsed::Match {
            next: 12,
            val: ImapResponse::Untagged(UntaggedResponse::MailBox(MailBoxData::Recent(5))),
        },
    );
    assert_eq!(
        parse_response(b"* 44 EXPUNGE\r\n"),
        Parsed::Match {
            next: 14,
            val: ImapResponse::Untagged(UntaggedResponse::Message(MessageData::Expunge(44))),
        },
    );
}

#[test]
fn fetch_with_flags_and_size() {
    let wire = b"* 12 FETCH (FLAGS (\\Seen) RFC822.SIZE 44827)\r\n";
    let result = parse_response(wire);
    let atts = vec![
        MsgAtt::Flags(vec![MsgFlag::Common(Flag::Defined(DefinedFlag::Seen))]),
        MsgAtt::Rfc822Size(44827),
    ];
    let expected = ImapResponse::Untagged(UntaggedResponse::Message(MessageData::Fetch(
        12, atts,
    )));
    assert_eq!(result, Parsed::Match { next: wire.len(), val: expected });
}

#[test]
fn fetch_with_internaldate_and_envelope() {
    let wire = b"* 7 FETCH (INTERNALDATE \"17-Jul-1996 02:44:25 -0700\" ENVELOPE (\"Wed, 17 Jul 1996\" \"subject\" ((\"name\" NIL \"box\" \"host\")) NIL NIL NIL NIL NIL NIL \"<id@x>\"))\r\n";
    let result = parse_response(wire);
    let date = DateTime {
        day: 17,
        month: Month::Jul,
        year: 1996,
        time: Time { hours: 2, minutes: 44, seconds: 25 },
        zone: -700,
    };
    let envelope = Envelope {
        date: Some(b"Wed, 17 Jul 1996".to_vec()),
        subject: Some(b"subject".to_vec()),
        from: Some(vec![Address {
            name: Some(b"name".to_vec()),
            adl: None,
            mailbox: Some(b"box".to_vec()),
            host: Some(b"host".to_vec()),
        }]),
        sender: None,
        reply_to: None,
        to: None,
        cc: None,
        bcc: None,
        in_reply_to: None,
        message_id: Some(b"<id@x>".to_vec()),
    };
    let atts = vec![MsgAtt::InternalDate(date), MsgAtt::Envelope(envelope)];
    let expected = ImapResponse::Untagged(UntaggedResponse::Message(MessageData::Fetch(
        7, atts,
    )));
    assert_eq!(result, Parsed::Match { next: wire.len(), val: expected });
}

#[test]
fn text_body_structure() {
    let wire = b"(\"TEXT\" \"PLAIN\" (\"CHARSET\" \"US-ASCII\") NIL NIL \"7BIT\" 3028 92)";
    let result = body::body(wire, 0);
    let expected = Body::Text(BodyTypeText {
        subtype: b"PLAIN".to_vec(),
        fields: imap_engine::types::BodyFields {
            param: Some(vec![(b"CHARSET".to_vec(), b"US-ASCII".to_vec())]),
            id: None,
            desc: None,
            enc: BodyEnc::N7bit,
            octets: 3028,
        },
        lines: 92,
    });
    assert_eq!(result, Parsed::Match { next: wire.len(), val: expected });
}

#[test]
fn decode_frame_reports_malformed_bytes() {
    let garbage = b")garbage\r\n";
    match decode_frame(garbage) {
        Err(Error::Parser(bytes)) => assert_eq!(bytes, garbage.to_vec()),
        o => panic!("Wrong answer {:?}", o.is_ok()),
    }
    let trailing = b"+ Ready\r\nextra";
    match decode_frame(trailing) {
        Err(Error::Parser(bytes)) => assert_eq!(bytes, trailing.to_vec()),
        o => panic!("Wrong answer {:?}", o.is_ok()),
    }
    assert!(decode_frame(b"+ Ready\r\n").is_ok());
}

#[test]
fn custom_error_carries_message() {
    match create_custom_error(String::from("boom")) {
        Error::Custom(m) => assert_eq!(m, "boom"),
        _ => panic!("wrong variant"),
    }
}
