use mail_cli::errors::MailError;
use mail_cli::mail::{
    Mail, MailBox, assemble_mails, date_fetch_query, indices_of, join_indices, parse_date_header,
    rank_headers, select_recent, sort_by_date_desc,
};

fn ts(rfc2822: &str) -> i64 {
    chrono::DateTime::parse_from_rfc2822(rfc2822)
        .expect("test date must parse")
        .timestamp()
}

#[test]
fn date_header_parses_to_the_instant() {
    let t = parse_date_header("Date: Wed, 18 Feb 2015 23:16:09 GMT").unwrap();
    assert_eq!(t, ts("Wed, 18 Feb 2015 23:16:09 GMT"));
    assert_eq!(t, 1424301369);
}

#[test]
fn date_header_value_is_trimmed() {
    let t = parse_date_header("Date:   Mon, 1 Jan 2024 10:30:00 +0000  \r\n").unwrap();
    assert_eq!(t, ts("Mon, 1 Jan 2024 10:30:00 +0000"));
}

#[test]
fn date_header_offsets_order_by_instant() {
    // 10:00 at +0200 is 08:00 UTC: earlier than 09:00 UTC.
    let a = parse_date_header("Date: Mon, 1 Jan 2024 10:00:00 +0200").unwrap();
    let b = parse_date_header("Date: Mon, 1 Jan 2024 09:00:00 +0000").unwrap();
    assert!(a < b);
}

#[test]
fn missing_colon_fails_date_parse() {
    assert_eq!(
        parse_date_header("no header here").unwrap_err(),
        MailError::DateParseFailed
    );
}

#[test]
fn unparsable_value_fails_date_parse() {
    assert_eq!(
        parse_date_header("Date: not a date").unwrap_err(),
        MailError::DateParseFailed
    );
}

#[test]
fn ranking_aborts_on_one_bad_date() {
    let headers = vec![
        (1u32, String::from("Date: Mon, 1 Jan 2024 00:00:00 +0000")),
        (2u32, String::from("Date: garbage")),
    ];
    assert_eq!(rank_headers(&headers).unwrap_err(), MailError::DateParseFailed);
}

#[test]
fn ranking_pairs_dates_with_indices() {
    let headers = vec![
        (7u32, String::from("Date: Mon, 1 Jan 2024 00:00:00 +0000")),
        (9u32, String::from("Date: Tue, 2 Jan 2024 00:00:00 +0000")),
    ];
    let pairs = rank_headers(&headers).unwrap();
    assert_eq!(
        pairs,
        vec![
            (ts("Mon, 1 Jan 2024 00:00:00 +0000"), 7),
            (ts("Tue, 2 Jan 2024 00:00:00 +0000"), 9),
        ]
    );
}

#[test]
fn sorting_is_newest_first() {
    let sorted = sort_by_date_desc(vec![(5, 1), (9, 2), (7, 3)]);
    assert_eq!(sorted, vec![(9, 2), (7, 3), (5, 1)]);
}

#[test]
fn sorting_keeps_listing_order_on_ties() {
    let sorted = sort_by_date_desc(vec![(5, 1), (9, 2), (5, 3), (9, 4)]);
    assert_eq!(sorted, vec![(9, 2), (9, 4), (5, 1), (5, 3)]);
}

#[test]
fn selection_returns_min_of_n_and_k() {
    let dated = vec![(5, 1), (9, 2), (7, 3)];
    assert_eq!(select_recent(dated.clone(), 2).len(), 2);
    assert_eq!(select_recent(dated.clone(), 3).len(), 3);
    assert_eq!(select_recent(dated.clone(), 10).len(), 3);
    assert_eq!(select_recent(dated, 0).len(), 0);
}

#[test]
fn two_most_recent_of_three() {
    // Indices 1, 2, 3 dated 2024-01-03, 2024-01-01 and 2024-01-02: the two
    // most recent are 1 then 3, newest first.
    let headers = vec![
        (1u32, String::from("Date: Wed, 3 Jan 2024 00:00:00 +0000")),
        (2u32, String::from("Date: Mon, 1 Jan 2024 00:00:00 +0000")),
        (3u32, String::from("Date: Tue, 2 Jan 2024 00:00:00 +0000")),
    ];
    let pairs = rank_headers(&headers).unwrap();
    let picked = select_recent(pairs, 2);
    assert_eq!(indices_of(&picked), vec![1, 3]);
}

#[test]
fn index_lists_for_the_protocol() {
    assert_eq!(join_indices(&vec![]), "");
    assert_eq!(join_indices(&vec![42]), "42");
    assert_eq!(join_indices(&vec![1, 3, 10]), "1,3,10");
    assert_eq!(join_indices(&vec![1000000]), "1000000");
}

#[test]
fn date_query_restricts_to_the_date_header() {
    assert_eq!(date_fetch_query(), "BODY.PEEK[HEADER.FIELDS (DATE)]");
}

fn raw_mail(subject: &str, date: &str, body: &str) -> Vec<u8> {
    format!(
        "From: Alice <alice@example.com>\r\nTo: Bob <bob@example.com>\r\nSubject: {subject}\r\nDate: {date}\r\nContent-Type: text/plain\r\n\r\n{body}"
    )
    .into_bytes()
}

#[test]
fn assembly_restores_newest_first_order() {
    let raw_new = raw_mail("newer", "Tue, 2 Jan 2024 00:00:00 +0000", "second day");
    let raw_old = raw_mail("older", "Mon, 1 Jan 2024 00:00:00 +0000", "first day");
    // The provider answers the batch fetch in index order; the ranking wants
    // newest first: index 2 before index 1.
    let ranked = vec![
        (ts("Tue, 2 Jan 2024 00:00:00 +0000"), 2u32),
        (ts("Mon, 1 Jan 2024 00:00:00 +0000"), 1u32),
    ];
    let fetched = vec![(1u32, raw_old), (2u32, raw_new)];
    let mails = assemble_mails(&ranked, &fetched);
    assert_eq!(mails.len(), 2);
    let first = mails[0].as_ref().unwrap();
    assert_eq!(first.ord_num, 2);
    assert_eq!(first.subject.as_deref(), Some("newer"));
    assert_eq!(first.body, "second day");
    assert_eq!(first.date, Some(ts("Tue, 2 Jan 2024 00:00:00 +0000")));
    let second = mails[1].as_ref().unwrap();
    assert_eq!(second.ord_num, 1);
    assert_eq!(second.subject.as_deref(), Some("older"));
}

#[test]
fn unparsable_message_fails_only_its_slot() {
    let raw_ok = raw_mail("fine", "Mon, 1 Jan 2024 00:00:00 +0000", "hello");
    let ranked = vec![(10, 1u32), (9, 2u32)];
    let fetched = vec![(1u32, raw_ok), (2u32, Vec::new())];
    let mails = assemble_mails(&ranked, &fetched);
    assert_eq!(mails.len(), 2);
    assert!(mails[0].is_ok());
    assert_eq!(mails[1].as_ref().unwrap_err(), &MailError::MailParseFailed);
}

#[test]
fn missing_fetch_slot_is_a_protocol_error() {
    let ranked = vec![(10, 5u32)];
    let fetched: Vec<(u32, Vec<u8>)> = Vec::new();
    let mails = assemble_mails(&ranked, &fetched);
    assert_eq!(mails.len(), 1);
    assert_eq!(mails[0].as_ref().unwrap_err(), &MailError::ProtocolError);
}

#[test]
fn rendering_trims_and_dashes() {
    let mail = Mail {
        ord_num: 1,
        from: Some(String::from("  Alice <alice@example.com>  ")),
        to: None,
        date: None,
        subject: Some(String::from("Hi")),
        body: String::from("  text  \n"),
    };
    assert_eq!(
        mail.render(),
        "From:       Alice <alice@example.com>\nTo:         -\nSend Date:  -\n\n\nSubject:    Hi\n\ntext"
    );
}

#[test]
fn rendering_shows_the_date_as_rfc3339() {
    let mail = Mail {
        ord_num: 1,
        from: None,
        to: None,
        date: Some(0),
        subject: None,
        body: String::new(),
    };
    let rendered = mail.render();
    assert!(rendered.contains("Send Date:  1970-01-01T00:00:00+00:00"));
}

#[test]
fn mailbox_keeps_its_name() {
    let mailbox = MailBox::new("INBOX");
    assert_eq!(mailbox.name(), "INBOX");
}
