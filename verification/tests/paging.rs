use maki_acp::clock::unix_secs_to_iso8601;
use maki_acp::paging::{
    decode_cursor, encode_cursor, list_sessions, SessionSummary, SESSION_PAGE_SIZE,
};

fn summary(id: &str, updated_at: u64) -> SessionSummary {
    SessionSummary {
        id: id.to_string(),
        title: id.to_string(),
        updated_at,
        cwd: "/tmp".to_string(),
    }
}

fn paginate(mut list: Vec<SessionSummary>, cursor: Option<&str>) -> (Vec<String>, Option<String>) {
    list.sort_unstable_by(|a, b| b.updated_at.cmp(&a.updated_at).then(a.id.cmp(&b.id)));
    let page = maki_acp::paging::paginate(&list, cursor);
    let ids = list[page.start..page.end].iter().map(|s| s.id.clone()).collect();
    (ids, page.next_cursor)
}

#[test]
fn decode_cursor_cases() {
    assert_eq!(decode_cursor("100:abc"), Some((100, "abc")));
    assert_eq!(decode_cursor("0:z"), Some((0, "z")));
    assert_eq!(decode_cursor("abc"), None);
    assert_eq!(decode_cursor("x:abc"), None);
}

#[test]
fn encode_decode_roundtrip() {
    let encoded = encode_cursor(42, "some-uuid");
    assert_eq!(decode_cursor(&encoded), Some((42, "some-uuid")));
}

#[test]
fn first_page_no_cursor() {
    let list: Vec<_> = (0..60)
        .map(|i| summary(&format!("id-{i:02}"), 100 - i))
        .collect();
    let (ids, next) = paginate(list, None);
    assert_eq!(ids.len(), SESSION_PAGE_SIZE);
    assert_eq!(ids[0], "id-00");
    assert!(next.is_some());
}

#[test]
fn second_page_exhausts_results() {
    let list: Vec<_> = (0..60)
        .map(|i| summary(&format!("id-{i:02}"), 100 - i))
        .collect();
    let (_, next1) = paginate(list.clone(), None);
    let (ids2, next2) = paginate(list, next1.as_deref());
    assert_eq!(ids2.len(), 10);
    assert!(next2.is_none());
}

#[test]
fn no_next_cursor_when_exactly_one_page() {
    let list: Vec<_> = (0..SESSION_PAGE_SIZE)
        .map(|i| summary(&format!("id-{i:02}"), 100 - i as u64))
        .collect();
    let (ids, next) = paginate(list, None);
    assert_eq!(ids.len(), SESSION_PAGE_SIZE);
    assert!(next.is_none());
}

#[test]
fn tie_breaking_by_id_asc() {
    let list = vec![
        summary("bbb", 100),
        summary("aaa", 100),
        summary("ccc", 100),
    ];
    let (ids, _) = paginate(list, None);
    assert_eq!(ids, vec!["aaa", "bbb", "ccc"]);
}

#[test]
fn cursor_resumes_after_tie_broken_item() {
    let list = vec![
        summary("aaa", 100),
        summary("bbb", 100),
        summary("ccc", 100),
        summary("ddd", 99),
    ];
    // cursor points at "bbb" (second item)
    let cursor = encode_cursor(100, "bbb");
    let (ids, next) = paginate(list, Some(&cursor));
    assert_eq!(ids, vec!["ccc", "ddd"]);
    assert!(next.is_none());
}

#[test]
fn invalid_cursor_falls_back_to_first_page() {
    let list: Vec<_> = (0..5)
        .map(|i| summary(&format!("id-{i}"), i as u64))
        .collect();
    let (ids_no_cursor, _) = paginate(list.clone(), None);
    let (ids_bad_cursor, _) = paginate(list, Some("not-a-valid-cursor"));
    assert_eq!(ids_no_cursor, ids_bad_cursor);
}

#[test]
fn cursor_text_has_the_time_then_the_id() {
    assert_eq!(encode_cursor(42, "some-uuid"), "42:some-uuid");
    assert_eq!(encode_cursor(0, ""), "0:");
    assert_eq!(encode_cursor(u64::MAX, "a:b"), "18446744073709551615:a:b");
}

#[test]
fn cursor_is_split_at_the_first_colon() {
    assert_eq!(decode_cursor("7:a:b"), Some((7, "a:b")));
    assert_eq!(decode_cursor("7:"), Some((7, "")));
    assert_eq!(decode_cursor("007:é✓"), Some((7, "é✓")));
}

#[test]
fn cursor_time_is_read_as_the_standard_library_reads_it() {
    for ts in [
        "", "+", "-", "+5", "++5", "-5", " 5", "5 ", "0", "000", "18446744073709551615",
        "18446744073709551616", "99999999999999999999999", "1_000", "٣", "5a", "+18446744073709551615",
    ] {
        let cursor = format!("{ts}:id");
        let expected = ts.parse::<u64>().ok().map(|t| (t, "id"));
        assert_eq!(decode_cursor(&cursor), expected, "{ts:?}");
    }
}

#[test]
fn following_the_cursors_gathers_every_session_once() {
    let list: Vec<_> = (0..173).map(|i| summary(&format!("id-{:03}", i * 7 % 173), 1000 + i / 4)).collect();
    let mut expected = list.clone();
    expected.sort_by(|a, b| b.updated_at.cmp(&a.updated_at).then(a.id.cmp(&b.id)));
    let mut gathered: Vec<String> = Vec::new();
    let mut cursor: Option<String> = None;
    let mut pages = 0;
    loop {
        let (ids, next) = paginate(list.clone(), cursor.as_deref());
        assert!(ids.len() <= SESSION_PAGE_SIZE);
        gathered.extend(ids);
        pages += 1;
        if next.is_none() {
            break;
        }
        cursor = next;
    }
    assert_eq!(pages, 4);
    assert_eq!(gathered, expected.iter().map(|s| s.id.clone()).collect::<Vec<_>>());
}

#[test]
fn newer_sessions_do_not_shift_the_next_page() {
    let list: Vec<_> = (0..120).map(|i| summary(&format!("id-{i:03}"), 500 - i)).collect();
    let (_, next) = paginate(list.clone(), None);
    let (before, _) = paginate(list.clone(), next.as_deref());
    let mut more = list;
    more.push(summary("new", 900));
    let (after, _) = paginate(more, next.as_deref());
    assert_eq!(before, after);
}

#[test]
fn cursor_after_which_nothing_comes_lists_the_first_page() {
    let list = vec![summary("aaa", 100), summary("bbb", 90)];
    let (ids, _) = paginate(list, Some("90:bbb"));
    assert_eq!(ids, vec!["aaa", "bbb"]);
}

#[test]
fn ids_are_ordered_by_code_point() {
    let list = vec![summary("a", 1), summary("B", 1), summary("z", 1), summary("é", 1), summary("𝄞", 1), summary("\u{ffff}", 1)];
    let (ids, _) = paginate(list.clone(), None);
    for id in &ids {
        let (rest, _) = paginate(list.clone(), Some(&encode_cursor(1, id)));
        let expected: Vec<String> = ids.iter().filter(|other| other.as_str() > id.as_str()).cloned().collect();
        if expected.is_empty() {
            assert_eq!(rest, ids);
        } else {
            assert_eq!(rest, expected);
        }
    }
}

#[test]
fn empty_list_has_one_empty_page() {
    let (ids, next) = paginate(vec![], Some("5:x"));
    assert!(ids.is_empty());
    assert!(next.is_none());
}

#[test]
fn listing_tells_about_each_session() {
    let mut one = summary("aaa", 1_700_000_000);
    one.title = "First".to_string();
    let reply = list_sessions(Some(&vec![one]), None);
    assert_eq!(reply.sessions.len(), 1);
    assert_eq!(reply.sessions[0].session_id, "aaa");
    assert_eq!(reply.sessions[0].title, "First");
    assert_eq!(reply.sessions[0].cwd, "/tmp");
    assert_eq!(reply.sessions[0].updated_at, "2023-11-14T22:13:20Z");
    assert!(reply.next_cursor.is_none());
}

#[test]
fn listing_pages_like_the_page_it_shows() {
    let list: Vec<_> = (0..60).map(|i| summary(&format!("id-{i:02}"), 100 - i)).collect();
    let reply = list_sessions(Some(&list), None);
    assert_eq!(reply.sessions.len(), 50);
    assert_eq!(reply.next_cursor.as_deref(), Some("51:id-49"));
    let rest = list_sessions(Some(&list), reply.next_cursor.as_deref());
    assert_eq!(rest.sessions[0].session_id, "id-50");
    assert_eq!(rest.sessions.len(), 10);
}

#[test]
fn failed_storage_lists_nothing() {
    let reply = list_sessions(None, Some("5:x"));
    assert!(reply.sessions.is_empty());
    assert!(reply.next_cursor.is_none());
}

#[test]
fn times_are_written_in_iso8601() {
    assert_eq!(unix_secs_to_iso8601(0), "1970-01-01T00:00:00Z");
    assert_eq!(unix_secs_to_iso8601(1), "1970-01-01T00:00:01Z");
    assert_eq!(unix_secs_to_iso8601(253402207200), "9999-12-30T22:00:00Z");
}

#[test]
fn times_out_of_range_are_empty() {
    assert_eq!(unix_secs_to_iso8601(253402207201), "");
    assert_eq!(unix_secs_to_iso8601(i64::MAX as u64), "");
    assert_eq!(unix_secs_to_iso8601(i64::MIN as u64), "");
    assert_eq!(unix_secs_to_iso8601((-377705023202i64) as u64), "");
    assert_eq!(unix_secs_to_iso8601((-377705023201i64) as u64), "-009999-01-02T01:59:59Z");
}

#[test]
fn numbers_above_the_signed_range_are_times_before_the_epoch() {
    assert_eq!(unix_secs_to_iso8601(u64::MAX), "1969-12-31T23:59:59Z");
}
