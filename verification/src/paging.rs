//! Listing sessions page by page.
//!
//! A session list is ordered by time of last update, newest first, and by id among sessions of
//! the same time. A cursor names the last session of a page by these two, so that the next page
//! begins with the first session after it, whatever has been added or removed meanwhile.
use vstd::prelude::*;
use vstd::string::*;

use crate::clock;
use crate::text;

verus! {

/// The most sessions that one page holds.
pub const SESSION_PAGE_SIZE: usize = 50;

/// What is listed of a stored session.
#[derive(Debug)]
pub struct SessionSummary {
    pub id: String,
    pub title: String,
    pub updated_at: u64,
    pub cwd: String,
}

/// The contents of a [`SessionSummary`].
pub struct SummaryView {
    pub id: Seq<char>,
    pub title: Seq<char>,
    pub updated_at: u64,
    pub cwd: Seq<char>,
}

impl View for SessionSummary {
    type V = SummaryView;

    open spec fn view(&self) -> SummaryView {
        SummaryView {
            id: self.id@,
            title: self.title@,
            updated_at: self.updated_at,
            cwd: self.cwd@,
        }
    }
}

impl Clone for SessionSummary {
    fn clone(&self) -> (r: Self)
        ensures
            r@ == self@,
    {
        SessionSummary {
            id: self.id.clone(),
            title: self.title.clone(),
            updated_at: self.updated_at,
            cwd: self.cwd.clone(),
        }
    }
}

/// The text form of a cursor.
pub open spec fn encoded_cursor(updated_at: u64, id: Seq<char>) -> Seq<char> {
    text::decimal(updated_at as nat) + seq![':'] + id
}

/// The time and id that the text of a cursor gives, if it is well-formed.
pub open spec fn decoded_cursor(cursor: Seq<char>) -> Option<(u64, Seq<char>)> {
    match text::split_once(cursor, ':') {
        Some((ts, id)) => match text::parsed_u64(ts) {
            Some(updated_at) => Some((updated_at, id)),
            None => None,
        },
        None => None,
    }
}

/// The cursor that points at a session.
pub fn encode_cursor(updated_at: u64, id: &str) -> (r: String)
    ensures
        r@ == encoded_cursor(updated_at, id@),
{
    let mut out = text::decimal_string(updated_at);
    out.push(':');
    out.append(id);
    assert(out@ =~= encoded_cursor(updated_at, id@));
    out
}

/// The time and id that a cursor holds, or `None` where it is not well-formed.
pub fn decode_cursor(cursor: &str) -> (r: Option<(u64, &str)>)
    ensures
        match r {
            Some((updated_at, id)) => decoded_cursor(cursor@) == Some((updated_at, id@)),
            None => decoded_cursor(cursor@) is None,
        },
{
    let chars = text::chars_of(cursor);
    let at = text::find_char(&chars, ':');
    if at == chars.len() {
        return None;
    }
    match text::parse_u64(&chars, at) {
        Some(updated_at) => {
            let id = cursor.substring_char(at + 1, chars.len());
            assert(id@ =~= cursor@.skip(at + 1));
            Some((updated_at, id))
        },
        None => None,
    }
}

/// Whether a session comes after the one that a cursor names.
pub open spec fn comes_after(s: SummaryView, updated_at: u64, id: Seq<char>) -> bool {
    s.updated_at < updated_at || (s.updated_at == updated_at && text::lex_lt(id, s.id))
}

/// The position of the first session after the one that a cursor names, or the length of the
/// list where there is none.
pub open spec fn first_after(list: Seq<SummaryView>, updated_at: u64, id: Seq<char>) -> nat
    decreases list.len(),
{
    if list.len() == 0 || comes_after(list[0], updated_at, id) {
        0
    } else {
        1 + first_after(list.drop_first(), updated_at, id)
    }
}

/// The position at which the page of a cursor begins. A cursor that is not well-formed, or after
/// which nothing comes, gives the first page.
pub open spec fn page_start(list: Seq<SummaryView>, cursor: Option<Seq<char>>) -> int {
    match cursor {
        Some(c) => match decoded_cursor(c) {
            Some((updated_at, id)) => {
                let at = first_after(list, updated_at, id) as int;
                if at < list.len() {
                    at
                } else {
                    0
                }
            },
            None => 0,
        },
        None => 0,
    }
}

/// The position at which the page of a cursor ends.
pub open spec fn page_end(list: Seq<SummaryView>, cursor: Option<Seq<char>>) -> int {
    let full = page_start(list, cursor) + SESSION_PAGE_SIZE;
    if full < list.len() {
        full
    } else {
        list.len() as int
    }
}

/// The sessions on the page of a cursor.
pub open spec fn page(list: Seq<SummaryView>, cursor: Option<Seq<char>>) -> Seq<SummaryView> {
    list.subrange(page_start(list, cursor), page_end(list, cursor))
}

/// The cursor of the page that follows, if one does: it names the last session of this page.
pub open spec fn next_cursor(list: Seq<SummaryView>, cursor: Option<Seq<char>>) -> Option<
    Seq<char>,
> {
    if page_end(list, cursor) < list.len() {
        let last = list[page_end(list, cursor) - 1];
        Some(encoded_cursor(last.updated_at, last.id))
    } else {
        None
    }
}

/// The contents of a list of summaries.
pub open spec fn summaries(list: Seq<SessionSummary>) -> Seq<SummaryView> {
    list.map_values(|s: SessionSummary| s@)
}

/// Where a page lies in the session list, and the cursor of the next page.
#[derive(Debug)]
pub struct Page {
    pub start: usize,
    pub end: usize,
    pub next_cursor: Option<String>,
}

/// The position of the first session after the one that a cursor names.
fn position_after(list: &Vec<SessionSummary>, updated_at: u64, id: &str) -> (r: usize)
    ensures
        r == first_after(summaries(list@), updated_at, id@),
        r <= list@.len(),
{
    let ghost all = summaries(list@);
    let mut i: usize = 0;
    assert(all.skip(0) =~= all);
    while i < list.len()
        invariant
            i <= list@.len(),
            all == summaries(list@),
            first_after(all, updated_at, id@) == i + first_after(
                all.skip(i as int),
                updated_at,
                id@,
            ),
        decreases list@.len() - i,
    {
        let s = &list[i];
        assert(all.skip(i as int)[0] == s@);
        if s.updated_at < updated_at || (s.updated_at == updated_at && text::str_lt(
            id,
            s.id.as_str(),
        )) {
            return i;
        }
        assert(all.skip(i as int).drop_first() =~= all.skip(i + 1));
        i = i + 1;
    }
    i
}

/// The page of a cursor.
pub fn paginate(list: &Vec<SessionSummary>, cursor: Option<&str>) -> (r: Page)
    ensures
        r.start == page_start(summaries(list@), text::opt_str(cursor)),
        r.end == page_end(summaries(list@), text::opt_str(cursor)),
        r.start <= r.end <= list@.len(),
        text::opt_text(r.next_cursor) == next_cursor(summaries(list@), text::opt_str(cursor)),
{
    let decoded = match cursor {
        Some(c) => decode_cursor(c),
        None => None,
    };
    let start: usize = match decoded {
        Some((updated_at, id)) => {
            let at = position_after(list, updated_at, id);
            if at < list.len() {
                at
            } else {
                0
            }
        },
        None => 0,
    };
    let more = list.len() - start > SESSION_PAGE_SIZE;
    let end: usize = if more {
        start + SESSION_PAGE_SIZE
    } else {
        list.len()
    };
    let next_cursor = if more {
        let last = &list[end - 1];
        Some(encode_cursor(last.updated_at, last.id.as_str()))
    } else {
        None
    };
    Page { start, end, next_cursor }
}

/// What a listing tells the client about one session.
#[derive(Debug)]
pub struct SessionInfo {
    pub session_id: String,
    pub cwd: String,
    pub title: String,
    pub updated_at: String,
}

/// The contents of a [`SessionInfo`].
pub struct SessionInfoView {
    pub session_id: Seq<char>,
    pub cwd: Seq<char>,
    pub title: Seq<char>,
    pub updated_at: Seq<char>,
}

impl View for SessionInfo {
    type V = SessionInfoView;

    open spec fn view(&self) -> SessionInfoView {
        SessionInfoView {
            session_id: self.session_id@,
            cwd: self.cwd@,
            title: self.title@,
            updated_at: self.updated_at@,
        }
    }
}

/// What a listing says of a session, given the text of its time of last update.
pub open spec fn info_of(s: SummaryView, updated_at: Seq<char>) -> SessionInfoView {
    SessionInfoView { session_id: s.id, cwd: s.cwd, title: s.title, updated_at }
}

/// What a listing says of a session, given the text of its time of last update.
pub fn session_info(s: &SessionSummary, updated_at: String) -> (r: SessionInfo)
    ensures
        r@ == info_of(s@, updated_at@),
{
    SessionInfo {
        session_id: s.id.clone(),
        cwd: s.cwd.clone(),
        title: s.title.clone(),
        updated_at,
    }
}

/// The answer to a listing request.
#[derive(Debug)]
pub struct SessionList {
    pub sessions: Vec<SessionInfo>,
    pub next_cursor: Option<String>,
}

/// Whether a text is one that a time can have in a listing: a timestamp, or nothing where the time
/// is out of range.
pub open spec fn shows_time(text: Seq<char>) -> bool {
    text.len() == 0 || clock::is_timestamp(text)
}

/// The contents of a list of session infos.
pub open spec fn infos(list: Seq<SessionInfo>) -> Seq<SessionInfoView> {
    list.map_values(|s: SessionInfo| s@)
}

/// The answer to a listing request. `stored` is what the storage listed, in order, or `None`
/// where it failed: then the answer is an empty list.
pub fn list_sessions(stored: Option<&Vec<SessionSummary>>, cursor: Option<&str>) -> (r: SessionList)
    ensures
        match stored {
            Some(list) => {
                let all = summaries(list@);
                &&& infos(r.sessions@) == page(all, text::opt_str(cursor)).map_values(
                    |s: SummaryView| info_of(s, clock::iso8601_text(s.updated_at)),
                )
                &&& text::opt_text(r.next_cursor) == next_cursor(all, text::opt_str(cursor))
                &&& forall|i: int|
                    0 <= i < r.sessions@.len() ==> shows_time((#[trigger] r.sessions@[i])@.updated_at)
            },
            None => r.sessions@.len() == 0 && r.next_cursor is None,
        },
{
    match stored {
        Some(list) => {
            let found = paginate(list, cursor);
            let mut sessions: Vec<SessionInfo> = Vec::new();
            let mut i: usize = found.start;
            while i < found.end
                invariant
                    found.start <= i <= found.end <= list@.len(),
                    sessions@.len() == i - found.start,
                    forall|k: int|
                        0 <= k < sessions@.len() ==> (#[trigger] sessions@[k])@ == info_of(
                            list@[found.start + k]@,
                            clock::iso8601_text(list@[found.start + k].updated_at),
                        ),
                    forall|k: int|
                        0 <= k < sessions@.len() ==> shows_time(
                            (#[trigger] sessions@[k])@.updated_at,
                        ),
                decreases found.end - i,
            {
                let s = &list[i];
                sessions.push(session_info(s, clock::unix_secs_to_iso8601(s.updated_at)));
                i = i + 1;
            }
            assert(infos(sessions@) =~= page(summaries(list@), text::opt_str(cursor)).map_values(
                |s: SummaryView| info_of(s, clock::iso8601_text(s.updated_at)),
            ));
            SessionList { sessions, next_cursor: found.next_cursor }
        },
        None => SessionList { sessions: Vec::new(), next_cursor: None },
    }
}

/// Whether one id is smaller than another: after a common beginning, it ends or goes on with the
/// smaller character.
pub open spec fn smaller_id(a: Seq<char>, b: Seq<char>) -> bool {
    exists|n: int|
        0 <= n <= a.len() && n < b.len() && #[trigger] a.take(n) == b.take(n) && (n == a.len()
            || a[n] < b[n])
}

/// Whether a list is in listing order: the times never increase, and among sessions of one time
/// the ids strictly increase.
pub open spec fn in_listing_order(list: Seq<SummaryView>) -> bool {
    forall|i: int, j: int|
        #![trigger list[i], list[j]]
        0 <= i < j < list.len() ==> list[i].updated_at >= list[j].updated_at && (
        list[i].updated_at == list[j].updated_at ==> smaller_id(list[i].id, list[j].id))
}

/// A session is past a cursor exactly where it was last updated before the time of the cursor, or
/// at that time and its id is greater.
pub proof fn past_a_cursor(s: SummaryView, updated_at: u64, id: Seq<char>)
    ensures
        comes_after(s, updated_at, id) <==> s.updated_at < updated_at || (s.updated_at
            == updated_at && exists|n: int|
            0 <= n <= id.len() && n < s.id.len() && #[trigger] id.take(n) == s.id.take(n) && (n
                == id.len() || id[n] < s.id[n])),
{
    text::order_is_by_the_first_difference(id, s.id);
}

/// What a client gathers that asks for the page of `cursor` and then follows the cursors it is
/// given, over at most `turns` further pages.
pub open spec fn gathered(list: Seq<SummaryView>, cursor: Option<Seq<char>>, turns: nat) -> Seq<
    SummaryView,
>
    decreases turns,
{
    match next_cursor(list, cursor) {
        Some(next) if turns > 0 => page(list, cursor) + gathered(
            list,
            Some(next),
            (turns - 1) as nat,
        ),
        _ => page(list, cursor),
    }
}

/// A cursor that was encoded decodes to the time and the id that it was made of, whatever
/// characters the id has.
pub proof fn decode_undoes_encode(updated_at: u64, id: Seq<char>)
    ensures
        decoded_cursor(encoded_cursor(updated_at, id)) == Some((updated_at, id)),
{
    let ts = text::decimal(updated_at as nat);
    let whole = encoded_cursor(updated_at, id);
    text::parse_of_decimal(updated_at);
    text::decimal_has_only_digits(updated_at as nat);
    text::first_index_after(ts, ':', id);
    assert(whole =~= ts + seq![':'] + id);
    assert(whole.take(ts.len() as int) =~= ts);
    assert(whole.skip(ts.len() as int + 1) =~= id);
}

/// Two cursors are the same text only where they name the same time and id.
pub proof fn cursors_are_distinct(t1: u64, id1: Seq<char>, t2: u64, id2: Seq<char>)
    requires
        encoded_cursor(t1, id1) == encoded_cursor(t2, id2),
    ensures
        t1 == t2,
        id1 == id2,
{
    decode_undoes_encode(t1, id1);
    decode_undoes_encode(t2, id2);
}

/// A text that is not a cursor lists the first page, as no cursor does.
pub proof fn malformed_cursor_gives_first_page(list: Seq<SummaryView>, cursor: Seq<char>)
    requires
        decoded_cursor(cursor) is None,
    ensures
        page(list, Some(cursor)) == page(list, None),
        next_cursor(list, Some(cursor)) == next_cursor(list, None),
        page_start(list, Some(cursor)) == 0,
{
}

proof fn lemma_first_after_bounds(list: Seq<SummaryView>, updated_at: u64, id: Seq<char>)
    ensures
        first_after(list, updated_at, id) <= list.len(),
    decreases list.len(),
{
    if list.len() > 0 {
        lemma_first_after_bounds(list.drop_first(), updated_at, id);
    }
}

/// No page holds more than the page size, and a page that another follows holds exactly that many.
pub proof fn page_is_bounded(list: Seq<SummaryView>, cursor: Option<Seq<char>>)
    ensures
        page(list, cursor).len() <= SESSION_PAGE_SIZE,
        next_cursor(list, cursor) is Some ==> page(list, cursor).len() == SESSION_PAGE_SIZE,
        0 <= page_start(list, cursor) <= page_end(list, cursor) <= list.len(),
{
    if let Some(c) = cursor {
        if let Some((updated_at, id)) = decoded_cursor(c) {
            lemma_first_after_bounds(list, updated_at, id);
        }
    }
}

/// Where the first `n` sessions do not come after a cursor and session `n` does, `n` is where the
/// sessions after the cursor begin.
proof fn lemma_first_after_at(list: Seq<SummaryView>, n: int, updated_at: u64, id: Seq<char>)
    requires
        0 <= n < list.len(),
        comes_after(list[n], updated_at, id),
        forall|i: int| 0 <= i < n ==> !comes_after(#[trigger] list[i], updated_at, id),
    ensures
        first_after(list, updated_at, id) == n,
    decreases n,
{
    if n > 0 {
        let rest = list.drop_first();
        assert(!comes_after(list[0], updated_at, id));
        assert forall|i: int| 0 <= i < n - 1 implies !comes_after(
            #[trigger] rest[i],
            updated_at,
            id,
        ) by {
            assert(rest[i] == list[i + 1]);
        }
        lemma_first_after_at(rest, n - 1, updated_at, id);
    }
}

/// In a list in listing order the page of the next cursor begins right where this page ends.
pub proof fn next_page_continues(list: Seq<SummaryView>, cursor: Option<Seq<char>>)
    requires
        in_listing_order(list),
        next_cursor(list, cursor) is Some,
    ensures
        page_start(list, next_cursor(list, cursor)) == page_end(list, cursor),
{
    page_is_bounded(list, cursor);
    let n = page_end(list, cursor);
    let last = list[n - 1];
    decode_undoes_encode(last.updated_at, last.id);
    past_a_cursor(list[n], last.updated_at, last.id);
    assert(list[n - 1].updated_at >= list[n].updated_at);
    assert(comes_after(list[n], last.updated_at, last.id));
    assert forall|i: int| 0 <= i < n implies !comes_after(
        #[trigger] list[i],
        last.updated_at,
        last.id,
    ) by {
        text::lex_lt_is_irreflexive(last.id);
        text::lex_lt_is_asymmetric(last.id, list[i].id);
        if i < n - 1 {
            assert(list[i].updated_at >= list[n - 1].updated_at);
            past_a_cursor(list[n - 1], list[i].updated_at, list[i].id);
        }
    }
    lemma_first_after_at(list, n, last.updated_at, last.id);
}

proof fn lemma_gathered(list: Seq<SummaryView>, cursor: Option<Seq<char>>, turns: nat)
    requires
        in_listing_order(list),
        page_end(list, cursor) + turns * SESSION_PAGE_SIZE >= list.len(),
    ensures
        gathered(list, cursor, turns) == list.skip(page_start(list, cursor)),
    decreases turns,
{
    page_is_bounded(list, cursor);
    let start = page_start(list, cursor);
    let end = page_end(list, cursor);
    match next_cursor(list, cursor) {
        Some(next) if turns > 0 => {
            next_page_continues(list, cursor);
            page_is_bounded(list, Some(next));
            lemma_gathered(list, Some(next), (turns - 1) as nat);
            assert(list.subrange(start, end) + list.skip(end) =~= list.skip(start));
        },
        _ => {
            assert(end == list.len());
            assert(list.subrange(start, end) =~= list.skip(start));
        },
    }
}

/// A client that follows the cursors from the first page to the last receives every session of a
/// list in listing order exactly once, in that order.
pub proof fn following_cursors_gathers_all(list: Seq<SummaryView>, turns: nat)
    requires
        in_listing_order(list),
        turns * SESSION_PAGE_SIZE >= list.len(),
    ensures
        gathered(list, None, turns) == list,
{
    lemma_gathered(list, None, turns);
    assert(list.skip(0) =~= list);
}

/// Sessions that do not come after a cursor can be added in front of the list, or taken away from
/// there, without a change to what the cursor lists.
pub proof fn earlier_sessions_do_not_shift_the_page(
    earlier: Seq<SummaryView>,
    list: Seq<SummaryView>,
    updated_at: u64,
    id: Seq<char>,
)
    requires
        forall|i: int|
            0 <= i < earlier.len() ==> !comes_after(#[trigger] earlier[i], updated_at, id),
        first_after(list, updated_at, id) < list.len(),
    ensures
        page(earlier + list, Some(encoded_cursor(updated_at, id))) == page(
            list,
            Some(encoded_cursor(updated_at, id)),
        ),
        next_cursor(earlier + list, Some(encoded_cursor(updated_at, id))) == next_cursor(
            list,
            Some(encoded_cursor(updated_at, id)),
        ),
{
    let cursor = Some(encoded_cursor(updated_at, id));
    decode_undoes_encode(updated_at, id);
    lemma_first_after_behind(earlier, list, updated_at, id);
    page_is_bounded(list, cursor);
    page_is_bounded(earlier + list, cursor);
    assert(page(earlier + list, cursor) =~= page(list, cursor));
}

proof fn lemma_first_after_behind(
    earlier: Seq<SummaryView>,
    list: Seq<SummaryView>,
    updated_at: u64,
    id: Seq<char>,
)
    requires
        forall|i: int|
            0 <= i < earlier.len() ==> !comes_after(#[trigger] earlier[i], updated_at, id),
    ensures
        first_after(earlier + list, updated_at, id) == earlier.len() + first_after(
            list,
            updated_at,
            id,
        ),
    decreases earlier.len(),
{
    if earlier.len() == 0 {
        assert(earlier + list =~= list);
    } else {
        let rest = earlier.drop_first();
        assert(!comes_after(earlier[0], updated_at, id));
        assert forall|i: int| 0 <= i < rest.len() implies !comes_after(
            #[trigger] rest[i],
            updated_at,
            id,
        ) by {
            assert(rest[i] == earlier[i + 1]);
        }
        lemma_first_after_behind(rest, list, updated_at, id);
        assert((earlier + list).drop_first() =~= rest + list);
    }
}

/// A cursor is the time in decimal, a colon and the id, and a text is read as a cursor exactly
/// where it has that form, with the colon that comes first.
pub proof fn cursors_are_time_colon_id(cursor: Seq<char>, updated_at: u64, id: Seq<char>)
    ensures
        encoded_cursor(updated_at, id) == text::decimal(updated_at as nat) + ":"@ + id,
        decoded_cursor(cursor) == Some((updated_at, id)) <==> exists|time: Seq<char>|
            {
                &&& cursor == #[trigger] (time + seq![':'] + id)
                &&& !time.contains(':')
                &&& text::parsed_u64(time) == Some(updated_at)
            },
{
    reveal_strlit(":");
    assert(":"@ =~= seq![':']);
    text::split_once_is_at_the_first(cursor, ':');
    if decoded_cursor(cursor) == Some((updated_at, id)) {
        let (time, rest) = text::split_once(cursor, ':')->0;
        assert(cursor == time + seq![':'] + rest);
        assert(rest == id);
        assert(cursor == time + seq![':'] + id);
    }
    if exists|time: Seq<char>|
        {
            &&& cursor == #[trigger] (time + seq![':'] + id)
            &&& !time.contains(':')
            &&& text::parsed_u64(time) == Some(updated_at)
        } {
        let time = choose|time: Seq<char>|
            {
                &&& cursor == #[trigger] (time + seq![':'] + id)
                &&& !time.contains(':')
                &&& text::parsed_u64(time) == Some(updated_at)
            };
        assert(text::split_once(cursor, ':') == Some((time, id)));
    }
}

/// The page of a cursor begins with the first session that was updated before the time of the
/// cursor, or at that time under a greater id. Without such a session, and without a cursor, the
/// page is the first.
pub proof fn pages_begin_past_the_cursor(
    list: Seq<SummaryView>,
    cursor: Seq<char>,
    updated_at: u64,
    id: Seq<char>,
    n: int,
)
    requires
        decoded_cursor(cursor) == Some((updated_at, id)),
        0 <= n <= list.len(),
        forall|i: int|
            0 <= i < n ==> (#[trigger] list[i]).updated_at > updated_at || (list[i].updated_at
                == updated_at && !text::lex_lt(id, list[i].id)),
        n < list.len() ==> list[n].updated_at < updated_at || (list[n].updated_at == updated_at
            && text::lex_lt(id, list[n].id)),
    ensures
        page_start(list, Some(cursor)) == if n < list.len() {
            n
        } else {
            0
        },
        page_start(list, None) == 0,
{
    if n < list.len() {
        lemma_first_after_at(list, n, updated_at, id);
    } else {
        lemma_first_after_none(list, updated_at, id);
    }
}

proof fn lemma_first_after_none(list: Seq<SummaryView>, updated_at: u64, id: Seq<char>)
    requires
        forall|i: int| 0 <= i < list.len() ==> !comes_after(#[trigger] list[i], updated_at, id),
    ensures
        first_after(list, updated_at, id) == list.len(),
    decreases list.len(),
{
    if list.len() > 0 {
        let rest = list.drop_first();
        assert(!comes_after(list[0], updated_at, id));
        assert forall|i: int| 0 <= i < rest.len() implies !comes_after(
            #[trigger] rest[i],
            updated_at,
            id,
        ) by {
            assert(rest[i] == list[i + 1]);
        }
        lemma_first_after_none(rest, updated_at, id);
    }
}

/// A page holds the sessions from where it begins, one after the other, up to fifty of them. It
/// has a next cursor exactly where more than fifty are left, and that names its last session by
/// time and id.
pub proof fn pages_hold_the_next_fifty(list: Seq<SummaryView>, cursor: Option<Seq<char>>)
    ensures
        ({
            let start = page_start(list, cursor);
            let left = list.len() - start;
            let shown = page(list, cursor);
            &&& 0 <= start <= list.len()
            &&& shown.len() == if left > 50 {
                50
            } else {
                left
            }
            &&& forall|k: int| 0 <= k < shown.len() ==> #[trigger] shown[k] == list[start + k]
            &&& next_cursor(list, cursor) is Some <==> left > 50
            &&& left > 50 ==> next_cursor(list, cursor) == Some(
                text::decimal(list[start + 49].updated_at as nat) + ":"@ + list[start + 49].id,
            )
        }),
{
    page_is_bounded(list, cursor);
    let end = page_end(list, cursor);
    if end < list.len() {
        cursors_are_time_colon_id(seq![], list[end - 1].updated_at, list[end - 1].id);
    }
}

/// What a listing says of a session is the id, the directory and the title of the session and the
/// text of its time. The contents of lists are those of their items one by one.
pub proof fn listings_tell_what_is_stored(
    summary: SessionSummary,
    info: SessionInfo,
    stored: Seq<SessionSummary>,
    told: Seq<SessionInfo>,
    updated_at: Seq<char>,
)
    ensures
        summary@.id == summary.id@,
        summary@.title == summary.title@,
        summary@.cwd == summary.cwd@,
        summary@.updated_at == summary.updated_at,
        info@.session_id == info.session_id@,
        info@.cwd == info.cwd@,
        info@.title == info.title@,
        info@.updated_at == info.updated_at@,
        info_of(summary@, updated_at).session_id == summary.id@,
        info_of(summary@, updated_at).cwd == summary.cwd@,
        info_of(summary@, updated_at).title == summary.title@,
        info_of(summary@, updated_at).updated_at == updated_at,
        summaries(stored).len() == stored.len(),
        forall|i: int| 0 <= i < stored.len() ==> #[trigger] summaries(stored)[i] == stored[i]@,
        infos(told).len() == told.len(),
        forall|i: int| 0 <= i < told.len() ==> #[trigger] infos(told)[i] == told[i]@,
{
}

} // verus!
