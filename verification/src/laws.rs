//! What holds of the server as a whole, proved from the definitions in the
//! other modules: of single commands, of request lines, of the requests of
//! one session taken together, and of sessions that run side by side.

use crate::command::{is_known_name, CommandType};
use crate::dispatch::{
    reply_to, response_to, set_key, set_value, store_after, store_after_request,
    EMPTY_REQUEST_REPLY, NEWLINE, NOT_FOUND_REPLY, SUCCESS_REPLY, UNKNOWN_COMMAND_REPLY,
    VALUE_PREFIX,
};
use crate::session::{
    action_on, is_end_of_input, is_request, session_after, wire_text, ActionView, EventView,
    SessionState, SessionView,
};
use crate::text::{
    after_space, before_space, has_no_space, is_not_space, is_quoted, lemma_joined_splits,
    lemma_trimmed_has_clean_ends, trimmed, unquoted,
};
use vstd::prelude::*;
use vstd::utf8::encode_utf8;

verus! {

// Commands

/// The argument of a `SET` that binds `key` to `value`: the two with one
/// space between them.
pub open spec fn set_argument(key: Seq<char>, value: Seq<char>) -> Seq<char> {
    key + seq![' '] + value
}

/// `GET` of a key right after `SET` of that key replies with the value that
/// was set, without the quotes that wrapped it, and leaves the store as `SET`
/// left it. The key holds no space: a `SET` takes what stands before the
/// first space as its key.
pub proof fn lemma_get_after_set(
    store: Map<Seq<char>, Seq<char>>,
    key: Seq<char>,
    value: Seq<char>,
)
    requires
        has_no_space(key),
    ensures
        ({
            let written = store_after(CommandType::SET, set_argument(key, value), store);
            &&& reply_to(CommandType::GET, key, written) == VALUE_PREFIX@ + unquoted(value)
                + NEWLINE@
            &&& !is_quoted(value) ==> reply_to(CommandType::GET, key, written) == VALUE_PREFIX@
                + value + NEWLINE@
            &&& store_after(CommandType::GET, key, written) == written
        }),
{
    lemma_joined_splits(key, value);
}

/// Of two `SET` of one key the second one counts: `GET` replies with its
/// value, and the store is as if the first had never run.
pub proof fn lemma_set_overwrites(
    store: Map<Seq<char>, Seq<char>>,
    key: Seq<char>,
    first: Seq<char>,
    second: Seq<char>,
)
    requires
        has_no_space(key),
    ensures
        ({
            let once = store_after(CommandType::SET, set_argument(key, first), store);
            let twice = store_after(CommandType::SET, set_argument(key, second), once);
            &&& reply_to(CommandType::GET, key, twice) == VALUE_PREFIX@ + unquoted(second)
                + NEWLINE@
            &&& !is_quoted(second) ==> reply_to(CommandType::GET, key, twice) == VALUE_PREFIX@
                + second + NEWLINE@
            &&& twice == store_after(CommandType::SET, set_argument(key, second), store)
        }),
{
    lemma_joined_splits(key, first);
    lemma_joined_splits(key, second);
    let once = store_after(CommandType::SET, set_argument(key, first), store);
    let twice = store_after(CommandType::SET, set_argument(key, second), once);
    assert(twice =~= store_after(CommandType::SET, set_argument(key, second), store));
}

/// `GET` of a key that the store does not bind replies that it was not
/// found, and binds nothing.
pub proof fn lemma_get_unbound(store: Map<Seq<char>, Seq<char>>, data: Seq<char>)
    requires
        !store.contains_key(unquoted(data)),
    ensures
        reply_to(CommandType::GET, data, store) == NOT_FOUND_REPLY@,
        store_after(CommandType::GET, data, store) == store,
{
}

/// A command name that is not known gets the fixed reply for an unknown
/// command, whatever its argument, and the store stays as it is.
pub proof fn lemma_unknown_command(
    name: Seq<char>,
    data: Seq<char>,
    store: Map<Seq<char>, Seq<char>>,
)
    requires
        !is_known_name(name),
    ensures
        CommandType::of_name(name) == CommandType::ERROR,
        reply_to(CommandType::of_name(name), data, store) == UNKNOWN_COMMAND_REPLY@,
        store_after(CommandType::of_name(name), data, store) == store,
{
}

// Request lines

/// The request line that sets `key` to `value`.
pub open spec fn set_line(key: Seq<char>, value: Seq<char>) -> Seq<char> {
    "SET"@ + seq![' '] + set_argument(key, value)
}

/// The request line that gets `key`.
pub open spec fn get_line(key: Seq<char>) -> Seq<char> {
    "GET"@ + seq![' '] + key
}

/// A request that reads, white space at its ends apart, as the line that
/// sets `key` to `value` binds the key to the value, each without the quotes
/// that wrap it, and gets the reply for success.
pub proof fn lemma_set_line_binds(
    request: Seq<char>,
    key: Seq<char>,
    value: Seq<char>,
    store: Map<Seq<char>, Seq<char>>,
)
    requires
        trimmed(request) == set_line(key, value),
        has_no_space(key),
    ensures
        response_to(request, store) == SUCCESS_REPLY@,
        store_after_request(request, store) == store.insert(unquoted(key), unquoted(value)),
{
    reveal_strlit("SET");
    reveal_strlit("PING");
    reveal_strlit("WHAT");
    reveal_strlit("ECHO");
    assert(has_no_space("SET"@)) by {
        assert forall|i: int| 0 <= i < "SET"@.len() implies is_not_space(#[trigger] "SET"@[i]) by {}
    }
    lemma_joined_splits("SET"@, set_argument(key, value));
    lemma_joined_splits(key, value);
}

/// A request that reads, white space at its ends apart, as the line that
/// gets `key` is answered from the store: with the value that the key is
/// bound to, the quotes that wrap the key apart, or that it was not found.
/// The store stays as it is.
pub proof fn lemma_get_line_looks_up(
    request: Seq<char>,
    key: Seq<char>,
    store: Map<Seq<char>, Seq<char>>,
)
    requires
        trimmed(request) == get_line(key),
    ensures
        store.contains_key(unquoted(key)) ==> response_to(request, store) == VALUE_PREFIX@
            + store[unquoted(key)] + NEWLINE@,
        !store.contains_key(unquoted(key)) ==> response_to(request, store) == NOT_FOUND_REPLY@,
        store_after_request(request, store) == store,
{
    reveal_strlit("GET");
    reveal_strlit("SET");
    reveal_strlit("PING");
    reveal_strlit("WHAT");
    reveal_strlit("ECHO");
    assert(has_no_space("GET"@)) by {
        assert forall|i: int| 0 <= i < "GET"@.len() implies is_not_space(#[trigger] "GET"@[i]) by {}
    }
    assert("GET"@[0] != "SET"@[0]);
    lemma_joined_splits("GET"@, key);
}

/// Within one session, the request that gets a key right after the request
/// that set it is answered with the value that was set, without the quotes
/// that wrapped it.
pub proof fn lemma_get_line_after_set_line(
    store: Map<Seq<char>, Seq<char>>,
    set_request: Seq<char>,
    get_request: Seq<char>,
    key: Seq<char>,
    value: Seq<char>,
)
    requires
        trimmed(set_request) == set_line(key, value),
        trimmed(get_request) == get_line(key),
        has_no_space(key),
    ensures
        response_to(get_request, store_after_request(set_request, store)) == VALUE_PREFIX@
            + unquoted(value) + NEWLINE@,
        !is_quoted(value) ==> response_to(get_request, store_after_request(set_request, store))
            == VALUE_PREFIX@ + value + NEWLINE@,
{
    lemma_set_line_binds(set_request, key, value, store);
    lemma_get_line_looks_up(get_request, key, store_after_request(set_request, store));
}

/// Within one session, of two requests that set one key the second one
/// counts: the request that gets the key is answered with its value.
pub proof fn lemma_set_line_overwrites(
    store: Map<Seq<char>, Seq<char>>,
    first_request: Seq<char>,
    second_request: Seq<char>,
    get_request: Seq<char>,
    key: Seq<char>,
    first: Seq<char>,
    second: Seq<char>,
)
    requires
        trimmed(first_request) == set_line(key, first),
        trimmed(second_request) == set_line(key, second),
        trimmed(get_request) == get_line(key),
        has_no_space(key),
    ensures
        ({
            let once = store_after_request(first_request, store);
            let twice = store_after_request(second_request, once);
            &&& response_to(get_request, twice) == VALUE_PREFIX@ + unquoted(second) + NEWLINE@
            &&& !is_quoted(second) ==> response_to(get_request, twice) == VALUE_PREFIX@ + second
                + NEWLINE@
        }),
{
    let once = store_after_request(first_request, store);
    lemma_set_line_binds(first_request, key, first, store);
    lemma_set_line_binds(second_request, key, second, once);
    lemma_get_line_looks_up(get_request, key, store_after_request(second_request, once));
}

/// A request line whose first word is no known command name gets the fixed
/// reply for an unknown command, and the store stays as it is.
pub proof fn lemma_unknown_request(request: Seq<char>, store: Map<Seq<char>, Seq<char>>)
    requires
        trimmed(request).len() > 0,
        !is_known_name(before_space(trimmed(request))),
    ensures
        response_to(request, store) == UNKNOWN_COMMAND_REPLY@,
        store_after_request(request, store) == store,
{
}

/// A request line that holds nothing, or nothing but white space, gets the
/// fixed reply for an empty request, and the store stays as it is.
pub proof fn lemma_empty_request(request: Seq<char>, store: Map<Seq<char>, Seq<char>>)
    requires
        trimmed(request).len() == 0,
    ensures
        response_to(request, store) == EMPTY_REQUEST_REPLY@,
        store_after_request(request, store) == store,
{
}

/// The line without any character is an empty request.
pub proof fn lemma_empty_line_is_empty_request(store: Map<Seq<char>, Seq<char>>)
    ensures
        response_to(Seq::<char>::empty(), store) == EMPTY_REQUEST_REPLY@,
        store_after_request(Seq::<char>::empty(), store) == store,
{
}

// The requests of one session

/// Whether the request line `request` is a `SET` that binds `key`.
pub open spec fn request_writes(request: Seq<char>, key: Seq<char>) -> bool {
    let line = trimmed(request);
    &&& line.len() > 0
    &&& CommandType::of_name(before_space(line)) == CommandType::SET
    &&& set_key(after_space(line)) == key
}

/// The store of a session that began empty and ran `requests` in order.
pub open spec fn store_after_all(requests: Seq<Seq<char>>) -> Map<Seq<char>, Seq<char>>
    decreases requests.len(),
{
    if requests.len() == 0 {
        Map::empty()
    } else {
        store_after_request(requests.last(), store_after_all(requests.drop_last()))
    }
}

/// The store of a session binds exactly the keys that its requests wrote.
pub proof fn lemma_bound_keys_were_written(requests: Seq<Seq<char>>, key: Seq<char>)
    ensures
        store_after_all(requests).contains_key(key) <==> exists|i: int|
            0 <= i < requests.len() && request_writes(#[trigger] requests[i], key),
    decreases requests.len(),
{
    if requests.len() > 0 {
        let earlier = requests.drop_last();
        lemma_bound_keys_were_written(earlier, key);
        if store_after_all(requests).contains_key(key) {
            if request_writes(requests.last(), key) {
                assert(request_writes(requests[requests.len() - 1], key));
            } else {
                assert(store_after_all(earlier).contains_key(key));
                let i = choose|i: int|
                    0 <= i < earlier.len() && request_writes(#[trigger] earlier[i], key);
                assert(request_writes(requests[i], key));
            }
        }
        if exists|i: int| 0 <= i < requests.len() && request_writes(#[trigger] requests[i], key) {
            let i = choose|i: int|
                0 <= i < requests.len() && request_writes(#[trigger] requests[i], key);
            if i < requests.len() - 1 {
                assert(request_writes(earlier[i], key));
            }
        }
    }
}

/// `GET` of a key that no request of the session wrote replies that it was
/// not found, as a command and as a request line.
pub proof fn lemma_get_never_written(
    requests: Seq<Seq<char>>,
    key: Seq<char>,
    get_request: Seq<char>,
)
    requires
        forall|i: int|
            0 <= i < requests.len() ==> !request_writes(#[trigger] requests[i], unquoted(key)),
        trimmed(get_request) == get_line(key),
    ensures
        reply_to(CommandType::GET, key, store_after_all(requests)) == NOT_FOUND_REPLY@,
        response_to(get_request, store_after_all(requests)) == NOT_FOUND_REPLY@,
{
    lemma_bound_keys_were_written(requests, unquoted(key));
    lemma_get_line_looks_up(get_request, key, store_after_all(requests));
}

/// The value that the request line `request` binds its key to, where it is
/// a `SET`.
pub open spec fn written_value(request: Seq<char>) -> Seq<char> {
    set_value(after_space(trimmed(request)))
}

/// The last write counts: a key that a request of the session wrote is bound
/// to the value of the last request that wrote it.
pub proof fn lemma_store_holds_the_last_write(requests: Seq<Seq<char>>, key: Seq<char>, last: int)
    requires
        0 <= last < requests.len(),
        request_writes(requests[last], key),
        forall|i: int| last < i < requests.len() ==> !request_writes(#[trigger] requests[i], key),
    ensures
        store_after_all(requests).contains_key(key),
        store_after_all(requests)[key] == written_value(requests[last]),
    decreases requests.len(),
{
    let earlier = requests.drop_last();
    if last < requests.len() - 1 {
        assert(!request_writes(requests[requests.len() - 1], key));
        assert(earlier[last] == requests[last]);
        assert forall|i: int| last < i < earlier.len() implies !request_writes(
            #[trigger] earlier[i],
            key,
        ) by {
            assert(earlier[i] == requests[i]);
        }
        lemma_store_holds_the_last_write(earlier, key, last);
    }
}

// Sessions

/// A read that returns no bytes closes the session: nothing is written, and
/// the store stays as it is.
pub proof fn lemma_no_bytes_close_the_session(pre: SessionView, event: EventView)
    requires
        is_end_of_input(event),
    ensures
        session_after(pre, event).state == SessionState::Closed,
        session_after(pre, event).store == pre.store,
        action_on(pre, event) == ActionView::Stop,
{
}

/// A closed session stays closed: on any event it asks to stop, writes
/// nothing and leaves its store as it is.
pub proof fn lemma_closed_is_final(pre: SessionView, event: EventView)
    requires
        pre.state == SessionState::Closed,
    ensures
        session_after(pre, event) == pre,
        action_on(pre, event) == ActionView::Stop,
{
}

/// A failed read or write closes the session, whatever its state, and
/// nothing is written.
pub proof fn lemma_failure_closes_the_session(pre: SessionView, event: EventView)
    requires
        event == EventView::ReadFailed || event == EventView::WriteFailed,
    ensures
        session_after(pre, event).state == SessionState::Closed,
        session_after(pre, event).store == pre.store,
        action_on(pre, event) == ActionView::Stop,
{
}

/// A session that waits for a request and receives the UTF-8 encoding of a
/// line runs that line: it asks to write the reply to it and holds the store
/// that the line leaves behind.
pub proof fn lemma_session_runs_encoded_line(pre: SessionView, line: Seq<char>)
    requires
        pre.state == SessionState::AwaitingRequest,
        line.len() > 0,
    ensures
        ({
            let event = EventView::Received(encode_utf8(line));
            &&& action_on(pre, event) == ActionView::Write(response_to(line, pre.store))
            &&& session_after(pre, event).state == SessionState::Processing
            &&& session_after(pre, event).store == store_after_request(line, pre.store)
        }),
{
    vstd::utf8::encode_utf8_valid_utf8(line);
    vstd::utf8::encode_utf8_decode_utf8(line);
    if encode_utf8(line).len() == 0 {
        assert(vstd::utf8::decode_utf8(encode_utf8(line)).len() == 0);
    }
}

/// The session that follows `pre` on `events`, one after the other.
pub open spec fn session_after_all(pre: SessionView, events: Seq<EventView>) -> SessionView
    decreases events.len(),
{
    if events.len() == 0 {
        pre
    } else {
        session_after(session_after_all(pre, events.drop_last()), events.last())
    }
}

/// The request lines that a session ran on `events`, in order: the text of
/// each chunk of bytes that came while it waited for a request.
pub open spec fn requests_in(pre: SessionView, events: Seq<EventView>) -> Seq<Seq<char>>
    decreases events.len(),
{
    if events.len() == 0 {
        Seq::empty()
    } else {
        let earlier = events.drop_last();
        match events.last() {
            EventView::Received(bytes) if is_request(
                session_after_all(pre, earlier).state,
                events.last(),
            ) => requests_in(pre, earlier).push(wire_text(bytes)),
            _ => requests_in(pre, earlier),
        }
    }
}

/// The store of a session that began with an empty store is the one that
/// its request lines built, whatever else happened on the connection.
pub proof fn lemma_session_store_is_built_by_requests(pre: SessionView, events: Seq<EventView>)
    requires
        pre.store == Map::<Seq<char>, Seq<char>>::empty(),
    ensures
        session_after_all(pre, events).store == store_after_all(requests_in(pre, events)),
    decreases events.len(),
{
    if events.len() > 0 {
        let earlier = events.drop_last();
        lemma_session_store_is_built_by_requests(pre, earlier);
        if is_request(session_after_all(pre, earlier).state, events.last()) {
            assert(requests_in(pre, events).drop_last() =~= requests_in(pre, earlier));
        }
    }
}

/// A session that began with an empty store and waits for a request, asked
/// for a key that none of its requests wrote, replies that it was not found.
pub proof fn lemma_session_get_never_written(
    pre: SessionView,
    events: Seq<EventView>,
    key: Seq<char>,
    get_request: Seq<char>,
)
    requires
        pre.store == Map::<Seq<char>, Seq<char>>::empty(),
        session_after_all(pre, events).state == SessionState::AwaitingRequest,
        forall|i: int|
            0 <= i < requests_in(pre, events).len() ==> !request_writes(
                #[trigger] requests_in(pre, events)[i],
                unquoted(key),
            ),
        trimmed(get_request) == get_line(key),
    ensures
        action_on(session_after_all(pre, events), EventView::Received(encode_utf8(get_request)))
            == ActionView::Write(NOT_FOUND_REPLY@),
{
    let now = session_after_all(pre, events);
    lemma_session_store_is_built_by_requests(pre, events);
    lemma_get_never_written(requests_in(pre, events), key, get_request);
    lemma_trimmed_has_clean_ends(get_request);
    lemma_session_runs_encoded_line(now, get_request);
}

/// An event for one of two sessions that run side by side.
pub struct Turn {
    /// Whether the event is for the first session of the two.
    pub first: bool,
    /// What happened on that session's connection.
    pub event: EventView,
}

/// Two sessions after `turns`, each turn taken by the session it is for.
pub open spec fn pair_after(a: SessionView, b: SessionView, turns: Seq<Turn>) -> (
    SessionView,
    SessionView,
)
    decreases turns.len(),
{
    if turns.len() == 0 {
        (a, b)
    } else {
        let (a0, b0) = pair_after(a, b, turns.drop_last());
        let turn = turns.last();
        if turn.first {
            (session_after(a0, turn.event), b0)
        } else {
            (a0, session_after(b0, turn.event))
        }
    }
}

/// The events among `turns` that are for the first session, or for the
/// second, in their order.
pub open spec fn events_for(turns: Seq<Turn>, first: bool) -> Seq<EventView>
    decreases turns.len(),
{
    if turns.len() == 0 {
        Seq::empty()
    } else if turns.last().first == first {
        events_for(turns.drop_last(), first).push(turns.last().event)
    } else {
        events_for(turns.drop_last(), first)
    }
}

/// Sessions do not share state: where two sessions run side by side, in any
/// interleaving, each ends as if it had run alone on its own events. What
/// one writes under a key the other never sees.
pub proof fn lemma_sessions_are_isolated(a: SessionView, b: SessionView, turns: Seq<Turn>)
    ensures
        pair_after(a, b, turns).0 == session_after_all(a, events_for(turns, true)),
        pair_after(a, b, turns).1 == session_after_all(b, events_for(turns, false)),
    decreases turns.len(),
{
    if turns.len() > 0 {
        let earlier = turns.drop_last();
        lemma_sessions_are_isolated(a, b, earlier);
        let turn = turns.last();
        let own = events_for(earlier, turn.first).push(turn.event);
        assert(own.drop_last() =~= events_for(earlier, turn.first));
        assert(own.last() == turn.event);
    }
}

/// A session reads its own value back, whatever another session does
/// meanwhile: where the first of two sessions ran the request that sets a key
/// and its reply was written, and the second took any events at all, before,
/// between or after, the first is answered with the value that it set when it
/// asks for the key.
pub proof fn lemma_session_reads_its_own_value(
    a: SessionView,
    b: SessionView,
    turns: Seq<Turn>,
    set_request: Seq<char>,
    get_request: Seq<char>,
    key: Seq<char>,
    value: Seq<char>,
)
    requires
        a.state == SessionState::AwaitingRequest,
        events_for(turns, true) == seq![
            EventView::Received(encode_utf8(set_request)),
            EventView::ReplyWritten,
        ],
        trimmed(set_request) == set_line(key, value),
        trimmed(get_request) == get_line(key),
        has_no_space(key),
    ensures
        action_on(pair_after(a, b, turns).0, EventView::Received(encode_utf8(get_request)))
            == ActionView::Write(VALUE_PREFIX@ + unquoted(value) + NEWLINE@),
{
    let set_event = EventView::Received(encode_utf8(set_request));
    let own = seq![set_event, EventView::ReplyWritten];
    lemma_sessions_are_isolated(a, b, turns);
    lemma_trimmed_has_clean_ends(set_request);
    lemma_trimmed_has_clean_ends(get_request);
    lemma_session_runs_encoded_line(a, set_request);
    let written = session_after(a, set_event);
    let waiting = session_after(written, EventView::ReplyWritten);
    assert(session_after_all(a, own) == waiting) by {
        assert(own.drop_last() =~= seq![set_event]);
        assert(own.drop_last().drop_last() =~= Seq::<EventView>::empty());
        reveal_with_fuel(session_after_all, 3);
    }
    lemma_set_line_binds(set_request, key, value, a.store);
    lemma_get_line_looks_up(get_request, key, waiting.store);
    lemma_session_runs_encoded_line(waiting, get_request);
}

} // verus!
