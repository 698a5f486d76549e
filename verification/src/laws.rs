//! Properties that relate the operations of the library to one another.
use vstd::prelude::*;
use crate::endian::{lemma_read_back, native_bytes, read_u32};
use crate::events::{register_model, send_model, take_model, EventsModel};
use crate::invocation::{answer_model, no_call_pending, poll_written, InvocationModel};
use crate::log::{drain_model, line_bytes, log_wf, write_ok, LogModel, LOG_HEADER_SIZE};
use crate::registry::{entry_text, prelude_marker, prelude_text};
use crate::text::{decimal, digits_value, is_ascii_digit, lemma_decimal_reads_back, occurs_at, replace_all};

verus! {

/// The queue after sending the events `evs` (event type, data) one by one.
pub open spec fn send_all(q: EventsModel, evs: Seq<(Seq<char>, Seq<char>)>) -> EventsModel
    decreases evs.len(),
{
    if evs.len() == 0 {
        q
    } else {
        let last = evs.last();
        send_model(send_all(q, evs.drop_last()), last.0, last.1)
    }
}

/// Events reach the script in the order in which they were sent, each under
/// the callback slot of its type, and collecting them empties the queue and
/// keeps the registrations.
pub proof fn lemma_events_in_send_order(q: EventsModel, evs: Seq<(Seq<char>, Seq<char>)>)
    requires
        forall|i: int| 0 <= i < evs.len() ==> q.callbacks.contains_key(#[trigger] evs[i].0),
    ensures
        send_all(q, evs).callbacks == q.callbacks,
        send_all(q, evs).pending == q.pending + evs.map_values(
            |e: (Seq<char>, Seq<char>)| (q.callbacks[e.0], e.1),
        ),
        take_model(send_all(q, evs)).pending.len() == 0,
        take_model(send_all(q, evs)).callbacks == q.callbacks,
    decreases evs.len(),
{
    let f = |e: (Seq<char>, Seq<char>)| (q.callbacks[e.0], e.1);
    if evs.len() == 0 {
        assert(q.pending + evs.map_values(f) =~= q.pending);
    } else {
        let init = evs.drop_last();
        assert forall|i: int| 0 <= i < init.len() implies q.callbacks.contains_key(
            #[trigger] init[i].0,
        ) by {
            assert(init[i] == evs[i]);
        }
        lemma_events_in_send_order(q, init);
        assert(evs.map_values(f) =~= init.map_values(f).push(f(evs.last())));
        assert(q.pending + evs.map_values(f) =~= (q.pending + init.map_values(f)).push(
            f(evs.last()),
        ));
    }
}

/// An event sent after its type was registered is queued under the slot
/// given at registration, and registration leaves pending events alone.
pub proof fn lemma_send_uses_registered_slot(
    q: EventsModel,
    event_type: Seq<char>,
    index: u8,
    data: Seq<char>,
)
    ensures
        register_model(q, event_type, index).pending == q.pending,
        send_model(register_model(q, event_type, index), event_type, data).pending == q.pending.push(
            (index, data),
        ),
{
}

/// Registering a type again replaces the earlier slot.
pub proof fn lemma_register_again_replaces(q: EventsModel, t: Seq<char>, first: u8, second: u8)
    ensures
        register_model(register_model(q, t, first), t, second) == register_model(q, t, second),
{
    assert(q.callbacks.insert(t, first).insert(t, second) =~= q.callbacks.insert(t, second));
}

/// The host's answer keeps the call state idle: no call pending, nothing
/// waited for, and the answer kept. Since the call state also starts idle,
/// every state reached through this library is idle.
pub proof fn lemma_answer_keeps_no_call(m: InvocationModel, result: Seq<char>)
    ensures
        no_call_pending(answer_model(m, result)),
        answer_model(m, result).result == result,
{
}

/// With no call pending, polling writes only the first byte of the poll
/// buffer, to 0.
pub proof fn lemma_idle_poll_writes_zero(m: InvocationModel, old_buf: Seq<u8>, new_buf: Seq<u8>)
    requires
        no_call_pending(m),
        poll_written(old_buf, new_buf, m),
    ensures
        new_buf == old_buf.update(0, 0u8),
{
}

/// A logged line is in what the host drains next: right behind the text
/// logged before it, with the header holding the new length.
pub proof fn lemma_logged_line_is_drained(old: LogModel, new: LogModel, txt: Seq<char>)
    requires
        log_wf(old),
        write_ok(old, new, txt),
    ensures
        new.bytes.subrange(
            LOG_HEADER_SIZE + old.used,
            LOG_HEADER_SIZE + old.used + line_bytes(txt).len(),
        ) == line_bytes(txt),
        native_bytes(new.bytes.subrange(0, 4), (old.used + line_bytes(txt).len()) as u32),
        new.bytes.subrange(4, LOG_HEADER_SIZE + old.used) == old.bytes.subrange(
            4,
            LOG_HEADER_SIZE + old.used,
        ),
{
    let u = old.used as int;
    let n = line_bytes(txt).len() as int;
    let body = new.bytes.subrange(4, 4096);
    assert(new.bytes.subrange(4 + u, 4 + u + n) =~= body.subrange(u, u + n));
    assert(new.bytes.subrange(4, 4 + u) =~= body.subrange(0, u));
}

/// The header of a well-formed log, read in the log's byte order, is the
/// length of the text it holds; its bytes are that length in little- or
/// big-endian order.
pub proof fn lemma_log_header_reads_length(m: LogModel)
    requires
        log_wf(m),
    ensures
        read_u32(m.little_endian, m.bytes.subrange(0, 4)) == m.used,
        native_bytes(m.bytes.subrange(0, 4), m.used as u32),
{
    lemma_read_back(m.little_endian, m.used as u32);
}

/// Logging and draining never change the byte order of the header: after
/// each write the header, read in the order the buffer had before, is the
/// old length plus the line's, and after a drain it reads 0.
pub proof fn lemma_log_keeps_byte_order(old: LogModel, new: LogModel, txt: Seq<char>)
    requires
        log_wf(old),
        write_ok(old, new, txt),
    ensures
        new.little_endian == old.little_endian,
        read_u32(old.little_endian, new.bytes.subrange(0, 4)) == old.used + line_bytes(txt).len(),
        drain_model(new).little_endian == old.little_endian,
        read_u32(old.little_endian, drain_model(new).bytes.subrange(0, 4)) == 0,
{
    lemma_read_back(new.little_endian, new.used as u32);
    let d = drain_model(new);
    assert(d.bytes.subrange(0, 4) =~= seq![0u8, 0u8, 0u8, 0u8]);
}

/// In a prelude entry the id stands, right after the quoted name, as a
/// base-10 numeral of ASCII digits that reads back as the registered id,
/// and a comma follows it.
pub proof fn lemma_entry_id_reads_back(id: u32, name: Seq<char>, is_constructor: bool)
    ensures
        ({
            let e = entry_text(id, name, is_constructor);
            let start = name.len() + 5;
            let end = start + decimal(id as nat).len();
            &&& e.subrange(0, start as int) == seq!['[', '\''] + name + seq!['\'', ',', ' ']
            &&& digits_value(e.subrange(start as int, end as int)) == id
            &&& forall|i: int| start <= i < end ==> is_ascii_digit(#[trigger] e[i])
            &&& e[end as int] == ','
        }),
{
    lemma_decimal_reads_back(id as nat);
    let e = entry_text(id, name, is_constructor);
    let start = name.len() + 5;
    let dlen = decimal(id as nat).len();
    let end = start + dlen;
    assert(e.subrange(0, start as int) =~= seq!['[', '\''] + name + seq!['\'', ',', ' ']);
    assert(e.subrange(start as int, end as int) =~= decimal(id as nat));
    assert forall|i: int| start <= i < end implies is_ascii_digit(#[trigger] e[i]) by {
        assert(e[i] == decimal(id as nat)[i - start]);
    }
}

/// After a drain the log starts over: the next line lands right behind the
/// header.
pub proof fn lemma_drain_restarts_log(old: LogModel, new: LogModel, txt: Seq<char>)
    requires
        log_wf(old),
        write_ok(drain_model(old), new, txt),
    ensures
        drain_model(old).used == 0,
        new.used == line_bytes(txt).len(),
        new.bytes.subrange(4, 4 + line_bytes(txt).len() as int) == line_bytes(txt),
{
    let n = line_bytes(txt).len() as int;
    let body = new.bytes.subrange(4, 4096);
    assert(new.bytes.subrange(4, 4 + n) =~= body.subrange(0, n));
}

/// Text in which the pattern never occurs is left unchanged by replacement.
pub proof fn lemma_replace_absent(s: Seq<char>, pat: Seq<char>, rep: Seq<char>)
    requires
        pat.len() > 0,
        forall|i: int| !occurs_at(s, pat, i),
    ensures
        replace_all(s, pat, rep) == s,
    decreases s.len(),
{
    if s.len() > 0 {
        let rest = s.subrange(1, s.len() as int);
        assert(!occurs_at(s, pat, 0));
        assert forall|i: int| !occurs_at(rest, pat, i) by {
            if occurs_at(rest, pat, i) {
                assert(s.subrange(i + 1, i + 1 + pat.len()) =~= rest.subrange(i, i + pat.len()));
                assert(occurs_at(s, pat, i + 1));
            }
        }
        lemma_replace_absent(rest, pat, rep);
        assert(seq![s[0]] + rest =~= s);
    }
}

/// A raw prelude without the placeholder comes back unchanged, whatever is
/// registered.
pub proof fn lemma_prelude_without_marker(
    raw: Seq<char>,
    order: Seq<u32>,
    m: Map<u32, (Seq<char>, bool)>,
)
    requires
        forall|i: int| !occurs_at(raw, prelude_marker(), i),
    ensures
        prelude_text(raw, order, m) == raw,
{
    reveal_strlit("/** will be populated before it runs */");
    lemma_replace_absent(raw, prelude_marker(), crate::registry::entries_text(order, m));
}

} // verus!
