//! Reading a `text/event-stream` body: the data of each event, in order.
//!
//! Lines end with CRLF, CR or LF. A line holds a field, `name: value` (one
//! space after the colon is dropped; a line without a colon is a name with
//! an empty value), and a line starting with a colon is a comment. The
//! `data` lines of an event are joined with LF, and a blank line ends the
//! event; an event without `data` lines carries none and is skipped.
use vstd::prelude::*;

use crate::text::{
    before, decimal, decimal_string, owned, push_str, before_chars, chars_eq, chars_of, find_char, find_char_exec, lemma_views_push, slice_chars,
    string_of, views,
};
use crate::wasm_server::handler::{split, split_chars, vec_views};

verus! {

/// `s` with every line ending (CRLF, a lone CR, LF) written as one LF.
pub open spec fn lf_endings(s: Seq<char>) -> Seq<char>
    decreases s.len(),
{
    if s.len() == 0 {
        s
    } else if s[0] == '\r' && s.len() >= 2 && s[1] == '\n' {
        seq!['\n'] + lf_endings(s.subrange(2, s.len() as int))
    } else if s[0] == '\r' {
        seq!['\n'] + lf_endings(s.subrange(1, s.len() as int))
    } else {
        seq![s[0]] + lf_endings(s.subrange(1, s.len() as int))
    }
}

/// The name of a field line: what precedes its first colon. A comment line
/// has the empty name.
pub open spec fn field_name(line: Seq<char>) -> Seq<char> {
    before(line, ':')
}

/// The value of a field line: what follows its first colon, less one
/// leading space; empty when the line has no colon.
pub open spec fn field_value(line: Seq<char>) -> Seq<char> {
    let k = find_char(line, ':');
    if k < line.len() {
        let v = line.subrange(k + 1int, line.len() as int);
        if v.len() > 0 && v[0] == ' ' {
            v.subrange(1, v.len() as int)
        } else {
            v
        }
    } else {
        Seq::empty()
    }
}

/// The data an event gathers with one more `data` line.
pub open spec fn with_data(pending: Option<Seq<char>>, value: Seq<char>) -> Seq<char> {
    match pending {
        Some(d) => d + seq!['\n'] + value,
        None => value,
    }
}

/// The data of the events that `lines` complete, in order, given the data
/// gathered so far for the event under way (`None` before its first
/// `data` line).
pub open spec fn event_data(lines: Seq<Seq<char>>, pending: Option<Seq<char>>) -> Seq<Seq<char>>
    decreases lines.len(),
{
    if lines.len() == 0 {
        Seq::empty()
    } else {
        let line = lines[0];
        let rest = lines.subrange(1, lines.len() as int);
        if line.len() == 0 {
            match pending {
                Some(d) => seq![d] + event_data(rest, None),
                None => event_data(rest, None),
            }
        } else if field_name(line) == "data"@ {
            event_data(rest, Some(with_data(pending, field_value(line))))
        } else {
            event_data(rest, pending)
        }
    }
}

/// The data of each event in `body`, in order. A last event whose closing
/// blank line is missing still counts.
pub open spec fn stream_events(body: Seq<char>) -> Seq<Seq<char>> {
    event_data(split(lf_endings(body + seq!['\n', '\n']), '\n'), None)
}

/// `v` with its line endings written as LF; see [`lf_endings`].
fn lf_endings_exec(v: &Vec<char>) -> (r: Vec<char>)
    ensures
        r@ == lf_endings(v@),
{
    let mut r: Vec<char> = Vec::new();
    let mut i: usize = 0;
    assert(v@.subrange(0, v@.len() as int) =~= v@);
    assert(r@ + lf_endings(v@) =~= lf_endings(v@));
    while i < v.len()
        invariant
            i <= v.len(),
            lf_endings(v@) == r@ + lf_endings(v@.subrange(i as int, v@.len() as int)),
        decreases v.len() - i,
    {
        let ghost rest = v@.subrange(i as int, v@.len() as int);
        let ghost before_r = r@;
        if v[i] == '\r' && i + 1 < v.len() && v[i + 1] == '\n' {
            r.push('\n');
            i = i + 2;
            assert(rest.subrange(2, rest.len() as int) =~= v@.subrange(i as int, v@.len() as int));
        } else {
            if v[i] == '\r' {
                r.push('\n');
            } else {
                r.push(v[i]);
            }
            i = i + 1;
            assert(rest.subrange(1, rest.len() as int) =~= v@.subrange(i as int, v@.len() as int));
        }
        assert(r@ + lf_endings(v@.subrange(i as int, v@.len() as int)) =~= before_r + lf_endings(rest));
    }
    assert(v@.subrange(i as int, v@.len() as int) =~= Seq::<char>::empty());
    assert(r@ + Seq::<char>::empty() =~= r@);
    r
}

/// The value of a field line; see [`field_value`].
fn field_value_exec(line: &Vec<char>) -> (r: Vec<char>)
    ensures
        r@ == field_value(line@),
{
    let k = find_char_exec(line, ':');
    if k < line.len() {
        let v = slice_chars(line, k + 1, line.len());
        if v.len() > 0 && v[0] == ' ' {
            slice_chars(&v, 1, v.len())
        } else {
            v
        }
    } else {
        Vec::new()
    }
}

/// The view of an event's data under way.
pub open spec fn pending_view(p: Option<Vec<char>>) -> Option<Seq<char>> {
    match p {
        Some(d) => Some(d@),
        None => None,
    }
}

/// The data of each event in `body`, in order; see [`stream_events`].
pub fn event_stream_data(body: &str) -> (r: Vec<String>)
    ensures
        views(r@) == stream_events(body@),
{
    let mut chars = chars_of(body);
    chars.push('\n');
    chars.push('\n');
    assert(chars@ =~= body@ + seq!['\n', '\n']);
    let norm = lf_endings_exec(&chars);
    let lines = split_chars(&norm, '\n');
    let data_name = chars_of("data");
    let ghost all = vec_views(lines@);
    let mut out: Vec<String> = Vec::new();
    let mut pending: Option<Vec<char>> = None;
    let mut i: usize = 0;
    assert(all.subrange(0, all.len() as int) =~= all);
    while i < lines.len()
        invariant
            i <= lines@.len(),
            all == vec_views(lines@),
            data_name@ == "data"@,
            event_data(all, None) == views(out@) + event_data(
                all.subrange(i as int, all.len() as int),
                pending_view(pending),
            ),
        decreases lines.len() - i,
    {
        let ghost rest = all.subrange(i as int, all.len() as int);
        let ghost before_out = views(out@);
        let ghost before_pending = pending_view(pending);
        assert(rest[0] == lines@[i as int]@);
        assert(rest.subrange(1, rest.len() as int) =~= all.subrange(i + 1, all.len() as int));
        let ghost rest1 = all.subrange(i + 1, all.len() as int);
        let line = &lines[i];
        if line.len() == 0 {
            match pending {
                Some(d) => {
                    let s = string_of(&d, 0, d.len());
                    assert(d@.subrange(0, d@.len() as int) =~= d@);
                    let ghost ob = out@;
                    out.push(s);
                    proof {
                        lemma_views_push(ob, s);
                        assert(before_out + (seq![d@] + event_data(rest1, None)) =~= views(out@)
                            + event_data(rest1, None));
                    }
                },
                None => {},
            }
            pending = None;
        } else {
            let name = before_chars(line, ':');
            if chars_eq(&name, &data_name) {
                let mut v = field_value_exec(line);
                pending = match pending {
                    Some(d) => {
                        let mut d = d;
                        d.push('\n');
                        d.append(&mut v);
                        Some(d)
                    },
                    None => Some(v),
                };
                assert(pending_view(pending) == Some(with_data(before_pending, field_value(rest[0]))));
            }
        }
        i = i + 1;
    }
    assert(all.subrange(i as int, all.len() as int) =~= Seq::<Seq<char>>::empty());
    assert(views(out@) + Seq::<Seq<char>>::empty() =~= views(out@));
    out
}

/// A field line: the name, a colon and a space, then the value.
pub open spec fn field_line(name: Seq<char>, value: Seq<char>) -> Seq<char> {
    name + seq![':', ' '] + value
}

/// Lines as text, each ended by LF.
pub open spec fn lines_text(lines: Seq<Seq<char>>) -> Seq<char>
    decreases lines.len(),
{
    if lines.len() == 0 {
        Seq::empty()
    } else {
        lines[0] + seq!['\n'] + lines_text(lines.subrange(1, lines.len() as int))
    }
}

/// The lines that carry data `d`, one `data` field per line of it; empty
/// data takes none.
pub open spec fn data_lines(d: Seq<char>) -> Seq<Seq<char>> {
    if d.len() == 0 {
        Seq::empty()
    } else {
        split(d, '\n').map_values(|l: Seq<char>| field_line("data"@, l))
    }
}

/// The lines of one event: its id, its type when it has one, its data, and
/// the blank line that ends it.
pub open spec fn event_lines(id: Seq<char>, event_type: Option<Seq<char>>, data: Seq<char>) -> Seq<
    Seq<char>,
> {
    let head: Seq<Seq<char>> = match event_type {
        Some(t) => seq![field_line("id"@, id), field_line("event"@, t)],
        None => seq![field_line("id"@, id)],
    };
    head + data_lines(data) + seq![Seq::<char>::empty()]
}

/// The lines that open a stream: a `connected` comment, then the
/// reconnection delay, each as an event of its own.
pub open spec fn preamble(retry_ms: u64) -> Seq<Seq<char>> {
    seq![
        field_line(Seq::empty(), "connected"@),
        Seq::<char>::empty(),
        field_line("retry"@, decimal(retry_ms as nat)),
        Seq::<char>::empty(),
    ]
}

/// Text of lines joined one after the other.
pub proof fn lemma_lines_text_append(a: Seq<Seq<char>>, b: Seq<Seq<char>>)
    ensures
        lines_text(a + b) == lines_text(a) + lines_text(b),
    decreases a.len(),
{
    if a.len() == 0 {
        assert(a + b =~= b);
        assert(lines_text(a) + lines_text(b) =~= lines_text(b));
    } else {
        let rest = a.subrange(1, a.len() as int);
        lemma_lines_text_append(rest, b);
        assert((a + b).subrange(1, (a + b).len() as int) =~= rest + b);
        assert((a + b)[0] == a[0]);
        assert(lines_text(a + b) =~= lines_text(a) + lines_text(b));
    }
}

/// The text of one line.
pub proof fn lemma_lines_text_one(l: Seq<char>)
    ensures
        lines_text(seq![l]) == l + seq!['\n'],
{
    reveal_with_fuel(lines_text, 2);
    assert(seq![l].subrange(1, 1) =~= Seq::<Seq<char>>::empty());
    assert(l + seq!['\n'] + Seq::<char>::empty() =~= l + seq!['\n']);
}

/// Append a field line and its LF.
fn push_field(out: &mut String, name: &str, value: &str)
    ensures
        final(out)@ == old(out)@ + lines_text(seq![field_line(name@, value@)]),
{
    push_str(out, name);
    push_str(out, ": ");
    push_str(out, value);
    push_str(out, "\n");
    proof {
        reveal_strlit(": ");
        reveal_strlit("\n");
        let l = field_line(name@, value@);
        lemma_lines_text_one(l);
        assert(final(out)@ =~= old(out)@ + lines_text(seq![l]));
    }
}

/// Append the lines of one event; see [`event_lines`].
pub fn push_event(out: &mut String, id: &str, event_type: Option<&str>, data: &str)
    ensures
        final(out)@ == old(out)@ + lines_text(
            event_lines(
                id@,
                match event_type {
                    Some(t) => Some(t@),
                    None => None,
                },
                data@,
            ),
        ),
{
    let ghost t = match event_type {
        Some(t) => Some(t@),
        None => None::<Seq<char>>,
    };
    let ghost start = out@;
    push_field(out, "id", id);
    let ghost mut written: Seq<Seq<char>> = seq![field_line("id"@, id@)];
    match event_type {
        Some(ty) => {
            let ghost w0 = written;
            push_field(out, "event", ty);
            proof {
                lemma_lines_text_append(w0, seq![field_line("event"@, ty@)]);
                written = w0 + seq![field_line("event"@, ty@)];
                assert(written =~= seq![field_line("id"@, id@), field_line("event"@, ty@)]);
            }
        },
        None => {},
    }
    assert(out@ == start + lines_text(written));
    let ghost head = written;
    let chars = chars_of(data);
    if chars.len() > 0 {
        let parts = split_chars(&chars, '\n');
        let ghost ls = vec_views(parts@);
        let mut i: usize = 0;
        assert(ls.map_values(|l: Seq<char>| field_line("data"@, l)).subrange(0, 0) =~= Seq::<
            Seq<char>,
        >::empty());
        assert(head + Seq::<Seq<char>>::empty() =~= head);
        while i < parts.len()
            invariant
                i <= parts@.len(),
                ls == vec_views(parts@),
                ls == split(data@, '\n'),
                out@ == start + lines_text(
                    head + ls.map_values(|l: Seq<char>| field_line("data"@, l)).subrange(0, i as int),
                ),
            decreases parts.len() - i,
        {
            let line = string_of(&parts[i], 0, parts[i].len());
            assert(parts@[i as int]@.subrange(0, parts@[i as int]@.len() as int) =~= parts@[i as int]@);
            let ghost before_lines = head + ls.map_values(|l: Seq<char>| field_line("data"@, l)).subrange(
                0,
                i as int,
            );
            push_field(out, "data", line.as_str());
            proof {
                lemma_lines_text_append(before_lines, seq![field_line("data"@, line@)]);
                assert(ls[i as int] == line@);
                assert(head + ls.map_values(|l: Seq<char>| field_line("data"@, l)).subrange(
                    0,
                    i + 1,
                ) =~= before_lines + seq![field_line("data"@, line@)]);
            }
            i = i + 1;
        }
        assert(ls.map_values(|l: Seq<char>| field_line("data"@, l)).subrange(0, i as int)
            =~= data_lines(data@));
    } else {
        assert(head + data_lines(data@) =~= head);
    }
    let ghost body = head + data_lines(data@);
    push_str(out, "\n");
    proof {
        reveal_strlit("\n");
        let blank = seq![Seq::<char>::empty()];
        lemma_lines_text_append(body, blank);
        lemma_lines_text_one(Seq::<char>::empty());
        assert(Seq::<char>::empty() + seq!['\n'] =~= seq!['\n']);
        assert(event_lines(id@, t, data@) =~= body + blank);
        assert(out@ =~= start + lines_text(event_lines(id@, t, data@)));
    }
}

/// The opening of a stream; see [`preamble`].
pub fn preamble_text(retry_ms: u64) -> (r: String)
    ensures
        r@ == lines_text(preamble(retry_ms)),
{
    let mut r = owned(": connected\n\n");
    let d = decimal_string(retry_ms);
    push_field(&mut r, "retry", d.as_str());
    push_str(&mut r, "\n");
    proof {
        reveal_strlit(": connected\n\n");
        reveal_strlit("connected");
        reveal_strlit("\n");
        let p = preamble(retry_ms);
        let e = Seq::<char>::empty();
        let c = field_line(Seq::empty(), "connected"@);
        let f = field_line("retry"@, decimal(retry_ms as nat));
        assert(p =~= seq![c, e] + seq![f] + seq![e]);
        lemma_lines_text_append(seq![c, e], seq![f]);
        lemma_lines_text_append(seq![c, e] + seq![f], seq![e]);
        assert(seq![c, e].subrange(1, 2) =~= seq![e]);
        lemma_lines_text_one(e);
        assert(e + seq!['\n'] =~= seq!['\n']);
        assert(lines_text(seq![c, e]) =~= c + seq!['\n'] + seq!['\n']);
        assert(": connected\n\n"@ =~= c + seq!['\n'] + seq!['\n']);
        assert(r@ =~= lines_text(p));
    }
    r
}

/// Whether `s` holds no `c`.
pub open spec fn free_of(s: Seq<char>, c: char) -> bool {
    forall|i: int| 0 <= i < s.len() ==> s[i] != c
}

/// Whether every line is free of `c`.
pub open spec fn lines_free_of(lines: Seq<Seq<char>>, c: char) -> bool {
    forall|i: int| 0 <= i < lines.len() ==> free_of(#[trigger] lines[i], c)
}

/// Text without CR keeps its line endings.
pub proof fn lemma_lf_endings_plain(s: Seq<char>)
    requires
        free_of(s, '\r'),
    ensures
        lf_endings(s) == s,
    decreases s.len(),
{
    if s.len() > 0 {
        let rest = s.subrange(1, s.len() as int);
        lemma_lf_endings_plain(rest);
        assert(seq![s[0]] + rest =~= s);
    }
}

/// Lines free of `c` (other than LF) make a text free of `c`.
pub proof fn lemma_lines_text_free(lines: Seq<Seq<char>>, c: char)
    requires
        lines_free_of(lines, c),
        c != '\n',
    ensures
        free_of(lines_text(lines), c),
    decreases lines.len(),
{
    if lines.len() > 0 {
        let rest = lines.subrange(1, lines.len() as int);
        assert forall|i: int| 0 <= i < rest.len() implies free_of(#[trigger] rest[i], c) by {
            assert(rest[i] == lines[i + 1]);
        }
        lemma_lines_text_free(rest, c);
        assert(free_of(lines[0], c));
        let t = lines_text(lines);
        assert(t =~= lines[0] + seq!['\n'] + lines_text(rest));
        assert forall|i: int| 0 <= i < t.len() implies t[i] != c by {
            if i < lines[0].len() {
                assert(t[i] == lines[0][i]);
            } else if i > lines[0].len() {
                assert(t[i] == lines_text(rest)[i - lines[0].len() - 1]);
            }
        }
    }
}

/// Cutting lines ended by LF at LF gives the lines back.
pub proof fn lemma_split_lines(lines: Seq<Seq<char>>, tail: Seq<char>)
    requires
        lines_free_of(lines, '\n'),
    ensures
        split(lines_text(lines) + tail, '\n') == lines + split(tail, '\n'),
    decreases lines.len(),
{
    if lines.len() == 0 {
        assert(lines_text(lines) + tail =~= tail);
        assert(lines + split(tail, '\n') =~= split(tail, '\n'));
    } else {
        let l = lines[0];
        let rest = lines.subrange(1, lines.len() as int);
        assert forall|i: int| 0 <= i < rest.len() implies free_of(#[trigger] rest[i], '\n') by {
            assert(rest[i] == lines[i + 1]);
        }
        lemma_split_lines(rest, tail);
        assert(free_of(l, '\n'));
        let s = lines_text(lines) + tail;
        let after = lines_text(rest) + tail;
        assert(s =~= l + seq!['\n'] + after);
        assert forall|j: int| 0 <= j < l.len() implies s[j] != '\n' by {
            assert(s[j] == l[j]);
        }
        crate::text::lemma_find_char_at(s, '\n', l.len() as int);
        assert(s.subrange(0, l.len() as int) =~= l);
        assert(s.subrange(l.len() + 1int, s.len() as int) =~= after);
        assert(lines =~= seq![l] + rest);
        assert(split(s, '\n') =~= lines + split(tail, '\n'));
    }
}

/// The pieces `split` cuts are free of the separator, and of whatever the
/// whole is free of.
pub proof fn lemma_split_pieces(s: Seq<char>, c: char, d: char)
    ensures
        lines_free_of(split(s, c), c),
        free_of(s, d) ==> lines_free_of(split(s, c), d),
        split(s, c).len() >= 1,
    decreases s.len(),
{
    let k = find_char(s, c);
    crate::text::lemma_find_char_bounds(s, c);
    if k < s.len() {
        let head = s.subrange(0, k as int);
        let rest = s.subrange(k + 1int, s.len() as int);
        lemma_split_pieces(rest, c, d);
        let parts = split(s, c);
        assert(parts == seq![head] + split(rest, c));
        assert forall|i: int| 0 <= i < parts.len() implies free_of(#[trigger] parts[i], c) by {
            if i == 0 {
                assert(parts[0] == head);
            } else {
                assert(parts[i] == split(rest, c)[i - 1]);
            }
        }
        if free_of(s, d) {
            assert(free_of(rest, d));
            assert forall|i: int| 0 <= i < parts.len() implies free_of(#[trigger] parts[i], d) by {
                if i == 0 {
                    assert(parts[0] == head);
                } else {
                    assert(parts[i] == split(rest, c)[i - 1]);
                }
            }
        }
    } else {
        let parts = split(s, c);
        assert(parts == seq![s]);
        assert(parts[0] == s);
    }
}

/// Lines joined with LF.
pub open spec fn join_lf(lines: Seq<Seq<char>>) -> Seq<char>
    decreases lines.len(),
{
    if lines.len() == 0 {
        Seq::empty()
    } else if lines.len() == 1 {
        lines[0]
    } else {
        lines[0] + seq!['\n'] + join_lf(lines.subrange(1, lines.len() as int))
    }
}

/// Joining the pieces cut at LF gives the text back.
pub proof fn lemma_join_split(s: Seq<char>)
    ensures
        join_lf(split(s, '\n')) == s,
    decreases s.len(),
{
    let k = find_char(s, '\n');
    crate::text::lemma_find_char_bounds(s, '\n');
    if k < s.len() {
        let head = s.subrange(0, k as int);
        let rest = s.subrange(k + 1int, s.len() as int);
        lemma_join_split(rest);
        lemma_split_pieces(rest, '\n', '\n');
        let parts = split(s, '\n');
        assert(parts =~= seq![head] + split(rest, '\n'));
        assert(parts.subrange(1, parts.len() as int) =~= split(rest, '\n'));
        assert(parts.len() >= 2);
        assert(join_lf(parts) == head + seq!['\n'] + rest);
        assert(head + seq!['\n'] + rest =~= s);
    }
}

/// The name and value of a field line.
pub proof fn lemma_field_line(name: Seq<char>, v: Seq<char>)
    requires
        free_of(name, ':'),
    ensures
        field_name(field_line(name, v)) == name,
        field_value(field_line(name, v)) == v,
        field_line(name, v).len() > 0,
{
    let l = field_line(name, v);
    assert forall|j: int| 0 <= j < name.len() implies l[j] != ':' by {
        assert(l[j] == name[j]);
    }
    assert(l[name.len() as int] == ':');
    crate::text::lemma_find_char_at(l, ':', name.len() as int);
    assert(l.subrange(0, name.len() as int) =~= name);
    let after = l.subrange(name.len() + 1int, l.len() as int);
    assert(after =~= seq![' '] + v);
    assert(after.subrange(1, after.len() as int) =~= v);
}

/// A line that is not blank and not `data` changes nothing.
pub proof fn lemma_skip_line(l: Seq<char>, rest: Seq<Seq<char>>, p: Option<Seq<char>>)
    requires
        l.len() > 0,
        field_name(l) != "data"@,
    ensures
        event_data(seq![l] + rest, p) == event_data(rest, p),
{
    let ls = seq![l] + rest;
    assert(ls[0] == l);
    assert(ls.subrange(1, ls.len() as int) =~= rest);
}

/// A blank line ends the event under way.
pub proof fn lemma_blank_line(rest: Seq<Seq<char>>, p: Option<Seq<char>>)
    ensures
        event_data(seq![Seq::<char>::empty()] + rest, p) == match p {
            Some(d) => seq![d] + event_data(rest, None),
            None => event_data(rest, None),
        },
{
    let ls = seq![Seq::<char>::empty()] + rest;
    assert(ls[0] == Seq::<char>::empty());
    assert(ls.subrange(1, ls.len() as int) =~= rest);
}

/// The data lines of `lines` add them, LF-joined, to the event under way.
pub proof fn lemma_data_run(lines: Seq<Seq<char>>, rest: Seq<Seq<char>>, p: Option<Seq<char>>)
    requires
        lines.len() > 0,
    ensures
        event_data(lines.map_values(|l: Seq<char>| field_line("data"@, l)) + rest, p) == event_data(
            rest,
            Some(with_data(p, join_lf(lines))),
        ),
    decreases lines.len(),
{
    reveal_strlit("data");
    let m = lines.map_values(|l: Seq<char>| field_line("data"@, l));
    let tail = lines.subrange(1, lines.len() as int);
    let mt = tail.map_values(|l: Seq<char>| field_line("data"@, l));
    assert(m.subrange(1, m.len() as int) =~= mt);
    lemma_field_line("data"@, lines[0]);
    let ls = m + rest;
    assert(ls[0] == field_line("data"@, lines[0]));
    assert(ls.subrange(1, ls.len() as int) =~= mt + rest);
    let p1 = Some(with_data(p, lines[0]));
    assert(event_data(ls, p) == event_data(mt + rest, p1));
    if lines.len() == 1 {
        assert(mt + rest =~= rest);
    } else {
        lemma_data_run(tail, rest, p1);
        assert(join_lf(lines) == lines[0] + seq!['\n'] + join_lf(tail));
        assert(with_data(p1, join_lf(tail)) =~= with_data(p, join_lf(lines)));
    }
}

/// An event written as lines is read back as its data (nothing, for
/// empty data).
pub proof fn lemma_event_read_back(
    id: Seq<char>,
    event_type: Option<Seq<char>>,
    data: Seq<char>,
    rest: Seq<Seq<char>>,
)
    ensures
        event_data(event_lines(id, event_type, data) + rest, None) == (if data.len() > 0 {
            seq![data]
        } else {
            Seq::empty()
        }) + event_data(rest, None),
{
    reveal_strlit("id");
    reveal_strlit("event");
    reveal_strlit("data");
    let blank = seq![Seq::<char>::empty()];
    let after_head = data_lines(data) + (blank + rest);
    lemma_field_line("id"@, id);
    match event_type {
        Some(t) => {
            lemma_field_line("event"@, t);
            assert(event_lines(id, event_type, data) + rest =~= seq![field_line("id"@, id)] + (seq![
                field_line("event"@, t),
            ] + after_head));
            lemma_skip_line(field_line("id"@, id), seq![field_line("event"@, t)] + after_head, None);
            lemma_skip_line(field_line("event"@, t), after_head, None);
        },
        None => {
            assert(event_lines(id, event_type, data) + rest =~= seq![field_line("id"@, id)]
                + after_head);
            lemma_skip_line(field_line("id"@, id), after_head, None);
        },
    }
    assert(event_data(event_lines(id, event_type, data) + rest, None) == event_data(after_head, None));
    lemma_blank_line(rest, None);
    if data.len() > 0 {
        lemma_split_pieces(data, '\n', '\n');
        lemma_data_run(split(data, '\n'), blank + rest, None);
        lemma_join_split(data);
        lemma_blank_line(rest, Some(data));
    } else {
        assert(after_head =~= blank + rest);
        assert(Seq::<Seq<char>>::empty() + event_data(rest, None) =~= event_data(rest, None));
    }
}

/// The opening of a stream carries no data.
pub proof fn lemma_preamble_read_back(retry_ms: u64, rest: Seq<Seq<char>>)
    ensures
        event_data(preamble(retry_ms) + rest, None) == event_data(rest, None),
{
    reveal_strlit("retry");
    reveal_strlit("data");
    let e = Seq::<char>::empty();
    let c = field_line(Seq::empty(), "connected"@);
    let f = field_line("retry"@, decimal(retry_ms as nat));
    assert(preamble(retry_ms) + rest =~= seq![c] + (seq![e] + (seq![f] + (seq![e] + rest))));
    lemma_field_line(Seq::empty(), "connected"@);
    lemma_field_line("retry"@, decimal(retry_ms as nat));
    lemma_skip_line(c, seq![e] + (seq![f] + (seq![e] + rest)), None);
    lemma_blank_line(seq![f] + (seq![e] + rest), None);
    lemma_skip_line(f, seq![e] + rest, None);
    lemma_blank_line(rest, None);
}

/// A stream written as lines, none holding CR or LF, is read as those
/// lines are.
pub proof fn lemma_stream_of_lines(lines: Seq<Seq<char>>)
    requires
        lines_free_of(lines, '\n'),
        lines_free_of(lines, '\r'),
    ensures
        stream_events(lines_text(lines)) == event_data(
            lines + seq![Seq::<char>::empty(), Seq::<char>::empty(), Seq::<char>::empty()],
            None,
        ),
{
    let e = Seq::<char>::empty();
    let body = lines_text(lines);
    lemma_lines_text_free(lines, '\r');
    let two = seq![e, e];
    assert(lines_free_of(two, '\n'));
    lemma_lines_text_one(e);
    reveal_with_fuel(lines_text, 3);
    assert(two.subrange(1, 2) =~= seq![e]);
    assert(lines_text(two) =~= seq!['\n', '\n']);
    let text = body + seq!['\n', '\n'];
    assert(free_of(text, '\r'));
    lemma_lf_endings_plain(text);
    lemma_split_lines(lines, seq!['\n', '\n']);
    lemma_split_lines(two, Seq::<char>::empty());
    assert(lines_text(two) + Seq::<char>::empty() =~= seq!['\n', '\n']);
    crate::text::lemma_find_char_bounds(Seq::<char>::empty(), '\n');
    assert(split(Seq::<char>::empty(), '\n') =~= seq![e]);
    assert(two + seq![e] =~= seq![e, e, e]);
}

/// No event comes out of blank lines alone.
pub proof fn lemma_three_blanks()
    ensures
        event_data(seq![Seq::<char>::empty(), Seq::<char>::empty(), Seq::<char>::empty()], None)
            == Seq::<Seq<char>>::empty(),
{
    let e = Seq::<char>::empty();
    let none = Seq::<Seq<char>>::empty();
    assert(seq![e, e, e] =~= seq![e] + (seq![e] + (seq![e] + none)));
    lemma_blank_line(seq![e] + (seq![e] + none), None);
    lemma_blank_line(seq![e] + none, None);
    lemma_blank_line(none, None);
}

} // verus!
