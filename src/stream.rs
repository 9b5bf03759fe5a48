//! Reassembling a server-sent-event response into one text payload.
use vstd::prelude::*;
use crate::json::{JsonValue, find_member, member, parse_json, json_document};
use crate::schema::opt_text;
use crate::text::{
    chars_of, is_white_space, push_all, string_of, trim_bounds, trim_start, trimmed,
};
use crate::extract::starts_with;

verus! {

pub open spec fn data_prefix() -> Seq<char> {
    seq!['d', 'a', 't', 'a', ':', ' ']
}

pub open spec fn done_marker() -> Seq<char> {
    seq!['[', 'D', 'O', 'N', 'E', ']']
}

/// `i` is the position of the first line feed of `s`.
pub open spec fn first_newline(s: Seq<char>, i: int) -> bool {
    0 <= i < s.len() && s[i] == '\n' && forall|k: int| 0 <= k < i ==> s[k] != '\n'
}

/// The lines of `s`, split at each line feed.
pub closed spec fn split_lines(s: Seq<char>) -> Seq<Seq<char>>
    decreases s.len(),
{
    if exists|i: int| first_newline(s, i) {
        let i = choose|i: int| first_newline(s, i);
        seq![s.take(i)] + split_lines(s.skip(i + 1))
    } else {
        seq![s]
    }
}

/// The text a choice's delta carries, empty when it has none; `None` when
/// the choice is not shaped as a chunk choice.
pub open spec fn choice_text(c: JsonValue) -> Option<Seq<char>> {
    match c {
        JsonValue::Object(cm) => {
            let finish_ok = match member(cm@, "finish_reason"@) {
                None => true,
                Some(JsonValue::Null) => true,
                Some(JsonValue::Str(_)) => true,
                Some(_) => false,
            };
            match member(cm@, "delta"@) {
                Some(JsonValue::Object(dm)) => if !finish_ok {
                    None
                } else {
                    match member(dm@, "content"@) {
                        None => Some(Seq::empty()),
                        Some(JsonValue::Null) => Some(Seq::empty()),
                        Some(JsonValue::Str(s)) => Some(s@),
                        Some(_) => None,
                    }
                },
                _ => None,
            }
        },
        _ => None,
    }
}

/// The texts of the choices, concatenated in order; `None` if any is malformed.
pub open spec fn choices_text(cs: Seq<JsonValue>) -> Option<Seq<char>>
    decreases cs.len(),
{
    if cs.len() == 0 {
        Some(Seq::empty())
    } else {
        match (choices_text(cs.drop_last()), choice_text(cs.last())) {
            (Some(a), Some(b)) => Some(a + b),
            _ => None,
        }
    }
}

/// The text one stream chunk carries; `None` when it is not a chunk.
pub open spec fn chunk_text(v: JsonValue) -> Option<Seq<char>> {
    match v {
        JsonValue::Object(m) => match member(m@, "choices"@) {
            Some(JsonValue::Array(cs)) => choices_text(cs@),
            _ => None,
        },
        _ => None,
    }
}

/// What one line adds: whether it is an event line, and the text it carries.
pub open spec fn line_effect(line: Seq<char>) -> (bool, Seq<char>) {
    let t = trimmed(line);
    if starts_with(t, data_prefix()) {
        let data = t.skip(6);
        if data == done_marker() {
            (true, Seq::empty())
        } else {
            match json_document(data) {
                Some(v) => match chunk_text(v) {
                    Some(x) => (true, x),
                    None => (true, Seq::empty()),
                },
                None => (true, Seq::empty()),
            }
        }
    } else {
        (false, Seq::empty())
    }
}

/// Folds the lines in order: whether any was an event line, and the text so far.
pub open spec fn fold_lines(lines: Seq<Seq<char>>, seen: bool, acc: Seq<char>) -> (bool, Seq<char>)
    decreases lines.len(),
{
    if lines.len() == 0 {
        (seen, acc)
    } else {
        let e = line_effect(lines[0]);
        fold_lines(lines.drop_first(), seen || e.0, acc + e.1)
    }
}

/// The payload of an event stream: the chunks' texts in line order, or
/// `None` when no line is an event line or the texts are all empty.
pub open spec fn stream_payload(text: Seq<char>) -> Option<Seq<char>> {
    let r = fold_lines(split_lines(text), false, Seq::empty());
    if r.0 && r.1.len() > 0 {
        Some(r.1)
    } else {
        None
    }
}

pub(crate) proof fn lemma_split_at_newline(s: Seq<char>, i: int)
    requires
        first_newline(s, i),
    ensures
        split_lines(s) == seq![s.take(i)] + split_lines(s.skip(i + 1)),
{
    let j = choose|j: int| first_newline(s, j);
    if j < i {
        assert(s[j] != '\n');
    } else if i < j {
        assert(s[i] != '\n');
    }
}

pub(crate) proof fn lemma_split_no_newline(s: Seq<char>)
    requires
        forall|k: int| 0 <= k < s.len() ==> s[k] != '\n',
    ensures
        split_lines(s) == seq![s],
{
}

/// The text of one choice's delta.
fn choice_content(c: &JsonValue) -> (r: Option<String>)
    ensures
        opt_text(r) == choice_text(*c),
{
    let cm = match c {
        JsonValue::Object(cm) => cm,
        _ => {
            return None;
        },
    };
    let finish_ok = match find_member(cm, "finish_reason") {
        None => true,
        Some(JsonValue::Null) => true,
        Some(JsonValue::Str(_)) => true,
        Some(_) => false,
    };
    match find_member(cm, "delta") {
        Some(JsonValue::Object(dm)) => {
            if !finish_ok {
                return None;
            }
            match find_member(dm, "content") {
                None => Some(String::new()),
                Some(JsonValue::Null) => Some(String::new()),
                Some(JsonValue::Str(s)) => Some(s.clone()),
                Some(_) => None,
            }
        },
        _ => None,
    }
}

/// The text one stream chunk carries: its choices' delta texts in order.
pub fn chunk_content(v: &JsonValue) -> (r: Option<String>)
    ensures
        opt_text(r) == chunk_text(*v),
{
    let m = match v {
        JsonValue::Object(m) => m,
        _ => {
            return None;
        },
    };
    let cs = match find_member(m, "choices") {
        Some(JsonValue::Array(cs)) => cs,
        _ => {
            return None;
        },
    };
    let mut acc = String::new();
    let mut i: usize = 0;
    while i < cs.len()
        invariant
            i <= cs@.len(),
            chunk_text(*v) == choices_text(cs@),
            choices_text(cs@.take(i as int)) == Some(acc@),
        decreases cs@.len() - i,
    {
        assert(cs@.take(i + 1).drop_last() =~= cs@.take(i as int));
        match choice_content(&cs[i]) {
            Some(t) => {
                push_all(&mut acc, t.as_str());
            },
            None => {
                assert(choices_text(cs@) is None) by {
                    lemma_choices_prefix_fails(cs@, i as int + 1);
                }
                return None;
            },
        }
        i = i + 1;
    }
    assert(cs@.take(cs@.len() as int) =~= cs@);
    Some(acc)
}

proof fn lemma_choices_prefix_fails(cs: Seq<JsonValue>, n: int)
    requires
        0 <= n <= cs.len(),
        choices_text(cs.take(n)) is None,
    ensures
        choices_text(cs) is None,
    decreases cs.len() - n,
{
    if n < cs.len() {
        assert(cs.take(n + 1).drop_last() =~= cs.take(n));
        lemma_choices_prefix_fails(cs, n + 1);
    } else {
        assert(cs.take(n) =~= cs);
    }
}

/// What the line `cs[lo..hi]` adds to the payload.
fn line_contribution(cs: &Vec<char>, lo: usize, hi: usize) -> (r: (bool, String))
    requires
        lo <= hi <= cs@.len(),
    ensures
        r.0 == line_effect(cs@.subrange(lo as int, hi as int)).0,
        r.1@ == line_effect(cs@.subrange(lo as int, hi as int)).1,
{
    let ghost line = cs@.subrange(lo as int, hi as int);
    let (a, b) = trim_bounds(cs, lo, hi);
    let ghost t = cs@.subrange(a as int, b as int);
    assert(t == trimmed(line));
    let is_event = b - a >= 6 && cs[a] == 'd' && cs[a + 1] == 'a' && cs[a + 2] == 't' && cs[a + 3]
        == 'a' && cs[a + 4] == ':' && cs[a + 5] == ' ';
    proof {
        if b - a >= 6 {
            if is_event {
                assert(t.take(6) =~= data_prefix());
            } else {
                assert(t.take(6)[0] == t[0]);
                assert(t.take(6)[1] == t[1]);
                assert(t.take(6)[2] == t[2]);
                assert(t.take(6)[3] == t[3]);
                assert(t.take(6)[4] == t[4]);
                assert(t.take(6)[5] == t[5]);
            }
        }
        assert(is_event == starts_with(t, data_prefix()));
    }
    if !is_event {
        return (false, String::new());
    }
    let d = a + 6;
    let ghost data = t.skip(6);
    assert(data =~= cs@.subrange(d as int, b as int));
    let is_done = b - d == 6 && cs[d] == '[' && cs[d + 1] == 'D' && cs[d + 2] == 'O' && cs[d + 3]
        == 'N' && cs[d + 4] == 'E' && cs[d + 5] == ']';
    proof {
        if b - d == 6 {
            if is_done {
                assert(data =~= done_marker());
            } else {
                assert(data[0] == cs@[d as int]);
                assert(data[1] == cs@[d + 1]);
                assert(data[2] == cs@[d + 2]);
                assert(data[3] == cs@[d + 3]);
                assert(data[4] == cs@[d + 4]);
                assert(data[5] == cs@[d + 5]);
            }
        }
        assert(is_done == (data == done_marker()));
    }
    if is_done {
        return (true, String::new());
    }
    let text = string_of(cs, d, b);
    match parse_json(text.as_str()) {
        Some(v) => match chunk_content(&v) {
            Some(x) => (true, x),
            None => (true, String::new()),
        },
        None => (true, String::new()),
    }
}

/// Reassembles a server-sent-event response: every line that, trimmed,
/// opens with `data: ` is an event; `[DONE]` is skipped; every other event is
/// read as a chunk and its delta texts are appended in line order. Returns
/// `None` when no line is an event or nothing was gathered.
pub fn parse_streaming_response(response_text: &str) -> (r: Option<String>)
    ensures
        opt_text(r) == stream_payload(response_text@),
{
    let cs = chars_of(response_text);
    let ghost s = cs@;
    let n = cs.len();
    let mut seen = false;
    let mut acc = String::new();
    let mut ls: usize = 0;
    let mut i: usize = 0;
    assert(s.skip(0) =~= s);
    while i < n
        invariant
            s == cs@,
            n == s.len(),
            ls <= i <= n,
            forall|k: int| ls <= k < i ==> s[k] != '\n',
            fold_lines(split_lines(s.skip(ls as int)), seen, acc@) == fold_lines(
                split_lines(s),
                false,
                Seq::empty(),
            ),
        decreases n - i,
    {
        if cs[i] == '\n' {
            proof {
                let rest = s.skip(ls as int);
                assert(first_newline(rest, i - ls)) by {
                    assert forall|k: int| 0 <= k < i - ls implies rest[k] != '\n' by {
                        assert(rest[k] == s[ls + k]);
                    }
                }
                lemma_split_at_newline(rest, i - ls);
                assert(rest.take(i - ls) =~= s.subrange(ls as int, i as int));
                assert(rest.skip(i - ls + 1) =~= s.skip(i + 1));
                let lines = split_lines(rest);
                assert(lines[0] == s.subrange(ls as int, i as int));
                assert(lines.drop_first() =~= split_lines(s.skip(i + 1)));
            }
            let (e, x) = line_contribution(&cs, ls, i);
            seen = seen || e;
            push_all(&mut acc, x.as_str());
            ls = i + 1;
        }
        i = i + 1;
    }
    proof {
        let rest = s.skip(ls as int);
        assert forall|k: int| 0 <= k < rest.len() implies rest[k] != '\n' by {
            assert(rest[k] == s[ls + k]);
        }
        lemma_split_no_newline(rest);
        assert(rest =~= s.subrange(ls as int, n as int));
        let lines = split_lines(rest);
        assert(lines.drop_first().len() == 0);
    }
    let (e, x) = line_contribution(&cs, ls, n);
    seen = seen || e;
    push_all(&mut acc, x.as_str());
    proof {
        let lines = split_lines(s.skip(ls as int));
        assert(lines == seq![s.subrange(ls as int, n as int)]);
        assert(fold_lines(lines.drop_first(), seen, acc@) == (seen, acc@));
    }
    if seen && !acc.as_str().is_empty() {
        Some(acc)
    } else {
        None
    }
}

/// The lines joined with line feeds.
pub open spec fn joined(lines: Seq<Seq<char>>) -> Seq<char>
    decreases lines.len(),
{
    if lines.len() == 0 {
        Seq::empty()
    } else if lines.len() == 1 {
        lines[0]
    } else {
        lines[0] + seq!['\n'] + joined(lines.drop_first())
    }
}

/// One event line per data text, then the `[DONE]` line.
pub open spec fn event_lines(datas: Seq<Seq<char>>) -> Seq<Seq<char>> {
    datas.map_values(|d: Seq<char>| data_prefix() + d).push(data_prefix() + done_marker())
}

/// The texts concatenated in order.
pub open spec fn concat_all(xs: Seq<Seq<char>>) -> Seq<char>
    decreases xs.len(),
{
    if xs.len() == 0 {
        Seq::empty()
    } else {
        xs[0] + concat_all(xs.drop_first())
    }
}

/// `d` can follow `data: ` on one line and survive trimming: it is not empty,
/// holds no line feed and does not end in white space.
pub open spec fn plain_data(d: Seq<char>) -> bool {
    &&& d.len() > 0
    &&& !is_white_space(d.last())
    &&& forall|j: int| 0 <= j < d.len() ==> d[j] != '\n'
}

/// Each data text is a chunk carrying the matching text.
pub open spec fn chunks_carry(datas: Seq<Seq<char>>, texts: Seq<Seq<char>>) -> bool {
    &&& datas.len() == texts.len()
    &&& forall|k: int|
        0 <= k < datas.len() ==> {
            &&& plain_data(#[trigger] datas[k])
            &&& datas[k] != done_marker()
            &&& json_document(datas[k]) matches Some(v) && chunk_text(v) == Some(texts[k])
        }
}

proof fn lemma_split_joined(lines: Seq<Seq<char>>)
    requires
        lines.len() >= 1,
        forall|k: int, j: int|
            0 <= k < lines.len() && 0 <= j < lines[k].len() ==> #[trigger] lines[k][j] != '\n',
    ensures
        split_lines(joined(lines)) == lines,
    decreases lines.len(),
{
    if lines.len() == 1 {
        assert(forall|j: int| 0 <= j < lines[0].len() ==> lines[0][j] != '\n');
        lemma_split_no_newline(lines[0]);
        assert(seq![lines[0]] =~= lines);
    } else {
        let t = joined(lines);
        let i = lines[0].len() as int;
        let rest = lines.drop_first();
        assert(forall|k: int, j: int|
            0 <= k < rest.len() && 0 <= j < rest[k].len() ==> #[trigger] rest[k][j] != '\n') by {
            assert forall|k: int, j: int| 0 <= k < rest.len() && 0 <= j < rest[k].len() implies #[trigger] rest[k][j] != '\n' by {
                assert(rest[k] == lines[k + 1]);
            }
        }
        assert(t == lines[0] + seq!['\n'] + joined(rest));
        assert forall|k: int| 0 <= k < i implies t[k] != '\n' by {
            assert(t[k] == lines[0][k]);
        }
        assert(first_newline(t, i));
        lemma_split_at_newline(t, i);
        assert(t.take(i) =~= lines[0]);
        assert(t.skip(i + 1) =~= joined(rest));
        lemma_split_joined(rest);
        assert(seq![lines[0]] + rest =~= lines);
    }
}

proof fn lemma_trimmed_plain(s: Seq<char>)
    requires
        s.len() > 0,
        !is_white_space(s[0]),
        !is_white_space(s.last()),
    ensures
        trimmed(s) == s,
{
    assert(trim_start(s) == s);
}

proof fn lemma_event_effect(d: Seq<char>, x: Seq<char>)
    requires
        plain_data(d),
        d != done_marker(),
        json_document(d) matches Some(v) && chunk_text(v) == Some(x),
    ensures
        line_effect(data_prefix() + d) == (true, x),
{
    let l = data_prefix() + d;
    assert(l.last() == d.last());
    lemma_trimmed_plain(l);
    assert(l.take(6) =~= data_prefix());
    assert(l.skip(6) =~= d);
}

proof fn lemma_fold_events(lines: Seq<Seq<char>>, texts: Seq<Seq<char>>, seen: bool, acc: Seq<char>)
    requires
        lines.len() == texts.len() + 1,
        forall|k: int| 0 <= k < texts.len() ==> line_effect(#[trigger] lines[k]) == (true, texts[k]),
        line_effect(lines.last()) == (true, Seq::<char>::empty()),
    ensures
        fold_lines(lines, seen, acc) == (true, acc + concat_all(texts)),
    decreases lines.len(),
{
    if texts.len() == 0 {
        assert(lines[0] == lines.last());
        assert(lines.drop_first().len() == 0);
        assert(concat_all(texts) =~= Seq::<char>::empty());
        assert(acc + Seq::<char>::empty() =~= acc);
        assert(fold_lines(lines.drop_first(), true, acc + Seq::<char>::empty()) == (true, acc + Seq::<char>::empty()));
    } else {
        let rest = lines.drop_first();
        let rt = texts.drop_first();
        assert forall|k: int| 0 <= k < rt.len() implies line_effect(#[trigger] rest[k]) == (true, rt[k]) by {
            assert(rest[k] == lines[k + 1]);
            assert(line_effect(lines[k + 1]) == (true, texts[k + 1]));
        }
        assert(line_effect(lines[0]) == (true, texts[0]));
        assert(rest.last() == lines.last());
        lemma_fold_events(rest, rt, true, acc + texts[0]);
        assert(acc + texts[0] + concat_all(rt) =~= acc + concat_all(texts));
    }
}

proof fn lemma_concat_nonempty(texts: Seq<Seq<char>>)
    requires
        texts.len() >= 1,
        texts[0].len() > 0,
    ensures
        concat_all(texts).len() > 0,
{
}

/// A stream of one event line per chunk, then `data: [DONE]`, reassembles to
/// the chunks' texts concatenated in chunk order.
pub proof fn lemma_stream_concatenates(datas: Seq<Seq<char>>, texts: Seq<Seq<char>>)
    requires
        chunks_carry(datas, texts),
        datas.len() >= 1,
        forall|k: int| 0 <= k < texts.len() ==> (#[trigger] texts[k]).len() > 0,
    ensures
        stream_payload(joined(event_lines(datas))) == Some(concat_all(texts)),
{
    let lines = event_lines(datas);
    assert forall|k: int, j: int|
        0 <= k < lines.len() && 0 <= j < lines[k].len() implies #[trigger] lines[k][j] != '\n' by {
        if k < datas.len() {
            assert(lines[k] == data_prefix() + datas[k]);
            assert(plain_data(datas[k]));
            if j >= 6 {
                assert(lines[k][j] == datas[k][j - 6]);
            }
        } else {
            assert(lines[k] == data_prefix() + done_marker());
        }
    }
    lemma_split_joined(lines);
    assert forall|k: int| 0 <= k < texts.len() implies line_effect(#[trigger] lines[k]) == (true, texts[k]) by {
        assert(lines[k] == data_prefix() + datas[k]);
        assert(plain_data(datas[k]));
        lemma_event_effect(datas[k], texts[k]);
    }
    let last = data_prefix() + done_marker();
    assert(lines.last() == last);
    assert(last.last() == ']');
    lemma_trimmed_plain(last);
    assert(last.take(6) =~= data_prefix());
    assert(last.skip(6) =~= done_marker());
    lemma_fold_events(lines, texts, false, Seq::empty());
    assert(texts[0].len() > 0);
    lemma_concat_nonempty(texts);
    assert(Seq::<char>::empty() + concat_all(texts) =~= concat_all(texts));
}

proof fn lemma_fold_quiet(lines: Seq<Seq<char>>, acc: Seq<char>)
    requires
        forall|k: int| 0 <= k < lines.len() ==> !(#[trigger] line_effect(lines[k])).0,
    ensures
        !fold_lines(lines, false, acc).0,
    decreases lines.len(),
{
    if lines.len() > 0 {
        let rest = lines.drop_first();
        assert forall|k: int| 0 <= k < rest.len() implies !(#[trigger] line_effect(rest[k])).0 by {
            assert(rest[k] == lines[k + 1]);
        }
        assert(!line_effect(lines[0]).0);
        lemma_fold_quiet(rest, acc + line_effect(lines[0]).1);
    }
}

/// A text none of whose lines, trimmed, opens with `data: ` is not an event stream.
pub proof fn lemma_no_event_line_not_stream(text: Seq<char>)
    requires
        forall|k: int|
            0 <= k < split_lines(text).len() ==> !starts_with(
                trimmed(#[trigger] split_lines(text)[k]),
                data_prefix(),
            ),
    ensures
        stream_payload(text) is None,
{
    let lines = split_lines(text);
    assert forall|k: int| 0 <= k < lines.len() implies !(#[trigger] line_effect(lines[k])).0 by {
        assert(!starts_with(trimmed(lines[k]), data_prefix()));
    }
    lemma_fold_quiet(lines, Seq::empty());
}

} // verus!
