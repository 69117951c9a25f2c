//! The Linux side of the microphone: a PulseAudio (or pipewire-pulse)
//! null-sink named `tether_audio` is the render endpoint.

use vstd::prelude::*;
use vstd::string::StringSliceAdditionalSpecFns;

use crate::bytes::{bytes_equal, find_byte, find_from, lemma_find_from};

verus! {

/// Sink name of the virtual render endpoint.
pub const RENDER_DEVICE_MATCH: &'static str = "tether_audio";

/// Line feed.
pub const NL: u8 = 10;
/// Carriage return.
pub const CR: u8 = 13;
/// Horizontal tab, the column separator of `pactl list short`.
pub const TAB: u8 = 9;

/// The bytes of `RENDER_DEVICE_MATCH`.
pub open spec fn render_device_name() -> Seq<u8> {
    RENDER_DEVICE_MATCH.spec_bytes()
}

/// `[a, b)` is a line of `text`: a maximal run of bytes without a line feed.
pub open spec fn is_line(text: Seq<u8>, a: int, b: int) -> bool {
    &&& 0 <= a <= b <= text.len()
    &&& (a == 0 || text[a - 1] == NL)
    &&& (b == text.len() || text[b] == NL)
    &&& forall|k: int| a <= k < b ==> text[k] != NL
}

/// The line `[a, b)` as `str::lines` gives it: a carriage return right
/// before the line feed is not part of it.
pub open spec fn line_text(text: Seq<u8>, a: int, b: int) -> Seq<u8> {
    if a < b < text.len() && text[b - 1] == CR {
        text.subrange(a, b - 1)
    } else {
        text.subrange(a, b)
    }
}

/// The second tab-separated column of `line` (what `split('\t').nth(1)`
/// gives), if the line has a tab.
pub open spec fn second_column(line: Seq<u8>) -> Option<Seq<u8>> {
    let t1: int = find_from(line, TAB, 0);
    if t1 >= line.len() {
        None
    } else {
        Some(line.subrange(t1 + 1, find_from(line, TAB, t1 + 1)))
    }
}

/// Some line of the `pactl list short sinks` output `text` names the sink
/// `name` in its second column.
pub open spec fn sinks_list_names(text: Seq<u8>, name: Seq<u8>) -> bool {
    exists|a: int, b: int| #[trigger] is_line(text, a, b) && second_column(line_text(text, a, b)) == Some(name)
}

/// `find_from` stops at the first `byte` at or after `from`.
proof fn lemma_find_from_is(s: Seq<u8>, byte: u8, from: int, t: int)
    requires
        0 <= from <= t <= s.len(),
        t == s.len() || s[t] == byte,
        forall|k: int| from <= k < t ==> s[k] != byte,
    ensures
        find_from(s, byte, from) == t,
{
    lemma_find_from(s, byte, from);
    let r = find_from(s, byte, from);
    if r < t {
        assert(s[r] == byte);
    }
    if r > t {
        assert(s[t] == byte);
    }
}

/// Law: a row anywhere in the listing whose name column is `name` makes
/// the listing name the sink, however many rows come before it. The row's
/// text is `text[a..e]` (it starts the text or follows a line feed; it ends
/// the text, or a line feed, or a carriage return and line feed, follows
/// it), its first tab is at `t1`, and its name column runs from `t1 + 1` to
/// the next tab `t2` or the row's end.
pub proof fn lemma_row_names_sink(text: Seq<u8>, name: Seq<u8>, a: int, e: int, t1: int, t2: int)
    requires
        0 <= a <= t1 < t2 <= e <= text.len(),
        a == 0 || text[a - 1] == NL,
        forall|k: int| a <= k < e ==> text[k] != NL,
        e == text.len() || (text[e] == NL && !(a < e && text[e - 1] == CR)) || (e + 1 < text.len()
            && text[e] == CR && text[e + 1] == NL),
        text[t1] == TAB,
        forall|k: int| a <= k < t1 ==> text[k] != TAB,
        t2 == e || text[t2] == TAB,
        forall|k: int| t1 < k < t2 ==> text[k] != TAB,
        text.subrange(t1 + 1, t2) == name,
    ensures
        sinks_list_names(text, name),
{
    let b: int = if e < text.len() && text[e] == CR {
        e + 1
    } else {
        e
    };
    assert(is_line(text, a, b));
    let line = line_text(text, a, b);
    assert(line =~= text.subrange(a, e));
    lemma_find_from_is(line, TAB, 0, t1 - a);
    lemma_find_from_is(line, TAB, t1 - a + 1, t2 - a);
    assert(line.subrange(t1 - a + 1, t2 - a) =~= text.subrange(t1 + 1, t2));
    assert(second_column(line) == Some(name));
}

/// The row that names the sink: `(a, e, t1, t2)` as in `lemma_row_names_sink`.
proof fn sink_row(text: Seq<u8>, name: Seq<u8>) -> (r: (int, int, int, int))
    requires
        sinks_list_names(text, name),
    ensures
        ({
            let (a, e, t1, t2) = r;
            &&& 0 <= a <= t1 < t2 <= e <= text.len()
            &&& (a == 0 || text[a - 1] == NL)
            &&& (forall|k: int| a <= k < e ==> text[k] != NL)
            &&& (e == text.len() || (text[e] == NL && !(a < e && text[e - 1] == CR)) || (e + 1
                < text.len() && text[e] == CR && text[e + 1] == NL))
            &&& text[t1] == TAB
            &&& (forall|k: int| a <= k < t1 ==> text[k] != TAB)
            &&& (t2 == e || text[t2] == TAB)
            &&& (forall|k: int| t1 < k < t2 ==> text[k] != TAB)
            &&& text.subrange(t1 + 1, t2) == name
        }),
{
    let (a, b) = choose|a: int, b: int|
        #[trigger] is_line(text, a, b) && second_column(line_text(text, a, b)) == Some(name);
    let e: int = if a < b < text.len() && text[b - 1] == CR {
        b - 1
    } else {
        b
    };
    let line = line_text(text, a, b);
    assert(line =~= text.subrange(a, e));
    lemma_find_from(line, TAB, 0);
    let l1 = find_from(line, TAB, 0);
    assert(l1 < line.len());
    lemma_find_from(line, TAB, l1 + 1);
    let l2 = find_from(line, TAB, l1 + 1);
    let t1 = a + l1;
    let t2 = a + l2;
    assert(text[t1] == TAB);
    assert forall|k: int| a <= k < t1 implies text[k] != TAB by {
        assert(line[k - a] == text[k]);
    }
    assert forall|k: int| t1 < k < t2 implies text[k] != TAB by {
        assert(line[k - a] == text[k]);
    }
    assert(t2 == e || text[t2] == TAB) by {
        if t2 < e {
            assert(line[l2] == text[t2]);
        }
    }
    assert(text.subrange(t1 + 1, t2) =~= line.subrange(l1 + 1, l2));
    assert(e == text.len() || (text[e] == NL && !(a < e && text[e - 1] == CR)) || (e + 1 < text.len()
        && text[e] == CR && text[e + 1] == NL));
    (a, e, t1, t2)
}



/// Law: the listing names the sink only through such a row: some row
/// `text[a..e]` has its first tab at `t1` and `name` as its second column,
/// up to the next tab `t2` or the row's end.
pub proof fn lemma_sink_named_by_row(text: Seq<u8>, name: Seq<u8>)
    requires
        sinks_list_names(text, name),
    ensures
        exists|a: int, e: int, t1: int, t2: int|
            #![trigger text.subrange(a, e), text.subrange(t1, t2)]
            {
                &&& 0 <= a <= t1 < t2 <= e <= text.len()
                &&& (a == 0 || text[a - 1] == NL)
                &&& (forall|k: int| a <= k < e ==> text[k] != NL)
                &&& (e == text.len() || (text[e] == NL && !(a < e && text[e - 1] == CR)) || (e + 1
                < text.len() && text[e] == CR && text[e + 1] == NL))
                &&& text[t1] == TAB
                &&& (forall|k: int| a <= k < t1 ==> text[k] != TAB)
                &&& (t2 == e || text[t2] == TAB)
                &&& (forall|k: int| t1 < k < t2 ==> text[k] != TAB)
                &&& text.subrange(t1 + 1, t2) == name
            },
{
    let (a, e, t1, t2) = sink_row(text, name);
    let _ = text.subrange(a, e);
    let _ = text.subrange(t1, t2);
}

/// Law: putting another row (any bytes without a line feed) in front of
/// the listing never hides a sink that it names.
pub proof fn lemma_prepend_row(row: Seq<u8>, text: Seq<u8>, name: Seq<u8>)
    requires
        forall|k: int| 0 <= k < row.len() ==> row[k] != NL,
        sinks_list_names(text, name),
    ensures
        sinks_list_names(row + seq![NL] + text, name),
{
    let (a, e, t1, t2) = sink_row(text, name);
    assert(0 <= a <= t1 < t2 <= e <= text.len());
    let pre = row + seq![NL];
    let full = pre + text;
    let d: int = row.len() as int + 1;
    assert(pre.len() == d);
    assert(pre[d - 1] == NL);
    assert(full.len() == text.len() + d);
    assert forall|k: int| 0 <= k < text.len() implies full[k + d] == text[k] by {}
    assert(full[d - 1] == NL);
    assert(full.subrange(t1 + d + 1, t2 + d) =~= text.subrange(t1 + 1, t2));
    assert forall|k: int| a + d <= k < e + d implies full[k] != NL by {
        assert(full[k] == text[k - d]);
    }
    assert forall|k: int| a + d <= k < t1 + d implies full[k] != TAB by {
        assert(full[k] == text[k - d]);
    }
    assert forall|k: int| t1 + d < k < t2 + d implies full[k] != TAB by {
        assert(full[k] == text[k - d]);
    }
    lemma_row_names_sink(full, name, a + d, e + d, t1 + d, t2 + d);
}

/// Whether the second column of the line `[a, b)` of `text` is `name`.
fn line_names(text: &[u8], a: usize, b: usize, name: &[u8]) -> (r: bool)
    requires
        a <= b <= text@.len(),
    ensures
        r == (second_column(line_text(text@, a as int, b as int)) == Some(name@)),
{
    let end: usize = if a < b && b < text.len() && text[b - 1] == CR {
        b - 1
    } else {
        b
    };
    let line = &text[a..end];
    assert(line@ =~= line_text(text@, a as int, b as int));
    let t1: usize = find_byte(line, TAB, 0);
    if t1 >= line.len() {
        return false;
    }
    proof {
        lemma_find_from(line@, TAB, 0);
    }
    let t2: usize = find_byte(line, TAB, t1 + 1);
    proof {
        lemma_find_from(line@, TAB, t1 + 1);
    }
    let column = &line[t1 + 1..t2];
    assert(column@ =~= line@.subrange(t1 + 1, t2 as int));
    bytes_equal(column, name)
}

/// A line that starts at or after a line start `a` and no later than the
/// first line feed from `a` is the line starting at `a`.
proof fn lemma_line_from(text: Seq<u8>, a: int, a2: int, b2: int)
    requires
        0 <= a <= text.len(),
        a == 0 || text[a - 1] == NL,
        is_line(text, a2, b2),
        a <= a2 <= find_from(text, NL, a),
    ensures
        a2 == a,
        b2 == find_from(text, NL, a),
{
    lemma_find_from(text, NL, a);
    let b: int = find_from(text, NL, a);
    if a2 > a {
        assert(text[a2 - 1] != NL);
    }
    if b2 < b {
        assert(text[b2] != NL);
    }
    if b2 > b {
        assert(b < text.len());
        assert(text[b] == NL);
    }
}

/// Whether the `pactl list short sinks` output `text` lists a sink named
/// `name`: rows are "<id>\t<name>\t<driver>\t...". The bytes are compared
/// as they are: decoding them as text first (replacing what is not UTF-8)
/// keeps every tab and line feed, and never makes or unmakes an ASCII name.
pub fn sinks_list_has(text: &[u8], name: &str) -> (r: bool)
    ensures
        r == sinks_list_names(text@, name.spec_bytes()),
{
    let n: usize = text.len();
    let name_bytes = name.as_bytes();
    let mut a: usize = 0;
    loop
        invariant
            n == text@.len(),
            name_bytes@ == name.spec_bytes(),
            a <= n,
            a == 0 || text@[a - 1] == NL,
            forall|a2: int, b2: int|
                #[trigger] is_line(text@, a2, b2) && a2 < a ==> second_column(
                    line_text(text@, a2, b2),
                ) != Some(name_bytes@),
        decreases n - a,
    {
        let b: usize = find_byte(text, NL, a);
        proof {
            lemma_find_from(text@, NL, a as int);
        }
        if line_names(text, a, b, name_bytes) {
            assert(is_line(text@, a as int, b as int));
            return true;
        }
        if b == n {
            assert forall|a2: int, b2: int| #[trigger] is_line(text@, a2, b2) implies second_column(
                line_text(text@, a2, b2),
            ) != Some(name_bytes@) by {
                if a2 >= a {
                    lemma_line_from(text@, a as int, a2, b2);
                }
            }
            return false;
        }
        assert forall|a2: int, b2: int| #[trigger] is_line(text@, a2, b2) && a2 < b + 1 implies second_column(
            line_text(text@, a2, b2),
        ) != Some(name_bytes@) by {
            if a2 >= a {
                lemma_line_from(text@, a as int, a2, b2);
            }
        }
        a = b + 1;
    }
}

} // verus!
