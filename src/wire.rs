//! The wire format of a slot update: the whole payload of one connection,
//! as text, whose first line names the slot and whose second line is the
//! value. Further lines are ignored; missing ones read as empty.

use vstd::prelude::*;

use crate::text::{chars_of, string_of};

verus! {

/// The lower-case form of `s`, as `str::to_lowercase` gives it.
pub uninterp spec fn lower_of(s: Seq<char>) -> Seq<char>;

/// Relies on `str::to_lowercase`: the lower-case form of `s`, which depends
/// on the characters of `s` alone; the empty string stays empty.
#[verifier::external_body]
fn lowercase(s: &str) -> (r: String)
    ensures
        r@ == lower_of(s@),
        s@.len() == 0 ==> r@.len() == 0,
{
    s.to_lowercase()
}

/// The index of the first `'\n'` of `s`, or its length when it has none.
pub open spec fn line_end(s: Seq<char>) -> int
    decreases s.len(),
{
    if s.len() == 0 {
        0
    } else if s[0] == '\n' {
        0
    } else {
        1 + line_end(s.drop_first())
    }
}

/// The first line of `s`: the text before the first `'\n'`, less the `'\r'`
/// of a `"\r\n"` ending. Without a `'\n'`, all of `s`, `'\r'` included.
pub open spec fn first_line(s: Seq<char>) -> Seq<char> {
    let e = line_end(s);
    let seg = s.take(e);
    if e < s.len() && seg.len() > 0 && seg.last() == '\r' {
        seg.drop_last()
    } else {
        seg
    }
}

/// What follows the first `'\n'` of `s`; empty when it has none.
pub open spec fn after_first_line(s: Seq<char>) -> Seq<char> {
    let e = line_end(s);
    if e < s.len() {
        s.skip(e + 1)
    } else {
        Seq::empty()
    }
}

/// Line `k` of `s`, counted from 0, as `str::lines` yields it; empty when
/// `s` has fewer lines.
pub open spec fn line(s: Seq<char>, k: nat) -> Seq<char>
    decreases k,
{
    if k == 0 {
        first_line(s)
    } else {
        line(after_first_line(s), (k - 1) as nat)
    }
}

/// `line_end` is the first index that holds `'\n'`, or the length.
pub proof fn lemma_line_end(s: Seq<char>, e: int)
    requires
        0 <= e <= s.len(),
        forall|j: int| 0 <= j < e ==> s[j] != '\n',
        e == s.len() || s[e] == '\n',
    ensures
        line_end(s) == e,
    decreases e,
{
    if e > 0 {
        let t = s.drop_first();
        assert forall|j: int| 0 <= j < e - 1 implies t[j] != '\n' by {
            assert(t[j] == s[j + 1]);
        }
        if e < s.len() {
            assert(t[e - 1] == s[e]);
        }
        lemma_line_end(t, e - 1);
    }
}

/// A slot update as read off the wire.
pub struct BarUpdate {
    /// The slot's name, in lower case.
    pub key: String,
    /// The slot's new value.
    pub value: String,
}

/// The index of the first `'\n'` of `cs` at or after `start`, or its length.
fn line_end_from(cs: &Vec<char>, start: usize) -> (e: usize)
    requires
        start <= cs.len(),
    ensures
        start <= e <= cs.len(),
        e - start == line_end(cs@.skip(start as int)),
{
    let mut i: usize = start;
    while i < cs.len() && cs[i] != '\n'
        invariant
            start <= i <= cs.len(),
            forall|j: int| start <= j < i ==> cs@[j] != '\n',
        decreases cs.len() - i,
    {
        i = i + 1;
    }
    proof {
        let t = cs@.skip(start as int);
        assert forall|j: int| 0 <= j < i - start implies t[j] != '\n' by {
            assert(t[j] == cs@[start + j]);
        }
        if i < cs.len() {
            assert(t[i - start] == cs@[i as int]);
        }
        lemma_line_end(t, i - start);
    }
    i
}

/// The first line of the characters of `cs` from `start` on, which end at `end`.
fn line_from(cs: &Vec<char>, start: usize, end: usize) -> (r: String)
    requires
        start <= end <= cs.len(),
        end - start == line_end(cs@.skip(start as int)),
    ensures
        r@ == first_line(cs@.skip(start as int)),
{
    let stop: usize = if end < cs.len() && end > start && cs[end - 1] == '\r' {
        end - 1
    } else {
        end
    };
    let mut out: Vec<char> = Vec::new();
    let mut i: usize = start;
    while i < stop
        invariant
            start <= i <= stop <= end <= cs.len(),
            out@ == cs@.subrange(start as int, i as int),
        decreases stop - i,
    {
        out.push(cs[i]);
        proof {
            assert(out@ =~= cs@.subrange(start as int, i + 1));
        }
        i = i + 1;
    }
    proof {
        let t = cs@.skip(start as int);
        let seg = t.take(end - start);
        assert(seg =~= cs@.subrange(start as int, end as int));
        if end < cs.len() && end > start && cs@[end - 1] == '\r' {
            assert(seg.drop_last() =~= out@);
        } else {
            assert(seg =~= out@);
        }
    }
    string_of(out.as_slice())
}

/// Reads a slot update off `buffer_string`: its first line, in lower case,
/// names the slot; its second line is the value. Lines past the second are
/// ignored, and a missing line reads as empty.
pub fn get_bar_update(buffer_string: &str) -> (r: BarUpdate)
    ensures
        r.key@ == lower_of(line(buffer_string@, 0)),
        line(buffer_string@, 0).len() == 0 ==> r.key@.len() == 0,
        r.value@ == line(buffer_string@, 1),
{
    let cs = chars_of(buffer_string);
    let e0 = line_end_from(&cs, 0);
    let name = line_from(&cs, 0, e0);
    let start: usize = if e0 < cs.len() {
        e0 + 1
    } else {
        cs.len()
    };
    let e1 = line_end_from(&cs, start);
    let value = line_from(&cs, start, e1);
    proof {
        let s = buffer_string@;
        assert(cs@.skip(0) =~= s);
        assert(cs@.skip(start as int) =~= after_first_line(s));
        assert(line(after_first_line(s), 0) == first_line(after_first_line(s)));
        assert(line(s, 1) == first_line(after_first_line(s)));
    }
    BarUpdate { key: lowercase(name.as_str()), value }
}

/// The payload that sets slot `block` to `output`: the two joined by a `'\n'`.
pub fn encode_update(block: &str, output: &str) -> (r: String)
    ensures
        r@ == block@ + seq!['\n'] + output@,
{
    let mut r = block.to_owned();
    r.append("\n");
    r.append(output);
    proof {
        reveal_strlit("\n");
    }
    r
}

/// A payload built by `encode_update` reads back as the same slot and value,
/// where neither holds a `'\n'` and the slot does not end in `'\r'`.
pub proof fn lemma_encoded_update_reads_back(block: Seq<char>, output: Seq<char>)
    requires
        !block.contains('\n'),
        !output.contains('\n'),
        block.len() == 0 || block.last() != '\r',
    ensures
        line(block + seq!['\n'] + output, 0) == block,
        line(block + seq!['\n'] + output, 1) == output,
{
    let s = block + seq!['\n'] + output;
    assert forall|j: int| 0 <= j < block.len() implies s[j] != '\n' by {
        assert(s[j] == block[j]);
        if block[j] == '\n' {
            assert(block.contains('\n'));
        }
    }
    assert(s[block.len() as int] == '\n');
    lemma_line_end(s, block.len() as int);
    assert(s.take(block.len() as int) =~= block);
    let rest = after_first_line(s);
    assert(rest =~= output);
    assert forall|j: int| 0 <= j < output.len() implies output[j] != '\n' by {
        if output[j] == '\n' {
            assert(output.contains('\n'));
        }
    }
    lemma_line_end(output, output.len() as int);
    assert(output.take(output.len() as int) =~= output);
    assert(line(rest, 0) == first_line(rest));
    assert(line(s, 1) == first_line(rest));
}

/// The first two lines of a payload are read off it whatever follows the
/// second: further lines are ignored.
pub proof fn lemma_lines_after_the_second_are_ignored(
    name: Seq<char>,
    value: Seq<char>,
    rest: Seq<char>,
)
    requires
        !name.contains('\n'),
        !value.contains('\n'),
        name.len() == 0 || name.last() != '\r',
        value.len() == 0 || value.last() != '\r',
    ensures
        line(name + seq!['\n'] + value + seq!['\n'] + rest, 0) == name,
        line(name + seq!['\n'] + value + seq!['\n'] + rest, 1) == value,
{
    let tail = value + seq!['\n'] + rest;
    let s = name + seq!['\n'] + tail;
    assert(s =~= name + seq!['\n'] + value + seq!['\n'] + rest);
    assert forall|j: int| 0 <= j < name.len() implies s[j] != '\n' by {
        assert(s[j] == name[j]);
        if name[j] == '\n' {
            assert(name.contains('\n'));
        }
    }
    assert(s[name.len() as int] == '\n');
    lemma_line_end(s, name.len() as int);
    assert(s.take(name.len() as int) =~= name);
    assert(after_first_line(s) =~= tail);
    assert forall|j: int| 0 <= j < value.len() implies tail[j] != '\n' by {
        assert(tail[j] == value[j]);
        if value[j] == '\n' {
            assert(value.contains('\n'));
        }
    }
    assert(tail[value.len() as int] == '\n');
    lemma_line_end(tail, value.len() as int);
    assert(tail.take(value.len() as int) =~= value);
    assert(line(tail, 0) == first_line(tail));
    assert(line(s, 1) == line(tail, 0));
}

/// A payload of one line, with no `'\n'`, names its slot with all of its
/// text and carries an empty value.
pub proof fn lemma_single_line_has_empty_value(s: Seq<char>)
    requires
        !s.contains('\n'),
    ensures
        line(s, 0) == s,
        line(s, 1) == Seq::<char>::empty(),
{
    assert forall|j: int| 0 <= j < s.len() implies s[j] != '\n' by {
        if s[j] == '\n' {
            assert(s.contains('\n'));
        }
    }
    lemma_line_end(s, s.len() as int);
    assert(s.take(s.len() as int) =~= s);
    let rest = after_first_line(s);
    assert(rest =~= Seq::<char>::empty());
    lemma_line_end(rest, 0);
    assert(rest.take(0) =~= Seq::<char>::empty());
    assert(line(rest, 0) == first_line(rest));
}

/// The socket address of server `id`: a name in the abstract namespace
/// (a leading NUL), then the id, then `"_polyblocks_socket"`.
pub open spec fn socket_addr_of(id: Seq<char>) -> Seq<char> {
    seq!['\0'] + id + "_polyblocks_socket"@
}

/// The socket address of server `id`.
pub fn get_socket_addr(id: &str) -> (r: String)
    ensures
        r@ == socket_addr_of(id@),
{
    let mut r = "\0".to_owned();
    r.append(id);
    r.append("_polyblocks_socket");
    proof {
        reveal_strlit("\0");
    }
    r
}

/// Two servers with different ids never share a socket address.
pub proof fn lemma_socket_addr_unique(a: Seq<char>, b: Seq<char>)
    requires
        a != b,
    ensures
        socket_addr_of(a) != socket_addr_of(b),
{
    reveal_strlit("_polyblocks_socket");
    if socket_addr_of(a) == socket_addr_of(b) {
        let x = socket_addr_of(a);
        assert(socket_addr_of(a).len() == a.len() + 19);
        assert(socket_addr_of(b).len() == b.len() + 19);
        assert(a.len() == b.len());
        assert(x.subrange(1, 1 + a.len() as int) =~= a);
        assert(socket_addr_of(b).subrange(1, 1 + b.len() as int) =~= b);
    }
}

/// Why a client could not deliver an update.
#[derive(Debug, Clone, Copy, PartialEq, Eq)]
pub enum PolyblocksError {
    /// The server's socket could not be reached.
    SocketConnection,
    /// The payload could not be written.
    SocketWrite,
}

} // verus!
