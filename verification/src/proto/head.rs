//! The head of a request: what it asks for, and its header fields.
use vstd::prelude::*;
use vstd::string::*;

use crate::text;

verus! {

/// Version of HTTP.
#[derive(Debug, Clone, Copy, PartialEq, Eq, Structural)]
pub enum Version {
    /// HTTP/0.9.
    Http09,
    /// HTTP/1.0.
    Http10,
    /// HTTP/1.1.
    Http11,
    /// HTTP/2.
    Http2,
    /// HTTP/3.
    Http3,
}

/// One header field.
#[derive(Debug)]
pub struct Field {
    /// The name. Its case makes no difference.
    pub name: String,
    /// The value.
    pub value: Vec<u8>,
}

/// The head of a request.
#[derive(Debug)]
pub struct Head {
    /// The method.
    pub method: String,
    /// What is asked for.
    pub uri: String,
    /// The version.
    pub version: Version,
    /// The header fields, in order.
    pub fields: Vec<Field>,
}

/// A request with its body, held in memory.
#[derive(Debug)]
pub struct Request {
    /// The head.
    pub head: Head,
    /// The whole body.
    pub body: Vec<u8>,
}

/// Whether `f` names the host.
pub open spec fn is_host(f: Field) -> bool {
    text::lowered(f.name@) == "host"@
}

/// `fields` without those that name the host.
pub open spec fn without_host(fields: Seq<Field>) -> Seq<Field> {
    fields.filter(|f: Field| !is_host(f))
}

/// The first of `fields` from `i` on that names the host.
pub open spec fn first_host(fields: Seq<Field>, i: int) -> Option<Seq<u8>>
    decreases fields.len() - i,
{
    if i < 0 || i >= fields.len() {
        None
    } else if is_host(fields[i]) {
        Some(fields[i].value@)
    } else {
        first_host(fields, i + 1)
    }
}

/// Whether `f` names the host.
fn names_the_host(f: &Field) -> (r: bool)
    ensures
        r == is_host(*f),
{
    let r = text::same_ignoring_case(&f.name, "host");
    proof {
        reveal_strlit("host");
        assert(text::lowered("host"@) =~= "host"@);
    }
    r
}

/// Takes out every field that names the host. The others stay in order.
pub fn drop_host(fields: &mut Vec<Field>)
    ensures
        final(fields)@ == without_host(old(fields)@),
{
    let ghost all = fields@;
    let ghost keep = |f: Field| !is_host(f);
    let ghost mut done: int = 0;
    let mut i: usize = 0;
    while i < fields.len()
        invariant
            all == old(fields)@,
            keep == (|f: Field| !is_host(f)),
            0 <= done <= all.len(),
            i <= fields@.len(),
            fields@.take(i as int) == all.take(done).filter(keep),
            fields@.skip(i as int) == all.skip(done),
        decreases fields@.len() - i,
    {
        let ghost before = fields@;
        let ghost f = before[i as int];
        proof {
            assert(f == before.skip(i as int)[0]);
            assert(all.skip(done).len() == before.skip(i as int).len());
            assert(f == all.skip(done)[0]);
            assert(f == all[done]);
            assert(all.take(done + 1) =~= all.take(done).push(f));
            assert(all.skip(done + 1) =~= all.skip(done).drop_first());
            assert(before.skip(i + 1) =~= before.skip(i as int).drop_first());
            reveal(Seq::filter);
            assert(all.take(done + 1).drop_last() =~= all.take(done));
        }
        if names_the_host(&fields[i]) {
            let _ = fields.remove(i);
            assert(fields@.take(i as int) =~= before.take(i as int));
            assert(fields@.skip(i as int) =~= before.skip(i + 1));
        } else {
            i += 1;
            assert(fields@.take(i as int) =~= before.take(i - 1).push(f));
        }
        proof {
            done = done + 1;
        }
    }
    proof {
        assert(fields@.take(i as int) =~= fields@);
        assert(fields@.skip(i as int).len() == 0);
        assert(all.take(done) =~= all);
    }
}

/// Whether `b` may stand in the value of a header that is read as text: a
/// printable ASCII character or a tab.
pub open spec fn is_visible(b: u8) -> bool {
    32 <= b < 127 || b == 9
}

/// The characters that `value` holds, each in one byte.
pub open spec fn characters(value: Seq<u8>) -> Seq<char> {
    value.map_values(|b: u8| b as char)
}

/// Whether `t` is the text of the header value `value`: its characters, or
/// `None` where one of its bytes is not visible ASCII.
pub open spec fn reads_as(value: Seq<u8>, t: Option<Seq<char>>) -> bool {
    match t {
        Some(s) => {
            &&& forall|i: int| 0 <= i < value.len() ==> is_visible(#[trigger] value[i])
            &&& s == characters(value)
        },
        None => exists|i: int| 0 <= i < value.len() && !is_visible(#[trigger] value[i]),
    }
}

/// The text of a `host` header; `None` where a byte of it is not visible ASCII.
pub fn host_text(value: &Vec<u8>) -> (r: Option<String>)
    ensures
        match r {
            Some(s) => reads_as(value@, Some(s@)),
            None => reads_as(value@, None),
        },
{
    let mut s = String::new();
    for i in 0..value.len()
        invariant
            forall|j: int| 0 <= j < i ==> is_visible(#[trigger] value@[j]),
            s@ == characters(value@.take(i as int)),
    {
        let b: u8 = value[i];
        if !((b >= 32 && b < 127) || b == 9) {
            assert(!is_visible(value@[i as int]));
            return None;
        }
        s.push(b as char);
        assert(characters(value@.take(i + 1)) =~= characters(value@.take(i as int)).push(
            value@[i as int] as char,
        ));
    }
    assert(value@.take(value@.len() as int) =~= value@);
    Some(s)
}

/// Whether `host` is the host that `fields` name: the text of the first field
/// that does, where its value is text.
pub open spec fn names_host(fields: Seq<Field>, host: Option<Seq<char>>) -> bool {
    match first_host(fields, 0) {
        None => host is None,
        Some(value) => reads_as(value, host),
    }
}

/// The host that `fields` name.
pub fn host_of(fields: &Vec<Field>) -> (r: Option<String>)
    ensures
        match r {
            Some(s) => names_host(fields@, Some(s@)),
            None => names_host(fields@, None),
        },
{
    let mut i: usize = 0;
    while i < fields.len()
        invariant
            i <= fields@.len(),
            first_host(fields@, 0) == first_host(fields@, i as int),
        decreases fields@.len() - i,
    {
        if names_the_host(&fields[i]) {
            assert(first_host(fields@, i as int) == Some(fields@[i as int].value@));
            return host_text(&fields[i].value);
        }
        i += 1;
    }
    None
}

/// Nothing in what is left names the host, every other field stays, and doing
/// it again changes nothing.
pub proof fn host_is_dropped_once(fields: Seq<Field>)
    ensures
        forall|i: int|
            0 <= i < without_host(fields).len() ==> !is_host(#[trigger] without_host(fields)[i]),
        forall|i: int|
            0 <= i < fields.len() && !is_host(#[trigger] fields[i]) ==> without_host(
                fields,
            ).contains(fields[i]),
        without_host(without_host(fields)) == without_host(fields),
        first_host(without_host(fields), 0) is None,
    decreases fields.len(),
{
    broadcast use vstd::seq_lib::group_filter_ensures;

    let kept = without_host(fields);
    lemma_nothing_to_drop(kept);
    lemma_no_host(kept, 0);
}

proof fn lemma_nothing_to_drop(fields: Seq<Field>)
    requires
        forall|i: int| 0 <= i < fields.len() ==> !is_host(#[trigger] fields[i]),
    ensures
        without_host(fields) == fields,
    decreases fields.len(),
{
    reveal(Seq::filter);
    if fields.len() > 0 {
        lemma_nothing_to_drop(fields.drop_last());
        assert(!is_host(fields.last()));
        assert(fields =~= fields.drop_last().push(fields.last()));
    }
}

proof fn lemma_no_host(fields: Seq<Field>, i: int)
    requires
        0 <= i <= fields.len(),
        forall|j: int| 0 <= j < fields.len() ==> !is_host(#[trigger] fields[j]),
    ensures
        first_host(fields, i) is None,
    decreases fields.len() - i,
{
    if i < fields.len() {
        lemma_no_host(fields, i + 1);
    }
}

/// The fields that do not name the host keep their order and their number: one more
/// field behind the others is one more behind those that stay, unless it names the
/// host.
pub proof fn other_fields_keep_their_order(fields: Seq<Field>, f: Field)
    ensures
        without_host(Seq::empty()).len() == 0,
        text::lowered(f.name@) == "host"@ ==> without_host(fields.push(f)) == without_host(fields),
        text::lowered(f.name@) != "host"@ ==> without_host(fields.push(f)) == without_host(
            fields,
        ).push(f),
{
    reveal(Seq::filter);
    assert(fields.push(f).drop_last() =~= fields);
}

/// The host that is asked for is that of the first field that names it, in whatever
/// case its name is written; the fields before and behind make no difference.
pub proof fn first_host_field_decides(
    before: Seq<Field>,
    f: Field,
    behind: Seq<Field>,
)
    requires
        forall|i: int|
            0 <= i < before.len() ==> text::lowered((#[trigger] before[i]).name@) != "host"@,
        text::lowered(f.name@) == "host"@,
    ensures
        first_host(before + seq![f] + behind, 0) == Some(f.value@),
        first_host(before, 0) is None,
{
    let all = before + seq![f] + behind;
    lemma_first_host(all, before.len() as int, 0);
    assert(all[before.len() as int] == f);
    lemma_no_host(before, 0);
}

proof fn lemma_first_host(fields: Seq<Field>, k: int, i: int)
    requires
        0 <= i <= k < fields.len(),
        is_host(fields[k]),
        forall|j: int| 0 <= j < k ==> !is_host(#[trigger] fields[j]),
    ensures
        first_host(fields, i) == Some(fields[k].value@),
    decreases k - i,
{
    if i < k {
        assert(!is_host(fields[i]));
        lemma_first_host(fields, k, i + 1);
    }
}

/// A value is read as text exactly where each of its bytes is a printable ASCII
/// character or a tab; the text then has one character for each byte, with the code
/// of that byte.
pub proof fn text_is_read_byte_by_byte(value: Seq<u8>, t: Option<Seq<char>>)
    requires
        reads_as(value, t),
    ensures
        t is None <==> exists|i: int|
            0 <= i < value.len() && ((#[trigger] value[i]) < 32 && value[i] != 9 || value[i] > 126),
        t matches Some(s) ==> s.len() == value.len() && forall|i: int|
            0 <= i < s.len() ==> (#[trigger] s[i]) as int == value[i] as int,
{
    if let Some(s) = t {
        assert forall|i: int| 0 <= i < s.len() implies (#[trigger] s[i]) as int
            == value[i] as int by {
            assert(is_visible(value[i]));
        }
    } else {
        let i = choose|i: int| 0 <= i < value.len() && !is_visible(#[trigger] value[i]);
        assert(value[i] < 32 && value[i] != 9 || value[i] > 126);
    }
}

} // verus!
