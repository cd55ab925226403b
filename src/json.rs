//! A plain JSON document tree, as handed over by whatever parsed the wire text.

use vstd::prelude::*;

verus! {

/// A JSON number, kept exactly: integers by value, any other number by its
/// text.
#[derive(Clone, Debug)]
pub enum JsonNumber {
    UInt(u64),
    NegInt(i64),
    Decimal(String),
}

/// A JSON value. An object keeps its members in document order.
#[derive(Debug)]
pub enum JsonValue {
    Null,
    Bool(bool),
    Number(JsonNumber),
    Str(String),
    Array(Vec<JsonValue>),
    Object(Vec<(String, JsonValue)>),
}

/// The value of the first member named `key`.
pub open spec fn member(entries: Seq<(String, JsonValue)>, key: Seq<char>) -> Option<JsonValue>
    decreases entries.len(),
{
    if entries.len() == 0 {
        None
    } else if entries[0].0@ == key {
        Some(entries[0].1)
    } else {
        member(entries.skip(1), key)
    }
}

pub open spec fn has_member(v: JsonValue, key: Seq<char>) -> bool {
    v matches JsonValue::Object(entries) && member(entries@, key).is_some()
}

proof fn lemma_member_at(entries: Seq<(String, JsonValue)>, key: Seq<char>, i: int)
    requires
        0 <= i <= entries.len(),
        forall|j: int| 0 <= j < i ==> (#[trigger] entries[j]).0@ != key,
    ensures
        i < entries.len() && entries[i].0@ == key ==> member(entries, key) == Some(entries[i].1),
        i == entries.len() ==> member(entries, key).is_none(),
    decreases i,
{
    if i > 0 {
        let rest = entries.skip(1);
        assert forall|j: int| 0 <= j < i - 1 implies (#[trigger] rest[j]).0@ != key by {
            assert(rest[j] == entries[j + 1]);
        }
        lemma_member_at(rest, key, i - 1);
    }
}

proof fn lemma_member_after_remove(entries: Seq<(String, JsonValue)>, key: Seq<char>, i: int)
    requires
        0 <= i < entries.len(),
        entries[i].0@ != key,
    ensures
        member(entries.remove(i), key) == member(entries, key),
    decreases i,
{
    if i == 0 {
        assert(entries.remove(0) =~= entries.skip(1));
    } else {
        let rest = entries.skip(1);
        assert(entries.remove(i).skip(1) =~= rest.remove(i - 1));
        lemma_member_after_remove(rest, key, i - 1);
    }
}

/// Whether two strings hold the same characters.
pub fn same_text(a: &str, b: &str) -> (r: bool)
    ensures
        r == (a@ == b@),
{
    let n = a.unicode_len();
    if n != b.unicode_len() {
        return false;
    }
    let mut i: usize = 0;
    while i < n
        invariant
            n == a@.len(),
            n == b@.len(),
            0 <= i <= n,
            forall|j: int| 0 <= j < i ==> a@[j] == b@[j],
        decreases n - i,
    {
        if a.get_char(i) != b.get_char(i) {
            return false;
        }
        i = i + 1;
    }
    assert(a@ =~= b@);
    true
}

/// Removes the first member named `key` from an object's members and returns
/// its value; the members under other names are not disturbed.
pub fn take_member(entries: &mut Vec<(String, JsonValue)>, key: &str) -> (r: Option<JsonValue>)
    ensures
        r == member(old(entries)@, key@),
        r.is_none() ==> final(entries)@ == old(entries)@,
        forall|k: Seq<char>| k != key@ ==> member(final(entries)@, k) == member(old(entries)@, k),
{
    let n = entries.len();
    let mut i: usize = 0;
    while i < n
        invariant
            n == entries@.len(),
            entries@ == old(entries)@,
            0 <= i <= n,
            forall|j: int| 0 <= j < i ==> (#[trigger] entries@[j]).0@ != key@,
        decreases n - i,
    {
        if same_text(entries[i].0.as_str(), key) {
            proof {
                lemma_member_at(entries@, key@, i as int);
            }
            let ghost before = entries@;
            let (_, value) = entries.remove(i);
            proof {
                assert forall|k: Seq<char>| k != key@ implies member(entries@, k) == member(before, k) by {
                    lemma_member_after_remove(before, k, i as int);
                }
            }
            return Some(value);
        }
        i = i + 1;
    }
    proof {
        lemma_member_at(entries@, key@, n as int);
    }
    None
}

} // verus!
