//! Reading JSON, by `serde_json`.

use vstd::prelude::*;
use crate::strmap;
use crate::text::{self, chars_of};

verus! {

/// What `serde_json` finds wrong with bytes that are no JSON; nothing where they
/// are.
pub uninterp spec fn json_fault(bytes: Seq<u8>) -> Option<Seq<char>>;

/// `serde_json::from_slice`: the message of its error, if it gives one. When
/// that is and what it says is named, not described.
#[verifier::external_body]
pub(crate) fn find_fault(bytes: &Vec<u8>) -> (r: Option<String>)
    ensures
        strmap::opt_view(r) == json_fault(bytes@),
{
    let value: Result<serde_json::Value, serde_json::Error> = serde_json::from_slice(bytes);
    value.err().map(|e| e.to_string())
}

/// The text at a JSON pointer, as `serde_json` reads it; nothing where the bytes
/// are no JSON or hold no text there.
pub uninterp spec fn json_text(bytes: Seq<u8>, pointer: Seq<char>) -> Option<Seq<char>>;

/// `serde_json::Value::pointer` and `serde_json::Value::as_str` on what
/// `serde_json::from_slice` reads: the text at a JSON pointer. What it reads is
/// named, not described.
#[verifier::external_body]
pub(crate) fn text_at(bytes: &Vec<u8>, pointer: &str) -> (r: Option<String>)
    ensures
        strmap::opt_view(r) == json_text(bytes@, pointer@),
{
    let value: serde_json::Value = serde_json::from_slice(bytes).unwrap_or_default();
    value.pointer(pointer).and_then(|v| v.as_str()).map(|s| s.to_owned())
}

/// The length of the array at a JSON pointer, as `serde_json` reads it; nothing
/// where the bytes are no JSON or hold no array there.
pub uninterp spec fn json_count(bytes: Seq<u8>, pointer: Seq<char>) -> Option<usize>;

/// `serde_json::Value::pointer` and `serde_json::Value::as_array` on what
/// `serde_json::from_slice` reads: the length of the array at a JSON pointer.
/// What it reads is named, not described.
#[verifier::external_body]
pub(crate) fn count_at(bytes: &Vec<u8>, pointer: &str) -> (r: Option<usize>)
    ensures
        r == json_count(bytes@, pointer@),
{
    let value: serde_json::Value = serde_json::from_slice(bytes).unwrap_or_default();
    value.pointer(pointer).and_then(|v| v.as_array()).map(|a| a.len())
}

/// The names in the object at a JSON pointer, as `serde_json` reads it; nothing
/// where the bytes are no JSON or hold no object there.
pub uninterp spec fn json_names(bytes: Seq<u8>, pointer: Seq<char>) -> Option<Seq<Seq<char>>>;

/// The names, if there are any.
pub open spec fn names_view(r: Option<Vec<String>>) -> Option<Seq<Seq<char>>> {
    match r {
        Some(names) => Some(text::views(names@)),
        None => None,
    }
}

/// `serde_json::Value::pointer` and `serde_json::Value::as_object` on what
/// `serde_json::from_slice` reads: the names in the object at a JSON pointer, in
/// the order of the object. What it reads is named, not described.
#[verifier::external_body]
pub(crate) fn names_at(bytes: &Vec<u8>, pointer: &str) -> (r: Option<Vec<String>>)
    ensures
        names_view(r) == json_names(bytes@, pointer@),
{
    let value: serde_json::Value = serde_json::from_slice(bytes).unwrap_or_default();
    value.pointer(pointer).and_then(|v| v.as_object()).map(|o| o.keys().cloned().collect())
}

/// Whether there is a value at a JSON pointer, as `serde_json` reads it; not where
/// the bytes are no JSON.
pub uninterp spec fn json_holds(bytes: Seq<u8>, pointer: Seq<char>) -> bool;

/// `serde_json::Value::pointer` on what `serde_json::from_slice` reads: whether
/// there is a value at a JSON pointer. What it reads is named, not described.
#[verifier::external_body]
pub(crate) fn holds_at(bytes: &Vec<u8>, pointer: &str) -> (r: bool)
    ensures
        r == json_holds(bytes@, pointer@),
{
    let value: Result<serde_json::Value, serde_json::Error> = serde_json::from_slice(bytes);
    value.is_ok_and(|v| v.pointer(pointer).is_some())
}

/// A name as it stands in a JSON pointer: `~` is written `~0`, and `/` is written
/// `~1`.
pub open spec fn pointer_token(name: Seq<char>) -> Seq<char>
    decreases name.len(),
{
    if name.len() == 0 {
        Seq::empty()
    } else {
        let c = name.last();
        let before = pointer_token(name.drop_last());
        if c == '~' {
            before.push('~').push('0')
        } else if c == '/' {
            before.push('~').push('1')
        } else {
            before.push(c)
        }
    }
}

/// The pointer to a member of the outermost object.
pub open spec fn member_pointer(name: Seq<char>) -> Seq<char> {
    seq!['/'] + pointer_token(name)
}

pub(crate) fn pointer_to(name: &str) -> (r: String)
    ensures
        r@ == member_pointer(name@),
{
    let chars = chars_of(name);
    let mut out: String = String::new();
    out.push('/');
    let mut i: usize = 0;
    proof {
        assert(out@ =~= seq!['/'] + pointer_token(chars@.take(0)));
    }
    while i < chars.len()
        invariant
            i <= chars.len(),
            out@ == seq!['/'] + pointer_token(chars@.take(i as int)),
        decreases chars.len() - i,
    {
        let c = chars[i];
        let ghost before = out@;
        proof {
            assert(chars@.take(i + 1).drop_last() =~= chars@.take(i as int));
        }
        if c == '~' {
            out.push('~');
            out.push('0');
        } else if c == '/' {
            out.push('~');
            out.push('1');
        } else {
            out.push(c);
        }
        proof {
            assert(out@ =~= seq!['/'] + pointer_token(chars@.take(i + 1)));
        }
        i += 1;
    }
    proof {
        assert(chars@.take(i as int) =~= chars@);
    }
    out
}

/// A name stands in a pointer character by character. A slash and a tilde are written
/// so that none of them separates.
pub proof fn pointers_tell_names_apart(a: Seq<char>, c: char)
    ensures
        pointer_token(Seq::empty()) == Seq::<char>::empty(),
        c != '~' && c != '/' ==> pointer_token(a.push(c)) == pointer_token(a) + seq![c],
        pointer_token(a.push('~')) == pointer_token(a) + seq!['~', '0'],
        pointer_token(a.push('/')) == pointer_token(a) + seq!['~', '1'],
        !pointer_token(a).contains('/'),
        member_pointer(a) == seq!['/'] + pointer_token(a),
{
    assert(a.push(c).drop_last() =~= a);
    assert(a.push('~').drop_last() =~= a);
    assert(a.push('/').drop_last() =~= a);
    assert(pointer_token(a).push(c) =~= pointer_token(a) + seq![c]);
    assert(pointer_token(a).push('~').push('0') =~= pointer_token(a) + seq!['~', '0']);
    assert(pointer_token(a).push('~').push('1') =~= pointer_token(a) + seq!['~', '1']);
    tokens_hold_no_slash(a);
}

proof fn tokens_hold_no_slash(a: Seq<char>)
    ensures
        !pointer_token(a).contains('/'),
    decreases a.len(),
{
    if a.len() > 0 {
        tokens_hold_no_slash(a.drop_last());
        let before = pointer_token(a.drop_last());
        let t = pointer_token(a);
        if t.contains('/') {
            let i = choose|i: int| 0 <= i < t.len() && t[i] == '/';
            if i < before.len() {
                assert(before[i] == t[i]);
                assert(before.contains('/'));
            }
        }
    }
}

} // verus!
