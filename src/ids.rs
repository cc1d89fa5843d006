//! Object identifiers: 24 hexadecimal digits, kept in canonical lower-case form.
use vstd::prelude::*;

verus! {

/// An ASCII hexadecimal digit, in either case.
pub open spec fn is_hex_digit(c: char) -> bool {
    ('0' <= c && c <= '9') || ('a' <= c && c <= 'f') || ('A' <= c && c <= 'F')
}

/// The digit written in lower case.
pub open spec fn lower_digit(c: char) -> char {
    if 'A' <= c && c <= 'F' {
        ((c as u32) + 32) as char
    } else {
        c
    }
}

/// Text that names a 12-byte object identifier: exactly 24 hexadecimal digits.
pub open spec fn is_object_id_text(s: Seq<char>) -> bool {
    s.len() == 24 && forall|i: int| 0 <= i < s.len() ==> #[trigger] is_hex_digit(s[i])
}

/// The canonical (lower-case) form of an identifier's text.
pub open spec fn canonical_id(s: Seq<char>) -> Seq<char> {
    s.map_values(|c: char| lower_digit(c))
}

/// The texts held by a sequence of strings.
pub open spec fn texts(v: Seq<String>) -> Seq<Seq<char>> {
    v.map_values(|s: String| s@)
}

/// The canonical forms of the well-formed identifiers among `s`, in order of
/// first appearance; malformed entries and repeats are dropped.
pub open spec fn canonical_ids(s: Seq<Seq<char>>) -> Seq<Seq<char>>
    decreases s.len(),
{
    if s.len() == 0 {
        Seq::empty()
    } else {
        let prev = canonical_ids(s.drop_last());
        if is_object_id_text(s.last()) && !prev.contains(canonical_id(s.last())) {
            prev.push(canonical_id(s.last()))
        } else {
            prev
        }
    }
}

/// Relies on bson's `ObjectId::parse_str`, which accepts exactly the texts of
/// 24 hex digits (hex::decode to 12 bytes), and `ObjectId::to_hex`, which writes
/// the 12 bytes back as lower-case hex digits.
#[verifier::external_body]
fn object_id_hex(s: &str) -> (r: Option<String>)
    ensures
        r.is_some() <==> is_object_id_text(s@),
        r matches Some(t) ==> t@ == canonical_id(s@),
{
    match mongodb::bson::oid::ObjectId::parse_str(s) {
        Ok(oid) => Some(oid.to_hex()),
        Err(_) => None,
    }
}

/// Validates an identifier and returns its canonical text.
pub fn parse_object_id(s: &str) -> (r: Option<String>)
    ensures
        r.is_some() <==> is_object_id_text(s@),
        r matches Some(t) ==> t@ == canonical_id(s@),
{
    object_id_hex(s)
}

/// No identifier is kept twice.
proof fn lemma_canonical_ids_distinct(s: Seq<Seq<char>>)
    ensures
        canonical_ids(s).no_duplicates(),
    decreases s.len(),
{
    if s.len() > 0 {
        lemma_canonical_ids_distinct(s.drop_last());
        let prev = canonical_ids(s.drop_last());
        let c = canonical_id(s.last());
        if is_object_id_text(s.last()) && !prev.contains(c) {
            let t = prev.push(c);
            assert forall|a: int, b: int| 0 <= a < t.len() && 0 <= b < t.len() && a != b implies t[a] != t[b] by {
                if a == prev.len() {
                    assert(prev[b] != c);
                } else if b == prev.len() {
                    assert(prev[a] != c);
                }
            }
        }
    }
}

/// Whether `v` holds the text `t`.
fn holds_text(v: &Vec<String>, t: &String) -> (r: bool)
    ensures
        r == texts(v@).contains(t@),
{
    let mut m: usize = 0;
    while m < v.len()
        invariant
            m <= v@.len(),
            forall|n: int| 0 <= n < m ==> v@[n]@ != t@,
        decreases v@.len() - m,
    {
        if v[m] == *t {
            assert(texts(v@)[m as int] == t@);
            return true;
        }
        m = m + 1;
    }
    proof {
        if texts(v@).contains(t@) {
            let k = choose|k: int| 0 <= k < v@.len() && texts(v@)[k] == t@;
            assert(v@[k]@ == t@);
        }
    }
    false
}

/// The canonical forms of the well-formed identifiers among `ids`, each once;
/// malformed ones are silently dropped.
pub fn parse_option_ids(ids: &Vec<String>) -> (r: Vec<String>)
    ensures
        texts(r@) == canonical_ids(texts(ids@)),
        texts(r@).no_duplicates(),
{
    let mut r: Vec<String> = Vec::new();
    let mut i: usize = 0;
    while i < ids.len()
        invariant
            i <= ids@.len(),
            texts(r@) == canonical_ids(texts(ids@.subrange(0, i as int))),
        decreases ids@.len() - i,
    {
        let parsed = object_id_hex(ids[i].as_str());
        proof {
            let pre = ids@.subrange(0, i as int);
            let next = ids@.subrange(0, i as int + 1);
            assert(texts(next).drop_last() =~= texts(pre));
            assert(texts(next).last() == ids@[i as int]@);
        }
        match parsed {
            Some(t) => {
                if !holds_text(&r, &t) {
                    r.push(t);
                    assert(texts(r@) =~= canonical_ids(texts(ids@.subrange(0, i as int))).push(t@));
                }
            },
            None => {},
        }
        i = i + 1;
    }
    assert(ids@.subrange(0, ids@.len() as int) =~= ids@);
    proof {
        lemma_canonical_ids_distinct(texts(ids@));
    }
    r
}

} // verus!
