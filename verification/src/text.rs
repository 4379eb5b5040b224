//! String and string-collection helpers shared by the caches.
//!
//! Matrix identifiers (user ids, room ids, device ids) are carried as plain
//! `String`s; collections of them are `Vec<String>` kept free of duplicates.
//! The spec-level reading of such a vector is the set of character sequences
//! it holds.

use vstd::prelude::*;

verus! {

/// Every string of `s` appears only once (by its character sequence).
pub open spec fn distinct_views(s: Seq<String>) -> bool {
    forall|i: int, j: int| 0 <= i < j < s.len() ==> s[i]@ != s[j]@
}

/// The set of character sequences that the strings of `s` denote.
pub open spec fn view_set(s: Seq<String>) -> Set<Seq<char>> {
    Set::new(|e: Seq<char>| exists|i: int| 0 <= i < s.len() && s[i]@ == e)
}

/// Appending a string adds exactly its character sequence to the set.
pub proof fn lemma_view_set_push(s: Seq<String>, x: String)
    ensures
        view_set(s.push(x)) == view_set(s).insert(x@),
{
    assert forall|e: Seq<char>| view_set(s.push(x)).contains(e) implies view_set(s).insert(
        x@,
    ).contains(e) by {
        let i = choose|i: int| 0 <= i < s.push(x).len() && s.push(x)[i]@ == e;
        if i < s.len() {
            assert(s[i]@ == e);
        }
    }
    assert forall|e: Seq<char>| view_set(s).insert(x@).contains(e) implies view_set(
        s.push(x),
    ).contains(e) by {
        if e == x@ {
            assert(s.push(x)[s.len() as int]@ == e);
        } else {
            let i = choose|i: int| 0 <= i < s.len() && s[i]@ == e;
            assert(s.push(x)[i]@ == e);
        }
    }
    assert(view_set(s.push(x)) =~= view_set(s).insert(x@));
}

/// Without duplicates, the set is exactly as large as the vector.
pub proof fn lemma_view_set_len(s: Seq<String>)
    requires
        distinct_views(s),
    ensures
        view_set(s).finite(),
        view_set(s).len() == s.len(),
    decreases s.len(),
{
    if s.len() == 0 {
        assert(view_set(s) =~= Set::<Seq<char>>::empty());
    } else {
        let pre = s.drop_last();
        lemma_view_set_len(pre);
        assert(s == pre.push(s.last()));
        lemma_view_set_push(pre, s.last());
        if view_set(pre).contains(s.last()@) {
            let k = choose|k: int| 0 <= k < pre.len() && pre[k]@ == s.last()@;
            assert(s[k]@ == s[s.len() - 1]@);
            assert(false);
        }
    }
}

/// An element-wise copy of a vector of strings.
pub fn clone_strings(v: &Vec<String>) -> (r: Vec<String>)
    ensures
        r@ == v@,
{
    let r = v.clone();
    proof {
        assert forall|i: int| 0 <= i < v@.len() implies v@[i] == r@[i] by {
            assert(cloned::<String>(v[i], r[i]));
        }
        assert(r@ =~= v@);
    }
    r
}

/// String equality, decided on the character sequences.
pub fn str_eq(a: &String, b: &String) -> (r: bool)
    ensures
        r == (a@ == b@),
{
    a.eq(b)
}

/// Whether `v` holds a string equal to `x`.
pub fn holds_string(v: &Vec<String>, x: &String) -> (r: bool)
    ensures
        r == view_set(v@).contains(x@),
{
    let mut i: usize = 0;
    while i < v.len()
        invariant
            0 <= i <= v@.len(),
            forall|k: int| 0 <= k < i ==> v@[k]@ != x@,
        decreases v@.len() - i,
    {
        if str_eq(&v[i], x) {
            assert(view_set(v@).contains(x@));
            return true;
        }
        i += 1;
    }
    assert(!view_set(v@).contains(x@));
    false
}

/// Appends `x` unless an equal string is already present.
pub fn push_if_absent(v: &mut Vec<String>, x: String)
    requires
        distinct_views(old(v)@),
    ensures
        distinct_views(final(v)@),
        view_set(final(v)@) == view_set(old(v)@).insert(x@),
        view_set(old(v)@).contains(x@) ==> final(v)@ == old(v)@,
        !view_set(old(v)@).contains(x@) ==> final(v)@ == old(v)@.push(x),
{
    if !holds_string(v, &x) {
        let ghost pre = v@;
        v.push(x);
        proof {
            lemma_view_set_push(pre, v@[pre.len() as int]);
        }
    } else {
        assert(view_set(v@) =~= view_set(v@).insert(x@));
    }
}

/// Removes every string equal to `x`, keeping the order of the rest.
pub fn remove_string(v: &mut Vec<String>, x: &String)
    requires
        distinct_views(old(v)@),
    ensures
        distinct_views(final(v)@),
        view_set(final(v)@) == view_set(old(v)@).remove(x@),
        !view_set(final(v)@).contains(x@),
{
    let mut out: Vec<String> = Vec::new();
    let mut i: usize = 0;
    while i < v.len()
        invariant
            0 <= i <= v@.len(),
            distinct_views(v@),
            distinct_views(out@),
            forall|k: int| 0 <= k < out@.len() ==> out@[k]@ != x@,
            view_set(out@) == view_set(v@.take(i as int)).remove(x@),
        decreases v@.len() - i,
    {
        let ghost pre = out@;
        if !str_eq(&v[i], x) {
            proof {
                if view_set(pre).contains(v@[i as int]@) {
                    let k = choose|k: int|
                        0 <= k < v@.take(i as int).len() && v@.take(i as int)[k]@ == v@[i as int]@;
                    assert(v@[k]@ == v@[i as int]@);
                    assert(false);
                }
                assert forall|k: int| 0 <= k < pre.len() implies pre[k]@ != v@[i as int]@ by {
                    assert(view_set(pre).contains(pre[k]@));
                }
            }
            let s = v[i].clone();
            out.push(s);
            proof {
                lemma_view_set_push(pre, out@[pre.len() as int]);
            }
        }
        proof {
            assert(v@.take(i as int + 1) == v@.take(i as int).push(v@[i as int]));
            lemma_view_set_push(v@.take(i as int), v@[i as int]);
            assert(view_set(out@) =~= view_set(v@.take(i as int + 1)).remove(x@));
        }
        i += 1;
    }
    assert(v@.take(v@.len() as int) == v@);
    *v = out;
}

/// The union of the two vectors' sets, built from `a` by insertion.
pub fn union_strings(a: &mut Vec<String>, b: &Vec<String>)
    requires
        distinct_views(old(a)@),
    ensures
        distinct_views(final(a)@),
        view_set(final(a)@) == view_set(old(a)@).union(view_set(b@)),
{
    let mut i: usize = 0;
    while i < b.len()
        invariant
            0 <= i <= b@.len(),
            distinct_views(a@),
            view_set(a@) == view_set(old(a)@).union(view_set(b@.take(i as int))),
        decreases b@.len() - i,
    {
        let ghost pre = a@;
        let s = b[i].clone();
        push_if_absent(a, s);
        proof {
            assert(b@.take(i as int + 1) == b@.take(i as int).push(b@[i as int]));
            lemma_view_set_push(b@.take(i as int), b@[i as int]);
            assert(view_set(a@) =~= view_set(old(a)@).union(view_set(b@.take(i as int + 1))));
        }
        i += 1;
    }
    assert(b@.take(b@.len() as int) == b@);
}

/// The ASCII-uppercase counterpart of a character.
pub open spec fn spec_upper_char(c: char) -> char {
    if 'a' <= c && c <= 'z' {
        (((c as u8) - 32) as char)
    } else {
        c
    }
}

/// ASCII strings are uppercased character by character; anything else is
/// left as it stands.
pub open spec fn spec_ascii_upper(s: Seq<char>) -> Seq<char> {
    if vstd::utf8::is_ascii_chars(s) {
        Seq::new(s.len(), |i: int| spec_upper_char(s[i]))
    } else {
        s
    }
}

/// Relies on String::from_utf8: bytes below 128 are valid UTF-8 and decode
/// to exactly the characters with those code points.
#[verifier::external_body]
fn ascii_string_from_bytes(v: &Vec<u8>) -> (r: String)
    requires
        forall|i: int| 0 <= i < v@.len() ==> v@[i] < 128,
    ensures
        r@.len() == v@.len(),
        forall|i: int| 0 <= i < v@.len() ==> r@[i] == v@[i] as char,
{
    String::from_utf8(v.clone()).unwrap_or_default()
}

/// Uppercases the ASCII letters of `s`; a string with characters beyond
/// ASCII is returned unchanged.
pub fn ascii_upper(s: &String) -> (r: String)
    ensures
        r@ == spec_ascii_upper(s@),
{
    let sstr = s.as_str();
    if !sstr.is_ascii() {
        return s.clone();
    }
    proof {
        vstd::string::is_ascii_spec_bytes(sstr);
    }
    let b = sstr.as_bytes();
    let mut out: Vec<u8> = Vec::new();
    let mut i: usize = 0;
    while i < b.len()
        invariant
            0 <= i <= b@.len(),
            vstd::utf8::is_ascii_chars(s@),
            b@.len() == s@.len(),
            forall|k: int| 0 <= k < b@.len() ==> b@[k] == (s@[k] as u8) && b@[k] < 128,
            out@.len() == i,
            forall|k: int| 0 <= k < i ==> out@[k] == (spec_upper_char(s@[k]) as u8) && out@[k]
                < 128,
        decreases b@.len() - i,
    {
        let x = b[i];
        let y = if 97 <= x && x <= 122 {
            x - 32
        } else {
            x
        };
        out.push(y);
        proof {
            let ghost c = s@[i as int];
            assert('\0' <= c <= '\u{7f}');
            assert(c as u32 <= 127);
            assert(b@[i as int] == c as u8);
            assert(c as u8 as u32 == c as u32);
            assert(('a' <= c && c <= 'z') == (97 <= b@[i as int] && b@[i as int] <= 122));
        }
        i += 1;
    }
    let r = ascii_string_from_bytes(&out);
    proof {
        assert forall|k: int| 0 <= k < r@.len() implies r@[k] == spec_ascii_upper(s@)[k] by {
            assert(r@[k] == out@[k] as char);
            assert(out@[k] == spec_upper_char(s@[k]) as u8);
        }
        assert(r@ =~= spec_ascii_upper(s@));
    }
    r
}

} // verus!
