//! Deterministic byte encoding of the record types, with decoding proved
//! to invert it. The stores hold records in this form, so every stored
//! record is fully reconstructible from its bytes.
//!
//! The format is fixed-width little-endian integers; a string is a
//! character count followed by one 32-bit scalar value per character; a
//! list is a count followed by its elements; a comment mapping is a count
//! followed by key-comment pairs.

use vstd::prelude::*;
use vstd::string::StrSliceExecFns;
use crate::types::{pairs_view, Comment, CommentS, Post, PostS, User, UserS};

verus! {

// ---------------------------------------------------------------------
// Spec-level encoding
// ---------------------------------------------------------------------

pub open spec fn u64_bytes(x: u64) -> Seq<u8> {
    seq![
        (x & 0xff) as u8,
        ((x >> 8) & 0xff) as u8,
        ((x >> 16) & 0xff) as u8,
        ((x >> 24) & 0xff) as u8,
        ((x >> 32) & 0xff) as u8,
        ((x >> 40) & 0xff) as u8,
        ((x >> 48) & 0xff) as u8,
        ((x >> 56) & 0xff) as u8,
    ]
}

pub open spec fn u32_bytes(x: u32) -> Seq<u8> {
    seq![
        (x & 0xff) as u8,
        ((x >> 8) & 0xff) as u8,
        ((x >> 16) & 0xff) as u8,
        ((x >> 24) & 0xff) as u8,
    ]
}

pub open spec fn char_bytes(c: char) -> Seq<u8> {
    u32_bytes(c as u32)
}

pub open spec fn chars_bytes(s: Seq<char>) -> Seq<u8>
    decreases s.len(),
{
    if s.len() == 0 {
        Seq::empty()
    } else {
        char_bytes(s[0]) + chars_bytes(s.drop_first())
    }
}

pub open spec fn str_bytes(s: Seq<char>) -> Seq<u8> {
    u64_bytes(s.len() as u64) + chars_bytes(s)
}

pub open spec fn u64s_bytes(s: Seq<u64>) -> Seq<u8>
    decreases s.len(),
{
    if s.len() == 0 {
        Seq::empty()
    } else {
        u64_bytes(s[0]) + u64s_bytes(s.drop_first())
    }
}

pub open spec fn comment_bytes(c: CommentS) -> Seq<u8> {
    u64_bytes(c.creator_id) + u64_bytes(c.post_id) + str_bytes(c.content)
}

pub open spec fn entries_bytes(es: Seq<(u64, CommentS)>) -> Seq<u8>
    decreases es.len(),
{
    if es.len() == 0 {
        Seq::empty()
    } else {
        u64_bytes(es[0].0) + comment_bytes(es[0].1) + entries_bytes(es.drop_first())
    }
}

pub open spec fn user_bytes(u: UserS) -> Seq<u8> {
    u64_bytes(u.id) + str_bytes(u.name) + str_bytes(u.phone) + str_bytes(u.password) + u64_bytes(
        u.post_ids.len() as u64,
    ) + u64s_bytes(u.post_ids)
}

pub open spec fn post_bytes(p: PostS) -> Seq<u8> {
    u64_bytes(p.id) + str_bytes(p.title) + str_bytes(p.content) + u64_bytes(p.user_id) + u32_bytes(
        p.likes,
    ) + u64_bytes(p.comments.len() as u64) + entries_bytes(p.comments)
}

/// The length prefixes are 64-bit, so a record is encodable exactly when
/// each of its sequences fits in one.
pub open spec fn str_fits(s: Seq<char>) -> bool {
    s.len() <= u64::MAX
}

pub open spec fn comment_fits(c: CommentS) -> bool {
    str_fits(c.content)
}

pub open spec fn user_fits(u: UserS) -> bool {
    str_fits(u.name) && str_fits(u.phone) && str_fits(u.password) && u.post_ids.len() <= u64::MAX
}

pub open spec fn post_fits(p: PostS) -> bool {
    &&& str_fits(p.title)
    &&& str_fits(p.content)
    &&& p.comments.len() <= u64::MAX
    &&& forall|i: int| 0 <= i < p.comments.len() ==> comment_fits(#[trigger] p.comments[i].1)
}

// ---------------------------------------------------------------------
// Spec-level decoding
// ---------------------------------------------------------------------

pub open spec fn u64_val(s: Seq<u8>) -> u64
    recommends
        s.len() == 8,
{
    (s[0] as u64) | ((s[1] as u64) << 8) | ((s[2] as u64) << 16) | ((s[3] as u64) << 24) | ((
    s[4] as u64) << 32) | ((s[5] as u64) << 40) | ((s[6] as u64) << 48) | ((s[7] as u64) << 56)
}

pub open spec fn u32_val(s: Seq<u8>) -> u32
    recommends
        s.len() == 4,
{
    (s[0] as u32) | ((s[1] as u32) << 8) | ((s[2] as u32) << 16) | ((s[3] as u32) << 24)
}

pub open spec fn sdec_u64(b: Seq<u8>) -> Option<(u64, Seq<u8>)> {
    if b.len() >= 8 {
        Some((u64_val(b.take(8)), b.skip(8)))
    } else {
        None
    }
}

pub open spec fn sdec_u32(b: Seq<u8>) -> Option<(u32, Seq<u8>)> {
    if b.len() >= 4 {
        Some((u32_val(b.take(4)), b.skip(4)))
    } else {
        None
    }
}

/// A valid Unicode scalar value: any code point outside the surrogate
/// range and at most 0x10FFFF.
pub open spec fn is_scalar_value(u: u32) -> bool {
    u < 0xD800 || (0xE000 <= u && u <= 0x10FFFF)
}

pub open spec fn sdec_char(b: Seq<u8>) -> Option<(char, Seq<u8>)> {
    match sdec_u32(b) {
        Some(v) => if is_scalar_value(v.0) {
            Some((v.0 as char, v.1))
        } else {
            None
        },
        None => None,
    }
}

pub open spec fn sdec_chars(b: Seq<u8>, n: nat) -> Option<(Seq<char>, Seq<u8>)>
    decreases n,
{
    if n == 0 {
        Some((Seq::empty(), b))
    } else {
        match sdec_char(b) {
            Some(v) => match sdec_chars(v.1, (n - 1) as nat) {
                Some(w) => Some((seq![v.0] + w.0, w.1)),
                None => None,
            },
            None => None,
        }
    }
}

pub open spec fn sdec_str(b: Seq<u8>) -> Option<(Seq<char>, Seq<u8>)> {
    match sdec_u64(b) {
        Some(v) => sdec_chars(v.1, v.0 as nat),
        None => None,
    }
}

pub open spec fn sdec_u64s(b: Seq<u8>, n: nat) -> Option<(Seq<u64>, Seq<u8>)>
    decreases n,
{
    if n == 0 {
        Some((Seq::empty(), b))
    } else {
        match sdec_u64(b) {
            Some(v) => match sdec_u64s(v.1, (n - 1) as nat) {
                Some(w) => Some((seq![v.0] + w.0, w.1)),
                None => None,
            },
            None => None,
        }
    }
}

pub open spec fn sdec_comment(b: Seq<u8>) -> Option<(CommentS, Seq<u8>)> {
    match sdec_u64(b) {
        Some(v) => match sdec_u64(v.1) {
            Some(w) => match sdec_str(w.1) {
                Some(s) => Some(
                    (CommentS { creator_id: v.0, post_id: w.0, content: s.0 }, s.1),
                ),
                None => None,
            },
            None => None,
        },
        None => None,
    }
}

pub open spec fn sdec_entries(b: Seq<u8>, n: nat) -> Option<(Seq<(u64, CommentS)>, Seq<u8>)>
    decreases n,
{
    if n == 0 {
        Some((Seq::empty(), b))
    } else {
        match sdec_u64(b) {
            Some(k) => match sdec_comment(k.1) {
                Some(c) => match sdec_entries(c.1, (n - 1) as nat) {
                    Some(w) => Some((seq![(k.0, c.0)] + w.0, w.1)),
                    None => None,
                },
                None => None,
            },
            None => None,
        }
    }
}

pub open spec fn sdec_user(b: Seq<u8>) -> Option<(UserS, Seq<u8>)> {
    match sdec_u64(b) {
        Some(id) => match sdec_str(id.1) {
            Some(name) => match sdec_str(name.1) {
                Some(phone) => match sdec_str(phone.1) {
                    Some(pw) => match sdec_u64(pw.1) {
                        Some(cnt) => match sdec_u64s(cnt.1, cnt.0 as nat) {
                            Some(ids) => Some(
                                (
                                    UserS {
                                        id: id.0,
                                        name: name.0,
                                        phone: phone.0,
                                        password: pw.0,
                                        post_ids: ids.0,
                                    },
                                    ids.1,
                                ),
                            ),
                            None => None,
                        },
                        None => None,
                    },
                    None => None,
                },
                None => None,
            },
            None => None,
        },
        None => None,
    }
}

/// Decodes a user record, accepting only when the bytes are consumed
/// entirely.
pub open spec fn sdec_user_full(b: Seq<u8>) -> Option<UserS> {
    match sdec_user(b) {
        Some(v) => if v.1.len() == 0 {
            Some(v.0)
        } else {
            None
        },
        None => None,
    }
}

pub open spec fn sdec_post(b: Seq<u8>) -> Option<(PostS, Seq<u8>)> {
    match sdec_u64(b) {
        Some(id) => match sdec_str(id.1) {
            Some(title) => match sdec_str(title.1) {
                Some(content) => match sdec_u64(content.1) {
                    Some(uid) => match sdec_u32(uid.1) {
                        Some(likes) => match sdec_u64(likes.1) {
                            Some(cnt) => match sdec_entries(cnt.1, cnt.0 as nat) {
                                Some(es) => Some(
                                    (
                                        PostS {
                                            id: id.0,
                                            title: title.0,
                                            content: content.0,
                                            user_id: uid.0,
                                            comments: es.0,
                                            likes: likes.0,
                                        },
                                        es.1,
                                    ),
                                ),
                                None => None,
                            },
                            None => None,
                        },
                        None => None,
                    },
                    None => None,
                },
                None => None,
            },
            None => None,
        },
        None => None,
    }
}

/// Decodes a comment record, accepting only when the bytes are consumed
/// entirely.
pub open spec fn sdec_comment_full(b: Seq<u8>) -> Option<CommentS> {
    match sdec_comment(b) {
        Some(v) => if v.1.len() == 0 {
            Some(v.0)
        } else {
            None
        },
        None => None,
    }
}

/// Decodes a post record, accepting only when the bytes are consumed
/// entirely.
pub open spec fn sdec_post_full(b: Seq<u8>) -> Option<PostS> {
    match sdec_post(b) {
        Some(v) => if v.1.len() == 0 {
            Some(v.0)
        } else {
            None
        },
        None => None,
    }
}

// ---------------------------------------------------------------------
// Round-trip lemmas: decoding inverts encoding
// ---------------------------------------------------------------------

proof fn lemma_u64_val_bytes(x: u64)
    ensures
        u64_val(u64_bytes(x)) == x,
{
    assert(((x & 0xff) as u8) as u64 | ((((x >> 8) & 0xff) as u8) as u64) << 8 | ((((x >> 16)
        & 0xff) as u8) as u64) << 16 | ((((x >> 24) & 0xff) as u8) as u64) << 24 | ((((x >> 32)
        & 0xff) as u8) as u64) << 32 | ((((x >> 40) & 0xff) as u8) as u64) << 40 | ((((x >> 48)
        & 0xff) as u8) as u64) << 48 | ((((x >> 56) & 0xff) as u8) as u64) << 56 == x)
        by (bit_vector);
}

proof fn lemma_u32_val_bytes(x: u32)
    ensures
        u32_val(u32_bytes(x)) == x,
{
    assert(((x & 0xff) as u8) as u32 | ((((x >> 8) & 0xff) as u8) as u32) << 8 | ((((x >> 16)
        & 0xff) as u8) as u32) << 16 | ((((x >> 24) & 0xff) as u8) as u32) << 24 == x)
        by (bit_vector);
}

pub proof fn lemma_rt_u64(x: u64, rest: Seq<u8>)
    ensures
        sdec_u64(u64_bytes(x) + rest) == Some((x, rest)),
{
    let b = u64_bytes(x) + rest;
    assert(b.take(8) =~= u64_bytes(x));
    assert(b.skip(8) =~= rest);
    lemma_u64_val_bytes(x);
}

pub proof fn lemma_rt_u32(x: u32, rest: Seq<u8>)
    ensures
        sdec_u32(u32_bytes(x) + rest) == Some((x, rest)),
{
    let b = u32_bytes(x) + rest;
    assert(b.take(4) =~= u32_bytes(x));
    assert(b.skip(4) =~= rest);
    lemma_u32_val_bytes(x);
}

pub proof fn lemma_rt_char(c: char, rest: Seq<u8>)
    ensures
        sdec_char(char_bytes(c) + rest) == Some((c, rest)),
{
    lemma_rt_u32(c as u32, rest);
    assert(is_scalar_value(c as u32));
    assert((c as u32) as char == c);
}

pub proof fn lemma_rt_chars(s: Seq<char>, rest: Seq<u8>)
    ensures
        sdec_chars(chars_bytes(s) + rest, s.len()) == Some((s, rest)),
    decreases s.len(),
{
    if s.len() == 0 {
        assert(chars_bytes(s) + rest =~= rest);
        assert(s =~= Seq::<char>::empty());
    } else {
        let c = s[0];
        let tail = s.drop_first();
        assert(chars_bytes(s) + rest =~= char_bytes(c) + (chars_bytes(tail) + rest));
        lemma_rt_char(c, chars_bytes(tail) + rest);
        lemma_rt_chars(tail, rest);
        assert(seq![c] + tail =~= s);
    }
}

pub proof fn lemma_rt_str(s: Seq<char>, rest: Seq<u8>)
    requires
        str_fits(s),
    ensures
        sdec_str(str_bytes(s) + rest) == Some((s, rest)),
{
    let n = s.len() as u64;
    assert(str_bytes(s) + rest =~= u64_bytes(n) + (chars_bytes(s) + rest));
    lemma_rt_u64(n, chars_bytes(s) + rest);
    assert(n as nat == s.len());
    lemma_rt_chars(s, rest);
}

pub proof fn lemma_rt_u64s(s: Seq<u64>, rest: Seq<u8>)
    ensures
        sdec_u64s(u64s_bytes(s) + rest, s.len()) == Some((s, rest)),
    decreases s.len(),
{
    if s.len() == 0 {
        assert(u64s_bytes(s) + rest =~= rest);
        assert(s =~= Seq::<u64>::empty());
    } else {
        let x = s[0];
        let tail = s.drop_first();
        assert(u64s_bytes(s) + rest =~= u64_bytes(x) + (u64s_bytes(tail) + rest));
        lemma_rt_u64(x, u64s_bytes(tail) + rest);
        lemma_rt_u64s(tail, rest);
        assert(seq![x] + tail =~= s);
    }
}

pub proof fn lemma_rt_comment(c: CommentS, rest: Seq<u8>)
    requires
        comment_fits(c),
    ensures
        sdec_comment(comment_bytes(c) + rest) == Some((c, rest)),
{
    assert(comment_bytes(c) + rest =~= u64_bytes(c.creator_id) + (u64_bytes(c.post_id) + (
    str_bytes(c.content) + rest)));
    lemma_rt_u64(c.creator_id, u64_bytes(c.post_id) + (str_bytes(c.content) + rest));
    lemma_rt_u64(c.post_id, str_bytes(c.content) + rest);
    lemma_rt_str(c.content, rest);
}

pub proof fn lemma_rt_entries(es: Seq<(u64, CommentS)>, rest: Seq<u8>)
    requires
        forall|i: int| 0 <= i < es.len() ==> comment_fits(#[trigger] es[i].1),
    ensures
        sdec_entries(entries_bytes(es) + rest, es.len()) == Some((es, rest)),
    decreases es.len(),
{
    if es.len() == 0 {
        assert(entries_bytes(es) + rest =~= rest);
        assert(es =~= Seq::<(u64, CommentS)>::empty());
    } else {
        let k = es[0].0;
        let c = es[0].1;
        let tail = es.drop_first();
        assert(entries_bytes(es) + rest =~= u64_bytes(k) + (comment_bytes(c) + (entries_bytes(
            tail,
        ) + rest)));
        lemma_rt_u64(k, comment_bytes(c) + (entries_bytes(tail) + rest));
        lemma_rt_comment(c, entries_bytes(tail) + rest);
        lemma_rt_entries(tail, rest);
        assert(seq![(k, c)] + tail =~= es);
        assert(es[0] == (k, c));
    }
}

/// Decoding the encoding of a user record yields the record back: the
/// serialized form is fully reconstructible.
pub proof fn lemma_rt_user(u: UserS)
    requires
        user_fits(u),
    ensures
        sdec_user_full(user_bytes(u)) == Some(u),
{
    let empty = Seq::<u8>::empty();
    let r5 = u64s_bytes(u.post_ids);
    let r4 = u64_bytes(u.post_ids.len() as u64) + r5;
    let r3 = str_bytes(u.password) + r4;
    let r2 = str_bytes(u.phone) + r3;
    let r1 = str_bytes(u.name) + r2;
    assert(user_bytes(u) =~= u64_bytes(u.id) + r1);
    assert(r5 =~= u64s_bytes(u.post_ids) + empty);
    lemma_rt_u64(u.id, r1);
    lemma_rt_str(u.name, r2);
    lemma_rt_str(u.phone, r3);
    lemma_rt_str(u.password, r4);
    lemma_rt_u64(u.post_ids.len() as u64, r5);
    lemma_rt_u64s(u.post_ids, empty);
    assert((u.post_ids.len() as u64) as nat == u.post_ids.len());
    assert(sdec_user(user_bytes(u)) matches Some(v) && v.0 == u && v.1 == empty) by {
        assert(UserS {
            id: u.id,
            name: u.name,
            phone: u.phone,
            password: u.password,
            post_ids: u.post_ids,
        } =~= u);
    }
}

/// Decoding the encoding of a comment record yields the record back: the
/// serialized form is fully reconstructible.
pub proof fn lemma_rt_comment_full(c: CommentS)
    requires
        comment_fits(c),
    ensures
        sdec_comment_full(comment_bytes(c)) == Some(c),
{
    let empty = Seq::<u8>::empty();
    lemma_rt_comment(c, empty);
    assert(comment_bytes(c) + empty =~= comment_bytes(c));
}

/// Decoding the encoding of a post record yields the record back: the
/// serialized form is fully reconstructible.
pub proof fn lemma_rt_post(p: PostS)
    requires
        post_fits(p),
    ensures
        sdec_post_full(post_bytes(p)) == Some(p),
{
    let empty = Seq::<u8>::empty();
    let r6 = entries_bytes(p.comments);
    let r5 = u64_bytes(p.comments.len() as u64) + r6;
    let r4 = u32_bytes(p.likes) + r5;
    let r3 = u64_bytes(p.user_id) + r4;
    let r2 = str_bytes(p.content) + r3;
    let r1 = str_bytes(p.title) + r2;
    assert(post_bytes(p) =~= u64_bytes(p.id) + r1);
    assert(r6 =~= entries_bytes(p.comments) + empty);
    lemma_rt_u64(p.id, r1);
    lemma_rt_str(p.title, r2);
    lemma_rt_str(p.content, r3);
    lemma_rt_u64(p.user_id, r4);
    lemma_rt_u32(p.likes, r5);
    lemma_rt_u64(p.comments.len() as u64, r6);
    lemma_rt_entries(p.comments, empty);
    assert((p.comments.len() as u64) as nat == p.comments.len());
    assert(sdec_post(post_bytes(p)) matches Some(v) && v.0 == p && v.1 == empty) by {
        assert(PostS {
            id: p.id,
            title: p.title,
            content: p.content,
            user_id: p.user_id,
            comments: p.comments,
            likes: p.likes,
        } =~= p);
    }
}

// ---------------------------------------------------------------------
// Concatenation lemmas for the list encoders
// ---------------------------------------------------------------------

proof fn lemma_chars_bytes_concat(a: Seq<char>, b: Seq<char>)
    ensures
        chars_bytes(a + b) == chars_bytes(a) + chars_bytes(b),
    decreases a.len(),
{
    if a.len() == 0 {
        assert(a + b =~= b);
        assert(chars_bytes(a) + chars_bytes(b) =~= chars_bytes(b));
    } else {
        assert((a + b).drop_first() =~= a.drop_first() + b);
        lemma_chars_bytes_concat(a.drop_first(), b);
        assert(chars_bytes(a + b) =~= chars_bytes(a) + chars_bytes(b));
    }
}

proof fn lemma_chars_bytes_one(c: char)
    ensures
        chars_bytes(seq![c]) == char_bytes(c),
{
    assert(seq![c].drop_first() =~= Seq::<char>::empty());
    assert(char_bytes(c) + chars_bytes(Seq::<char>::empty()) =~= char_bytes(c));
}

proof fn lemma_u64s_bytes_concat(a: Seq<u64>, b: Seq<u64>)
    ensures
        u64s_bytes(a + b) == u64s_bytes(a) + u64s_bytes(b),
    decreases a.len(),
{
    if a.len() == 0 {
        assert(a + b =~= b);
        assert(u64s_bytes(a) + u64s_bytes(b) =~= u64s_bytes(b));
    } else {
        assert((a + b).drop_first() =~= a.drop_first() + b);
        lemma_u64s_bytes_concat(a.drop_first(), b);
        assert(u64s_bytes(a + b) =~= u64s_bytes(a) + u64s_bytes(b));
    }
}

proof fn lemma_u64s_bytes_one(x: u64)
    ensures
        u64s_bytes(seq![x]) == u64_bytes(x),
{
    assert(seq![x].drop_first() =~= Seq::<u64>::empty());
    assert(u64_bytes(x) + u64s_bytes(Seq::<u64>::empty()) =~= u64_bytes(x));
}

proof fn lemma_entries_bytes_concat(a: Seq<(u64, CommentS)>, b: Seq<(u64, CommentS)>)
    ensures
        entries_bytes(a + b) == entries_bytes(a) + entries_bytes(b),
    decreases a.len(),
{
    if a.len() == 0 {
        assert(a + b =~= b);
        assert(entries_bytes(a) + entries_bytes(b) =~= entries_bytes(b));
    } else {
        assert((a + b).drop_first() =~= a.drop_first() + b);
        lemma_entries_bytes_concat(a.drop_first(), b);
        assert(entries_bytes(a + b) =~= entries_bytes(a) + entries_bytes(b));
    }
}

proof fn lemma_entries_bytes_one(k: u64, c: CommentS)
    ensures
        entries_bytes(seq![(k, c)]) == u64_bytes(k) + comment_bytes(c),
{
    assert(seq![(k, c)].drop_first() =~= Seq::<(u64, CommentS)>::empty());
    assert(u64_bytes(k) + comment_bytes(c) + entries_bytes(Seq::<(u64, CommentS)>::empty()) =~= u64_bytes(
        k,
    ) + comment_bytes(c));
}

// ---------------------------------------------------------------------
// Executable encoding
// ---------------------------------------------------------------------

fn write_u64(out: &mut Vec<u8>, x: u64)
    ensures
        final(out)@ == old(out)@ + u64_bytes(x),
{
    proof {
        assert(x & 0xff < 256 && (x >> 8) & 0xff < 256 && (x >> 16) & 0xff < 256 && (x >> 24)
            & 0xff < 256 && (x >> 32) & 0xff < 256 && (x >> 40) & 0xff < 256 && (x >> 48) & 0xff
            < 256 && (x >> 56) & 0xff < 256) by (bit_vector);
    }
    out.push((x & 0xff) as u8);
    out.push(((x >> 8) & 0xff) as u8);
    out.push(((x >> 16) & 0xff) as u8);
    out.push(((x >> 24) & 0xff) as u8);
    out.push(((x >> 32) & 0xff) as u8);
    out.push(((x >> 40) & 0xff) as u8);
    out.push(((x >> 48) & 0xff) as u8);
    out.push(((x >> 56) & 0xff) as u8);
    assert(out@ =~= old(out)@ + u64_bytes(x));
}

fn write_u32(out: &mut Vec<u8>, x: u32)
    ensures
        final(out)@ == old(out)@ + u32_bytes(x),
{
    proof {
        assert(x & 0xff < 256 && (x >> 8) & 0xff < 256 && (x >> 16) & 0xff < 256 && (x >> 24)
            & 0xff < 256) by (bit_vector);
    }
    out.push((x & 0xff) as u8);
    out.push(((x >> 8) & 0xff) as u8);
    out.push(((x >> 16) & 0xff) as u8);
    out.push(((x >> 24) & 0xff) as u8);
    assert(out@ =~= old(out)@ + u32_bytes(x));
}

fn write_str(out: &mut Vec<u8>, s: &str)
    ensures
        final(out)@ == old(out)@ + str_bytes(s@),
        str_fits(s@),
{
    let n: usize = s.unicode_len();
    write_u64(out, n as u64);
    let mut i: usize = 0;
    while i < n
        invariant
            i <= n,
            n == s@.len(),
            out@ == old(out)@ + u64_bytes(n as u64) + chars_bytes(s@.take(i as int)),
        decreases n - i,
    {
        let c = s.get_char(i);
        write_u32(out, c as u32);
        proof {
            assert(s@.take(i + 1) =~= s@.take(i as int) + seq![s@[i as int]]);
            lemma_chars_bytes_concat(s@.take(i as int), seq![s@[i as int]]);
            lemma_chars_bytes_one(s@[i as int]);
            assert(out@ =~= old(out)@ + u64_bytes(n as u64) + chars_bytes(s@.take(i + 1)));
        }
        i = i + 1;
    }
    assert(s@.take(n as int) =~= s@);
    assert(out@ =~= old(out)@ + str_bytes(s@));
}

fn write_u64s(out: &mut Vec<u8>, v: &Vec<u64>)
    ensures
        final(out)@ == old(out)@ + u64s_bytes(v@),
{
    let mut i: usize = 0;
    while i < v.len()
        invariant
            i <= v@.len(),
            out@ == old(out)@ + u64s_bytes(v@.take(i as int)),
        decreases v@.len() - i,
    {
        write_u64(out, v[i]);
        proof {
            assert(v@.take(i + 1) =~= v@.take(i as int) + seq![v@[i as int]]);
            lemma_u64s_bytes_concat(v@.take(i as int), seq![v@[i as int]]);
            lemma_u64s_bytes_one(v@[i as int]);
            assert(out@ =~= old(out)@ + u64s_bytes(v@.take(i + 1)));
        }
        i = i + 1;
    }
    assert(v@.take(v@.len() as int) =~= v@);
}

fn write_comment(out: &mut Vec<u8>, c: &Comment)
    ensures
        final(out)@ == old(out)@ + comment_bytes(c@),
        comment_fits(c@),
{
    write_u64(out, c.creator_id);
    write_u64(out, c.post_id);
    write_str(out, c.content.as_str());
    assert(out@ =~= old(out)@ + comment_bytes(c@));
}

fn write_entries(out: &mut Vec<u8>, es: &Vec<(u64, Comment)>)
    ensures
        final(out)@ == old(out)@ + entries_bytes(pairs_view(es@)),
        forall|i: int| 0 <= i < es@.len() ==> comment_fits(#[trigger] pairs_view(es@)[i].1),
{
    let ghost pv = pairs_view(es@);
    let mut i: usize = 0;
    while i < es.len()
        invariant
            i <= es@.len(),
            pv == pairs_view(es@),
            pv.len() == es@.len(),
            out@ == old(out)@ + entries_bytes(pv.take(i as int)),
            forall|j: int| 0 <= j < i ==> comment_fits(#[trigger] pv[j].1),
        decreases es@.len() - i,
    {
        let key: u64 = es[i].0;
        write_u64(out, key);
        write_comment(out, &es[i].1);
        proof {
            assert(pv.take(i + 1) =~= pv.take(i as int) + seq![pv[i as int]]);
            lemma_entries_bytes_concat(pv.take(i as int), seq![pv[i as int]]);
            lemma_entries_bytes_one(pv[i as int].0, pv[i as int].1);
            assert(pv[i as int] == (es@[i as int].0, es@[i as int].1@));
            assert(out@ =~= old(out)@ + entries_bytes(pv.take(i + 1)));
        }
        i = i + 1;
    }
    assert(pv.take(pv.len() as int) =~= pv);
}

/// Encodes a user record into its deterministic byte form.
pub fn encode_user(u: &User) -> (r: Vec<u8>)
    ensures
        r@ == user_bytes(u@),
        user_fits(u@),
{
    let mut out: Vec<u8> = Vec::new();
    write_u64(&mut out, u.id);
    write_str(&mut out, u.name.as_str());
    write_str(&mut out, u.phone.as_str());
    write_str(&mut out, u.password.as_str());
    write_u64(&mut out, u.post_ids.len() as u64);
    write_u64s(&mut out, &u.post_ids);
    assert(out@ =~= user_bytes(u@));
    out
}

/// Encodes a comment record into its deterministic byte form.
pub fn encode_comment(c: &Comment) -> (r: Vec<u8>)
    ensures
        r@ == comment_bytes(c@),
        comment_fits(c@),
{
    let mut out: Vec<u8> = Vec::new();
    write_comment(&mut out, c);
    assert(out@ =~= comment_bytes(c@));
    out
}

/// Encodes a post record into its deterministic byte form.
pub fn encode_post(p: &Post) -> (r: Vec<u8>)
    ensures
        r@ == post_bytes(p@),
        post_fits(p@),
{
    let mut out: Vec<u8> = Vec::new();
    write_u64(&mut out, p.id);
    write_str(&mut out, p.title.as_str());
    write_str(&mut out, p.content.as_str());
    write_u64(&mut out, p.user_id);
    write_u32(&mut out, p.likes);
    write_u64(&mut out, p.comments.len() as u64);
    write_entries(&mut out, &p.comments);
    assert(out@ =~= post_bytes(p@));
    out
}

// ---------------------------------------------------------------------
// Executable decoding
// ---------------------------------------------------------------------

/// Relies on char::from_u32: returns the character with the given code
/// point exactly when it is a Unicode scalar value.
#[verifier::external_body]
fn char_from_u32(u: u32) -> (r: Option<char>)
    ensures
        r is Some <==> is_scalar_value(u),
        r matches Some(c) ==> c as u32 == u,
{
    char::from_u32(u)
}

/// Relies on String::push: appends the character to the end.
#[verifier::external_body]
fn push_char(s: &mut String, c: char)
    ensures
        final(s)@ == old(s)@.push(c),
{
    s.push(c);
}

fn read_u64(b: &Vec<u8>, pos: usize) -> (r: Option<(u64, usize)>)
    requires
        pos <= b@.len(),
    ensures
        r matches Some(v) ==> (v.1 == pos + 8 && v.1 <= b@.len() && sdec_u64(b@.skip(pos as int))
            == Some((v.0, b@.skip(v.1 as int)))),
        r is None ==> sdec_u64(b@.skip(pos as int)) is None,
{
    if b.len() - pos >= 8 {
        let val: u64 = (b[pos] as u64) | ((b[pos + 1] as u64) << 8) | ((b[pos + 2] as u64) << 16)
            | ((b[pos + 3] as u64) << 24) | ((b[pos + 4] as u64) << 32) | ((b[pos + 5] as u64)
            << 40) | ((b[pos + 6] as u64) << 48) | ((b[pos + 7] as u64) << 56);
        proof {
            let s = b@.skip(pos as int);
            assert(s.take(8) =~= b@.subrange(pos as int, pos as int + 8));
            assert(val == u64_val(s.take(8)));
            assert(s.skip(8) =~= b@.skip(pos as int + 8));
        }
        Some((val, pos + 8))
    } else {
        assert(b@.skip(pos as int).len() < 8);
        None
    }
}

fn read_u32(b: &Vec<u8>, pos: usize) -> (r: Option<(u32, usize)>)
    requires
        pos <= b@.len(),
    ensures
        r matches Some(v) ==> (v.1 == pos + 4 && v.1 <= b@.len() && sdec_u32(b@.skip(pos as int))
            == Some((v.0, b@.skip(v.1 as int)))),
        r is None ==> sdec_u32(b@.skip(pos as int)) is None,
{
    if b.len() - pos >= 4 {
        let val: u32 = (b[pos] as u32) | ((b[pos + 1] as u32) << 8) | ((b[pos + 2] as u32) << 16)
            | ((b[pos + 3] as u32) << 24);
        proof {
            let s = b@.skip(pos as int);
            assert(s.take(4) =~= b@.subrange(pos as int, pos as int + 4));
            assert(val == u32_val(s.take(4)));
            assert(s.skip(4) =~= b@.skip(pos as int + 4));
        }
        Some((val, pos + 4))
    } else {
        assert(b@.skip(pos as int).len() < 4);
        None
    }
}

fn read_char(b: &Vec<u8>, pos: usize) -> (r: Option<(char, usize)>)
    requires
        pos <= b@.len(),
    ensures
        r matches Some(v) ==> (v.1 == pos + 4 && v.1 <= b@.len() && sdec_char(b@.skip(pos as int))
            == Some((v.0, b@.skip(v.1 as int)))),
        r is None ==> sdec_char(b@.skip(pos as int)) is None,
{
    match read_u32(b, pos) {
        Some(v) => match char_from_u32(v.0) {
            Some(c) => {
                proof {
                    vstd::utf8::char_u32_cast(c, v.0);
                }
                Some((c, v.1))
            },
            None => None,
        },
        None => None,
    }
}

fn read_chars(b: &Vec<u8>, pos: usize, n: u64, out: &mut String) -> (r: Option<usize>)
    requires
        pos <= b@.len(),
    ensures
        r matches Some(p2) ==> (pos <= p2 <= b@.len() && (sdec_chars(b@.skip(pos as int), n as nat)
            matches Some(v) && final(out)@ == old(out)@ + v.0 && b@.skip(p2 as int) == v.1)),
        r is None ==> sdec_chars(b@.skip(pos as int), n as nat) is None,
    decreases n,
{
    if n == 0 {
        assert(out@ =~= out@ + Seq::<char>::empty());
        Some(pos)
    } else {
        match read_char(b, pos) {
            Some(v) => {
                push_char(out, v.0);
                let rec = read_chars(b, v.1, n - 1, out);
                match rec {
                    Some(p2) => {
                        proof {
                            let w = sdec_chars(b@.skip(v.1 as int), (n - 1) as nat).unwrap();
                            assert(out@ =~= old(out)@ + (seq![v.0] + w.0));
                        }
                        Some(p2)
                    },
                    None => None,
                }
            },
            None => None,
        }
    }
}

fn read_str(b: &Vec<u8>, pos: usize) -> (r: Option<(String, usize)>)
    requires
        pos <= b@.len(),
    ensures
        r matches Some(v) ==> (pos <= v.1 <= b@.len() && (sdec_str(b@.skip(pos as int)) matches Some(
            w,
        ) && v.0@ == w.0 && b@.skip(v.1 as int) == w.1)),
        r is None ==> sdec_str(b@.skip(pos as int)) is None,
{
    match read_u64(b, pos) {
        Some(v) => {
            let mut s = String::new();
            match read_chars(b, v.1, v.0, &mut s) {
                Some(p2) => {
                    assert(s@ =~= sdec_str(b@.skip(pos as int)).unwrap().0);
                    Some((s, p2))
                },
                None => None,
            }
        },
        None => None,
    }
}

fn read_u64s(b: &Vec<u8>, pos: usize, n: u64, out: &mut Vec<u64>) -> (r: Option<usize>)
    requires
        pos <= b@.len(),
    ensures
        r matches Some(p2) ==> (pos <= p2 <= b@.len() && (sdec_u64s(b@.skip(pos as int), n as nat)
            matches Some(v) && final(out)@ == old(out)@ + v.0 && b@.skip(p2 as int) == v.1)),
        r is None ==> sdec_u64s(b@.skip(pos as int), n as nat) is None,
    decreases n,
{
    if n == 0 {
        assert(out@ =~= out@ + Seq::<u64>::empty());
        Some(pos)
    } else {
        match read_u64(b, pos) {
            Some(v) => {
                out.push(v.0);
                let rec = read_u64s(b, v.1, n - 1, out);
                match rec {
                    Some(p2) => {
                        proof {
                            let w = sdec_u64s(b@.skip(v.1 as int), (n - 1) as nat).unwrap();
                            assert(out@ =~= old(out)@ + (seq![v.0] + w.0));
                        }
                        Some(p2)
                    },
                    None => None,
                }
            },
            None => None,
        }
    }
}

fn read_comment(b: &Vec<u8>, pos: usize) -> (r: Option<(Comment, usize)>)
    requires
        pos <= b@.len(),
    ensures
        r matches Some(v) ==> (pos <= v.1 <= b@.len() && (sdec_comment(b@.skip(pos as int)) matches
            Some(w) && v.0@ == w.0 && b@.skip(v.1 as int) == w.1)),
        r is None ==> sdec_comment(b@.skip(pos as int)) is None,
{
    match read_u64(b, pos) {
        Some(cr) => match read_u64(b, cr.1) {
            Some(pid) => match read_str(b, pid.1) {
                Some(ct) => Some(
                    (Comment { creator_id: cr.0, post_id: pid.0, content: ct.0 }, ct.1),
                ),
                None => None,
            },
            None => None,
        },
        None => None,
    }
}

fn read_entries(b: &Vec<u8>, pos: usize, n: u64, out: &mut Vec<(u64, Comment)>) -> (r: Option<
    usize,
>)
    requires
        pos <= b@.len(),
    ensures
        r matches Some(p2) ==> (pos <= p2 <= b@.len() && (sdec_entries(b@.skip(pos as int), n as nat)
            matches Some(v) && pairs_view(final(out)@) == pairs_view(old(out)@) + v.0 && b@.skip(
            p2 as int,
        ) == v.1)),
        r is None ==> sdec_entries(b@.skip(pos as int), n as nat) is None,
    decreases n,
{
    if n == 0 {
        assert(pairs_view(out@) =~= pairs_view(out@) + Seq::<(u64, CommentS)>::empty());
        Some(pos)
    } else {
        match read_u64(b, pos) {
            Some(k) => match read_comment(b, k.1) {
                Some(c) => {
                    let ghost centry = c.0@;
                    out.push((k.0, c.0));
                    let ghost mid_seq = out@;
                    let rec = read_entries(b, c.1, n - 1, out);
                    match rec {
                        Some(p2) => {
                            proof {
                                let w = sdec_entries(b@.skip(c.1 as int), (n - 1) as nat).unwrap();
                                assert(pairs_view(mid_seq) =~= pairs_view(old(out)@) + seq![
                                    (k.0, centry),
                                ]);
                                assert(pairs_view(out@) =~= pairs_view(old(out)@) + (seq![
                                    (k.0, centry),
                                ] + w.0));
                            }
                            Some(p2)
                        },
                        None => None,
                    }
                },
                None => None,
            },
            None => None,
        }
    }
}

/// Decodes a user record from its byte form, accepting exactly the full
/// encodings.
pub fn decode_user(b: &Vec<u8>) -> (r: Option<User>)
    ensures
        r matches Some(u) ==> sdec_user_full(b@) == Some(u@),
        r is None ==> sdec_user_full(b@) is None,
{
    proof {
        assert(b@.skip(0) =~= b@);
    }
    match read_u64(b, 0) {
        Some(id) => match read_str(b, id.1) {
            Some(name) => match read_str(b, name.1) {
                Some(phone) => match read_str(b, phone.1) {
                    Some(pw) => match read_u64(b, pw.1) {
                        Some(cnt) => {
                            let mut ids: Vec<u64> = Vec::new();
                            match read_u64s(b, cnt.1, cnt.0, &mut ids) {
                                Some(p6) => {
                                    if p6 == b.len() {
                                        let u = User {
                                            id: id.0,
                                            name: name.0,
                                            phone: phone.0,
                                            password: pw.0,
                                            post_ids: ids,
                                        };
                                        assert(sdec_user_full(b@) == Some(u@)) by {
                                            assert(b@.skip(p6 as int).len() == 0);
                                            assert(u@ =~= sdec_user(b@).unwrap().0);
                                        }
                                        Some(u)
                                    } else {
                                        assert(b@.skip(p6 as int).len() != 0);
                                        None
                                    }
                                },
                                None => None,
                            }
                        },
                        None => None,
                    },
                    None => None,
                },
                None => None,
            },
            None => None,
        },
        None => None,
    }
}

/// Decodes a comment record from its byte form, accepting exactly the full
/// encodings.
pub fn decode_comment(b: &Vec<u8>) -> (r: Option<Comment>)
    ensures
        r matches Some(c) ==> sdec_comment_full(b@) == Some(c@),
        r is None ==> sdec_comment_full(b@) is None,
{
    proof {
        assert(b@.skip(0) =~= b@);
    }
    match read_comment(b, 0) {
        Some(v) => {
            if v.1 == b.len() {
                assert(b@.skip(v.1 as int).len() == 0);
                Some(v.0)
            } else {
                assert(b@.skip(v.1 as int).len() != 0);
                None
            }
        },
        None => None,
    }
}

/// Decodes a post record from its byte form, accepting exactly the full
/// encodings.
#[verifier::rlimit(60)]
pub fn decode_post(b: &Vec<u8>) -> (r: Option<Post>)
    ensures
        r matches Some(p) ==> sdec_post_full(b@) == Some(p@),
        r is None ==> sdec_post_full(b@) is None,
{
    proof {
        assert(b@.skip(0) =~= b@);
    }
    match read_u64(b, 0) {
        Some(id) => match read_str(b, id.1) {
            Some(title) => match read_str(b, title.1) {
                Some(content) => match read_u64(b, content.1) {
                    Some(uid) => match read_u32(b, uid.1) {
                        Some(likes) => match read_u64(b, likes.1) {
                            Some(cnt) => {
                                let mut es: Vec<(u64, Comment)> = Vec::new();
                                match read_entries(b, cnt.1, cnt.0, &mut es) {
                                    Some(p7) => {
                                        if p7 == b.len() {
                                            let p = Post {
                                                id: id.0,
                                                title: title.0,
                                                content: content.0,
                                                user_id: uid.0,
                                                comments: es,
                                                likes: likes.0,
                                            };
                                            assert(sdec_post_full(b@) == Some(p@)) by {
                                                assert(b@.skip(p7 as int).len() == 0);
                                                assert(pairs_view(p.comments@) =~= sdec_post(
                                                    b@,
                                                ).unwrap().0.comments);
                                                assert(p@ =~= sdec_post(b@).unwrap().0);
                                            }
                                            Some(p)
                                        } else {
                                            assert(b@.skip(p7 as int).len() != 0);
                                            None
                                        }
                                    },
                                    None => None,
                                }
                            },
                            None => None,
                        },
                        None => None,
                    },
                    None => None,
                },
                None => None,
            },
            None => None,
        },
        None => None,
    }
}

} // verus!
