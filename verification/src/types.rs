//! Record types of the service, their mathematical views, the error
//! taxonomy, payload validation and password redaction.

use vstd::prelude::*;
use vstd::string::StringExecFns;
use vstd::string::StrSliceExecFns;

verus! {

/// A stored user record. `post_ids` is written once, at creation, and is
/// never synchronized with the post store afterwards: no operation of the
/// service appends to it.
pub struct User {
    pub id: u64,
    pub name: String,
    pub phone: String,
    pub password: String,
    pub post_ids: Vec<u64>,
}

/// Mathematical view of a [`User`].
pub struct UserS {
    pub id: u64,
    pub name: Seq<char>,
    pub phone: Seq<char>,
    pub password: Seq<char>,
    pub post_ids: Seq<u64>,
}

impl View for User {
    type V = UserS;

    open spec fn view(&self) -> UserS {
        UserS {
            id: self.id,
            name: self.name@,
            phone: self.phone@,
            password: self.password@,
            post_ids: self.post_ids@,
        }
    }
}

/// A comment, owned inline by its parent post.
pub struct Comment {
    pub creator_id: u64,
    pub post_id: u64,
    pub content: String,
}

/// Mathematical view of a [`Comment`].
pub struct CommentS {
    pub creator_id: u64,
    pub post_id: u64,
    pub content: Seq<char>,
}

impl View for Comment {
    type V = CommentS;

    open spec fn view(&self) -> CommentS {
        CommentS { creator_id: self.creator_id, post_id: self.post_id, content: self.content@ }
    }
}

/// A stored post record. The comment mapping is owned inline, as a list of
/// key-comment pairs with strictly increasing keys. `likes` is part of the
/// schema but no operation of the service ever changes it.
pub struct Post {
    pub id: u64,
    pub title: String,
    pub content: String,
    pub user_id: u64,
    pub comments: Vec<(u64, Comment)>,
    pub likes: u32,
}

/// Mathematical view of a [`Post`].
pub struct PostS {
    pub id: u64,
    pub title: Seq<char>,
    pub content: Seq<char>,
    pub user_id: u64,
    pub comments: Seq<(u64, CommentS)>,
    pub likes: u32,
}

/// The view of a comment entry list, pair by pair.
pub open spec fn pairs_view(s: Seq<(u64, Comment)>) -> Seq<(u64, CommentS)> {
    Seq::new(s.len(), |i: int| (s[i].0, s[i].1@))
}

impl View for Post {
    type V = PostS;

    open spec fn view(&self) -> PostS {
        PostS {
            id: self.id,
            title: self.title@,
            content: self.content@,
            user_id: self.user_id,
            comments: pairs_view(self.comments@),
            likes: self.likes,
        }
    }
}

/// The comment keys of a post are strictly increasing, so each key
/// addresses at most one comment.
pub open spec fn comment_keys_sorted(es: Seq<(u64, CommentS)>) -> bool {
    forall|i: int, j: int| 0 <= i < j < es.len() ==> es[i].0 < es[j].0
}

/// The comment mapping of a post, read off its entry list.
pub open spec fn comments_as_map(es: Seq<(u64, CommentS)>) -> Map<u64, CommentS> {
    Map::new(
        |k: u64| exists|i: int| 0 <= i < es.len() && es[i].0 == k,
        |k: u64| es[choose|i: int| 0 <= i < es.len() && es[i].0 == k].1,
    )
}

/// Error taxonomy of the service; every kind carries a human-readable
/// message.
#[derive(Debug)]
pub enum Error {
    NotFound { msg: String },
    AlreadyInit { msg: String },
    InvalidPayload { msg: String },
    Unauthorized { msg: String },
}

pub open spec fn is_not_found(e: Error) -> bool {
    e matches Error::NotFound { .. }
}

pub open spec fn is_invalid_payload(e: Error) -> bool {
    e matches Error::InvalidPayload { .. }
}

pub open spec fn is_unauthorized(e: Error) -> bool {
    e matches Error::Unauthorized { .. }
}

/// The fixed placeholder that replaces a stored password on every
/// read path that returns user records.
pub open spec fn password_placeholder() -> Seq<char> {
    "-"@
}

/// A user record as the read paths return it: the password replaced by the
/// placeholder, everything else kept.
pub open spec fn redact_spec(u: UserS) -> UserS {
    UserS { password: password_placeholder(), ..u }
}

/// Replaces the password of a user record with the fixed placeholder.
pub fn redact(u: User) -> (r: User)
    ensures
        r@ == redact_spec(u@),
{
    User {
        id: u.id,
        name: u.name,
        phone: u.phone,
        password: String::from_str("-"),
        post_ids: u.post_ids,
    }
}

/// Redaction is idempotent: redacting an already redacted record is a no-op.
pub proof fn lemma_redact_idempotent(u: UserS)
    ensures
        redact_spec(redact_spec(u)) == redact_spec(u),
{
}

/// A user payload is accepted when the name and the phone number each have
/// at least 3 characters.
pub open spec fn user_payload_ok(name: Seq<char>, phone: Seq<char>) -> bool {
    name.len() >= 3 && phone.len() >= 3
}

/// A post payload is accepted when the title has at least 3 and the content
/// at least 6 characters.
pub open spec fn post_payload_ok(title: Seq<char>, content: Seq<char>) -> bool {
    title.len() >= 3 && content.len() >= 6
}

/// Checks the user payload constraints; on failure returns a message that
/// names every violated constraint.
pub fn check_user_payload(name: &String, phone: &String) -> (r: Option<String>)
    ensures
        r is None <==> user_payload_ok(name@, phone@),
{
    let name_len = name.as_str().unicode_len();
    let phone_len = phone.as_str().unicode_len();
    if name_len >= 3 && phone_len >= 3 {
        None
    } else {
        let mut msg = String::new();
        if name_len < 3 {
            msg.append("name must have at least 3 characters; ");
        }
        if phone_len < 3 {
            msg.append("phone must have at least 3 characters; ");
        }
        Some(msg)
    }
}

/// Checks the post payload constraints; on failure returns a message that
/// names every violated constraint.
pub fn check_post_payload(title: &String, content: &String) -> (r: Option<String>)
    ensures
        r is None <==> post_payload_ok(title@, content@),
{
    let title_len = title.as_str().unicode_len();
    let content_len = content.as_str().unicode_len();
    if title_len >= 3 && content_len >= 6 {
        None
    } else {
        let mut msg = String::new();
        if title_len < 3 {
            msg.append("title must have at least 3 characters; ");
        }
        if content_len < 6 {
            msg.append("content must have at least 6 characters; ");
        }
        Some(msg)
    }
}

} // verus!
