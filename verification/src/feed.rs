//! The service state and its operations: two durable record stores, the
//! shared identifier counter, and the request handlers that validate,
//! authorize, mutate and read.

use vstd::prelude::*;
use vstd::string::StringExecFns;
use crate::codec::{
    decode_post, decode_user, encode_post, encode_user, lemma_rt_post, lemma_rt_user,
    sdec_post_full, sdec_user_full, user_bytes, post_bytes,
};
use crate::stable::{byte_map_view, id_cell_val, ByteMap, IdCell};
use crate::text::{lower_of, lowercase, seq_contains_sub, str_contains};
use crate::types::{
    check_post_payload, check_user_payload, comment_keys_sorted, is_invalid_payload, is_not_found,
    is_unauthorized, pairs_view, post_payload_ok, redact, redact_spec, user_payload_ok, Comment,
    CommentS, Error, Post, PostS, User, UserS,
};

verus! {

/// A user record matches a search query when its lowercased name contains
/// the lowercased query.
pub open spec fn user_matches(u: UserS, query: Seq<char>) -> bool {
    seq_contains_sub(lower_of(u.name), lower_of(query))
}

/// A post record matches a search query when its lowercased title contains
/// the lowercased query.
pub open spec fn post_matches(p: PostS, query: Seq<char>) -> bool {
    seq_contains_sub(lower_of(p.title), lower_of(query))
}

/// The whole service state: the identifier counter and the two stores,
/// each durable. Records live in the stores in their byte encoding.
pub struct Feed {
    ids: IdCell,
    users: ByteMap,
    posts: ByteMap,
}

impl Feed {
    /// The next identifier the allocator will hand out.
    pub closed spec fn counter(self) -> u64 {
        id_cell_val(self.ids)
    }

    /// The user store, read as a map of decoded records.
    pub closed spec fn user_map(self) -> Map<u64, UserS> {
        Map::new(
            |k: u64| byte_map_view(self.users).contains_key(k),
            |k: u64| sdec_user_full(byte_map_view(self.users)[k]).unwrap(),
        )
    }

    /// The post store, read as a map of decoded records.
    pub closed spec fn post_map(self) -> Map<u64, PostS> {
        Map::new(
            |k: u64| byte_map_view(self.posts).contains_key(k),
            |k: u64| sdec_post_full(byte_map_view(self.posts)[k]).unwrap(),
        )
    }

    /// Every stored byte string is the encoding of a record whose own id
    /// equals its key, and stored comment keys are strictly increasing.
    pub closed spec fn stores_ok(self) -> bool {
        &&& forall|k: u64| #[trigger] byte_map_view(self.users).contains_key(k) ==> {
            let d = sdec_user_full(byte_map_view(self.users)[k]);
            d is Some && d.unwrap().id == k
        }
        &&& forall|k: u64| #[trigger] byte_map_view(self.posts).contains_key(k) ==> {
            let d = sdec_post_full(byte_map_view(self.posts)[k]);
            d is Some && d.unwrap().id == k && comment_keys_sorted(d.unwrap().comments)
        }
    }

    /// Every identifier in use came from the counter, so it is below the
    /// counter, and no identifier addresses two entities: user ids, post
    /// ids and comment keys are pairwise distinct across the whole state.
    pub closed spec fn ids_ok(self) -> bool {
        &&& forall|k: u64| #[trigger] self.user_map().contains_key(k) ==> k < self.counter()
        &&& forall|k: u64| #[trigger] self.post_map().contains_key(k) ==> k < self.counter()
        &&& forall|k: u64|
            #[trigger] self.user_map().contains_key(k) ==> !self.post_map().contains_key(k)
        &&& forall|k: u64, i: int|
            #![trigger self.post_map()[k].comments[i]]
            self.post_map().contains_key(k) && 0 <= i < self.post_map()[k].comments.len() ==> {
                let ck = self.post_map()[k].comments[i].0;
                ck < self.counter() && !self.user_map().contains_key(ck)
                    && !self.post_map().contains_key(ck)
            }
        &&& forall|k1: u64, i1: int, k2: u64, i2: int|
            #![trigger self.post_map()[k1].comments[i1], self.post_map()[k2].comments[i2]]
            self.post_map().contains_key(k1) && self.post_map().contains_key(k2) && 0 <= i1
                < self.post_map()[k1].comments.len() && 0 <= i2
                < self.post_map()[k2].comments.len() && (k1 != k2 || i1 != i2)
                ==> self.post_map()[k1].comments[i1].0 != self.post_map()[k2].comments[i2].0
    }

    /// Well-formedness of the whole state.
    pub closed spec fn wf(self) -> bool {
        self.stores_ok() && self.ids_ok()
    }

    /// A fresh, empty service state with the counter at zero.
    pub fn new() -> (f: Feed)
        ensures
            f.wf(),
            f.counter() == 0,
            forall|k: u64| !f.user_map().contains_key(k),
            forall|k: u64| !f.post_map().contains_key(k),
    {
        let f = Feed { ids: IdCell::new(0), users: ByteMap::new(), posts: ByteMap::new() };
        f
    }

    /// The current counter value: the identifier the next creation would
    /// receive.
    pub fn counter_value(&self) -> (c: u64)
        ensures
            c == self.counter(),
    {
        self.ids.get()
    }

    /// Allocates the next identifier: returns the counter and bumps it.
    fn next_id(&mut self) -> (id: u64)
        requires
            old(self).counter() < u64::MAX,
        ensures
            id == old(self).counter(),
            final(self).counter() == old(self).counter() + 1,
            final(self).user_map() == old(self).user_map(),
            final(self).post_map() == old(self).post_map(),
            old(self).stores_ok() ==> final(self).stores_ok(),
            old(self).wf() ==> final(self).wf(),
    {
        let cur = self.ids.get();
        let prev = self.ids.set(cur + 1);
        proof {
            assert(self.user_map() =~= old(self).user_map());
            assert(self.post_map() =~= old(self).post_map());
        }
        prev
    }

    /// Looks a user up and decodes it.
    fn get_user_rec(&self, id: u64) -> (r: Option<User>)
        requires
            self.stores_ok(),
        ensures
            r is Some <==> self.user_map().contains_key(id),
            r matches Some(u) ==> u@ == self.user_map()[id],
    {
        match self.users.get(id) {
            Some(bytes) => match decode_user(&bytes) {
                Some(u) => Some(u),
                None => {
                    proof {
                        assert(false);
                    }
                    vstd::pervasive::unreached()
                },
            },
            None => None,
        }
    }

    /// Looks a post up and decodes it.
    fn get_post_rec(&self, id: u64) -> (r: Option<Post>)
        requires
            self.stores_ok(),
        ensures
            r is Some <==> self.post_map().contains_key(id),
            r matches Some(p) ==> p@ == self.post_map()[id] && comment_keys_sorted(p@.comments),
    {
        match self.posts.get(id) {
            Some(bytes) => match decode_post(&bytes) {
                Some(p) => Some(p),
                None => {
                    proof {
                        assert(false);
                    }
                    vstd::pervasive::unreached()
                },
            },
            None => None,
        }
    }

    /// Encodes a user record and stores it under its own id.
    fn put_user(&mut self, u: &User) -> (had: bool)
        requires
            old(self).stores_ok(),
        ensures
            final(self).stores_ok(),
            final(self).user_map() == old(self).user_map().insert(u.id, u@),
            final(self).post_map() == old(self).post_map(),
            final(self).counter() == old(self).counter(),
            had <==> old(self).user_map().contains_key(u.id),
    {
        let bytes = encode_user(u);
        proof {
            lemma_rt_user(u@);
        }
        let prev = self.users.insert(u.id, bytes);
        proof {
            assert(self.user_map() =~= old(self).user_map().insert(u.id, u@));
            assert(self.post_map() =~= old(self).post_map());
        }
        prev.is_some()
    }

    /// Encodes a post record and stores it under its own id.
    fn put_post(&mut self, p: &Post) -> (had: bool)
        requires
            old(self).stores_ok(),
            comment_keys_sorted(p@.comments),
        ensures
            final(self).stores_ok(),
            final(self).post_map() == old(self).post_map().insert(p.id, p@),
            final(self).user_map() == old(self).user_map(),
            final(self).counter() == old(self).counter(),
            had <==> old(self).post_map().contains_key(p.id),
    {
        let bytes = encode_post(p);
        proof {
            lemma_rt_post(p@);
        }
        let prev = self.posts.insert(p.id, bytes);
        proof {
            assert(self.post_map() =~= old(self).post_map().insert(p.id, p@));
            assert(self.user_map() =~= old(self).user_map());
        }
        prev.is_some()
    }

    /// Creates a user from a validated payload: allocates the next id and
    /// stores the record with an empty post list.
    pub fn add_user(&mut self, name: String, phone: String, password: String) -> (r: Result<
        User,
        Error,
    >)
        requires
            old(self).wf(),
            old(self).counter() < u64::MAX,
        ensures
            final(self).wf(),
            !user_payload_ok(name@, phone@) ==> (r matches Err(e) && is_invalid_payload(e)
                && final(self).user_map() == old(self).user_map() && final(self).post_map() == old(self).post_map() && final(self).counter() == old(self).counter()),
            user_payload_ok(name@, phone@) ==> (r matches Ok(u) && u@ == (UserS {
                id: old(self).counter(),
                name: name@,
                phone: phone@,
                password: password@,
                post_ids: Seq::empty(),
            }) && final(self).user_map() == old(self).user_map().insert(old(self).counter(), u@)
                && final(self).post_map() == old(self).post_map() && final(self).counter() == old(self).counter() + 1),
    {
        match check_user_payload(&name, &phone) {
            Some(msg) => Err(Error::InvalidPayload { msg }),
            None => {
                let id = self.next_id();
                let user = User { id, name, phone, password, post_ids: Vec::new() };
                let had = self.put_user(&user);
                if had {
                    Err(Error::InvalidPayload { msg: String::from_str("could not add user") })
                } else {
                    Ok(user)
                }
            },
        }
    }

    /// Creates a post from a validated payload, owned by an existing user:
    /// allocates the next id (spent even when the user is missing) and
    /// stores the record with no comments and zero likes.
    pub fn add_post(&mut self, title: String, content: String, user_id: u64) -> (r: Result<
        Post,
        Error,
    >)
        requires
            old(self).wf(),
            old(self).counter() < u64::MAX,
        ensures
            final(self).wf(),
            !post_payload_ok(title@, content@) ==> (r matches Err(e) && is_invalid_payload(e)
                && final(self).user_map() == old(self).user_map() && final(self).post_map() == old(self).post_map() && final(self).counter() == old(self).counter()),
            post_payload_ok(title@, content@) && !old(self).user_map().contains_key(user_id) ==> (
            r matches Err(e) && is_not_found(e) && final(self).user_map() == old(self).user_map()
                && final(self).post_map() == old(self).post_map() && final(self).counter() == old(self).counter() + 1),
            post_payload_ok(title@, content@) && old(self).user_map().contains_key(user_id) ==> (
            r matches Ok(p) && p@ == (PostS {
                id: old(self).counter(),
                title: title@,
                content: content@,
                user_id: user_id,
                comments: Seq::empty(),
                likes: 0,
            }) && final(self).post_map() == old(self).post_map().insert(old(self).counter(), p@)
                && final(self).user_map() == old(self).user_map() && final(self).counter() == old(self).counter() + 1),
    {
        match check_post_payload(&title, &content) {
            Some(msg) => Err(Error::InvalidPayload { msg }),
            None => {
                let id = self.next_id();
                match self.users.get(user_id) {
                    Some(_) => {
                        let post = Post {
                            id,
                            title,
                            content,
                            user_id,
                            comments: Vec::new(),
                            likes: 0,
                        };
                        proof {
                            assert(post@.comments =~= Seq::<(u64, CommentS)>::empty());
                        }
                        let had = self.put_post(&post);
                        if had {
                            Err(
                                Error::InvalidPayload {
                                    msg: String::from_str("could not add post"),
                                },
                            )
                        } else {
                            Ok(post)
                        }
                    },
                    None => Err(
                        Error::NotFound { msg: String::from_str("user id not found") },
                    ),
                }
            },
        }
    }

    /// Replaces the content of an existing post, guarded by the owning
    /// user's password; everything else of the post is preserved.
    pub fn edit_post(
        &mut self,
        post_id: u64,
        user_id: u64,
        content: String,
        user_password: String,
    ) -> (r: Result<Post, Error>)
        requires
            old(self).wf(),
        ensures
            final(self).wf(),
            final(self).counter() == old(self).counter(),
            !old(self).user_map().contains_key(user_id) ==> (r matches Err(e) && is_not_found(e)
                && final(self).user_map() == old(self).user_map() && final(self).post_map() == old(self).post_map()),
            old(self).user_map().contains_key(user_id) && old(self).user_map()[user_id].password
                != user_password@ ==> (r matches Err(e) && is_unauthorized(e) && final(self).user_map() == old(self).user_map() && final(self).post_map() == old(self).post_map()),
            old(self).user_map().contains_key(user_id) && old(self).user_map()[user_id].password
                == user_password@ && !old(self).post_map().contains_key(post_id) ==> (r matches Err(
                e,
            ) && is_not_found(e) && final(self).user_map() == old(self).user_map() && final(self).post_map() == old(self).post_map()),
            old(self).user_map().contains_key(user_id) && old(self).user_map()[user_id].password
                == user_password@ && old(self).post_map().contains_key(post_id) ==> (r matches Ok(
                p,
            ) && p@ == (PostS { content: content@, ..old(self).post_map()[post_id] }) && final(self).post_map() == old(self).post_map().insert(post_id, p@) && final(self).user_map()
                == old(self).user_map()),
    {
        let post_opt = self.get_post_rec(post_id);
        let user_opt = self.get_user_rec(user_id);
        match user_opt {
            Some(user) => {
                if !(user.password == user_password) {
                    return Err(
                        Error::Unauthorized {
                            msg: String::from_str("unauthorized, password does not match"),
                        },
                    );
                }
                match post_opt {
                    Some(post) => {
                        let new_post = Post {
                            id: post.id,
                            title: post.title,
                            content,
                            user_id: post.user_id,
                            comments: post.comments,
                            likes: post.likes,
                        };
                        let had = self.put_post(&new_post);
                        if had {
                            Ok(new_post)
                        } else {
                            Err(
                                Error::InvalidPayload {
                                    msg: String::from_str("could not edit post"),
                                },
                            )
                        }
                    },
                    None => Err(
                        Error::NotFound { msg: String::from_str("post id not found") },
                    ),
                }
            },
            None => Err(Error::NotFound { msg: String::from_str("user id not found") }),
        }
    }

    /// Replaces the name of an existing user, guarded by the user's
    /// password; everything else, the password included, is preserved. This
    /// path returns the stored record unredacted.
    pub fn edit_user(&mut self, user_id: u64, name: String, password: String) -> (r: Result<
        User,
        Error,
    >)
        requires
            old(self).wf(),
        ensures
            final(self).wf(),
            final(self).counter() == old(self).counter(),
            !old(self).user_map().contains_key(user_id) ==> (r matches Err(e) && is_not_found(e)
                && final(self).user_map() == old(self).user_map() && final(self).post_map() == old(self).post_map()),
            old(self).user_map().contains_key(user_id) && old(self).user_map()[user_id].password
                != password@ ==> (r matches Err(e) && is_unauthorized(e) && final(self).user_map()
                == old(self).user_map() && final(self).post_map() == old(self).post_map()),
            old(self).user_map().contains_key(user_id) && old(self).user_map()[user_id].password
                == password@ ==> (r matches Ok(u) && u@ == (UserS {
                name: name@,
                ..old(self).user_map()[user_id]
            }) && final(self).user_map() == old(self).user_map().insert(user_id, u@) && final(self).post_map() == old(self).post_map()),
    {
        let user_opt = self.get_user_rec(user_id);
        match user_opt {
            Some(user) => {
                if !(user.password == password) {
                    return Err(
                        Error::Unauthorized {
                            msg: String::from_str("unauthorized, password does not match"),
                        },
                    );
                }
                let new_user = User {
                    id: user.id,
                    name,
                    phone: user.phone,
                    password: user.password,
                    post_ids: user.post_ids,
                };
                let had = self.put_user(&new_user);
                if had {
                    Ok(new_user)
                } else {
                    Err(Error::InvalidPayload { msg: String::from_str("could not edit user") })
                }
            },
            None => Err(Error::NotFound { msg: String::from_str("user id not found") }),
        }
    }

    /// Adds a comment to an existing post on behalf of an existing user,
    /// guarded by the user's password. The comment key is allocated from
    /// the shared counter before user and post are checked, so the counter
    /// advances even on the failure paths.
    pub fn comment_on_post(
        &mut self,
        post_id: u64,
        user_id: u64,
        comment: String,
        user_password: String,
    ) -> (r: Result<String, Error>)
        requires
            old(self).wf(),
            old(self).counter() < u64::MAX,
        ensures
            final(self).wf(),
            final(self).counter() == old(self).counter() + 1,
            !old(self).user_map().contains_key(user_id) ==> (r matches Err(e) && is_not_found(e)
                && final(self).user_map() == old(self).user_map() && final(self).post_map() == old(self).post_map()),
            old(self).user_map().contains_key(user_id) && old(self).user_map()[user_id].password
                != user_password@ ==> (r matches Err(e) && is_unauthorized(e) && final(self).user_map() == old(self).user_map() && final(self).post_map() == old(self).post_map()),
            old(self).user_map().contains_key(user_id) && old(self).user_map()[user_id].password
                == user_password@ && !old(self).post_map().contains_key(post_id) ==> (r matches Err(
                e,
            ) && is_not_found(e) && final(self).user_map() == old(self).user_map() && final(self).post_map() == old(self).post_map()),
            old(self).user_map().contains_key(user_id) && old(self).user_map()[user_id].password
                == user_password@ && old(self).post_map().contains_key(post_id) ==> (r matches Ok(
                s,
            ) && s@ == "succesfully added comment"@ && final(self).user_map() == old(self).user_map() && final(self).post_map() == old(self).post_map().insert(
                post_id,
                PostS {
                    comments: old(self).post_map()[post_id].comments.push(
                        (
                            old(self).counter(),
                            CommentS { creator_id: user_id, post_id: post_id, content: comment@ },
                        ),
                    ),
                    ..old(self).post_map()[post_id]
                },
            )),
    {
        let post_opt = self.get_post_rec(post_id);
        let user_opt = self.get_user_rec(user_id);
        let id = self.next_id();
        match user_opt {
            Some(user) => {
                if !(user.password == user_password) {
                    return Err(
                        Error::Unauthorized {
                            msg: String::from_str("comment access unauthorized, password does not match"),
                        },
                    );
                }
                match post_opt {
                    Some(post) => {
                        let new_comment = Comment {
                            creator_id: user_id,
                            post_id,
                            content: comment,
                        };
                        let mut new_post = post;
                        proof {
                            assert(forall|i: int|
                                0 <= i < old(self).post_map()[post_id].comments.len()
                                    ==> #[trigger] old(self).post_map()[post_id].comments[i].0
                                    < old(self).counter());
                        }
                        new_post.comments.push((id, new_comment));
                        proof {
                            assert(pairs_view(new_post.comments@) =~= old(self).post_map()[post_id].comments.push(
                                (
                                    old(self).counter(),
                                    CommentS {
                                        creator_id: user_id,
                                        post_id: post_id,
                                        content: comment@,
                                    },
                                ),
                            ));
                            assert(comment_keys_sorted(new_post@.comments));
                        }
                        let had = self.put_post(&new_post);
                        if had {
                            Ok(String::from_str("succesfully added comment"))
                        } else {
                            Err(
                                Error::InvalidPayload {
                                    msg: String::from_str("could not update comment"),
                                },
                            )
                        }
                    },
                    None => Err(
                        Error::NotFound { msg: String::from_str("post id not found") },
                    ),
                }
            },
            None => Err(Error::NotFound { msg: String::from_str("user id not found") }),
        }
    }

    /// Lists all posts in ascending id order; an empty store is reported as
    /// not found rather than as an empty result.
    #[verifier::loop_isolation(false)]
    pub fn get_all_posts(&self) -> (r: Result<Vec<Post>, Error>)
        requires
            self.wf(),
        ensures
            r matches Ok(v) ==> (v@.len() > 0 && (forall|i: int|
                0 <= i < v@.len() ==> self.post_map().contains_key(#[trigger] v@[i].id)
                    && v@[i]@ == self.post_map()[v@[i].id]) && (forall|i: int, j: int|
                0 <= i < j < v@.len() ==> v@[i].id < v@[j].id) && (forall|k: u64|
                #[trigger] self.post_map().contains_key(k) ==> exists|i: int|
                    0 <= i < v@.len() && v@[i].id == k)),
            r matches Err(e) ==> (is_not_found(e) && forall|k: u64|
                !self.post_map().contains_key(k)),
    {
        let entries = self.posts.entries();
        let mut out: Vec<Post> = Vec::new();
        let mut i: usize = 0;
        while i < entries.len()
            invariant
                i <= entries@.len(),
                out@.len() == i,
                forall|j: int|
                    0 <= j < i ==> (#[trigger] out@[j].id) == entries@[j].0 && out@[j]@
                        == self.post_map()[entries@[j].0],
            decreases entries@.len() - i,
        {
            let e = &entries[i];
            proof {
                assert(byte_map_view(self.posts).contains_key(entries@[i as int].0));
            }
            match decode_post(&e.1) {
                Some(p) => {
                    proof {
                        assert(p.id == entries@[i as int].0);
                    }
                    out.push(p);
                },
                None => {
                    proof {
                        assert(false);
                    }
                },
            }
            i = i + 1;
        }
        proof {
            assert forall|a: int, b: int| 0 <= a < b < out@.len() implies out@[a].id
                < out@[b].id by {
                assert(entries@[a].0 < entries@[b].0);
            }
            assert forall|k: u64| #[trigger] self.post_map().contains_key(k) implies exists|m: int|
                0 <= m < out@.len() && out@[m].id == k by {
                let j = choose|j: int| 0 <= j < entries@.len() && entries@[j].0 == k;
                assert(out@[j].id == k);
            }
        }
        if out.len() == 0 {
            Err(Error::NotFound { msg: String::from_str("no posts found, please add a post") })
        } else {
            Ok(out)
        }
    }

    /// Lists all users in ascending id order, passwords redacted; an empty
    /// store is reported as not found rather than as an empty result.
    #[verifier::loop_isolation(false)]
    pub fn get_all_users(&self) -> (r: Result<Vec<User>, Error>)
        requires
            self.wf(),
        ensures
            r matches Ok(v) ==> (v@.len() > 0 && (forall|i: int|
                0 <= i < v@.len() ==> self.user_map().contains_key(#[trigger] v@[i].id)
                    && v@[i]@ == redact_spec(self.user_map()[v@[i].id])) && (forall|i: int, j: int|
                0 <= i < j < v@.len() ==> v@[i].id < v@[j].id) && (forall|k: u64|
                #[trigger] self.user_map().contains_key(k) ==> exists|i: int|
                    0 <= i < v@.len() && v@[i].id == k)),
            r matches Err(e) ==> (is_not_found(e) && forall|k: u64|
                !self.user_map().contains_key(k)),
    {
        let entries = self.users.entries();
        let mut out: Vec<User> = Vec::new();
        let mut i: usize = 0;
        while i < entries.len()
            invariant
                i <= entries@.len(),
                out@.len() == i,
                forall|j: int|
                    0 <= j < i ==> (#[trigger] out@[j].id) == entries@[j].0 && out@[j]@
                        == redact_spec(self.user_map()[entries@[j].0]),
            decreases entries@.len() - i,
        {
            let e = &entries[i];
            proof {
                assert(byte_map_view(self.users).contains_key(entries@[i as int].0));
            }
            match decode_user(&e.1) {
                Some(u) => {
                    proof {
                        assert(u.id == entries@[i as int].0);
                    }
                    out.push(redact(u));
                },
                None => {
                    proof {
                        assert(false);
                    }
                },
            }
            i = i + 1;
        }
        proof {
            assert forall|a: int, b: int| 0 <= a < b < out@.len() implies out@[a].id
                < out@[b].id by {
                assert(entries@[a].0 < entries@[b].0);
            }
            assert forall|k: u64| #[trigger] self.user_map().contains_key(k) implies exists|m: int|
                0 <= m < out@.len() && out@[m].id == k by {
                let j = choose|j: int| 0 <= j < entries@.len() && entries@[j].0 == k;
                assert(out@[j].id == k);
            }
        }
        if out.len() == 0 {
            Err(Error::NotFound { msg: String::from_str("no users found") })
        } else {
            Ok(out)
        }
    }

    /// Point lookup of a post by id.
    pub fn get_post_by_id(&self, id: u64) -> (r: Result<Post, Error>)
        requires
            self.wf(),
        ensures
            self.post_map().contains_key(id) ==> (r matches Ok(p) && p@ == self.post_map()[id]),
            !self.post_map().contains_key(id) ==> (r matches Err(e) && is_not_found(e)),
    {
        match self.get_post_rec(id) {
            Some(p) => Ok(p),
            None => Err(Error::NotFound { msg: String::from_str("post id does not exist") }),
        }
    }

    /// Point lookup of a user by id, password redacted.
    pub fn get_user_by_id(&self, id: u64) -> (r: Result<User, Error>)
        requires
            self.wf(),
        ensures
            self.user_map().contains_key(id) ==> (r matches Ok(u) && u@ == redact_spec(
                self.user_map()[id],
            )),
            !self.user_map().contains_key(id) ==> (r matches Err(e) && is_not_found(e)),
    {
        match self.get_user_rec(id) {
            Some(u) => Ok(redact(u)),
            None => Err(Error::NotFound { msg: String::from_str("user id not found") }),
        }
    }

    /// Collects, in ascending order, the keys of the posts whose lowered
    /// title contains the lowered query.
    #[verifier::loop_isolation(false)]
    #[verifier::rlimit(60)]
    #[verifier::spinoff_prover]
    fn matched_post_keys(&self, search: &String, query: &String) -> (keys: Vec<u64>)
        requires
            self.wf(),
            query@ == lower_of(search@),
        ensures
            forall|m: int|
                0 <= m < keys@.len() ==> self.post_map().contains_key(#[trigger] keys@[m])
                    && post_matches(self.post_map()[keys@[m]], search@),
            forall|a: int, b: int| 0 <= a < b < keys@.len() ==> keys@[a] < keys@[b],
            forall|k: u64|
                #[trigger] self.post_map().contains_key(k) && post_matches(
                    self.post_map()[k],
                    search@,
                ) ==> exists|m: int| 0 <= m < keys@.len() && keys@[m] == k,
    {
        let entries = self.posts.entries();
        let mut keys: Vec<u64> = Vec::new();
        let mut i: usize = 0;
        while i < entries.len()
            invariant
                i <= entries@.len(),
                forall|m: int|
                    0 <= m < keys@.len() ==> self.post_map().contains_key(#[trigger] keys@[m])
                        && post_matches(self.post_map()[keys@[m]], search@),
                forall|m: int|
                    0 <= m < keys@.len() ==> exists|j: int|
                        0 <= j < i && (#[trigger] keys@[m]) == entries@[j].0,
                forall|a: int, b: int| 0 <= a < b < keys@.len() ==> keys@[a] < keys@[b],
                forall|j: int|
                    0 <= j < i && post_matches(self.post_map()[#[trigger] entries@[j].0], search@)
                        ==> exists|m: int| 0 <= m < keys@.len() && keys@[m] == entries@[j].0,
            decreases entries@.len() - i,
        {
            let e = &entries[i];
            proof {
                assert(byte_map_view(self.posts).contains_key(entries@[i as int].0));
            }
            match decode_post(&e.1) {
                Some(p) => {
                    proof {
                        assert(p.id == entries@[i as int].0);
                        assert(p@ == self.post_map()[entries@[i as int].0]);
                    }
                    let lowered = lowercase(p.title.as_str());
                    if str_contains(lowered.as_str(), query.as_str()) {
                        proof {
                            assert forall|a: int| 0 <= a < keys@.len() implies keys@[a]
                                < entries@[i as int].0 by {
                                let j = choose|j: int|
                                    0 <= j < i && keys@[a] == entries@[j].0;
                                assert(entries@[j].0 < entries@[i as int].0);
                            }
                        }
                        let ghost old_keys = keys@;
                        keys.push(e.0);
                        proof {
                            assert forall|j: int|
                                0 <= j < i + 1 && post_matches(
                                    self.post_map()[#[trigger] entries@[j].0],
                                    search@,
                                ) implies exists|m: int|
                                0 <= m < keys@.len() && keys@[m] == entries@[j].0 by {
                                if j < i {
                                    let m0 = choose|m: int|
                                        0 <= m < old_keys.len() && old_keys[m] == entries@[j].0;
                                    assert(keys@[m0] == entries@[j].0);
                                } else {
                                    assert(keys@[keys@.len() - 1] == entries@[i as int].0);
                                }
                            }
                        }
                    }
                },
                None => {
                    proof {
                        assert(false);
                    }
                },
            }
            i = i + 1;
        }
        proof {
            assert forall|k: u64|
                #[trigger] self.post_map().contains_key(k) && post_matches(
                    self.post_map()[k],
                    search@,
                ) implies exists|m: int| 0 <= m < keys@.len() && keys@[m] == k by {
                let j = choose|j: int| 0 <= j < entries@.len() && entries@[j].0 == k;
                assert(post_matches(self.post_map()[entries@[j].0], search@));
            }
        }
        keys
    }

    /// Case-insensitive substring search over post titles, in ascending id
    /// order; zero matches are reported as not found.
    #[verifier::loop_isolation(false)]
    pub fn search_post_by_title(&self, search: String) -> (r: Result<Vec<Post>, Error>)
        requires
            self.wf(),
        ensures
            r matches Ok(v) ==> (v@.len() > 0 && (forall|i: int|
                0 <= i < v@.len() ==> self.post_map().contains_key(#[trigger] v@[i].id)
                    && v@[i]@ == self.post_map()[v@[i].id] && post_matches(
                    self.post_map()[v@[i].id],
                    search@,
                )) && (forall|i: int, j: int| 0 <= i < j < v@.len() ==> v@[i].id < v@[j].id) && (
            forall|k: u64|
                #[trigger] self.post_map().contains_key(k) && post_matches(
                    self.post_map()[k],
                    search@,
                ) ==> exists|i: int| 0 <= i < v@.len() && v@[i].id == k)),
            r matches Err(e) ==> (is_not_found(e) && forall|k: u64|
                #[trigger] self.post_map().contains_key(k) ==> !post_matches(
                    self.post_map()[k],
                    search@,
                )),
    {
        let query = lowercase(search.as_str());
        let keys = self.matched_post_keys(&search, &query);
        let mut out: Vec<Post> = Vec::new();
        let mut m: usize = 0;
        while m < keys.len()
            invariant
                m <= keys@.len(),
                out@.len() == m,
                forall|t: int|
                    0 <= t < m ==> (#[trigger] out@[t].id) == keys@[t] && out@[t]@
                        == self.post_map()[keys@[t]],
            decreases keys@.len() - m,
        {
            match self.get_post_rec(keys[m]) {
                Some(p) => {
                    proof {
                        assert(byte_map_view(self.posts).contains_key(keys@[m as int]));
                        assert(p.id == keys@[m as int]);
                    }
                    out.push(p);
                },
                None => {
                    proof {
                        assert(false);
                    }
                },
            }
            m = m + 1;
        }
        proof {
            assert forall|k: u64|
                #[trigger] self.post_map().contains_key(k) && post_matches(
                    self.post_map()[k],
                    search@,
                ) implies exists|i: int| 0 <= i < out@.len() && out@[i].id == k by {
                let m0 = choose|m: int| 0 <= m < keys@.len() && keys@[m] == k;
                assert(out@[m0].id == k);
            }
        }
        if out.len() == 0 {
            Err(Error::NotFound { msg: String::from_str("no posts for search could be found") })
        } else {
            Ok(out)
        }
    }

    /// Collects, in ascending order, the keys of the users whose lowered
    /// name contains the lowered query.
    #[verifier::loop_isolation(false)]
    #[verifier::rlimit(60)]
    #[verifier::spinoff_prover]
    fn matched_user_keys(&self, search: &String, query: &String) -> (keys: Vec<u64>)
        requires
            self.wf(),
            query@ == lower_of(search@),
        ensures
            forall|m: int|
                0 <= m < keys@.len() ==> self.user_map().contains_key(#[trigger] keys@[m])
                    && user_matches(self.user_map()[keys@[m]], search@),
            forall|a: int, b: int| 0 <= a < b < keys@.len() ==> keys@[a] < keys@[b],
            forall|k: u64|
                #[trigger] self.user_map().contains_key(k) && user_matches(
                    self.user_map()[k],
                    search@,
                ) ==> exists|m: int| 0 <= m < keys@.len() && keys@[m] == k,
    {
        let entries = self.users.entries();
        let mut keys: Vec<u64> = Vec::new();
        let mut i: usize = 0;
        while i < entries.len()
            invariant
                i <= entries@.len(),
                forall|m: int|
                    0 <= m < keys@.len() ==> self.user_map().contains_key(#[trigger] keys@[m])
                        && user_matches(self.user_map()[keys@[m]], search@),
                forall|m: int|
                    0 <= m < keys@.len() ==> exists|j: int|
                        0 <= j < i && (#[trigger] keys@[m]) == entries@[j].0,
                forall|a: int, b: int| 0 <= a < b < keys@.len() ==> keys@[a] < keys@[b],
                forall|j: int|
                    0 <= j < i && user_matches(self.user_map()[#[trigger] entries@[j].0], search@)
                        ==> exists|m: int| 0 <= m < keys@.len() && keys@[m] == entries@[j].0,
            decreases entries@.len() - i,
        {
            let e = &entries[i];
            proof {
                assert(byte_map_view(self.users).contains_key(entries@[i as int].0));
            }
            match decode_user(&e.1) {
                Some(u) => {
                    proof {
                        assert(u.id == entries@[i as int].0);
                        assert(u@ == self.user_map()[entries@[i as int].0]);
                    }
                    let lowered = lowercase(u.name.as_str());
                    if str_contains(lowered.as_str(), query.as_str()) {
                        proof {
                            assert forall|a: int| 0 <= a < keys@.len() implies keys@[a]
                                < entries@[i as int].0 by {
                                let j = choose|j: int|
                                    0 <= j < i && keys@[a] == entries@[j].0;
                                assert(entries@[j].0 < entries@[i as int].0);
                            }
                        }
                        let ghost old_keys = keys@;
                        keys.push(e.0);
                        proof {
                            assert forall|j: int|
                                0 <= j < i + 1 && user_matches(
                                    self.user_map()[#[trigger] entries@[j].0],
                                    search@,
                                ) implies exists|m: int|
                                0 <= m < keys@.len() && keys@[m] == entries@[j].0 by {
                                if j < i {
                                    let m0 = choose|m: int|
                                        0 <= m < old_keys.len() && old_keys[m] == entries@[j].0;
                                    assert(keys@[m0] == entries@[j].0);
                                } else {
                                    assert(keys@[keys@.len() - 1] == entries@[i as int].0);
                                }
                            }
                        }
                    }
                },
                None => {
                    proof {
                        assert(false);
                    }
                },
            }
            i = i + 1;
        }
        proof {
            assert forall|k: u64|
                #[trigger] self.user_map().contains_key(k) && user_matches(
                    self.user_map()[k],
                    search@,
                ) implies exists|m: int| 0 <= m < keys@.len() && keys@[m] == k by {
                let j = choose|j: int| 0 <= j < entries@.len() && entries@[j].0 == k;
                assert(user_matches(self.user_map()[entries@[j].0], search@));
            }
        }
        keys
    }

    /// Case-insensitive substring search over user names, in ascending id
    /// order, passwords redacted; zero matches are reported as not found.
    #[verifier::loop_isolation(false)]
    pub fn get_user_by_name(&self, search: String) -> (r: Result<Vec<User>, Error>)
        requires
            self.wf(),
        ensures
            r matches Ok(v) ==> (v@.len() > 0 && (forall|i: int|
                0 <= i < v@.len() ==> self.user_map().contains_key(#[trigger] v@[i].id)
                    && v@[i]@ == redact_spec(self.user_map()[v@[i].id]) && user_matches(
                    self.user_map()[v@[i].id],
                    search@,
                )) && (forall|i: int, j: int| 0 <= i < j < v@.len() ==> v@[i].id < v@[j].id) && (
            forall|k: u64|
                #[trigger] self.user_map().contains_key(k) && user_matches(
                    self.user_map()[k],
                    search@,
                ) ==> exists|i: int| 0 <= i < v@.len() && v@[i].id == k)),
            r matches Err(e) ==> (is_not_found(e) && forall|k: u64|
                #[trigger] self.user_map().contains_key(k) ==> !user_matches(
                    self.user_map()[k],
                    search@,
                )),
    {
        let query = lowercase(search.as_str());
        let keys = self.matched_user_keys(&search, &query);
        let mut out: Vec<User> = Vec::new();
        let mut m: usize = 0;
        while m < keys.len()
            invariant
                m <= keys@.len(),
                out@.len() == m,
                forall|t: int|
                    0 <= t < m ==> (#[trigger] out@[t].id) == keys@[t] && out@[t]@
                        == redact_spec(self.user_map()[keys@[t]]),
            decreases keys@.len() - m,
        {
            match self.get_user_rec(keys[m]) {
                Some(u) => {
                    proof {
                        assert(byte_map_view(self.users).contains_key(keys@[m as int]));
                        assert(u.id == keys@[m as int]);
                    }
                    out.push(redact(u));
                },
                None => {
                    proof {
                        assert(false);
                    }
                },
            }
            m = m + 1;
        }
        proof {
            assert forall|k: u64|
                #[trigger] self.user_map().contains_key(k) && user_matches(
                    self.user_map()[k],
                    search@,
                ) implies exists|i: int| 0 <= i < out@.len() && out@[i].id == k by {
                let m0 = choose|m: int| 0 <= m < keys@.len() && keys@[m] == k;
                assert(out@[m0].id == k);
            }
        }
        if out.len() == 0 {
            Err(Error::NotFound { msg: String::from_str("no users for name could be found") })
        } else {
            Ok(out)
        }
    }

    /// Returns the comment mapping of a post as its list of key-comment
    /// pairs; a missing post and an empty mapping are both not found.
    pub fn get_post_comments(&self, post_id: u64) -> (r: Result<Vec<(u64, Comment)>, Error>)
        requires
            self.wf(),
        ensures
            !self.post_map().contains_key(post_id) ==> (r matches Err(e) && is_not_found(e)),
            self.post_map().contains_key(post_id) && self.post_map()[post_id].comments.len() == 0
                ==> (r matches Err(e) && is_not_found(e)),
            self.post_map().contains_key(post_id) && self.post_map()[post_id].comments.len() > 0
                ==> (r matches Ok(v) && pairs_view(v@) == self.post_map()[post_id].comments),
    {
        match self.get_post_rec(post_id) {
            Some(p) => {
                if p.comments.len() == 0 {
                    Err(Error::NotFound { msg: String::from_str("no comments found") })
                } else {
                    Ok(p.comments)
                }
            },
            None => Err(Error::NotFound { msg: String::from_str("post id does not exist") }),
        }
    }
}

/// The identifier the allocator would hand out next is in use by no
/// entity: no user, no post, and no comment of any post carries it.
pub proof fn lemma_next_id_fresh(f: Feed)
    requires
        f.wf(),
    ensures
        !f.user_map().contains_key(f.counter()),
        !f.post_map().contains_key(f.counter()),
        forall|k: u64, i: int|
            f.post_map().contains_key(k) && 0 <= i < f.post_map()[k].comments.len()
                ==> (#[trigger] f.post_map()[k].comments[i]).0 != f.counter(),
{
}

/// Identifiers are unique across the whole state: no user id is a post id,
/// no comment key is a user or post id, and no two comments anywhere share
/// a key.
pub proof fn lemma_ids_unique(f: Feed)
    requires
        f.wf(),
    ensures
        forall|k: u64| #[trigger] f.user_map().contains_key(k) ==> !f.post_map().contains_key(k),
        forall|k: u64, i: int|
            f.post_map().contains_key(k) && 0 <= i < f.post_map()[k].comments.len() ==> {
                let ck = (#[trigger] f.post_map()[k].comments[i]).0;
                !f.user_map().contains_key(ck) && !f.post_map().contains_key(ck)
            },
        forall|k1: u64, i1: int, k2: u64, i2: int|
            #![trigger f.post_map()[k1].comments[i1], f.post_map()[k2].comments[i2]]
            f.post_map().contains_key(k1) && f.post_map().contains_key(k2) && 0 <= i1
                < f.post_map()[k1].comments.len() && 0 <= i2 < f.post_map()[k2].comments.len() && (
            k1 != k2 || i1 != i2) ==> f.post_map()[k1].comments[i1].0
                != f.post_map()[k2].comments[i2].0,
{
}

} // verus!
