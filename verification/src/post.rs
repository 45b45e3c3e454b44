//! The list of posts of the backstage.

use vstd::prelude::*;
use crate::rpc::{RpcError, RpcErrorView, illegal_args_message};
use crate::text::joined;

verus! {

/// Which posts are asked for.
#[derive(Clone, Debug, PartialEq, Eq)]
pub enum PostListFilter {
    /// All of them.
    All,
    Series(String),
    Category(String),
    Tag(String),
    Keyword(String),
}

/// A request for a part of the list of posts.
#[derive(Clone, Debug, PartialEq, Eq)]
pub struct PostListReq {
    pub skip: usize,
    pub count: usize,
    pub filter: PostListFilter,
}

/// Whether a post can be seen.
#[derive(Clone, Copy, Debug, PartialEq, Eq, Structural)]
pub enum PostStatus {
    Draft,
    Published,
    HiddenLink,
}

/// What the list tells of a post.
#[derive(Clone, Debug, PartialEq, Eq)]
pub struct PostMeta {
    pub id: String,
    pub status: PostStatus,
    pub timestamp: u64,
    pub url: Option<String>,
    pub title: String,
    pub abstract_: String,
    pub series: Option<String>,
    pub category: String,
}

/// The answer to a request for the list of posts.
#[derive(Clone, Debug, PartialEq, Eq)]
pub enum PostListResp {
    Success(Vec<PostMeta>),
    Fail,
}

/// A post as storage holds it; its time in seconds since the epoch.
#[derive(Clone, Debug, PartialEq, Eq)]
pub struct Post {
    pub id: String,
    pub status: i32,
    pub timestamp: u64,
    pub url: Option<String>,
    pub title: String,
    pub abstract_: String,
    pub content: String,
    pub file: Option<String>,
    pub series: Option<String>,
    pub category: String,
    pub commentable: i32,
}

/// The status that a stored number stands for; a draft for any number that stands for none.
pub open spec fn status_of(n: i32) -> PostStatus {
    if n == 1 {
        PostStatus::Published
    } else if n == 2 {
        PostStatus::HiddenLink
    } else {
        PostStatus::Draft
    }
}

impl PostStatus {
    /// The status that a stored number stands for.
    pub fn from_i32(n: i32) -> (r: Option<PostStatus>)
        ensures
            r == (if n == 0 {
                Some(PostStatus::Draft)
            } else if n == 1 {
                Some(PostStatus::Published)
            } else if n == 2 {
                Some(PostStatus::HiddenLink)
            } else {
                None
            }),
    {
        if n == 0 {
            Some(PostStatus::Draft)
        } else if n == 1 {
            Some(PostStatus::Published)
        } else if n == 2 {
            Some(PostStatus::HiddenLink)
        } else {
            None
        }
    }
}

/// Whether a number lies within the bounds that are given.
pub open spec fn range_within(n: u64, min: Option<u64>, max: Option<u64>) -> bool {
    &&& match min {
        Some(m) => n >= m,
        None => true,
    }
    &&& match max {
        Some(m) => n <= m,
        None => true,
    }
}

/// Calls `validator::ValidateRange::validate_range` on a number, with no
/// exclusive bounds. Trusted: a bound that is given must hold.
#[verifier::external_body]
fn validate_range(n: u64, min: Option<u64>, max: Option<u64>) -> (r: bool)
    ensures
        r == range_within(n, min, max),
{
    validator::ValidateRange::validate_range(&n, min, max, None, None)
}

/// The rows to ask storage for: how many to pass over, and how many to take.
#[derive(Clone, Copy, Debug, PartialEq, Eq, Structural)]
pub struct PostQuery {
    pub offset: u64,
    pub limit: u64,
}

/// The first step of listing posts: a request for more than 100 posts at
/// once is refused as illegal arguments, and any other asks storage for the
/// newest posts behind the first `skip`.
pub fn list(req: &PostListReq) -> (r: Result<PostQuery, RpcError>)
    ensures
        match r {
            Ok(q) => req.count <= 100 && q.offset == req.skip && q.limit == req.count,
            Err(e) => req.count > 100 && e@ == RpcErrorView::IllegalArgs(
                illegal_args_message("count"@, "range"@),
            ),
        },
{
    let skip = req.skip as u64;
    let count = req.count as u64;
    if !validate_range(skip, Some(0), None) {
        let a = joined("skip", ": Validation error: ");
        return Err(RpcError::IllegalArgs(joined(a.as_str(), "range")));
    }
    if !validate_range(count, None, Some(100)) {
        let a = joined("count", ": Validation error: ");
        return Err(RpcError::IllegalArgs(joined(a.as_str(), "range")));
    }
    Ok(PostQuery { offset: skip, limit: count })
}

/// What the list tells of a stored post.
pub fn post_meta(post: Post) -> (r: PostMeta)
    ensures
        r.id@ == post.id@,
        r.status == status_of(post.status),
        r.timestamp == post.timestamp,
        r.url == post.url,
        r.title@ == post.title@,
        r.abstract_@ == post.abstract_@,
        r.series == post.series,
        r.category@ == post.category@,
{
    let status = match PostStatus::from_i32(post.status) {
        Some(s) => s,
        None => PostStatus::Draft,
    };
    PostMeta {
        id: post.id,
        status,
        timestamp: post.timestamp,
        url: post.url,
        title: post.title,
        abstract_: post.abstract_,
        series: post.series,
        category: post.category,
    }
}

/// The last step of listing posts: the answer for the rows that storage gave, in their order.
pub fn list_finish(rows: Vec<Post>) -> (r: PostListResp)
    ensures
        match r {
            PostListResp::Success(metas) => metas.len() == rows.len() && forall|i: int|
                0 <= i < rows.len() ==> {
                    &&& (#[trigger] metas@[i]).id@ == rows@[i].id@
                    &&& metas@[i].status == status_of(rows@[i].status)
                    &&& metas@[i].timestamp == rows@[i].timestamp
                    &&& metas@[i].url == rows@[i].url
                    &&& metas@[i].title@ == rows@[i].title@
                    &&& metas@[i].abstract_@ == rows@[i].abstract_@
                    &&& metas@[i].series == rows@[i].series
                    &&& metas@[i].category@ == rows@[i].category@
                },
            PostListResp::Fail => false,
        },
{
    let ghost all = rows@;
    let mut rows = rows;
    let mut metas: Vec<PostMeta> = Vec::new();
    while rows.len() > 0
        invariant
            metas.len() + rows.len() == all.len(),
            forall|i: int| 0 <= i < rows.len() ==> rows@[i] == all[metas.len() + i],
            forall|i: int|
                0 <= i < metas.len() ==> {
                    &&& (#[trigger] metas@[i]).id@ == all[i].id@
                    &&& metas@[i].status == status_of(all[i].status)
                    &&& metas@[i].timestamp == all[i].timestamp
                    &&& metas@[i].url == all[i].url
                    &&& metas@[i].title@ == all[i].title@
                    &&& metas@[i].abstract_@ == all[i].abstract_@
                    &&& metas@[i].series == all[i].series
                    &&& metas@[i].category@ == all[i].category@
                },
        decreases rows.len(),
    {
        let post = rows.remove(0);
        metas.push(post_meta(post));
    }
    PostListResp::Success(metas)
}

} // verus!
