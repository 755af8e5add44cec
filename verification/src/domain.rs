use vstd::prelude::*;
use crate::post_id::PostId;

verus! {

/// The mathematical content of a post: what every layer of the service
/// agrees a post is, independent of any one representation.
pub ghost struct PostView {
    pub id: u128,
    pub title: Seq<char>,
    pub body: Seq<char>,
    pub published: bool,
}

/// The domain entity managed by the service.
pub struct PostModel {
    pub id: PostId,
    pub title: String,
    pub body: String,
    pub published: bool,
}

impl View for PostModel {
    type V = PostView;

    open spec fn view(&self) -> PostView {
        PostView {
            id: self.id.value,
            title: self.title@,
            body: self.body@,
            published: self.published,
        }
    }
}

/// The handler-facing error taxonomy: the repository's two-valued outcome
/// enriched with the requested id where one exists.
#[derive(Clone, Copy, Debug, PartialEq, Eq, Structural)]
pub enum PostError {
    NotFound(PostId),
    InternalServerError,
}

} // verus!
