use vstd::prelude::*;
use crate::db_repository::{
    contains_id, filter_pred, get, get_all, insert, models_view, NewPostDb, PostsFilter, PostStore,
};
use crate::domain::{PostError, PostModel, PostView};
use crate::json_extractor::JsonExtractor;
use crate::post_id::PostId;
use crate::response::{responses_view, ListPostsResponse, PostResponse};

verus! {

/// A create request's validated JSON body.
pub struct CreatePostRequest {
    pub title: String,
    pub body: String,
}

/// Translates the domain entity into its response form.
pub fn adapt_post_to_post_response(post: PostModel) -> (r: PostResponse)
    ensures
        r@ == post@,
{
    PostResponse {
        id: post.id,
        title: post.title,
        body: post.body,
        published: post.published,
    }
}

/// Translates a list of domain entities into the list response form.
pub fn adapt_posts_to_list_posts_response(posts: Vec<PostModel>) -> (r: ListPostsResponse)
    ensures
        responses_view(r.posts@) == models_view(posts@),
{
    let mut out: Vec<PostResponse> = Vec::new();
    let mut i: usize = 0;
    while i < posts.len()
        invariant
            i <= posts@.len(),
            out@.len() == i,
            forall|k: int| 0 <= k < i ==> #[trigger] out@[k]@ == posts@[k]@,
        decreases posts@.len() - i,
    {
        let p = &posts[i];
        out.push(
            PostResponse {
                id: p.id,
                title: p.title.clone(),
                body: p.body.clone(),
                published: p.published,
            },
        );
        i += 1;
    }
    proof {
        assert(responses_view(out@) =~= models_view(posts@));
    }
    ListPostsResponse { posts: out }
}

/// Creates a post from a validated body. The stored and returned post takes
/// its title and body from the request and is unpublished, whatever the
/// client asked; its id is freshly generated. The one failure is the
/// storage fault on an id collision, surfaced as `InternalServerError`.
pub fn create_post(store: &mut PostStore, extractor: JsonExtractor<CreatePostRequest>) -> (result:
    Result<PostResponse, PostError>)
    requires
        old(store).wf(),
    ensures
        final(store).wf(),
        result matches Ok(pr) ==> {
            &&& pr@.title == extractor.0.title@
            &&& pr@.body == extractor.0.body@
            &&& pr@.published == false
            &&& !contains_id(old(store)@, pr@.id)
            &&& final(store)@ == old(store)@.push(pr@)
        },
        result matches Err(e) ==> e == PostError::InternalServerError && final(store)@ == old(
            store,
        )@,
{
    let JsonExtractor(new_post) = extractor;
    let new_post_db = NewPostDb { title: new_post.title, body: new_post.body, published: false };
    match insert(store, new_post_db) {
        Ok(created) => Ok(adapt_post_to_post_response(created)),
        Err(_) => Err(PostError::InternalServerError),
    }
}

/// Fetches the post carrying `post_id`. An absent id is `NotFound(post_id)`,
/// never a server fault.
pub fn get_post(store: &PostStore, post_id: PostId) -> (result: Result<PostResponse, PostError>)
    ensures
        contains_id(store@, post_id.value) ==> {
            &&& result matches Ok(pr)
            &&& pr@.id == post_id.value
            &&& store@.contains(pr@)
        },
        !contains_id(store@, post_id.value) ==> result == Err::<PostResponse, PostError>(
            PostError::NotFound(post_id),
        ),
{
    match get(store, post_id) {
        Ok(post) => Ok(adapt_post_to_post_response(post)),
        Err(db_error) => match db_error {
            crate::infra_errors::InfraError::InternalServerError => Err(
                PostError::InternalServerError,
            ),
            crate::infra_errors::InfraError::NotFound => Err(PostError::NotFound(post_id)),
        },
    }
}

/// Lists, in storage order, every post that satisfies the filter. An empty
/// result is a success; no failure exists here.
pub fn list_posts(store: &PostStore, params: PostsFilter) -> (result: Result<
    ListPostsResponse,
    PostError,
>)
    ensures
        result matches Ok(lr) && responses_view(lr.posts@) == store@.filter(filter_pred(params@)),
{
    match get_all(store, params) {
        Ok(posts) => Ok(adapt_posts_to_list_posts_response(posts)),
        Err(_) => Err(PostError::InternalServerError),
    }
}

} // verus!
