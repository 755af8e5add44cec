use vstd::prelude::*;
use crate::domain::{PostModel, PostView};
use crate::infra_errors::InfraError;
use crate::post_id::{fresh_post_id, PostId};
use vstd::seq_lib::*;

verus! {

/// A post row as the table stores it.
pub struct PostDb {
    pub id: PostId,
    pub title: String,
    pub body: String,
    pub published: bool,
}

impl View for PostDb {
    type V = PostView;

    open spec fn view(&self) -> PostView {
        PostView {
            id: self.id.value,
            title: self.title@,
            body: self.body@,
            published: self.published,
        }
    }
}

/// A post to be inserted: every column but the generated id.
pub struct NewPostDb {
    pub title: String,
    pub body: String,
    pub published: bool,
}

/// The optional constraints of a list query; absent fields constrain nothing,
/// present fields combine with logical AND.
pub struct PostsFilter {
    pub published: Option<bool>,
    pub title_contains: Option<String>,
}

/// The mathematical content of a `PostsFilter`.
pub ghost struct FilterView {
    pub published: Option<bool>,
    pub title_contains: Option<Seq<char>>,
}

impl View for PostsFilter {
    type V = FilterView;

    open spec fn view(&self) -> FilterView {
        FilterView {
            published: self.published,
            title_contains: match self.title_contains {
                Some(ref t) => Some(t@),
                None => None,
            },
        }
    }
}

/// Whether `a` and `b` are the same character up to ASCII case.
pub open spec fn eq_ci(a: char, b: char) -> bool {
    ||| a == b
    ||| (65 <= a as int <= 90 && b as int == a as int + 32)
    ||| (65 <= b as int <= 90 && a as int == b as int + 32)
}

/// Whether `needle` occurs in `hay` at position `i`, up to ASCII case.
pub open spec fn matches_at(hay: Seq<char>, needle: Seq<char>, i: int) -> bool {
    forall|j: int| 0 <= j < needle.len() ==> eq_ci(hay[i + j], #[trigger] needle[j])
}

/// Whether `needle` occurs somewhere in `hay`, up to ASCII case.
/// An empty `needle` occurs in every `hay`.
pub open spec fn contains_ci(hay: Seq<char>, needle: Seq<char>) -> bool {
    exists|i: int| 0 <= i <= hay.len() - needle.len() && matches_at(hay, needle, i)
}

/// Whether a post satisfies every present field of a filter.
pub open spec fn filter_matches(p: PostView, f: FilterView) -> bool {
    &&& match f.published {
        Some(b) => p.published == b,
        None => true,
    }
    &&& match f.title_contains {
        Some(t) => contains_ci(p.title, t),
        None => true,
    }
}

/// The filter as a predicate on posts.
pub open spec fn filter_pred(f: FilterView) -> spec_fn(PostView) -> bool {
    |p: PostView| filter_matches(p, f)
}

/// The views of a sequence of posts.
pub open spec fn models_view(s: Seq<PostModel>) -> Seq<PostView> {
    s.map_values(|p: PostModel| p@)
}

/// Whether some post in `s` carries the identifier `id`.
pub open spec fn contains_id(s: Seq<PostView>, id: u128) -> bool {
    exists|i: int| 0 <= i < s.len() && s[i].id == id
}

/// Whether no two posts in `s` share an identifier.
pub open spec fn ids_distinct(s: Seq<PostView>) -> bool {
    forall|i: int, j: int| 0 <= i < j < s.len() ==> s[i].id != s[j].id
}

fn char_eq_ci(a: char, b: char) -> (r: bool)
    ensures
        r == eq_ci(a, b),
{
    if a == b {
        true
    } else if 65 <= a as u32 && a as u32 <= 90 {
        a as u32 + 32 == b as u32
    } else if 65 <= b as u32 && b as u32 <= 90 {
        b as u32 + 32 == a as u32
    } else {
        false
    }
}

/// Whether `needle` occurs in `hay` as a substring, ignoring ASCII case.
pub fn str_contains_ci(hay: &str, needle: &str) -> (r: bool)
    ensures
        r == contains_ci(hay@, needle@),
{
    let n = hay.unicode_len();
    let m = needle.unicode_len();
    if m > n {
        assert(!contains_ci(hay@, needle@));
        return false;
    }
    let mut i: usize = 0;
    while i <= n - m
        invariant
            m <= n,
            n == hay@.len(),
            m == needle@.len(),
            i <= n - m + 1,
            forall|k: int| 0 <= k < i ==> !matches_at(hay@, needle@, k),
        decreases n - m + 1 - i,
    {
        let mut j: usize = 0;
        let mut ok = true;
        while j < m
            invariant
                m <= n,
                i <= n - m,
                n == hay@.len(),
                m == needle@.len(),
                j <= m,
                ok == (forall|l: int| 0 <= l < j ==> eq_ci(hay@[i + l], #[trigger] needle@[l])),
            decreases m - j,
        {
            let a = hay.get_char(i + j);
            let b = needle.get_char(j);
            if !char_eq_ci(a, b) {
                ok = false;
            }
            j += 1;
        }
        if ok {
            assert(matches_at(hay@, needle@, i as int));
            return true;
        }
        i += 1;
    }
    false
}

/// Whether the post satisfies every present field of the filter.
pub fn matches_filter(p: &PostDb, f: &PostsFilter) -> (r: bool)
    ensures
        r == filter_matches(p@, f@),
{
    let published_ok = match &f.published {
        Some(b) => p.published == *b,
        None => true,
    };
    let title_ok = match &f.title_contains {
        Some(t) => str_contains_ci(p.title.as_str(), t.as_str()),
        None => true,
    };
    published_ok && title_ok
}

/// The posts table: rows in storage order, no two rows sharing an id.
pub struct PostStore {
    posts: Vec<PostDb>,
}

impl View for PostStore {
    type V = Seq<PostView>;

    closed spec fn view(&self) -> Seq<PostView> {
        self.posts@.map_values(|p: PostDb| p@)
    }
}

impl PostStore {
    /// The table's invariant: every row has its own identifier.
    pub open spec fn wf(&self) -> bool {
        ids_distinct(self@)
    }

    /// An empty table.
    pub fn new() -> (r: PostStore)
        ensures
            r@ == Seq::<PostView>::empty(),
            r.wf(),
    {
        let r = PostStore { posts: Vec::new() };
        proof {
            assert(r@ =~= Seq::<PostView>::empty());
        }
        r
    }

    /// Whether some row carries the identifier `id`.
    pub fn has_id(&self, id: PostId) -> (r: bool)
        ensures
            r == contains_id(self@, id.value),
    {
        let mut i: usize = 0;
        while i < self.posts.len()
            invariant
                i <= self.posts.len(),
                self@.len() == self.posts@.len(),
                forall|k: int| 0 <= k < i ==> self@[k].id != id.value,
            decreases self.posts.len() - i,
        {
            if self.posts[i].id == id {
                assert(self@[i as int].id == id.value);
                return true;
            }
            i += 1;
        }
        false
    }
}

fn clone_post_db(p: &PostDb) -> (r: PostDb)
    ensures
        r@ == p@,
{
    PostDb { id: p.id, title: p.title.clone(), body: p.body.clone(), published: p.published }
}

/// Translates a stored row into the domain entity.
pub fn adapt_post_db_to_post(post_db: PostDb) -> (r: PostModel)
    ensures
        r@ == post_db@,
{
    PostModel {
        id: post_db.id,
        title: post_db.title,
        body: post_db.body,
        published: post_db.published,
    }
}

/// Inserts a row under the given identifier. Fails with
/// `InternalServerError`, leaving the table unchanged, exactly when the
/// identifier is already taken (the table's key constraint).
pub fn insert_with_id(store: &mut PostStore, id: PostId, new_post: NewPostDb) -> (result: Result<
    PostModel,
    InfraError,
>)
    requires
        old(store).wf(),
    ensures
        final(store).wf(),
        contains_id(old(store)@, id.value) ==> result == Err::<PostModel, InfraError>(
            InfraError::InternalServerError,
        ) && final(store)@ == old(store)@,
        !contains_id(old(store)@, id.value) ==> {
            &&& result matches Ok(p)
            &&& p@ == (PostView {
                id: id.value,
                title: new_post.title@,
                body: new_post.body@,
                published: new_post.published,
            })
            &&& final(store)@ == old(store)@.push(p@)
        },
{
    if store.has_id(id) {
        return Err(InfraError::InternalServerError);
    }
    let row = PostDb {
        id,
        title: new_post.title,
        body: new_post.body,
        published: new_post.published,
    };
    let model = clone_post_db(&row);
    let ghost prev = store@;
    store.posts.push(row);
    proof {
        assert(store@ =~= prev.push(model@));
        assert forall|i: int, j: int| 0 <= i < j < store@.len() implies store@[i].id
            != store@[j].id by {
            if j < prev.len() {
            } else {
                assert(!contains_id(prev, id.value));
            }
        }
    }
    Ok(adapt_post_db_to_post(model))
}

/// Creates a row for the new post under a freshly generated identifier and
/// returns it. Fails with `InternalServerError`, leaving the table
/// unchanged, exactly when the generated identifier collides with a stored
/// one.
pub fn insert(store: &mut PostStore, new_post: NewPostDb) -> (result: Result<
    PostModel,
    InfraError,
>)
    requires
        old(store).wf(),
    ensures
        final(store).wf(),
        result matches Ok(p) ==> {
            &&& p@.title == new_post.title@
            &&& p@.body == new_post.body@
            &&& p@.published == new_post.published
            &&& !contains_id(old(store)@, p@.id)
            &&& final(store)@ == old(store)@.push(p@)
        },
        result matches Err(e) ==> e == InfraError::InternalServerError && final(store)@ == old(
            store,
        )@,
{
    let id = fresh_post_id();
    insert_with_id(store, id, new_post)
}

/// Fetches the post carrying the identifier `id`. Fails with `NotFound`
/// exactly when no row carries it; no other failure exists here.
pub fn get(store: &PostStore, id: PostId) -> (result: Result<PostModel, InfraError>)
    ensures
        contains_id(store@, id.value) ==> {
            &&& result matches Ok(p)
            &&& p@.id == id.value
            &&& store@.contains(p@)
        },
        !contains_id(store@, id.value) ==> result == Err::<PostModel, InfraError>(
            InfraError::NotFound,
        ),
{
    let mut i: usize = 0;
    while i < store.posts.len()
        invariant
            i <= store.posts.len(),
            store@.len() == store.posts@.len(),
            forall|k: int| 0 <= k < i ==> store@[k].id != id.value,
        decreases store.posts.len() - i,
    {
        if store.posts[i].id == id {
            let model = adapt_post_db_to_post(clone_post_db(&store.posts[i]));
            assert(store@[i as int].id == id.value);
            assert(store@.contains(model@));
            return Ok(model);
        }
        i += 1;
    }
    Err(InfraError::NotFound)
}

/// Returns, in storage order, every post that satisfies the filter.
/// An empty result is not an error; no failure exists here.
pub fn get_all(store: &PostStore, filter: PostsFilter) -> (result: Result<
    Vec<PostModel>,
    InfraError,
>)
    ensures
        result matches Ok(posts) && models_view(posts@) == store@.filter(filter_pred(filter@)),
{
    let mut out: Vec<PostModel> = Vec::new();
    let mut i: usize = 0;
    proof {
        assert(models_view(out@) =~= store@.take(0).filter(filter_pred(filter@)));
    }
    while i < store.posts.len()
        invariant
            i <= store.posts.len(),
            store@.len() == store.posts@.len(),
            models_view(out@) == store@.take(i as int).filter(filter_pred(filter@)),
        decreases store.posts.len() - i,
    {
        let ghost prev = out@;
        if matches_filter(&store.posts[i], &filter) {
            let model = adapt_post_db_to_post(clone_post_db(&store.posts[i]));
            out.push(model);
        }
        proof {
            reveal(Seq::filter);
            let pred = filter_pred(filter@);
            assert(store@.take(i + 1).drop_last() =~= store@.take(i as int));
            assert(store@.take(i + 1).last() == store@[i as int]);
            if filter_matches(store@[i as int], filter@) {
                assert(models_view(out@) =~= models_view(prev).push(store@[i as int]));
            } else {
                assert(models_view(out@) =~= models_view(prev));
            }
        }
        i += 1;
    }
    proof {
        assert(store@.take(store.posts@.len() as int) =~= store@);
    }
    Ok(out)
}


/// A filter with no present field keeps every stored post.
pub proof fn lemma_unfiltered_list_keeps_all(s: Seq<PostView>)
    ensures
        s.filter(filter_pred(FilterView { published: None, title_contains: None })) == s,
    decreases s.len(),
{
    reveal(Seq::filter);
    let f = FilterView { published: None, title_contains: None };
    if s.len() == 0 {
        assert(s.filter(filter_pred(f)) =~= s);
    } else {
        lemma_unfiltered_list_keeps_all(s.drop_last());
        assert(s.filter(filter_pred(f)) =~= s);
    }
}

/// With a published constraint, every post the filter keeps satisfies it.
pub proof fn lemma_published_filter_subset(s: Seq<PostView>, f: FilterView, b: bool)
    requires
        f.published == Some(b),
    ensures
        forall|i: int|
            0 <= i < s.filter(filter_pred(f)).len() ==> (#[trigger] s.filter(
                filter_pred(f),
            )[i]).published == b,
{
    assert forall|i: int| 0 <= i < s.filter(filter_pred(f)).len() implies (#[trigger] s.filter(
        filter_pred(f),
    )[i]).published == b by {
        s.lemma_filter_pred(filter_pred(f), i);
    }
}

/// With a title constraint, every post the filter keeps has the needle in
/// its title, up to ASCII case.
pub proof fn lemma_title_filter_subset(s: Seq<PostView>, f: FilterView, t: Seq<char>)
    requires
        f.title_contains == Some(t),
    ensures
        forall|i: int|
            0 <= i < s.filter(filter_pred(f)).len() ==> contains_ci(
                (#[trigger] s.filter(filter_pred(f))[i]).title,
                t,
            ),
{
    assert forall|i: int| 0 <= i < s.filter(filter_pred(f)).len() implies contains_ci(
        (#[trigger] s.filter(filter_pred(f))[i]).title,
        t,
    ) by {
        s.lemma_filter_pred(filter_pred(f), i);
    }
}

/// Both constraints together keep exactly the posts both keep alone: the
/// combined filter is the one filter applied after the other.
pub proof fn lemma_combined_filter_is_intersection(s: Seq<PostView>, b: bool, t: Seq<char>)
    ensures
        s.filter(filter_pred(FilterView { published: Some(b), title_contains: Some(t) }))
            == s.filter(filter_pred(FilterView { published: Some(b), title_contains: None }))
            .filter(filter_pred(FilterView { published: None, title_contains: Some(t) })),
    decreases s.len(),
{
    reveal(Seq::filter);
    let both = FilterView { published: Some(b), title_contains: Some(t) };
    let pf = FilterView { published: Some(b), title_contains: None };
    let tf = FilterView { published: None, title_contains: Some(t) };
    if s.len() == 0 {
        assert(s.filter(filter_pred(both)) =~= s.filter(filter_pred(pf)).filter(filter_pred(tf)));
    } else {
        let sd = s.drop_last();
        let p = s.last();
        lemma_combined_filter_is_intersection(sd, b, t);
        if filter_matches(p, pf) {
            assert(sd.filter(filter_pred(pf)).push(p).drop_last() =~= sd.filter(filter_pred(pf)));
            assert(s.filter(filter_pred(pf)).filter(filter_pred(tf)) == sd.filter(
                filter_pred(pf),
            ).filter(filter_pred(tf)) + (if filter_matches(p, tf) {
                seq![p]
            } else {
                Seq::<PostView>::empty()
            })) by {
                if filter_matches(p, tf) {
                    assert(s.filter(filter_pred(pf)).filter(filter_pred(tf)) =~= sd.filter(
                        filter_pred(pf),
                    ).filter(filter_pred(tf)) + seq![p]);
                } else {
                    assert(s.filter(filter_pred(pf)).filter(filter_pred(tf)) =~= sd.filter(
                        filter_pred(pf),
                    ).filter(filter_pred(tf)));
                }
            }
        }
        assert(s.filter(filter_pred(both)) =~= s.filter(filter_pred(pf)).filter(filter_pred(tf)));
    }
}

/// A post just created is the one any lookup of its id finds: in the
/// store as left by the insert, every post carrying the fresh id is the
/// inserted post itself.
pub proof fn lemma_created_post_is_retrievable(s: Seq<PostView>, p: PostView, q: PostView)
    requires
        !contains_id(s, p.id),
        s.push(p).contains(q),
        q.id == p.id,
    ensures
        q == p,
{
    let s2 = s.push(p);
    let i = choose|i: int| 0 <= i < s2.len() && s2[i] == q;
    if i < s.len() {
        assert(s[i].id == p.id);
        assert(contains_id(s, p.id));
    } else {
        assert(q == s2[s.len() as int]);
    }
}

/// In a well-formed store no two posts share an id, so ids created by
/// distinct inserts are distinct.
pub proof fn lemma_no_two_posts_share_id(s: Seq<PostView>, i: int, j: int)
    requires
        ids_distinct(s),
        0 <= i < s.len(),
        0 <= j < s.len(),
        i != j,
    ensures
        s[i].id != s[j].id,
{
}

} // verus!
