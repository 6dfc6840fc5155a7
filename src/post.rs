//! A blog post that goes through draft, review and publication.
use vstd::prelude::*;
use vstd::string::StringExecFns;

verus! {

/// The stage a post is in.
#[derive(Debug, Clone, Copy, PartialEq, Eq, Structural)]
pub enum PostState {
    Draft,
    PendingReview,
    Published,
}

/// The stage after a review is requested: a draft goes to review,
/// any other stage stays.
pub open spec fn after_request_review(s: PostState) -> PostState {
    match s {
        PostState::Draft => PostState::PendingReview,
        _ => s,
    }
}

/// The stage after an approval: a post under review is published,
/// any other stage stays.
pub open spec fn after_approve(s: PostState) -> PostState {
    match s {
        PostState::PendingReview => PostState::Published,
        _ => s,
    }
}

/// The model of a post: its stage and the text written so far.
pub struct PostView {
    pub state: PostState,
    pub text: Seq<char>,
}

/// A blog post whose text is only visible once published.
pub struct Post {
    state: PostState,
    content: String,
}

impl View for Post {
    type V = PostView;

    closed spec fn view(&self) -> PostView {
        PostView { state: self.state, text: self.content@ }
    }
}

impl Default for Post {
    fn default() -> (r: Post)
        ensures
            r@.state == PostState::Draft,
            r@.text.len() == 0,
    {
        Post::new()
    }
}

impl Post {
    /// An empty draft.
    pub fn new() -> (r: Post)
        ensures
            r@.state == PostState::Draft,
            r@.text.len() == 0,
    {
        Post { state: PostState::Draft, content: String::new() }
    }

    /// Appends `text` to the post's text, whatever its stage.
    pub fn add_text(&mut self, text: &str)
        ensures
            final(self)@.state == old(self)@.state,
            final(self)@.text == old(self)@.text + text@,
    {
        self.content.append(text);
    }

    /// The visible text: all of it once published, nothing before.
    pub fn content(&self) -> (r: &str)
        ensures
            self@.state == PostState::Published ==> r@ == self@.text,
            self@.state != PostState::Published ==> r@.len() == 0,
    {
        match self.state {
            PostState::Published => self.content.as_str(),
            _ => {
                proof {
                    reveal_strlit("");
                }
                ""
            },
        }
    }

    /// Asks for a review: a draft moves to review.
    pub fn request_review(&mut self)
        ensures
            final(self)@.state == after_request_review(old(self)@.state),
            final(self)@.text == old(self)@.text,
    {
        if self.state == PostState::Draft {
            self.state = PostState::PendingReview;
        }
    }

    /// Approves the post: one under review is published.
    pub fn approve(&mut self)
        ensures
            final(self)@.state == after_approve(old(self)@.state),
            final(self)@.text == old(self)@.text,
    {
        if self.state == PostState::PendingReview {
            self.state = PostState::Published;
        }
    }
}

/// Walks a post through its stages: its text stays hidden until it is
/// approved.
pub fn demo_state_pattern() {
    let mut post = Post::new();
    let lunch = "I ate a salad for lunch today";
    post.add_text(lunch);
    let hidden = post.content();
    assert(hidden@.len() == 0);
    post.request_review();
    let hidden = post.content();
    assert(hidden@.len() == 0);
    post.approve();
    assert(post@.text =~= lunch@);
    let shown = post.content();
    assert(shown@ == lunch@);
}

} // verus!
