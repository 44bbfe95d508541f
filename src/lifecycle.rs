//! The post-up / post-down command pair of the interface: each command is
//! handed out at most once.
use vstd::prelude::*;

verus! {

/// The text of an optional command.
pub open spec fn opt_text(o: Option<String>) -> Option<Seq<char>> {
    match o {
        Some(s) => Some(s@),
        None => None,
    }
}

/// The lifecycle commands of the interface not yet handed out.
pub struct PostCommand {
    post_up: Option<String>,
    post_down: Option<String>,
}

impl PostCommand {
    /// The post-up command still to run.
    pub closed spec fn up(&self) -> Option<Seq<char>> {
        opt_text(self.post_up)
    }

    /// The post-down command still to run.
    pub closed spec fn down(&self) -> Option<Seq<char>> {
        opt_text(self.post_down)
    }

    /// Holds both commands, neither run yet.
    pub fn new(post_up: Option<String>, post_down: Option<String>) -> (r: PostCommand)
        ensures
            r.up() == opt_text(post_up),
            r.down() == opt_text(post_down),
    {
        PostCommand { post_up, post_down }
    }

    /// Hands out the post-up command, once: later calls give `None`.
    pub fn take_post_up(&mut self) -> (r: Option<String>)
        ensures
            opt_text(r) == old(self).up(),
            final(self).up() is None,
            final(self).down() == old(self).down(),
    {
        self.post_up.take()
    }

    /// Hands out the post-down command, once: later calls give `None`.
    pub fn take_post_down(&mut self) -> (r: Option<String>)
        ensures
            opt_text(r) == old(self).down(),
            final(self).down() is None,
            final(self).up() == old(self).up(),
    {
        self.post_down.take()
    }
}

} // verus!
