use vstd::prelude::*;

verus! {

/// One lookup of a reference, in the order in which they are tried: each
/// kind is looked up locally first, then fetched from its home server.
#[derive(Clone, Copy, Debug, PartialEq, Eq, Structural)]
pub enum Lookup {
    LocalUser,
    RemoteUser,
    LocalPost,
    RemotePost,
    LocalComment,
    RemoteComment,
}

/// Where a post sits: its blog's fully-qualified name and its slug.
#[derive(Clone, Debug, PartialEq, Eq)]
pub struct PostPlace {
    pub blog: String,
    pub slug: String,
}

/// What one lookup found.
#[derive(Clone, Debug, PartialEq, Eq)]
pub enum Found {
    Nothing,
    /// A user whose fully-qualified name is the reference.
    User,
    /// A post; `place` is `None` when its blog could not be loaded.
    Post { place: Option<PostPlace> },
    /// A comment, whether the viewer may see it, and the post it answers
    /// (`None` when that post or its blog could not be loaded).
    Comment { id: i32, visible: bool, place: Option<PostPlace> },
}

/// A local page to send the viewer to.
#[derive(Clone, Debug, PartialEq, Eq)]
pub enum Target {
    /// The profile of the user with this fully-qualified name.
    Profile { name: String },
    /// A post's page, scrolled to a comment when `responding_to` is set.
    PostDetails { blog: String, slug: String, responding_to: Option<i32> },
}

/// What the resolver does next.
#[derive(Clone, Debug, PartialEq, Eq)]
pub enum Step {
    /// Perform this lookup and report what it found.
    Look(Lookup),
    Redirect(Target),
    /// Nothing that the viewer may see matches: a not-found page.
    NoMatch,
    /// A post was found whose blog (or a comment whose post) is missing.
    Broken,
}

/// The lookup tried after `l` found nothing, if any.
pub open spec fn after(l: Lookup) -> Option<Lookup> {
    match l {
        Lookup::LocalUser => Some(Lookup::RemoteUser),
        Lookup::RemoteUser => Some(Lookup::LocalPost),
        Lookup::LocalPost => Some(Lookup::RemotePost),
        Lookup::RemotePost => Some(Lookup::LocalComment),
        Lookup::LocalComment => Some(Lookup::RemoteComment),
        Lookup::RemoteComment => None,
    }
}

/// The step after lookup `l` of the reference `target` found `found`.
pub open spec fn next_step(target: String, l: Lookup, found: Found) -> Step {
    let miss = match after(l) {
        Some(n) => Step::Look(n),
        None => Step::NoMatch,
    };
    match found {
        Found::Nothing => miss,
        Found::User => Step::Redirect(Target::Profile { name: target }),
        Found::Post { place } => match place {
            Some(p) => Step::Redirect(
                Target::PostDetails { blog: p.blog, slug: p.slug, responding_to: None },
            ),
            None => Step::Broken,
        },
        Found::Comment { id, visible, place } => if !visible {
            miss
        } else {
            match place {
                Some(p) => Step::Redirect(
                    Target::PostDetails { blog: p.blog, slug: p.slug, responding_to: Some(id) },
                ),
                None => Step::Broken,
            }
        },
    }
}

/// The step reached from lookup `l` when the lookups report `found`, one
/// after the other, for as long as the resolver asks for more.
pub open spec fn run_from(target: String, l: Lookup, found: Seq<Found>) -> Step
    decreases found.len(),
{
    if found.len() == 0 {
        Step::Look(l)
    } else {
        match next_step(target, l, found[0]) {
            Step::Look(n) => run_from(target, n, found.drop_first()),
            s => s,
        }
    }
}

/// The first lookup of a reference.
pub fn first_lookup() -> (r: Lookup)
    ensures
        r == Lookup::LocalUser,
{
    Lookup::LocalUser
}

/// Decides what follows lookup `l` of the reference `target`, given what it
/// found: the next lookup, a redirect, no match, or a broken record.
pub fn interact(target: &String, l: Lookup, found: Found) -> (r: Step)
    ensures
        r == next_step(*target, l, found),
{
    let miss = match l {
        Lookup::LocalUser => Step::Look(Lookup::RemoteUser),
        Lookup::RemoteUser => Step::Look(Lookup::LocalPost),
        Lookup::LocalPost => Step::Look(Lookup::RemotePost),
        Lookup::RemotePost => Step::Look(Lookup::LocalComment),
        Lookup::LocalComment => Step::Look(Lookup::RemoteComment),
        Lookup::RemoteComment => Step::NoMatch,
    };
    match found {
        Found::Nothing => miss,
        Found::User => Step::Redirect(Target::Profile { name: target.clone() }),
        Found::Post { place } => match place {
            Some(p) => Step::Redirect(
                Target::PostDetails { blog: p.blog, slug: p.slug, responding_to: None },
            ),
            None => Step::Broken,
        },
        Found::Comment { id, visible, place } => {
            if !visible {
                miss
            } else {
                match place {
                    Some(p) => Step::Redirect(
                        Target::PostDetails { blog: p.blog, slug: p.slug, responding_to: Some(id) },
                    ),
                    None => Step::Broken,
                }
            }
        },
    }
}

/// A user found by the local lookup is redirected to at once, whatever the
/// later lookups would report: no fetch is ever asked for.
pub proof fn lemma_local_user_needs_no_fetch(target: String, rest: Seq<Found>)
    ensures
        run_from(target, Lookup::LocalUser, seq![Found::User] + rest) == Step::Redirect(
            Target::Profile { name: target },
        ),
{
    assert((seq![Found::User] + rest)[0] == Found::User);
}

/// A reference that no lookup matches, locally or remotely, ends in no
/// match, not in an error.
pub proof fn lemma_unmatched_is_no_match(target: String)
    ensures
        run_from(
            target,
            Lookup::LocalUser,
            seq![
                Found::Nothing,
                Found::Nothing,
                Found::Nothing,
                Found::Nothing,
                Found::Nothing,
                Found::Nothing,
            ],
        ) == Step::NoMatch,
{
    let s = seq![
        Found::Nothing,
        Found::Nothing,
        Found::Nothing,
        Found::Nothing,
        Found::Nothing,
        Found::Nothing,
    ];
    reveal_with_fuel(run_from, 7);
    assert(s.drop_first() =~= seq![Found::Nothing, Found::Nothing, Found::Nothing, Found::Nothing, Found::Nothing]);
    assert(s.drop_first().drop_first() =~= seq![Found::Nothing, Found::Nothing, Found::Nothing, Found::Nothing]);
    assert(s.drop_first().drop_first().drop_first() =~= seq![Found::Nothing, Found::Nothing, Found::Nothing]);
    assert(s.drop_first().drop_first().drop_first().drop_first() =~= seq![Found::Nothing, Found::Nothing]);
    assert(s.drop_first().drop_first().drop_first().drop_first().drop_first() =~= seq![Found::Nothing]);
}

/// A comment that the viewer may not see leads to the same step as no
/// comment at all, whatever else is known of it.
pub proof fn lemma_hidden_comment_is_a_miss(
    target: String,
    l: Lookup,
    id: i32,
    place: Option<PostPlace>,
)
    ensures
        next_step(target, l, Found::Comment { id, visible: false, place }) == next_step(
            target,
            l,
            Found::Nothing,
        ),
{
}

} // verus!
