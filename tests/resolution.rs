use plume_instance::federation::{EntityCache, EntityKind};
use plume_instance::resolver::{first_lookup, interact, Found, Lookup, PostPlace, Step, Target};

fn run(target: &str, found: Vec<Found>) -> (Step, Vec<Lookup>) {
    let target = target.to_string();
    let mut asked = vec![];
    let mut l = first_lookup();
    for f in found {
        asked.push(l);
        match interact(&target, l, f) {
            Step::Look(n) => l = n,
            s => return (s, asked),
        }
    }
    (Step::Look(l), asked)
}

#[test]
fn local_user_redirects_to_profile_without_fetch() {
    let (step, asked) = run("alice@example.org", vec![Found::User]);
    assert_eq!(
        step,
        Step::Redirect(Target::Profile { name: "alice@example.org".to_string() })
    );
    assert_eq!(asked, vec![Lookup::LocalUser]);
}

#[test]
fn remote_post_is_fetched_once_and_redirected() {
    let url = "https://remote.example/posts/42".to_string();
    let mut cache = EntityCache::new();
    let (step, asked) = run(
        &url,
        vec![
            Found::Nothing,
            Found::Nothing,
            Found::Nothing,
            Found::Post {
                place: Some(PostPlace { blog: "blog@remote.example".to_string(), slug: "42-slug".to_string() }),
            },
        ],
    );
    assert_eq!(asked, vec![Lookup::LocalUser, Lookup::RemoteUser, Lookup::LocalPost, Lookup::RemotePost]);
    assert_eq!(
        step,
        Step::Redirect(Target::PostDetails {
            blog: "blog@remote.example".to_string(),
            slug: "42-slug".to_string(),
            responding_to: None,
        })
    );
    assert!(cache.materialize(url.clone(), EntityKind::Post));
    assert_eq!(cache.rows.len(), 1);
    assert_eq!(cache.rows[0].url, url);
}

#[test]
fn nothing_found_is_no_match() {
    let (step, asked) = run("nobody@nowhere.example", vec![Found::Nothing; 6]);
    assert_eq!(step, Step::NoMatch);
    assert_eq!(asked.len(), 6);
    assert_eq!(asked[5], Lookup::RemoteComment);
}

#[test]
fn hidden_comment_looks_like_a_missing_one() {
    let t = "https://remote.example/comments/7".to_string();
    let place = Some(PostPlace { blog: "b".to_string(), slug: "s".to_string() });
    let hidden = interact(&t, Lookup::LocalComment, Found::Comment { id: 7, visible: false, place: place.clone() });
    let absent = interact(&t, Lookup::LocalComment, Found::Nothing);
    assert_eq!(hidden, absent);
    assert_eq!(hidden, Step::Look(Lookup::RemoteComment));
    let hidden_last = interact(&t, Lookup::RemoteComment, Found::Comment { id: 7, visible: false, place });
    assert_eq!(hidden_last, Step::NoMatch);
}

#[test]
fn visible_comment_redirects_to_its_post() {
    let t = "https://remote.example/comments/7".to_string();
    let place = Some(PostPlace { blog: "b@x.example".to_string(), slug: "hello".to_string() });
    let step = interact(&t, Lookup::RemoteComment, Found::Comment { id: 7, visible: true, place });
    assert_eq!(
        step,
        Step::Redirect(Target::PostDetails {
            blog: "b@x.example".to_string(),
            slug: "hello".to_string(),
            responding_to: Some(7),
        })
    );
}

#[test]
fn post_without_blog_is_broken() {
    let t = "https://remote.example/posts/1".to_string();
    assert_eq!(interact(&t, Lookup::LocalPost, Found::Post { place: None }), Step::Broken);
    assert_eq!(
        interact(&t, Lookup::LocalComment, Found::Comment { id: 1, visible: true, place: None }),
        Step::Broken
    );
}

#[test]
fn user_is_tried_before_post() {
    let t = "https://remote.example/x".to_string();
    assert_eq!(
        interact(&t, Lookup::RemoteUser, Found::User),
        Step::Redirect(Target::Profile { name: t.clone() })
    );
    assert_eq!(interact(&t, Lookup::RemoteUser, Found::Nothing), Step::Look(Lookup::LocalPost));
}
