use vstd::prelude::*;

use crate::text::{i32_of, parse_i32, str_eq};

verus! {

/// The role a user holds on this instance.
#[derive(Clone, Copy, Debug, PartialEq, Eq, Structural)]
pub enum Role {
    Admin,
    Moderator,
    Normal,
}

/// What a moderator can do to the users selected in the administration list.
#[derive(Clone, Copy, Debug, PartialEq, Eq, Structural)]
pub enum UserActions {
    Admin,
    RevokeAdmin,
    Moderator,
    RevokeModerator,
    Ban,
}

/// The action that a form value names, if any.
pub open spec fn user_action_of(s: Seq<char>) -> Option<UserActions> {
    if s == "admin"@ {
        Some(UserActions::Admin)
    } else if s == "un-admin"@ {
        Some(UserActions::RevokeAdmin)
    } else if s == "moderator"@ {
        Some(UserActions::Moderator)
    } else if s == "un-moderator"@ {
        Some(UserActions::RevokeModerator)
    } else if s == "ban"@ {
        Some(UserActions::Ban)
    } else {
        None
    }
}

impl UserActions {
    /// Reads an action from its form value.
    pub fn from_str(s: &str) -> (r: Result<UserActions, ()>)
        ensures
            r matches Ok(a) ==> user_action_of(s@) == Some(a),
            r is Err ==> user_action_of(s@) is None,
    {
        proof {
            reveal_strlit("admin");
            reveal_strlit("un-admin");
            reveal_strlit("moderator");
            reveal_strlit("un-moderator");
            reveal_strlit("ban");
        }
        if str_eq(s, "admin") {
            Ok(UserActions::Admin)
        } else if str_eq(s, "un-admin") {
            Ok(UserActions::RevokeAdmin)
        } else if str_eq(s, "moderator") {
            Ok(UserActions::Moderator)
        } else if str_eq(s, "un-moderator") {
            Ok(UserActions::RevokeModerator)
        } else if str_eq(s, "ban") {
            Ok(UserActions::Ban)
        } else {
            Err(())
        }
    }
}

/// A list of user ids together with the action to apply to each of them.
pub struct MultiAction {
    pub ids: Vec<i32>,
    pub action: UserActions,
}

/// The ids that a decoded form lists: every field whose name reads as an
/// `i32`, in order, but for the `action` field.
pub open spec fn form_ids(items: Seq<(String, String)>) -> Seq<i32>
    decreases items.len(),
{
    if items.len() == 0 {
        Seq::empty()
    } else {
        let prev = form_ids(items.drop_last());
        let name = items.last().0@;
        if name == "action"@ {
            prev
        } else {
            match i32_of(name) {
                Some(id) => prev.push(id),
                None => prev,
            }
        }
    }
}

/// What the last `action` field of a decoded form names; a later field
/// with an unknown value takes back an earlier valid one.
pub open spec fn form_action(items: Seq<(String, String)>) -> Option<UserActions>
    decreases items.len(),
{
    if items.len() == 0 {
        None
    } else if items.last().0@ == "action"@ {
        user_action_of(items.last().1@)
    } else {
        form_action(items.drop_last())
    }
}

impl MultiAction {
    /// Reads a list form from its decoded `(name, value)` fields.
    pub fn from_form(items: &Vec<(String, String)>) -> (r: Result<MultiAction, ()>)
        ensures
            r is Ok <==> form_action(items@) is Some,
            r matches Ok(m) ==> m.ids@ == form_ids(items@) && Some(m.action) == form_action(
                items@,
            ),
    {
        let mut ids: Vec<i32> = Vec::new();
        let mut act: Option<UserActions> = None;
        let mut i: usize = 0;
        proof {
            reveal_strlit("action");
        }
        while i < items.len()
            invariant
                i <= items@.len(),
                ids@ == form_ids(items@.subrange(0, i as int)),
                act == form_action(items@.subrange(0, i as int)),
            decreases items@.len() - i,
        {
            let ghost prev = items@.subrange(0, i as int);
            let ghost next = items@.subrange(0, i + 1);
            assert(next.drop_last() =~= prev);
            let name = &items[i].0;
            if str_eq(name.as_str(), "action") {
                act = match UserActions::from_str(items[i].1.as_str()) {
                    Ok(a) => Some(a),
                    Err(_) => None,
                };
            } else {
                match parse_i32(name.as_str()) {
                    Some(id) => ids.push(id),
                    None => {},
                }
            }
            i = i + 1;
        }
        assert(items@.subrange(0, i as int) =~= items@);
        match act {
            Some(a) => Ok(MultiAction { ids, action: a }),
            None => Err(()),
        }
    }
}

/// Why a change of roles was refused.
#[derive(Clone, Copy, Debug, PartialEq, Eq, Structural)]
pub enum EditRefusal {
    /// The moderator selected their own account.
    OwnRights,
    /// A moderator who is not an admin tried to grant or revoke admin rights.
    NotAllowed,
}

/// One change that an accepted list form makes to one user.
#[derive(Clone, Copy, Debug, PartialEq, Eq, Structural)]
pub enum UserEdit {
    SetRole(i32, Role),
    Ban(i32),
}

/// The change that `action` makes to the user `id`.
pub open spec fn edit_for(action: UserActions, id: i32) -> UserEdit {
    match action {
        UserActions::Admin => UserEdit::SetRole(id, Role::Admin),
        UserActions::Moderator => UserEdit::SetRole(id, Role::Moderator),
        UserActions::RevokeAdmin => UserEdit::SetRole(id, Role::Normal),
        UserActions::RevokeModerator => UserEdit::SetRole(id, Role::Normal),
        UserActions::Ban => UserEdit::Ban(id),
    }
}

pub open spec fn touches_admin_rights(action: UserActions) -> bool {
    action == UserActions::Admin || action == UserActions::RevokeAdmin
}

/// Decides what a list form sent by the moderator `moderator_id` does: the
/// changes to make, one per listed id and in the same order, or why nothing
/// is done.
pub fn edit_users(moderator_id: i32, moderator_is_admin: bool, form: &MultiAction) -> (r: Result<
    Vec<UserEdit>,
    EditRefusal,
>)
    ensures
        form.ids@.contains(moderator_id) ==> r == Err::<Vec<UserEdit>, EditRefusal>(
            EditRefusal::OwnRights,
        ),
        !form.ids@.contains(moderator_id) && !moderator_is_admin && touches_admin_rights(
            form.action,
        ) ==> r == Err::<Vec<UserEdit>, EditRefusal>(EditRefusal::NotAllowed),
        r is Ok <==> !form.ids@.contains(moderator_id) && (moderator_is_admin
            || !touches_admin_rights(form.action)),
        r matches Ok(edits) ==> edits@ == form.ids@.map_values(|id: i32| edit_for(form.action, id)),
{
    let mut i: usize = 0;
    while i < form.ids.len()
        invariant
            i <= form.ids@.len(),
            forall|j: int| 0 <= j < i ==> form.ids@[j] != moderator_id,
        decreases form.ids@.len() - i,
    {
        if form.ids[i] == moderator_id {
            assert(form.ids@[i as int] == moderator_id);
            return Err(EditRefusal::OwnRights);
        }
        i = i + 1;
    }
    if !moderator_is_admin {
        match form.action {
            UserActions::Admin | UserActions::RevokeAdmin => {
                return Err(EditRefusal::NotAllowed);
            },
            _ => {},
        }
    }
    let mut edits: Vec<UserEdit> = Vec::new();
    let mut k: usize = 0;
    while k < form.ids.len()
        invariant
            k <= form.ids@.len(),
            edits@ == form.ids@.subrange(0, k as int).map_values(
                |id: i32| edit_for(form.action, id),
            ),
        decreases form.ids@.len() - k,
    {
        let id = form.ids[k];
        let e = match form.action {
            UserActions::Admin => UserEdit::SetRole(id, Role::Admin),
            UserActions::Moderator => UserEdit::SetRole(id, Role::Moderator),
            UserActions::RevokeAdmin | UserActions::RevokeModerator => UserEdit::SetRole(
                id,
                Role::Normal,
            ),
            UserActions::Ban => UserEdit::Ban(id),
        };
        edits.push(e);
        k = k + 1;
        assert(edits@ =~= form.ids@.subrange(0, k as int).map_values(
            |id: i32| edit_for(form.action, id),
        ));
    }
    assert(form.ids@.subrange(0, k as int) =~= form.ids@);
    Ok(edits)
}

} // verus!
