use vstd::prelude::*;

use crate::text::str_eq;

verus! {

/// The settings of the local instance, as the administration form sends them.
pub struct InstanceSettingsForm {
    pub name: String,
    pub open_registrations: bool,
    pub short_description: String,
    pub long_description: String,
    pub default_license: String,
}

/// A settings field that must not be left empty.
#[derive(Clone, Copy, Debug, PartialEq, Eq, Structural)]
pub enum SettingsField {
    Name,
    DefaultLicense,
}

/// The fields of a settings form that are empty, in form order.
pub open spec fn empty_fields(name: Seq<char>, default_license: Seq<char>) -> Seq<SettingsField> {
    let a: Seq<SettingsField> = if name.len() == 0 {
        seq![SettingsField::Name]
    } else {
        Seq::empty()
    };
    if default_license.len() == 0 {
        a.push(SettingsField::DefaultLicense)
    } else {
        a
    }
}

impl InstanceSettingsForm {
    /// Checks that the name and the default license are at least one
    /// character long; on failure, lists the fields that are not.
    pub fn validate(&self) -> (r: Result<(), Vec<SettingsField>>)
        ensures
            r is Ok <==> self.name@.len() > 0 && self.default_license@.len() > 0,
            r matches Err(fields) ==> fields@ == empty_fields(self.name@, self.default_license@),
    {
        let mut fields: Vec<SettingsField> = Vec::new();
        if self.name.as_str().is_empty() {
            fields.push(SettingsField::Name);
        }
        if self.default_license.as_str().is_empty() {
            fields.push(SettingsField::DefaultLicense);
        }
        if fields.len() == 0 {
            Ok(())
        } else {
            assert(fields@ =~= empty_fields(self.name@, self.default_license@));
            Err(fields)
        }
    }
}

/// The authors whose posts make up a user's feed: the users they follow,
/// then themselves.
pub fn feed_authors(followed: &Vec<i32>, me: i32) -> (r: Vec<i32>)
    ensures
        r@ == followed@.push(me),
{
    let mut r: Vec<i32> = Vec::new();
    let mut i: usize = 0;
    while i < followed.len()
        invariant
            i <= followed@.len(),
            r@ == followed@.subrange(0, i as int),
        decreases followed@.len() - i,
    {
        r.push(followed[i]);
        i = i + 1;
        assert(r@ =~= followed@.subrange(0, i as int));
    }
    assert(followed@.subrange(0, i as int) =~= followed@);
    r.push(me);
    r
}

/// What a nodeinfo document of the local instance states.
#[derive(Clone, Debug, PartialEq, Eq)]
pub struct NodeInfo {
    /// The schema version, `2.0` or `2.1`.
    pub version: String,
    /// Whether the software's repository is named (schema `2.1` only).
    pub names_repository: bool,
    pub open_registrations: bool,
    pub total_users: i64,
    pub local_posts: i64,
    pub local_comments: i64,
    pub node_name: String,
    pub node_description: String,
}

pub open spec fn is_nodeinfo_version(v: Seq<char>) -> bool {
    v == "2.0"@ || v == "2.1"@
}

/// Builds the nodeinfo document for schema `version`, or `None` (a
/// not-found page) for a schema other than `2.0` and `2.1`.
pub fn nodeinfo(
    version: String,
    open_registrations: bool,
    total_users: i64,
    local_posts: i64,
    local_comments: i64,
    node_name: String,
    node_description: String,
) -> (r: Option<NodeInfo>)
    ensures
        r is Some <==> is_nodeinfo_version(version@),
        r matches Some(d) ==> d == (NodeInfo {
            version,
            names_repository: version@ == "2.1"@,
            open_registrations,
            total_users,
            local_posts,
            local_comments,
            node_name,
            node_description,
        }),
{
    proof {
        reveal_strlit("2.0");
        reveal_strlit("2.1");
    }
    let v20 = str_eq(version.as_str(), "2.0");
    let v21 = str_eq(version.as_str(), "2.1");
    if !v20 && !v21 {
        return None;
    }
    Some(
        NodeInfo {
            version,
            names_repository: v21,
            open_registrations,
            total_users,
            local_posts,
            local_comments,
            node_name,
            node_description,
        },
    )
}

} // verus!
