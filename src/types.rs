//! Resource records exchanged with the platform, and the keys that identify
//! them across instances.

use vstd::prelude::*;

verus! {

/// A record identified across instances by a stable string key.
pub trait Keyed {
    /// The record's key, as a sequence of characters.
    spec fn key_view(&self) -> Seq<char>;

    /// The record's key.
    fn key_ref(&self) -> (r: &String)
        ensures
            r@ == self.key_view(),
    ;
}

/// A record that exists on the target, addressed there by its numeric id.
pub trait TargetRecord: Keyed {
    /// The record's id on the target.
    spec fn id_view(&self) -> u32;

    fn target_id(&self) -> (r: u32)
        ensures
            r == self.id_view(),
    ;
}

#[derive(Debug)]
pub struct SourceProject {
    pub id: u32,
    pub name: String,
    pub path: String,
    pub path_with_namespace: String,
    pub archived: bool,
}

impl Clone for SourceProject {
    fn clone(&self) -> (r: Self)
        ensures
            r == *self,
    {
        SourceProject {
            id: self.id,
            name: self.name.clone(),
            path: self.path.clone(),
            path_with_namespace: self.path_with_namespace.clone(),
            archived: self.archived,
        }
    }
}

impl SourceProject {
    /// The project's full path, which identifies it on both instances.
    pub fn key(&self) -> (r: String)
        ensures
            r@ == self.path_with_namespace@,
    {
        self.path_with_namespace.clone()
    }
}

impl Keyed for SourceProject {
    open spec fn key_view(&self) -> Seq<char> {
        self.path_with_namespace@
    }

    fn key_ref(&self) -> (r: &String) {
        &self.path_with_namespace
    }
}

#[derive(Debug)]
pub struct SourceGroup {
    pub id: u32,
    pub name: String,
    pub full_path: String,
}

impl Clone for SourceGroup {
    fn clone(&self) -> (r: Self)
        ensures
            r == *self,
    {
        SourceGroup { id: self.id, name: self.name.clone(), full_path: self.full_path.clone() }
    }
}

impl SourceGroup {
    /// The group's full path, which identifies it on both instances.
    pub fn key(&self) -> (r: String)
        ensures
            r@ == self.full_path@,
    {
        self.full_path.clone()
    }
}

impl Keyed for SourceGroup {
    open spec fn key_view(&self) -> Seq<char> {
        self.full_path@
    }

    fn key_ref(&self) -> (r: &String) {
        &self.full_path
    }
}

#[derive(Debug)]
pub struct SourceUser {
    pub id: u32,
    pub name: String,
    pub username: String,
    pub avatar_url: String,
}

impl Clone for SourceUser {
    fn clone(&self) -> (r: Self)
        ensures
            r == *self,
    {
        SourceUser {
            id: self.id,
            name: self.name.clone(),
            username: self.username.clone(),
            avatar_url: self.avatar_url.clone(),
        }
    }
}

impl Keyed for SourceUser {
    open spec fn key_view(&self) -> Seq<char> {
        self.username@
    }

    fn key_ref(&self) -> (r: &String) {
        &self.username
    }
}

#[derive(Debug)]
pub struct SourceMember {
    pub id: u32,
    pub name: String,
    pub username: String,
    pub avatar_url: String,
    pub access_level: u32,
}

impl Clone for SourceMember {
    fn clone(&self) -> (r: Self)
        ensures
            r == *self,
    {
        SourceMember {
            id: self.id,
            name: self.name.clone(),
            username: self.username.clone(),
            avatar_url: self.avatar_url.clone(),
            access_level: self.access_level,
        }
    }
}

impl Keyed for SourceMember {
    open spec fn key_view(&self) -> Seq<char> {
        self.username@
    }

    fn key_ref(&self) -> (r: &String) {
        &self.username
    }
}

/// The user behind a membership: the member's fields without its access level.
pub open spec fn user_of_member(m: SourceMember) -> SourceUser {
    SourceUser { id: m.id, name: m.name, username: m.username, avatar_url: m.avatar_url }
}

impl SourceMember {
    pub fn to_user(&self) -> (r: SourceUser)
        ensures
            r == user_of_member(*self),
    {
        SourceUser {
            id: self.id,
            name: self.name.clone(),
            username: self.username.clone(),
            avatar_url: self.avatar_url.clone(),
        }
    }
}

#[derive(Debug)]
pub struct SourceIssue {
    pub iid: u32,
    pub title: String,
    pub author: SourceUser,
    pub assignee: Option<SourceUser>,
    pub project_id: u32,
    pub labels: Vec<String>,
    pub created_at: String,
}

#[derive(Debug)]
pub struct SourceVariable {
    pub variable_type: String,
    pub key: String,
    pub value: String,
    pub protected: bool,
    pub masked: bool,
}

#[derive(Debug)]
pub struct SourcePipelineScheduleWithoutVariables {
    pub id: u32,
    pub description: String,
    pub ref_: String,
    pub cron: String,
    pub cron_timezone: String,
    pub active: bool,
}

#[derive(Debug)]
pub struct SourcePipelineSchedule {
    pub id: u32,
    pub description: String,
    pub ref_: String,
    pub cron: String,
    pub cron_timezone: String,
    pub active: bool,
    pub variables: Option<Vec<SourcePipelineVariable>>,
}

#[derive(Debug)]
pub struct SourcePipelineVariable {
    pub variable_type: String,
    pub key: String,
    pub value: String,
}

/// The owner of a list of members: a group or a project.
#[derive(Debug)]
pub enum Membership {
    Group(SourceGroup),
    Project(SourceProject),
}

impl Membership {
    /// The path segment under which the owner's members are addressed.
    pub open spec fn prefix_view(&self) -> Seq<char> {
        match self {
            Membership::Group(_) => "groups"@,
            Membership::Project(_) => "projects"@,
        }
    }

    /// The owner's numeric id.
    pub open spec fn id_view(&self) -> u32 {
        match self {
            Membership::Group(g) => g.id,
            Membership::Project(p) => p.id,
        }
    }

    pub fn url_prefix(&self) -> (r: &'static str)
        ensures
            r@ == self.prefix_view(),
    {
        match self {
            Membership::Group(_) => "groups",
            Membership::Project(_) => "projects",
        }
    }

    pub fn id(&self) -> (r: u32)
        ensures
            r == self.id_view(),
    {
        match self {
            Membership::Group(x) => x.id,
            Membership::Project(x) => x.id,
        }
    }

    /// The owner's key: a group's or a project's full path.
    pub fn key(&self) -> (r: String)
        ensures
            r@ == self.key_view(),
    {
        match self {
            Membership::Group(x) => x.key(),
            Membership::Project(x) => x.key(),
        }
    }
}

impl Keyed for Membership {
    open spec fn key_view(&self) -> Seq<char> {
        match self {
            Membership::Group(g) => g.key_view(),
            Membership::Project(p) => p.key_view(),
        }
    }

    fn key_ref(&self) -> (r: &String) {
        match self {
            Membership::Group(x) => x.key_ref(),
            Membership::Project(x) => x.key_ref(),
        }
    }
}

#[derive(Debug)]
pub struct ExportStatus {
    pub id: u32,
    pub path_with_namespace: String,
    pub export_status: String,
}

#[derive(Debug)]
pub struct TargetUser {
    pub id: u32,
    pub name: String,
    pub username: String,
    pub email: String,
}

impl TargetUser {
    /// The username, which identifies a user on both instances.
    pub fn key(&self) -> (r: String)
        ensures
            r@ == self.username@,
    {
        self.username.clone()
    }
}

impl TargetRecord for TargetUser {
    open spec fn id_view(&self) -> u32 {
        self.id
    }

    fn target_id(&self) -> (r: u32) {
        self.id
    }
}

impl Keyed for TargetUser {
    open spec fn key_view(&self) -> Seq<char> {
        self.username@
    }

    fn key_ref(&self) -> (r: &String) {
        &self.username
    }
}

#[derive(Debug)]
pub struct TargetProject {
    pub id: u32,
    pub name: String,
    pub path: String,
    pub path_with_namespace: String,
    pub archived: bool,
}

impl TargetProject {
    /// The project's full path, which identifies it on both instances.
    pub fn key(&self) -> (r: String)
        ensures
            r@ == self.path_with_namespace@,
    {
        self.path_with_namespace.clone()
    }
}

impl TargetRecord for TargetProject {
    open spec fn id_view(&self) -> u32 {
        self.id
    }

    fn target_id(&self) -> (r: u32) {
        self.id
    }
}

impl Keyed for TargetProject {
    open spec fn key_view(&self) -> Seq<char> {
        self.path_with_namespace@
    }

    fn key_ref(&self) -> (r: &String) {
        &self.path_with_namespace
    }
}

#[derive(Debug)]
pub struct TargetGroup {
    pub id: u32,
    pub name: String,
    pub full_path: String,
}

impl TargetGroup {
    /// The group's full path, which identifies it on both instances.
    pub fn key(&self) -> (r: String)
        ensures
            r@ == self.full_path@,
    {
        self.full_path.clone()
    }
}

impl TargetRecord for TargetGroup {
    open spec fn id_view(&self) -> u32 {
        self.id
    }

    fn target_id(&self) -> (r: u32) {
        self.id
    }
}

impl Keyed for TargetGroup {
    open spec fn key_view(&self) -> Seq<char> {
        self.full_path@
    }

    fn key_ref(&self) -> (r: &String) {
        &self.full_path
    }
}

/// One entry of a cache document: the records stored under a key.
#[derive(Debug)]
pub struct CacheEntry<T> {
    pub key: String,
    pub records: Vec<T>,
}

impl<T> Keyed for CacheEntry<T> {
    open spec fn key_view(&self) -> Seq<char> {
        self.key@
    }

    fn key_ref(&self) -> (r: &String) {
        &self.key
    }
}

} // verus!
