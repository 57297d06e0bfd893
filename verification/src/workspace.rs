//! The workspace-creation entities: the untrusted wire request, the validated
//! parameter set, the fail-fast conversion between them, and the workspace
//! output entities.
//!
//! A [`CreateWorkspaceParams`] is produced only by
//! [`CreateWorkspaceRequest::try_into_params`], so a value of that type has
//! passed every field rule.

use vstd::prelude::*;

use crate::errors::{ErrorBuilder, ErrorCode, UserError};

verus! {

/// The characters this module treats as whitespace.
pub open spec fn is_whitespace_char(c: char) -> bool {
    c == ' ' || c == '\t' || c == '\n' || c == '\r'
}

/// A workspace name is valid when it holds at least one non-whitespace
/// character.
pub open spec fn valid_workspace_name(s: Seq<char>) -> bool {
    exists|i: int| 0 <= i < s.len() && !is_whitespace_char(s[i])
}

/// The longest accepted workspace description, in characters.
pub const MAX_WORKSPACE_DESC_LEN: usize = 1000;

/// A workspace description is valid when it is at most
/// [`MAX_WORKSPACE_DESC_LEN`] characters long; an empty description is
/// permitted.
pub open spec fn valid_workspace_desc(s: Seq<char>) -> bool {
    s.len() <= MAX_WORKSPACE_DESC_LEN
}

/// A workspace name that passed [`WorkspaceName::parse`].
#[derive(Debug)]
pub struct WorkspaceName(pub String);

impl View for WorkspaceName {
    type V = Seq<char>;

    open spec fn view(&self) -> Seq<char> {
        self.0@
    }
}

impl WorkspaceName {
    /// Accepts exactly the valid names and returns them unchanged; a name of
    /// nothing but whitespace is rejected with an explanation.
    pub fn parse(s: String) -> (r: Result<WorkspaceName, String>)
        ensures
            valid_workspace_name(s@) ==> (r matches Ok(n) && n@ == s@),
            !valid_workspace_name(s@) ==> (r matches Err(e) && e@
                == "Workspace name can not be empty or whitespace"@),
    {
        let len = s.as_str().unicode_len();
        let mut i: usize = 0;
        let mut found = false;
        while !found && i < len
            invariant
                i <= len,
                len == s@.len(),
                found ==> (exists|j: int| 0 <= j < i && !is_whitespace_char(s@[j])),
                !found ==> (forall|j: int| 0 <= j < i ==> is_whitespace_char(s@[j])),
            decreases len - i,
        {
            let c = s.as_str().get_char(i);
            if !(c == ' ' || c == '\t' || c == '\n' || c == '\r') {
                found = true;
            }
            i += 1;
        }
        if found {
            Ok(WorkspaceName(s))
        } else {
            Err("Workspace name can not be empty or whitespace".to_owned())
        }
    }
}

/// A workspace description that passed [`WorkspaceDesc::parse`].
#[derive(Debug)]
pub struct WorkspaceDesc(pub String);

impl View for WorkspaceDesc {
    type V = Seq<char>;

    open spec fn view(&self) -> Seq<char> {
        self.0@
    }
}

impl WorkspaceDesc {
    /// Accepts exactly the valid descriptions and returns them unchanged; an
    /// over-long description is rejected with an explanation.
    pub fn parse(s: String) -> (r: Result<WorkspaceDesc, String>)
        ensures
            valid_workspace_desc(s@) ==> (r matches Ok(d) && d@ == s@),
            !valid_workspace_desc(s@) ==> (r matches Err(e) && e@
                == "Workspace description too long"@),
    {
        if s.as_str().unicode_len() <= MAX_WORKSPACE_DESC_LEN {
            Ok(WorkspaceDesc(s))
        } else {
            Err("Workspace description too long".to_owned())
        }
    }
}

/// The mathematical content of a workspace-creation request or parameter
/// set: the characters of its three fields.
pub ghost struct WorkspaceFieldsView {
    pub name: Seq<char>,
    pub desc: Seq<char>,
    pub user_id: Seq<char>,
}

/// The untrusted wire request to create a workspace. All fields default to
/// the empty string.
#[derive(Debug)]
pub struct CreateWorkspaceRequest {
    pub name: String,
    pub desc: String,
    pub user_id: String,
}

impl View for CreateWorkspaceRequest {
    type V = WorkspaceFieldsView;

    open spec fn view(&self) -> WorkspaceFieldsView {
        WorkspaceFieldsView { name: self.name@, desc: self.desc@, user_id: self.user_id@ }
    }
}

impl Default for CreateWorkspaceRequest {
    /// An empty request.
    fn default() -> (r: Self)
        ensures
            r@.name == Seq::<char>::empty(),
            r@.desc == Seq::<char>::empty(),
            r@.user_id == Seq::<char>::empty(),
    {
        Self { name: String::new(), desc: String::new(), user_id: String::new() }
    }
}

/// The validated parameter set: same field shape as the request, but every
/// field satisfies its rule.
#[derive(Debug)]
pub struct CreateWorkspaceParams {
    pub name: String,
    pub desc: String,
    pub user_id: String,
}

impl View for CreateWorkspaceParams {
    type V = WorkspaceFieldsView;

    open spec fn view(&self) -> WorkspaceFieldsView {
        WorkspaceFieldsView { name: self.name@, desc: self.desc@, user_id: self.user_id@ }
    }
}

impl Default for CreateWorkspaceParams {
    /// An empty parameter set, for programmatic construction.
    fn default() -> (r: Self)
        ensures
            r@.name == Seq::<char>::empty(),
            r@.desc == Seq::<char>::empty(),
            r@.user_id == Seq::<char>::empty(),
    {
        Self { name: String::new(), desc: String::new(), user_id: String::new() }
    }
}

impl CreateWorkspaceRequest {
    /// Validates the request field by field, in order: name, then
    /// description, then user id. The first violated rule aborts the
    /// conversion with its own error code, so a later field is never
    /// consulted once an earlier one has failed. On success the parameters
    /// carry the parsed name and description and the untouched user id.
    pub fn try_into_params(self) -> (r: Result<CreateWorkspaceParams, UserError>)
        ensures
            !valid_workspace_name(self@.name) ==> (r matches Err(e) && e@.code
                == ErrorCode::WorkspaceNameInvalid && e@.msg
                == "Workspace name can not be empty or whitespace"@),
            valid_workspace_name(self@.name) && !valid_workspace_desc(self@.desc) ==> (r matches Err(e)
                && e@.code == ErrorCode::WorkspaceDescInvalid && e@.msg
                == "Workspace description too long"@),
            valid_workspace_name(self@.name) && valid_workspace_desc(self@.desc) && self@.user_id.len()
                == 0 ==> (r matches Err(e) && e@.code == ErrorCode::UserIdIsEmpty && e@.msg
                == "Create workspace failed. UserId is empty"@),
            valid_workspace_name(self@.name) && valid_workspace_desc(self@.desc) && self@.user_id.len()
                > 0 ==> (r matches Ok(p) && p@.name == self@.name && p@.desc == self@.desc
                && p@.user_id == self@.user_id),
    {
        proof {
            reveal_strlit("Workspace name can not be empty or whitespace");
            reveal_strlit("Workspace description too long");
            reveal_strlit("Create workspace failed. UserId is empty");
        }
        let name = match WorkspaceName::parse(self.name) {
            Ok(n) => n,
            Err(e) => {
                return Err(
                    ErrorBuilder::new(ErrorCode::WorkspaceNameInvalid).msg(e.as_str()).build(),
                );
            },
        };
        let desc = match WorkspaceDesc::parse(self.desc) {
            Ok(d) => d,
            Err(e) => {
                return Err(
                    ErrorBuilder::new(ErrorCode::WorkspaceDescInvalid).msg(e.as_str()).build(),
                );
            },
        };
        if self.user_id.as_str().is_empty() {
            return Err(
                ErrorBuilder::new(ErrorCode::UserIdIsEmpty).msg(
                    "Create workspace failed. UserId is empty",
                ).build(),
            );
        }
        Ok(CreateWorkspaceParams { name: name.0, desc: desc.0, user_id: self.user_id })
    }
}

/// The mathematical content of an [`App`].
pub ghost struct AppView {
    pub id: Seq<char>,
    pub name: Seq<char>,
    pub desc: Seq<char>,
}

/// An application belonging to a workspace, in the shape visible to this
/// module: an identifier, a name and a description.
#[derive(Debug)]
pub struct App {
    pub id: String,
    pub name: String,
    pub desc: String,
}

impl View for App {
    type V = AppView;

    open spec fn view(&self) -> AppView {
        AppView { id: self.id@, name: self.name@, desc: self.desc@ }
    }
}

/// An ordered list of [`App`] values.
#[derive(Debug)]
pub struct RepeatedApp {
    pub items: Vec<App>,
}

impl View for RepeatedApp {
    type V = Seq<AppView>;

    open spec fn view(&self) -> Seq<AppView> {
        self.items@.map_values(|a: App| a@)
    }
}

impl Default for RepeatedApp {
    /// An empty list.
    fn default() -> (r: Self)
        ensures
            r@ == Seq::<AppView>::empty(),
    {
        let r = Self { items: Vec::new() };
        proof {
            assert(r@ =~= Seq::<AppView>::empty());
        }
        r
    }
}

impl PartialEq for App {
    fn eq(&self, other: &App) -> (r: bool) {
        self.id == other.id && self.name == other.name && self.desc == other.desc
    }
}

impl vstd::std_specs::cmp::PartialEqSpecImpl for App {
    open spec fn obeys_eq_spec() -> bool {
        true
    }

    open spec fn eq_spec(&self, other: &App) -> bool {
        self@ == other@
    }
}

/// Whether two app lists hold equal apps in the same order.
fn vec_apps_equal(a: &Vec<App>, b: &Vec<App>) -> (r: bool)
    ensures
        r == (a@.map_values(|x: App| x@) == b@.map_values(|x: App| x@)),
{
    let ghost va = a@.map_values(|x: App| x@);
    let ghost vb = b@.map_values(|x: App| x@);
    if a.len() != b.len() {
        proof {
            assert(va.len() != vb.len());
        }
        return false;
    }
    let mut i: usize = 0;
    while i < a.len()
        invariant
            i <= a.len(),
            a@.len() == b@.len(),
            va == a@.map_values(|x: App| x@),
            vb == b@.map_values(|x: App| x@),
            forall|j: int| 0 <= j < i ==> va[j] == vb[j],
        decreases a@.len() - i,
    {
        if !(a[i] == b[i]) {
            proof {
                assert(va[i as int] != vb[i as int]);
            }
            return false;
        }
        i += 1;
    }
    proof {
        assert(va =~= vb);
    }
    true
}

impl PartialEq for RepeatedApp {
    fn eq(&self, other: &RepeatedApp) -> (r: bool) {
        vec_apps_equal(&self.items, &other.items)
    }
}

impl vstd::std_specs::cmp::PartialEqSpecImpl for RepeatedApp {
    open spec fn obeys_eq_spec() -> bool {
        true
    }

    open spec fn eq_spec(&self, other: &RepeatedApp) -> bool {
        self@ == other@
    }
}

/// The mathematical content of a [`Workspace`].
pub ghost struct WorkspaceView {
    pub id: Seq<char>,
    pub name: Seq<char>,
    pub desc: Seq<char>,
    pub apps: Seq<AppView>,
}

/// A workspace as handed back to callers: an identifier, a name, a
/// description and its applications.
#[derive(Debug)]
pub struct Workspace {
    pub id: String,
    pub name: String,
    pub desc: String,
    pub apps: RepeatedApp,
}

impl View for Workspace {
    type V = WorkspaceView;

    open spec fn view(&self) -> WorkspaceView {
        WorkspaceView { id: self.id@, name: self.name@, desc: self.desc@, apps: self.apps@ }
    }
}

impl Workspace {
    /// A workspace with the given fields and no applications yet.
    pub fn new(id: String, name: String, desc: String) -> (r: Self)
        ensures
            r@.id == id@,
            r@.name == name@,
            r@.desc == desc@,
            r@.apps == Seq::<AppView>::empty(),
    {
        Self { id, name, desc, apps: RepeatedApp::default() }
    }
}

impl Default for Workspace {
    /// A workspace with empty fields and no applications.
    fn default() -> (r: Self)
        ensures
            r@.id == Seq::<char>::empty(),
            r@.name == Seq::<char>::empty(),
            r@.desc == Seq::<char>::empty(),
            r@.apps == Seq::<AppView>::empty(),
    {
        Workspace::new(String::new(), String::new(), String::new())
    }
}

impl PartialEq for Workspace {
    fn eq(&self, other: &Workspace) -> (r: bool) {
        self.id == other.id && self.name == other.name && self.desc == other.desc && self.apps
            == other.apps
    }
}

impl vstd::std_specs::cmp::PartialEqSpecImpl for Workspace {
    open spec fn obeys_eq_spec() -> bool {
        true
    }

    open spec fn eq_spec(&self, other: &Workspace) -> bool {
        self@ == other@
    }
}

/// Whether two workspace lists hold equal workspaces in the same order.
fn vec_workspaces_equal(a: &Vec<Workspace>, b: &Vec<Workspace>) -> (r: bool)
    ensures
        r == (a@.map_values(|x: Workspace| x@) == b@.map_values(|x: Workspace| x@)),
{
    let ghost va = a@.map_values(|x: Workspace| x@);
    let ghost vb = b@.map_values(|x: Workspace| x@);
    if a.len() != b.len() {
        proof {
            assert(va.len() != vb.len());
        }
        return false;
    }
    let mut i: usize = 0;
    while i < a.len()
        invariant
            i <= a.len(),
            a@.len() == b@.len(),
            va == a@.map_values(|x: Workspace| x@),
            vb == b@.map_values(|x: Workspace| x@),
            forall|j: int| 0 <= j < i ==> va[j] == vb[j],
        decreases a@.len() - i,
    {
        if !(a[i] == b[i]) {
            proof {
                assert(va[i as int] != vb[i as int]);
            }
            return false;
        }
        i += 1;
    }
    proof {
        assert(va =~= vb);
    }
    true
}

/// An ordered list of workspaces; insertion order is display order and is
/// kept as the contracts of [`RepeatedWorkspace::push`] and
/// [`RepeatedWorkspace::get`] state.
#[derive(Debug)]
pub struct RepeatedWorkspace {
    pub items: Vec<Workspace>,
}

impl View for RepeatedWorkspace {
    type V = Seq<WorkspaceView>;

    open spec fn view(&self) -> Seq<WorkspaceView> {
        self.items@.map_values(|w: Workspace| w@)
    }
}

impl Default for RepeatedWorkspace {
    /// An empty list.
    fn default() -> (r: Self)
        ensures
            r@ == Seq::<WorkspaceView>::empty(),
    {
        let r = Self { items: Vec::new() };
        proof {
            assert(r@ =~= Seq::<WorkspaceView>::empty());
        }
        r
    }
}

impl PartialEq for RepeatedWorkspace {
    fn eq(&self, other: &RepeatedWorkspace) -> (r: bool) {
        vec_workspaces_equal(&self.items, &other.items)
    }
}

impl vstd::std_specs::cmp::PartialEqSpecImpl for RepeatedWorkspace {
    open spec fn obeys_eq_spec() -> bool {
        true
    }

    open spec fn eq_spec(&self, other: &RepeatedWorkspace) -> bool {
        self@ == other@
    }
}

impl RepeatedWorkspace {
    /// Appends a workspace at the end: every earlier item keeps its place.
    pub fn push(&mut self, w: Workspace)
        ensures
            final(self)@ == old(self)@.push(w@),
    {
        self.items.push(w);
        proof {
            assert(self@ =~= old(self)@.push(w@));
        }
    }

    /// The workspace at position `i`, exactly as it stands in the list.
    pub fn get(&self, i: usize) -> (r: &Workspace)
        requires
            i < self@.len(),
        ensures
            r@ == self@[i as int],
    {
        &self.items[i]
    }

    /// How many workspaces the list holds.
    pub fn len(&self) -> (n: usize)
        ensures
            n == self@.len(),
    {
        self.items.len()
    }
}

} // verus!
