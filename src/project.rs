use vstd::prelude::*;

verus! {

/// One entry of the list: a display name and the directory it refers to.
#[derive(Debug, PartialEq, Eq)]
pub struct Project {
    pub name: String,
    pub path: String,
}

/// The mathematical value of a `Project`: its two fields as character sequences.
pub struct ProjectView {
    pub name: Seq<char>,
    pub path: Seq<char>,
}

impl View for Project {
    type V = ProjectView;

    open spec fn view(&self) -> ProjectView {
        ProjectView { name: self.name@, path: self.path@ }
    }
}

/// The views of a sequence of projects, in the same order.
pub open spec fn views(ps: Seq<Project>) -> Seq<ProjectView> {
    ps.map_values(|p: Project| p@)
}

impl Project {
    /// Builds a project from its name and path.
    pub fn new(name: String, path: String) -> (r: Project)
        ensures
            r@ == (ProjectView { name: name@, path: path@ }),
    {
        Project { name, path }
    }
}

} // verus!
