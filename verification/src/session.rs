use vstd::prelude::*;

use crate::engine::{context_values, no_values};
use crate::project::Project;
use crate::registry::TemplateEntryList;
use crate::template::{default_text, option_prefill, resolve_option_value, resolved_value};
use vstd::pervasive::unreached;

verus! {

/// The whole engine's state for one operator session: the catalog built at
/// startup, the projects rendered so far (keyed by name), and the roots that
/// discovery scans.
pub struct ProjectWand {
    pub template_list: TemplateEntryList,
    pub projects: Vec<Project>,
    pub internal_path: String,
    pub external_paths: Vec<String>,
}

/// No two stored projects share a name.
pub open spec fn project_names_unique(ps: Seq<Project>) -> bool {
    forall|i: int, j: int| 0 <= i < j < ps.len() ==> ps[i].name@ != ps[j].name@
}

/// Some stored project carries this name.
pub open spec fn has_project(ps: Seq<Project>, name: Seq<char>) -> bool {
    exists|i: int| 0 <= i < ps.len() && ps[i].name@ == name
}

/// Where the interactive session stands.
pub enum SessionState {
    /// Showing the catalog; waiting for a project name and a template choice.
    Listing,
    /// Walking the chosen template's parameters, one prompt per entry.
    Collecting { project: Project, template_index: usize, next_option: usize },
    /// The operator chose the sentinel entry; the session is over.
    Finished,
}

/// What the operator answered.
pub enum SessionEvent {
    /// A name for a new project and a catalog index (0 is the exit sentinel).
    ProjectRequest { name: String, choice: usize },
    /// The line entered for the parameter last asked for (may be empty).
    OptionResponse { value: String },
}

/// What the surrounding loop must do next.
pub enum SessionAction {
    /// Ask for the named parameter, pre-filling the given text.
    PromptOption { label: String, prefill: String },
    /// Render this project, store it, and show the listing again.
    Render { project: Project },
    /// End the session.
    Exit,
}

/// A project as the session creates it on a template choice: named by the
/// operator, bound to the chosen template, an empty context, the default
/// output root.
pub open spec fn fresh_project(p: Project, name: Seq<char>, template_id: Seq<char>) -> bool {
    &&& p.name@ == name
    &&& p.template_id matches Some(id) && id@ == template_id
    &&& p.context matches Some(c) && context_values(c) == no_values()
    &&& p.output_path matches Some(o) && o@ == "./output"@
}

/// A project as one collection step leaves it: identical but for one more
/// collected value in its context.
pub open spec fn collected_project(p2: Project, p: Project, key: Seq<char>, val: Seq<char>) -> bool {
    &&& p2.name == p.name
    &&& p2.template_id == p.template_id
    &&& p2.output_path == p.output_path
    &&& p.context matches Some(c0) ==> p2.context matches Some(c) && context_values(c)
        == context_values(c0).insert(key, val)
}

impl ProjectWand {
    /// Session invariant: a sound catalog and uniquely named projects.
    pub open spec fn wf(&self) -> bool {
        &&& self.template_list.wf()
        &&& project_names_unique(self.projects@)
    }

    /// A session state that fits this wand: a collecting state points into
    /// the catalog, at a parameter still to ask for, with a live context.
    pub open spec fn state_wf(&self, state: SessionState) -> bool {
        match state {
            SessionState::Collecting { project, template_index, next_option } => {
                &&& 1 <= template_index
                &&& template_index - 1 < self.template_list@.templates.len()
                &&& (next_option as int) < self.template_list@.templates[template_index
                    - 1].config.options.len()
                &&& project.context is Some
                &&& project.output_path is Some
            },
            _ => true,
        }
    }

    /// The event a state is waiting for: a name and a catalog choice while
    /// listing, a parameter value while collecting, nothing when finished.
    pub open spec fn step_enabled(&self, state: SessionState, event: SessionEvent) -> bool {
        match state {
            SessionState::Listing => match event {
                SessionEvent::ProjectRequest { name, choice } => (choice as int)
                    < self.template_list@.keys.len(),
                _ => false,
            },
            SessionState::Collecting { project, template_index, next_option } => match event {
                SessionEvent::OptionResponse { value } => true,
                _ => false,
            },
            SessionState::Finished => false,
        }
    }

    /// A fresh wand: the fixed internal template root, no external roots, an
    /// empty catalog and no projects.
    pub fn new() -> (w: ProjectWand)
        ensures
            w.wf(),
            w.internal_path@ == "templates/"@,
            w.external_paths@.len() == 0,
            w.projects@.len() == 0,
            w.template_list@.templates.len() == 0,
            w.template_list@.keys.len() == 1,
            w.template_list@.keys[0] == "Exit"@,
    {
        ProjectWand {
            internal_path: "templates/".to_owned(),
            external_paths: Vec::new(),
            template_list: TemplateEntryList::new(),
            projects: Vec::new(),
        }
    }

    /// Stores a rendered project in the running project table, keyed by its
    /// name: re-using a name silently overwrites the earlier entry, a new
    /// name is appended.
    pub fn store_project(&mut self, p: Project)
        requires
            old(self).wf(),
        ensures
            final(self).wf(),
            final(self).template_list == old(self).template_list,
            final(self).internal_path == old(self).internal_path,
            final(self).external_paths == old(self).external_paths,
            has_project(old(self).projects@, p.name@) ==> exists|i: int|
                0 <= i < old(self).projects@.len() && old(self).projects@[i].name@ == p.name@
                    && final(self).projects@ == old(self).projects@.update(i, p),
            !has_project(old(self).projects@, p.name@) ==> final(self).projects@ == old(
                self,
            ).projects@.push(p),
    {
        let n = self.projects.len();
        let mut i: usize = 0;
        while i < n
            invariant
                old(self).wf(),
                *self == *old(self),
                n == self.projects@.len(),
                i <= n,
                forall|j: int| 0 <= j < i ==> (#[trigger] self.projects@[j]).name@ != p.name@,
            decreases n - i,
        {
            if self.projects[i].name == p.name {
                let ghost pre = self.projects@;
                self.projects.set(i, p);
                proof {
                    assert forall|a: int, b: int|
                        0 <= a < b < self.projects@.len() implies self.projects@[a].name@
                        != self.projects@[b].name@ by {
                        assert(pre[a].name@ != pre[b].name@);
                        if a == i {
                            assert(self.projects@[a].name@ == pre[a].name@);
                        }
                        if b == i {
                            assert(self.projects@[b].name@ == pre[b].name@);
                        }
                    }
                }
                return ;
            }
            i = i + 1;
        }
        let ghost pre = self.projects@;
        self.projects.push(p);
        proof {
            assert forall|a: int, b: int|
                0 <= a < b < self.projects@.len() implies self.projects@[a].name@
                != self.projects@[b].name@ by {
                if b < pre.len() {
                    assert(pre[a].name@ != pre[b].name@);
                }
            }
        }
    }

    /// One turn of the interactive loop.
    ///
    /// Listing + a request naming the sentinel ends the session. Listing + a
    /// request naming a template starts a fresh project for it and either
    /// asks for the template's first parameter or, when it declares none,
    /// hands the project over to be rendered. Collecting + a response
    /// resolves the response against the parameter's default, records it in
    /// the project's context, and moves to the next parameter or, after the
    /// last, hands the project over to be rendered.
    pub fn session_step(&self, state: SessionState, event: SessionEvent) -> (r: (
        SessionState,
        SessionAction,
    ))
        requires
            self.wf(),
            self.state_wf(state),
            self.step_enabled(state, event),
        ensures
            self.state_wf(r.0),
            state is Listing ==> (event matches SessionEvent::ProjectRequest {
                name,
                choice,
            } ==> (if choice == 0 {
                r.0 is Finished && r.1 is Exit
            } else {
                let entry = self.template_list@.templates[choice - 1];
                let opts = entry.config.options;
                if opts.len() == 0 {
                    &&& r.0 is Listing
                    &&& r.1 matches SessionAction::Render { project } && fresh_project(
                        project,
                        name@,
                        entry.id,
                    )
                } else {
                    &&& r.0 matches SessionState::Collecting {
                        project,
                        template_index,
                        next_option,
                    } && fresh_project(project, name@, entry.id) && template_index == choice
                        && next_option == 0
                    &&& r.1 matches SessionAction::PromptOption { label, prefill } && label@
                        == opts[0].name && prefill@ == default_text(opts[0])
                }
            })),
            state matches SessionState::Collecting { project, template_index, next_option } ==> (
            event matches SessionEvent::OptionResponse { value } ==> {
                let entry = self.template_list@.templates[template_index - 1];
                let opts = entry.config.options;
                let opt = opts[next_option as int];
                let val = resolved_value(opt, value@);
                if next_option + 1 < opts.len() {
                    &&& r.0 matches SessionState::Collecting {
                        project: p2,
                        template_index: t2,
                        next_option: n2,
                    } && collected_project(p2, project, opt.id, val) && t2 == template_index
                        && n2 == next_option + 1
                    &&& r.1 matches SessionAction::PromptOption { label, prefill } && label@
                        == opts[next_option + 1].name && prefill@ == default_text(
                        opts[next_option + 1],
                    )
                } else {
                    &&& r.0 is Listing
                    &&& r.1 matches SessionAction::Render { project: p2 } && collected_project(
                        p2,
                        project,
                        opt.id,
                        val,
                    )
                }
            }),
    {
        match (state, event) {
            (SessionState::Listing, SessionEvent::ProjectRequest { name, choice }) => {
                if choice == 0 {
                    (SessionState::Finished, SessionAction::Exit)
                } else {
                    let entry = &self.template_list.templates[choice - 1];
                    let mut project = Project::new(name);
                    project.template_id = Some(entry.id.clone());
                    project.init_context();
                    if entry.config.options.len() == 0 {
                        (SessionState::Listing, SessionAction::Render { project })
                    } else {
                        let opt = &entry.config.options[0];
                        let label = opt.name.clone();
                        let prefill = option_prefill(opt);
                        (
                            SessionState::Collecting {
                                project,
                                template_index: choice,
                                next_option: 0,
                            },
                            SessionAction::PromptOption { label, prefill },
                        )
                    }
                }
            },
            (
                SessionState::Collecting { project, template_index, next_option },
                SessionEvent::OptionResponse { value },
            ) => {
                let mut project = project;
                let entry = &self.template_list.templates[template_index - 1];
                let m = entry.config.options.len();
                proof {
                    assert(entry@ == self.template_list@.templates[template_index - 1]);
                    assert(entry.config.options@.len() == entry@.config.options.len());
                    assert(next_option < m);
                }
                let opt = &entry.config.options[next_option];
                let resolved = resolve_option_value(opt, &value);
                let key = opt.id.clone();
                project.context_insert(&key, &resolved);
                let next = next_option + 1;
                if next < entry.config.options.len() {
                    let ahead = &entry.config.options[next];
                    let label = ahead.name.clone();
                    let prefill = option_prefill(ahead);
                    (
                        SessionState::Collecting { project, template_index, next_option: next },
                        SessionAction::PromptOption { label, prefill },
                    )
                } else {
                    (SessionState::Listing, SessionAction::Render { project })
                }
            },
            _ => unreached(),
        }
    }
}

} // verus!
