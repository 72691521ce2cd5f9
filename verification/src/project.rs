use vstd::prelude::*;

use crate::engine::{context_insert_str, context_new, context_values, no_values};
use vstd::string::{StrSliceExecFns, StringExecFns};

verus! {

/// A path with every trailing separator removed.
pub open spec fn trimmed_slashes(s: Seq<char>) -> Seq<char>
    decreases s.len(),
{
    if s.len() > 0 && s[s.len() - 1] == '/' {
        trimmed_slashes(s.drop_last())
    } else {
        s
    }
}

/// The position of the last separator in a path, or -1 when it has none.
pub open spec fn last_slash(s: Seq<char>) -> int
    decreases s.len(),
{
    if s.len() == 0 {
        -1
    } else if s[s.len() - 1] == '/' {
        s.len() - 1
    } else {
        last_slash(s.drop_last())
    }
}

/// The directory that holds a path: everything before its last separator.
pub open spec fn parent_path(s: Seq<char>) -> Seq<char> {
    s.subrange(0, last_slash(s))
}

/// A root joined to a name: the trimmed root, one separator, the name.
pub open spec fn joined_path(dir: Seq<char>, name: Seq<char>) -> Seq<char> {
    trimmed_slashes(dir) + seq!['/'] + name
}

/// Where a template file lands: the output directory, one separator, the
/// file's template-relative name.
pub open spec fn dest_path(out_dir: Seq<char>, name: Seq<char>) -> Seq<char> {
    out_dir + seq!['/'] + name
}

/// The recursive glob handed to the templating engine for a template root.
pub open spec fn glob_pattern(root: Seq<char>) -> Seq<char> {
    trimmed_slashes(root) + seq!['*', '*', '/', '*']
}

/// `last_slash` stays inside the path.
pub proof fn lemma_last_slash_bounds(s: Seq<char>)
    ensures
        -1 <= last_slash(s) < s.len(),
    decreases s.len(),
{
    if s.len() > 0 && s[s.len() - 1] != '/' {
        lemma_last_slash_bounds(s.drop_last());
    }
}

/// Wherever `last_slash` points, a separator stands.
pub proof fn lemma_last_slash_is_separator(s: Seq<char>)
    requires
        last_slash(s) >= 0,
    ensures
        last_slash(s) < s.len(),
        s[last_slash(s)] == '/',
    decreases s.len(),
{
    lemma_last_slash_bounds(s);
    if s.len() > 0 && s[s.len() - 1] != '/' {
        lemma_last_slash_is_separator(s.drop_last());
        lemma_last_slash_bounds(s.drop_last());
    }
}

/// A separator anywhere in the path bounds `last_slash` from below.
pub proof fn lemma_last_slash_at(s: Seq<char>, i: int)
    requires
        0 <= i < s.len(),
        s[i] == '/',
    ensures
        last_slash(s) >= i,
    decreases s.len(),
{
    if s[s.len() - 1] != '/' {
        lemma_last_slash_at(s.drop_last(), i);
    }
}

/// Removes every trailing separator from a path.
pub fn trim_trailing_slashes(s: &String) -> (r: String)
    ensures
        r@ == trimmed_slashes(s@),
{
    let n = s.as_str().unicode_len();
    let mut end = n;
    proof {
        assert(s@.subrange(0, n as int) =~= s@);
    }
    while end > 0 && s.as_str().get_char(end - 1) == '/'
        invariant
            end <= n,
            n == s@.len(),
            trimmed_slashes(s@) == trimmed_slashes(s@.subrange(0, end as int)),
        decreases end,
    {
        proof {
            assert(s@.subrange(0, end as int).drop_last() =~= s@.subrange(0, end as int - 1));
        }
        end = end - 1;
    }
    let r = s.as_str().substring_char(0, end).to_owned();
    proof {
        if end > 0 {
            assert(s@.subrange(0, end as int)[end as int - 1] != '/');
        }
    }
    r
}

/// The directory holding a path; the path must contain a separator.
pub fn parent_of(path: &String) -> (r: String)
    requires
        last_slash(path@) >= 0,
    ensures
        r@ == parent_path(path@),
{
    let n = path.as_str().unicode_len();
    let mut i = n;
    proof {
        assert(path@.subrange(0, n as int) =~= path@);
    }
    while i > 0 && path.as_str().get_char(i - 1) != '/'
        invariant
            i <= n,
            n == path@.len(),
            last_slash(path@) == last_slash(path@.subrange(0, i as int)),
        decreases i,
    {
        proof {
            assert(path@.subrange(0, i as int).drop_last() =~= path@.subrange(0, i as int - 1));
        }
        i = i - 1;
    }
    proof {
        if i == 0 {
            assert(path@.subrange(0, 0) =~= Seq::<char>::empty());
        }
        assert(path@.subrange(0, i as int)[i as int - 1] == '/');
    }
    path.as_str().substring_char(0, i - 1).to_owned()
}

/// Joins an output root to a project name, normalizing trailing separators on
/// the root first.
pub fn join_path(dir: &String, name: &String) -> (r: String)
    ensures
        r@ == joined_path(dir@, name@),
{
    let mut r = trim_trailing_slashes(dir);
    r.append("/");
    r.append(name.as_str());
    proof {
        reveal_strlit("/");
        assert("/"@ =~= seq!['/']);
    }
    r
}

/// The glob over a template root's whole file tree, as the templating engine
/// expects it: the root with trailing separators trimmed, then `**/*`.
pub fn template_glob(root: &String) -> (r: String)
    ensures
        r@ == glob_pattern(root@),
{
    let mut r = trim_trailing_slashes(root);
    r.append("**/*");
    proof {
        reveal_strlit("**/*");
        assert("**/*"@ =~= seq!['*', '*', '/', '*']);
    }
    r
}

/// One file of the render plan: the template-relative name, where the
/// rendered file goes, and the directory that must exist first.
pub struct RenderStep {
    pub name: String,
    pub dest: String,
    pub dest_dir: String,
}

/// One rendering instance: a chosen template, the values collected for its
/// parameters, and the output root the project directory goes under.
pub struct Project {
    pub name: String,
    pub template_id: Option<String>,
    pub context: Option<tera::Context>,
    pub output_path: Option<String>,
}

impl Project {
    /// A fresh project: no template chosen yet, no context, and the fixed
    /// default output root.
    pub fn new(name: String) -> (p: Project)
        ensures
            p.name == name,
            p.template_id is None,
            p.context is None,
            p.output_path matches Some(o) && o@ == "./output"@,
    {
        Project {
            name,
            template_id: None,
            context: None,
            output_path: Some("./output".to_owned()),
        }
    }

    /// Gives the project a fresh, empty rendering context.
    pub fn init_context(&mut self)
        ensures
            final(self).context matches Some(c) && context_values(c) == no_values(),
            final(self).name == old(self).name,
            final(self).template_id == old(self).template_id,
            final(self).output_path == old(self).output_path,
    {
        self.context = Some(context_new());
    }

    /// The project's rendering context, created empty on first use.
    pub fn get_mut_context(&mut self) -> (c: &mut tera::Context)
        ensures
            final(self).context == Some(*final(c)),
            old(self).context matches Some(c0) ==> *c == c0,
            old(self).context is None ==> context_values(*c) == no_values(),
            final(self).name == old(self).name,
            final(self).template_id == old(self).template_id,
            final(self).output_path == old(self).output_path,
    {
        self.context.get_or_insert(context_new())
    }

    /// Records one collected value in the rendering context, creating the
    /// context if the project has none yet.
    pub fn context_insert(&mut self, key: &String, val: &String)
        ensures
            final(self).context matches Some(c) && context_values(c) == (match old(
                self,
            ).context {
                Some(c0) => context_values(c0),
                None => no_values(),
            }).insert(key@, val@),
            final(self).name == old(self).name,
            final(self).template_id == old(self).template_id,
            final(self).output_path == old(self).output_path,
    {
        let c = self.get_mut_context();
        context_insert_str(c, key, val);
    }

    /// The directory this project renders into: the output root, trailing
    /// separators trimmed, joined to the project's name.
    pub fn output_dir(&self) -> (r: String)
        requires
            self.output_path is Some,
        ensures
            r@ == joined_path(self.output_path->0@, self.name@),
    {
        match &self.output_path {
            Some(root) => join_path(root, &self.name),
            None => unreached(),
        }
    }

    /// Lays out a render pass over the template's files: exactly one step per
    /// file, in the order the templating engine enumerated them, each landing
    /// at the output directory joined with the file's relative name, with the
    /// directory that must be materialized for it.
    pub fn render_plan(&self, files: &Vec<String>) -> (plan: Vec<RenderStep>)
        requires
            self.output_path is Some,
        ensures
            plan@.len() == files@.len(),
            forall|i: int|
                0 <= i < files@.len() ==> {
                    let out = joined_path(self.output_path->0@, self.name@);
                    &&& (#[trigger] plan@[i]).name@ == files@[i]@
                    &&& plan@[i].dest@ == dest_path(out, files@[i]@)
                    &&& plan@[i].dest_dir@ == parent_path(dest_path(out, files@[i]@))
                },
    {
        let out = self.output_dir();
        let mut plan: Vec<RenderStep> = Vec::new();
        let n = files.len();
        let mut i: usize = 0;
        while i < n
            invariant
                n == files@.len(),
                i <= n,
                out@ == joined_path(self.output_path->0@, self.name@),
                plan@.len() == i as nat,
                forall|j: int|
                    0 <= j < i ==> {
                        let o = joined_path(self.output_path->0@, self.name@);
                        &&& (#[trigger] plan@[j]).name@ == files@[j]@
                        &&& plan@[j].dest@ == dest_path(o, files@[j]@)
                        &&& plan@[j].dest_dir@ == parent_path(dest_path(o, files@[j]@))
                    },
            decreases n - i,
        {
            let name = files[i].clone();
            let mut dest = out.clone();
            dest.append("/");
            dest.append(name.as_str());
            proof {
                reveal_strlit("/");
                assert("/"@ =~= seq!['/']);
                assert(dest@ == dest_path(out@, name@));
                assert(dest@[out@.len() as int] == '/');
                lemma_last_slash_at(dest@, out@.len() as int);
            }
            let dest_dir = parent_of(&dest);
            plan.push(RenderStep { name, dest, dest_dir });
            i = i + 1;
        }
        plan
    }
}

/// The chain of directories that materializing `p` brings into being: `p`
/// itself and every ancestor prefix that ends where a separator stands.
pub open spec fn dir_chain(p: Seq<char>) -> Set<Seq<char>> {
    Set::new(
        |q: Seq<char>|
            q == p || exists|i: int| 0 <= i < p.len() && p[i] == '/' && q == p.subrange(0, i),
    )
}

/// What recursive directory creation leaves behind, over an abstract set of
/// existing directories.
pub open spec fn ensure_dir_tree(dirs: Set<Seq<char>>, p: Seq<char>) -> Set<Seq<char>> {
    dirs.union(dir_chain(p))
}

/// Idempotent directory creation: materializing the same path twice leaves
/// exactly what the first pass left.
pub proof fn lemma_ensure_dir_tree_idempotent(dirs: Set<Seq<char>>, p: Seq<char>)
    ensures
        ensure_dir_tree(ensure_dir_tree(dirs, p), p) == ensure_dir_tree(dirs, p),
{
    assert(ensure_dir_tree(ensure_dir_tree(dirs, p), p) =~= ensure_dir_tree(dirs, p));
}

/// Directory creation never alters siblings: any path outside the created
/// chain exists afterwards exactly when it existed before.
pub proof fn lemma_ensure_dir_tree_preserves_others(dirs: Set<Seq<char>>, p: Seq<char>, q: Seq<char>)
    requires
        !dir_chain(p).contains(q),
    ensures
        ensure_dir_tree(dirs, p).contains(q) == dirs.contains(q),
{
}

/// The directory a render step materializes for its file lies on that file's
/// own ancestor chain, so creating it is covered by the laws above.
pub proof fn lemma_parent_on_chain(s: Seq<char>)
    requires
        last_slash(s) >= 0,
    ensures
        dir_chain(s).contains(parent_path(s)),
{
    lemma_last_slash_is_separator(s);
    let i = last_slash(s);
    assert(0 <= i < s.len() && s[i] == '/' && parent_path(s) == s.subrange(0, i));
}

} // verus!
