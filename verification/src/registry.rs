use vstd::prelude::*;

use crate::template::{
    clone_config, config_wf, validate_config, ConfigFault, TemplateConfig, TemplateConfigV,
};

verus! {

/// Mathematical image of one discovered template.
pub struct TemplateEntryV {
    pub id: Seq<char>,
    pub name: Seq<char>,
    pub path: Seq<char>,
    pub config: TemplateConfigV,
}

/// One discovered template: its identity, the manifest it was loaded from,
/// and the filesystem root that holds its file tree.
pub struct TemplateEntry {
    pub id: String,
    pub name: String,
    pub path: String,
    pub config: TemplateConfig,
}

impl View for TemplateEntry {
    type V = TemplateEntryV;

    open spec fn view(&self) -> TemplateEntryV {
        TemplateEntryV { id: self.id@, name: self.name@, path: self.path@, config: self.config@ }
    }
}

/// Mathematical image of the catalog.
pub struct TemplateEntryListV {
    pub keys: Seq<Seq<char>>,
    pub templates: Seq<TemplateEntryV>,
}

/// The de-duplicated, insertion-ordered catalog of discovered templates.
/// `keys` opens with a sentinel "exit" label, so index 0 is reserved; every
/// later key is the id of the template at the matching `templates` position.
pub struct TemplateEntryList {
    pub keys: Vec<String>,
    pub templates: Vec<TemplateEntry>,
}

impl View for TemplateEntryList {
    type V = TemplateEntryListV;

    open spec fn view(&self) -> TemplateEntryListV {
        TemplateEntryListV {
            keys: Seq::new(self.keys@.len(), |i: int| self.keys@[i]@),
            templates: Seq::new(self.templates@.len(), |i: int| self.templates@[i]@),
        }
    }
}

/// Some catalog entry already carries this id.
pub open spec fn has_id(ts: Seq<TemplateEntryV>, id: Seq<char>) -> bool {
    exists|i: int| 0 <= i < ts.len() && ts[i].id == id
}

/// An entry mirrors its manifest and the manifest is well formed.
pub open spec fn entry_wf(t: TemplateEntryV) -> bool {
    &&& t.id == t.config.id
    &&& t.name == t.config.name
    &&& config_wf(t.config)
}

/// The sentinel key is followed by exactly the entry ids, in order.
pub open spec fn keys_aligned(l: TemplateEntryListV) -> bool {
    &&& l.keys.len() == l.templates.len() + 1
    &&& forall|i: int| 0 <= i < l.templates.len() ==> l.keys[i + 1] == (#[trigger] l.templates[i]).id
}

/// No two catalog entries share an id.
pub open spec fn ids_unique(ts: Seq<TemplateEntryV>) -> bool {
    forall|i: int, j: int| 0 <= i < j < ts.len() ==> ts[i].id != ts[j].id
}

/// Catalog invariant: keys track entries, ids never repeat, entries are sound.
pub open spec fn catalog_wf(l: TemplateEntryListV) -> bool {
    &&& keys_aligned(l)
    &&& ids_unique(l.templates)
    &&& forall|i: int| 0 <= i < l.templates.len() ==> entry_wf(#[trigger] l.templates[i])
}

/// What a scan of one immediate child of a root directory found.
pub enum ScanOutcome {
    /// The child is not a directory; it is skipped.
    NotDirectory,
    /// The child holds no readable manifest file.
    MissingConfig,
    /// The manifest file could not be parsed into a manifest record.
    MalformedManifest,
    /// A manifest was read; `path` is the child directory itself.
    Template { config: TemplateConfig, path: String },
}

/// Mathematical image of a scan outcome.
pub enum ScanOutcomeV {
    NotDirectory,
    MissingConfig,
    MalformedManifest,
    Template { config: TemplateConfigV, path: Seq<char> },
}

impl View for ScanOutcome {
    type V = ScanOutcomeV;

    open spec fn view(&self) -> ScanOutcomeV {
        match self {
            ScanOutcome::NotDirectory => ScanOutcomeV::NotDirectory,
            ScanOutcome::MissingConfig => ScanOutcomeV::MissingConfig,
            ScanOutcome::MalformedManifest => ScanOutcomeV::MalformedManifest,
            ScanOutcome::Template { config, path } => ScanOutcomeV::Template {
                config: config@,
                path: path@,
            },
        }
    }
}

/// The images of a scanned root's outcomes, in scan order.
pub open spec fn outcome_views(os: Seq<ScanOutcome>) -> Seq<ScanOutcomeV> {
    Seq::new(os.len(), |i: int| os[i]@)
}

/// An outcome that aborts the whole discovery call: a missing or unreadable
/// manifest, one that does not parse, or one that fails the schema.
pub open spec fn outcome_fatal(o: ScanOutcomeV) -> bool {
    match o {
        ScanOutcomeV::NotDirectory => false,
        ScanOutcomeV::MissingConfig => true,
        ScanOutcomeV::MalformedManifest => true,
        ScanOutcomeV::Template { config, path } => !config_wf(config),
    }
}

/// Why a discovery call aborted.
pub enum DiscoveryErrorKind {
    /// The child directory holds no readable manifest.
    MissingConfig,
    /// The manifest file does not parse as a manifest record.
    MalformedManifest,
    /// The manifest parsed but fails the schema; the fault names the field.
    InvalidConfig { fault: ConfigFault },
}

/// A fatal discovery error: which scanned child, and why.
pub struct DiscoveryError {
    pub index: usize,
    pub kind: DiscoveryErrorKind,
}

/// The error kind a fatal outcome is reported as.
pub open spec fn error_kind_matches(k: DiscoveryErrorKind, o: ScanOutcomeV) -> bool {
    match o {
        ScanOutcomeV::NotDirectory => false,
        ScanOutcomeV::MissingConfig => k == DiscoveryErrorKind::MissingConfig,
        ScanOutcomeV::MalformedManifest => k == DiscoveryErrorKind::MalformedManifest,
        ScanOutcomeV::Template { config, path } => k matches DiscoveryErrorKind::InvalidConfig {
            fault: _,
        },
    }
}

/// The entry a manifest found at `path` is registered as.
pub open spec fn entry_of(config: TemplateConfigV, path: Seq<char>) -> TemplateEntryV {
    TemplateEntryV { id: config.id, name: config.name, path, config }
}

/// How one scan outcome changes the catalog: a new id is appended, a known
/// one is skipped (first discovered wins), anything else leaves it alone.
pub open spec fn register_one(l: TemplateEntryListV, o: ScanOutcomeV) -> TemplateEntryListV {
    match o {
        ScanOutcomeV::Template { config, path } => {
            if has_id(l.templates, config.id) {
                l
            } else {
                TemplateEntryListV {
                    keys: l.keys.push(config.id),
                    templates: l.templates.push(entry_of(config, path)),
                }
            }
        },
        _ => l,
    }
}

/// The catalog after registering a whole scanned root, outcome by outcome.
pub open spec fn register_all(l: TemplateEntryListV, os: Seq<ScanOutcomeV>) -> TemplateEntryListV
    decreases os.len(),
{
    if os.len() == 0 {
        l
    } else {
        register_all(register_one(l, os[0]), os.subrange(1, os.len() as int))
    }
}

impl TemplateEntryList {
    /// Catalog invariant, at the level callers see.
    pub open spec fn wf(&self) -> bool {
        catalog_wf(self@)
    }

    /// An empty catalog: only the sentinel "Exit" key, no templates.
    pub fn new() -> (r: TemplateEntryList)
        ensures
            r.wf(),
            r@.templates.len() == 0,
            r@.keys.len() == 1,
            r@.keys[0] == "Exit"@,
    {
        let mut keys: Vec<String> = Vec::new();
        keys.push("Exit".to_owned());
        let r = TemplateEntryList { keys, templates: Vec::new() };
        proof {
            assert(r@.keys =~= seq!["Exit"@]);
        }
        r
    }

    /// Looks a template up by id: the position of its entry, if any.
    pub fn find_template(&self, id: &String) -> (r: Option<usize>)
        ensures
            match r {
                Some(i) => i < self@.templates.len() && self@.templates[i as int].id == id@,
                None => !has_id(self@.templates, id@),
            },
    {
        let n = self.templates.len();
        let mut i: usize = 0;
        while i < n
            invariant
                n == self.templates.len(),
                i <= n,
                forall|j: int| 0 <= j < i ==> (#[trigger] self@.templates[j]).id != id@,
            decreases n - i,
        {
            if self.templates[i].id == *id {
                return Some(i);
            }
            i = i + 1;
        }
        None
    }

    /// Registers everything one scanned root turned up.
    ///
    /// A fatal outcome (a manifest missing, unparsable, or off-schema) aborts
    /// the call: the error names the first such child and the catalog is left
    /// exactly as it was. Otherwise the catalog becomes the fold of the
    /// outcomes over its old state: children that are not directories are
    /// skipped, a template whose id is already present is skipped (the first
    /// discovered definition wins), and every new id is appended in scan
    /// order.
    pub fn add_scanned_root(&mut self, outcomes: Vec<ScanOutcome>) -> (r: Result<
        (),
        DiscoveryError,
    >)
        requires
            old(self).wf(),
        ensures
            final(self).wf(),
            r is Err <==> exists|i: int|
                0 <= i < outcomes@.len() && outcome_fatal(#[trigger] outcomes@[i]@),
            r matches Err(e) ==> {
                &&& final(self)@ == old(self)@
                &&& e.index < outcomes@.len()
                &&& outcome_fatal(outcomes@[e.index as int]@)
                &&& forall|j: int| 0 <= j < e.index ==> !outcome_fatal(#[trigger] outcomes@[j]@)
                &&& error_kind_matches(e.kind, outcomes@[e.index as int]@)
            },
            r is Ok ==> final(self)@ == register_all(old(self)@, outcome_views(outcomes@)),
    {
        let ghost views = outcome_views(outcomes@);
        let n = outcomes.len();
        let mut i: usize = 0;
        while i < n
            invariant
                n == outcomes@.len(),
                i <= n,
                views == outcome_views(outcomes@),
                self.wf(),
                self@ == old(self)@,
                forall|j: int| 0 <= j < i ==> !outcome_fatal(#[trigger] outcomes@[j]@),
            decreases n - i,
        {
            match &outcomes[i] {
                ScanOutcome::NotDirectory => {},
                ScanOutcome::MissingConfig => {
                    proof {
                        assert(outcome_fatal(outcomes@[i as int]@));
                    }
                    return Err(
                        DiscoveryError { index: i, kind: DiscoveryErrorKind::MissingConfig },
                    );
                },
                ScanOutcome::MalformedManifest => {
                    proof {
                        assert(outcome_fatal(outcomes@[i as int]@));
                    }
                    return Err(
                        DiscoveryError { index: i, kind: DiscoveryErrorKind::MalformedManifest },
                    );
                },
                ScanOutcome::Template { config, path } => {
                    match validate_config(config) {
                        Some(fault) => {
                            proof {
                                assert(outcome_fatal(outcomes@[i as int]@));
                            }
                            return Err(
                                DiscoveryError {
                                    index: i,
                                    kind: DiscoveryErrorKind::InvalidConfig { fault },
                                },
                            );
                        },
                        None => {
                            proof {
                                assert(!outcome_fatal(outcomes@[i as int]@));
                            }
                        },
                    }
                },
            }
            i = i + 1;
        }
        proof {
            assert(views.subrange(0, n as int) =~= views);
        }
        let mut k: usize = 0;
        while k < n
            invariant
                n == outcomes@.len(),
                k <= n,
                views == outcome_views(outcomes@),
                forall|j: int| 0 <= j < n ==> !outcome_fatal(#[trigger] outcomes@[j]@),
                self.wf(),
                register_all(self@, views.subrange(k as int, n as int)) == register_all(
                    old(self)@,
                    views,
                ),
            decreases n - k,
        {
            let ghost pre = self@;
            match &outcomes[k] {
                ScanOutcome::Template { config, path } => {
                    match self.find_template(&config.id) {
                        Some(_) => {
                            proof {
                                assert(register_one(pre, views[k as int]) == pre);
                            }
                        },
                        None => {
                            let entry = TemplateEntry {
                                id: config.id.clone(),
                                name: config.name.clone(),
                                path: path.clone(),
                                config: clone_config(config),
                            };
                            self.keys.push(config.id.clone());
                            self.templates.push(entry);
                            proof {
                                assert(self@.keys =~= pre.keys.push(config.id@));
                                assert(self@.templates =~= pre.templates.push(
                                    entry_of(config@, path@),
                                ));
                                assert(self@ == register_one(pre, views[k as int]));
                                assert(outcome_fatal(views[k as int]) == false);
                                lemma_register_one_wf(pre, views[k as int]);
                            }
                        },
                    }
                },
                _ => {
                    proof {
                        assert(register_one(pre, views[k as int]) == pre);
                    }
                },
            }
            proof {
                let rest = views.subrange(k as int, n as int);
                assert(rest[0] == views[k as int]);
                assert(rest.subrange(1, rest.len() as int) =~= views.subrange(
                    k as int + 1,
                    n as int,
                ));
                assert(register_all(pre, rest) == register_all(
                    register_one(pre, views[k as int]),
                    views.subrange(k as int + 1, n as int),
                ));
            }
            k = k + 1;
        }
        proof {
            assert(views.subrange(n as int, n as int) =~= Seq::<ScanOutcomeV>::empty());
        }
        Ok(())
    }
}

/// Registering one non-fatal outcome preserves the catalog invariant.
proof fn lemma_register_one_wf(l: TemplateEntryListV, o: ScanOutcomeV)
    requires
        catalog_wf(l),
        !outcome_fatal(o),
    ensures
        catalog_wf(register_one(l, o)),
{
    match o {
        ScanOutcomeV::Template { config, path } => {
            if !has_id(l.templates, config.id) {
                let r = register_one(l, o);
                assert forall|i: int| 0 <= i < r.templates.len() implies l.keys.push(config.id)[i
                    + 1] == (#[trigger] r.templates[i]).id by {
                    if i < l.templates.len() {
                        assert(l.keys[i + 1] == l.templates[i].id);
                    }
                }
                assert forall|i: int, j: int| 0 <= i < j < r.templates.len() implies r.templates[i].id
                    != r.templates[j].id by {
                    if j < l.templates.len() {
                    } else {
                        assert(r.templates[j].id == config.id);
                        assert(!has_id(l.templates, config.id));
                        assert(r.templates[i] == l.templates[i]);
                    }
                }
            }
        },
        _ => {},
    }
}

/// Uniqueness: however many roots are scanned, in whatever order, the catalog
/// never holds two entries with the same template id.
pub proof fn lemma_discovery_uniqueness(l: TemplateEntryListV, os: Seq<ScanOutcomeV>)
    requires
        ids_unique(l.templates),
    ensures
        ids_unique(register_all(l, os).templates),
    decreases os.len(),
{
    if os.len() > 0 {
        let l1 = register_one(l, os[0]);
        match os[0] {
            ScanOutcomeV::Template { config, path } => {
                if !has_id(l.templates, config.id) {
                    assert forall|i: int, j: int| 0 <= i < j < l1.templates.len() implies l1.templates[i].id
                        != l1.templates[j].id by {
                        if j < l.templates.len() {
                        } else {
                            assert(l1.templates[j].id == config.id);
                            assert(l1.templates[i] == l.templates[i]);
                        }
                    }
                }
            },
            _ => {},
        }
        lemma_discovery_uniqueness(l1, os.subrange(1, os.len() as int));
    }
}

/// First discovered wins: discovery only ever appends, so every entry and
/// every key that stood in the catalog before a root was scanned stands
/// unchanged, at its old position, afterwards.
pub proof fn lemma_discovery_first_wins(l: TemplateEntryListV, os: Seq<ScanOutcomeV>)
    ensures
        register_all(l, os).templates.len() >= l.templates.len(),
        register_all(l, os).keys.len() >= l.keys.len(),
        forall|i: int| 0 <= i < l.templates.len() ==> register_all(l, os).templates[i]
            == l.templates[i],
        forall|i: int| 0 <= i < l.keys.len() ==> register_all(l, os).keys[i] == l.keys[i],
    decreases os.len(),
{
    if os.len() > 0 {
        let l1 = register_one(l, os[0]);
        assert forall|i: int| 0 <= i < l.templates.len() implies l1.templates[i]
            == l.templates[i] by {}
        assert forall|i: int| 0 <= i < l.keys.len() implies l1.keys[i] == l.keys[i] by {}
        lemma_discovery_first_wins(l1, os.subrange(1, os.len() as int));
    }
}

/// Ordering determinism: the catalog's key order is a function of the prior
/// state and the scan outcomes alone, so re-running discovery over the same
/// roots in the same order rebuilds exactly the same catalog.
pub proof fn lemma_discovery_deterministic(
    l1: TemplateEntryListV,
    l2: TemplateEntryListV,
    os1: Seq<ScanOutcomeV>,
    os2: Seq<ScanOutcomeV>,
)
    requires
        l1 == l2,
        os1 == os2,
    ensures
        register_all(l1, os1) == register_all(l2, os2),
{
}

/// The catalog after a whole sequence of discovery calls, one scanned root
/// after another.
pub open spec fn register_roots(
    l: TemplateEntryListV,
    roots: Seq<Seq<ScanOutcomeV>>,
) -> TemplateEntryListV
    decreases roots.len(),
{
    if roots.len() == 0 {
        l
    } else {
        register_roots(register_all(l, roots[0]), roots.subrange(1, roots.len() as int))
    }
}

/// Ordering determinism across any number of roots: the catalog a sequence of
/// discovery calls builds is a function of the starting catalog and the scan
/// outcomes of the roots alone, so feeding the same roots in the same order
/// rebuilds the identical key order and templates.
pub proof fn lemma_discovery_roots_deterministic(
    l1: TemplateEntryListV,
    l2: TemplateEntryListV,
    roots1: Seq<Seq<ScanOutcomeV>>,
    roots2: Seq<Seq<ScanOutcomeV>>,
)
    requires
        l1 == l2,
        roots1 == roots2,
    ensures
        register_roots(l1, roots1) == register_roots(l2, roots2),
{
}

/// Uniqueness across any number of roots: however many roots a catalog is fed,
/// it never comes to hold two entries with the same template id.
pub proof fn lemma_discovery_roots_uniqueness(l: TemplateEntryListV, roots: Seq<Seq<ScanOutcomeV>>)
    requires
        ids_unique(l.templates),
    ensures
        ids_unique(register_roots(l, roots).templates),
    decreases roots.len(),
{
    if roots.len() > 0 {
        lemma_discovery_uniqueness(l, roots[0]);
        lemma_discovery_roots_uniqueness(
            register_all(l, roots[0]),
            roots.subrange(1, roots.len() as int),
        );
    }
}

/// First discovered wins across any number of roots: later discovery calls
/// only append, so every entry and key keeps its position and definition.
pub proof fn lemma_discovery_roots_first_wins(l: TemplateEntryListV, roots: Seq<Seq<ScanOutcomeV>>)
    ensures
        register_roots(l, roots).templates.len() >= l.templates.len(),
        register_roots(l, roots).keys.len() >= l.keys.len(),
        forall|i: int| 0 <= i < l.templates.len() ==> register_roots(l, roots).templates[i]
            == l.templates[i],
        forall|i: int| 0 <= i < l.keys.len() ==> register_roots(l, roots).keys[i] == l.keys[i],
    decreases roots.len(),
{
    if roots.len() > 0 {
        lemma_discovery_first_wins(l, roots[0]);
        lemma_discovery_roots_first_wins(
            register_all(l, roots[0]),
            roots.subrange(1, roots.len() as int),
        );
    }
}

/// The key order stays discovery order across any number of roots: the keys
/// remain the sentinel followed by the entry ids, in the order the calls
/// discovered them.
pub proof fn lemma_discovery_roots_key_order(l: TemplateEntryListV, roots: Seq<Seq<ScanOutcomeV>>)
    requires
        keys_aligned(l),
    ensures
        keys_aligned(register_roots(l, roots)),
    decreases roots.len(),
{
    if roots.len() > 0 {
        lemma_discovery_key_order(l, roots[0]);
        lemma_discovery_roots_key_order(
            register_all(l, roots[0]),
            roots.subrange(1, roots.len() as int),
        );
    }
}

/// The key order is discovery order: after any run of discovery the keys are
/// still the sentinel followed by the entry ids, newly discovered ids at the
/// end in scan order.
pub proof fn lemma_discovery_key_order(l: TemplateEntryListV, os: Seq<ScanOutcomeV>)
    requires
        keys_aligned(l),
    ensures
        keys_aligned(register_all(l, os)),
    decreases os.len(),
{
    if os.len() > 0 {
        let l1 = register_one(l, os[0]);
        match os[0] {
            ScanOutcomeV::Template { config, path } => {
                if !has_id(l.templates, config.id) {
                    assert forall|i: int| 0 <= i < l1.templates.len() implies l1.keys[i + 1]
                        == (#[trigger] l1.templates[i]).id by {
                        if i < l.templates.len() {
                            assert(l.keys[i + 1] == l.templates[i].id);
                        }
                    }
                }
            },
            _ => {},
        }
        lemma_discovery_key_order(l1, os.subrange(1, os.len() as int));
    }
}

} // verus!
