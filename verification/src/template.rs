use vstd::prelude::*;

verus! {

/// Mathematical image of one declared parameter; contracts speak of this.
pub struct TemplateEntryOptionV {
    pub id: Seq<char>,
    pub name: Seq<char>,
    pub default: Option<Seq<char>>,
    pub required: bool,
}

/// One configurable value a template declares: identity, display label,
/// optional default, and whether the operator is expected to supply a value.
pub struct TemplateEntryOption {
    pub id: String,
    pub name: String,
    pub default: Option<String>,
    pub required: bool,
}

impl View for TemplateEntryOption {
    type V = TemplateEntryOptionV;

    open spec fn view(&self) -> TemplateEntryOptionV {
        TemplateEntryOptionV {
            id: self.id@,
            name: self.name@,
            default: match self.default {
                Some(ref d) => Some(d@),
                None => None,
            },
            required: self.required,
        }
    }
}

/// Mathematical image of a template's manifest.
pub struct TemplateConfigV {
    pub id: Seq<char>,
    pub name: Seq<char>,
    pub options: Seq<TemplateEntryOptionV>,
}

/// A template's manifest: identity, display name, and its declared parameters
/// in declaration order.
pub struct TemplateConfig {
    pub id: String,
    pub name: String,
    pub options: Vec<TemplateEntryOption>,
}

impl View for TemplateConfig {
    type V = TemplateConfigV;

    open spec fn view(&self) -> TemplateConfigV {
        TemplateConfigV {
            id: self.id@,
            name: self.name@,
            options: Seq::new(self.options@.len(), |i: int| self.options@[i]@),
        }
    }
}

/// The text a prompt is pre-filled with: the declared default, or nothing.
pub open spec fn default_text(o: TemplateEntryOptionV) -> Seq<char> {
    match o.default {
        Some(d) => d,
        None => Seq::<char>::empty(),
    }
}

/// What a collected response resolves to: an empty response falls back to the
/// declared default (or the empty string); anything else stands as given.
pub open spec fn resolved_value(o: TemplateEntryOptionV, response: Seq<char>) -> Seq<char> {
    if response.len() == 0 {
        default_text(o)
    } else {
        response
    }
}

/// The value a prompt for this parameter is pre-filled with.
pub fn option_prefill(o: &TemplateEntryOption) -> (r: String)
    ensures
        r@ == default_text(o@),
{
    match &o.default {
        Some(d) => d.clone(),
        None => String::new(),
    }
}

/// Resolves an operator response against the parameter's declared default.
pub fn resolve_option_value(o: &TemplateEntryOption, response: &String) -> (r: String)
    ensures
        r@ == resolved_value(o@, response@),
{
    if response.as_str().is_empty() {
        option_prefill(o)
    } else {
        response.clone()
    }
}

/// An exact copy of a parameter declaration.
pub fn clone_option(o: &TemplateEntryOption) -> (r: TemplateEntryOption)
    ensures
        r@ == o@,
{
    TemplateEntryOption {
        id: o.id.clone(),
        name: o.name.clone(),
        default: match &o.default {
            Some(d) => Some(d.clone()),
            None => None,
        },
        required: o.required,
    }
}

/// An exact copy of a manifest.
pub fn clone_config(c: &TemplateConfig) -> (r: TemplateConfig)
    ensures
        r@ == c@,
{
    let mut options: Vec<TemplateEntryOption> = Vec::new();
    let mut i: usize = 0;
    while i < c.options.len()
        invariant
            i <= c.options.len(),
            options@.len() == i as nat,
            forall|j: int| 0 <= j < i ==> options@[j]@ == c@.options[j],
        decreases c.options.len() - i,
    {
        options.push(clone_option(&c.options[i]));
        i = i + 1;
    }
    let r = TemplateConfig { id: c.id.clone(), name: c.name.clone(), options };
    proof {
        assert(r@.options =~= c@.options);
    }
    r
}

/// No two of the declared parameters share an id.
pub open spec fn options_unique(opts: Seq<TemplateEntryOptionV>) -> bool {
    forall|i: int, j: int| 0 <= i < j < opts.len() ==> opts[i].id != opts[j].id
}

/// A manifest is well formed when the template id is non-empty and every
/// parameter has a non-empty id that no other parameter repeats.
pub open spec fn config_wf(c: TemplateConfigV) -> bool {
    &&& c.id.len() > 0
    &&& forall|i: int| 0 <= i < c.options.len() ==> (#[trigger] c.options[i]).id.len() > 0
    &&& options_unique(c.options)
}

/// The first schema violation a front-to-back scan of a manifest meets.
pub enum ConfigFault {
    /// The template's own id is empty.
    EmptyTemplateId,
    /// The parameter at this position has an empty id.
    EmptyOptionId { index: usize },
    /// The parameter at this position repeats an earlier parameter's id.
    DuplicateOptionId { index: usize },
}

/// The first `n` parameters pass the scan: non-empty ids, no repetitions.
pub open spec fn scan_clean(opts: Seq<TemplateEntryOptionV>, n: int) -> bool {
    &&& forall|i: int| 0 <= i < n ==> (#[trigger] opts[i]).id.len() > 0
    &&& forall|i: int, j: int| 0 <= j < i < n ==> opts[i].id != opts[j].id
}

/// Checks a manifest against the schema and reports the first field at fault,
/// if any: an empty template id, then the first empty or repeated parameter id.
pub fn validate_config(c: &TemplateConfig) -> (r: Option<ConfigFault>)
    ensures
        r is None <==> config_wf(c@),
        c@.id.len() == 0 ==> r == Some(ConfigFault::EmptyTemplateId),
        c@.id.len() > 0 ==> match r {
            None => config_wf(c@),
            Some(ConfigFault::EmptyTemplateId) => false,
            Some(ConfigFault::EmptyOptionId { index }) => {
                &&& index < c@.options.len()
                &&& c@.options[index as int].id.len() == 0
                &&& scan_clean(c@.options, index as int)
            },
            Some(ConfigFault::DuplicateOptionId { index }) => {
                &&& index < c@.options.len()
                &&& c@.options[index as int].id.len() > 0
                &&& exists|j: int|
                    0 <= j < index && c@.options[j].id == c@.options[index as int].id
                &&& scan_clean(c@.options, index as int)
            },
        },
{
    if c.id.as_str().is_empty() {
        return Some(ConfigFault::EmptyTemplateId);
    }
    let n = c.options.len();
    let mut i: usize = 0;
    while i < n
        invariant
            c@.id.len() > 0,
            n == c.options.len(),
            i <= n,
            scan_clean(c@.options, i as int),
        decreases n - i,
    {
        if c.options[i].id.as_str().is_empty() {
            return Some(ConfigFault::EmptyOptionId { index: i });
        }
        let mut j: usize = 0;
        while j < i
            invariant
                c@.id.len() > 0,
                j <= i < n,
                n == c.options.len(),
                scan_clean(c@.options, i as int),
                c@.options[i as int].id.len() > 0,
                forall|k: int| 0 <= k < j ==> c@.options[k].id != c@.options[i as int].id,
            decreases i - j,
        {
            if c.options[j].id == c.options[i].id {
                proof {
                    assert(c@.options[j as int].id == c@.options[i as int].id);
                    assert(!options_unique(c@.options));
                }
                return Some(ConfigFault::DuplicateOptionId { index: i });
            }
            j = j + 1;
        }
        i = i + 1;
    }
    None
}

} // verus!
