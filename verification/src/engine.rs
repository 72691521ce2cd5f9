use vstd::prelude::*;

verus! {

#[verifier::external_type_specification]
#[verifier::external_body]
pub struct ExContext(tera::Context);

/// What a rendering context holds: its string-valued entries, keyed by
/// parameter id.
pub uninterp spec fn context_values(c: tera::Context) -> Map<Seq<char>, Seq<char>>;

/// The empty mapping: what a context with nothing collected holds.
pub open spec fn no_values() -> Map<Seq<char>, Seq<char>> {
    Map::empty()
}

/// Relies on tera::Context::new: a freshly built context holds no entries.
#[verifier::external_body]
pub(crate) fn context_new() -> (c: tera::Context)
    ensures
        context_values(c) == no_values(),
{
    tera::Context::new()
}

/// Relies on tera::Context::insert: a string value is serialized to the JSON
/// string of the same characters and stored under the key, replacing any
/// earlier entry for that key.
#[verifier::external_body]
pub(crate) fn context_insert_str(c: &mut tera::Context, key: &String, val: &String)
    ensures
        context_values(*final(c)) == context_values(*old(c)).insert(key@, val@),
{
    c.insert(key.as_str(), val)
}

} // verus!
