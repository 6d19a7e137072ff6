use vstd::prelude::*;

use crate::text::{chars_of, contains_chars, contains_seq};

verus! {

/// The text that the repository of every endpoint made by this tool holds.
pub const TOOL_TAG: &'static str = "evshiron/rendrok";

/// The status text of a service that is not active.
pub const SUSPENDED_STATUS: &'static str = "suspended";

/// A remote service record, as the provider lists it.
pub struct EndpointRecord {
    pub id: String,
    pub name: String,
    pub region: String,
    pub url: String,
    pub repo: String,
    pub active: bool,
}

/// No active endpoint of this tool matches the request.
#[derive(PartialEq, Eq, Structural, Clone, Copy, Debug)]
pub enum LocateError {
    NotFound,
}

/// The record was created by this tool: its repository holds the tool's tag.
pub open spec fn is_tool_endpoint(r: EndpointRecord) -> bool {
    contains_seq(r.repo@, TOOL_TAG@)
}

/// The record can serve: it is this tool's and it is not suspended.
pub open spec fn is_eligible(r: EndpointRecord) -> bool {
    is_tool_endpoint(r) && r.active
}

/// The record's name equals the filter exactly, where there is one.
pub open spec fn name_matches(r: EndpointRecord, filter: Option<String>) -> bool {
    match filter {
        Some(n) => r.name@ == n@,
        None => true,
    }
}

/// The locator accepts the record under the filter.
pub open spec fn selects(r: EndpointRecord, filter: Option<String>) -> bool {
    is_eligible(r) && name_matches(r, filter)
}

/// The records of `s` that this tool created, in order.
pub open spec fn tool_records(s: Seq<EndpointRecord>) -> Seq<EndpointRecord> {
    s.filter(|e: EndpointRecord| is_tool_endpoint(e))
}

/// Some record of `s` is accepted under the filter.
pub open spec fn has_match(s: Seq<EndpointRecord>, filter: Option<String>) -> bool {
    exists|i: int| 0 <= i < s.len() && selects(s[i], filter)
}

/// `s[i]` is the first record of `s`, in list order, accepted under the filter.
pub open spec fn is_first_match(s: Seq<EndpointRecord>, filter: Option<String>, i: int) -> bool {
    &&& 0 <= i < s.len()
    &&& selects(s[i], filter)
    &&& forall|j: int| 0 <= j < i ==> !selects(#[trigger] s[j], filter)
}

/// Whether a service's status text marks it as active.
pub fn is_active_status(status: &str) -> (r: bool)
    ensures
        r == (status@ != SUSPENDED_STATUS@),
{
    let s = status.to_owned();
    let suspended = SUSPENDED_STATUS.to_owned();
    !(s == suspended)
}

impl EndpointRecord {
    /// A copy of the record, field for field.
    pub fn duplicate(&self) -> (r: EndpointRecord)
        ensures
            r == *self,
    {
        EndpointRecord {
            id: self.id.clone(),
            name: self.name.clone(),
            region: self.region.clone(),
            url: self.url.clone(),
            repo: self.repo.clone(),
            active: self.active,
        }
    }
}

fn is_tool_endpoint_exec(r: &EndpointRecord, tag: &Vec<char>) -> (b: bool)
    requires
        tag@ == TOOL_TAG@,
    ensures
        b == is_tool_endpoint(*r),
{
    let repo = chars_of(r.repo.as_str());
    contains_chars(&repo, tag)
}

fn selects_exec(r: &EndpointRecord, filter: &Option<String>, tag: &Vec<char>) -> (b: bool)
    requires
        tag@ == TOOL_TAG@,
    ensures
        b == selects(*r, *filter),
{
    if !r.active || !is_tool_endpoint_exec(r, tag) {
        return false;
    }
    match filter {
        Some(n) => r.name == *n,
        None => true,
    }
}

/// Picks the endpoint to serve through: the first record in list order that
/// is this tool's, is active, and has exactly the filter's name if a filter
/// is given.
pub fn find_endpoint(records: &Vec<EndpointRecord>, name_filter: &Option<String>) -> (r: Result<
    EndpointRecord,
    LocateError,
>)
    ensures
        r is Ok <==> has_match(records@, *name_filter),
        r matches Ok(rec) ==> exists|i: int|
            is_first_match(records@, *name_filter, i) && rec == records@[i],
{
    let tag = chars_of(TOOL_TAG);
    let mut i: usize = 0;
    while i < records.len()
        invariant
            tag@ == TOOL_TAG@,
            i <= records.len(),
            forall|j: int| 0 <= j < i ==> !selects(#[trigger] records@[j], *name_filter),
        decreases records.len() - i,
    {
        if selects_exec(&records[i], name_filter, &tag) {
            assert(is_first_match(records@, *name_filter, i as int));
            return Ok(records[i].duplicate());
        }
        i = i + 1;
    }
    Err(LocateError::NotFound)
}

/// The records that this tool created, active or not, in list order.
pub fn tool_endpoints(records: &Vec<EndpointRecord>) -> (r: Vec<EndpointRecord>)
    ensures
        r@ == tool_records(records@),
{
    let tag = chars_of(TOOL_TAG);
    let mut out: Vec<EndpointRecord> = Vec::new();
    let mut i: usize = 0;
    while i < records.len()
        invariant
            tag@ == TOOL_TAG@,
            i <= records.len(),
            out@ == tool_records(records@.take(i as int)),
        decreases records.len() - i,
    {
        assert(records@.take(i + 1).drop_last() =~= records@.take(i as int));
        assert(records@.take(i + 1).last() == records@[i as int]);
        reveal_with_fuel(Seq::filter, 1);
        if is_tool_endpoint_exec(&records[i], &tag) {
            out.push(records[i].duplicate());
        }
        i = i + 1;
    }
    assert(records@.take(records.len() as int) =~= records@);
    out
}

/// The located endpoint is never suspended and never another tool's.
pub proof fn lemma_located_is_eligible(s: Seq<EndpointRecord>, filter: Option<String>, i: int)
    requires
        is_first_match(s, filter, i),
    ensures
        s[i].active,
        contains_seq(s[i].repo@, TOOL_TAG@),
{
}

/// Under a name filter the located endpoint has exactly that name, and
/// nothing is found when no eligible endpoint bears it, whatever other
/// eligible endpoints exist.
pub proof fn lemma_name_filter_exact(s: Seq<EndpointRecord>, name: String, i: int)
    ensures
        is_first_match(s, Some(name), i) ==> s[i].name@ == name@,
        has_match(s, Some(name)) <==> exists|k: int|
            0 <= k < s.len() && is_eligible(s[k]) && #[trigger] s[k].name@ == name@,
{
    if has_match(s, Some(name)) {
        let k = choose|k: int| 0 <= k < s.len() && selects(s[k], Some(name));
        assert(s[k].name@ == name@);
    }
}

/// Locating twice with the same inputs against the same records picks the
/// same record.
pub proof fn lemma_locate_repeatable(
    s: Seq<EndpointRecord>,
    filter: Option<String>,
    i: int,
    j: int,
)
    requires
        is_first_match(s, filter, i),
        is_first_match(s, filter, j),
    ensures
        i == j,
        s[i] == s[j],
{
}

} // verus!
