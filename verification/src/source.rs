use vstd::prelude::*;
use crate::error::OsintError;
use crate::util::same_text;

verus! {

/// One request that a source asks to have made.
#[derive(Debug)]
pub enum Call {
    /// A GET of the URL whose body is read as JSON.
    Json(String),
    /// A GET of the URL whose status and headers are the answer, whatever the status.
    Head(String),
    /// A GET of the URL whose JSON body answers for one DNS record type.
    Record(&'static str, String),
}

/// Where the data of a lookup that succeeds comes from.
#[derive(Clone, Copy, Debug, PartialEq, Eq, Structural)]
pub enum DataFrom {
    /// A map from each DNS record type answered to its entry (see `dns_entry`).
    RecordMap,
    /// The answer to the last call made.
    LastAnswer,
}

/// Where the data of a lookup by these calls comes from: the record map when the plan asks
/// for DNS records, the last answer otherwise.
pub open spec fn data_source(calls: Seq<Call>) -> DataFrom {
    if exists|i: int| 0 <= i < calls.len() && calls[i] is Record {
        DataFrom::RecordMap
    } else {
        DataFrom::LastAnswer
    }
}

/// Where the data of a lookup by `calls` comes from.
pub fn data_from(calls: &Vec<Call>) -> (d: DataFrom)
    ensures
        d == data_source(calls@),
{
    let n = calls.len();
    for i in 0..n
        invariant
            n == calls@.len(),
            forall|j: int| 0 <= j < i ==> !(#[trigger] calls@[j] is Record),
    {
        if let Call::Record(_, _) = &calls[i] {
            return DataFrom::RecordMap;
        }
    }
    DataFrom::LastAnswer
}

/// One member of a JSON object, as far as a source reads it.
#[derive(Debug)]
pub struct Member {
    pub name: String,
    /// The member's value if it is a string.
    pub text: Option<String>,
    /// How many items the member's value holds if it is an array.
    pub items: Option<usize>,
}

/// What a source reads of a JSON answer.
#[derive(Debug)]
pub enum Shape {
    /// An array, by its number of items.
    Array(usize),
    /// An object, by its members in order.
    Object(Vec<Member>),
    /// Any other value.
    Other,
}

/// What came back for one call: the answer's shape, or why there is none.
pub type Reply = Result<Shape, OsintError>;

/// Where a lookup stands between its calls.
#[derive(Clone, Copy, Debug, PartialEq, Eq)]
pub struct Progress {
    /// How many calls have been answered.
    pub answered: usize,
    /// Whether some answer so far held what was looked up.
    pub found: bool,
}

/// What a source decides after an answer: make the next call of its plan, or stop with a verdict.
#[derive(Debug)]
pub enum Step {
    Next(Progress),
    Done(Result<(), OsintError>),
}

impl Progress {
    /// Nothing answered yet.
    pub fn start() -> (p: Progress)
        ensures
            p.answered == 0,
            !p.found,
    {
        Progress { answered: 0, found: false }
    }
}

/// The first member named `key`.
pub open spec fn member(ms: Seq<Member>, key: Seq<char>) -> Option<Member>
    decreases ms.len(),
{
    if ms.len() == 0 {
        None
    } else if ms[0].name@ == key {
        Some(ms[0])
    } else {
        member(ms.drop_first(), key)
    }
}

/// The member named `key` of an object; none for other shapes.
pub open spec fn field(shape: Shape, key: Seq<char>) -> Option<Member> {
    match shape {
        Shape::Object(ms) => member(ms@, key),
        _ => None,
    }
}

/// Where the first member named `key` stands.
pub fn find_member(ms: &Vec<Member>, key: &str) -> (r: Option<usize>)
    ensures
        match r {
            Some(i) => i < ms@.len() && member(ms@, key@) == Some(ms@[i as int]),
            None => member(ms@, key@) is None,
        },
{
    let n = ms.len();
    assert(ms@.skip(0) =~= ms@);
    for i in 0..n
        invariant
            n == ms@.len(),
            member(ms@, key@) == member(ms@.skip(i as int), key@),
    {
        assert(ms@.skip(i as int)[0] == ms@[i as int]);
        assert(ms@.skip(i as int).drop_first() =~= ms@.skip(i + 1));
        if same_text(ms[i].name.as_str(), key) {
            return Some(i);
        }
    }
    assert(ms@.skip(n as int).len() == 0);
    None
}

/// Whether an object answer has a member named `key`.
pub fn has_field(shape: &Shape, key: &str) -> (r: bool)
    ensures
        r == field(*shape, key@) is Some,
{
    match shape {
        Shape::Object(ms) => find_member(ms, key).is_some(),
        _ => false,
    }
}

/// Whether an object answer has a member named `key` whose value is the string `value`.
pub fn field_text_is(shape: &Shape, key: &str, value: &str) -> (r: bool)
    ensures
        r == (field(*shape, key@) matches Some(m) && m.text matches Some(t) && t@ == value@),
{
    match shape {
        Shape::Object(ms) => match find_member(ms, key) {
            Some(i) => match &ms[i].text {
                Some(t) => same_text(t.as_str(), value),
                None => false,
            },
            None => false,
        },
        _ => false,
    }
}

/// Whether the answer is an array with no item.
pub fn is_empty_array(shape: &Shape) -> (r: bool)
    ensures
        r == (*shape matches Shape::Array(n) && n == 0),
{
    match shape {
        Shape::Array(n) => *n == 0,
        _ => false,
    }
}

/// The verdict of a single-call lookup on its reply: the reply's error, or what `settle`
/// made of its answer.
pub open spec fn single_verdict(reply: Reply, settled: Result<(), OsintError>) -> Result<(), OsintError> {
    match reply {
        Err(e) => Err(e),
        Ok(_) => settled,
    }
}

/// A source of public records.
pub trait Source {
    /// A unique name for the source.
    fn name(&self) -> &'static str;

    /// The category of records it serves.
    fn category(&self) -> &'static str;

    /// The kind of query it answers.
    fn kind(&self) -> &'static str;

    /// Whether it needs an access key.
    fn requires_key(&self) -> bool;

    /// A query known to be answered, to tell whether the source is reachable.
    fn probe(&self) -> Option<&'static str>;

    /// The calls to make for `query`, in order, or why the query is refused.
    fn plan(&self, query: &str) -> Result<Vec<Call>, OsintError>;

    /// After the reply to the next call of the plan: go on, or stop with a verdict.
    fn step(&self, progress: Progress, reply: Reply) -> Step;
}

} // verus!
