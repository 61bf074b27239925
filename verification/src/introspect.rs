//! Read-only OSC queries: the names of the parameters, the state of one
//! parameter, and the address shapes that are understood. The answer is
//! put together here; sending it is the caller's.

use vstd::prelude::*;
use vstd::string::*;
use crate::params::Sample;
use crate::store::ParamStore;
use crate::text::{concat_str, spec_ascending, spec_strip_prefix, str_eq, strip_prefix, views};

verus! {

/// A query.
pub enum Query {
    /// The names of all parameters.
    ListParams,
    /// The state of the parameter of this name.
    Get(String),
    /// The address shapes that are understood.
    ListMappings,
}

/// The kind of a query.
#[derive(Clone, Copy, PartialEq, Eq, Structural, Debug)]
pub enum QueryKind {
    ListParams,
    Get,
    ListMappings,
}

/// The query an address stands for, if it stands for one: behind the
/// prefix, `/list/params` or `/list`; `/get/` and a name; `/list/mappings`
/// or `/mappings`.
pub open spec fn spec_query(prefix: Seq<char>, addr: Seq<char>) -> Option<QueryKind> {
    if addr == prefix + "/list/params"@ || addr == prefix + "/list"@ {
        Some(QueryKind::ListParams)
    } else if spec_strip_prefix(addr, prefix + "/get/"@) is Some {
        Some(QueryKind::Get)
    } else if addr == prefix + "/list/mappings"@ || addr == prefix + "/mappings"@ {
        Some(QueryKind::ListMappings)
    } else {
        None
    }
}

/// Reads an address as a query.
pub fn parse_query(prefix: &str, addr: &str) -> (r: Option<Query>)
    ensures
        match r {
            Some(Query::ListParams) => spec_query(prefix@, addr@) == Some(QueryKind::ListParams),
            Some(Query::Get(name)) => spec_query(prefix@, addr@) == Some(QueryKind::Get) && Some(name@)
                == spec_strip_prefix(addr@, prefix@ + "/get/"@),
            Some(Query::ListMappings) => spec_query(prefix@, addr@) == Some(QueryKind::ListMappings),
            None => spec_query(prefix@, addr@) is None,
        },
{
    let list_params = concat_str(prefix, "/list/params");
    let list = concat_str(prefix, "/list");
    if str_eq(addr, list_params.as_str()) || str_eq(addr, list.as_str()) {
        return Some(Query::ListParams);
    }
    let get = concat_str(prefix, "/get/");
    if let Some(name) = strip_prefix(addr, get.as_str()) {
        return Some(Query::Get(name));
    }
    let list_mappings = concat_str(prefix, "/list/mappings");
    let mappings = concat_str(prefix, "/mappings");
    if str_eq(addr, list_mappings.as_str()) || str_eq(addr, mappings.as_str()) {
        return Some(Query::ListMappings);
    }
    None
}

/// One argument of an answer.
pub enum ReplyArg {
    Text(String),
    Number(Sample),
}

/// An answer: the address it goes to and its arguments.
pub struct Reply {
    pub addr: String,
    pub args: Vec<ReplyArg>,
}

/// The state of a parameter as the arguments of an answer: value, target,
/// lower and upper end of the range, smoothing.
pub open spec fn spec_state_args(store: ParamStore, name: Seq<char>) -> Seq<Sample> {
    seq![
        store@.values[name],
        store@.targets[name],
        store@.ranges[name].0,
        store@.ranges[name].1,
        store@.smoothing[name],
    ]
}

/// Whether the store knows all of a parameter's state.
pub open spec fn spec_known(store: ParamStore, name: Seq<char>) -> bool {
    &&& store@.values.contains_key(name)
    &&& store@.targets.contains_key(name)
    &&& store@.ranges.contains_key(name)
    &&& store@.smoothing.contains_key(name)
}

/// The numbers among the arguments, where all arguments are numbers.
pub open spec fn spec_numbers(args: Seq<ReplyArg>) -> Option<Seq<Sample>> {
    if forall|i: int| 0 <= i < args.len() ==> args[i] is Number {
        Some(Seq::new(args.len(), |i: int| args[i]->Number_0))
    } else {
        None
    }
}

/// The texts among the arguments, where all arguments are texts.
pub open spec fn spec_texts(args: Seq<ReplyArg>) -> Option<Seq<Seq<char>>> {
    if forall|i: int| 0 <= i < args.len() ==> args[i] is Text {
        Some(Seq::new(args.len(), |i: int| args[i]->Text_0@))
    } else {
        None
    }
}

/// The address shapes that are understood, in words.
pub open spec fn spec_mapping_lines(prefix: Seq<char>) -> Seq<Seq<char>> {
    seq![
        "prefix="@ + prefix,
        prefix + "/param/<name> (normalized 0..1)"@,
        prefix + "/raw/<name> (raw value)"@,
        prefix + "/list/params"@,
        prefix + "/get/<name>"@,
    ]
}

/// Answers the list of parameter names: all names, ascending.
pub fn reply_list_params(prefix: &str, store: &ParamStore) -> (r: Reply)
    requires
        store.wf(),
    ensures
        r.addr@ == prefix@ + "/reply/list/params"@,
        spec_texts(r.args@) == Some(spec_ascending(store@.values.dom())),
{
    let names = store.sorted_names();
    let mut args: Vec<ReplyArg> = Vec::new();
    let mut i: usize = 0;
    while i < names.len()
        invariant
            i <= names.len(),
            args@.len() == i,
            forall|j: int| 0 <= j < i ==> (#[trigger] args@[j]) is Text && args@[j]->Text_0@ == names@[j]@,
        decreases names.len() - i,
    {
        args.push(ReplyArg::Text(names[i].clone()));
        i += 1;
    }
    proof {
        let texts = Seq::new(args@.len(), |i: int| args@[i]->Text_0@);
        assert(texts =~= views(names@));
    }
    Reply { addr: concat_str(prefix, "/reply/list/params"), args }
}

/// Answers the state of one parameter: its value, target, range and
/// smoothing, or the word `unknown_param` when any of them is missing.
pub fn reply_get(prefix: &str, name: &str, store: &ParamStore) -> (r: Reply)
    requires
        store.wf(),
    ensures
        r.addr@ == prefix@ + "/reply/get/"@ + name@,
        spec_known(*store, name@) ==> spec_numbers(r.args@) == Some(spec_state_args(*store, name@)),
        !spec_known(*store, name@) ==> spec_texts(r.args@) == Some(seq!["unknown_param"@]),
{
    let head = concat_str(prefix, "/reply/get/");
    let addr = concat_str(head.as_str(), name);
    let mut args: Vec<ReplyArg> = Vec::new();
    match (store.value(name), store.target(name), store.range(name), store.smoothing(name)) {
        (Some(cur), Some(tgt), Some(range), Some(sm)) => {
            args.push(ReplyArg::Number(cur));
            args.push(ReplyArg::Number(tgt));
            args.push(ReplyArg::Number(range.0));
            args.push(ReplyArg::Number(range.1));
            args.push(ReplyArg::Number(sm));
            proof {
                let numbers = Seq::new(args@.len(), |i: int| args@[i]->Number_0);
                assert(numbers =~= spec_state_args(*store, name@));
            }
        },
        _ => {
            args.push(ReplyArg::Text(String::from_str("unknown_param")));
            proof {
                let texts = Seq::new(args@.len(), |i: int| args@[i]->Text_0@);
                assert(texts =~= seq!["unknown_param"@]);
            }
        },
    }
    Reply { addr, args }
}

/// Answers the address shapes that are understood.
pub fn reply_list_mappings(prefix: &str) -> (r: Reply)
    ensures
        r.addr@ == prefix@ + "/reply/list/mappings"@,
        spec_texts(r.args@) == Some(spec_mapping_lines(prefix@)),
{
    let mut args: Vec<ReplyArg> = Vec::new();
    args.push(ReplyArg::Text(concat_str("prefix=", prefix)));
    args.push(ReplyArg::Text(concat_str(prefix, "/param/<name> (normalized 0..1)")));
    args.push(ReplyArg::Text(concat_str(prefix, "/raw/<name> (raw value)")));
    args.push(ReplyArg::Text(concat_str(prefix, "/list/params")));
    args.push(ReplyArg::Text(concat_str(prefix, "/get/<name>")));
    proof {
        let texts = Seq::new(args@.len(), |i: int| args@[i]->Text_0@);
        assert(texts =~= spec_mapping_lines(prefix@));
    }
    Reply { addr: concat_str(prefix, "/reply/list/mappings"), args }
}

/// Whether `reply` answers the query that `addr` stands for.
pub open spec fn spec_answers(prefix: Seq<char>, addr: Seq<char>, store: ParamStore, reply: Reply) -> bool {
    match spec_query(prefix, addr) {
        Some(QueryKind::ListParams) => {
            &&& reply.addr@ == prefix + "/reply/list/params"@
            &&& spec_texts(reply.args@) == Some(spec_ascending(store@.values.dom()))
        },
        Some(QueryKind::Get) => {
            let name = spec_strip_prefix(addr, prefix + "/get/"@)->0;
            &&& reply.addr@ == prefix + "/reply/get/"@ + name
            &&& spec_known(store, name) ==> spec_numbers(reply.args@) == Some(spec_state_args(store, name))
            &&& !spec_known(store, name) ==> spec_texts(reply.args@) == Some(seq!["unknown_param"@])
        },
        Some(QueryKind::ListMappings) => {
            &&& reply.addr@ == prefix + "/reply/list/mappings"@
            &&& spec_texts(reply.args@) == Some(spec_mapping_lines(prefix))
        },
        None => false,
    }
}

/// Takes an address as a query and answers it. Returns `None` when the
/// address is no query, in which case the message is for the store.
pub fn osc_try_introspect(prefix: &str, addr: &str, store: &ParamStore) -> (r: Option<Reply>)
    requires
        store.wf(),
    ensures
        match r {
            Some(reply) => spec_answers(prefix@, addr@, *store, reply),
            None => spec_query(prefix@, addr@) is None,
        },
{
    match parse_query(prefix, addr) {
        Some(Query::ListParams) => Some(reply_list_params(prefix, store)),
        Some(Query::Get(name)) => Some(reply_get(prefix, name.as_str(), store)),
        Some(Query::ListMappings) => Some(reply_list_mappings(prefix)),
        None => None,
    }
}

} // verus!
