//! Requests and responses, the decoding of each verb's parameters, and the
//! dispatch of one request against the registry and the store.
use vstd::prelude::*;
use vstd::string::StringExecFns;
use crate::error::VerbError;
use crate::json::{Json, JsonView, member, member_of, read_u64, u64_at};
use crate::registry::{RemoteVerbs, Verb};
use crate::reply::ReplySlot;
use crate::store::{
    Component, EntityView, QueryRow, World, all_present, inserted, first_absent, first_missing, has_all,
    lists_keys, matches_query, pairs, picked, reparented, without,
};
use crate::keyed::to_map;

verus! {

/// The port that the server listens on unless configured otherwise.
pub const DEFAULT_PORT: u16 = 15702;

/// How many requests the mailbox holds before a sender has to wait.
pub const MAILBOX_CAPACITY: usize = 16;

/// The server's settings: the port that it listens on.
pub struct EditorRemotePlugin {
    pub port: u16,
}

impl Default for EditorRemotePlugin {
    fn default() -> (r: EditorRemotePlugin)
        ensures
            r.port == DEFAULT_PORT,
    {
        EditorRemotePlugin { port: DEFAULT_PORT }
    }
}

/// A request as it arrives: the verb name, an id that is echoed back
/// unchanged, and the verb's parameters.
pub struct BrpRequest {
    pub request: String,
    pub id: Json,
    pub params: Json,
}

/// One verb with its decoded parameters.
#[allow(inconsistent_fields)]
pub enum VerbCall {
    Get { entity: u64, components: Vec<String> },
    Query { components: Vec<String>, with: Vec<String>, without: Vec<String> },
    Spawn { components: Vec<Component> },
    Insert { entity: u64, components: Vec<Component> },
    Remove { entity: u64, components: Vec<String> },
    Destroy { entity: u64 },
    Reparent { entities: Vec<u64>, parent: Option<u64> },
    List { entity: u64 },
}

/// The parameters of a call, as plain values.
pub enum CallView {
    Get { entity: u64, components: Seq<Seq<char>> },
    Query { components: Seq<Seq<char>>, with: Seq<Seq<char>>, without: Seq<Seq<char>> },
    Spawn { components: Seq<(Seq<char>, JsonView)> },
    Insert { entity: u64, components: Seq<(Seq<char>, JsonView)> },
    Remove { entity: u64, components: Seq<Seq<char>> },
    Destroy { entity: u64 },
    Reparent { entities: Seq<u64>, parent: Option<u64> },
    List { entity: u64 },
}

/// The texts of a list of strings.
pub open spec fn texts_of(ss: Seq<String>) -> Seq<Seq<char>> {
    ss.map_values(|s: String| s@)
}

impl VerbCall {
    pub open spec fn view(&self) -> CallView {
        match self {
            VerbCall::Get { entity, components } => CallView::Get {
                entity: *entity,
                components: texts_of(components@),
            },
            VerbCall::Query { components, with, without } => CallView::Query {
                components: texts_of(components@),
                with: texts_of(with@),
                without: texts_of(without@),
            },
            VerbCall::Spawn { components } => CallView::Spawn { components: pairs(components@) },
            VerbCall::Insert { entity, components } => CallView::Insert {
                entity: *entity,
                components: pairs(components@),
            },
            VerbCall::Remove { entity, components } => CallView::Remove {
                entity: *entity,
                components: texts_of(components@),
            },
            VerbCall::Destroy { entity } => CallView::Destroy { entity: *entity },
            VerbCall::Reparent { entities, parent } => CallView::Reparent {
                entities: entities@,
                parent: *parent,
            },
            VerbCall::List { entity } => CallView::List { entity: *entity },
        }
    }

    /// The operation that this call performs.
    pub open spec fn verb(&self) -> Verb {
        match self {
            VerbCall::Get { .. } => Verb::Get,
            VerbCall::Query { .. } => Verb::Query,
            VerbCall::Spawn { .. } => Verb::Spawn,
            VerbCall::Insert { .. } => Verb::Insert,
            VerbCall::Remove { .. } => Verb::Remove,
            VerbCall::Destroy { .. } => Verb::Destroy,
            VerbCall::Reparent { .. } => Verb::Reparent,
            VerbCall::List { .. } => Verb::List,
        }
    }
}

/// What a successful verb answers with.
pub enum Output {
    /// The handle of a new object.
    Spawned(u64),
    /// An object's components under the requested paths.
    Components(u64, Vec<Component>),
    /// The objects that matched a query.
    Rows(Vec<QueryRow>),
    /// The component type paths of an object.
    Names(Vec<String>),
    /// The change was made.
    Done,
}

/// A request in the mailbox, with the slot of the sender that its single
/// reply goes through.
pub struct BrpMessage<T> {
    pub request: BrpRequest,
    pub sender: ReplySlot<T>,
}

/// The answer to one request: the request's id and the verb's outcome.
pub struct BrpResponse {
    pub id: Json,
    pub result: Result<Output, VerbError>,
}

/// What running `call` on the store `before` does: `after` is the store
/// afterwards and `r` the answer.
pub open spec fn call_effect(before: World, after: World, call: VerbCall, r: Result<Output, VerbError>) -> bool {
    &&& after.wf()
    &&& after.next_handle() >= before.next_handle()
    &&& r is Err ==> after == before
    &&& match call {
        VerbCall::Get { entity, components } => {
            &&& after == before
            &&& !before@.contains_key(entity) ==> r == Err::<Output, VerbError>(
                VerbError::NoSuchEntity(entity),
            )
            &&& before@.contains_key(entity) ==> match r {
                Ok(Output::Components(e, cs)) => e == entity && has_all(
                    before@[entity].components,
                    components@,
                ) && picked(before@[entity].components, components@, cs@),
                Ok(_) => false,
                Err(err) => exists|i: int|
                    first_missing(before@[entity].components, components@, i) && err
                        == VerbError::NoSuchComponent(entity, components@[i]),
            }
        },
        VerbCall::Query { components, with, without } => {
            &&& after == before
            &&& match r {
                Ok(Output::Rows(rows)) => {
                    &&& forall|i: int|
                        0 <= i < rows@.len() ==> {
                            &&& before@.contains_key((#[trigger] rows@[i]).entity)
                            &&& matches_query(before@[rows@[i].entity], components@, with@, without@)
                            &&& picked(before@[rows@[i].entity].components, components@, rows@[i].components@)
                        }
                    &&& forall|id: u64|
                        before@.contains_key(id) && matches_query(before@[id], components@, with@, without@)
                            ==> exists|i: int| 0 <= i < rows@.len() && (#[trigger] rows@[i]).entity == id
                    &&& forall|i: int, j: int|
                        0 <= i < rows@.len() && 0 <= j < rows@.len() && (#[trigger] rows@[i]).entity == (
                        #[trigger] rows@[j]).entity ==> i == j
                },
                _ => false,
            }
        },
        VerbCall::Spawn { components } => {
            &&& before.next_handle() < u64::MAX ==> {
                &&& r == Ok::<Output, VerbError>(Output::Spawned(before.next_handle()))
                &&& !before@.contains_key(before.next_handle())
                &&& after@ == before@.insert(
                    before.next_handle(),
                    EntityView { parent: None, components: to_map(pairs(components@)) },
                )
                &&& after.next_handle() == before.next_handle() + 1
            }
            &&& before.next_handle() == u64::MAX ==> r == Err::<Output, VerbError>(
                VerbError::HandlesExhausted,
            )
        },
        VerbCall::Insert { entity, components } => {
            &&& before@.contains_key(entity) ==> r == Ok::<Output, VerbError>(Output::Done)
                && after@ == inserted(before@, entity, components@)
            &&& !before@.contains_key(entity) ==> r == Err::<Output, VerbError>(
                VerbError::NoSuchEntity(entity),
            )
        },
        VerbCall::Remove { entity, components } => {
            &&& !before@.contains_key(entity) ==> r == Err::<Output, VerbError>(
                VerbError::NoSuchEntity(entity),
            )
            &&& before@.contains_key(entity) && !has_all(before@[entity].components, components@)
                ==> exists|i: int|
                first_missing(before@[entity].components, components@, i) && r == Err::<
                    Output,
                    VerbError,
                >(VerbError::NoSuchComponent(entity, components@[i]))
            &&& before@.contains_key(entity) && has_all(before@[entity].components, components@)
                ==> r == Ok::<Output, VerbError>(Output::Done) && after@ == before@.insert(
                entity,
                EntityView {
                    parent: before@[entity].parent,
                    components: without(before@[entity].components, components@),
                },
            )
        },
        VerbCall::Destroy { entity } => {
            &&& before@.contains_key(entity) ==> r == Ok::<Output, VerbError>(Output::Done)
                && after@ == before@.remove(entity)
            &&& !before@.contains_key(entity) ==> r == Err::<Output, VerbError>(
                VerbError::NoSuchEntity(entity),
            )
        },
        VerbCall::Reparent { entities, parent } => {
            &&& match parent {
                Some(p) => !before@.contains_key(p),
                None => false,
            } ==> r == Err::<Output, VerbError>(VerbError::NoSuchEntity(parent->0))
            &&& match parent {
                Some(p) => before@.contains_key(p),
                None => true,
            } ==> {
                &&& !all_present(before@, entities@) ==> exists|i: int|
                    first_absent(before@, entities@, i) && r == Err::<Output, VerbError>(
                        VerbError::NoSuchEntity(entities@[i]),
                    )
                &&& all_present(before@, entities@) ==> r == Ok::<Output, VerbError>(Output::Done)
                    && after@ == reparented(before@, entities@, parent)
            }
        },
        VerbCall::List { entity } => {
            &&& after == before
            &&& !before@.contains_key(entity) ==> r == Err::<Output, VerbError>(
                VerbError::NoSuchEntity(entity),
            )
            &&& before@.contains_key(entity) ==> match r {
                Ok(Output::Names(names)) => lists_keys(before@[entity].components, names@),
                _ => false,
            }
        },
    }
}

impl World {
    /// Runs one decoded verb against the store.
    pub fn execute(&mut self, call: VerbCall) -> (r: Result<Output, VerbError>)
        requires
            old(self).wf(),
        ensures
            call_effect(*old(self), *final(self), call, r),
    {
        match call {
            VerbCall::Get { entity, components } => match self.get(entity, &components) {
                Ok(cs) => Ok(Output::Components(entity, cs)),
                Err(e) => Err(e),
            },
            VerbCall::Query { components, with, without } => Ok(
                Output::Rows(self.query(&components, &with, &without)),
            ),
            VerbCall::Spawn { components } => match self.spawn(&components) {
                Ok(id) => Ok(Output::Spawned(id)),
                Err(e) => Err(e),
            },
            VerbCall::Insert { entity, components } => match self.insert(entity, &components) {
                Ok(()) => Ok(Output::Done),
                Err(e) => Err(e),
            },
            VerbCall::Remove { entity, components } => match self.remove(entity, &components) {
                Ok(()) => Ok(Output::Done),
                Err(e) => Err(e),
            },
            VerbCall::Destroy { entity } => match self.destroy(entity) {
                Ok(()) => Ok(Output::Done),
                Err(e) => Err(e),
            },
            VerbCall::Reparent { entities, parent } => match self.reparent(&entities, parent) {
                Ok(()) => Ok(Output::Done),
                Err(e) => Err(e),
            },
            VerbCall::List { entity } => match self.list(entity) {
                Ok(names) => Ok(Output::Names(names)),
                Err(e) => Err(e),
            },
        }
    }
}

/// `e` reports the field `f` as missing or malformed.
pub open spec fn invalid_field(e: VerbError, f: Seq<char>) -> bool {
    e is InvalidParams && e->InvalidParams_0@ == f
}

/// The member `f` of `p` read as a list of strings; when `optional`, a
/// missing member reads as an empty list.
pub open spec fn strings_at(p: Json, f: Seq<char>, optional: bool) -> Option<Seq<Seq<char>>> {
    match member_of(p, f) {
        None => if optional {
            Some(Seq::empty())
        } else {
            None
        },
        Some(Json::Array(items)) => if forall|i: int|
            0 <= i < items@.len() ==> (#[trigger] items@[i]) is Str {
            Some(items@.map_values(|j: Json| j->Str_0@))
        } else {
            None
        },
        _ => None,
    }
}

/// The member `f` of `p` read as a list of handles.
pub open spec fn handles_at(p: Json, f: Seq<char>) -> Option<Seq<u64>> {
    match member_of(p, f) {
        Some(Json::Array(items)) => if forall|i: int|
            0 <= i < items@.len() ==> (#[trigger] items@[i]) is UInt {
            Some(items@.map_values(|j: Json| j->UInt_0))
        } else {
            None
        },
        _ => None,
    }
}

/// The member `f` of `p` read as components: each member of the object is a
/// type path and its value.
pub open spec fn members_at(p: Json, f: Seq<char>) -> Option<Seq<(Seq<char>, JsonView)>> {
    match member_of(p, f) {
        Some(Json::Object(members)) => Some(members@.map_values(|m: (String, Json)| (m.0@, m.1@))),
        _ => None,
    }
}

/// The member `f` of `p` read as an optional handle: missing or null is none.
pub open spec fn parent_at(p: Json, f: Seq<char>) -> Option<Option<u64>> {
    match member_of(p, f) {
        None => Some(None),
        Some(Json::Null) => Some(None),
        Some(Json::UInt(n)) => Some(Some(n)),
        _ => None,
    }
}

/// The parameters of `verb` read out of `p`, or the first field that is
/// missing or malformed.
pub open spec fn decoded(verb: Verb, p: Json) -> Result<CallView, Seq<char>> {
    match verb {
        Verb::Get => match u64_at(p, "entity"@) {
            None => Err("entity"@),
            Some(entity) => match strings_at(p, "components"@, false) {
                None => Err("components"@),
                Some(components) => Ok(CallView::Get { entity, components }),
            },
        },
        Verb::Query => match member_of(p, "data"@) {
            None => Err("data"@),
            Some(data) => match strings_at(data, "components"@, true) {
                None => Err("components"@),
                Some(components) => match member_of(p, "filter"@) {
                    None => Ok(
                        CallView::Query { components, with: Seq::empty(), without: Seq::empty() },
                    ),
                    Some(filter) => match strings_at(filter, "with"@, true) {
                        None => Err("with"@),
                        Some(with) => match strings_at(filter, "without"@, true) {
                            None => Err("without"@),
                            Some(without) => Ok(CallView::Query { components, with, without }),
                        },
                    },
                },
            },
        },
        Verb::Spawn => match members_at(p, "components"@) {
            None => Err("components"@),
            Some(components) => Ok(CallView::Spawn { components }),
        },
        Verb::Insert => match u64_at(p, "entity"@) {
            None => Err("entity"@),
            Some(entity) => match members_at(p, "components"@) {
                None => Err("components"@),
                Some(components) => Ok(CallView::Insert { entity, components }),
            },
        },
        Verb::Remove => match u64_at(p, "entity"@) {
            None => Err("entity"@),
            Some(entity) => match strings_at(p, "components"@, false) {
                None => Err("components"@),
                Some(components) => Ok(CallView::Remove { entity, components }),
            },
        },
        Verb::Destroy => match u64_at(p, "entity"@) {
            None => Err("entity"@),
            Some(entity) => Ok(CallView::Destroy { entity }),
        },
        Verb::Reparent => match handles_at(p, "entities"@) {
            None => Err("entities"@),
            Some(entities) => match parent_at(p, "parent"@) {
                None => Err("parent"@),
                Some(parent) => Ok(CallView::Reparent { entities, parent }),
            },
        },
        Verb::List => match u64_at(p, "entity"@) {
            None => Err("entity"@),
            Some(entity) => Ok(CallView::List { entity }),
        },
    }
}

/// The error for a missing or malformed field.
fn invalid(field: &str) -> (r: VerbError)
    ensures
        invalid_field(r, field@),
{
    VerbError::InvalidParams(String::from_str(field))
}

/// The non-negative integer under `field`.
fn field_u64(params: &Json, field: &str) -> (r: Result<u64, VerbError>)
    ensures
        match u64_at(*params, field@) {
            Some(n) => r == Ok::<u64, VerbError>(n),
            None => r is Err && invalid_field(r->Err_0, field@),
        },
{
    match read_u64(params, field) {
        Some(n) => Ok(n),
        None => Err(invalid(field)),
    }
}

/// The list of strings under `field`; when `optional`, a missing field
/// reads as an empty list.
fn field_strings(params: &Json, field: &str, optional: bool) -> (r: Result<Vec<String>, VerbError>)
    ensures
        match strings_at(*params, field@, optional) {
            Some(ss) => r is Ok && texts_of(r->Ok_0@) == ss,
            None => r is Err && invalid_field(r->Err_0, field@),
        },
{
    match member(params, field) {
        None => {
            if optional {
                let out: Vec<String> = Vec::new();
                assert(texts_of(out@) =~= Seq::<Seq<char>>::empty());
                Ok(out)
            } else {
                Err(invalid(field))
            }
        },
        Some(Json::Array(items)) => {
            let mut out: Vec<String> = Vec::new();
            let mut i: usize = 0;
            while i < items.len()
                invariant
                    i <= items@.len(),
                    member_of(*params, field@) == Some(Json::Array(*items)),
                    out@.len() == i,
                    forall|k: int|
                        0 <= k < i ==> (#[trigger] items@[k]) is Str && out@[k]@
                            == items@[k]->Str_0@,
                decreases items@.len() - i,
            {
                match &items[i] {
                    Json::Str(text) => out.push(text.clone()),
                    _ => return Err(invalid(field)),
                }
                i = i + 1;
            }
            assert(texts_of(out@) =~= items@.map_values(|j: Json| j->Str_0@));
            Ok(out)
        },
        Some(_) => Err(invalid(field)),
    }
}

/// The list of handles under `field`.
fn field_handles(params: &Json, field: &str) -> (r: Result<Vec<u64>, VerbError>)
    ensures
        match handles_at(*params, field@) {
            Some(hs) => r is Ok && r->Ok_0@ == hs,
            None => r is Err && invalid_field(r->Err_0, field@),
        },
{
    match member(params, field) {
        Some(Json::Array(items)) => {
            let mut out: Vec<u64> = Vec::new();
            let mut i: usize = 0;
            while i < items.len()
                invariant
                    i <= items@.len(),
                    member_of(*params, field@) == Some(Json::Array(*items)),
                    out@.len() == i,
                    forall|k: int|
                        0 <= k < i ==> (#[trigger] items@[k]) is UInt && out@[k]
                            == items@[k]->UInt_0,
                decreases items@.len() - i,
            {
                match &items[i] {
                    Json::UInt(n) => out.push(*n),
                    _ => return Err(invalid(field)),
                }
                i = i + 1;
            }
            assert(out@ =~= items@.map_values(|j: Json| j->UInt_0));
            Ok(out)
        },
        _ => Err(invalid(field)),
    }
}

/// The object under `field`, read as components: each member's name is a
/// type path and its value the component's value.
fn field_components(params: &Json, field: &str) -> (r: Result<Vec<Component>, VerbError>)
    ensures
        match members_at(*params, field@) {
            Some(ms) => r is Ok && pairs(r->Ok_0@) == ms,
            None => r is Err && invalid_field(r->Err_0, field@),
        },
{
    match member(params, field) {
        Some(Json::Object(members)) => {
            let mut out: Vec<Component> = Vec::new();
            let mut i: usize = 0;
            while i < members.len()
                invariant
                    i <= members@.len(),
                    out@.len() == i,
                    forall|k: int|
                        0 <= k < i ==> (#[trigger] out@[k]).path@ == members@[k].0@
                            && out@[k].value@ == members@[k].1@,
                decreases members@.len() - i,
            {
                out.push(Component { path: members[i].0.clone(), value: members[i].1.duplicate() });
                i = i + 1;
            }
            assert(pairs(out@) =~= members@.map_values(|m: (String, Json)| (m.0@, m.1@)));
            Ok(out)
        },
        _ => Err(invalid(field)),
    }
}

/// The optional handle under `field`: missing or null reads as none.
fn field_parent(params: &Json, field: &str) -> (r: Result<Option<u64>, VerbError>)
    ensures
        match parent_at(*params, field@) {
            Some(p) => r == Ok::<Option<u64>, VerbError>(p),
            None => r is Err && invalid_field(r->Err_0, field@),
        },
{
    match member(params, field) {
        None => Ok(None),
        Some(Json::Null) => Ok(None),
        Some(Json::UInt(n)) => Ok(Some(*n)),
        Some(_) => Err(invalid(field)),
    }
}

/// Reads the parameters of `verb` out of `params`.
pub fn decode(verb: Verb, params: &Json) -> (r: Result<VerbCall, VerbError>)
    ensures
        match r {
            Ok(call) => decoded(verb, *params) == Ok::<CallView, Seq<char>>(call.view()),
            Err(e) => decoded(verb, *params) is Err && invalid_field(
                e,
                decoded(verb, *params)->Err_0,
            ),
        },
{
    proof {
        reveal_strlit("entity");
        reveal_strlit("components");
        reveal_strlit("data");
        reveal_strlit("filter");
        reveal_strlit("with");
        reveal_strlit("without");
        reveal_strlit("entities");
        reveal_strlit("parent");
    }
    match verb {
        Verb::Get => {
            let entity = match field_u64(params, "entity") {
                Ok(n) => n,
                Err(e) => return Err(e),
            };
            let components = match field_strings(params, "components", false) {
                Ok(c) => c,
                Err(e) => return Err(e),
            };
            Ok(VerbCall::Get { entity, components })
        },
        Verb::Query => {
            let data = match member(params, "data") {
                Some(d) => d,
                None => return Err(invalid("data")),
            };
            let components = match field_strings(data, "components", true) {
                Ok(c) => c,
                Err(e) => return Err(e),
            };
            match member(params, "filter") {
                None => {
                    let with: Vec<String> = Vec::new();
                    let without: Vec<String> = Vec::new();
                    assert(texts_of(with@) =~= Seq::<Seq<char>>::empty());
                    assert(texts_of(without@) =~= Seq::<Seq<char>>::empty());
                    Ok(VerbCall::Query { components, with, without })
                },
                Some(filter) => {
                    let with = match field_strings(filter, "with", true) {
                        Ok(c) => c,
                        Err(e) => return Err(e),
                    };
                    let without = match field_strings(filter, "without", true) {
                        Ok(c) => c,
                        Err(e) => return Err(e),
                    };
                    Ok(VerbCall::Query { components, with, without })
                },
            }
        },
        Verb::Spawn => match field_components(params, "components") {
            Ok(components) => Ok(VerbCall::Spawn { components }),
            Err(e) => Err(e),
        },
        Verb::Insert => {
            let entity = match field_u64(params, "entity") {
                Ok(n) => n,
                Err(e) => return Err(e),
            };
            match field_components(params, "components") {
                Ok(components) => Ok(VerbCall::Insert { entity, components }),
                Err(e) => Err(e),
            }
        },
        Verb::Remove => {
            let entity = match field_u64(params, "entity") {
                Ok(n) => n,
                Err(e) => return Err(e),
            };
            match field_strings(params, "components", false) {
                Ok(components) => Ok(VerbCall::Remove { entity, components }),
                Err(e) => Err(e),
            }
        },
        Verb::Destroy => match field_u64(params, "entity") {
            Ok(entity) => Ok(VerbCall::Destroy { entity }),
            Err(e) => Err(e),
        },
        Verb::Reparent => {
            let entities = match field_handles(params, "entities") {
                Ok(h) => h,
                Err(e) => return Err(e),
            };
            match field_parent(params, "parent") {
                Ok(parent) => Ok(VerbCall::Reparent { entities, parent }),
                Err(e) => Err(e),
            }
        },
        Verb::List => match field_u64(params, "entity") {
            Ok(entity) => Ok(VerbCall::List { entity }),
            Err(e) => Err(e),
        },
    }
}

/// What answering `request` does: `after` is the store afterwards and `r`
/// the response. The response echoes the request's id. An unknown verb is
/// an error that leaves the store alone. For a known verb, parameters that
/// do not decode give an error naming the first bad field and change
/// nothing; decoded ones run on the store.
pub open spec fn handled(
    verbs: RemoteVerbs,
    before: World,
    after: World,
    request: BrpRequest,
    r: BrpResponse,
) -> bool {
    &&& after.wf()
    &&& r.id == request.id
    &&& !verbs@.contains_key(request.request@) ==> r.result == Err::<Output, VerbError>(
        VerbError::UnknownVerb(request.request),
    ) && after == before
    &&& verbs@.contains_key(request.request@) ==> match decoded(
        verbs@[request.request@],
        request.params,
    ) {
        Ok(view) => exists|call: VerbCall|
            call.view() == view && call_effect(before, after, call, r.result),
        Err(field) => r.result is Err && invalid_field(r.result->Err_0, field) && after == before,
    }
}

/// Answers one request: looks its verb up by exact name, decodes the
/// parameters, runs the verb on the store, and echoes the request's id.
pub fn handle(verbs: &RemoteVerbs, world: &mut World, request: BrpRequest) -> (r: BrpResponse)
    requires
        verbs.wf(),
        old(world).wf(),
    ensures
        handled(*verbs, *old(world), *final(world), request, r),
{
    let BrpRequest { request: name, id, params } = request;
    let result = match verbs.get(&name) {
        None => Err(VerbError::UnknownVerb(name)),
        Some(verb) => match decode(verb, &params) {
            Err(e) => Err(e),
            Ok(call) => {
                let ghost c = call;
                let out = world.execute(call);
                proof {
                    assert(c.view() == decoded(verbs@[request.request@], request.params)->Ok_0);
                }
                out
            },
        },
    };
    BrpResponse { id, result }
}

/// Serves one message from the mailbox: takes its reply sender and, if it
/// was still there, answers the request and hands back the sender with the
/// response. A message whose sender was already taken is skipped and changes
/// nothing.
pub fn process_message<T>(
    verbs: &RemoteVerbs,
    world: &mut World,
    message: BrpMessage<T>,
) -> (r: Option<(T, BrpResponse)>)
    requires
        verbs.wf(),
        old(world).wf(),
    ensures
        final(world).wf(),
        message.sender@ is None ==> r is None && *final(world) == *old(world),
        message.sender@ is Some ==> r is Some && r->Some_0.0 == message.sender@->Some_0
            && handled(*verbs, *old(world), *final(world), message.request, r->Some_0.1),
{
    let BrpMessage { request, mut sender } = message;
    match sender.take() {
        None => None,
        Some(reply) => Some((reply, handle(verbs, world, request))),
    }
}

impl BrpResponse {
    /// Whether the response reports success (status `OK`) rather than an
    /// error (status `ERROR`).
    pub fn is_ok(&self) -> (r: bool)
        ensures
            r == self.result is Ok,
    {
        self.result.is_ok()
    }
}

} // verus!
