//! The structured values that stored documents expose to the filter
//! language, mirroring their stored shape field by field.

use crate::crate_doc::{CrateDoc, CrateDocView};
use crate::doc_id::{DocId, HasDocId, placeholder_key};
use crate::filter::obj_get;
use crate::include_tree::{IncludeTreeView, SceneFileView, SceneIncludeTree, SceneFile};
use crate::memory_collection::DocRecord;
use crate::replication::ReplicationView;
use crate::scene_app::{BevyBinaryView, SceneApp, SceneAppView, BevyBinary};
use crate::scene_doc::{SceneDoc, SceneDocView, SceneThumb, SceneThumbView};
use crate::scene_id::SceneIdView;
use crate::crate_id::CrateIdView;
use crate::text::texts_of;
use crate::value::{Value, ValueView, entry_views, value_views};
use crate::version::version_chars;
use vstd::prelude::*;

verus! {

/// The value of an optional text: the text, or an explicit null.
pub open spec fn opt_text_value(o: Option<Seq<char>>) -> ValueView {
    match o {
        Some(t) => ValueView::Text(t),
        None => ValueView::Null,
    }
}

/// The value of a package identity.
pub open spec fn crate_id_value(c: CrateIdView) -> ValueView {
    ValueView::Obj(
        seq![
            ("name"@, ValueView::Text(c.name)),
            ("version"@, ValueView::Text(version_chars(c.version))),
        ],
    )
}

/// The value of a scene identity.
pub open spec fn scene_id_value(s: SceneIdView) -> ValueView {
    ValueView::Obj(
        seq![
            ("crate_id"@, crate_id_value(s.crate_id)),
            ("scene_name"@, ValueView::Text(s.scene_name)),
        ],
    )
}

/// The value of a scene file reference.
pub open spec fn scene_file_value(f: SceneFileView) -> ValueView {
    match f {
        SceneFileView::Json(path) => ValueView::Obj(
            seq![("kind"@, ValueView::Text("json"@)), ("path"@, ValueView::Text(path))],
        ),
        SceneFileView::Ron(path) => ValueView::Obj(
            seq![("kind"@, ValueView::Text("ron"@)), ("path"@, ValueView::Text(path))],
        ),
        SceneFileView::Bsn(path) => ValueView::Obj(
            seq![("kind"@, ValueView::Text("bsn"@)), ("path"@, ValueView::Text(path))],
        ),
        SceneFileView::InlineJson(json) => ValueView::Obj(
            seq![("kind"@, ValueView::Text("inline_json"@)), ("json"@, ValueView::Text(json))],
        ),
    }
}

/// The values of a node list.
pub open spec fn tree_values(children: Seq<IncludeTreeView>) -> Seq<ValueView>
    decreases children,
{
    Seq::new(
        children.len(),
        |i: int|
            if 0 <= i < children.len() {
                tree_value(children[i])
            } else {
                arbitrary()
            },
    )
}

/// The value of an include tree node.
pub open spec fn tree_value(t: IncludeTreeView) -> ValueView
    decreases t,
{
    ValueView::Obj(
        seq![
            ("file"@, scene_file_value(t.file)),
            ("scene_id"@, scene_id_value(t.scene_id)),
            ("children"@, ValueView::Arr(tree_values(t.children))),
        ],
    )
}

/// The value of a thumbnail.
pub open spec fn thumb_value(t: SceneThumbView) -> ValueView {
    match t {
        SceneThumbView::Url(url) => ValueView::Obj(
            seq![("kind"@, ValueView::Text("url"@)), ("url"@, ValueView::Text(url))],
        ),
        SceneThumbView::Text(text) => ValueView::Obj(
            seq![("kind"@, ValueView::Text("text"@)), ("text"@, ValueView::Text(text))],
        ),
    }
}

/// The value of a resolved app.
pub open spec fn app_value(a: SceneAppView) -> ValueView {
    match a.binary {
        BevyBinaryView::Wasm { scene_id, js_url, wasm_url, canvas_id } => ValueView::Obj(
            seq![
                (
                    "binary"@,
                    ValueView::Obj(
                        seq![
                            ("kind"@, ValueView::Text("wasm"@)),
                            ("scene_id"@, scene_id_value(scene_id)),
                            ("js_url"@, ValueView::Text(js_url)),
                            ("wasm_url"@, ValueView::Text(wasm_url)),
                            ("canvas_id"@, opt_text_value(canvas_id)),
                        ],
                    ),
                ),
                ("replication_registry_url"@, opt_text_value(a.replication_registry_url)),
                ("type_registry_url"@, opt_text_value(a.type_registry_url)),
            ],
        ),
    }
}

/// The value of an event list: each event name mapped to its flag or an
/// explicit null.
pub open spec fn events_value(events: Seq<(Seq<char>, Option<bool>)>) -> ValueView {
    ValueView::Obj(
        events.map_values(
            |e: (Seq<char>, Option<bool>)|
                (
                    e.0,
                    match e.1 {
                        Some(b) => ValueView::Bool(b),
                        None => ValueView::Null,
                    },
                ),
        ),
    )
}

/// The value of a replication configuration.
pub open spec fn replication_value(r: ReplicationView) -> ValueView {
    ValueView::Obj(
        seq![
            ("send_events"@, events_value(r.send_events)),
            ("recv_events"@, events_value(r.recv_events)),
        ],
    )
}

/// The value of a scene document, field by field in stored order.
pub open spec fn scene_doc_value(d: SceneDocView) -> ValueView {
    ValueView::Obj(
        seq![
            ("_id"@, ValueView::Text(d.key)),
            ("scene_id"@, scene_id_value(d.scene_id)),
            ("description"@, ValueView::Text(d.description)),
            ("created_ms"@, ValueView::Int(d.created_ms as i64)),
            ("thumbnail"@, thumb_value(d.thumbnail)),
            ("scene_include_tree"@, tree_value(d.tree)),
            (
                "app"@,
                match d.app {
                    Some(a) => app_value(a),
                    None => ValueView::Null,
                },
            ),
            ("repository"@, opt_text_value(d.repository)),
            ("is_latest"@, ValueView::Bool(d.is_latest)),
            ("replication_config"@, replication_value(d.replication)),
        ],
    )
}

/// The value of a package document, field by field in stored order.
pub open spec fn crate_doc_value(d: CrateDocView) -> ValueView {
    ValueView::Obj(
        seq![
            ("_id"@, ValueView::Text(d.key)),
            ("crate_id"@, crate_id_value(d.crate_id)),
            ("readme"@, ValueView::Text(d.readme)),
            ("repository"@, opt_text_value(d.repository)),
            ("description"@, opt_text_value(d.description)),
            ("keywords"@, ValueView::Arr(d.keywords.map_values(|t: Seq<char>| ValueView::Text(t)))),
            ("authors"@, ValueView::Arr(d.authors.map_values(|t: Seq<char>| ValueView::Text(t)))),
        ],
    )
}

/// Build the value of an optional text.
fn opt_text_to_value(o: &Option<String>) -> (r: Value)
    ensures
        r@ == opt_text_value(crate::text::opt_chars(*o)),
{
    match o {
        Some(t) => Value::Text(t.clone()),
        None => Value::Null,
    }
}

/// Build a two-entry object.
fn obj2(k0: &str, v0: Value, k1: &str, v1: Value) -> (r: Value)
    ensures
        r@ == ValueView::Obj(seq![(k0@, v0@), (k1@, v1@)]),
{
    let ghost g0 = v0@;
    let ghost g1 = v1@;
    let mut entries: Vec<(String, Value)> = Vec::new();
    entries.push((k0.to_owned(), v0));
    entries.push((k1.to_owned(), v1));
    let r = Value::Obj(entries);
    proof {
        assert(r@->Obj_0 =~= seq![(k0@, g0), (k1@, g1)]);
    }
    r
}

/// Build the value of a package identity.
fn crate_id_to_value(c: &crate::crate_id::CrateId) -> (r: Value)
    ensures
        r@ == crate_id_value(c@),
{
    let vtext = c.version.to_text();
    obj2("name", Value::Text(c.name.clone()), "version", Value::Text(vtext))
}

/// Build the value of a scene identity.
fn scene_id_to_value(s: &crate::scene_id::SceneId) -> (r: Value)
    ensures
        r@ == scene_id_value(s@),
{
    obj2(
        "crate_id",
        crate_id_to_value(&s.crate_id),
        "scene_name",
        Value::Text(s.scene_name.clone()),
    )
}

/// Build the value of a scene file reference.
fn scene_file_to_value(f: &SceneFile) -> (r: Value)
    ensures
        r@ == scene_file_value(f@),
{
    match f {
        SceneFile::Json { path } => obj2(
            "kind",
            Value::Text("json".to_owned()),
            "path",
            Value::Text(path.clone()),
        ),
        SceneFile::Ron { path } => obj2(
            "kind",
            Value::Text("ron".to_owned()),
            "path",
            Value::Text(path.clone()),
        ),
        SceneFile::Bsn { path } => obj2(
            "kind",
            Value::Text("bsn".to_owned()),
            "path",
            Value::Text(path.clone()),
        ),
        SceneFile::InlineJson { json } => obj2(
            "kind",
            Value::Text("inline_json".to_owned()),
            "json",
            Value::Text(json.clone()),
        ),
    }
}

/// Build the value of an include tree node.
fn tree_to_value(t: &SceneIncludeTree) -> (r: Value)
    ensures
        r@ == tree_value(t@),
    decreases *t,
{
    let n = t.children.len();
    let mut children: Vec<Value> = Vec::new();
    let mut i: usize = 0;
    while i < n
        invariant
            i <= n,
            n == t.children@.len(),
            children@.len() == i,
            forall|j: int|
                0 <= j < i ==> (#[trigger] children@[j])@ == tree_value(t.children@[j]@),
        decreases n - i,
    {
        let c = tree_to_value(&t.children[i]);
        children.push(c);
        i = i + 1;
    }
    proof {
        assert(t@.children.len() == n);
        assert forall|j: int| 0 <= j < n implies value_views(children)[j] == tree_values(
            t@.children,
        )[j] by {
            assert(value_views(children)[j] == children@[j]@);
            assert(t@.children[j] == crate::include_tree::tree_view(t.children@[j]));
        }
        assert(value_views(children) =~= tree_values(t@.children));
    }
    let file_value = scene_file_to_value(&t.file);
    let id_value = scene_id_to_value(&t.scene_id);
    let ghost gf = file_value@;
    let ghost gi = id_value@;
    let mut entries: Vec<(String, Value)> = Vec::new();
    entries.push(("file".to_owned(), file_value));
    entries.push(("scene_id".to_owned(), id_value));
    entries.push(("children".to_owned(), Value::Arr(children)));
    let ghost evs = entries@;
    let r = Value::Obj(entries);
    proof {
        let target = seq![
            ("file"@, gf),
            ("scene_id"@, gi),
            ("children"@, ValueView::Arr(tree_values(t@.children))),
        ];
        assert(r@->Obj_0.len() == 3);
        assert(r@->Obj_0[0] == (evs[0].0@, crate::value::value_view(evs[0].1)));
        assert(r@->Obj_0[1] == (evs[1].0@, crate::value::value_view(evs[1].1)));
        assert(r@->Obj_0[2] == (evs[2].0@, crate::value::value_view(evs[2].1)));
        assert(r@->Obj_0 =~= target);
    }
    r
}

/// Build the value of a thumbnail.
fn thumb_to_value(t: &SceneThumb) -> (r: Value)
    ensures
        r@ == thumb_value(t@),
{
    match t {
        SceneThumb::Url { url } => obj2(
            "kind",
            Value::Text("url".to_owned()),
            "url",
            Value::Text(url.clone()),
        ),
        SceneThumb::Text { text } => obj2(
            "kind",
            Value::Text("text".to_owned()),
            "text",
            Value::Text(text.clone()),
        ),
    }
}

/// Build the value of a resolved app.
fn app_to_value(a: &SceneApp) -> (r: Value)
    ensures
        r@ == app_value(a@),
{
    let binary = match &a.binary {
        BevyBinary::Wasm { scene_id, js_url, wasm_url, canvas_id } => {
            let mut entries: Vec<(String, Value)> = Vec::new();
            let idv = scene_id_to_value(scene_id);
            let ghost gid = idv@;
            entries.push(("kind".to_owned(), Value::Text("wasm".to_owned())));
            entries.push(("scene_id".to_owned(), idv));
            entries.push(("js_url".to_owned(), Value::Text(js_url.clone())));
            entries.push(("wasm_url".to_owned(), Value::Text(wasm_url.clone())));
            entries.push(("canvas_id".to_owned(), opt_text_to_value(canvas_id)));
            let ghost evs = entries@;
            let b = Value::Obj(entries);
            proof {
                assert(b@->Obj_0.len() == 5);
                assert(b@->Obj_0[0] == (evs[0].0@, crate::value::value_view(evs[0].1)));
                assert(b@->Obj_0[1] == (evs[1].0@, crate::value::value_view(evs[1].1)));
                assert(b@->Obj_0[2] == (evs[2].0@, crate::value::value_view(evs[2].1)));
                assert(b@->Obj_0[3] == (evs[3].0@, crate::value::value_view(evs[3].1)));
                assert(b@->Obj_0[4] == (evs[4].0@, crate::value::value_view(evs[4].1)));
                assert(b@->Obj_0 =~= seq![
                    ("kind"@, ValueView::Text("wasm"@)),
                    ("scene_id"@, gid),
                    ("js_url"@, ValueView::Text(js_url@)),
                    ("wasm_url"@, ValueView::Text(wasm_url@)),
                    ("canvas_id"@, opt_text_value(crate::text::opt_chars(*canvas_id))),
                ]);
            }
            b
        },
    };
    let ghost gb = binary@;
    let mut entries: Vec<(String, Value)> = Vec::new();
    entries.push(("binary".to_owned(), binary));
    entries.push((
        "replication_registry_url".to_owned(),
        opt_text_to_value(&a.replication_registry_url),
    ));
    entries.push(("type_registry_url".to_owned(), opt_text_to_value(&a.type_registry_url)));
    let ghost evs = entries@;
    let r = Value::Obj(entries);
    proof {
        assert(r@->Obj_0.len() == 3);
        assert(r@->Obj_0[0] == (evs[0].0@, crate::value::value_view(evs[0].1)));
        assert(r@->Obj_0[1] == (evs[1].0@, crate::value::value_view(evs[1].1)));
        assert(r@->Obj_0[2] == (evs[2].0@, crate::value::value_view(evs[2].1)));
        assert(r@->Obj_0 =~= seq![
            ("binary"@, gb),
            (
                "replication_registry_url"@,
                opt_text_value(crate::text::opt_chars(a.replication_registry_url)),
            ),
            ("type_registry_url"@, opt_text_value(crate::text::opt_chars(a.type_registry_url))),
        ]);
    }
    r
}

/// Build the value of an event list.
fn events_to_value(events: &Vec<(String, Option<bool>)>, Ghost(model): Ghost<
    Seq<(Seq<char>, Option<bool>)>,
>) -> (r: Value)
    requires
        model.len() == events@.len(),
        forall|j: int| #![auto]
            0 <= j < events@.len() ==> model[j] == (events@[j].0@, events@[j].1),
    ensures
        r@ == events_value(model),
{
    let n = events.len();
    let mut entries: Vec<(String, Value)> = Vec::new();
    let mut i: usize = 0;
    while i < n
        invariant
            i <= n,
            n == events@.len(),
            entries@.len() == i,
            forall|j: int| #![auto]
                0 <= j < i ==> entries@[j].0@ == events@[j].0@ && (entries@[j].1)@ == (match events@[j].1 {
                    Some(b) => ValueView::Bool(b),
                    None => ValueView::Null,
                }),
        decreases n - i,
    {
        let flag = match events[i].1 {
            Some(b) => Value::Bool(b),
            None => Value::Null,
        };
        entries.push((events[i].0.clone(), flag));
        i = i + 1;
    }
    let r = Value::Obj(entries);
    proof {
        assert(r@->Obj_0 =~= events_value(model)->Obj_0);
        assert(r@ == events_value(model));
    }
    r
}

impl HasDocId for Value {
    open spec fn key_spec(&self) -> Seq<char> {
        match *self {
            Value::Obj(entries) => match obj_get(entry_views(entries), "_id"@) {
                Some(ValueView::Text(t)) => t,
                _ => placeholder_key(),
            },
            _ => placeholder_key(),
        }
    }

    fn doc_id(&self) -> (r: DocId) {
        match self {
            Value::Obj(entries) => {
                match crate::filter::obj_get_exec(entries, "_id") {
                    Some(Value::Text(t)) => DocId::new(t.clone()),
                    _ => DocId::placeholder(),
                }
            },
            _ => DocId::placeholder(),
        }
    }
}

/// Copy a value.
pub fn clone_value(v: &Value) -> (r: Value)
    ensures
        r@ == v@,
    decreases *v,
{
    match v {
        Value::Null => Value::Null,
        Value::Bool(b) => Value::Bool(*b),
        Value::Int(n) => Value::Int(*n),
        Value::Text(t) => Value::Text(t.clone()),
        Value::Arr(elems) => {
            let n = elems.len();
            let mut out: Vec<Value> = Vec::new();
            let mut i: usize = 0;
            while i < n
                invariant
                    i <= n,
                    *v == Value::Arr(*elems),
                    n == elems@.len(),
                    out@.len() == i,
                    forall|j: int| 0 <= j < i ==> (#[trigger] out@[j])@ == elems@[j]@,
                decreases n - i,
            {
                proof {
                    assert(decreases_to!(*v => v->Arr_0));
                    assert(v->Arr_0 == *elems);
                    assert(decreases_to!(*elems => elems@[i as int]));
                    assert(decreases_to!(*v => elems@[i as int]));
                }
                let c = clone_value(&elems[i]);
                out.push(c);
                i = i + 1;
            }
            let r = Value::Arr(out);
            proof {
                assert(r@->Arr_0 =~= v@->Arr_0);
            }
            r
        },
        Value::Obj(entries) => {
            let n = entries.len();
            let mut out: Vec<(String, Value)> = Vec::new();
            let mut i: usize = 0;
            while i < n
                invariant
                    i <= n,
                    *v == Value::Obj(*entries),
                    n == entries@.len(),
                    out@.len() == i,
                    forall|j: int| #![auto]
                        0 <= j < i ==> out@[j].0@ == entries@[j].0@ && (out@[j].1)@
                            == (entries@[j].1)@,
                decreases n - i,
            {
                proof {
                    assert(decreases_to!(*v => v->Obj_0));
                    assert(v->Obj_0 == *entries);
                    assert(decreases_to!(*entries => entries@[i as int].1));
                    assert(decreases_to!(*v => entries@[i as int].1));
                }
                let c = clone_value(&entries[i].1);
                out.push((entries[i].0.clone(), c));
                i = i + 1;
            }
            let r = Value::Obj(out);
            proof {
                assert(r@->Obj_0 =~= v@->Obj_0);
            }
            r
        },
    }
}

impl DocRecord for Value {
    open spec fn value_model(&self) -> ValueView {
        (*self)@
    }

    fn to_value(&self) -> (r: Value) {
        clone_value(self)
    }
}

impl DocRecord for SceneDoc {
    open spec fn value_model(&self) -> ValueView {
        scene_doc_value(self@)
    }

    fn to_value(&self) -> (r: Value) {
        let mut entries: Vec<(String, Value)> = Vec::new();
        entries.push(("_id".to_owned(), Value::Text(self.id.0.clone())));
        let idv = scene_id_to_value(&self.scene_id);
        let ghost gid = idv@;
        entries.push(("scene_id".to_owned(), idv));
        entries.push(("description".to_owned(), Value::Text(self.description.clone())));
        entries.push(("created_ms".to_owned(), Value::Int(self.created_ms as i64)));
        let tv = thumb_to_value(&self.thumbnail);
        let ghost gt = tv@;
        entries.push(("thumbnail".to_owned(), tv));
        let treev = tree_to_value(&self.scene_include_tree);
        let ghost gtree = treev@;
        entries.push(("scene_include_tree".to_owned(), treev));
        let appv = match &self.app {
            Some(a) => app_to_value(a),
            None => Value::Null,
        };
        let ghost gapp = appv@;
        entries.push(("app".to_owned(), appv));
        entries.push(("repository".to_owned(), opt_text_to_value(&self.repository)));
        entries.push(("is_latest".to_owned(), Value::Bool(self.is_latest)));
        let repl = replication_to_value(&self.replication_config);
        let ghost grepl = repl@;
        entries.push(("replication_config".to_owned(), repl));
        let ghost evs = entries@;
        let r = Value::Obj(entries);
        proof {
            assert(r@->Obj_0.len() == 10);
            assert(r@->Obj_0[0] == (evs[0].0@, crate::value::value_view(evs[0].1)));
            assert(r@->Obj_0[1] == (evs[1].0@, crate::value::value_view(evs[1].1)));
            assert(r@->Obj_0[2] == (evs[2].0@, crate::value::value_view(evs[2].1)));
            assert(r@->Obj_0[3] == (evs[3].0@, crate::value::value_view(evs[3].1)));
            assert(r@->Obj_0[4] == (evs[4].0@, crate::value::value_view(evs[4].1)));
            assert(r@->Obj_0[5] == (evs[5].0@, crate::value::value_view(evs[5].1)));
            assert(r@->Obj_0[6] == (evs[6].0@, crate::value::value_view(evs[6].1)));
            assert(r@->Obj_0[7] == (evs[7].0@, crate::value::value_view(evs[7].1)));
            assert(r@->Obj_0[8] == (evs[8].0@, crate::value::value_view(evs[8].1)));
            assert(r@->Obj_0[9] == (evs[9].0@, crate::value::value_view(evs[9].1)));
            assert(r@->Obj_0 =~= scene_doc_value(self@)->Obj_0);
            assert(r@ == scene_doc_value(self@));
        }
        r
    }
}

/// Build the value of a replication configuration.
fn replication_to_value(r: &crate::replication::ReplicationConfig) -> (v: Value)
    ensures
        v@ == replication_value(r@),
{
    let (send, recv) = r.event_lists();
    let sendv = events_to_value(send, Ghost(r@.send_events));
    let recvv = events_to_value(recv, Ghost(r@.recv_events));
    obj2("send_events", sendv, "recv_events", recvv)
}

impl DocRecord for CrateDoc {
    open spec fn value_model(&self) -> ValueView {
        crate_doc_value(self@)
    }

    fn to_value(&self) -> (r: Value) {
        let mut entries: Vec<(String, Value)> = Vec::new();
        entries.push(("_id".to_owned(), Value::Text(self.id.0.clone())));
        let idv = crate_id_to_value(&self.crate_id);
        let ghost gid = idv@;
        entries.push(("crate_id".to_owned(), idv));
        entries.push(("readme".to_owned(), Value::Text(self.readme.clone())));
        entries.push(("repository".to_owned(), opt_text_to_value(&self.repository)));
        entries.push(("description".to_owned(), opt_text_to_value(&self.description)));
        let kw = texts_to_value(&self.keywords);
        let ghost gkw = kw@;
        entries.push(("keywords".to_owned(), kw));
        let au = texts_to_value(&self.authors);
        let ghost gau = au@;
        entries.push(("authors".to_owned(), au));
        let ghost evs = entries@;
        let r = Value::Obj(entries);
        proof {
            assert(r@->Obj_0.len() == 7);
            assert(r@->Obj_0[0] == (evs[0].0@, crate::value::value_view(evs[0].1)));
            assert(r@->Obj_0[1] == (evs[1].0@, crate::value::value_view(evs[1].1)));
            assert(r@->Obj_0[2] == (evs[2].0@, crate::value::value_view(evs[2].1)));
            assert(r@->Obj_0[3] == (evs[3].0@, crate::value::value_view(evs[3].1)));
            assert(r@->Obj_0[4] == (evs[4].0@, crate::value::value_view(evs[4].1)));
            assert(r@->Obj_0[5] == (evs[5].0@, crate::value::value_view(evs[5].1)));
            assert(r@->Obj_0[6] == (evs[6].0@, crate::value::value_view(evs[6].1)));
            assert(r@->Obj_0 =~= crate_doc_value(self@)->Obj_0);
            assert(r@ == crate_doc_value(self@));
        }
        r
    }
}

/// Build an array of texts.
fn texts_to_value(texts: &Vec<String>) -> (r: Value)
    ensures
        r@ == ValueView::Arr(texts_of(texts@).map_values(|t: Seq<char>| ValueView::Text(t))),
{
    let n = texts.len();
    let mut out: Vec<Value> = Vec::new();
    let mut i: usize = 0;
    while i < n
        invariant
            i <= n,
            n == texts@.len(),
            out@.len() == i,
            forall|j: int| 0 <= j < i ==> (#[trigger] out@[j])@ == ValueView::Text(texts@[j]@),
        decreases n - i,
    {
        out.push(Value::Text(texts[i].clone()));
        i = i + 1;
    }
    let r = Value::Arr(out);
    proof {
        assert(r@->Arr_0 =~= texts_of(texts@).map_values(|t: Seq<char>| ValueView::Text(t)));
    }
    r
}

} // verus!
