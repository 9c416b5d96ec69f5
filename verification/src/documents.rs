//! Which documents the language server has open, and when a document must
//! be opened or sent again.
//!
//! A document is opened (`textDocument/didOpen`, version 1) the first time
//! it is used, sent again (`textDocument/didChange`, next version) when its
//! file has been modified since, and left alone otherwise.

use vstd::prelude::*;

use crate::json::{array1, int_json, lemma_lookup_member, json_int, json_string, obj, object1, object2, object4, str_json, Json, JsonValue};
use crate::text::str_eq;

verus! {

/// What the server has of an open document: the version sent last and the
/// modification time of the file then (nanoseconds from the Unix epoch,
/// negative before it).
#[derive(Clone, Copy, Debug, PartialEq, Eq, Structural)]
pub struct DocumentState {
    pub version: i32,
    pub mtime: i128,
}

/// One open document.
#[derive(Debug)]
struct OpenDocument {
    uri: String,
    state: DocumentState,
}

/// The documents open in the language server.
#[derive(Debug)]
pub struct DocumentManager {
    open: Vec<OpenDocument>,
}

/// What to do so that the server has the current text of a document.
#[derive(Clone, Copy, Debug, PartialEq, Eq, Structural)]
pub enum SyncAction {
    /// Nothing: the server has the document as it is.
    UpToDate,
    /// Send `textDocument/didOpen` with this version.
    Open { version: i32 },
    /// Send `textDocument/didChange` with this version.
    Change { version: i32 },
}

/// The open documents by URI, from the documents in the order kept.
spec fn docs_map(docs: Seq<OpenDocument>) -> Map<Seq<char>, DocumentState>
    decreases docs.len(),
{
    if docs.len() == 0 {
        Map::empty()
    } else {
        docs_map(docs.drop_last()).insert(docs.last().uri@, docs.last().state)
    }
}

/// No URI is kept twice.
spec fn unique_uris(docs: Seq<OpenDocument>) -> bool {
    forall|i: int, j: int| 0 <= i < j < docs.len() ==> docs[i].uri@ != docs[j].uri@
}

impl View for DocumentManager {
    type V = Map<Seq<char>, DocumentState>;

    closed spec fn view(&self) -> Map<Seq<char>, DocumentState> {
        docs_map(self.open@)
    }
}

/// Whether timestamp `a` is later than timestamp `b`.
pub fn is_newer(a: i128, b: i128) -> (res: bool)
    ensures
        res == (a > b),
{
    a > b
}

/// How a document is brought up to date: opened with version 1 when the
/// server does not have it, sent again with the next version when its file
/// was modified after the time recorded, left alone otherwise.
pub open spec fn spec_plan_sync(docs: Map<Seq<char>, DocumentState>, uri: Seq<char>, modified: i128) -> SyncAction {
    if !docs.contains_key(uri) {
        SyncAction::Open { version: 1 }
    } else if modified > docs[uri].mtime {
        SyncAction::Change { version: (docs[uri].version + 1) as i32 }
    } else {
        SyncAction::UpToDate
    }
}

proof fn lemma_docs_map_find(docs: Seq<OpenDocument>, k: int)
    requires
        unique_uris(docs),
        0 <= k < docs.len(),
    ensures
        docs_map(docs).contains_key(docs[k].uri@),
        docs_map(docs)[docs[k].uri@] == docs[k].state,
    decreases docs.len(),
{
    if k < docs.len() - 1 {
        lemma_docs_map_find(docs.drop_last(), k);
    }
}

proof fn lemma_docs_map_absent(docs: Seq<OpenDocument>, uri: Seq<char>)
    requires
        forall|k: int| 0 <= k < docs.len() ==> docs[k].uri@ != uri,
    ensures
        !docs_map(docs).contains_key(uri),
    decreases docs.len(),
{
    if docs.len() > 0 {
        lemma_docs_map_absent(docs.drop_last(), uri);
    }
}

proof fn lemma_docs_map_dom(docs: Seq<OpenDocument>)
    ensures
        docs_map(docs).dom() == Set::new(|u: Seq<char>| exists|k: int| 0 <= k < docs.len() && docs[k].uri@ == u),
    decreases docs.len(),
{
    if docs.len() > 0 {
        lemma_docs_map_dom(docs.drop_last());
        let p = docs.drop_last();
        assert forall|u: Seq<char>| docs_map(docs).dom().contains(u) <==> (exists|k: int| 0 <= k < docs.len() && docs[k].uri@ == u) by {
            if exists|k: int| 0 <= k < docs.len() && docs[k].uri@ == u {
                let k = choose|k: int| 0 <= k < docs.len() && docs[k].uri@ == u;
                if k < docs.len() - 1 {
                    assert(p[k] == docs[k]);
                }
            }
            if docs_map(p).dom().contains(u) {
                let k = choose|k: int| 0 <= k < p.len() && p[k].uri@ == u;
                assert(docs[k] == p[k]);
            }
        }
        assert(docs_map(docs).dom() =~= Set::new(|u: Seq<char>| exists|k: int| 0 <= k < docs.len() && docs[k].uri@ == u));
    } else {
        assert(docs_map(docs).dom() =~= Set::new(|u: Seq<char>| exists|k: int| 0 <= k < docs.len() && docs[k].uri@ == u));
    }
}

proof fn lemma_docs_map_update(docs: Seq<OpenDocument>, k: int, d: OpenDocument)
    requires
        unique_uris(docs),
        0 <= k < docs.len(),
        docs[k].uri@ == d.uri@,
    ensures
        docs_map(docs.update(k, d)) == docs_map(docs).insert(d.uri@, d.state),
    decreases docs.len(),
{
    let u = docs.update(k, d);
    if k == docs.len() - 1 {
        assert(u.drop_last() =~= docs.drop_last());
        lemma_docs_map_absent(docs.drop_last(), d.uri@);
        assert(docs_map(docs).insert(d.uri@, d.state) =~= docs_map(docs.drop_last()).insert(d.uri@, d.state));
    } else {
        lemma_docs_map_update(docs.drop_last(), k, d);
        assert(u.drop_last() =~= docs.drop_last().update(k, d));
        assert(docs.last().uri@ != d.uri@);
        assert(docs_map(u) =~= docs_map(docs).insert(d.uri@, d.state));
    }
}

impl DocumentManager {
    #[verifier::type_invariant]
    spec fn inv(&self) -> bool {
        unique_uris(self.open@)
    }

    /// A manager with no open document.
    pub fn new() -> (res: Self)
        ensures
            res@ == Map::<Seq<char>, DocumentState>::empty(),
    {
        DocumentManager { open: Vec::new() }
    }

    /// The position of `uri` among the open documents.
    fn find(&self, uri: &str) -> (res: Option<usize>)
        ensures
            match res {
                Some(k) => k < self.open.len() && self.open@[k as int].uri@ == uri@,
                None => forall|k: int| 0 <= k < self.open.len() ==> self.open@[k].uri@ != uri@,
            },
    {
        let mut i: usize = 0;
        while i < self.open.len()
            invariant
                i <= self.open.len(),
                forall|k: int| 0 <= k < i ==> self.open@[k].uri@ != uri@,
            decreases self.open.len() - i,
        {
            if str_eq(self.open[i].uri.as_str(), uri) {
                return Some(i);
            }
            i = i + 1;
        }
        None
    }

    /// The state recorded for `uri`, if the document is open.
    pub fn state_of(&self, uri: &str) -> (res: Option<DocumentState>)
        ensures
            match res {
                Some(s) => self@.contains_key(uri@) && self@[uri@] == s,
                None => !self@.contains_key(uri@),
            },
    {
        proof {
            use_type_invariant(self);
        }
        match self.find(uri) {
            Some(k) => {
                proof {
                    lemma_docs_map_find(self.open@, k as int);
                }
                Some(self.open[k].state)
            },
            None => {
                proof {
                    lemma_docs_map_absent(self.open@, uri@);
                }
                None
            },
        }
    }

    /// Decides how to bring the document `uri`, whose file was last modified
    /// at `modified`, up to date in the server.
    pub fn plan_sync(&self, uri: &str, modified: i128) -> (res: SyncAction)
        requires
            self@.contains_key(uri@) && modified > self@[uri@].mtime ==> self@[uri@].version < i32::MAX,
        ensures
            res == spec_plan_sync(self@, uri@, modified),
    {
        match self.state_of(uri) {
            None => SyncAction::Open { version: 1 },
            Some(state) => {
                if !is_newer(modified, state.mtime) {
                    SyncAction::UpToDate
                } else {
                    SyncAction::Change { version: state.version + 1 }
                }
            },
        }
    }

    /// Records that the server now has version `version` of `uri`, read when
    /// its file was last modified at `modified`.
    pub fn record_sync(&mut self, uri: &str, version: i32, modified: i128)
        ensures
            final(self)@ == old(self)@.insert(uri@, DocumentState { version, mtime: modified }),
    {
        proof {
            use_type_invariant(&*self);
        }
        let state = DocumentState { version, mtime: modified };
        let doc = OpenDocument { uri: crate::text::owned(uri), state };
        match self.find(uri) {
            Some(k) => {
                proof {
                    lemma_docs_map_update(self.open@, k as int, doc);
                }
                let mut open: Vec<OpenDocument> = Vec::new();
                std::mem::swap(&mut open, &mut self.open);
                let ghost before = open@;
                open.set(k, doc);
                assert(open@ == before.update(k as int, doc));
                assert(unique_uris(open@));
                self.open = open;
            },
            None => {
                let mut open: Vec<OpenDocument> = Vec::new();
                std::mem::swap(&mut open, &mut self.open);
                let ghost before = open@;
                open.push(doc);
                assert(open@.drop_last() =~= before);
                assert(unique_uris(open@));
                self.open = open;
            },
        }
    }

    /// Forgets all open documents and returns their URIs, each once, for the
    /// caller to close them in the server.
    pub fn close_all(&mut self) -> (res: Vec<String>)
        ensures
            final(self)@ == Map::<Seq<char>, DocumentState>::empty(),
            forall|u: Seq<char>| old(self)@.contains_key(u) <==> exists|i: int| 0 <= i < res.len() && #[trigger] res@[i]@ == u,
            forall|i: int, j: int| 0 <= i < j < res.len() ==> res@[i]@ != res@[j]@,
    {
        proof {
            use_type_invariant(&*self);
            lemma_docs_map_dom(self.open@);
        }
        let mut open: Vec<OpenDocument> = Vec::new();
        std::mem::swap(&mut open, &mut self.open);
        let mut uris: Vec<String> = Vec::new();
        let mut i: usize = 0;
        while i < open.len()
            invariant
                i <= open.len(),
                uris.len() == i,
                forall|k: int| 0 <= k < i ==> #[trigger] uris@[k]@ == open@[k].uri@,
            decreases open.len() - i,
        {
            uris.push(open[i].uri.clone());
            i = i + 1;
        }
        proof {
            assert forall|u: Seq<char>| old(self)@.contains_key(u) <==> exists|i: int| 0 <= i < uris.len() && #[trigger] uris@[i]@ == u by {
                if old(self)@.contains_key(u) {
                    let k = choose|k: int| 0 <= k < open@.len() && open@[k].uri@ == u;
                    assert(uris@[k]@ == u);
                }
            }
        }
        uris
    }
}

/// The parameters of `textDocument/didOpen`.
pub open spec fn spec_did_open_params(uri: Seq<char>, language_id: Seq<char>, version: i32, text: Seq<char>) -> Json {
    obj(seq![("textDocument"@, obj(seq![
        ("uri"@, str_json(uri)),
        ("languageId"@, str_json(language_id)),
        ("version"@, int_json(version as i64)),
        ("text"@, str_json(text)),
    ]))])
}

/// The parameters of `textDocument/didChange`: the whole new text.
pub open spec fn spec_did_change_params(uri: Seq<char>, version: i32, text: Seq<char>) -> Json {
    obj(seq![
        ("textDocument"@, obj(seq![("uri"@, str_json(uri)), ("version"@, int_json(version as i64))])),
        ("contentChanges"@, Json::Array(seq![obj(seq![("text"@, str_json(text))])])),
    ])
}

/// The parameters of `textDocument/didClose`.
pub open spec fn spec_did_close_params(uri: Seq<char>) -> Json {
    obj(seq![("textDocument"@, obj(seq![("uri"@, str_json(uri))]))])
}

/// The parameters of `textDocument/didOpen` for a document.
pub fn did_open_params(uri: &str, language_id: &str, version: i32, text: &str) -> (res: JsonValue)
    ensures
        res@ == spec_did_open_params(uri@, language_id@, version, text@),
{
    object1(
        "textDocument",
        object4(
            "uri",
            json_string(uri),
            "languageId",
            json_string(language_id),
            "version",
            json_int(version as i64),
            "text",
            json_string(text),
        ),
    )
}

/// The parameters of `textDocument/didChange` for a document's new text.
pub fn did_change_params(uri: &str, version: i32, text: &str) -> (res: JsonValue)
    ensures
        res@ == spec_did_change_params(uri@, version, text@),
{
    object2(
        "textDocument",
        object2("uri", json_string(uri), "version", json_int(version as i64)),
        "contentChanges",
        array1(object1("text", json_string(text))),
    )
}

/// The parameters of `textDocument/didClose` for a document.
pub fn did_close_params(uri: &str) -> (res: JsonValue)
    ensures
        res@ == spec_did_close_params(uri@),
{
    object1("textDocument", object1("uri", json_string(uri)))
}

/// Bringing a document up to date and recording it makes it up to date: once
/// the version `v` of `uri` is recorded with modification time `m`, a file
/// still modified at `m` (or earlier) needs nothing more.
pub proof fn law_recorded_document_is_up_to_date(
    docs: Map<Seq<char>, DocumentState>,
    uri: Seq<char>,
    v: i32,
    m: i128,
    later: i128,
)
    requires
        later <= m,
    ensures
        spec_plan_sync(docs.insert(uri, DocumentState { version: v, mtime: m }), uri, later) == SyncAction::UpToDate,
{
}

/// Versions count the syncs: a document not open yet is opened with version
/// 1, and each later modification sends the version after the one recorded.
pub proof fn law_versions_follow_syncs(docs: Map<Seq<char>, DocumentState>, uri: Seq<char>, m1: i128, m2: i128)
    requires
        !docs.contains_key(uri),
        m2 > m1,
    ensures
        spec_plan_sync(docs, uri, m1) == (SyncAction::Open { version: 1 }),
        spec_plan_sync(docs.insert(uri, DocumentState { version: 1, mtime: m1 }), uri, m2) == (SyncAction::Change { version: 2 }),
{
}

/// After all documents are closed, using a document opens it again with
/// version 1, whatever the server had of it before.
pub proof fn law_closed_documents_are_reopened(uri: Seq<char>, modified: i128)
    ensures
        spec_plan_sync(Map::<Seq<char>, DocumentState>::empty(), uri, modified) == (SyncAction::Open { version: 1 }),
{
}

/// Each change is sent as the version after the one recorded: for any open
/// document whose file was modified after the time recorded, the server gets
/// `didChange` with the recorded version plus one, so the versions a
/// document is sent strictly increase from one sync to the next.
pub proof fn law_change_sends_next_version(
    docs: Map<Seq<char>, DocumentState>,
    uri: Seq<char>,
    v: i32,
    m: i128,
    later: i128,
)
    requires
        v < i32::MAX,
        later > m,
    ensures
        spec_plan_sync(docs.insert(uri, DocumentState { version: v, mtime: m }), uri, later) matches SyncAction::Change { version }
            && version == v + 1 && version > v,
        docs.contains_key(uri) && later > docs[uri].mtime && docs[uri].version < i32::MAX ==>
            (spec_plan_sync(docs, uri, later) matches SyncAction::Change { version } && version == docs[uri].version + 1),
{
}

/// The synchronisation notifications carry what they are given: `didOpen`
/// names the document by its URI, language, version and whole text;
/// `didChange` names it by URI and version and sends the whole new text as
/// its one content change; `didClose` names it by URI.
pub proof fn law_notifications_carry_the_document(uri: Seq<char>, language_id: Seq<char>, version: i32, text: Seq<char>)
    ensures
        ({
            let open = spec_did_open_params(uri, language_id, version, text);
            let d = open.get("textDocument"@)->0;
            &&& open.get("textDocument"@) is Some
            &&& d.get("uri"@) == Some(Json::String(uri))
            &&& d.get("languageId"@) == Some(Json::String(language_id))
            &&& d.get("version"@) is Some && d.get("version"@)->0.as_i64() == Some(version as i64)
            &&& d.get("text"@) == Some(Json::String(text))
        }),
        ({
            let change = spec_did_change_params(uri, version, text);
            let d = change.get("textDocument"@)->0;
            &&& change.get("textDocument"@) is Some
            &&& d.get("uri"@) == Some(Json::String(uri))
            &&& d.get("version"@) is Some && d.get("version"@)->0.as_i64() == Some(version as i64)
            &&& change.get("contentChanges"@) is Some && change.get("contentChanges"@)->0 is Array
            &&& change.get("contentChanges"@)->0->Array_0.len() == 1
            &&& change.get("contentChanges"@)->0->Array_0[0].get("text"@) == Some(Json::String(text))
        }),
        ({
            let close = spec_did_close_params(uri);
            &&& close.get("textDocument"@) is Some
            &&& close.get("textDocument"@)->0.get("uri"@) == Some(Json::String(uri))
        }),
{
    reveal_strlit("textDocument");
    reveal_strlit("uri");
    reveal_strlit("languageId");
    reveal_strlit("version");
    reveal_strlit("text");
    reveal_strlit("contentChanges");
    assert("uri"@.len() == 3 && "languageId"@.len() == 10 && "version"@.len() == 7 && "text"@.len() == 4);
    assert("textDocument"@.len() == 12 && "contentChanges"@.len() == 14);
    let od = seq![
        ("uri"@, str_json(uri)),
        ("languageId"@, str_json(language_id)),
        ("version"@, int_json(version as i64)),
        ("text"@, str_json(text)),
    ];
    lemma_lookup_member(seq![("textDocument"@, obj(od))], "textDocument"@, 0);
    lemma_lookup_member(od, "uri"@, 0);
    lemma_lookup_member(od, "languageId"@, 1);
    lemma_lookup_member(od, "version"@, 2);
    lemma_lookup_member(od, "text"@, 3);
    let cd = seq![("uri"@, str_json(uri)), ("version"@, int_json(version as i64))];
    let cc = Json::Array(seq![obj(seq![("text"@, str_json(text))])]);
    let cm = seq![("textDocument"@, obj(cd)), ("contentChanges"@, cc)];
    lemma_lookup_member(cm, "textDocument"@, 0);
    lemma_lookup_member(cm, "contentChanges"@, 1);
    lemma_lookup_member(cd, "uri"@, 0);
    lemma_lookup_member(cd, "version"@, 1);
    lemma_lookup_member(seq![("text"@, str_json(text))], "text"@, 0);
    let xd = seq![("uri"@, str_json(uri))];
    lemma_lookup_member(seq![("textDocument"@, obj(xd))], "textDocument"@, 0);
    lemma_lookup_member(xd, "uri"@, 0);
}

} // verus!
