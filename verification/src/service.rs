//! The language service: open documents and their configurations.

use crate::config::{ConfigState, ServiceConfig};
use crate::document::{
    error_views, incremental_plan, indexable, merge_syntax_errors, merged_errors, plan_incremental,
    ContentChange, Document, IncrementalChange, SyntaxError,
};
use crate::syntax::SyntaxNode;
use crate::text::str_eq;
use vstd::prelude::*;

verus! {

/// Position of the entry for `uri` among documents.
pub open spec fn uri_index(docs: Seq<Document>, uri: Seq<char>) -> Option<int> {
    if exists|i: int| 0 <= i < docs.len() && (#[trigger] docs[i]).uri@ == uri {
        Some(choose|i: int| 0 <= i < docs.len() && (#[trigger] docs[i]).uri@ == uri)
    } else {
        None
    }
}

/// Position of the entry for `uri` among configurations.
pub open spec fn config_index(configs: Seq<(String, ConfigState)>, uri: Seq<char>) -> Option<int> {
    if exists|i: int| 0 <= i < configs.len() && (#[trigger] configs[i]).0@ == uri {
        Some(choose|i: int| 0 <= i < configs.len() && (#[trigger] configs[i]).0@ == uri)
    } else {
        None
    }
}

proof fn lemma_uri_index(docs: Seq<Document>, uri: Seq<char>, i: int)
    requires
        docs_wf(docs),
        0 <= i < docs.len(),
        docs[i].uri@ == uri,
    ensures
        uri_index(docs, uri) == Some(i),
{
    let k = choose|k: int| 0 <= k < docs.len() && (#[trigger] docs[k]).uri@ == uri;
    if k != i {
        assert(docs[k].uri@ != docs[i].uri@);
    }
}

proof fn lemma_config_index(configs: Seq<(String, ConfigState)>, uri: Seq<char>, i: int)
    requires
        configs_wf(configs),
        0 <= i < configs.len(),
        configs[i].0@ == uri,
    ensures
        config_index(configs, uri) == Some(i),
{
    let k = choose|k: int| 0 <= k < configs.len() && (#[trigger] configs[k]).0@ == uri;
    if k != i {
        assert(configs[k].0@ != configs[i].0@);
    }
}

/// No two documents share a URI, and every text fits a line index.
pub open spec fn docs_wf(docs: Seq<Document>) -> bool {
    &&& forall|i: int, j: int|
        0 <= i < docs.len() && 0 <= j < docs.len() && i != j ==> (#[trigger] docs[i]).uri@ != (
        #[trigger] docs[j]).uri@
    &&& forall|i: int| 0 <= i < docs.len() ==> indexable((#[trigger] docs[i]).text@)
}

/// No two configurations share a URI.
pub open spec fn configs_wf(configs: Seq<(String, ConfigState)>) -> bool {
    forall|i: int, j: int|
        0 <= i < configs.len() && 0 <= j < configs.len() && i != j ==> (#[trigger] configs[i]).0@
            != (#[trigger] configs[j]).0@
}

/// The documents after storing `doc` under its URI: it replaces the entry
/// with that URI, or comes last when there is none.
pub open spec fn docs_stored(old: Seq<Document>, new: Seq<Document>, doc: Document) -> bool {
    match uri_index(old, doc.uri@) {
        Some(i) => new == old.update(i, doc),
        None => new == old.push(doc),
    }
}

/// The configurations after setting `state` for `uri`: it replaces the
/// entry with that URI, or comes last when there is none.
pub open spec fn configs_stored(
    old: Seq<(String, ConfigState)>,
    new: Seq<(String, ConfigState)>,
    uri: Seq<char>,
    state: ConfigState,
) -> bool {
    match config_index(old, uri) {
        Some(i) => new.len() == old.len() && new[i].0@ == uri && new[i].1 == state && forall|j: int|
            0 <= j < old.len() && j != i ==> #[trigger] new[j] == old[j],
        None => new.len() == old.len() + 1 && new.last().0@ == uri && new.last().1 == state
            && forall|j: int| 0 <= j < old.len() ==> #[trigger] new[j] == old[j],
    }
}

/// The language service: the open documents, the configuration of each, and
/// the global configuration.
pub struct LanguageService {
    documents: Vec<Document>,
    configs: Vec<(String, ConfigState)>,
    global_config: ServiceConfig,
    support_pull_config: bool,
}

impl Default for LanguageService {
    /// A service with no documents that does not pull configurations.
    fn default() -> (r: LanguageService)
        ensures
            r.wf(),
            r.docs() == Seq::<Document>::empty(),
            r.config_entries() == Seq::<(String, ConfigState)>::empty(),
            r.global() == crate::config::default_config(),
            !r.pulls_config(),
    {
        LanguageService::new(false)
    }
}

impl LanguageService {
    /// The open documents, in the order they were first opened.
    pub closed spec fn docs(&self) -> Seq<Document> {
        self.documents@
    }

    /// The per-document configurations.
    pub closed spec fn config_entries(&self) -> Seq<(String, ConfigState)> {
        self.configs@
    }

    /// The configuration of documents that have none of their own.
    pub closed spec fn global(&self) -> ServiceConfig {
        self.global_config
    }

    /// Whether the client supplies configurations on request; otherwise
    /// opened documents start inheriting the global configuration.
    pub closed spec fn pulls_config(&self) -> bool {
        self.support_pull_config
    }

    /// URIs are unique among documents and among configurations.
    pub open spec fn wf(&self) -> bool {
        docs_wf(self.docs()) && configs_wf(self.config_entries())
    }

    /// The URIs of the open documents, in order.
    pub open spec fn opened_uris(&self) -> Seq<Seq<char>> {
        self.docs().map_values(|d: Document| d.uri@)
    }

    /// A service with no documents.
    pub fn new(support_pull_config: bool) -> (r: LanguageService)
        ensures
            r.wf(),
            r.docs() == Seq::<Document>::empty(),
            r.config_entries() == Seq::<(String, ConfigState)>::empty(),
            r.global() == crate::config::default_config(),
            r.pulls_config() == support_pull_config,
    {
        LanguageService {
            documents: Vec::new(),
            configs: Vec::new(),
            global_config: ServiceConfig::default(),
            support_pull_config,
        }
    }

    fn find_document(&self, uri: &str) -> (r: Option<usize>)
        requires
            self.wf(),
        ensures
            r matches Some(i) ==> (i as int) < self.docs().len() && self.docs()[i as int].uri@ == uri@
                && uri_index(self.docs(), uri@) == Some(i as int),
            r is None ==> uri_index(self.docs(), uri@) is None,
    {
        let mut i: usize = 0;
        while i < self.documents.len()
            invariant
                self.wf(),
                i <= self.documents@.len(),
                forall|j: int| 0 <= j < i ==> (#[trigger] self.documents@[j]).uri@ != uri@,
            decreases self.documents@.len() - i,
        {
            if str_eq(self.documents[i].uri.as_str(), uri) {
                proof {
                    lemma_uri_index(self.docs(), uri@, i as int);
                }
                return Some(i);
            }
            i = i + 1;
        }
        None
    }

    /// The open document with the URI.
    pub fn get_document(&self, uri: &str) -> (r: Option<&Document>)
        requires
            self.wf(),
        ensures
            match uri_index(self.docs(), uri@) {
                Some(i) => r matches Some(d) && *d == self.docs()[i],
                None => r is None,
            },
    {
        match self.find_document(uri) {
            Some(i) => Some(&self.documents[i]),
            None => None,
        }
    }

    /// The URIs of all open documents.
    pub fn get_opened_uris(&self) -> (r: Vec<String>)
        ensures
            r@.map_values(|s: String| s@) == self.opened_uris(),
    {
        let mut r: Vec<String> = Vec::new();
        let mut i: usize = 0;
        while i < self.documents.len()
            invariant
                i <= self.documents@.len(),
                r@.map_values(|s: String| s@) == self.opened_uris().subrange(0, i as int),
            decreases self.documents@.len() - i,
        {
            let ghost before = r@;
            let u = self.documents[i].uri.clone();
            r.push(u);
            proof {
                assert(u@ == self.docs()[i as int].uri@);
                assert(r@ == before.push(u));
                assert(r@.map_values(|s: String| s@) =~= before.map_values(|s: String| s@).push(u@));
                assert(self.opened_uris().subrange(0, i + 1) =~= self.opened_uris().subrange(0, i as int).push(u@));
            }
            i = i + 1;
        }
        assert(self.opened_uris().subrange(0, self.documents@.len() as int) =~= self.opened_uris());
        r
    }

    fn store_document(&mut self, doc: Document)
        requires
            old(self).wf(),
            indexable(doc.text@),
        ensures
            final(self).wf(),
            docs_stored(old(self).docs(), final(self).docs(), doc),
            final(self).config_entries() == old(self).config_entries(),
            final(self).global() == old(self).global(),
            final(self).pulls_config() == old(self).pulls_config(),
    {
        let ghost old_docs = self.documents@;
        match self.find_document(doc.uri.as_str()) {
            Some(i) => {
                self.documents.set(i, doc);
                proof {
                    assert(self.documents@ == old_docs.update(i as int, doc));
                    assert forall|a: int, b: int|
                        0 <= a < self.documents@.len() && 0 <= b < self.documents@.len() && a != b implies (
                        #[trigger] self.documents@[a]).uri@ != (#[trigger] self.documents@[b]).uri@ by {
                        if a != i && b != i {
                            assert(old_docs[a] == self.documents@[a] && old_docs[b] == self.documents@[b]);
                        } else if a == i {
                            assert(old_docs[b] == self.documents@[b]);
                            assert(old_docs[a].uri@ == doc.uri@);
                        } else {
                            assert(old_docs[a] == self.documents@[a]);
                            assert(old_docs[b].uri@ == doc.uri@);
                        }
                    }
                    assert forall|a: int| 0 <= a < self.documents@.len() implies indexable((#[trigger] self.documents@[a]).text@) by {
                        if a != i {
                            assert(old_docs[a] == self.documents@[a]);
                        }
                    }
                }
            },
            None => {
                self.documents.push(doc);
                proof {
                    assert(self.documents@ == old_docs.push(doc));
                    assert forall|a: int, b: int|
                        0 <= a < self.documents@.len() && 0 <= b < self.documents@.len() && a != b implies (
                        #[trigger] self.documents@[a]).uri@ != (#[trigger] self.documents@[b]).uri@ by {
                        if a < old_docs.len() && b < old_docs.len() {
                            assert(old_docs[a] == self.documents@[a] && old_docs[b] == self.documents@[b]);
                        } else if a < old_docs.len() {
                            assert(old_docs[a] == self.documents@[a]);
                            assert(old_docs[a].uri@ != doc.uri@);
                        } else {
                            assert(old_docs[b] == self.documents@[b]);
                            assert(old_docs[b].uri@ != doc.uri@);
                        }
                    }
                    assert forall|a: int| 0 <= a < self.documents@.len() implies indexable((#[trigger] self.documents@[a]).text@) by {
                        if a < old_docs.len() {
                            assert(old_docs[a] == self.documents@[a]);
                        }
                    }
                }
            },
        }
    }

    fn store_config(&mut self, uri: String, state: ConfigState)
        requires
            old(self).wf(),
        ensures
            final(self).wf(),
            configs_stored(old(self).config_entries(), final(self).config_entries(), uri@, state),
            final(self).docs() == old(self).docs(),
            final(self).global() == old(self).global(),
            final(self).pulls_config() == old(self).pulls_config(),
    {
        let ghost old_cfgs = self.configs@;
        let mut i: usize = 0;
        while i < self.configs.len()
            invariant
                self.wf(),
                self.configs@ == old_cfgs,
                self.documents@ == old(self).documents@,
                self.configs@ == old(self).configs@,
                self.global_config == old(self).global_config,
                self.support_pull_config == old(self).support_pull_config,
                i <= self.configs@.len(),
                forall|j: int| 0 <= j < i ==> (#[trigger] self.configs@[j]).0@ != uri@,
            decreases self.configs@.len() - i,
        {
            if str_eq(self.configs[i].0.as_str(), uri.as_str()) {
                proof {
                    lemma_config_index(self.configs@, uri@, i as int);
                }
                let ghost entry = (uri, state);
                self.configs.set(i, (uri, state));
                proof {
                    assert(self.configs@ == old_cfgs.update(i as int, entry));
                    assert forall|a: int, b: int|
                        0 <= a < self.configs@.len() && 0 <= b < self.configs@.len() && a != b implies (
                        #[trigger] self.configs@[a]).0@ != (#[trigger] self.configs@[b]).0@ by {
                        if a != i && b != i {
                            assert(old_cfgs[a] == self.configs@[a] && old_cfgs[b] == self.configs@[b]);
                        } else if a == i {
                            assert(old_cfgs[b] == self.configs@[b]);
                        } else {
                            assert(old_cfgs[a] == self.configs@[a]);
                        }
                    }
                }
                return;
            }
            i = i + 1;
        }
        let ghost entry = (uri, state);
        self.configs.push((uri, state));
        proof {
            assert(self.configs@ == old_cfgs.push(entry));
            assert forall|a: int, b: int|
                0 <= a < self.configs@.len() && 0 <= b < self.configs@.len() && a != b implies (
                #[trigger] self.configs@[a]).0@ != (#[trigger] self.configs@[b]).0@ by {
                if a < old_cfgs.len() && b < old_cfgs.len() {
                    assert(old_cfgs[a] == self.configs@[a] && old_cfgs[b] == self.configs@[b]);
                } else if a < old_cfgs.len() {
                    assert(old_cfgs[a] == self.configs@[a]);
                } else {
                    assert(old_cfgs[b] == self.configs@[b]);
                }
            }
        }
    }

    /// Stores a document under its URI with the text and the parse of it:
    /// an open document keeps its place and configuration; a new one comes
    /// last and, unless configurations are pulled from the client, starts
    /// inheriting the global configuration.
    pub fn commit(&mut self, uri: String, text: String, root: SyntaxNode, syntax_errors: Vec<SyntaxError>)
        requires
            old(self).wf(),
            indexable(text@),
        ensures
            final(self).wf(),
            docs_stored(old(self).docs(), final(self).docs(), Document { uri, text, root, syntax_errors }),
            uri_index(old(self).docs(), uri@) is Some || old(self).pulls_config() ==> final(self).config_entries() == old(self).config_entries(),
            uri_index(old(self).docs(), uri@) is None && !old(self).pulls_config() ==> configs_stored(
                old(self).config_entries(),
                final(self).config_entries(),
                uri@,
                ConfigState::Inherit,
            ),
            final(self).global() == old(self).global(),
            final(self).pulls_config() == old(self).pulls_config(),
    {
        let known = self.find_document(uri.as_str()).is_some();
        let config_uri = uri.clone();
        self.store_document(Document { uri, text, root, syntax_errors });
        if !known && !self.support_pull_config {
            self.store_config(config_uri, ConfigState::Inherit);
        }
    }

    /// Opens a document: it is stored under its URI, replacing an open one
    /// with that URI, and unless configurations are pulled from the client
    /// it inherits the global configuration.
    pub fn did_open(&mut self, uri: String, text: String, root: SyntaxNode, syntax_errors: Vec<SyntaxError>)
        requires
            old(self).wf(),
            indexable(text@),
        ensures
            final(self).wf(),
            docs_stored(old(self).docs(), final(self).docs(), Document { uri, text, root, syntax_errors }),
            old(self).pulls_config() ==> final(self).config_entries() == old(self).config_entries(),
            !old(self).pulls_config() ==> configs_stored(
                old(self).config_entries(),
                final(self).config_entries(),
                uri@,
                ConfigState::Inherit,
            ),
            final(self).global() == old(self).global(),
            final(self).pulls_config() == old(self).pulls_config(),
    {
        let config_uri = uri.clone();
        self.store_document(Document { uri, text, root, syntax_errors });
        if !self.support_pull_config {
            self.store_config(config_uri, ConfigState::Inherit);
        }
    }

    /// Closes a document: it and its configuration are forgotten.
    pub fn did_close(&mut self, uri: &str)
        requires
            old(self).wf(),
        ensures
            final(self).wf(),
            closed(old(self).docs(), final(self).docs(), old(self).config_entries(), final(self).config_entries(), uri@),
            final(self).global() == old(self).global(),
            final(self).pulls_config() == old(self).pulls_config(),
    {
        match self.find_document(uri) {
            Some(i) => {
                self.documents.remove(i);
            },
            None => {},
        }
        let mut i: usize = 0;
        while i < self.configs.len()
            invariant
                self.wf(),
                old(self).wf(),
                i <= self.configs@.len(),
                self.configs@ == old(self).configs@,
                self.global_config == old(self).global_config,
                self.support_pull_config == old(self).support_pull_config,
                match uri_index(old(self).docs(), uri@) {
                    Some(k) => self.docs() == old(self).docs().remove(k),
                    None => self.docs() == old(self).docs(),
                },
                configs_wf(self.configs@),
                forall|j: int| 0 <= j < i ==> (#[trigger] self.configs@[j]).0@ != uri@,
            decreases self.configs@.len() - i,
        {
            if str_eq(self.configs[i].0.as_str(), uri) {
                proof {
                    lemma_config_index(self.configs@, uri@, i as int);
                }
                self.configs.remove(i);
                return;
            }
            i = i + 1;
        }
    }

    /// Replaces the text and the parse of an open document; nothing happens
    /// for a URI that is not open.
    pub fn update_document(&mut self, uri: &str, text: String, root: SyntaxNode, syntax_errors: Vec<SyntaxError>)
        requires
            old(self).wf(),
            indexable(text@),
        ensures
            final(self).wf(),
            match uri_index(old(self).docs(), uri@) {
                Some(i) => final(self).docs() == old(self).docs().update(
                    i,
                    Document { uri: old(self).docs()[i].uri, text, root, syntax_errors },
                ),
                None => final(self).docs() == old(self).docs(),
            },
            final(self).config_entries() == old(self).config_entries(),
            final(self).global() == old(self).global(),
            final(self).pulls_config() == old(self).pulls_config(),
    {
        match self.find_document(uri) {
            Some(i) => {
                let doc_uri = self.documents[i].uri.clone();
                self.documents.set(i, Document { uri: doc_uri, text, root, syntax_errors });
            },
            None => {},
        }
    }

    /// Sets the configuration of a document; `None` makes it inherit the
    /// global configuration.
    pub fn set_config(&mut self, uri: String, config: Option<ServiceConfig>)
        requires
            old(self).wf(),
        ensures
            final(self).wf(),
            configs_stored(
                old(self).config_entries(),
                final(self).config_entries(),
                uri@,
                match config {
                    Some(c) => ConfigState::Override(c),
                    None => ConfigState::Inherit,
                },
            ),
            final(self).docs() == old(self).docs(),
            final(self).global() == old(self).global(),
            final(self).pulls_config() == old(self).pulls_config(),
    {
        self.store_config(uri, ConfigState::from_option(config));
    }

    /// The configuration of documents that have none of their own.
    pub fn global_config(&self) -> (r: &ServiceConfig)
        ensures
            *r == self.global(),
    {
        &self.global_config
    }

    /// Whether the client supplies configurations on request.
    pub fn support_pull_config(&self) -> (r: bool)
        ensures
            r == self.pulls_config(),
    {
        self.support_pull_config
    }

    /// The configuration that applies to a document: its own if it has one,
    /// else the global one.
    pub fn config_of(&self, uri: &str) -> (r: &ServiceConfig)
        requires
            self.wf(),
        ensures
            *r == match config_index(self.config_entries(), uri@) {
                Some(i) => match self.config_entries()[i].1 {
                    ConfigState::Override(c) => c,
                    ConfigState::Inherit => self.global(),
                },
                None => self.global(),
            },
    {
        let mut i: usize = 0;
        while i < self.configs.len()
            invariant
                self.wf(),
                i <= self.configs@.len(),
                forall|j: int| 0 <= j < i ==> (#[trigger] self.configs@[j]).0@ != uri@,
            decreases self.configs@.len() - i,
        {
            if str_eq(self.configs[i].0.as_str(), uri) {
                proof {
                    lemma_config_index(self.configs@, uri@, i as int);
                }
                return self.configs[i].1.get_or_global(&self.global_config);
            }
            i = i + 1;
        }
        &self.global_config
    }

    /// Replaces the global configuration.
    pub fn set_global_config(&mut self, config: ServiceConfig)
        ensures
            final(self).global() == config,
            final(self).docs() == old(self).docs(),
            final(self).config_entries() == old(self).config_entries(),
            final(self).pulls_config() == old(self).pulls_config(),
    {
        self.global_config = config;
    }

    /// The in-place reparse that the changes allow on an open document (see
    /// `incremental_plan`); `None` also when the URI is not open.
    pub fn plan_change(&self, uri: &str, changes: &Vec<ContentChange>) -> (r: Option<IncrementalChange>)
        requires
            self.wf(),
        ensures
            match uri_index(self.docs(), uri@) {
                Some(i) => match incremental_plan(self.docs()[i].text@, self.docs()[i].root, changes@) {
                    Some(p) => r matches Some(c) && c@ == p,
                    None => r is None,
                },
                None => r is None,
            },
    {
        match self.find_document(uri) {
            Some(i) => {
                let doc = &self.documents[i];
                plan_incremental(&doc.text, &doc.root, changes)
            },
            None => None,
        }
    }

    /// Completes an in-place reparse of an open document: the new text, the
    /// root with the reparsed node in place, and the errors merged (see
    /// `merged_errors`) from the old ones and the node's `fresh_errors`.
    /// Returns whether the document was updated: not when the URI is not
    /// open, nor when a moved error range would leave `u32`.
    pub fn finish_incremental(
        &mut self,
        uri: &str,
        change: IncrementalChange,
        root: SyntaxNode,
        fresh_errors: Vec<SyntaxError>,
    ) -> (r: bool)
        requires
            old(self).wf(),
            indexable(change.text@),
            change.range.start <= change.range.end,
        ensures
            final(self).wf(),
            final(self).config_entries() == old(self).config_entries(),
            final(self).global() == old(self).global(),
            final(self).pulls_config() == old(self).pulls_config(),
            match uri_index(old(self).docs(), uri@) {
                Some(i) => match merged_errors(
                    error_views(old(self).docs()[i].syntax_errors@),
                    change.node_range,
                    (change.range.end - change.range.start) as u32,
                    change.inserted,
                    error_views(fresh_errors@),
                ) {
                    Some(m) => r && final(self).docs().len() == old(self).docs().len() && (forall|j: int|
                        0 <= j < old(self).docs().len() && j != i ==> #[trigger] final(self).docs()[j]
                            == old(self).docs()[j]) && final(self).docs()[i].uri == old(self).docs()[i].uri
                        && final(self).docs()[i].text@ == change.text@ && final(self).docs()[i].root == root
                        && error_views(final(self).docs()[i].syntax_errors@) == m,
                    None => !r && final(self).docs() == old(self).docs(),
                },
                None => !r && final(self).docs() == old(self).docs(),
            },
    {
        match self.find_document(uri) {
            Some(i) => {
                let removed = change.range.end - change.range.start;
                let merged = match merge_syntax_errors(
                    &self.documents[i].syntax_errors,
                    change.node_range,
                    removed,
                    change.inserted,
                    fresh_errors,
                ) {
                    Some(m) => m,
                    None => return false,
                };
                self.update_document(uri, change.text, root, merged);
                true
            },
            None => false,
        }
    }
}

/// A stored document is the one found under its URI afterwards; every other
/// URI finds what it found before; and no URI is listed twice.
pub proof fn law_store_then_find(old: Seq<Document>, new: Seq<Document>, doc: Document, other: Seq<char>)
    requires
        docs_wf(old),
        indexable(doc.text@),
        docs_stored(old, new, doc),
        other != doc.uri@,
    ensures
        docs_wf(new),
        uri_index(new, doc.uri@) matches Some(i) && new[i] == doc,
        match uri_index(old, other) {
            Some(j) => uri_index(new, other) matches Some(k) && new[k] == old[j],
            None => uri_index(new, other) is None,
        },
{
    match uri_index(old, doc.uri@) {
        Some(i) => {
            assert(new == old.update(i, doc));
            assert(old[i].uri@ == doc.uri@);
            assert forall|a: int, b: int|
                0 <= a < new.len() && 0 <= b < new.len() && a != b implies (#[trigger] new[a]).uri@ != (
                #[trigger] new[b]).uri@ by {
                if a != i && b != i {
                    assert(new[a] == old[a] && new[b] == old[b]);
                } else if a == i {
                    assert(new[b] == old[b]);
                } else {
                    assert(new[a] == old[a]);
                }
            }
            assert forall|a: int| 0 <= a < new.len() implies indexable((#[trigger] new[a]).text@) by {
                if a != i {
                    assert(new[a] == old[a]);
                }
            }
            lemma_uri_index(new, doc.uri@, i);
            match uri_index(old, other) {
                Some(j) => {
                    assert(old[j].uri@ == other);
                    assert(j != i);
                    assert(new[j] == old[j]);
                    lemma_uri_index(new, other, j);
                },
                None => {
                    if exists|k: int| 0 <= k < new.len() && (#[trigger] new[k]).uri@ == other {
                        let k = choose|k: int| 0 <= k < new.len() && (#[trigger] new[k]).uri@ == other;
                        assert(k != i);
                        assert(old[k] == new[k]);
                    }
                },
            }
        },
        None => {
            assert(new == old.push(doc));
            assert forall|a: int, b: int|
                0 <= a < new.len() && 0 <= b < new.len() && a != b implies (#[trigger] new[a]).uri@ != (
                #[trigger] new[b]).uri@ by {
                if a < old.len() && b < old.len() {
                    assert(new[a] == old[a] && new[b] == old[b]);
                } else if a < old.len() {
                    assert(new[a] == old[a]);
                    if old[a].uri@ == doc.uri@ {
                        assert(exists|k: int| 0 <= k < old.len() && (#[trigger] old[k]).uri@ == doc.uri@);
                    }
                } else {
                    assert(new[b] == old[b]);
                    if old[b].uri@ == doc.uri@ {
                        assert(exists|k: int| 0 <= k < old.len() && (#[trigger] old[k]).uri@ == doc.uri@);
                    }
                }
            }
            assert forall|a: int| 0 <= a < new.len() implies indexable((#[trigger] new[a]).text@) by {
                if a < old.len() {
                    assert(new[a] == old[a]);
                }
            }
            lemma_uri_index(new, doc.uri@, old.len() as int);
            match uri_index(old, other) {
                Some(j) => {
                    assert(new[j] == old[j]);
                    lemma_uri_index(new, other, j);
                },
                None => {
                    if exists|k: int| 0 <= k < new.len() && (#[trigger] new[k]).uri@ == other {
                        let k = choose|k: int| 0 <= k < new.len() && (#[trigger] new[k]).uri@ == other;
                        assert(k < old.len());
                        assert(old[k] == new[k]);
                    }
                },
            }
        },
    }
}

/// A closed document is no longer found, and every other URI finds what it
/// found before.
pub proof fn law_close_then_gone(old: Seq<Document>, uri: Seq<char>, other: Seq<char>)
    requires
        docs_wf(old),
        uri_index(old, uri) is Some,
        other != uri,
    ensures
        uri_index(old.remove(uri_index(old, uri).unwrap()), uri) is None,
        match uri_index(old, other) {
            Some(j) => uri_index(old.remove(uri_index(old, uri).unwrap()), other) matches Some(k) && old.remove(
                uri_index(old, uri).unwrap(),
            )[k] == old[j],
            None => uri_index(old.remove(uri_index(old, uri).unwrap()), other) is None,
        },
{
    let i = uri_index(old, uri).unwrap();
    let new = old.remove(i);
    assert(old[i].uri@ == uri);
    assert(docs_wf(new)) by {
        assert forall|a: int, b: int|
            0 <= a < new.len() && 0 <= b < new.len() && a != b implies (#[trigger] new[a]).uri@ != (
            #[trigger] new[b]).uri@ by {
            let oa = if a < i { a } else { a + 1 };
            let ob = if b < i { b } else { b + 1 };
            assert(new[a] == old[oa] && new[b] == old[ob]);
        }
        assert forall|a: int| 0 <= a < new.len() implies indexable((#[trigger] new[a]).text@) by {
            let oa = if a < i { a } else { a + 1 };
            assert(new[a] == old[oa]);
        }
    }
    if exists|k: int| 0 <= k < new.len() && (#[trigger] new[k]).uri@ == uri {
        let k = choose|k: int| 0 <= k < new.len() && (#[trigger] new[k]).uri@ == uri;
        let ok = if k < i { k } else { k + 1 };
        assert(new[k] == old[ok]);
        assert(ok != i);
    }
    match uri_index(old, other) {
        Some(j) => {
            assert(old[j].uri@ == other);
            assert(j != i);
            let k = if j < i { j } else { j - 1 };
            assert(new[k] == old[j]);
            lemma_uri_index(new, other, k);
        },
        None => {
            if exists|k: int| 0 <= k < new.len() && (#[trigger] new[k]).uri@ == other {
                let k = choose|k: int| 0 <= k < new.len() && (#[trigger] new[k]).uri@ == other;
                let ok = if k < i { k } else { k + 1 };
                assert(new[k] == old[ok]);
            }
        },
    }
}

/// After a document's configuration is set, it is found under its URI.
pub proof fn law_config_set_then_found(
    old: Seq<(String, ConfigState)>,
    new: Seq<(String, ConfigState)>,
    uri: Seq<char>,
    state: ConfigState,
)
    requires
        configs_wf(old),
        configs_wf(new),
        configs_stored(old, new, uri, state),
    ensures
        config_index(new, uri) matches Some(i) && new[i].1 == state,
{
    match config_index(old, uri) {
        Some(i) => {
            lemma_config_index(new, uri, i);
        },
        None => {
            lemma_config_index(new, uri, new.len() - 1);
        },
    }
}


/// The documents and configurations after closing `uri`: its entries, if
/// any, are removed and everything else stays.
pub open spec fn closed(
    old_docs: Seq<Document>,
    new_docs: Seq<Document>,
    old_configs: Seq<(String, ConfigState)>,
    new_configs: Seq<(String, ConfigState)>,
    uri: Seq<char>,
) -> bool {
    &&& match uri_index(old_docs, uri) {
        Some(i) => new_docs == old_docs.remove(i),
        None => new_docs == old_docs,
    }
    &&& match config_index(old_configs, uri) {
        Some(i) => new_configs == old_configs.remove(i),
        None => new_configs == old_configs,
    }
}

/// The URIs of a list of documents.
pub open spec fn uris_of(docs: Seq<Document>) -> Seq<Seq<char>> {
    docs.map_values(|d: Document| d.uri@)
}

/// Closing a document leaves every other document open and that one
/// closed, and no configuration for its URI.
pub proof fn law_close_forgets(
    old_docs: Seq<Document>,
    new_docs: Seq<Document>,
    old_configs: Seq<(String, ConfigState)>,
    new_configs: Seq<(String, ConfigState)>,
    uri: Seq<char>,
)
    requires
        docs_wf(old_docs),
        configs_wf(old_configs),
        closed(old_docs, new_docs, old_configs, new_configs, uri),
    ensures
        uris_of(new_docs).to_set() == uris_of(old_docs).to_set().remove(uri),
        config_index(new_configs, uri) is None,
{
    let before = uris_of(old_docs);
    let after = uris_of(new_docs);
    assert forall|x: Seq<char>| after.to_set().contains(x) <==> before.to_set().remove(uri).contains(x) by {
        if after.contains(x) {
            let j = choose|j: int| 0 <= j < after.len() && after[j] == x;
            match uri_index(old_docs, uri) {
                Some(i) => {
                    let k = if j < i {
                        j
                    } else {
                        j + 1
                    };
                    assert(before[k] == x);
                    assert(old_docs[k].uri@ != old_docs[i].uri@);
                },
                None => {
                    assert(before[j] == x);
                },
            }
            assert(before.contains(x));
        }
        if before.contains(x) && x != uri {
            let k = choose|k: int| 0 <= k < before.len() && before[k] == x;
            match uri_index(old_docs, uri) {
                Some(i) => {
                    assert(k != i);
                    let j = if k < i {
                        k
                    } else {
                        k - 1
                    };
                    assert(after[j] == x);
                },
                None => {
                    assert(after[k] == x);
                },
            }
            assert(after.contains(x));
        }
        if after.contains(x) && x == uri {
            let j = choose|j: int| 0 <= j < after.len() && after[j] == x;
            match uri_index(old_docs, uri) {
                Some(i) => {
                    let k = if j < i {
                        j
                    } else {
                        j + 1
                    };
                    assert(old_docs[k].uri@ == uri);
                    assert(old_docs[k].uri@ != old_docs[i].uri@);
                },
                None => {
                    assert(old_docs[j].uri@ == uri);
                },
            }
        }
    }
    assert(after.to_set() =~= before.to_set().remove(uri));
    if exists|j: int| 0 <= j < new_configs.len() && (#[trigger] new_configs[j]).0@ == uri {
        let j = choose|j: int| 0 <= j < new_configs.len() && (#[trigger] new_configs[j]).0@ == uri;
        match config_index(old_configs, uri) {
            Some(i) => {
                let k = if j < i {
                    j
                } else {
                    j + 1
                };
                assert(old_configs[k].0@ == uri);
                assert(old_configs[k].0@ != old_configs[i].0@);
            },
            None => {
                assert(old_configs[j].0@ == uri);
            },
        }
    }
}

/// Opening a document that was not open and closing it again leaves the
/// documents as they were.
pub proof fn law_open_then_close(before: Seq<Document>, mid: Seq<Document>, after: Seq<Document>, doc: Document)
    requires
        docs_wf(before),
        docs_wf(mid),
        uri_index(before, doc.uri@) is None,
        docs_stored(before, mid, doc),
        match uri_index(mid, doc.uri@) {
            Some(i) => after == mid.remove(i),
            None => after == mid,
        },
    ensures
        after == before,
{
    lemma_uri_index(mid, doc.uri@, mid.len() - 1);
    assert(after =~= before);
}

} // verus!

