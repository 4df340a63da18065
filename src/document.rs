//! The open documents and their indexes, and the queries answered from them.
use vstd::prelude::*;
use vstd::utf8::encode_utf8;
use crate::position::{Position, Range, range};
use crate::facts::{Diagnostic, Hover, HoverFact, SourceError, Symbol, hover_fact, hover_facts};
use crate::tokens::{Token, token_hover_facts, token_hovers, tokens_fit};
use crate::ast::{Program, program_fits};
use crate::index::{index_program, point_range, program_facts};
use crate::query::{best_match, find_best, ranges_of};
use crate::completion::{
    CompletionItem, complete, completions, items_view, partial_at, partial_identifier,
};

verus! {

/// What the parser and the type checker made of a document's text.
pub enum Analysis {
    /// The text parsed; the type checker reported `type_errors`.
    Parsed { program: Program, type_errors: Vec<SourceError> },
    /// The text did not parse.
    Failed { errors: Vec<SourceError> },
}

pub open spec fn analysis_fits(a: Analysis) -> bool {
    a matches Analysis::Parsed { program, .. } ==> program_fits(program)
}

/// The index of one document.
pub struct FileState {
    pub content: String,
    pub symbols: Vec<Symbol>,
    pub hovers: Vec<(Range, Hover)>,
    pub definitions: Vec<(Range, Range)>,
}

/// A document index as a value.
pub struct FileView {
    pub content: Seq<char>,
    pub symbols: Seq<Symbol>,
    pub hovers: Seq<HoverFact>,
    pub defs: Seq<(Range, Range)>,
}

pub open spec fn file_view(f: FileState) -> FileView {
    FileView {
        content: f.content@,
        symbols: f.symbols@,
        hovers: hover_facts(f.hovers@),
        defs: f.definitions@,
    }
}

pub open spec fn empty_view() -> FileView {
    FileView { content: seq![], symbols: seq![], hovers: seq![], defs: seq![] }
}

/// Where the document `u` stands in a list of documents.
pub open spec fn doc_index(docs: Seq<(Seq<char>, FileView)>, u: Seq<char>) -> Option<int>
    decreases docs.len(),
{
    if docs.len() == 0 {
        None
    } else if docs.last().0 == u {
        Some(docs.len() - 1)
    } else {
        doc_index(docs.drop_last(), u)
    }
}

/// The index of document `u`, if it is open.
pub open spec fn doc_of(docs: Seq<(Seq<char>, FileView)>, u: Seq<char>) -> Option<FileView> {
    match doc_index(docs, u) {
        Some(i) => Some(docs[i].1),
        None => None,
    }
}

/// The list with the index of `u` replaced by `v`, or `u` added at the end.
pub open spec fn set_doc(docs: Seq<(Seq<char>, FileView)>, u: Seq<char>, v: FileView) -> Seq<
    (Seq<char>, FileView),
> {
    match doc_index(docs, u) {
        Some(i) => docs.update(i, (u, v)),
        None => docs.push((u, v)),
    }
}

/// The index of a document after a change to `content`: the token hovers
/// replace the old hovers; when the text parsed, the program's symbols (in
/// declaration order) and definition links replace the old ones and its hovers follow
/// the token hovers; otherwise the old symbols and links stay.
pub open spec fn updated_view(
    prev: Option<FileView>,
    uri: String,
    content: Seq<char>,
    tokens: Seq<Token>,
    a: Analysis,
) -> FileView {
    let base = match prev {
        Some(v) => v,
        None => empty_view(),
    };
    match a {
        Analysis::Parsed { program, .. } => {
            let f = program_facts(uri, program);
            FileView {
                content,
                symbols: f.symbols,
                hovers: token_hover_facts(tokens) + f.hovers,
                defs: f.defs,
            }
        },
        Analysis::Failed { .. } => FileView {
            content,
            symbols: base.symbols,
            hovers: token_hover_facts(tokens),
            defs: base.defs,
        },
    }
}

/// The documents after a change to document `uri`.
pub open spec fn after_update(
    docs: Seq<(Seq<char>, FileView)>,
    uri: String,
    content: Seq<char>,
    tokens: Seq<Token>,
    a: Analysis,
) -> Seq<(Seq<char>, FileView)> {
    set_doc(docs, uri@, updated_view(doc_of(docs, uri@), uri, content, tokens, a))
}

/// The documents after document `u` is closed: its symbols are cleared; its
/// hovers and definition links stay.
pub open spec fn after_close(docs: Seq<(Seq<char>, FileView)>, u: Seq<char>) -> Seq<
    (Seq<char>, FileView),
> {
    match doc_index(docs, u) {
        Some(i) => docs.update(i, (u, FileView { symbols: seq![], ..docs[i].1 })),
        None => docs,
    }
}

pub open spec fn diagnostic_view(d: Diagnostic) -> (Range, Seq<char>) {
    (d.range, d.message@)
}

pub open spec fn diagnostics_view(s: Seq<Diagnostic>) -> Seq<(Range, Seq<char>)> {
    s.map_values(|d: Diagnostic| diagnostic_view(d))
}

/// The diagnostics of a list of errors: each at its location, with its message.
pub open spec fn errors_view(s: Seq<SourceError>) -> Seq<(Range, Seq<char>)> {
    s.map_values(|e: SourceError| (point_range(e.loc), e.message@))
}

/// The diagnostics of an analysis: the type errors or the parse errors.
pub open spec fn analysis_errors(a: Analysis) -> Seq<(Range, Seq<char>)> {
    match a {
        Analysis::Parsed { type_errors, .. } => errors_view(type_errors@),
        Analysis::Failed { errors } => errors_view(errors@),
    }
}

/// The symbols of all documents, document after document.
pub open spec fn all_symbols(docs: Seq<(Seq<char>, FileView)>) -> Seq<Symbol>
    decreases docs.len(),
{
    if docs.len() == 0 {
        seq![]
    } else {
        all_symbols(docs.drop_last()) + docs.last().1.symbols
    }
}

pub open spec fn fact_ranges(s: Seq<HoverFact>) -> Seq<Range> {
    s.map_values(|h: HoverFact| h.0)
}

/// The open documents, each with its index.
pub struct State {
    files: Vec<(String, FileState)>,
}

impl View for State {
    type V = Seq<(Seq<char>, FileView)>;

    closed spec fn view(&self) -> Seq<(Seq<char>, FileView)> {
        self.files@.map_values(|e: (String, FileState)| (e.0@, file_view(e.1)))
    }
}

proof fn lemma_doc_index_range(docs: Seq<(Seq<char>, FileView)>, u: Seq<char>)
    ensures
        doc_index(docs, u) matches Some(i) ==> 0 <= i < docs.len() && docs[i].0 == u,
    decreases docs.len(),
{
    if docs.len() > 0 && docs.last().0 != u {
        lemma_doc_index_range(docs.drop_last(), u);
    }
}

/// A copy of a symbol.
fn copy_symbol(s: &Symbol) -> (r: Symbol)
    ensures
        r == *s,
{
    let container = match &s.container {
        Some(c) => Some(c.clone()),
        None => None,
    };
    Symbol { name: s.name.clone(), kind: s.kind, uri: s.uri.clone(), range: s.range, container }
}

/// Appends copies of `src` to `dst`.
fn extend_symbols(dst: &mut Vec<Symbol>, src: &Vec<Symbol>)
    ensures
        final(dst)@ == old(dst)@ + src@,
{
    let mut i: usize = 0;
    while i < src.len()
        invariant
            i <= src.len(),
            dst@ == old(dst)@ + src@.subrange(0, i as int),
        decreases src.len() - i,
    {
        dst.push(copy_symbol(&src[i]));
        assert(dst@ =~= old(dst)@ + src@.subrange(0, i + 1));
        i = i + 1;
    }
    assert(src@.subrange(0, src.len() as int) =~= src@);
}

/// The diagnostics of a list of errors.
fn diagnostics(errors: &Vec<SourceError>) -> (r: Vec<Diagnostic>)
    ensures
        diagnostics_view(r@) == errors_view(errors@),
{
    let mut out: Vec<Diagnostic> = Vec::new();
    let mut i: usize = 0;
    while i < errors.len()
        invariant
            i <= errors.len(),
            diagnostics_view(out@) == errors_view(errors@.subrange(0, i as int)),
        decreases errors.len() - i,
    {
        let e = &errors[i];
        let d = Diagnostic { range: range(&e.loc), message: e.message.clone() };
        let ghost before = out@;
        out.push(d);
        assert(diagnostics_view(out@) =~= diagnostics_view(before).push(diagnostic_view(d)));
        assert(errors_view(errors@.subrange(0, i + 1)) =~= errors_view(
            errors@.subrange(0, i as int),
        ).push((point_range(e.loc), e.message@)));
        i = i + 1;
    }
    assert(errors@.subrange(0, errors.len() as int) =~= errors@);
    out
}

impl State {
    pub fn new() -> (r: State)
        ensures
            r@ == Seq::<(Seq<char>, FileView)>::empty(),
    {
        let r = State { files: Vec::new() };
        assert(r@ =~= Seq::<(Seq<char>, FileView)>::empty());
        r
    }

    /// Where document `uri` stands, if it is open.
    fn find(&self, uri: &String) -> (r: Option<usize>)
        ensures
            r == (match doc_index(self@, uri@) {
                Some(i) => Some(i as usize),
                None => None::<usize>,
            }),
            r matches Some(i) ==> i < self.files.len(),
    {
        let mut i = self.files.len();
        proof {
            assert(self@.subrange(0, i as int) =~= self@);
        }
        while i > 0
            invariant
                i <= self.files.len(),
                self@.len() == self.files.len(),
                doc_index(self@, uri@) == doc_index(self@.subrange(0, i as int), uri@),
            decreases i,
        {
            let ghost sub = self@.subrange(0, i as int);
            assert(sub.drop_last() =~= self@.subrange(0, i - 1));
            assert(sub.last().0 == self.files@[i - 1].0@);
            if self.files[i - 1].0 == *uri {
                return Some(i - 1);
            }
            i = i - 1;
        }
        None
    }

    /// Re-indexes document `uri` after its text became `content`, given the
    /// tokens of that text and what the parser and type checker made of it,
    /// and returns the diagnostics to publish.
    pub fn update(
        &mut self,
        uri: &String,
        content: &String,
        tokens: &Vec<Token>,
        analysis: Analysis,
    ) -> (r: Vec<Diagnostic>)
        requires
            tokens_fit(tokens@),
            analysis_fits(analysis),
        ensures
            final(self)@ == after_update(old(self)@, *uri, content@, tokens@, analysis),
            diagnostics_view(r@) == analysis_errors(analysis),
    {
        let ghost a = analysis;
        let mut hovers = token_hovers(tokens);
        let found = self.find(uri);
        proof {
            lemma_doc_index_range(self@, uri@);
        }
        let ghost prev = doc_of(self@, uri@);
        let (old_symbols, old_definitions) = match found {
            Some(i) => {
                let (_, f) = self.files.remove(i);
                proof {
                    assert(file_view(f) == prev->0);
                }
                (f.symbols, f.definitions)
            },
            None => (Vec::new(), Vec::new()),
        };
        let ghost removed = self.files@;
        let (file, diags) = match analysis {
            Analysis::Parsed { program, type_errors } => {
                let idx = index_program(uri, &program);
                let mut program_hovers = idx.hovers;
                let ghost th = hovers@;
                hovers.append(&mut program_hovers);
                proof {
                    assert(hover_facts(hovers@) =~= hover_facts(th) + program_facts(*uri, program).hovers);
                }
                let f = FileState {
                    content: content.clone(),
                    symbols: idx.symbols,
                    hovers,
                    definitions: idx.definitions,
                };
                (f, diagnostics(&type_errors))
            },
            Analysis::Failed { errors } => {
                let f = FileState {
                    content: content.clone(),
                    symbols: old_symbols,
                    hovers,
                    definitions: old_definitions,
                };
                proof {
                    if prev is None {
                        assert(f.symbols@ =~= seq![]);
                        assert(f.definitions@ =~= seq![]);
                    }
                }
                (f, diagnostics(&errors))
            },
        };
        let ghost v = file_view(file);
        assert(v == updated_view(prev, *uri, content@, tokens@, a));
        match found {
            Some(i) => {
                self.files.insert(i, (uri.clone(), file));
                proof {
                    assert(self.files@ =~= old(self).files@.update(i as int, (*uri, file)));
                    assert(self@ =~= old(self)@.update(i as int, (uri@, v)));
                }
            },
            None => {
                self.files.push((uri.clone(), file));
                proof {
                    assert(self@ =~= old(self)@.push((uri@, v)));
                }
            },
        }
        diags
    }

    /// Clears the symbols of document `uri`; its hovers and definition links
    /// stay.
    pub fn close(&mut self, uri: &String)
        ensures
            final(self)@ == after_close(old(self)@, uri@),
    {
        let found = self.find(uri);
        proof {
            lemma_doc_index_range(self@, uri@);
        }
        match found {
            Some(i) => {
                let (k, f) = self.files.remove(i);
                let g = FileState {
                    content: f.content,
                    symbols: Vec::new(),
                    hovers: f.hovers,
                    definitions: f.definitions,
                };
                self.files.insert(i, (k, g));
                proof {
                    assert(self.files@ =~= old(self).files@.update(i as int, (k, g)));
                    assert(file_view(g) =~= (FileView { symbols: seq![], ..old(self)@[i as int].1 }));
                    assert(self@ =~= after_close(old(self)@, uri@));
                }
            },
            None => {},
        }
    }

    /// The hover of document `uri` whose range is the most specific one that
    /// contains `p`.
    pub fn hover(&self, uri: &String, p: &Position) -> (r: Option<Hover>)
        ensures
            match doc_of(self@, uri@) {
                None => r is None,
                Some(v) => match best_match(fact_ranges(v.hovers), *p) {
                    None => r is None,
                    Some(i) => r matches Some(h) && h.contents@ == v.hovers[i].1 && h.range
                        == v.hovers[i].2,
                },
            },
    {
        proof {
            lemma_doc_index_range(self@, uri@);
        }
        match self.find(uri) {
            None => None,
            Some(i) => {
                let f = &self.files[i].1;
                proof {
                    assert(self@[i as int] == (self.files@[i as int].0@, file_view(*f)));
                    assert(fact_ranges(hover_facts(f.hovers@)) =~= ranges_of(f.hovers@));
                }
                match find_best(&f.hovers, p) {
                    None => None,
                    Some(j) => {
                        let h = &f.hovers[j].1;
                        assert(hover_facts(f.hovers@)[j as int] == hover_fact(f.hovers@[j as int]));
                        Some(Hover { contents: h.contents.clone(), range: h.range })
                    },
                }
            },
        }
    }

    /// The declaration range linked from the most specific use range of
    /// document `uri` that contains `p`.
    pub fn goto_definition(&self, uri: &String, p: &Position) -> (r: Option<Range>)
        ensures
            match doc_of(self@, uri@) {
                None => r is None,
                Some(v) => match best_match(ranges_of(v.defs), *p) {
                    None => r is None,
                    Some(i) => r == Some(v.defs[i].1),
                },
            },
    {
        proof {
            lemma_doc_index_range(self@, uri@);
        }
        match self.find(uri) {
            None => None,
            Some(i) => {
                let f = &self.files[i].1;
                proof {
                    assert(self@[i as int] == (self.files@[i as int].0@, file_view(*f)));
                }
                match find_best(&f.definitions, p) {
                    None => None,
                    Some(j) => Some(f.definitions[j].1),
                }
            },
        }
    }

    /// The symbols of document `uri`.
    pub fn document_symbol(&self, uri: &String) -> (r: Vec<Symbol>)
        ensures
            r@ == (match doc_of(self@, uri@) {
                Some(v) => v.symbols,
                None => seq![],
            }),
    {
        proof {
            lemma_doc_index_range(self@, uri@);
        }
        let mut out: Vec<Symbol> = Vec::new();
        match self.find(uri) {
            None => {},
            Some(i) => {
                extend_symbols(&mut out, &self.files[i].1.symbols);
                assert(out@ =~= self.files@[i as int].1.symbols@);
            },
        }
        out
    }

    /// The symbols of all open documents.
    pub fn symbol(&self) -> (r: Vec<Symbol>)
        ensures
            r@ == all_symbols(self@),
    {
        let mut out: Vec<Symbol> = Vec::new();
        let mut i: usize = 0;
        while i < self.files.len()
            invariant
                i <= self.files.len(),
                out@ == all_symbols(self@.subrange(0, i as int)),
            decreases self.files.len() - i,
        {
            extend_symbols(&mut out, &self.files[i].1.symbols);
            proof {
                let s = self@.subrange(0, i + 1);
                assert(s.drop_last() =~= self@.subrange(0, i as int));
            }
            i = i + 1;
        }
        assert(self@.subrange(0, self.files.len() as int) =~= self@);
        out
    }

    /// The builtins offered for the identifier typed just before `p` in
    /// document `uri`; none when the document is not open, when `p` lies
    /// outside its text, or when no letter comes just before `p`.
    pub fn completion(&self, uri: &String, p: &Position) -> (r: Option<Vec<CompletionItem>>)
        ensures
            match doc_of(self@, uri@) {
                None => r is None,
                Some(v) => match partial_at(encode_utf8(v.content), p.line as nat, p.character as nat) {
                    None => r is None,
                    Some(part) => r matches Some(items) && items_view(items@) == completions(part),
                },
            },
    {
        proof {
            lemma_doc_index_range(self@, uri@);
        }
        match self.find(uri) {
            None => None,
            Some(i) => {
                let f = &self.files[i].1;
                match partial_identifier(f.content.as_str(), p.line, p.character) {
                    None => None,
                    Some(part) => Some(complete(part.as_slice())),
                }
            },
        }
    }
}

/// Changing a document twice to the same text, with the same tokens and the
/// same analysis, leaves the same documents as changing it once.
pub proof fn lemma_update_idempotent(
    docs: Seq<(Seq<char>, FileView)>,
    uri: String,
    content: Seq<char>,
    tokens: Seq<Token>,
    a: Analysis,
)
    ensures
        after_update(after_update(docs, uri, content, tokens, a), uri, content, tokens, a)
            == after_update(docs, uri, content, tokens, a),
{
    let v = updated_view(doc_of(docs, uri@), uri, content, tokens, a);
    lemma_set_doc_get(docs, uri@, v);
    assert(updated_view(Some(v), uri, content, tokens, a) == v);
    lemma_set_doc_twice(docs, uri@, v);
}

proof fn lemma_set_doc_get(docs: Seq<(Seq<char>, FileView)>, u: Seq<char>, v: FileView)
    ensures
        doc_of(set_doc(docs, u, v), u) == Some(v),
{
    lemma_doc_index_range(docs, u);
    match doc_index(docs, u) {
        Some(i) => lemma_doc_index_update(docs, u, i, v),
        None => {
            let d = docs.push((u, v));
            assert(d.last().0 == u);
        },
    }
}

proof fn lemma_doc_index_update(docs: Seq<(Seq<char>, FileView)>, u: Seq<char>, i: int, v: FileView)
    requires
        doc_index(docs, u) == Some(i),
    ensures
        doc_index(docs.update(i, (u, v)), u) == Some(i),
    decreases docs.len(),
{
    lemma_doc_index_range(docs, u);
    let d = docs.update(i, (u, v));
    if i < docs.len() - 1 {
        assert(d.drop_last() =~= docs.drop_last().update(i, (u, v)));
        lemma_doc_index_update(docs.drop_last(), u, i, v);
    }
}

proof fn lemma_set_doc_twice(docs: Seq<(Seq<char>, FileView)>, u: Seq<char>, v: FileView)
    ensures
        set_doc(set_doc(docs, u, v), u, v) == set_doc(docs, u, v),
{
    lemma_doc_index_range(docs, u);
    let once = set_doc(docs, u, v);
    match doc_index(docs, u) {
        Some(i) => {
            lemma_doc_index_update(docs, u, i, v);
            assert(once.update(i, (u, v)) =~= once);
        },
        None => {
            assert(once.last().0 == u);
            assert(doc_index(once, u) == Some(docs.len() as int));
            assert(once.update(docs.len() as int, (u, v)) =~= once);
        },
    }
}

} // verus!
