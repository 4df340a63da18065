//! The depth-first walk that turns a program into symbols, hovers and
//! definition links.
use vstd::prelude::*;
use crate::position::{Loc, Range, loc_pos, name_range, byte_len, range, range2, range_name};
use crate::facts::{Hover, HoverFact, Symbol, SymbolKind, hover_fact, hover_facts};
use crate::ast::{
    class_fits, expr_fits, exprs_fit, field_fits, name_fits, program_fits, stmt_fits, stmts_fit,
    var_fits, vars_fit, Block, ClassDef, DeclSite, Expr, FieldDef, Program, Stmt, VarDef,
};

verus! {

/// What a walk produces, in order: symbols, hovers, and definition links from
/// a use range to a declaration range.
pub struct Facts {
    pub symbols: Seq<Symbol>,
    pub hovers: Seq<HoverFact>,
    pub defs: Seq<(Range, Range)>,
}

pub open spec fn no_facts() -> Facts {
    Facts { symbols: seq![], hovers: seq![], defs: seq![] }
}

/// The facts of `a` followed by those of `b`.
pub open spec fn cat(a: Facts, b: Facts) -> Facts {
    Facts { symbols: a.symbols + b.symbols, hovers: a.hovers + b.hovers, defs: a.defs + b.defs }
}

pub open spec fn one_hover(h: HoverFact) -> Facts {
    Facts { symbols: seq![], hovers: seq![h], defs: seq![] }
}

pub open spec fn one_def(d: (Range, Range)) -> Facts {
    Facts { symbols: seq![], hovers: seq![], defs: seq![d] }
}

pub open spec fn one_symbol(s: Symbol) -> Facts {
    Facts { symbols: seq![s], hovers: seq![], defs: seq![] }
}

pub open spec fn point_range(loc: Loc) -> Range {
    Range { start: loc_pos(loc), end: loc_pos(loc) }
}

/// The range of `name` written at `loc`.
pub open spec fn name_span(loc: Loc, name: String) -> Range {
    name_range(loc, byte_len(name@))
}

/// The shown type: the inferred one, or a placeholder where there is none.
pub open spec fn type_text(ty: Option<String>) -> Seq<char> {
    match ty {
        Some(t) => t@,
        None => "unknown"@,
    }
}

/// A name with its type: `name: type`.
pub open spec fn typed_text(name: Seq<char>, ty: Seq<char>) -> Seq<char> {
    name + ": "@ + ty
}

/// The hover of a variable, parameter or data field declaration.
pub open spec fn var_hover(v: VarDef) -> Facts {
    one_hover(
        (name_span(v.loc, v.name), typed_text(v.name@, type_text(v.ty)), Some(point_range(v.loc))),
    )
}

pub open spec fn expr_facts(e: Expr) -> Facts
    decreases e,
{
    match e {
        Expr::VarSel { loc, name, ty, owner, decl } => {
            let h = one_hover(
                (name_span(loc, name), typed_text(name@, type_text(ty)), Some(point_range(loc))),
            );
            let o = match owner {
                Some(b) => expr_facts(*b),
                None => no_facts(),
            };
            let d = match decl {
                Some(ds) => one_def((name_span(loc, name), name_span(ds.loc, ds.name))),
                None => no_facts(),
            };
            cat(cat(h, o), d)
        },
        Expr::IndexSel { arr, idx } => cat(expr_facts(*arr), expr_facts(*idx)),
        Expr::Call { func, args } => cat(expr_facts(*func), exprs_facts(args@)),
        Expr::Unary { operand } => expr_facts(*operand),
        Expr::Binary { lhs, rhs } => cat(expr_facts(*lhs), expr_facts(*rhs)),
        Expr::Other => no_facts(),
    }
}

pub open spec fn exprs_facts(es: Seq<Expr>) -> Facts
    decreases es,
{
    if es.len() == 0 {
        no_facts()
    } else {
        cat(exprs_facts(es.subrange(0, es.len() - 1)), expr_facts(es[es.len() - 1]))
    }
}

pub open spec fn stmt_facts(s: Stmt) -> Facts
    decreases s,
{
    match s {
        Stmt::Assign { dst, src } => cat(expr_facts(dst), expr_facts(src)),
        Stmt::LocalVarDef(v) => cat(
            var_hover(v),
            match v.init {
                Some(e) => expr_facts(e),
                None => no_facts(),
            },
        ),
        Stmt::ExprEval(e) => expr_facts(e),
        Stmt::If { cond, on_true, on_false } => cat(
            cat(expr_facts(cond), stmts_facts(on_true.stmts@)),
            match on_false {
                Some(b) => stmts_facts(b.stmts@),
                None => no_facts(),
            },
        ),
        Stmt::While { cond, body } => cat(expr_facts(cond), stmts_facts(body.stmts@)),
        Stmt::For { init, cond, update, body } => cat(
            cat(cat(stmt_facts(*init), expr_facts(cond)), stmt_facts(*update)),
            stmts_facts(body.stmts@),
        ),
        Stmt::Return(r) => match r {
            Some(e) => expr_facts(e),
            None => no_facts(),
        },
        Stmt::Print(es) => exprs_facts(es@),
        Stmt::Block(b) => stmts_facts(b.stmts@),
        Stmt::Other => no_facts(),
    }
}

pub open spec fn stmts_facts(ss: Seq<Stmt>) -> Facts
    decreases ss,
{
    if ss.len() == 0 {
        no_facts()
    } else {
        cat(stmts_facts(ss.subrange(0, ss.len() - 1)), stmt_facts(ss[ss.len() - 1]))
    }
}

pub open spec fn params_facts(vs: Seq<VarDef>) -> Facts
    decreases vs.len(),
{
    if vs.len() == 0 {
        no_facts()
    } else {
        cat(params_facts(vs.subrange(0, vs.len() - 1)), var_hover(vs[vs.len() - 1]))
    }
}

/// The facts of a field of class `class_name`: a method gives a symbol, a
/// hover with its signature, the hovers of its parameters and the facts of
/// its body; a data field gives a symbol and a hover.
pub open spec fn field_facts(uri: String, class_name: String, f: FieldDef) -> Facts {
    match f {
        FieldDef::Func(func) => cat(
            cat(
                cat(
                    one_symbol(
                        Symbol {
                            name: func.name,
                            kind: SymbolKind::Method,
                            uri,
                            range: point_range(func.loc),
                            container: Some(class_name),
                        },
                    ),
                    one_hover(
                        (
                            name_span(func.loc, func.name),
                            typed_text(func.name@, func.signature@),
                            Some(point_range(func.loc)),
                        ),
                    ),
                ),
                params_facts(func.params@),
            ),
            stmts_facts(func.body.stmts@),
        ),
        FieldDef::Var(v) => cat(
            one_symbol(
                Symbol {
                    name: v.name,
                    kind: SymbolKind::Field,
                    uri,
                    range: point_range(v.loc),
                    container: Some(class_name),
                },
            ),
            var_hover(v),
        ),
    }
}

pub open spec fn fields_facts(uri: String, class_name: String, fs: Seq<FieldDef>) -> Facts
    decreases fs.len(),
{
    if fs.len() == 0 {
        no_facts()
    } else {
        cat(
            fields_facts(uri, class_name, fs.subrange(0, fs.len() - 1)),
            field_facts(uri, class_name, fs[fs.len() - 1]),
        )
    }
}

/// The range of a whole class.
pub open spec fn class_span(c: ClassDef) -> Range {
    Range { start: loc_pos(c.loc), end: loc_pos(c.end) }
}

/// The facts of a class: its symbol, a hover over its name, then the facts of
/// its fields.
pub open spec fn class_facts(uri: String, c: ClassDef) -> Facts {
    cat(
        cat(
            one_symbol(
                Symbol {
                    name: c.name,
                    kind: SymbolKind::Class,
                    uri,
                    range: class_span(c),
                    container: None,
                },
            ),
            one_hover((name_span(c.loc, c.name), c.name@, Some(class_span(c)))),
        ),
        fields_facts(uri, c.name, c.fields@),
    )
}

pub open spec fn classes_facts(uri: String, cs: Seq<ClassDef>) -> Facts
    decreases cs.len(),
{
    if cs.len() == 0 {
        no_facts()
    } else {
        cat(classes_facts(uri, cs.subrange(0, cs.len() - 1)), class_facts(uri, cs[cs.len() - 1]))
    }
}

pub open spec fn program_facts(uri: String, p: Program) -> Facts {
    classes_facts(uri, p.classes@)
}

pub proof fn lemma_cat_assoc(a: Facts, b: Facts, c: Facts)
    ensures
        cat(cat(a, b), c) == cat(a, cat(b, c)),
{
    assert(a.symbols + b.symbols + c.symbols =~= a.symbols + (b.symbols + c.symbols));
    assert(a.hovers + b.hovers + c.hovers =~= a.hovers + (b.hovers + c.hovers));
    assert(a.defs + b.defs + c.defs =~= a.defs + (b.defs + c.defs));
}

pub proof fn lemma_cat_none(a: Facts)
    ensures
        cat(a, no_facts()) == a,
        cat(no_facts(), a) == a,
{
    assert(a.symbols + seq![] =~= a.symbols);
    assert(a.hovers + seq![] =~= a.hovers);
    assert(a.defs + seq![] =~= a.defs);
    assert(seq![] + a.symbols =~= a.symbols);
    assert(seq![] + a.hovers =~= a.hovers);
    assert(seq![] + a.defs =~= a.defs);
}

proof fn lemma_exprs_fit_each(es: Seq<Expr>, i: int)
    requires
        exprs_fit(es),
        0 <= i < es.len(),
    ensures
        expr_fits(es[i]),
    decreases es.len(),
{
    let init = es.subrange(0, es.len() - 1);
    if i < es.len() - 1 {
        lemma_exprs_fit_each(init, i);
    }
}

proof fn lemma_stmts_fit_each(ss: Seq<Stmt>, i: int)
    requires
        stmts_fit(ss),
        0 <= i < ss.len(),
    ensures
        stmt_fits(ss[i]),
    decreases ss.len(),
{
    let init = ss.subrange(0, ss.len() - 1);
    if i < ss.len() - 1 {
        lemma_stmts_fit_each(init, i);
    }
}

/// The shown type of an optional type.
fn type_str(ty: &Option<String>) -> (r: &str)
    ensures
        r@ == type_text(*ty),
{
    match ty {
        Some(t) => t.as_str(),
        None => "unknown",
    }
}

/// `name: type`.
fn typed(name: &String, ty: &str) -> (r: String)
    ensures
        r@ == typed_text(name@, ty@),
{
    name.clone().concat(": ").concat(ty)
}

/// Collects the facts of a walk.
pub struct IndexBuilder {
    pub symbols: Vec<Symbol>,
    pub hovers: Vec<(Range, Hover)>,
    pub definitions: Vec<(Range, Range)>,
}

impl IndexBuilder {
    pub open spec fn facts(&self) -> Facts {
        Facts { symbols: self.symbols@, hovers: hover_facts(self.hovers@), defs: self.definitions@ }
    }

    pub fn new() -> (r: IndexBuilder)
        ensures
            r.facts() == no_facts(),
    {
        let r = IndexBuilder { symbols: Vec::new(), hovers: Vec::new(), definitions: Vec::new() };
        assert(hover_facts(r.hovers@) =~= seq![]);
        r
    }

    /// Records the facts of a field of `class`.
    pub fn field(&mut self, uri: &String, class: &ClassDef, f: &FieldDef)
        requires
            field_fits(*f),
        ensures
            final(self).facts() == cat(old(self).facts(), field_facts(*uri, class.name, *f)),
    {
        let ghost f0 = self.facts();
        match f {
            FieldDef::Func(func) => {
                let sym = Symbol {
                    name: func.name.clone(),
                    kind: SymbolKind::Method,
                    uri: uri.clone(),
                    range: range(&func.loc),
                    container: Some(class.name.clone()),
                };
                self.push_symbol(sym);
                let r = range_name(&func.loc, func.name.as_str());
                let contents = typed(&func.name, func.signature.as_str());
                let h = Hover { contents, range: Some(range(&func.loc)) };
                let ghost hf = (r, h.contents@, h.range);
                self.push_hover(r, h);
                proof {
                    lemma_cat_assoc(f0, one_symbol(sym), one_hover(hf));
                }
                let ghost head = cat(one_symbol(sym), one_hover(hf));
                let ghost f1 = self.facts();
                let ps = &func.params;
                let mut i: usize = 0;
                proof {
                    lemma_cat_none(f1);
                    assert(ps@.subrange(0, 0) =~= Seq::<VarDef>::empty());
                }
                while i < ps.len()
                    invariant
                        i <= ps.len(),
                        vars_fit(ps@),
                        f1 == cat(f0, head),
                        self.facts() == cat(f1, params_facts(ps@.subrange(0, i as int))),
                    decreases ps.len() - i,
                {
                    proof {
                        assert(var_fits(ps@[i as int]));
                    }
                    self.var(&ps[i]);
                    proof {
                        let s = ps@.subrange(0, i + 1);
                        assert(s.subrange(0, s.len() - 1) =~= ps@.subrange(0, i as int));
                        lemma_cat_assoc(
                            f1,
                            params_facts(ps@.subrange(0, i as int)),
                            var_hover(ps@[i as int]),
                        );
                    }
                    i = i + 1;
                }
                proof {
                    assert(ps@.subrange(0, ps.len() as int) =~= ps@);
                    lemma_cat_assoc(f0, head, params_facts(ps@));
                }
                self.block(&func.body);
                proof {
                    lemma_cat_assoc(
                        f0,
                        cat(head, params_facts(ps@)),
                        stmts_facts(func.body.stmts@),
                    );
                }
            },
            FieldDef::Var(v) => {
                let sym = Symbol {
                    name: v.name.clone(),
                    kind: SymbolKind::Field,
                    uri: uri.clone(),
                    range: range(&v.loc),
                    container: Some(class.name.clone()),
                };
                self.push_symbol(sym);
                self.var(v);
                proof {
                    lemma_cat_assoc(f0, one_symbol(sym), var_hover(*v));
                }
            },
        }
    }

    /// Records the facts of a class: its symbol, a hover over its name, and
    /// the facts of its fields.
    pub fn class(&mut self, uri: &String, class: &ClassDef)
        requires
            class_fits(*class),
        ensures
            final(self).facts() == cat(old(self).facts(), class_facts(*uri, *class)),
    {
        let ghost f0 = self.facts();
        let class_range = range2(&class.loc, &class.end);
        let sym = Symbol {
            name: class.name.clone(),
            kind: SymbolKind::Class,
            uri: uri.clone(),
            range: class_range,
            container: None,
        };
        self.push_symbol(sym);
        let r = range_name(&class.loc, class.name.as_str());
        let h = Hover { contents: class.name.clone(), range: Some(class_range) };
        let ghost hf = (r, h.contents@, h.range);
        self.push_hover(r, h);
        proof {
            lemma_cat_assoc(f0, one_symbol(sym), one_hover(hf));
        }
        let ghost head = cat(one_symbol(sym), one_hover(hf));
        let ghost f1 = self.facts();
        let fs = &class.fields;
        let mut i: usize = 0;
        proof {
            lemma_cat_none(f1);
            assert(fs@.subrange(0, 0) =~= Seq::<FieldDef>::empty());
        }
        while i < fs.len()
            invariant
                i <= fs.len(),
                fs == &class.fields,
                class_fits(*class),
                f1 == cat(f0, head),
                self.facts() == cat(f1, fields_facts(*uri, class.name, fs@.subrange(0, i as int))),
            decreases fs.len() - i,
        {
            proof {
                assert(field_fits(fs@[i as int]));
            }
            self.field(uri, class, &fs[i]);
            proof {
                let s = fs@.subrange(0, i + 1);
                assert(s.subrange(0, s.len() - 1) =~= fs@.subrange(0, i as int));
                lemma_cat_assoc(
                    f1,
                    fields_facts(*uri, class.name, fs@.subrange(0, i as int)),
                    field_facts(*uri, class.name, fs@[i as int]),
                );
            }
            i = i + 1;
        }
        proof {
            assert(fs@.subrange(0, fs.len() as int) =~= fs@);
            lemma_cat_assoc(f0, head, fields_facts(*uri, class.name, fs@));
        }
    }

    /// Records the facts of every class of a program, in order.
    pub fn program(&mut self, uri: &String, p: &Program)
        requires
            program_fits(*p),
        ensures
            final(self).facts() == cat(old(self).facts(), program_facts(*uri, *p)),
    {
        let ghost f0 = self.facts();
        let cs = &p.classes;
        let mut i: usize = 0;
        proof {
            lemma_cat_none(f0);
            assert(cs@.subrange(0, 0) =~= Seq::<ClassDef>::empty());
        }
        while i < cs.len()
            invariant
                i <= cs.len(),
                cs == &p.classes,
                program_fits(*p),
                self.facts() == cat(f0, classes_facts(*uri, cs@.subrange(0, i as int))),
            decreases cs.len() - i,
        {
            proof {
                assert(class_fits(cs@[i as int]));
            }
            self.class(uri, &cs[i]);
            proof {
                let s = cs@.subrange(0, i + 1);
                assert(s.subrange(0, s.len() - 1) =~= cs@.subrange(0, i as int));
                lemma_cat_assoc(
                    f0,
                    classes_facts(*uri, cs@.subrange(0, i as int)),
                    class_facts(*uri, cs@[i as int]),
                );
            }
            i = i + 1;
        }
        proof {
            assert(cs@.subrange(0, cs.len() as int) =~= cs@);
        }
    }

    fn push_hover(&mut self, r: Range, h: Hover)
        ensures
            final(self).facts() == cat(old(self).facts(), one_hover((r, h.contents@, h.range))),
    {
        self.hovers.push((r, h));
        assert(hover_facts(self.hovers@) =~= hover_facts(old(self).hovers@) + seq![
            hover_fact(self.hovers@.last()),
        ]);
        assert(self.symbols@ =~= old(self).symbols@ + seq![]);
        assert(self.definitions@ =~= old(self).definitions@ + seq![]);
    }

    fn push_def(&mut self, d: (Range, Range))
        ensures
            final(self).facts() == cat(old(self).facts(), one_def(d)),
    {
        self.definitions.push(d);
        assert(self.definitions@ =~= old(self).definitions@ + seq![d]);
        assert(self.symbols@ =~= old(self).symbols@ + seq![]);
        assert(hover_facts(self.hovers@) =~= hover_facts(old(self).hovers@) + seq![]);
    }

    /// Records the facts of an expression.
    pub fn expr(&mut self, e: &Expr)
        requires
            expr_fits(*e),
        ensures
            final(self).facts() == cat(old(self).facts(), expr_facts(*e)),
        decreases e,
    {
        let ghost f0 = self.facts();
        match e {
            Expr::VarSel { loc, name, ty, owner, decl } => {
                self.varsel(loc, name, ty, owner, decl);
            },
            Expr::IndexSel { arr, idx } => {
                self.expr(arr);
                self.expr(idx);
                proof {
                    lemma_cat_assoc(f0, expr_facts(**arr), expr_facts(**idx));
                }
            },
            Expr::Call { func, args } => {
                self.expr(func);
                self.exprs(args);
                proof {
                    lemma_cat_assoc(f0, expr_facts(**func), exprs_facts(args@));
                }
            },
            Expr::Unary { operand } => {
                self.expr(operand);
            },
            Expr::Binary { lhs, rhs } => {
                self.expr(lhs);
                self.expr(rhs);
                proof {
                    lemma_cat_assoc(f0, expr_facts(**lhs), expr_facts(**rhs));
                }
            },
            Expr::Other => {
                proof {
                    lemma_cat_none(f0);
                }
            },
        }
    }

    /// Records the facts of a list of expressions, in order.
    pub fn exprs(&mut self, es: &Vec<Expr>)
        requires
            exprs_fit(es@),
        ensures
            final(self).facts() == cat(old(self).facts(), exprs_facts(es@)),
        decreases es,
    {
        let ghost f0 = self.facts();
        let mut i: usize = 0;
        proof {
            lemma_cat_none(f0);
            assert(es@.subrange(0, 0) =~= Seq::<Expr>::empty());
        }
        while i < es.len()
            invariant
                i <= es.len(),
                exprs_fit(es@),
                self.facts() == cat(f0, exprs_facts(es@.subrange(0, i as int))),
            decreases es.len() - i,
        {
            proof {
                lemma_exprs_fit_each(es@, i as int);
                assert(decreases_to!(*es => es@));
                assert(decreases_to!(es@ => es@[i as int]));
            }
            self.expr(&es[i]);
            proof {
                let s = es@.subrange(0, i + 1);
                assert(s.subrange(0, s.len() - 1) =~= es@.subrange(0, i as int));
                lemma_cat_assoc(
                    f0,
                    exprs_facts(es@.subrange(0, i as int)),
                    expr_facts(es@[i as int]),
                );
            }
            i = i + 1;
        }
        proof {
            assert(es@.subrange(0, es.len() as int) =~= es@);
        }
    }

    /// Records the hover of a declaration.
    pub fn var(&mut self, v: &VarDef)
        requires
            name_fits(v.loc, v.name),
        ensures
            final(self).facts() == cat(old(self).facts(), var_hover(*v)),
    {
        let r = range_name(&v.loc, v.name.as_str());
        let contents = typed(&v.name, type_str(&v.ty));
        self.push_hover(r, Hover { contents, range: Some(range(&v.loc)) });
    }

    /// Records the facts of a statement.
    pub fn stmt(&mut self, s: &Stmt)
        requires
            stmt_fits(*s),
        ensures
            final(self).facts() == cat(old(self).facts(), stmt_facts(*s)),
        decreases s,
    {
        let ghost f0 = self.facts();
        match s {
            Stmt::Assign { dst, src } => {
                self.expr(dst);
                self.expr(src);
                proof {
                    lemma_cat_assoc(f0, expr_facts(*dst), expr_facts(*src));
                }
            },
            Stmt::LocalVarDef(v) => {
                self.var(v);
                let ghost f1 = self.facts();
                match &v.init {
                    Some(e) => {
                        self.expr(e);
                        proof {
                            lemma_cat_assoc(f0, var_hover(*v), expr_facts(*e));
                        }
                    },
                    None => {
                        proof {
                            lemma_cat_none(f1);
                            lemma_cat_none(var_hover(*v));
                        }
                    },
                }
            },
            Stmt::ExprEval(e) => {
                self.expr(e);
            },
            Stmt::If { cond, on_true, on_false } => {
                self.expr(cond);
                self.block(on_true);
                proof {
                    lemma_cat_assoc(f0, expr_facts(*cond), stmts_facts(on_true.stmts@));
                }
                let ghost f1 = self.facts();
                let ghost c = cat(expr_facts(*cond), stmts_facts(on_true.stmts@));
                match on_false {
                    Some(b) => {
                        self.block(b);
                        proof {
                            lemma_cat_assoc(f0, c, stmts_facts(b.stmts@));
                        }
                    },
                    None => {
                        proof {
                            lemma_cat_none(f1);
                            lemma_cat_none(c);
                        }
                    },
                }
            },
            Stmt::While { cond, body } => {
                self.expr(cond);
                self.block(body);
                proof {
                    lemma_cat_assoc(f0, expr_facts(*cond), stmts_facts(body.stmts@));
                }
            },
            Stmt::For { init, cond, update, body } => {
                self.stmt(init);
                self.expr(cond);
                let ghost a = stmt_facts(**init);
                let ghost b = expr_facts(*cond);
                let ghost c = stmt_facts(**update);
                let ghost d = stmts_facts(body.stmts@);
                proof {
                    lemma_cat_assoc(f0, a, b);
                }
                self.stmt(update);
                proof {
                    lemma_cat_assoc(f0, cat(a, b), c);
                }
                self.block(body);
                proof {
                    lemma_cat_assoc(f0, cat(cat(a, b), c), d);
                }
            },
            Stmt::Return(r) => {
                match r {
                    Some(e) => {
                        self.expr(e);
                    },
                    None => {
                        proof {
                            lemma_cat_none(f0);
                        }
                    },
                }
            },
            Stmt::Print(es) => {
                self.exprs(es);
            },
            Stmt::Block(b) => {
                self.block(b);
            },
            Stmt::Other => {
                proof {
                    lemma_cat_none(f0);
                }
            },
        }
    }

    /// Records the facts of the statements of a block, in order.
    pub fn block(&mut self, b: &Block)
        requires
            stmts_fit(b.stmts@),
        ensures
            final(self).facts() == cat(old(self).facts(), stmts_facts(b.stmts@)),
        decreases b,
    {
        let ghost f0 = self.facts();
        let ss = &b.stmts;
        let mut i: usize = 0;
        proof {
            lemma_cat_none(f0);
            assert(ss@.subrange(0, 0) =~= Seq::<Stmt>::empty());
        }
        while i < ss.len()
            invariant
                i <= ss.len(),
                ss == &b.stmts,
                stmts_fit(ss@),
                self.facts() == cat(f0, stmts_facts(ss@.subrange(0, i as int))),
            decreases ss.len() - i,
        {
            proof {
                lemma_stmts_fit_each(ss@, i as int);
                assert(decreases_to!(*b => b.stmts));
                assert(decreases_to!(b.stmts => b.stmts@));
                assert(decreases_to!(b.stmts@ => b.stmts@[i as int]));
            }
            self.stmt(&ss[i]);
            proof {
                let s = ss@.subrange(0, i + 1);
                assert(s.subrange(0, s.len() - 1) =~= ss@.subrange(0, i as int));
                lemma_cat_assoc(
                    f0,
                    stmts_facts(ss@.subrange(0, i as int)),
                    stmt_facts(ss@[i as int]),
                );
            }
            i = i + 1;
        }
        proof {
            assert(ss@.subrange(0, ss.len() as int) =~= ss@);
        }
    }

    /// Records a hover over a selected name, the facts of its owner, and a
    /// link to its declaration when it resolves to one.
    pub fn varsel(
        &mut self,
        loc: &Loc,
        name: &String,
        ty: &Option<String>,
        owner: &Option<Box<Expr>>,
        decl: &Option<DeclSite>,
    )
        requires
            expr_fits(Expr::VarSel { loc: *loc, name: *name, ty: *ty, owner: *owner, decl: *decl }),
        ensures
            final(self).facts() == cat(
                old(self).facts(),
                expr_facts(Expr::VarSel { loc: *loc, name: *name, ty: *ty, owner: *owner, decl: *decl }),
            ),
        decreases owner,
    {
        let ghost f0 = self.facts();
        let use_range = range_name(loc, name.as_str());
        let contents = typed(name, type_str(ty));
        self.push_hover(use_range, Hover { contents, range: Some(range(loc)) });
        let ghost h = one_hover(
            (name_span(*loc, *name), typed_text(name@, type_text(*ty)), Some(point_range(*loc))),
        );
        let ghost f1 = self.facts();
        match owner {
            Some(o) => {
                self.expr(o);
            },
            None => {
                proof {
                    lemma_cat_none(f1);
                }
            },
        }
        let ghost o = match owner {
            Some(b) => expr_facts(**b),
            None => no_facts(),
        };
        proof {
            lemma_cat_assoc(f0, h, o);
        }
        let ghost f2 = self.facts();
        match decl {
            Some(ds) => {
                let target = range_name(&ds.loc, ds.name.as_str());
                self.push_def((use_range, target));
                proof {
                    lemma_cat_assoc(f0, cat(h, o), one_def((use_range, target)));
                }
            },
            None => {
                proof {
                    lemma_cat_none(f2);
                    lemma_cat_none(cat(h, o));
                }
            },
        }
    }

    fn push_symbol(&mut self, s: Symbol)
        ensures
            final(self).facts() == cat(old(self).facts(), one_symbol(s)),
    {
        self.symbols.push(s);
        assert(self.symbols@ =~= old(self).symbols@ + seq![s]);
        assert(self.definitions@ =~= old(self).definitions@ + seq![]);
        assert(hover_facts(self.hovers@) =~= hover_facts(old(self).hovers@) + seq![]);
    }
}

/// The index of a program: its symbols, hovers and definition links, each in
/// walk order, so that declarations come in the order they were written.
pub struct ProgramIndex {
    pub symbols: Vec<Symbol>,
    pub hovers: Vec<(Range, Hover)>,
    pub definitions: Vec<(Range, Range)>,
}

/// A class's own symbol comes first among the symbols of the class, before
/// those of its fields and methods.
pub proof fn lemma_class_symbol_first(uri: String, c: ClassDef)
    ensures
        class_facts(uri, c).symbols.len() >= 1,
        class_facts(uri, c).symbols[0] == (Symbol {
            name: c.name,
            kind: SymbolKind::Class,
            uri,
            range: class_span(c),
            container: None,
        }),
{
}

/// Walks a program depth-first and collects its symbols, hovers and
/// definition links; a class comes before its fields and methods, and each
/// declaration before the ones written after it.
pub fn index_program(uri: &String, p: &Program) -> (r: ProgramIndex)
    requires
        program_fits(*p),
    ensures
        r.symbols@ == program_facts(*uri, *p).symbols,
        hover_facts(r.hovers@) == program_facts(*uri, *p).hovers,
        r.definitions@ == program_facts(*uri, *p).defs,
{
    let mut b = IndexBuilder::new();
    b.program(uri, p);
    proof {
        lemma_cat_none(program_facts(*uri, *p));
    }
    ProgramIndex { symbols: b.symbols, hovers: b.hovers, definitions: b.definitions }
}

} // verus!
