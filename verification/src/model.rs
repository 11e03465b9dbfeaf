//! The crate's own model of the contract surface syntax: a tagged-union
//! expression tree plus statements, methods, implementation blocks and a
//! whole source unit.
//!
//! The analyzer and the instrumentor match directly on these nodes instead of
//! re-serialized text, and every node can be rendered back to a canonical
//! snippet string by [`render_expr`].

use vstd::prelude::*;

verus! {

/// One expression node.  Unmodelled forms are carried as [`Expr::Opaque`]
/// with their source text, so a rewrite of a tree is always total.
pub enum Expr {
    /// A plain path such as `self` or `msg::sender`, as `::`-separated segments.
    Path { segments: Vec<String> },
    /// A literal, carried as its source text.
    Lit { text: String },
    /// A field access `base.name`.
    Field { base: Box<Expr>, name: String },
    /// A method call `receiver.method(args)`.
    MethodCall { receiver: Box<Expr>, method: String, args: Vec<Expr> },
    /// A function call `callee(args)`.
    Call { callee: Box<Expr>, args: Vec<Expr> },
    /// A binary or compound-assignment expression `left op right`.
    Binary { op: String, left: Box<Expr>, right: Box<Expr> },
    /// An index expression `base[index]`.
    Index { base: Box<Expr>, index: Box<Expr> },
    /// Any other expression, carried as its source text.
    Opaque { text: String },
}

/// The canonical `::`-separated rendering of path segments `segs[i..]`.
pub open spec fn join_segments_spec(segs: Seq<Seq<char>>, i: int) -> Seq<char>
    decreases segs.len() - i,
{
    if i < 0 || i >= segs.len() {
        Seq::empty()
    } else if i == segs.len() - 1 {
        segs[i]
    } else {
        segs[i] + "::"@ + join_segments_spec(segs, i + 1)
    }
}

/// Canonical snippet text of an expression: compact field and call chains,
/// single spaces around binary operators.
pub open spec fn render_expr_spec(e: Expr) -> Seq<char>
    decreases e, 0int,
{
    match e {
        Expr::Path { segments } => join_segments_spec(segments.deep_view(), 0),
        Expr::Lit { text } => text@,
        Expr::Opaque { text } => text@,
        Expr::Field { base, name } => render_expr_spec(*base) + "."@ + name@,
        Expr::MethodCall { receiver, method, args } => render_expr_spec(*receiver) + "."@
            + method@ + "("@ + render_args_spec(args@, 0) + ")"@,
        Expr::Call { callee, args } => render_expr_spec(*callee) + "("@ + render_args_spec(
            args@,
            0,
        ) + ")"@,
        Expr::Binary { op, left, right } => render_expr_spec(*left) + " "@ + op@ + " "@
            + render_expr_spec(*right),
        Expr::Index { base, index } => render_expr_spec(*base) + "["@ + render_expr_spec(*index)
            + "]"@,
    }
}

/// Canonical rendering of the argument list `args[i..]`, comma-separated.
pub open spec fn render_args_spec(args: Seq<Expr>, i: int) -> Seq<char>
    decreases args, args.len() - i,
{
    if i < 0 || i >= args.len() {
        Seq::empty()
    } else if i == args.len() - 1 {
        render_expr_spec(args[i])
    } else {
        render_expr_spec(args[i]) + ", "@ + render_args_spec(args, i + 1)
    }
}

} // verus!

verus! {

/// Renders the `::`-joined path segments from `i` on.
fn join_segments(segs: &Vec<String>, i: usize) -> (r: String)
    ensures
        r@ == join_segments_spec(segs.deep_view(), i as int),
    decreases segs.deep_view().len() - i,
{
    if i >= segs.len() {
        String::new()
    } else if i == segs.len() - 1 {
        segs[i].clone()
    } else {
        let mut r = segs[i].clone();
        r.append("::");
        let rest = join_segments(segs, i + 1);
        r.append(rest.as_str());
        proof {
            assert(r@ =~= join_segments_spec(segs.deep_view(), i as int));
        }
        r
    }
}

/// Renders the comma-separated argument list from `i` on.
fn render_args(args: &Vec<Expr>, i: usize) -> (r: String)
    ensures
        r@ == render_args_spec(args@, i as int),
    decreases args@, args@.len() - i,
{
    if i >= args.len() {
        String::new()
    } else if i == args.len() - 1 {
        render_expr(&args[i])
    } else {
        let mut r = render_expr(&args[i]);
        r.append(", ");
        let rest = render_args(args, i + 1);
        r.append(rest.as_str());
        proof {
            assert(r@ =~= render_args_spec(args@, i as int));
        }
        r
    }
}

/// Renders an expression as its canonical snippet text.
pub fn render_expr(e: &Expr) -> (r: String)
    ensures
        r@ == render_expr_spec(*e),
    decreases *e, 0int,
{
    match e {
        Expr::Path { segments } => join_segments(segments, 0),
        Expr::Lit { text } => text.clone(),
        Expr::Opaque { text } => text.clone(),
        Expr::Field { base, name } => {
            let mut r = render_expr(base);
            r.append(".");
            r.append(name.as_str());
            proof {
                assert(r@ =~= render_expr_spec(*e));
            }
            r
        },
        Expr::MethodCall { receiver, method, args } => {
            let mut r = render_expr(receiver);
            r.append(".");
            r.append(method.as_str());
            r.append("(");
            let a = render_args(args, 0);
            r.append(a.as_str());
            r.append(")");
            proof {
                assert(r@ =~= render_expr_spec(*e));
            }
            r
        },
        Expr::Call { callee, args } => {
            let mut r = render_expr(callee);
            r.append("(");
            let a = render_args(args, 0);
            r.append(a.as_str());
            r.append(")");
            proof {
                assert(r@ =~= render_expr_spec(*e));
            }
            r
        },
        Expr::Binary { op, left, right } => {
            let mut r = render_expr(left);
            r.append(" ");
            r.append(op.as_str());
            r.append(" ");
            let rr = render_expr(right);
            r.append(rr.as_str());
            proof {
                assert(r@ =~= render_expr_spec(*e));
            }
            r
        },
        Expr::Index { base, index } => {
            let mut r = render_expr(base);
            r.append("[");
            let ix = render_expr(index);
            r.append(ix.as_str());
            r.append("]");
            proof {
                assert(r@ =~= render_expr_spec(*e));
            }
            r
        },
    }
}

} // verus!

verus! {

/// One statement of a method body.
pub enum Stmt {
    /// A `let` binding: the pattern text and an optional initializer.
    Local { pat: String, init: Option<Expr> },
    /// An expression statement; `semi` records a trailing semicolon.
    ExprStmt { expr: Expr, semi: bool },
    /// A macro invocation statement, carried as its source text.
    MacroStmt { text: String },
    /// Any other statement, carried as its source text.
    Other { text: String },
}

/// Canonical text of a statement.
pub open spec fn render_stmt_spec(s: Stmt) -> Seq<char> {
    match s {
        Stmt::Local { pat, init } => match init {
            Some(e) => "let "@ + pat@ + " = "@ + render_expr_spec(e) + ";"@,
            None => "let "@ + pat@ + ";"@,
        },
        Stmt::ExprStmt { expr, semi } => if semi {
            render_expr_spec(expr) + ";"@
        } else {
            render_expr_spec(expr)
        },
        Stmt::MacroStmt { text } => text@,
        Stmt::Other { text } => text@,
    }
}

/// Renders a statement as its canonical text.
pub fn render_stmt(s: &Stmt) -> (r: String)
    ensures
        r@ == render_stmt_spec(*s),
{
    match s {
        Stmt::Local { pat, init } => {
            let mut r = String::from_str("let ");
            r.append(pat.as_str());
            match init {
                Some(e) => {
                    r.append(" = ");
                    let ex = render_expr(e);
                    r.append(ex.as_str());
                    r.append(";");
                },
                None => {
                    r.append(";");
                },
            }
            proof {
                assert(r@ =~= render_stmt_spec(*s));
            }
            r
        },
        Stmt::ExprStmt { expr, semi } => {
            let mut r = render_expr(expr);
            if *semi {
                r.append(";");
            }
            proof {
                assert(r@ =~= render_stmt_spec(*s));
            }
            r
        },
        Stmt::MacroStmt { text } => text.clone(),
        Stmt::Other { text } => text.clone(),
    }
}

/// One method of an implementation block.
pub struct Method {
    /// Bare method name.
    pub name: String,
    /// Signature text without the visibility qualifier, e.g.
    /// `fn transfer(&mut self, to: Address)`; rendering re-emits `pub`
    /// from `is_public`.
    pub signature: String,
    /// Whether the method is `pub`.
    pub is_public: bool,
    /// Whether the method takes a `self` receiver.
    pub has_self_receiver: bool,
    /// The statements of the body, in source order.
    pub body: Vec<Stmt>,
}

/// One `impl` block of the source unit.
pub struct ImplBlock {
    /// The implemented trait's path, for `impl Trait for Type` blocks.
    pub trait_path: Option<String>,
    /// The implemented type's name.
    pub self_type: String,
    /// The path identifiers of the block's attributes, e.g. `external`.
    pub attrs: Vec<String>,
    /// The methods, in source order.
    pub methods: Vec<Method>,
}

/// One top-level item.
pub enum Item {
    /// An implementation block.
    Impl(ImplBlock),
    /// A constant, carried by name (used for selector counting).
    Const { name: String },
    /// Any other item, carried as its source text.
    Other { text: String },
}

/// A whole parsed source unit, in source order.
pub struct SourceUnit {
    pub items: Vec<Item>,
}

} // verus!

verus! {

/// Canonical text of a statement sequence, one line per statement.
pub open spec fn render_stmts_spec(stmts: Seq<Stmt>) -> Seq<char>
    decreases stmts.len(),
{
    if stmts.len() == 0 {
        Seq::empty()
    } else {
        render_stmts_spec(stmts.drop_last()) + ("    "@ + render_stmt_spec(stmts.last()) + "\n"@)
    }
}

/// The rendered visibility qualifier of a method.
pub open spec fn method_vis_spec(m: Method) -> Seq<char> {
    if m.is_public {
        "pub "@
    } else {
        Seq::empty()
    }
}

/// Canonical text of a method: visibility, signature, then the braced body.
pub open spec fn render_method_spec(m: Method) -> Seq<char> {
    method_vis_spec(m) + m.signature@ + " {\n"@ + render_stmts_spec(m.body@) + "}\n"@
}

/// Canonical text of a method sequence.
pub open spec fn render_methods_spec(methods: Seq<Method>) -> Seq<char>
    decreases methods.len(),
{
    if methods.len() == 0 {
        Seq::empty()
    } else {
        render_methods_spec(methods.drop_last()) + render_method_spec(methods.last())
    }
}

/// Canonical text of an attribute list, one marker per line.
pub open spec fn render_attrs_spec(attrs: Seq<Seq<char>>) -> Seq<char>
    decreases attrs.len(),
{
    if attrs.len() == 0 {
        Seq::empty()
    } else {
        render_attrs_spec(attrs.drop_last()) + "#["@ + attrs.last() + "]\n"@
    }
}

/// The header of an `impl` block: `Type`, or `Trait for Type`.
pub open spec fn impl_header_spec(b: ImplBlock) -> Seq<char> {
    match b.trait_path {
        Some(t) => t@ + " for "@ + b.self_type@,
        None => b.self_type@,
    }
}

/// Canonical text of one item.
pub open spec fn render_item_spec(item: Item) -> Seq<char> {
    match item {
        Item::Impl(b) => render_attrs_spec(b.attrs.deep_view()) + "impl "@ + impl_header_spec(b)
            + " {\n"@ + render_methods_spec(b.methods@) + "}\n"@,
        Item::Const { name } => "const "@ + name@ + ";\n"@,
        Item::Other { text } => text@ + "\n"@,
    }
}

/// Canonical text of a whole source unit.
pub open spec fn render_unit_spec(items: Seq<Item>) -> Seq<char>
    decreases items.len(),
{
    if items.len() == 0 {
        Seq::empty()
    } else {
        render_unit_spec(items.drop_last()) + render_item_spec(items.last())
    }
}

/// Renders a statement sequence.
pub fn render_stmts(stmts: &Vec<Stmt>) -> (r: String)
    ensures
        r@ == render_stmts_spec(stmts@),
{
    let mut r = String::new();
    let mut i: usize = 0;
    while i < stmts.len()
        invariant
            i <= stmts@.len(),
            r@ =~= render_stmts_spec(stmts@.subrange(0, i as int)),
        decreases stmts@.len() - i,
    {
        r.append("    ");
        let line = render_stmt(&stmts[i]);
        r.append(line.as_str());
        r.append("\n");
        i = i + 1;
        proof {
            assert(stmts@.subrange(0, i as int).drop_last() =~= stmts@.subrange(0, i - 1));
            assert(stmts@.subrange(0, i as int).last() == stmts@[i - 1]);
            assert(r@ =~= render_stmts_spec(stmts@.subrange(0, i as int)));
        }
    }
    proof {
        assert(stmts@.subrange(0, stmts@.len() as int) =~= stmts@);
    }
    r
}

/// Renders one method.
pub fn render_method(m: &Method) -> (r: String)
    ensures
        r@ == render_method_spec(*m),
{
    let mut r = if m.is_public {
        String::from_str("pub ")
    } else {
        String::new()
    };
    r.append(m.signature.as_str());
    r.append(" {\n");
    let body = render_stmts(&m.body);
    r.append(body.as_str());
    r.append("}\n");
    proof {
        assert(r@ =~= render_method_spec(*m));
    }
    r
}

/// Renders one item.
pub fn render_item(item: &Item) -> (r: String)
    ensures
        r@ == render_item_spec(*item),
{
    match item {
        Item::Impl(b) => {
            let mut r = String::new();
            let mut i: usize = 0;
            while i < b.attrs.len()
                invariant
                    i <= b.attrs@.len(),
                    r@ =~= render_attrs_spec(b.attrs.deep_view().subrange(0, i as int)),
                decreases b.attrs@.len() - i,
            {
                r.append("#[");
                r.append(b.attrs[i].as_str());
                r.append("]\n");
                i = i + 1;
                proof {
                    assert(b.attrs.deep_view().subrange(0, i as int).drop_last()
                        =~= b.attrs.deep_view().subrange(0, i - 1));
                    assert(b.attrs.deep_view().subrange(0, i as int).last()
                        == b.attrs.deep_view()[i - 1]);
                    assert(r@ =~= render_attrs_spec(b.attrs.deep_view().subrange(0, i as int)));
                }
            }
            proof {
                assert(b.attrs.deep_view().subrange(0, b.attrs.deep_view().len() as int)
                    =~= b.attrs.deep_view());
            }
            r.append("impl ");
            match &b.trait_path {
                Some(t) => {
                    r.append(t.as_str());
                    r.append(" for ");
                    r.append(b.self_type.as_str());
                },
                None => {
                    r.append(b.self_type.as_str());
                },
            }
            proof {
                assert(r@ =~= render_attrs_spec(b.attrs.deep_view()) + "impl "@
                    + impl_header_spec(*b));
            }
            r.append(" {\n");
            let mut j: usize = 0;
            while j < b.methods.len()
                invariant
                    j <= b.methods@.len(),
                    r@ =~= render_attrs_spec(b.attrs.deep_view()) + "impl "@ + impl_header_spec(
                        *b,
                    ) + " {\n"@ + render_methods_spec(b.methods@.subrange(0, j as int)),
                decreases b.methods@.len() - j,
            {
                let m = render_method(&b.methods[j]);
                r.append(m.as_str());
                j = j + 1;
                proof {
                    assert(b.methods@.subrange(0, j as int).drop_last() =~= b.methods@.subrange(
                        0,
                        j - 1,
                    ));
                    assert(b.methods@.subrange(0, j as int).last() == b.methods@[j - 1]);
                    assert(r@ =~= render_attrs_spec(b.attrs.deep_view()) + "impl "@
                        + impl_header_spec(*b) + " {\n"@ + render_methods_spec(
                        b.methods@.subrange(0, j as int),
                    ));
                }
            }
            proof {
                assert(b.methods@.subrange(0, b.methods@.len() as int) =~= b.methods@);
            }
            r.append("}\n");
            proof {
                assert(r@ =~= render_item_spec(*item));
            }
            r
        },
        Item::Const { name } => {
            let mut r = String::from_str("const ");
            r.append(name.as_str());
            r.append(";\n");
            proof {
                assert(r@ =~= render_item_spec(*item));
            }
            r
        },
        Item::Other { text } => {
            let mut r = text.clone();
            r.append("\n");
            proof {
                assert(r@ =~= render_item_spec(*item));
            }
            r
        },
    }
}

/// Renders a whole source unit.
pub fn render_unit(items: &Vec<Item>) -> (r: String)
    ensures
        r@ == render_unit_spec(items@),
{
    let mut r = String::new();
    let mut i: usize = 0;
    while i < items.len()
        invariant
            i <= items@.len(),
            r@ =~= render_unit_spec(items@.subrange(0, i as int)),
        decreases items@.len() - i,
    {
        let t = render_item(&items[i]);
        r.append(t.as_str());
        i = i + 1;
        proof {
            assert(items@.subrange(0, i as int).drop_last() =~= items@.subrange(0, i - 1));
            assert(items@.subrange(0, i as int).last() == items@[i - 1]);
            assert(r@ =~= render_unit_spec(items@.subrange(0, i as int)));
        }
    }
    proof {
        assert(items@.subrange(0, items@.len() as int) =~= items@);
    }
    r
}

} // verus!
