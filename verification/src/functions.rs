use vstd::prelude::*;
use crate::text::{seq_lt, str_eq, str_lt};
use crate::text::{lemma_seq_lt_asymmetric, lemma_seq_lt_irreflexive, lemma_seq_lt_total};
use crate::text::str_views;
use crate::types::TypeIdent;
use crate::types::attrs::{doc_attrs_ok, doc_attrs_readable, doc_lines_of, get_doc_lines, Attribute};
use crate::types::syntax::{ident_of_syntax, ident_readable, TypeSyntax};
use crate::types::type_ident::Outcome;

verus! {

/// An argument of a function: its name and its type.
#[derive(Debug, PartialEq, Eq)]
pub struct FunctionArg {
    pub name: String,
    pub ty: TypeIdent,
}

/// A function that a plugin imports or exports.
#[derive(Debug, PartialEq, Eq)]
pub struct Function {
    pub name: String,
    pub doc_lines: Vec<String>,
    pub args: Vec<FunctionArg>,
    pub return_type: Option<TypeIdent>,
    pub is_async: bool,
}

/// `f` put into `sorted`, whose names strictly ascend, unless a function of
/// the same name is there already (functions are told apart by name alone).
pub open spec fn function_insert(sorted: Seq<Function>, f: Function) -> Seq<Function>
    decreases sorted.len(),
{
    if sorted.len() == 0 {
        seq![f]
    } else if f.name@ == sorted[0].name@ {
        sorted
    } else if seq_lt(f.name@, sorted[0].name@) {
        seq![f] + sorted
    } else {
        seq![sorted[0]] + function_insert(sorted.drop_first(), f)
    }
}

/// Whether the names of `functions` strictly ascend.
pub open spec fn names_ascending(functions: Seq<Function>) -> bool {
    forall|i: int, j: int| 0 <= i < j < functions.len()
        ==> seq_lt(#[trigger] functions[i].name@, #[trigger] functions[j].name@)
}

/// The functions of a plugin, in ascending order of name; no two share a
/// name.
#[derive(Debug)]
pub struct FunctionList {
    functions: Vec<Function>,
}

impl View for FunctionList {
    type V = Seq<Function>;

    closed spec fn view(&self) -> Seq<Function> {
        self.functions@
    }
}

proof fn lemma_function_insert_prefix(sorted: Seq<Function>, f: Function, i: int)
    requires
        0 <= i <= sorted.len(),
        forall|j: int| 0 <= j < i ==> seq_lt(#[trigger] sorted[j].name@, f.name@),
    ensures
        function_insert(sorted, f) == sorted.take(i) + function_insert(sorted.skip(i), f),
    decreases i,
{
    if i > 0 {
        let rest = sorted.drop_first();
        lemma_seq_lt_asymmetric(sorted[0].name@, f.name@);
        lemma_seq_lt_irreflexive(f.name@);
        assert forall|j: int| 0 <= j < i - 1 implies seq_lt(#[trigger] rest[j].name@, f.name@) by {
            assert(rest[j] == sorted[j + 1]);
        }
        lemma_function_insert_prefix(rest, f, i - 1);
        assert(rest.skip(i - 1) =~= sorted.skip(i));
        assert(sorted.take(i) =~= seq![sorted[0]] + rest.take(i - 1));
    } else {
        assert(sorted.skip(0) =~= sorted);
    }
}

impl FunctionList {
    /// The names of the functions strictly ascend, in every list.
    #[verifier::type_invariant]
    spec fn wf(self) -> bool {
        names_ascending(self.functions@)
    }

    /// An empty list.
    pub fn new() -> (res: Self)
        ensures
            res@ == Seq::<Function>::empty(),
    {
        FunctionList { functions: Vec::new() }
    }

    /// Adds `function`, unless a function of the same name is there: the
    /// list keeps its first function of each name, and its names still
    /// strictly ascend.
    pub fn add_function(&mut self, function: Function)
        ensures
            final(self)@ == function_insert(old(self)@, function),
            names_ascending(old(self)@),
            names_ascending(final(self)@),
            (exists|i: int| 0 <= i < old(self)@.len() && (#[trigger] old(self)@[i]).name@ == function.name@)
                ==> final(self)@ == old(self)@,
            !(exists|i: int| 0 <= i < old(self)@.len() && (#[trigger] old(self)@[i]).name@ == function.name@) ==> {
                &&& final(self)@.len() == old(self)@.len() + 1
                &&& final(self)@.contains(function)
                &&& forall|i: int| 0 <= i < old(self)@.len() ==> final(self)@.contains(#[trigger] old(self)@[i])
            },
            forall|i: int| 0 <= i < final(self)@.len()
                ==> #[trigger] final(self)@[i] == function || old(self)@.contains(final(self)@[i]),
    {
        proof {
            use_type_invariant(&*self);
            lemma_add_function(self@, function);
        }
        let mut functions: Vec<Function> = Vec::new();
        std::mem::swap(&mut functions, &mut self.functions);
        self.functions = add_sorted(functions, function);
    }

    /// The number of functions in the list.
    pub fn len(&self) -> (res: usize)
        ensures
            res == self@.len(),
            names_ascending(self@),
    {
        proof {
            use_type_invariant(self);
        }
        self.functions.len()
    }

    /// The functions, in strictly ascending order of name, so each name
    /// once.
    pub fn iter(&self) -> (res: &[Function])
        ensures
            res@ == self@,
            names_ascending(res@),
    {
        proof {
            use_type_invariant(self);
        }
        self.functions.as_slice()
    }
}

/// `function` put into `functions`, unless a function of its name is there.
fn add_sorted(functions: Vec<Function>, function: Function) -> (res: Vec<Function>)
    requires
        names_ascending(functions@),
    ensures
        res@ == function_insert(functions@, function),
        names_ascending(res@),
{
    let mut functions = functions;
    {
        let ghost sorted = functions@;
        let mut p: usize = 0;
        while p < functions.len() && str_lt(functions[p].name.as_str(), function.name.as_str())
            invariant
                p <= functions@.len(),
                sorted == functions@,
                forall|j: int| 0 <= j < p ==> seq_lt(#[trigger] sorted[j].name@, function.name@),
            decreases functions@.len() - p,
        {
            p = p + 1;
        }
        proof {
            lemma_function_insert_prefix(sorted, function, p as int);
        }
        if p < functions.len() && str_eq(functions[p].name.as_str(), function.name.as_str()) {
            assert(sorted.skip(p as int)[0] == sorted[p as int]);
            assert(sorted.take(p as int) + sorted.skip(p as int) =~= sorted);
        } else {
            proof {
                if p < sorted.len() {
                    assert(sorted.skip(p as int)[0] == sorted[p as int]);
                    lemma_seq_lt_total(function.name@, sorted[p as int].name@);
                    assert(function_insert(sorted.skip(p as int), function) =~= seq![function] + sorted.skip(p as int));
                } else {
                    assert(function_insert(sorted.skip(p as int), function) =~= seq![function]);
                }
            }
            let ghost fv = function;
            functions.insert(p, function);
            assert(functions@ =~= sorted.take(p as int) + (seq![fv] + sorted.skip(p as int)));
            proof {
                if names_ascending(sorted) {
                    let s = functions@;
                    assert forall|i: int, j: int| 0 <= i < j < s.len() implies
                        seq_lt(#[trigger] s[i].name@, #[trigger] s[j].name@) by {
                        if j < p {
                            assert(s[i] == sorted[i] && s[j] == sorted[j]);
                        } else if j == p {
                            assert(s[i] == sorted[i]);
                        } else if i > p {
                            assert(s[i] == sorted[i - 1] && s[j] == sorted[j - 1]);
                        } else if i == p {
                            assert(s[j] == sorted[j - 1]);
                            if j - 1 > p {
                                crate::text::lemma_seq_lt_transitive(fv.name@, sorted[p as int].name@, sorted[j - 1].name@);
                            }
                        } else {
                            assert(s[i] == sorted[i] && s[j] == sorted[j - 1]);
                            assert(seq_lt(sorted[i].name@, sorted[j - 1].name@));
                        }
                    }
                }
            }
        }
    }

    functions
}


/// An input of a foreign function declaration.
#[derive(Debug)]
pub enum FnInputSyntax {
    /// `self`, in any form.
    Receiver,
    /// A typed argument: the text of its pattern, and its type.
    Typed(String, TypeSyntax),
}

/// A function declaration, as written in Rust source.
#[derive(Debug)]
pub struct FnDeclSyntax {
    pub ident: String,
    pub attrs: Vec<Attribute>,
    pub inputs: Vec<FnInputSyntax>,
    /// The return type, where one is written.
    pub output: Option<TypeSyntax>,
    pub is_async: bool,
}

/// The return type of a declaration, where it returns more than `()`.
pub open spec fn normalized_return(output: Option<TypeSyntax>) -> Option<TypeSyntax> {
    match output {
        Some(TypeSyntax::Unit) => None,
        o => o,
    }
}

/// The return type of a declaration, unless it returns nothing or `()`.
pub(crate) fn normalize_return_type(output: &Option<TypeSyntax>) -> (res: Option<&TypeSyntax>)
    ensures
        match normalized_return(*output) {
            Some(t) => res == Some(&t),
            None => res is None,
        },
{
    match output {
        Some(TypeSyntax::Unit) => None,
        Some(t) => Some(t),
        None => None,
    }
}

/// Whether a declaration can be read without a panic: no method, and
/// types that can be read.
pub open spec fn decl_readable(d: FnDeclSyntax) -> bool {
    &&& doc_attrs_readable(d.attrs@)
    &&& forall|i: int| 0 <= i < d.inputs@.len() ==> match #[trigger] d.inputs@[i] {
        FnInputSyntax::Receiver => false,
        FnInputSyntax::Typed(_, ty) => ident_of_syntax(ty) is Done,
    }
    &&& match normalized_return(d.output) {
        Some(t) => ident_of_syntax(t) is Done,
        None => true,
    }
}

/// Whether `a` is what the input `s` is read as.
pub open spec fn arg_read(a: FunctionArg, s: FnInputSyntax) -> bool {
    s matches FnInputSyntax::Typed(pat, ty) && a.name@ == pat@ && Outcome::Done(a.ty@) == ident_of_syntax(ty)
}

impl Function {
    /// Reads a function from its declaration.
    pub fn new(decl: &FnDeclSyntax) -> (res: Function)
        requires
            decl_readable(*decl),
        ensures
            res.name@ == decl.ident@,
            str_views(res.doc_lines@) == doc_lines_of(decl.attrs@),
            res.args@.len() == decl.inputs@.len(),
            forall|i: int| 0 <= i < res.args@.len() ==> #[trigger] arg_read(res.args@[i], decl.inputs@[i]),
            match normalized_return(decl.output) {
                Some(t) => res.return_type matches Some(r) && Outcome::Done(r@) == ident_of_syntax(t),
                None => res.return_type is None,
            },
            res.is_async == decl.is_async,
    {
        let mut args: Vec<FunctionArg> = Vec::new();
        let mut i: usize = 0;
        while i < decl.inputs.len()
            invariant
                i <= decl.inputs@.len(),
                decl_readable(*decl),
                args@.len() == i,
                forall|k: int| 0 <= k < i ==> #[trigger] arg_read(args@[k], decl.inputs@[k]),
            decreases decl.inputs@.len() - i,
        {
            let ghost input = decl.inputs@[i as int];
            assert(match input {
                FnInputSyntax::Receiver => false,
                FnInputSyntax::Typed(_, ty) => ident_of_syntax(ty) is Done,
            });
            match &decl.inputs[i] {
                FnInputSyntax::Typed(pat, ty) => {
                    let t = match TypeIdent::try_from(ty) {
                        Ok(t) => t,
                        Err(_) => TypeIdent::new("", Vec::new()),
                    };
                    args.push(FunctionArg { name: pat.clone(), ty: t });
                    assert(arg_read(args@[i as int], decl.inputs@[i as int]));
                },
                FnInputSyntax::Receiver => {},
            }
            i = i + 1;
        }
        let return_type = match normalize_return_type(&decl.output) {
            Some(t) => match TypeIdent::try_from(t) {
                Ok(r) => Some(r),
                Err(_) => None,
            },
            None => None,
        };
        Function {
            name: decl.ident.clone(),
            doc_lines: get_doc_lines(decl.attrs.as_slice()),
            args,
            return_type,
            is_async: decl.is_async,
        }
    }
}


/// Adding a function keeps every function that was there, and never holds
/// two functions of one name: where a function of the same name is there,
/// the list stays as it is; otherwise the new function joins it.
pub proof fn lemma_add_function(sorted: Seq<Function>, f: Function)
    requires
        names_ascending(sorted),
    ensures
        forall|i: int| 0 <= i < sorted.len() ==> function_insert(sorted, f).contains(#[trigger] sorted[i]),
        forall|i: int| 0 <= i < function_insert(sorted, f).len()
            ==> #[trigger] function_insert(sorted, f)[i] == f || sorted.contains(function_insert(sorted, f)[i]),
        (exists|i: int| 0 <= i < sorted.len() && (#[trigger] sorted[i]).name@ == f.name@) ==> function_insert(sorted, f) == sorted,
        !(exists|i: int| 0 <= i < sorted.len() && (#[trigger] sorted[i]).name@ == f.name@) ==> {
            &&& function_insert(sorted, f).len() == sorted.len() + 1
            &&& function_insert(sorted, f).contains(f)
        },
    decreases sorted.len(),
{
    let r = function_insert(sorted, f);
    if sorted.len() == 0 {
        assert(r == seq![f]);
        assert(r[0] == f);
    } else {
        let rest = sorted.drop_first();
        assert(sorted.contains(sorted[0]));
        assert forall|i: int, j: int| 0 <= i < j < rest.len() implies seq_lt(#[trigger] rest[i].name@, #[trigger] rest[j].name@) by {
            assert(rest[i] == sorted[i + 1] && rest[j] == sorted[j + 1]);
        }
        if f.name@ == sorted[0].name@ {
            assert(r == sorted);
            assert forall|i: int| 0 <= i < sorted.len() implies r.contains(#[trigger] sorted[i]) by {
                assert(r[i] == sorted[i]);
            }
        } else if seq_lt(f.name@, sorted[0].name@) {
            assert(r == seq![f] + sorted);
            assert(r[0] == f);
            assert forall|i: int| 0 < i < r.len() implies sorted.contains(#[trigger] r[i]) by {
                assert(r[i] == sorted[i - 1]);
            }
            assert forall|i: int| 0 <= i < sorted.len() implies r.contains(#[trigger] sorted[i]) by {
                assert(r[i + 1] == sorted[i]);
            }
            assert forall|i: int| 0 <= i < sorted.len() implies (#[trigger] sorted[i]).name@ != f.name@ by {
                if i > 0 {
                    lemma_seq_lt_transitive_fn(f.name@, sorted[0].name@, sorted[i].name@);
                }
                lemma_seq_lt_irreflexive(f.name@);
            }
        } else {
            lemma_add_function(rest, f);
            let rr = function_insert(rest, f);
            assert(r == seq![sorted[0]] + rr);
            assert(r[0] == sorted[0]);
            assert forall|i: int| 0 < i < r.len() && r[i] != f implies sorted.contains(#[trigger] r[i]) by {
                assert(r[i] == rr[i - 1]);
                assert(rest.contains(rr[i - 1]));
                let k = choose|k: int| 0 <= k < rest.len() && rest[k] == rr[i - 1];
                assert(sorted[k + 1] == rest[k]);
            }
            assert forall|i: int| 0 <= i < sorted.len() implies r.contains(#[trigger] sorted[i]) by {
                if i == 0 {
                    assert(r[0] == sorted[0]);
                } else {
                    assert(rest[i - 1] == sorted[i]);
                    assert(rr.contains(rest[i - 1]));
                    let k = choose|k: int| 0 <= k < rr.len() && rr[k] == rest[i - 1];
                    assert(r[k + 1] == rr[k]);
                }
            }
            if exists|i: int| 0 <= i < sorted.len() && (#[trigger] sorted[i]).name@ == f.name@ {
                let i = choose|i: int| 0 <= i < sorted.len() && (#[trigger] sorted[i]).name@ == f.name@;
                assert(i > 0);
                assert(rest[i - 1] == sorted[i]);
                assert(rr == rest);
                assert(r =~= sorted);
            } else {
                assert forall|i: int| 0 <= i < rest.len() implies (#[trigger] rest[i]).name@ != f.name@ by {
                    assert(rest[i] == sorted[i + 1]);
                }
                assert(rr.contains(f));
                let k = choose|k: int| 0 <= k < rr.len() && rr[k] == f;
                assert(r[k + 1] == rr[k]);
            }
        }
    }
}

proof fn lemma_seq_lt_transitive_fn(a: Seq<char>, b: Seq<char>, c: Seq<char>)
    requires
        seq_lt(a, b),
        seq_lt(b, c),
    ensures
        seq_lt(a, c),
{
    crate::text::lemma_seq_lt_transitive(a, b, c);
}


/// Why a function declaration cannot be read.
#[derive(Debug, PartialEq, Eq)]
pub enum DeclRefusal {
    /// A doc comment cannot be read.
    DocComment,
    /// The input at this position is `self`: methods are not supported.
    Receiver(usize),
    /// The type of the argument at this position cannot be read.
    ArgumentType(usize),
    /// The return type cannot be read.
    ReturnType,
}

/// Whether `r` is a true reason why the declaration cannot be read.
pub open spec fn decl_refusal_applies(r: DeclRefusal, d: FnDeclSyntax) -> bool {
    match r {
        DeclRefusal::DocComment => !doc_attrs_readable(d.attrs@),
        DeclRefusal::Receiver(i) => i < d.inputs@.len() && d.inputs@[i as int] is Receiver,
        DeclRefusal::ArgumentType(i) => i < d.inputs@.len()
            && (d.inputs@[i as int] matches FnInputSyntax::Typed(_, ty) && !(ident_of_syntax(ty) is Done)),
        DeclRefusal::ReturnType => match normalized_return(d.output) {
            Some(t) => !(ident_of_syntax(t) is Done),
            None => false,
        },
    }
}

/// Why a function declaration cannot be read (where `Function::new` would
/// panic), or nothing where it can.
pub fn decl_refusal(decl: &FnDeclSyntax) -> (res: Option<DeclRefusal>)
    ensures
        res is None <==> decl_readable(*decl),
        res matches Some(r) ==> decl_refusal_applies(r, *decl),
{
    if !doc_attrs_ok(decl.attrs.as_slice()) {
        return Some(DeclRefusal::DocComment);
    }
    let mut i: usize = 0;
    while i < decl.inputs.len()
        invariant
            i <= decl.inputs@.len(),
            doc_attrs_readable(decl.attrs@),
            forall|k: int| 0 <= k < i ==> match #[trigger] decl.inputs@[k] {
                FnInputSyntax::Receiver => false,
                FnInputSyntax::Typed(_, ty) => ident_of_syntax(ty) is Done,
            },
        decreases decl.inputs@.len() - i,
    {
        match &decl.inputs[i] {
            FnInputSyntax::Receiver => {
                return Some(DeclRefusal::Receiver(i));
            },
            FnInputSyntax::Typed(_, ty) => {
                if !ident_readable(ty) {
                    return Some(DeclRefusal::ArgumentType(i));
                }
            },
        }
        i = i + 1;
    }
    match normalize_return_type(&decl.output) {
        Some(t) => if !ident_readable(t) {
            return Some(DeclRefusal::ReturnType);
        },
        None => {},
    }
    None
}


/// Whether `f` is the function that the declaration `d` declares.
pub open spec fn decl_read(f: Function, d: FnDeclSyntax) -> bool {
    &&& f.name@ == d.ident@
    &&& str_views(f.doc_lines@) == doc_lines_of(d.attrs@)
    &&& f.args@.len() == d.inputs@.len()
    &&& forall|i: int| 0 <= i < f.args@.len() ==> #[trigger] arg_read(f.args@[i], d.inputs@[i])
    &&& match normalized_return(d.output) {
        Some(t) => f.return_type matches Some(r) && Outcome::Done(r@) == ident_of_syntax(t),
        None => f.return_type is None,
    }
    &&& f.is_async == d.is_async
}

impl Function {
    /// Reads a function from its declaration, or says why it cannot be
    /// read.
    pub fn read(decl: &FnDeclSyntax) -> (res: Result<Function, DeclRefusal>)
        ensures
            match res {
                Ok(f) => decl_readable(*decl) && decl_read(f, *decl),
                Err(r) => !decl_readable(*decl) && decl_refusal_applies(r, *decl),
            },
    {
        match decl_refusal(decl) {
            Some(r) => Err(r),
            None => Ok(Function::new(decl)),
        }
    }
}


impl FunctionList {
    /// Reads a function from its declaration and adds it (unless a function
    /// of its name is there); a declaration that cannot be read leaves the
    /// list as it is and says why.
    pub fn add_declared_function(&mut self, decl: &FnDeclSyntax) -> (res: Result<(), DeclRefusal>)
        ensures
            res is Ok <==> decl_readable(*decl),
            res matches Err(r) ==> decl_refusal_applies(r, *decl) && final(self)@ == old(self)@,
            res is Ok ==> exists|f: Function| decl_read(f, *decl) && final(self)@ == function_insert(old(self)@, f),
    {
        match Function::read(decl) {
            Ok(f) => {
                let ghost fv = f;
                self.add_function(f);
                assert(decl_read(fv, *decl) && self@ == function_insert(old(self)@, fv));
                Ok(())
            },
            Err(r) => Err(r),
        }
    }
}

} // verus!
