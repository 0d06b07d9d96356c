//! The code a signal adds: the slot list field and the loop that calls it.

use vstd::prelude::*;
use crate::ast::{
    Block, Expr, Field, GenericArgs, Param, Pat, PathSegment, Span, Stmt, Ty, TyKind, duplicate_tys,
    tys_eq,
};
use crate::diag::{Diagnostic, ErrorKind};

verus! {

broadcast use vstd::std_specs::vec::group_vec_axioms, vstd::seq::group_seq_axioms;

pub open spec fn vec_name() -> Seq<char> {
    seq!['V', 'e', 'c']
}

pub open spec fn rc_name() -> Seq<char> {
    seq!['R', 'c']
}

pub open spec fn fn_name() -> Seq<char> {
    seq!['F', 'n']
}

pub open spec fn slot_name() -> Seq<char> {
    seq!['s', 'l', 'o', 't']
}

pub open spec fn iter_name() -> Seq<char> {
    seq!['i', 't', 'e', 'r']
}

/// The parameters after the receiver.
pub open spec fn trailing(params: Seq<Param>) -> Seq<Param> {
    params.drop_first()
}

pub open spec fn param_tys(params: Seq<Param>) -> Seq<Ty> {
    params.map_values(|p: Param| p.ty)
}

/// `ty` is the one-segment path `name<arg>`, with `arg` its one argument.
pub open spec fn wraps_one(ty: Ty, name: Seq<char>) -> bool {
    &&& ty.kind matches TyKind::Path(segs)
    &&& segs.len() == 1
    &&& segs[0].name@ == name
    &&& segs[0].args matches GenericArgs::Angle(args)
    &&& args.len() == 1
}

/// The argument of a type for which `wraps_one` holds.
pub open spec fn wrapped(ty: Ty) -> Ty {
    ty.kind->Path_0[0].args->Angle_0[0]
}

/// `ty` is `Fn(T1, .., Tn)`, with `tys` the `Ti`, and no return type.
pub open spec fn is_callable(ty: Ty, tys: Seq<Ty>) -> bool {
    &&& ty.kind matches TyKind::Path(segs)
    &&& segs.len() == 1
    &&& segs[0].name@ == fn_name()
    &&& segs[0].args matches GenericArgs::Paren(args)
    &&& tys_eq(tys, args@)
}

/// `ty` is `Vec<Rc<Fn(T1, .., Tn)>>`: a list of shared callables over `tys`.
pub open spec fn is_slot_list(ty: Ty, tys: Seq<Ty>) -> bool {
    &&& wraps_one(ty, vec_name())
    &&& wraps_one(wrapped(ty), rc_name())
    &&& is_callable(wrapped(wrapped(ty)), tys)
}

/// The field that a signal named `name` with these parameters (receiver
/// first) adds to its structure: public, no attributes, named after the
/// signal, holding the slots that take the parameters after the receiver.
pub open spec fn is_slot_field(field: Field, name: Seq<char>, params: Seq<Param>) -> bool {
    &&& field.name matches Some(n) && n@ == name
    &&& field.public
    &&& field.attrs.len() == 0
    &&& is_slot_list(field.ty, param_tys(trailing(params)))
}

/// The name a parameter is passed on by: its own, or the empty placeholder
/// when it is bound by a pattern.
pub open spec fn arg_name(param: Param) -> Seq<char> {
    match param.pat {
        Pat::Ident(name) => name@,
        _ => Seq::empty(),
    }
}

/// One report for each parameter bound by a pattern, in order.
pub open spec fn binding_diags(params: Seq<Param>) -> Seq<Diagnostic>
    decreases params.len(),
{
    if params.len() == 0 {
        Seq::empty()
    } else {
        binding_diags(params.drop_last()) + match params.last().pat {
            Pat::Ident(_) => Seq::<Diagnostic>::empty(),
            _ => seq![Diagnostic { span: params.last().span, kind: ErrorKind::UnexpectedPattern }],
        }
    }
}

/// `e` is `slot(a1, .., an)`, the `ai` the names of `params`.
pub open spec fn is_slot_call(e: Expr, params: Seq<Param>) -> bool {
    &&& e matches Expr::Call(callee, args)
    &&& *callee matches Expr::Ident(f) && f@ == slot_name()
    &&& args.len() == params.len()
    &&& forall|i: int|
        0 <= i < args.len() ==> (#[trigger] args[i] matches Expr::Ident(a) && a@ == arg_name(
            params[i],
        ))
}

/// `s` is `for slot in self.field.iter() { slot(a1, .., an) }`, the `ai` the
/// names of the parameters after the receiver.
pub open spec fn is_emission(s: Stmt, field: Seq<char>, params: Seq<Param>) -> bool {
    &&& s matches Stmt::Expr(e)
    &&& e matches Expr::ForLoop(pat, iter, body)
    &&& pat matches Pat::Ident(b) && b@ == slot_name()
    &&& *iter matches Expr::MethodCall(recv, m, margs)
    &&& m@ == iter_name()
    &&& margs.len() == 0
    &&& *recv matches Expr::Field(base, f)
    &&& *base is SelfValue
    &&& f@ == field
    &&& body.stmts.len() == 1
    &&& body.stmts[0] matches Stmt::Expr(call)
    &&& is_slot_call(call, trailing(params))
}

fn one_segment(name: String, args: GenericArgs) -> (r: Ty)
    ensures
        r.kind matches TyKind::Path(segs) && segs.len() == 1 && segs[0].name == name
            && segs[0].args == args,
{
    let mut segs: Vec<PathSegment> = Vec::new();
    segs.push(PathSegment { name, args });
    Ty { kind: TyKind::Path(segs), span: Span::dummy() }
}

fn wrap(name: String, inner: Ty) -> (r: Ty)
    ensures
        wraps_one(r, name@),
        wrapped(r) == inner,
{
    let mut args: Vec<Ty> = Vec::new();
    args.push(inner);
    one_segment(name, GenericArgs::Angle(args))
}

/// Copies of the types of the parameters after the receiver.
fn trailing_tys(params: &Vec<Param>) -> (r: Vec<Ty>)
    requires
        params.len() >= 1,
    ensures
        tys_eq(param_tys(trailing(params@)), r@),
{
    let mut r: Vec<Ty> = Vec::new();
    let mut i: usize = 1;
    while i < params.len()
        invariant
            1 <= i <= params.len(),
            r.len() == i - 1,
            forall|j: int|
                #![trigger r[j]]
                0 <= j < i - 1 ==> crate::ast::ty_eq(params[j + 1].ty, r[j]),
        decreases params.len() - i,
    {
        r.push(params[i].ty.duplicate());
        i = i + 1;
    }
    r
}

/// The type of the slot list: `Vec<Rc<Fn(T1, .., Tn)>>`.
pub fn slot_list_type(params: &Vec<Param>) -> (r: Ty)
    requires
        params.len() >= 1,
    ensures
        is_slot_list(r, param_tys(trailing(params@))),
{
    let args = trailing_tys(params);
    let callable = one_segment(String::from_str("Fn"), GenericArgs::Paren(args));
    let shared = wrap(String::from_str("Rc"), callable);
    let list = wrap(String::from_str("Vec"), shared);
    proof {
        reveal_strlit("Fn");
        reveal_strlit("Rc");
        reveal_strlit("Vec");
        assert("Fn"@ =~= fn_name());
        assert("Rc"@ =~= rc_name());
        assert("Vec"@ =~= vec_name());
    }
    list
}

/// The field that holds the slots of the signal `name`.
pub fn slot_field(name: &String, params: &Vec<Param>) -> (r: Field)
    requires
        params.len() >= 1,
    ensures
        is_slot_field(r, name@, params@),
{
    Field {
        name: Some(name.clone()),
        public: true,
        ty: slot_list_type(params),
        attrs: Vec::new(),
        span: Span::dummy(),
    }
}

/// The arguments of the slot call, one per parameter after the receiver.
/// A parameter bound by a pattern is reported and passed on under the empty
/// name, which the host's later checks then refuse.
fn slot_args(params: &Vec<Param>, diags: &mut Vec<Diagnostic>) -> (r: Vec<Expr>)
    requires
        params.len() >= 1,
    ensures
        r.len() == params.len() - 1,
        forall|i: int|
            0 <= i < r.len() ==> (#[trigger] r[i] matches Expr::Ident(a) && a@ == arg_name(
                params[i + 1],
            )),
        final(diags)@ == old(diags)@ + binding_diags(trailing(params@)),
{
    let mut r: Vec<Expr> = Vec::new();
    let mut i: usize = 1;
    while i < params.len()
        invariant
            1 <= i <= params.len(),
            r.len() == i - 1,
            forall|j: int|
                0 <= j < r.len() ==> (#[trigger] r[j] matches Expr::Ident(a) && a@ == arg_name(
                    params[j + 1],
                )),
            diags@ == old(diags)@ + binding_diags(params@.subrange(1, i as int)),
        decreases params.len() - i,
    {
        let p = &params[i];
        assert(params@.subrange(1, i as int + 1).drop_last() =~= params@.subrange(1, i as int));
        match &p.pat {
            Pat::Ident(name) => {
                r.push(Expr::Ident(name.clone()));
                assert(diags@ =~= old(diags)@ + binding_diags(params@.subrange(1, i as int + 1)));
            },
            _ => {
                diags.push(Diagnostic { span: p.span, kind: ErrorKind::UnexpectedPattern });
                r.push(Expr::Ident(String::new()));
                assert(diags@ =~= old(diags)@ + binding_diags(params@.subrange(1, i as int + 1)));
            },
        }
        i = i + 1;
    }
    assert(params@.subrange(1, params.len() as int) =~= trailing(params@));
    r
}

/// The statement appended to a signal's body: it calls every slot in the
/// field, in list order, with the parameters after the receiver.
pub fn emission(field: &String, params: &Vec<Param>, diags: &mut Vec<Diagnostic>) -> (r: Stmt)
    requires
        params.len() >= 1,
    ensures
        is_emission(r, field@, params@),
        final(diags)@ == old(diags)@ + binding_diags(trailing(params@)),
{
    let args = slot_args(params, diags);
    let call = Expr::Call(Box::new(Expr::Ident(String::from_str("slot"))), args);
    let mut stmts: Vec<Stmt> = Vec::new();
    stmts.push(Stmt::Expr(call));
    let body = Block { stmts, span: Span::dummy() };
    let iter = Expr::MethodCall(
        Box::new(Expr::Field(Box::new(Expr::SelfValue), field.clone())),
        String::from_str("iter"),
        Vec::new(),
    );
    proof {
        reveal_strlit("slot");
        reveal_strlit("iter");
        assert("slot"@ =~= slot_name());
        assert("iter"@ =~= iter_name());
    }
    Stmt::Expr(Expr::ForLoop(Pat::Ident(String::from_str("slot")), Box::new(iter), body))
}

} // verus!
