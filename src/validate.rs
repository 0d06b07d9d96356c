//! Which methods are signals.

use vstd::prelude::*;
use crate::ast::{Attribute, GenericArgs, Pat, PathSegment, Signature, Span, Ty, TyKind};
use crate::diag::{Diagnostic, ErrorKind};

verus! {

/// The name of the marker attribute.
pub open spec fn marker_name() -> Seq<char> {
    seq!['s', 'i', 'g']
}

/// The name of the receiver parameter.
pub open spec fn self_name() -> Seq<char> {
    seq!['s', 'e', 'l', 'f']
}

/// The path is the marker: one bare segment named `sig`.
pub open spec fn is_marker_path(path: Seq<PathSegment>) -> bool {
    &&& path.len() == 1
    &&& path[0].name@ == marker_name()
    &&& path[0].args is Bare
}

pub open spec fn is_marker(attr: Attribute) -> bool {
    is_marker_path(attr.path@)
}

/// How many of the attributes are the marker.
pub open spec fn marker_count(attrs: Seq<Attribute>) -> nat
    decreases attrs.len(),
{
    if attrs.len() == 0 {
        0
    } else {
        marker_count(attrs.drop_last()) + if is_marker(attrs.last()) {
            1nat
        } else {
            0nat
        }
    }
}

/// The first parameter is the receiver `self`, by value or by reference.
pub open spec fn has_receiver(sig: Signature) -> bool {
    &&& sig.params.len() > 0
    &&& sig.params[0].pat matches Pat::Ident(name) && name@ == self_name()
}

pub open spec fn is_unit(ty: Ty) -> bool {
    ty.kind matches TyKind::Tuple(elems) && elems.len() == 0
}

/// The signature returns nothing: no return type, or `()`.
pub open spec fn returns_unit(sig: Signature) -> bool {
    match sig.ret {
        None => true,
        Some(ty) => is_unit(ty),
    }
}

/// What the shape rules decide of one method.
#[derive(Clone, Copy, Debug, PartialEq, Eq, Structural)]
pub enum Verdict {
    /// The method does not carry the marker: it is left alone, silently.
    Plain,
    /// The method is a signal.
    Signal,
    /// The method carries the marker but breaks a rule.
    Rejected(Diagnostic),
}

/// The verdict on a method with these attributes and signature, written at
/// `span`. The rules are tried in order: the marker once, then the receiver,
/// then the return type; the first that fails is reported.
pub open spec fn verdict_of(attrs: Seq<Attribute>, sig: Signature, span: Span) -> Verdict {
    let n = marker_count(attrs);
    if n == 0 {
        Verdict::Plain
    } else if n > 1 {
        Verdict::Rejected(Diagnostic { span, kind: ErrorKind::RepeatedMarker })
    } else if sig.params.len() == 0 {
        Verdict::Rejected(Diagnostic { span, kind: ErrorKind::MissingReceiver })
    } else if !(sig.params[0].pat is Ident) {
        Verdict::Rejected(Diagnostic { span: sig.params[0].span, kind: ErrorKind::UnexpectedPattern })
    } else if !has_receiver(sig) {
        Verdict::Rejected(Diagnostic { span: sig.params[0].span, kind: ErrorKind::StaticMethod })
    } else {
        match sig.ret {
            Some(ty) if !is_unit(ty) => Verdict::Rejected(
                Diagnostic { span: ty.span, kind: ErrorKind::ReturnsValue },
            ),
            _ => Verdict::Signal,
        }
    }
}

/// Whether one attribute is the marker.
pub fn attr_is_marker(attr: &Attribute) -> (r: bool)
    ensures
        r == is_marker(*attr),
{
    if attr.path.len() != 1 {
        return false;
    }
    let seg = &attr.path[0];
    let marker = String::from_str("sig");
    proof {
        reveal_strlit("sig");
    }
    assert(marker@ =~= marker_name());
    seg.name == marker && matches!(seg.args, GenericArgs::Bare)
}

/// How many of the attributes are the marker, counting no further than two.
pub fn count_markers(attrs: &Vec<Attribute>) -> (r: usize)
    ensures
        r == if marker_count(attrs@) < 2 { marker_count(attrs@) } else { 2 },
{
    let mut n: usize = 0;
    let mut i: usize = 0;
    while i < attrs.len()
        invariant
            i <= attrs.len(),
            n == if marker_count(attrs@.take(i as int)) < 2 {
                marker_count(attrs@.take(i as int))
            } else {
                2
            },
        decreases attrs.len() - i,
    {
        assert(attrs@.take(i as int + 1).drop_last() =~= attrs@.take(i as int));
        if attr_is_marker(&attrs[i]) && n < 2 {
            n = n + 1;
        }
        i = i + 1;
    }
    assert(attrs@.take(attrs.len() as int) =~= attrs@);
    n
}

/// Whether the type is `()`.
pub fn ty_is_unit(ty: &Ty) -> (r: bool)
    ensures
        r == is_unit(*ty),
{
    match &ty.kind {
        TyKind::Tuple(elems) => elems.len() == 0,
        _ => false,
    }
}

/// Decides whether a method is a signal, and if not, why.
pub fn validate(attrs: &Vec<Attribute>, sig: &Signature, span: Span) -> (r: Verdict)
    ensures
        r == verdict_of(attrs@, *sig, span),
{
    let n = count_markers(attrs);
    if n == 0 {
        return Verdict::Plain;
    }
    if n > 1 {
        return Verdict::Rejected(Diagnostic { span, kind: ErrorKind::RepeatedMarker });
    }
    if sig.params.len() == 0 {
        return Verdict::Rejected(Diagnostic { span, kind: ErrorKind::MissingReceiver });
    }
    let first = &sig.params[0];
    match &first.pat {
        Pat::Ident(name) => {
            let receiver = String::from_str("self");
            proof {
                reveal_strlit("self");
            }
            assert(receiver@ =~= self_name());
            if !(*name == receiver) {
                return Verdict::Rejected(Diagnostic { span: first.span, kind: ErrorKind::StaticMethod });
            }
        },
        _ => {
            return Verdict::Rejected(Diagnostic { span: first.span, kind: ErrorKind::UnexpectedPattern });
        },
    }
    match &sig.ret {
        Some(ty) => {
            if ty_is_unit(ty) {
                Verdict::Signal
            } else {
                Verdict::Rejected(Diagnostic { span: ty.span, kind: ErrorKind::ReturnsValue })
            }
        },
        None => Verdict::Signal,
    }
}

/// A method that carries the marker gets a verdict other than `Plain`; it is
/// judged a signal exactly when it carries the marker once, takes `self`
/// first and returns nothing, so a rejection always names a broken rule.
pub proof fn lemma_verdict_total(attrs: Seq<Attribute>, sig: Signature, span: Span)
    requires
        marker_count(attrs) > 0,
    ensures
        !(verdict_of(attrs, sig, span) is Plain),
        verdict_of(attrs, sig, span) is Signal <==> (marker_count(attrs) == 1 && has_receiver(sig)
            && returns_unit(sig)),
{
}

} // verus!
