//! The rewrite itself: a walk over modules that turns marked methods into
//! signals and hands each signal's field to the structure it belongs to.

use vstd::prelude::*;
use crate::ast::{Annotated, Attribute, Block, Field, Item, ItemKind, Member, MemberKind, Signature, Span, Ty, ty_eq};
use crate::resolve::{resolution_diags, resolve, resolved};
use crate::diag::{Diagnostic, ErrorKind};
use crate::synth::{binding_diags, emission, is_emission, is_slot_field, slot_field, trailing};
use crate::validate::{Verdict, count_markers, marker_count, validate, verdict_of};

verus! {

broadcast use vstd::std_specs::vec::group_vec_axioms, vstd::seq::group_seq_axioms;

/// Fields that wait to be added to the structure named by `target`, once
/// the module that holds both has been walked.
#[derive(Debug, PartialEq, Eq)]
pub struct Injection {
    pub target: Ty,
    pub fields: Vec<Field>,
}

/// One list of pending injections per module being walked, innermost last.
pub type InjectionStack = Vec<Vec<Injection>>;

/// The member is a method that the shape rules accept as a signal.
pub open spec fn is_signal(m: Member) -> bool {
    m.kind matches MemberKind::Method(sig, _) && verdict_of(m.attrs@, sig, m.span) is Signal
}

/// The signals among the members, in order.
pub open spec fn signals(ms: Seq<Member>) -> Seq<Member>
    decreases ms.len(),
{
    if ms.len() == 0 {
        Seq::empty()
    } else {
        signals(ms.drop_last()) + if is_signal(ms.last()) {
            seq![ms.last()]
        } else {
            Seq::empty()
        }
    }
}

/// `inj` carries the field of the signal `m` declared in `impl self_ty`.
pub open spec fn is_injection(inj: Injection, self_ty: Ty, m: Member) -> bool {
    &&& ty_eq(self_ty, inj.target)
    &&& inj.fields.len() == 1
    &&& m.kind matches MemberKind::Method(sig, _)
    &&& is_slot_field(inj.fields[0], m.name@, sig.params@)
}

/// Each signal with the type of the `impl` block that declares it.
pub open spec fn paired(self_ty: Ty, sigs: Seq<Member>) -> Seq<(Ty, Member)> {
    sigs.map_values(|m: Member| (self_ty, m))
}

/// The innermost list of the stack has gained, after what it held, one
/// injection for each pending signal, in order; the rest of the stack is
/// unchanged.
pub open spec fn frame_grew(
    before: Seq<Vec<Injection>>,
    after: Seq<Vec<Injection>>,
    pend: Seq<(Ty, Member)>,
) -> bool {
    let o = before.last()@;
    let n = after.last()@;
    &&& before.len() > 0
    &&& after.len() == before.len()
    &&& after.drop_last() == before.drop_last()
    &&& n.len() == o.len() + pend.len()
    &&& n.take(o.len() as int) == o
    &&& forall|k: int|
        0 <= k < pend.len() ==> #[trigger] is_injection(n[o.len() + k], pend[k].0, pend[k].1)
}

/// The method body after the rewrite: the signal's own statements, then the
/// loop over its slots. Anything but a signal is left as it was.
pub open spec fn member_rewritten(old: Member, new: Member) -> bool {
    match old.kind {
        MemberKind::Method(sig, body) => if verdict_of(old.attrs@, sig, old.span) is Signal {
            &&& new.name == old.name
            &&& new.attrs == old.attrs
            &&& new.span == old.span
            &&& new.kind matches MemberKind::Method(sig2, body2)
            &&& sig2 == sig
            &&& body2.span == body.span
            &&& body2.stmts.len() == body.stmts.len() + 1
            &&& body2.stmts@.take(body.stmts.len() as int) == body.stmts@
            &&& is_emission(body2.stmts@.last(), old.name@, sig.params@)
        } else {
            new == old
        },
        _ => new == old,
    }
}

/// The signals that an item of a module hands to that module: those of an
/// `impl` block that does not itself carry the marker.
pub open spec fn item_pending(it: Item) -> Seq<(Ty, Member)> {
    if marker_count(it.attrs@) == 0 && it.kind is Impl {
        paired(it.kind->Impl_0, signals(it.kind->Impl_1@))
    } else {
        Seq::empty()
    }
}

/// The signals that the items hand to their module, in order.
pub open spec fn pending(items: Seq<Item>) -> Seq<(Ty, Member)>
    decreases items.len(),
{
    if items.len() == 0 {
        Seq::empty()
    } else {
        pending(items.drop_last()) + item_pending(items.last())
    }
}

/// The injections are those of the pending signals, one each, in order.
pub open spec fn frame_matches(frame: Seq<Injection>, pend: Seq<(Ty, Member)>) -> bool {
    &&& frame.len() == pend.len()
    &&& forall|k: int| 0 <= k < pend.len() ==> #[trigger] is_injection(frame[k], pend[k].0, pend[k].1)
}

pub open spec fn concat_diags(parts: Seq<Seq<Diagnostic>>) -> Seq<Diagnostic>
    decreases parts.len(),
{
    if parts.len() == 0 {
        Seq::empty()
    } else {
        concat_diags(parts.drop_last()) + parts.last()
    }
}

/// How a module's items become `out`: each item is rewritten to the one at
/// its place in `mid`, reporting `parts` at that place; the module's pending
/// signals become `frame`; then `frame` is resolved against `mid`. The
/// module reports `ds`: what its items reported, then what resolution did.
pub open spec fn module_step(
    items: Seq<Item>,
    mid: Seq<Item>,
    parts: Seq<Seq<Diagnostic>>,
    frame: Seq<Injection>,
    out: Seq<Item>,
    ds: Seq<Diagnostic>,
) -> bool {
    &&& mid.len() == items.len()
    &&& parts.len() == items.len()
    &&& frame_matches(frame, pending(items))
    &&& resolved(mid, frame, out)
    &&& ds == concat_diags(parts) + resolution_diags(mid, frame)
}

pub open spec fn misplaced(span: Span) -> Seq<Diagnostic> {
    seq![Diagnostic { span, kind: ErrorKind::MisplacedMarker }]
}

/// `new` is what walking `old` gives, reporting `ds`; `top` says that `old`
/// is the item the rewrite was started on. An item that carries the marker,
/// and at the top anything but a module, is reported and kept; a module has
/// its items rewritten and resolved; an `impl` block has its members
/// rewritten; anything else is kept.
pub open spec fn item_rewritten(old: Item, new: Item, top: bool, ds: Seq<Diagnostic>) -> bool
    decreases old,
{
    if marker_count(old.attrs@) > 0 {
        new == old && ds == misplaced(old.span)
    } else {
        match old.kind {
            ItemKind::Mod(items) => {
                &&& new.name == old.name
                &&& new.attrs == old.attrs
                &&& new.span == old.span
                &&& new.kind is Mod
                &&& exists|
                    mid: Seq<Item>,
                    parts: Seq<Seq<Diagnostic>>,
                    frame: Seq<Injection>,
                |
                    #[trigger] module_step(items@, mid, parts, frame, new.kind->Mod_0@, ds) && forall|
                        i: int,
                    |
                        #![trigger mid[i]]
                        0 <= i < items.len() ==> item_rewritten(items[i], mid[i], false, parts[i])
            },
            ItemKind::Impl(ty, ms) => if top {
                new == old && ds == misplaced(old.span)
            } else {
                &&& new.name == old.name
                &&& new.attrs == old.attrs
                &&& new.span == old.span
                &&& new.kind matches ItemKind::Impl(ty2, ms2)
                &&& ty2 == ty
                &&& ms2.len() == ms.len()
                &&& forall|i: int| 0 <= i < ms.len() ==> #[trigger] member_rewritten(ms[i], ms2[i])
                &&& ds == members_diags(ms@)
            },
            _ => new == old && ds == if top {
                misplaced(old.span)
            } else {
                Seq::empty()
            },
        }
    }
}

/// What walking a module's items gives, as `item_rewritten` says of a
/// module.
pub open spec fn module_rewritten(items: Seq<Item>, out: Seq<Item>, ds: Seq<Diagnostic>) -> bool {
    exists|mid: Seq<Item>, parts: Seq<Seq<Diagnostic>>, frame: Seq<Injection>|
        #[trigger] module_step(items, mid, parts, frame, out, ds) && forall|i: int|
            #![trigger mid[i]]
            0 <= i < items.len() ==> item_rewritten(items[i], mid[i], false, parts[i])
}

/// What walking one member reports.
pub open spec fn member_diags(m: Member) -> Seq<Diagnostic> {
    match m.kind {
        MemberKind::Method(sig, _) => match verdict_of(m.attrs@, sig, m.span) {
            Verdict::Plain => Seq::empty(),
            Verdict::Signal => binding_diags(trailing(sig.params@)),
            Verdict::Rejected(d) => seq![d],
        },
        _ => if marker_count(m.attrs@) > 0 {
            seq![Diagnostic { span: m.span, kind: ErrorKind::MisplacedMarker }]
        } else {
            Seq::empty()
        },
    }
}

/// What walking the members reports, in order.
pub open spec fn members_diags(ms: Seq<Member>) -> Seq<Diagnostic>
    decreases ms.len(),
{
    if ms.len() == 0 {
        Seq::empty()
    } else {
        members_diags(ms.drop_last()) + member_diags(ms.last())
    }
}

/// Adds one injection to the innermost list of the stack.
fn push_injection(stack: &mut InjectionStack, inj: Injection)
    requires
        old(stack).len() > 0,
    ensures
        final(stack)@.len() == old(stack)@.len(),
        final(stack)@.drop_last() == old(stack)@.drop_last(),
        final(stack)@.last()@ == old(stack)@.last()@.push(inj),
{
    let mut frame = stack.pop().unwrap();
    frame.push(inj);
    stack.push(frame);
    assert(stack@.drop_last() =~= old(stack)@.drop_last());
}

/// Rewrites one method of `impl self_ty`. A signal gets the loop over its
/// slots appended to its body, and its slot field goes to the innermost
/// list of the stack; a method that carries the marker but breaks a shape
/// rule is reported and left as it was.
pub fn sig_method(
    stack: &mut InjectionStack,
    self_ty: &Ty,
    name: &String,
    attrs: &Vec<Attribute>,
    sig: Signature,
    body: Block,
    span: Span,
    diags: &mut Vec<Diagnostic>,
) -> (r: (Signature, Block))
    requires
        old(stack).len() > 0,
    ensures
        r.0 == sig,
        match verdict_of(attrs@, sig, span) {
            Verdict::Signal => {
                &&& r.1.span == body.span
                &&& r.1.stmts.len() == body.stmts.len() + 1
                &&& r.1.stmts@.take(body.stmts.len() as int) == body.stmts@
                &&& is_emission(r.1.stmts@.last(), name@, sig.params@)
                &&& final(diags)@ == old(diags)@ + binding_diags(trailing(sig.params@))
                &&& final(stack)@.len() == old(stack)@.len()
                &&& final(stack)@.drop_last() == old(stack)@.drop_last()
                &&& final(stack)@.last().len() == old(stack)@.last().len() + 1
                &&& final(stack)@.last()@.drop_last() == old(stack)@.last()@
                &&& ty_eq(*self_ty, final(stack)@.last()@.last().target)
                &&& final(stack)@.last()@.last().fields.len() == 1
                &&& is_slot_field(final(stack)@.last()@.last().fields[0], name@, sig.params@)
            },
            Verdict::Rejected(d) => {
                &&& r.1 == body
                &&& final(diags)@ == old(diags)@.push(d)
                &&& *final(stack) == *old(stack)
            },
            Verdict::Plain => {
                &&& r.1 == body
                &&& *final(diags) == *old(diags)
                &&& *final(stack) == *old(stack)
            },
        },
{
    match validate(attrs, &sig, span) {
        Verdict::Plain => (sig, body),
        Verdict::Rejected(d) => {
            diags.push(d);
            (sig, body)
        },
        Verdict::Signal => {
            let mut fields: Vec<Field> = Vec::new();
            fields.push(slot_field(name, &sig.params));
            push_injection(stack, Injection { target: self_ty.duplicate(), fields });
            let stmt = emission(name, &sig.params, diags);
            let Block { stmts, span: body_span } = body;
            let mut stmts = stmts;
            let ghost before = stmts@;
            stmts.push(stmt);
            assert(stmts@.take(before.len() as int) =~= before);
            (sig, Block { stmts, span: body_span })
        },
    }
}

proof fn lemma_signals_one(m: Member)
    ensures
        signals(seq![m]) == if is_signal(m) {
            seq![m]
        } else {
            Seq::<Member>::empty()
        },
{
    assert(seq![m].drop_last() =~= Seq::<Member>::empty());
    assert(signals(Seq::<Member>::empty()) == Seq::<Member>::empty());
    assert(seq![m].last() == m);
    if is_signal(m) {
        assert(Seq::<Member>::empty() + seq![m] =~= seq![m]);
    } else {
        assert(Seq::<Member>::empty() + Seq::<Member>::empty() =~= Seq::<Member>::empty());
    }
}

proof fn lemma_frame_refl(stack: Seq<Vec<Injection>>)
    requires
        stack.len() > 0,
    ensures
        frame_grew(stack, stack, Seq::empty()),
{
    assert(stack.last()@.take(stack.last()@.len() as int) =~= stack.last()@);
}

proof fn lemma_frame_trans(
    a: Seq<Vec<Injection>>,
    b: Seq<Vec<Injection>>,
    c: Seq<Vec<Injection>>,
    s1: Seq<(Ty, Member)>,
    s2: Seq<(Ty, Member)>,
)
    requires
        frame_grew(a, b, s1),
        frame_grew(b, c, s2),
    ensures
        frame_grew(a, c, s1 + s2),
{
    let o = a.last()@;
    let m = b.last()@;
    let n = c.last()@;
    assert(n.take(o.len() as int) =~= o) by {
        assert(n.take(o.len() as int) =~= n.take(m.len() as int).take(o.len() as int));
    }
    assert forall|k: int| 0 <= k < (s1 + s2).len() implies #[trigger] is_injection(
        n[o.len() + k],
        (s1 + s2)[k].0,
        (s1 + s2)[k].1,
    ) by {
        if k < s1.len() {
            assert(n[o.len() + k] == n.take(m.len() as int)[o.len() + k]);
            assert(is_injection(m[o.len() + k], s1[k].0, s1[k].1));
        } else {
            assert(is_injection(n[m.len() + (k - s1.len())], s2[k - s1.len()].0, s2[k - s1.len()].1));
        }
    }
}

/// Rewrites one member of `impl self_ty`: methods go through `sig_method`;
/// any other member that carries the marker is reported and kept.
pub fn sig_impl_item(
    stack: &mut InjectionStack,
    self_ty: &Ty,
    item: Member,
    diags: &mut Vec<Diagnostic>,
) -> (r: Member)
    requires
        old(stack).len() > 0,
    ensures
        member_rewritten(item, r),
        final(diags)@ == old(diags)@ + member_diags(item),
        frame_grew(old(stack)@, final(stack)@, paired(*self_ty, signals(seq![item]))),
{
    proof {
        lemma_signals_one(item);
        lemma_frame_refl(stack@);
        assert(paired(*self_ty, Seq::<Member>::empty()) =~= Seq::<(Ty, Member)>::empty());
    }
    let Member { name, attrs, kind, span } = item;
    match kind {
        MemberKind::Method(sig, body) => {
            let ghost before = stack@;
            let (sig, body) = sig_method(stack, self_ty, &name, &attrs, sig, body, span, diags);
            proof {
                if is_signal(item) {
                    let n = stack@.last()@;
                    assert(n.take(before.last()@.len() as int) =~= before.last()@);
                    let pend = paired(*self_ty, signals(seq![item]));
                    assert(pend =~= seq![(*self_ty, item)]);
                    assert(is_injection(n[before.last()@.len() + 0int], pend[0].0, pend[0].1));
                }
            }
            Member { name, attrs, kind: MemberKind::Method(sig, body), span }
        },
        MemberKind::Other(text) => {
            if count_markers(&attrs) > 0 {
                diags.push(Diagnostic { span, kind: ErrorKind::MisplacedMarker });
            }
            assert(diags@ =~= old(diags)@ + member_diags(item));
            Member { name, attrs, kind: MemberKind::Other(text), span }
        },
    }
}

/// Rewrites the members of `impl self_ty` in order.
pub fn sig_impl_items(
    stack: &mut InjectionStack,
    self_ty: &Ty,
    items: Vec<Member>,
    diags: &mut Vec<Diagnostic>,
) -> (r: Vec<Member>)
    requires
        old(stack).len() > 0,
    ensures
        r.len() == items.len(),
        forall|i: int| 0 <= i < items.len() ==> #[trigger] member_rewritten(items[i], r[i]),
        final(diags)@ == old(diags)@ + members_diags(items@),
        frame_grew(old(stack)@, final(stack)@, paired(*self_ty, signals(items@))),
{
    let ghost all = items@;
    let mut rest = items;
    let mut out: Vec<Member> = Vec::new();
    proof {
        lemma_frame_refl(stack@);
        assert(all.take(0) =~= Seq::<Member>::empty());
        assert(paired(*self_ty, signals(all.take(0))) =~= Seq::<(Ty, Member)>::empty());
    }
    while rest.len() > 0
        invariant
            out.len() + rest.len() == all.len(),
            rest@ == all.subrange(out.len() as int, all.len() as int),
            forall|j: int| 0 <= j < out.len() ==> #[trigger] member_rewritten(all[j], out[j]),
            diags@ == old(diags)@ + members_diags(all.take(out.len() as int)),
            frame_grew(old(stack)@, stack@, paired(*self_ty, signals(all.take(out.len() as int)))),
        decreases rest.len(),
    {
        let ghost i = out.len() as int;
        let ghost mid = stack@;
        let m = rest.remove(0);
        assert(m == all[i]);
        let m2 = sig_impl_item(stack, self_ty, m, diags);
        out.push(m2);
        proof {
            assert(all.take(i + 1).drop_last() =~= all.take(i));
            assert(all.take(i + 1).last() == m);
            lemma_signals_one(m);
            assert(signals(all.take(i + 1)) =~= signals(all.take(i)) + signals(seq![m]));
            assert(paired(*self_ty, signals(all.take(i + 1))) =~= paired(*self_ty, signals(all.take(i)))
                + paired(*self_ty, signals(seq![m])));
            lemma_frame_trans(
                old(stack)@,
                mid,
                stack@,
                paired(*self_ty, signals(all.take(i))),
                paired(*self_ty, signals(seq![m])),
            );
            assert(diags@ =~= old(diags)@ + members_diags(all.take(i + 1)));
        }
    }
    assert(all.take(all.len() as int) =~= all);
    out
}

/// Walks one item. `top` says whether it is the item the rewrite was
/// started on; below the top, the innermost list of the stack belongs to
/// the module that holds the item.
pub fn sig_item(item: Item, top: bool, stack: &mut InjectionStack, diags: &mut Vec<Diagnostic>) -> (r: Item)
    requires
        !top ==> old(stack).len() > 0,
    ensures
        final(diags)@.len() >= old(diags)@.len(),
        final(diags)@.take(old(diags)@.len() as int) == old(diags)@,
        item_rewritten(item, r, top, final(diags)@.skip(old(diags)@.len() as int)),
        top ==> final(stack)@ == old(stack)@,
        !top ==> frame_grew(old(stack)@, final(stack)@, item_pending(item)),
    decreases item,
{
    let ghost d0 = diags@;
    proof {
        if !top {
            lemma_frame_refl(stack@);
        }
    }
    if count_markers(&item.attrs) > 0 {
        diags.push(Diagnostic { span: item.span, kind: ErrorKind::MisplacedMarker });
        assert(diags@.skip(d0.len() as int) =~= misplaced(item.span));
        assert(diags@.take(d0.len() as int) =~= d0);
        return item;
    }
    let is_mod = match &item.kind {
        ItemKind::Mod(_) => true,
        _ => false,
    };
    if top && !is_mod {
        diags.push(Diagnostic { span: item.span, kind: ErrorKind::MisplacedMarker });
        assert(diags@.skip(d0.len() as int) =~= misplaced(item.span));
        assert(diags@.take(d0.len() as int) =~= d0);
        return item;
    }
    let ghost old_item = item;
    let Item { name, attrs, kind, span } = item;
    match kind {
        ItemKind::Mod(items) => {
            let out = sig_mod(items, stack, diags);
            let r = Item { name, attrs, kind: ItemKind::Mod(out), span };
            proof {
                let ds = diags@.skip(d0.len() as int);
                let (mid, parts, frame) = choose|
                    mid: Seq<Item>,
                    parts: Seq<Seq<Diagnostic>>,
                    frame: Seq<Injection>,
                |
                    #[trigger] module_step(items@, mid, parts, frame, out@, ds) && forall|i: int|
                        #![trigger mid[i]]
                        0 <= i < items.len() ==> item_rewritten(items[i], mid[i], false, parts[i]);
                assert(module_step(items@, mid, parts, frame, r.kind->Mod_0@, ds));
                assert(item_rewritten(old_item, r, top, ds));
                if !top {
                    assert(item_pending(old_item) =~= Seq::<(Ty, Member)>::empty());
                }
            }
            r
        },
        ItemKind::Impl(ty, members) => {
            let ms = sig_impl_items(stack, &ty, members, diags);
            assert(diags@.skip(d0.len() as int) =~= members_diags(members@));
            assert(diags@.take(d0.len() as int) =~= d0);
            Item { name, attrs, kind: ItemKind::Impl(ty, ms), span }
        },
        other => {
            assert(diags@.skip(d0.len() as int) =~= Seq::<Diagnostic>::empty());
            assert(diags@.take(d0.len() as int) =~= d0);
            assert(item_pending(old_item) =~= Seq::<(Ty, Member)>::empty());
            Item { name, attrs, kind: other, span }
        },
    }
}

/// Walks a module's items with a fresh list of pending injections, then
/// resolves what they produced against those same items.
pub fn sig_mod(items: Vec<Item>, stack: &mut InjectionStack, diags: &mut Vec<Diagnostic>) -> (r: Vec<Item>)
    ensures
        final(diags)@.len() >= old(diags)@.len(),
        final(diags)@.take(old(diags)@.len() as int) == old(diags)@,
        module_rewritten(items@, r@, final(diags)@.skip(old(diags)@.len() as int)),
        final(stack)@ == old(stack)@,
    decreases items,
{
    let ghost all = items@;
    let ghost d0 = diags@;
    stack.push(Vec::new());
    let ghost start = stack@;
    let mut rest = items;
    let mut mid: Vec<Item> = Vec::new();
    let ghost mut parts: Seq<Seq<Diagnostic>> = Seq::empty();
    proof {
        lemma_frame_refl(stack@);
        assert(all.take(0) =~= Seq::<Item>::empty());
        assert(diags@ =~= d0 + concat_diags(parts));
    }
    while rest.len() > 0
        invariant
            mid.len() + rest.len() == all.len(),
            rest@ == all.subrange(mid.len() as int, all.len() as int),
            all == items@,
            start.len() > 0,
            start.drop_last() == old(stack)@,
            start.last()@ == Seq::<Injection>::empty(),
            frame_grew(start, stack@, pending(all.take(mid.len() as int))),
            parts.len() == mid.len(),
            forall|j: int|
                #![trigger mid@[j]]
                0 <= j < mid.len() ==> item_rewritten(all[j], mid@[j], false, parts[j]),
            diags@ == d0 + concat_diags(parts),
        decreases rest.len(),
    {
        let ghost i = mid.len() as int;
        let ghost s0 = stack@;
        let ghost d1 = diags@;
        let m = rest.remove(0);
        assert(m == all[i]);
        assert(decreases_to!(items => items@[i]));
        let m2 = sig_item(m, false, stack, diags);
        proof {
            let p = diags@.skip(d1.len() as int);
            assert(diags@ =~= d1 + p);
            let old_parts = parts;
            parts = parts.push(p);
            assert(parts.drop_last() =~= old_parts);
            assert(concat_diags(parts) == concat_diags(old_parts) + p);
            assert(all.take(i + 1).drop_last() =~= all.take(i));
            lemma_frame_trans(start, s0, stack@, pending(all.take(i)), item_pending(m));
            assert(diags@ =~= d0 + concat_diags(parts));
        }
        mid.push(m2);
    }
    let ghost before_pop = stack@;
    let frame = stack.pop().unwrap();
    proof {
        assert(all.take(all.len() as int) =~= all);
        assert(stack@ =~= old(stack)@);
        assert forall|k: int| 0 <= k < pending(all).len() implies #[trigger] is_injection(
            frame@[k],
            pending(all)[k].0,
            pending(all)[k].1,
        ) by {
            assert(is_injection(before_pop.last()@[0 + k], pending(all)[k].0, pending(all)[k].1));
        }
        assert(frame_matches(frame@, pending(all)));
    }
    let ghost d2 = diags@;
    let ghost mid_s = mid@;
    let ghost frame_s = frame@;
    let out = resolve(mid, frame, diags);
    proof {
        let ds = diags@.skip(d0.len() as int);
        assert(ds =~= concat_diags(parts) + resolution_diags(mid_s, frame_s));
        assert(diags@.take(d0.len() as int) =~= d0);
        assert(module_step(all, mid_s, parts, frame_s, out@, ds));
    }
    out
}

/// Rewrites what the host hands over under the driving attribute, and
/// returns one thing for the one it was given. On an item the walk starts at
/// the top; a trait member cannot hold signals, so it is reported and kept.
/// A member of an `impl` block is kept silently: the host calls the rewrite
/// again for each marker left on a method, and the walk of the enclosing
/// module has already dealt with those.
pub fn sig(item: Annotated, diags: &mut Vec<Diagnostic>) -> (r: Annotated)
    ensures
        final(diags)@.len() >= old(diags)@.len(),
        final(diags)@.take(old(diags)@.len() as int) == old(diags)@,
        match item {
            Annotated::Item(it) => r matches Annotated::Item(new) && item_rewritten(
                it,
                new,
                true,
                final(diags)@.skip(old(diags)@.len() as int),
            ),
            Annotated::TraitMember(m) => r == item && final(diags)@.skip(old(diags)@.len() as int)
                == misplaced(m.span),
            Annotated::ImplMember(_) => r == item && final(diags)@ == old(diags)@,
        },
{
    let ghost d0 = diags@;
    match item {
        Annotated::Item(it) => {
            let mut stack: InjectionStack = Vec::new();
            Annotated::Item(sig_item(it, true, &mut stack, diags))
        },
        Annotated::TraitMember(m) => {
            diags.push(Diagnostic { span: m.span, kind: ErrorKind::MisplacedMarker });
            assert(diags@.skip(d0.len() as int) =~= misplaced(m.span));
            assert(diags@.take(d0.len() as int) =~= d0);
            Annotated::TraitMember(m)
        },
        Annotated::ImplMember(m) => {
            assert(diags@.take(d0.len() as int) =~= d0);
            Annotated::ImplMember(m)
        },
    }
}

} // verus!
