//! Adding the pending fields to the structures of one module.

use vstd::prelude::*;
use crate::ast::{Field, GenericArgs, Item, ItemKind, StructBody, Ty, TyKind};
use crate::diag::{Diagnostic, ErrorKind};
use crate::walk::Injection;

verus! {

broadcast use vstd::std_specs::vec::group_vec_axioms, vstd::seq::group_seq_axioms;

/// The name a target type resolves by: that of a one-segment path without
/// generic arguments. Any other type does not resolve.
pub open spec fn target_name(ty: Ty) -> Option<Seq<char>> {
    match ty.kind {
        TyKind::Path(segs) => if segs.len() == 1 && segs[0].args is Bare {
            Some(segs[0].name@)
        } else {
            None
        },
        _ => None,
    }
}

/// `j` is the position of the first item named `name`, or the number of
/// items when none is.
pub open spec fn first_named(items: Seq<Item>, name: Seq<char>, j: int) -> bool {
    &&& 0 <= j <= items.len()
    &&& forall|k: int| 0 <= k < j ==> #[trigger] items[k].name@ != name
    &&& j < items.len() ==> items[j].name@ == name
}

/// The position of the first item named `name`, or the number of items.
pub open spec fn find(items: Seq<Item>, name: Seq<char>) -> int {
    choose|j: int| first_named(items, name, j)
}

/// The item is a structure with named or positional fields.
pub open spec fn has_fields(item: Item) -> bool {
    item.kind matches ItemKind::Struct(body) && !(body is Unit)
}

pub open spec fn struct_fields(item: Item) -> Seq<Field> {
    match item.kind {
        ItemKind::Struct(StructBody::Named(f)) => f@,
        ItemKind::Struct(StructBody::Tuple(f)) => f@,
        _ => Seq::empty(),
    }
}

/// The injection lands on the item at `j` of the module.
pub open spec fn lands_on(items: Seq<Item>, inj: Injection, j: int) -> bool {
    &&& target_name(inj.target) matches Some(n)
    &&& 0 <= j < items.len()
    &&& find(items, n) == j
    &&& has_fields(items[j])
}

/// Some of the injections land on the item at `j`.
pub open spec fn hit(items: Seq<Item>, injs: Seq<Injection>, j: int) -> bool
    decreases injs.len(),
{
    if injs.len() == 0 {
        false
    } else {
        hit(items, injs.drop_last(), j) || lands_on(items, injs.last(), j)
    }
}

/// The fields that the injections add to the item at `j`, in their order.
pub open spec fn added(items: Seq<Item>, injs: Seq<Injection>, j: int) -> Seq<Field>
    decreases injs.len(),
{
    if injs.len() == 0 {
        Seq::empty()
    } else {
        added(items, injs.drop_last(), j) + if lands_on(items, injs.last(), j) {
            injs.last().fields@
        } else {
            Seq::empty()
        }
    }
}

/// `new` is `old` with `extra` after its fields; the kind of structure,
/// the name, the attributes and the span are kept.
pub open spec fn appended(old: Item, new: Item, extra: Seq<Field>) -> bool {
    &&& new.name == old.name
    &&& new.attrs == old.attrs
    &&& new.span == old.span
    &&& match old.kind {
        ItemKind::Struct(StructBody::Named(_)) => new.kind matches ItemKind::Struct(
            StructBody::Named(_),
        ),
        ItemKind::Struct(StructBody::Tuple(_)) => new.kind matches ItemKind::Struct(
            StructBody::Tuple(_),
        ),
        _ => false,
    }
    &&& struct_fields(new) == struct_fields(old) + extra
}

/// The items of a module once the injections are applied, one by one.
pub open spec fn resolved(items: Seq<Item>, injs: Seq<Injection>, out: Seq<Item>) -> bool {
    &&& out.len() == items.len()
    &&& forall|j: int|
        #![trigger out[j]]
        0 <= j < items.len() ==> if hit(items, injs, j) {
            appended(items[j], out[j], added(items, injs, j))
        } else {
            out[j] == items[j]
        }
}

/// What applying one injection reports.
pub open spec fn injection_diags(items: Seq<Item>, inj: Injection) -> Seq<Diagnostic> {
    match target_name(inj.target) {
        None => seq![Diagnostic { span: inj.target.span, kind: ErrorKind::UnresolvableTarget }],
        Some(n) => {
            let j = find(items, n);
            if j == items.len() {
                seq![Diagnostic { span: inj.target.span, kind: ErrorKind::TargetNotFound }]
            } else if has_fields(items[j]) {
                Seq::empty()
            } else {
                seq![Diagnostic { span: items[j].span, kind: ErrorKind::UnsupportedTarget }]
            }
        },
    }
}

/// What applying the injections reports, in their order.
pub open spec fn resolution_diags(items: Seq<Item>, injs: Seq<Injection>) -> Seq<Diagnostic>
    decreases injs.len(),
{
    if injs.len() == 0 {
        Seq::empty()
    } else {
        resolution_diags(items, injs.drop_last()) + injection_diags(items, injs.last())
    }
}

pub proof fn lemma_first_named_unique(items: Seq<Item>, name: Seq<char>, a: int, b: int)
    requires
        first_named(items, name, a),
        first_named(items, name, b),
    ensures
        a == b,
{
    if a < b {
        assert(items[a].name@ != name);
    } else if b < a {
        assert(items[b].name@ != name);
    }
}

proof fn lemma_first_named_exists(items: Seq<Item>, name: Seq<char>)
    ensures
        first_named(items, name, find(items, name)),
    decreases items.len(),
{
    if items.len() == 0 {
        assert(first_named(items, name, 0));
    } else {
        let pre = items.drop_last();
        lemma_first_named_exists(pre, name);
        let j = find(pre, name);
        assert forall|k: int| 0 <= k < j implies #[trigger] items[k].name@ != name by {
            assert(pre[k] == items[k]);
        }
        if j < pre.len() {
            assert(pre[j] == items[j]);
            assert(first_named(items, name, j));
        } else if items.last().name@ == name {
            assert(first_named(items, name, j));
        } else {
            assert(first_named(items, name, items.len() as int));
        }
    }
}

proof fn lemma_find(items: Seq<Item>, name: Seq<char>, j: int)
    requires
        first_named(items, name, j),
    ensures
        find(items, name) == j,
{
    lemma_first_named_exists(items, name);
    lemma_first_named_unique(items, name, find(items, name), j);
}

/// Two item lists with the same names, position by position, resolve every
/// name to the same position.
proof fn lemma_find_same_names(a: Seq<Item>, b: Seq<Item>, name: Seq<char>)
    requires
        a.len() == b.len(),
        forall|j: int| 0 <= j < a.len() ==> #[trigger] a[j].name@ == b[j].name@,
    ensures
        find(a, name) == find(b, name),
{
    let j = find(a, name);
    lemma_first_named_exists(a, name);
    assert(first_named(b, name, j)) by {
        assert forall|k: int| 0 <= k < j implies #[trigger] b[k].name@ != name by {
            assert(a[k].name@ != name);
        }
    }
    lemma_find(b, name, j);
}

proof fn lemma_added_without_hit(items: Seq<Item>, injs: Seq<Injection>, j: int)
    requires
        !hit(items, injs, j),
    ensures
        added(items, injs, j) == Seq::<Field>::empty(),
    decreases injs.len(),
{
    if injs.len() > 0 {
        lemma_added_without_hit(items, injs.drop_last(), j);
        assert(Seq::<Field>::empty() + Seq::<Field>::empty() =~= Seq::<Field>::empty());
    }
}

proof fn lemma_appended_trans(a: Item, b: Item, c: Item, x: Seq<Field>, y: Seq<Field>)
    requires
        appended(a, b, x),
        appended(b, c, y),
    ensures
        appended(a, c, x + y),
{
    assert(struct_fields(a) + x + y =~= struct_fields(a) + (x + y));
}

/// Field order: when every injection lands on the structure at `j`, each
/// with one field, the structure's fields become its own fields followed by
/// the injected ones, in the order the injections came.
pub proof fn lemma_field_append_order(items: Seq<Item>, injs: Seq<Injection>, out: Seq<Item>, j: int)
    requires
        resolved(items, injs, out),
        0 <= j < items.len(),
        injs.len() > 0,
        forall|k: int| 0 <= k < injs.len() ==> #[trigger] lands_on(items, injs[k], j),
        forall|k: int| 0 <= k < injs.len() ==> #[trigger] injs[k].fields.len() == 1,
    ensures
        struct_fields(out[j]) == struct_fields(items[j]) + injs.map_values(
            |inj: Injection| inj.fields@[0],
        ),
{
    lemma_added_all_land(items, injs, j);
    assert(hit(items, injs, j)) by {
        assert(lands_on(items, injs[injs.len() - 1], j));
    }
}

proof fn lemma_added_all_land(items: Seq<Item>, injs: Seq<Injection>, j: int)
    requires
        forall|k: int| 0 <= k < injs.len() ==> #[trigger] lands_on(items, injs[k], j),
        forall|k: int| 0 <= k < injs.len() ==> #[trigger] injs[k].fields.len() == 1,
    ensures
        added(items, injs, j) == injs.map_values(|inj: Injection| inj.fields@[0]),
    decreases injs.len(),
{
    if injs.len() == 0 {
        assert(injs.map_values(|inj: Injection| inj.fields@[0]) =~= Seq::<Field>::empty());
    } else {
        let pre = injs.drop_last();
        assert forall|k: int| 0 <= k < pre.len() implies #[trigger] lands_on(items, pre[k], j) by {
            assert(pre[k] == injs[k]);
        }
        assert forall|k: int| 0 <= k < pre.len() implies #[trigger] pre[k].fields.len() == 1 by {
            assert(pre[k] == injs[k]);
        }
        lemma_added_all_land(items, pre, j);
        let last = injs[injs.len() - 1];
        assert(lands_on(items, last, j));
        assert(last.fields.len() == 1);
        assert(last.fields@ =~= seq![last.fields@[0]]);
        assert(injs.map_values(|inj: Injection| inj.fields@[0]) =~= pre.map_values(
            |inj: Injection| inj.fields@[0],
        ).push(last.fields@[0]));
    }
}

/// Scope locality: an injection is resolved against the items of its own
/// module alone. When none of them carries the target's name, the injection
/// lands nowhere and is reported as not found, whatever other modules hold.
pub proof fn lemma_target_scope_local(items: Seq<Item>, inj: Injection)
    requires
        target_name(inj.target) is Some,
        forall|j: int| 0 <= j < items.len() ==> #[trigger] items[j].name@ != target_name(
            inj.target,
        )->0,
    ensures
        forall|j: int| !lands_on(items, inj, j),
        injection_diags(items, inj) == seq![
            Diagnostic { span: inj.target.span, kind: ErrorKind::TargetNotFound },
        ],
{
    let n = target_name(inj.target)->0;
    assert(first_named(items, n, items.len() as int));
    lemma_find(items, n, items.len() as int);
}

/// The name the target type resolves by, if it is a plain name.
fn simple_name(ty: &Ty) -> (r: Option<&String>)
    ensures
        match target_name(*ty) {
            Some(n) => r matches Some(s) && s@ == n,
            None => r is None,
        },
{
    match &ty.kind {
        TyKind::Path(segs) => {
            if segs.len() == 1 && matches!(segs[0].args, GenericArgs::Bare) {
                Some(&segs[0].name)
            } else {
                None
            }
        },
        _ => None,
    }
}

/// The position of the first item named `name`, or the number of items.
pub fn find_item(items: &Vec<Item>, name: &String) -> (r: usize)
    ensures
        r == find(items@, name@),
        r <= items.len(),
{
    let mut i: usize = 0;
    while i < items.len()
        invariant
            i <= items.len(),
            forall|k: int| 0 <= k < i ==> #[trigger] items@[k].name@ != name@,
        decreases items.len() - i,
    {
        if items[i].name == *name {
            proof {
                lemma_find(items@, name@, i as int);
            }
            return i;
        }
        i = i + 1;
    }
    proof {
        lemma_find(items@, name@, i as int);
    }
    i
}

fn item_has_fields(item: &Item) -> (r: bool)
    ensures
        r == has_fields(*item),
{
    match &item.kind {
        ItemKind::Struct(StructBody::Unit) => false,
        ItemKind::Struct(_) => true,
        _ => false,
    }
}

/// Appends the fields to a structure with fields.
fn append_fields(item: Item, fields: Vec<Field>) -> (r: Item)
    requires
        has_fields(item),
    ensures
        appended(item, r, fields@),
{
    let Item { name, attrs, kind, span } = item;
    let mut extra = fields;
    let kind = match kind {
        ItemKind::Struct(StructBody::Named(f)) => {
            let mut f = f;
            f.append(&mut extra);
            ItemKind::Struct(StructBody::Named(f))
        },
        ItemKind::Struct(StructBody::Tuple(f)) => {
            let mut f = f;
            f.append(&mut extra);
            ItemKind::Struct(StructBody::Tuple(f))
        },
        other => other,
    };
    Item { name, attrs, kind, span }
}

/// Applies one injection to the module's items, as `resolve` describes.
fn apply_injection(
    items: Ghost<Seq<Item>>,
    done: Ghost<Seq<Injection>>,
    cur: &mut Vec<Item>,
    inj: Injection,
    diags: &mut Vec<Diagnostic>,
)
    requires
        old(cur).len() == items@.len(),
        forall|j: int|
            0 <= j < items@.len() ==> {
                &&& #[trigger] old(cur)@[j].name == items@[j].name
                &&& has_fields(old(cur)@[j]) == has_fields(items@[j])
                &&& old(cur)@[j].span == items@[j].span
            },
        resolved(items@, done@, old(cur)@),
    ensures
        final(cur).len() == items@.len(),
        forall|j: int|
            0 <= j < items@.len() ==> {
                &&& #[trigger] final(cur)@[j].name == items@[j].name
                &&& has_fields(final(cur)@[j]) == has_fields(items@[j])
                &&& final(cur)@[j].span == items@[j].span
            },
        resolved(items@, done@.push(inj), final(cur)@),
        final(diags)@ == old(diags)@ + injection_diags(items@, inj),
{
    let ghost all = done@.push(inj);
    assert(all.drop_last() =~= done@);
    let ghost before = cur@;
    match simple_name(&inj.target) {
        None => {
            diags.push(Diagnostic { span: inj.target.span, kind: ErrorKind::UnresolvableTarget });
            assert forall|j: int| 0 <= j < items@.len() implies !lands_on(items@, inj, j) by {}
        },
        Some(n) => {
            let j0 = find_item(cur, n);
            proof {
                assert forall|j: int| 0 <= j < before.len() implies #[trigger] before[j].name@
                    == items@[j].name@ by {
                    assert(before[j].name == items@[j].name);
                }
                lemma_find_same_names(before, items@, n@);
            }
            if j0 == cur.len() {
                diags.push(Diagnostic { span: inj.target.span, kind: ErrorKind::TargetNotFound });
                assert forall|j: int| 0 <= j < items@.len() implies !lands_on(items@, inj, j) by {}
            } else if item_has_fields(&cur[j0]) {
                let it = cur.remove(j0);
                let Injection { target: _, fields } = inj;
                let it2 = append_fields(it, fields);
                cur.insert(j0, it2);
                proof {
                    assert(cur@ =~= before.update(j0 as int, it2));
                    assert(diags@ =~= old(diags)@ + injection_diags(items@, inj));
                    if hit(items@, done@, j0 as int) {
                        lemma_appended_trans(items@[j0 as int], before[j0 as int], it2,
                            added(items@, done@, j0 as int), inj.fields@);
                    } else {
                        lemma_added_without_hit(items@, done@, j0 as int);
                        assert(Seq::<Field>::empty() + inj.fields@ =~= inj.fields@);
                    }
                    assert(lands_on(items@, inj, j0 as int));
                    assert forall|j: int| 0 <= j < items@.len() && j != j0 implies !lands_on(
                        items@,
                        inj,
                        j,
                    ) by {}
                }
            } else {
                diags.push(Diagnostic { span: cur[j0].span, kind: ErrorKind::UnsupportedTarget });
                assert forall|j: int| 0 <= j < items@.len() implies !lands_on(items@, inj, j) by {}
            }
        },
    }
    proof {
        assert forall|j: int| 0 <= j < items@.len() implies #[trigger] added(items@, all, j)
            == added(items@, done@, j) + if lands_on(items@, inj, j) {
            inj.fields@
        } else {
            Seq::empty()
        } by {}
        assert forall|j: int| 0 <= j < items@.len() && !lands_on(items@, inj, j) implies #[trigger] added(
            items@,
            all,
            j,
        ) == added(items@, done@, j) by {
            assert(added(items@, done@, j) + Seq::<Field>::empty() =~= added(items@, done@, j));
        }
    }
}

/// Applies the injections to the module's items in order. An injection
/// whose target is a plain name lands on the first item of that name, if
/// that item is a structure with fields, and appends its fields there;
/// otherwise it is reported and the items stay as they were.
pub fn resolve(items: Vec<Item>, injs: Vec<Injection>, diags: &mut Vec<Diagnostic>) -> (r: Vec<Item>)
    ensures
        resolved(items@, injs@, r@),
        final(diags)@ == old(diags)@ + resolution_diags(items@, injs@),
{
    let ghost base = items@;
    let ghost all = injs@;
    let mut cur = items;
    let mut rest = injs;
    let mut k: usize = 0;
    let total: usize = rest.len();
    assert(all.len() == total);
    assert(all.take(0) =~= Seq::<Injection>::empty());
    assert(diags@ =~= old(diags)@ + resolution_diags(base, all.take(0)));
    while rest.len() > 0
        invariant
            k + rest.len() == all.len(),
            all.len() <= usize::MAX,
            rest@ == all.subrange(k as int, all.len() as int),
            cur.len() == base.len(),
            forall|j: int|
                0 <= j < base.len() ==> {
                    &&& #[trigger] cur@[j].name == base[j].name
                    &&& has_fields(cur@[j]) == has_fields(base[j])
                    &&& cur@[j].span == base[j].span
                },
            resolved(base, all.take(k as int), cur@),
            diags@ == old(diags)@ + resolution_diags(base, all.take(k as int)),
        decreases rest.len(),
    {
        let inj = rest.remove(0);
        assert(inj == all[k as int]);
        assert(all.take(k as int + 1) =~= all.take(k as int).push(inj));
        apply_injection(Ghost(base), Ghost(all.take(k as int)), &mut cur, inj, diags);
        k = k + 1;
        proof {
            assert(all.take(k as int).drop_last() =~= all.take(k as int - 1));
            assert(diags@ =~= old(diags)@ + resolution_diags(base, all.take(k as int)));
        }
    }
    assert(all.take(k as int) =~= all);
    cur
}

} // verus!
